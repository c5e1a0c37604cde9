//! Names of derived nodes. A name reflects the chain of operators that made
//! the node; it serves diagnostics only.

use vstd::prelude::*;
use crate::score::Score;

verus! {

/// The name of a node, as contracts speak of it.
pub struct NodeName {
    /// The characters of the name.
    pub text: Seq<char>,
}

/// The decimal digit of a number below ten.
pub open spec fn digit(value: nat) -> char {
    if value == 0 {
        '0'
    } else if value == 1 {
        '1'
    } else if value == 2 {
        '2'
    } else if value == 3 {
        '3'
    } else if value == 4 {
        '4'
    } else if value == 5 {
        '5'
    } else if value == 6 {
        '6'
    } else if value == 7 {
        '7'
    } else if value == 8 {
        '8'
    } else {
        '9'
    }
}

/// The digits of a number in decimal notation, without leading zeros.
pub open spec fn decimal(number: nat) -> Seq<char>
    decreases number,
{
    if number < 10 {
        seq![digit(number)]
    } else {
        decimal(number / 10).push(digit(number % 10))
    }
}

/// The digits of a number below ten thousand, with leading zeros.
pub open spec fn four_digits(number: nat) -> Seq<char> {
    seq![
        digit(number / 1000),
        digit((number / 100) % 10),
        digit((number / 10) % 10),
        digit(number % 10),
    ]
}

/// A number of ten-thousandths as a decimal fraction with four places, such
/// as `0.2500`.
pub open spec fn fixed(ten_thousandths: nat) -> Seq<char> {
    decimal(ten_thousandths / 10000) + seq!['.'] + four_digits(ten_thousandths % 10000)
}

/// A number halved `times` times, each time rounded down.
pub open spec fn halved(number: nat, times: nat) -> nat
    decreases times,
{
    if times == 0 {
        number
    } else {
        halved(number / 2, (times - 1) as nat)
    }
}

/// The number that the bit pattern of a score encodes, in ten-thousandths,
/// rounded to the nearest.
///
/// The pattern holds an exponent `e` above its lowest 23 bits, which hold a
/// fraction `f`; it encodes `(2^23 + f) * 2^(e - 150)`, and zero or a number
/// far below a ten-thousandth where `e` is zero.
pub open spec fn ten_thousandths(bits: u32) -> nat {
    let exponent = bits as nat / 0x80_0000;
    let fraction = bits as nat % 0x80_0000;
    if exponent == 0 || exponent >= 150 {
        0
    } else {
        (halved((0x80_0000 + fraction) * 20000, (150 - exponent) as nat) + 1) / 2
    }
}

/// The text of a score in names: its number with four decimal places.
pub open spec fn score_name(bits: u32) -> Seq<char> {
    fixed(ten_thousandths(bits))
}

/// `format!` of the standard library, on the pattern `{}.{:04}`: the first
/// number in decimal notation, a dot, and the second number, which is below
/// ten thousand, in four digits.
#[verifier::external_body]
fn fixed_text(whole: u64, fraction: u64) -> (text: String)
    requires
        fraction < 10000,
    ensures
        text@ == decimal(whole as nat) + seq!['.'] + four_digits(fraction as nat),
{
    format!("{}.{:04}", whole, fraction)
}

/// Returns the text of a score in names: its number with four decimal
/// places.
pub fn score_text(score: Score) -> (text: String)
    ensures
        text@ == score_name(score@),
{
    let bits = score.get();
    let exponent = bits / 0x80_0000;
    let fraction = bits % 0x80_0000;
    let mut number: u64 = 0;
    if exponent != 0 && exponent < 150 {
        let times: u32 = 150 - exponent;
        let mantissa: u64 = 0x80_0000u64 + fraction as u64;
        let mut rest: u64 = mantissa * 20000;
        let mut done: u32 = 0;
        while done < times
            invariant
                done <= times,
                halved(rest as nat, (times - done) as nat) == halved(
                    ((0x80_0000 + fraction) * 20000) as nat,
                    times as nat,
                ),
                rest <= 0x100_0000 * 20000,
            decreases times - done,
        {
            rest = rest / 2;
            done += 1;
        }
        number = (rest + 1) / 2;
    }
    let whole = number / 10000;
    let part = number % 10000;
    fixed_text(whole, part)
}

/// The name of a node derived from the node named `base` by `operator` with
/// `argument`: `base.operator(argument)`.
pub open spec fn derived_name(base: Seq<char>, operator: Seq<char>, argument: Seq<char>) -> Seq<
    char,
> {
    base + seq!['.'] + operator + seq!['('] + argument + seq![')']
}

/// `format!` of the standard library, on the pattern `{}.{}({})`: the three
/// texts in order, with a dot between the first two and the third in round
/// brackets.
#[verifier::external_body]
pub(crate) fn compose_name(base: &str, operator: &str, argument: &str) -> (name: String)
    ensures
        name@ == derived_name(base@, operator@, argument@),
{
    format!("{}.{}({})", base, operator, argument)
}

} // verus!
