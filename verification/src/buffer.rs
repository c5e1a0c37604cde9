//! The buffer that carries the scores of an aggregator's children.
//!
//! The buffer is a `smallvec::SmallVec` with room for four scores inline.
//! Nothing in this library looks inside it: [`buffered`] names what it holds,
//! and the private functions below state what each operation of `smallvec`
//! does to that.

use vstd::prelude::*;
use smallvec::SmallVec;
use crate::score::Score;

verus! {

/// An ordered collection of scores, kept in a `smallvec::SmallVec`.
#[verifier::external_body]
pub struct ScoreBuffer {
    inner: SmallVec<[Score; 4]>,
}

/// The scores that a buffer holds, in order.
pub uninterp spec fn buffered(buffer: ScoreBuffer) -> Seq<Score>;

impl View for ScoreBuffer {
    type V = Seq<Score>;

    /// The scores that the buffer holds, in order.
    open spec fn view(&self) -> Seq<Score> {
        buffered(*self)
    }
}

/// `SmallVec::new`: the result holds no score.
#[verifier::external_body]
fn buffer_new() -> (buffer: ScoreBuffer)
    ensures
        buffered(buffer) == Seq::<Score>::empty(),
{
    ScoreBuffer { inner: SmallVec::new() }
}

/// `SmallVec::push`: the score is appended behind those that the buffer held.
#[verifier::external_body]
fn buffer_push(buffer: &mut ScoreBuffer, score: Score)
    requires
        buffered(*old(buffer)).len() < usize::MAX,
    ensures
        buffered(*final(buffer)) == buffered(*old(buffer)).push(score),
{
    buffer.inner.push(score)
}

/// `SmallVec::as_slice`: the slice holds the scores of the buffer, in order.
#[verifier::external_body]
fn buffer_as_slice(buffer: &ScoreBuffer) -> (scores: &[Score])
    ensures
        scores@ == buffered(*buffer),
{
    buffer.inner.as_slice()
}

impl ScoreBuffer {
    /// Creates a buffer that holds no score.
    pub fn new() -> (buffer: ScoreBuffer)
        ensures
            buffer@ == Seq::<Score>::empty(),
    {
        buffer_new()
    }

    /// Creates a buffer that holds the given scores, in their order.
    pub fn from_scores(scores: &[Score]) -> (buffer: ScoreBuffer)
        ensures
            buffer@ == scores@,
    {
        let mut buffer = buffer_new();
        let mut i: usize = 0;
        while i < scores.len()
            invariant
                i <= scores.len(),
                buffer@ == scores@.subrange(0, i as int),
            decreases scores.len() - i,
        {
            buffer_push(&mut buffer, scores[i]);
            proof {
                assert(scores@.subrange(0, i as int).push(scores@[i as int]) =~= scores@.subrange(
                    0,
                    i + 1,
                ));
            }
            i += 1;
        }
        proof {
            assert(scores@.subrange(0, scores@.len() as int) =~= scores@);
        }
        buffer
    }

    /// Appends a score behind those that the buffer holds.
    pub fn push(&mut self, score: Score)
        requires
            old(self)@.len() < usize::MAX,
        ensures
            final(self)@ == old(self)@.push(score),
    {
        buffer_push(self, score)
    }

    /// The scores of the buffer as a slice, in order.
    pub fn as_slice(&self) -> (scores: &[Score])
        ensures
            scores@ == self@,
    {
        buffer_as_slice(self)
    }

    /// The number of scores that the buffer holds.
    pub fn len(&self) -> (len: usize)
        ensures
            len == self@.len(),
    {
        buffer_as_slice(self).len()
    }
}

} // verus!
