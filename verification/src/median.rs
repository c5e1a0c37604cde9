//! The median of a collection of scores, and the middle by which it is
//! taken.

use vstd::prelude::*;
use vstd::relations::{sorted_by, total_ordering};
use vstd::seq_lib::lemma_sorted_unique;
use bevy_ecs::entity::Entity;
use bevy_ecs::world::World;
use crate::aggregator::{step_function, AggregationCtx, Aggregator, Step};
use crate::naming::NodeName;
use crate::score::{score_determined_by_bits, Score, MAX_BITS};

verus! {

/// Whether the numbers stand in ascending order.
pub open spec fn is_ascending(numbers: Seq<u32>) -> bool {
    forall|i: int, j: int| 0 <= i <= j < numbers.len() ==> numbers[i] <= numbers[j]
}

/// The bit patterns of the scores, in their order.
pub open spec fn bits_of(scores: Seq<Score>) -> Seq<u32> {
    Seq::new(scores.len(), |i: int| scores[i]@)
}

/// Whether `low` and `high` are the middle of the scores: of the scores in
/// ascending order, `high` is the one behind the first half, and `low` is the
/// one before it where the scores are even in number, else `high` itself.
pub open spec fn is_middle(scores: Seq<Score>, low: Score, high: Score) -> bool {
    exists|sorted: Seq<u32>| #[trigger] is_middle_of_sorted(sorted, scores, low, high)
}

/// Whether `sorted` holds the bit patterns of the scores in ascending order,
/// with those of `low` and `high` around its middle.
pub open spec fn is_middle_of_sorted(
    sorted: Seq<u32>,
    scores: Seq<Score>,
    low: Score,
    high: Score,
) -> bool {
    &&& is_ascending(sorted)
    &&& sorted.to_multiset() == bits_of(scores).to_multiset()
    &&& low@ == sorted[(scores.len() - 1) / 2]
    &&& high@ == sorted[(scores.len() / 2) as int]
}

/// The middle of the scores.
pub open spec fn middle_of(scores: Seq<Score>) -> (Score, Score) {
    choose|pair: (Score, Score)| is_middle(scores, pair.0, pair.1)
}

/// Some scores have one middle only.
pub proof fn middle_is_unique(
    scores: Seq<Score>,
    low: Score,
    high: Score,
    other_low: Score,
    other_high: Score,
)
    requires
        scores.len() > 0,
        is_middle(scores, low, high),
        is_middle(scores, other_low, other_high),
    ensures
        low == other_low,
        high == other_high,
{
    let one = choose|sorted: Seq<u32>| #[trigger] is_middle_of_sorted(sorted, scores, low, high);
    let other = choose|sorted: Seq<u32>| #[trigger]
        is_middle_of_sorted(sorted, scores, other_low, other_high);
    let leq = |a: u32, b: u32| a <= b;
    assert(sorted_by(one, leq));
    assert(sorted_by(other, leq));
    assert(total_ordering(leq)) by {
        assert(vstd::relations::reflexive(leq));
        assert(vstd::relations::antisymmetric(leq));
        assert(vstd::relations::transitive(leq));
        assert(vstd::relations::strongly_connected(leq));
    }
    lemma_sorted_unique(one, other, leq);
    one.to_multiset_ensures();
    bits_of(scores).to_multiset_ensures();
    score_determined_by_bits(low, other_low);
    score_determined_by_bits(high, other_high);
}

/// `sort_unstable` of the standard library, on a vector of integers: the
/// vector holds afterwards what it held before, in ascending order.
#[verifier::external_body]
fn sort_bits(bits: &mut Vec<u32>)
    ensures
        is_ascending(final(bits)@),
        final(bits)@.to_multiset() == old(bits)@.to_multiset(),
{
    bits.sort_unstable()
}

/// Returns the middle of the scores, or nothing where there are no scores.
///
/// The scores themselves stay as they are: a copy of them is sorted. Of an
/// odd number of scores the middle is one score, returned twice; of an even
/// number it is the two scores around the middle, the lower one first.
pub fn median_middle(scores: &[Score]) -> (middle: Option<(Score, Score)>)
    ensures
        middle is None <==> scores@.len() == 0,
        middle matches Some((low, high)) ==> is_middle(scores@, low, high) && low@ <= high@
            && (low, high) == middle_of(scores@),
{
    let len = scores.len();
    if len == 0 {
        return None;
    }
    let mut bits: Vec<u32> = Vec::new();
    let mut i: usize = 0;
    while i < len
        invariant
            len == scores.len(),
            i <= len,
            bits.len() == i,
            forall|k: int| 0 <= k < i ==> #[trigger] bits[k] == scores@[k]@,
            forall|k: int| 0 <= k < i ==> #[trigger] bits[k] <= MAX_BITS,
        decreases len - i,
    {
        bits.push(scores[i].get());
        i += 1;
    }
    let ghost unsorted = bits@;
    proof {
        assert(unsorted =~= bits_of(scores@));
    }
    sort_bits(&mut bits);
    proof {
        unsorted.to_multiset_ensures();
        bits@.to_multiset_ensures();
        assert forall|k: int| 0 <= k < bits.len() implies #[trigger] bits[k] <= MAX_BITS by {
            assert(bits@.contains(bits[k]));
            assert(unsorted.to_multiset().count(bits[k]) > 0);
            assert(unsorted.contains(bits[k]));
        }
        crate::score::lemma_unit_bits(bits[(len - 1) / 2 as int]);
        crate::score::lemma_unit_bits(bits[(len / 2) as int]);
    }
    let low = Score::new(bits[(len - 1) / 2]);
    let high = Score::new(bits[len / 2]);
    proof {
        assert(is_middle_of_sorted(bits@, scores@, low, high));
        let chosen = middle_of(scores@);
        assert(is_middle(scores@, (low, high).0, (low, high).1));
        middle_is_unique(scores@, low, high, chosen.0, chosen.1);
    }
    Some((low, high))
}

/// The median of the scores: the minimum where there are none, the middle
/// score of an odd number of scores, and of an even number what `mean`
/// makes of the two scores around the middle.
pub open spec fn median_of<F: Fn(Score, Score) -> Score + Send + Sync + 'static>(
    mean: Step<F>,
    scores: Seq<Score>,
) -> Score {
    if scores.len() == 0 {
        Score::spec_min()
    } else if scores.len() % 2 == 0 {
        mean.result_of(middle_of(scores).0, middle_of(scores).1)
    } else {
        middle_of(scores).1
    }
}

/// An aggregator that returns the median score of its children, and the
/// minimum where it has none.
pub struct MedianAggregator<F: Fn(Score, Score) -> Score + Send + Sync + 'static> {
    /// Gives the mean of the two scores around the middle of an even number
    /// of scores.
    pub mean: Step<F>,
}

impl<F: Fn(Score, Score) -> Score + Send + Sync + 'static> Aggregator for MedianAggregator<F> {
    open spec fn score_of(&self, world: &World, target: Entity, scores: Seq<Score>) -> Score {
        median_of(self.mean, scores)
    }

    open spec fn spec_name(&self) -> NodeName {
        NodeName { text: "median"@ }
    }

    open spec fn is_initialized(&self) -> bool {
        true
    }

    fn name(&self) -> (name: String) {
        "median".to_owned()
    }

    fn initialize(&mut self, world: &mut World) {
    }

    fn aggregate(&self, ctx: AggregationCtx) -> (score: Score) {
        let scores = ctx.aggregation.scores.as_slice();
        match median_middle(scores) {
            None => Score::min_score(),
            Some((low, high)) => {
                if scores.len() % 2 == 0 {
                    self.mean.apply(low, high)
                } else {
                    high
                }
            },
        }
    }
}

/// Creates an aggregator that returns the median score of its children: a
/// copy of the scores is sorted; of an odd number of scores the middle one
/// is returned, of an even number what `mean` makes of the two around the
/// middle. If no child scores are provided, the minimum is returned.
pub fn median<F: Fn(Score, Score) -> Score + Send + Sync + 'static>(mean: F) -> (aggregator:
    MedianAggregator<F>)
    requires
        step_function(mean),
    ensures
        aggregator.mean.step() == mean,
{
    MedianAggregator { mean: Step::new(mean) }
}

} // verus!
