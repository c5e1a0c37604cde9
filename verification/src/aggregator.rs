//! The [`Aggregator`] trait: a computation that combines the scores of its
//! children into one score, the primitive aggregators, and the operators
//! that derive one aggregator from another.

use vstd::prelude::*;
use bevy_ecs::entity::Entity;
use bevy_ecs::world::World;
use crate::buffer::ScoreBuffer;
use crate::evaluator::{
    or_min, sample_or_min, sampling_function, thresholded, EvaluationCtx, Evaluator, Sampler,
};
use crate::config::{
    aggregator_node, holds_aggregator, FlowNodeConfig, IntoFlowNodeConfigs,
};
use crate::mapper::{IntoMapper, Mapper, Mapping, MappingCtx};
use crate::naming::{compose_name, derived_name, score_name, score_text, NodeName};
use crate::score::Score;

verus! {

/// What is aggregated: the target and the scores of the children.
pub struct Aggregation {
    /// The entity that is being scored.
    pub target: Entity,
    /// The computed children scores, in the order in which the children were
    /// registered.
    pub scores: ScoreBuffer,
}

/// World and [`Aggregation`] pair passed to an [`Aggregator`].
pub struct AggregationCtx<'w> {
    /// The world in which the target is scored.
    pub world: &'w World,
    /// The aggregation of scores being evaluated.
    pub aggregation: Aggregation,
}

/// A computation that views the target in the world and the scores of its
/// children and aggregates them into a single score. Aggregation only reads:
/// for one aggregator, world, target and sequence of scores the outcome is
/// always the same, and [`Aggregator::score_of`] is its name.
pub trait Aggregator: Send + Sync + 'static {
    /// The score of `target` in `world`, given the scores of the children.
    spec fn score_of(&self, world: &World, target: Entity, scores: Seq<Score>) -> Score;

    /// The name of the aggregator.
    spec fn spec_name(&self) -> NodeName;

    /// Whether the aggregator is prepared for its first aggregation.
    spec fn is_initialized(&self) -> bool;

    /// Returns the name of the aggregator.
    fn name(&self) -> (name: String)
        ensures
            name@ == self.spec_name().text,
    ;

    /// Prepares the aggregator; called once before the first aggregation.
    /// An aggregator that wraps other nodes prepares those too.
    fn initialize(&mut self, world: &mut World)
        ensures
            final(self).is_initialized(),
            old(self).is_initialized() ==> forall|w: &World, target: Entity, scores: Seq<Score>|
                #[trigger] final(self).score_of(w, target, scores) == old(self).score_of(
                    w,
                    target,
                    scores,
                ),
    ;

    /// Aggregates the children scores of the given context. The aggregator
    /// must have been initialized.
    fn aggregate(&self, ctx: AggregationCtx) -> (score: Score)
        requires
            self.is_initialized(),
        ensures
            score == self.score_of(ctx.world, ctx.aggregation.target, ctx.aggregation.scores@),
    ;
}

/// The highest of the scores, or the minimum where there is none.
pub open spec fn highest(scores: Seq<Score>) -> Score
    decreases scores.len(),
{
    if scores.len() == 0 {
        Score::spec_min()
    } else {
        let before = highest(scores.drop_last());
        if before@ <= scores.last()@ {
            scores.last()
        } else {
            before
        }
    }
}

/// The lowest of the scores, or the minimum where there is none.
pub open spec fn lowest(scores: Seq<Score>) -> Score
    decreases scores.len(),
{
    if scores.len() == 0 {
        Score::spec_min()
    } else if scores.len() == 1 {
        scores[0]
    } else {
        let before = lowest(scores.drop_last());
        if scores.last()@ < before@ {
            scores.last()
        } else {
            before
        }
    }
}

/// Whether one of the scores is below the threshold.
pub open spec fn some_below(scores: Seq<Score>, threshold: Score) -> bool {
    exists|i: int| 0 <= i < scores.len() && (#[trigger] scores[i])@ < threshold@
}

/// The highest of some scores is one of them and no other is above it.
pub proof fn lemma_highest_bounds(scores: Seq<Score>)
    requires
        scores.len() > 0,
    ensures
        scores.contains(highest(scores)),
        forall|i: int| 0 <= i < scores.len() ==> (#[trigger] scores[i])@ <= highest(scores)@,
    decreases scores.len(),
{
    let before = scores.drop_last();
    if before.len() > 0 {
        lemma_highest_bounds(before);
        let found = choose|i: int| 0 <= i < before.len() && before[i] == highest(before);
        assert(scores[found] == highest(before));
        assert forall|i: int| 0 <= i < scores.len() implies (#[trigger] scores[i])@ <= highest(
            scores,
        )@ by {
            if i < before.len() {
                assert(before[i] == scores[i]);
            }
        }
    } else {
        crate::score::score_bounds_bits();
        assert(highest(before) == Score::spec_min());
        assert(highest(scores) == scores.last());
    }
    assert(scores[scores.len() - 1] == scores.last());
    assert(scores.contains(scores.last()));
}

/// The lowest of some scores is one of them and no other is below it.
pub proof fn lemma_lowest_bounds(scores: Seq<Score>)
    requires
        scores.len() > 0,
    ensures
        scores.contains(lowest(scores)),
        forall|i: int| 0 <= i < scores.len() ==> lowest(scores)@ <= (#[trigger] scores[i])@,
    decreases scores.len(),
{
    let before = scores.drop_last();
    if before.len() > 0 {
        lemma_lowest_bounds(before);
        let found = choose|i: int| 0 <= i < before.len() && before[i] == lowest(before);
        assert(scores[found] == lowest(before));
        assert forall|i: int| 0 <= i < scores.len() implies lowest(scores)@ <= (
        #[trigger] scores[i])@ by {
            if i < before.len() {
                assert(before[i] == scores[i]);
            }
        }
    }
    assert(scores[scores.len() - 1] == scores.last());
    assert(scores.contains(scores.last()));
    assert(scores.contains(scores[0]));
}

/// Returns the highest of the scores, or the minimum where there is none.
pub fn highest_score(scores: &[Score]) -> (out: Score)
    ensures
        out == highest(scores@),
{
    let mut out = Score::min_score();
    let mut i: usize = 0;
    proof {
        assert(scores@.subrange(0, 0) =~= Seq::<Score>::empty());
    }
    while i < scores.len()
        invariant
            i <= scores.len(),
            out == highest(scores@.subrange(0, i as int)),
        decreases scores.len() - i,
    {
        proof {
            assert(scores@.subrange(0, i + 1).drop_last() =~= scores@.subrange(0, i as int));
        }
        if !scores[i].below(&out) {
            out = scores[i];
        }
        i += 1;
    }
    proof {
        assert(scores@.subrange(0, scores@.len() as int) =~= scores@);
    }
    out
}

/// Returns the lowest of the scores, or the minimum where there is none.
pub fn lowest_score(scores: &[Score]) -> (out: Score)
    ensures
        out == lowest(scores@),
{
    if scores.len() == 0 {
        return Score::min_score();
    }
    let mut out = scores[0];
    let mut i: usize = 1;
    proof {
        assert(scores@.subrange(0, 1).len() == 1);
    }
    while i < scores.len()
        invariant
            1 <= i <= scores.len(),
            out == lowest(scores@.subrange(0, i as int)),
        decreases scores.len() - i,
    {
        proof {
            assert(scores@.subrange(0, i + 1).drop_last() =~= scores@.subrange(0, i as int));
        }
        if scores[i].below(&out) {
            out = scores[i];
        }
        i += 1;
    }
    proof {
        assert(scores@.subrange(0, scores@.len() as int) =~= scores@);
    }
    out
}

/// Whether one of the scores is below the threshold.
pub fn any_below(scores: &[Score], threshold: Score) -> (below: bool)
    ensures
        below == some_below(scores@, threshold),
{
    let mut i: usize = 0;
    while i < scores.len()
        invariant
            i <= scores.len(),
            forall|k: int| 0 <= k < i ==> !((#[trigger] scores@[k])@ < threshold@),
        decreases scores.len() - i,
    {
        if scores[i].below(&threshold) {
            return true;
        }
        i += 1;
    }
    false
}

/// The samples that a curve gave, without those places where it gave none.
pub open spec fn sampled(samples: Seq<Option<Score>>) -> Seq<Score>
    decreases samples.len(),
{
    if samples.len() == 0 {
        Seq::empty()
    } else if samples.last() is Some {
        sampled(samples.drop_last()).push(samples.last().unwrap())
    } else {
        sampled(samples.drop_last())
    }
}

/// Keeps the scores that a curve could be sampled at, in their order, and
/// drops every place where it could not: such a score leaves the input, it
/// is not replaced.
pub fn retain_sampled(samples: &[Option<Score>]) -> (kept: ScoreBuffer)
    ensures
        kept@ == sampled(samples@),
{
    let mut kept = ScoreBuffer::new();
    let mut i: usize = 0;
    proof {
        assert(samples@.subrange(0, 0) =~= Seq::<Option<Score>>::empty());
    }
    while i < samples.len()
        invariant
            i <= samples.len(),
            kept@ == sampled(samples@.subrange(0, i as int)),
            kept@.len() <= i,
        decreases samples.len() - i,
    {
        proof {
            assert(samples@.subrange(0, i + 1).drop_last() =~= samples@.subrange(0, i as int));
        }
        if let Some(score) = samples[i] {
            kept.push(score);
        }
        i += 1;
    }
    proof {
        assert(samples@.subrange(0, samples@.len() as int) =~= samples@);
    }
    kept
}

/// An aggregator that returns the highest score of its children, and the
/// minimum where it has none.
pub struct MaximumAggregator;

impl Aggregator for MaximumAggregator {
    open spec fn score_of(&self, world: &World, target: Entity, scores: Seq<Score>) -> Score {
        highest(scores)
    }

    open spec fn spec_name(&self) -> NodeName {
        NodeName { text: "maximum"@ }
    }

    open spec fn is_initialized(&self) -> bool {
        true
    }

    fn name(&self) -> (name: String) {
        "maximum".to_owned()
    }

    fn initialize(&mut self, world: &mut World) {
    }

    fn aggregate(&self, ctx: AggregationCtx) -> (score: Score) {
        highest_score(ctx.aggregation.scores.as_slice())
    }
}

/// Creates an aggregator that returns the highest score of its children. If
/// no child scores are provided, the minimum is returned.
pub fn maximum() -> MaximumAggregator {
    MaximumAggregator
}

/// An aggregator that returns the lowest score of its children, and the
/// minimum where it has none.
pub struct MinimumAggregator;

impl Aggregator for MinimumAggregator {
    open spec fn score_of(&self, world: &World, target: Entity, scores: Seq<Score>) -> Score {
        lowest(scores)
    }

    open spec fn spec_name(&self) -> NodeName {
        NodeName { text: "minimum"@ }
    }

    open spec fn is_initialized(&self) -> bool {
        true
    }

    fn name(&self) -> (name: String) {
        "minimum".to_owned()
    }

    fn initialize(&mut self, world: &mut World) {
    }

    fn aggregate(&self, ctx: AggregationCtx) -> (score: Score) {
        lowest_score(ctx.aggregation.scores.as_slice())
    }
}

/// Creates an aggregator that returns the lowest score of its children. If
/// no child scores are provided, the minimum is returned.
pub fn minimum() -> MinimumAggregator {
    MinimumAggregator
}

/// Whether a function can be called on every pair of scores, and has one
/// outcome for each.
pub open spec fn step_function<F: Fn(Score, Score) -> Score>(step: F) -> bool {
    &&& forall|total: Score, next: Score| #[trigger] step.requires((total, next))
    &&& forall|total: Score, next: Score, a: Score, b: Score|
        #![auto]
        step.ensures((total, next), a) && step.ensures((total, next), b) ==> a == b
}

/// An operation on two scores, such as their sum or their product.
pub struct Step<F: Fn(Score, Score) -> Score + Send + Sync + 'static> {
    step: F,
}

impl<F: Fn(Score, Score) -> Score + Send + Sync + 'static> Step<F> {
    #[verifier::type_invariant]
    spec fn sound(self) -> bool {
        step_function(self.step)
    }

    /// The function that the operation calls.
    pub closed spec fn step(self) -> F {
        self.step
    }

    /// What the operation makes of two scores.
    pub closed spec fn result_of(self, total: Score, next: Score) -> Score {
        choose|out: Score| self.step.ensures((total, next), out)
    }

    /// Makes an operation of a function that can be called on every pair of
    /// scores and has one outcome for each.
    pub fn new(step: F) -> (made: Self)
        requires
            step_function(step),
        ensures
            made.step() == step,
    {
        Step { step }
    }

    /// Applies the operation to two scores.
    pub fn apply(&self, total: Score, next: Score) -> (out: Score)
        ensures
            out == self.result_of(total, next),
    {
        proof {
            use_type_invariant(self);
        }
        (self.step)(total, next)
    }
}

/// The scores reduced by an operation, from the left, beginning with
/// `start`.
pub open spec fn folded<F: Fn(Score, Score) -> Score + Send + Sync + 'static>(
    step: Step<F>,
    start: Score,
    scores: Seq<Score>,
) -> Score
    decreases scores.len(),
{
    if scores.len() == 0 {
        start
    } else {
        step.result_of(folded(step, start, scores.drop_last()), scores.last())
    }
}

/// An aggregator that reduces the scores of its children by an operation,
/// beginning with the identity of the operation, and returns the minimum
/// where it has no children.
pub struct FoldAggregator<F: Fn(Score, Score) -> Score + Send + Sync + 'static> {
    /// The name of the aggregator.
    pub name: String,
    /// The score that the reduction begins with.
    pub start: Score,
    /// The operation that the scores are reduced by.
    pub step: Step<F>,
}

impl<F: Fn(Score, Score) -> Score + Send + Sync + 'static> Aggregator for FoldAggregator<F> {
    open spec fn score_of(&self, world: &World, target: Entity, scores: Seq<Score>) -> Score {
        if scores.len() == 0 {
            Score::spec_min()
        } else {
            folded(self.step, self.start, scores)
        }
    }

    open spec fn spec_name(&self) -> NodeName {
        NodeName { text: self.name@ }
    }

    open spec fn is_initialized(&self) -> bool {
        true
    }

    fn name(&self) -> (name: String) {
        self.name.clone()
    }

    fn initialize(&mut self, world: &mut World) {
    }

    fn aggregate(&self, ctx: AggregationCtx) -> (score: Score) {
        let scores = ctx.aggregation.scores.as_slice();
        if scores.len() == 0 {
            return Score::min_score();
        }
        let mut total = self.start;
        let mut i: usize = 0;
        proof {
            assert(scores@.subrange(0, 0) =~= Seq::<Score>::empty());
        }
        while i < scores.len()
            invariant
                i <= scores.len(),
                total == folded(self.step, self.start, scores@.subrange(0, i as int)),
            decreases scores.len() - i,
        {
            proof {
                assert(scores@.subrange(0, i + 1).drop_last() =~= scores@.subrange(0, i as int));
            }
            total = self.step.apply(total, scores[i]);
            i += 1;
        }
        proof {
            assert(scores@.subrange(0, scores@.len() as int) =~= scores@);
        }
        total
    }
}

/// Creates an aggregator that reduces the scores of its children by the
/// given operation, beginning with `start`. If no child scores are
/// provided, the minimum is returned.
pub fn fold<F: Fn(Score, Score) -> Score + Send + Sync + 'static>(
    name: &str,
    start: Score,
    step: F,
) -> (aggregator: FoldAggregator<F>)
    requires
        step_function(step),
    ensures
        aggregator.name@ == name@,
        aggregator.start == start,
        aggregator.step.step() == step,
{
    FoldAggregator { name: name.to_owned(), start, step: Step::new(step) }
}

/// An aggregator that returns the minimum where it has no children, and
/// the output of another aggregator where it has some.
pub struct NonEmptyAggregator<A> {
    /// The aggregator that is asked where there are children.
    pub aggregator: A,
}

impl<A: Aggregator> Aggregator for NonEmptyAggregator<A> {
    open spec fn score_of(&self, world: &World, target: Entity, scores: Seq<Score>) -> Score {
        if scores.len() == 0 {
            Score::spec_min()
        } else {
            self.aggregator.score_of(world, target, scores)
        }
    }

    open spec fn spec_name(&self) -> NodeName {
        self.aggregator.spec_name()
    }

    open spec fn is_initialized(&self) -> bool {
        self.aggregator.is_initialized()
    }

    fn name(&self) -> (name: String) {
        self.aggregator.name()
    }

    fn initialize(&mut self, world: &mut World) {
        self.aggregator.initialize(world);
    }

    fn aggregate(&self, ctx: AggregationCtx) -> (score: Score) {
        if ctx.aggregation.scores.len() == 0 {
            Score::min_score()
        } else {
            self.aggregator.aggregate(ctx)
        }
    }
}

/// An aggregator whose output is the output of another, passed through a
/// mapper.
pub struct MapAggregator<M, A> {
    /// The mapper applied to the output.
    pub mapper: M,
    /// The wrapped aggregator.
    pub aggregator: A,
}

impl<M: Mapper<Score>, A: Aggregator> Aggregator for MapAggregator<M, A> {
    open spec fn score_of(&self, world: &World, target: Entity, scores: Seq<Score>) -> Score {
        self.mapper.mapped(world, target, self.aggregator.score_of(world, target, scores))
    }

    open spec fn spec_name(&self) -> NodeName {
        NodeName {
            text: derived_name(
                self.aggregator.spec_name().text,
                "map"@,
                self.mapper.spec_name().text,
            ),
        }
    }

    open spec fn is_initialized(&self) -> bool {
        self.mapper.is_initialized() && self.aggregator.is_initialized()
    }

    fn name(&self) -> (name: String) {
        let base = self.aggregator.name();
        let mapper = self.mapper.name();
        compose_name(base.as_str(), "map", mapper.as_str())
    }

    fn initialize(&mut self, world: &mut World) {
        self.mapper.initialize(world);
        self.aggregator.initialize(world);
    }

    fn aggregate(&self, ctx: AggregationCtx) -> (score: Score) {
        let world = ctx.world;
        let target = ctx.aggregation.target;
        let value = self.aggregator.aggregate(ctx);
        self.mapper.map(MappingCtx { world, mapping: Mapping { target, value } })
    }
}

/// An aggregator whose output is the output of another where that reaches a
/// threshold, and the minimum where it does not.
pub struct OutputThresholdAggregator<A> {
    /// The score below which the output is forced to the minimum.
    pub threshold: Score,
    /// The wrapped aggregator.
    pub aggregator: A,
}

impl<A: Aggregator> Aggregator for OutputThresholdAggregator<A> {
    open spec fn score_of(&self, world: &World, target: Entity, scores: Seq<Score>) -> Score {
        thresholded(self.aggregator.score_of(world, target, scores), self.threshold)
    }

    open spec fn spec_name(&self) -> NodeName {
        NodeName {
            text: derived_name(
                self.aggregator.spec_name().text,
                "threshold"@,
                score_name(self.threshold@),
            ),
        }
    }

    open spec fn is_initialized(&self) -> bool {
        self.aggregator.is_initialized()
    }

    fn name(&self) -> (name: String) {
        let base = self.aggregator.name();
        let threshold = score_text(self.threshold);
        compose_name(base.as_str(), "threshold", threshold.as_str())
    }

    fn initialize(&mut self, world: &mut World) {
        self.aggregator.initialize(world);
    }

    fn aggregate(&self, ctx: AggregationCtx) -> (score: Score) {
        let score = self.aggregator.aggregate(ctx);
        crate::evaluator::apply_threshold(score, self.threshold)
    }
}

/// An aggregator whose output is the minimum where any of its input scores
/// is below a threshold, and the output of another aggregator where none is.
pub struct InputThresholdAggregator<A> {
    /// The score below which an input forces the output to the minimum.
    pub threshold: Score,
    /// The wrapped aggregator.
    pub aggregator: A,
}

impl<A: Aggregator> Aggregator for InputThresholdAggregator<A> {
    open spec fn score_of(&self, world: &World, target: Entity, scores: Seq<Score>) -> Score {
        if some_below(scores, self.threshold) {
            Score::spec_min()
        } else {
            self.aggregator.score_of(world, target, scores)
        }
    }

    open spec fn spec_name(&self) -> NodeName {
        NodeName {
            text: derived_name(
                self.aggregator.spec_name().text,
                "input_threshold"@,
                score_name(self.threshold@),
            ),
        }
    }

    open spec fn is_initialized(&self) -> bool {
        self.aggregator.is_initialized()
    }

    fn name(&self) -> (name: String) {
        let base = self.aggregator.name();
        let threshold = score_text(self.threshold);
        compose_name(base.as_str(), "input_threshold", threshold.as_str())
    }

    fn initialize(&mut self, world: &mut World) {
        self.aggregator.initialize(world);
    }

    fn aggregate(&self, ctx: AggregationCtx) -> (score: Score) {
        if any_below(ctx.aggregation.scores.as_slice(), self.threshold) {
            Score::min_score()
        } else {
            self.aggregator.aggregate(ctx)
        }
    }
}

/// A threshold on the output of an aggregator yields the minimum wherever
/// the output of the wrapped aggregator is below the threshold, and that
/// output unchanged wherever it is not.
pub proof fn output_threshold_law<A: Aggregator>(
    limited: OutputThresholdAggregator<A>,
    world: &World,
    target: Entity,
    scores: Seq<Score>,
)
    ensures
        limited.aggregator.score_of(world, target, scores)@ < limited.threshold@
            ==> limited.score_of(world, target, scores) == Score::spec_min(),
        limited.aggregator.score_of(world, target, scores)@ >= limited.threshold@
            ==> limited.score_of(world, target, scores) == limited.aggregator.score_of(
            world,
            target,
            scores,
        ),
{
}

/// A threshold on the input of an aggregator yields the minimum if and only
/// if one of the child scores is below the threshold or the wrapped
/// aggregator yields the minimum itself; where no child score is below the
/// threshold, it yields what the wrapped aggregator yields.
pub proof fn input_threshold_law<A: Aggregator>(
    limited: InputThresholdAggregator<A>,
    world: &World,
    target: Entity,
    scores: Seq<Score>,
)
    ensures
        some_below(scores, limited.threshold) ==> limited.score_of(world, target, scores)
            == Score::spec_min(),
        !some_below(scores, limited.threshold) ==> limited.score_of(world, target, scores)
            == limited.aggregator.score_of(world, target, scores),
        limited.score_of(world, target, scores) == Score::spec_min() <==> some_below(
            scores,
            limited.threshold,
        ) || limited.aggregator.score_of(world, target, scores) == Score::spec_min(),
{
}

/// Without child scores the highest score, the lowest score, every
/// reduction, such as a sum or a product, and every aggregator that is
/// guarded against an empty input, such as an average, are the minimum.
pub proof fn empty_input_law<F: Fn(Score, Score) -> Score + Send + Sync + 'static, A: Aggregator>(
    reduction: FoldAggregator<F>,
    guarded: NonEmptyAggregator<A>,
    world: &World,
    target: Entity,
)
    ensures
        MaximumAggregator.score_of(world, target, Seq::<Score>::empty()) == Score::spec_min(),
        MinimumAggregator.score_of(world, target, Seq::<Score>::empty()) == Score::spec_min(),
        reduction.score_of(world, target, Seq::<Score>::empty()) == Score::spec_min(),
        guarded.score_of(world, target, Seq::<Score>::empty()) == Score::spec_min(),
{
}

/// An aggregator whose output is a curve sampled at the output of another,
/// or the minimum where the curve cannot be sampled there.
pub struct CurveAggregator<C: Fn(Score) -> Option<Score> + Send + Sync + 'static, A> {
    /// The curve applied to the output.
    pub curve: Sampler<C>,
    /// The wrapped aggregator.
    pub aggregator: A,
}

impl<C, A> Aggregator for CurveAggregator<C, A> where
    C: Fn(Score) -> Option<Score> + Send + Sync + 'static,
    A: Aggregator,
{
    open spec fn score_of(&self, world: &World, target: Entity, scores: Seq<Score>) -> Score {
        or_min(self.curve.sample_of(self.aggregator.score_of(world, target, scores)))
    }

    open spec fn spec_name(&self) -> NodeName {
        NodeName {
            text: derived_name(self.aggregator.spec_name().text, "curve"@, "function"@),
        }
    }

    open spec fn is_initialized(&self) -> bool {
        self.aggregator.is_initialized()
    }

    fn name(&self) -> (name: String) {
        let base = self.aggregator.name();
        compose_name(base.as_str(), "curve", "function")
    }

    fn initialize(&mut self, world: &mut World) {
        self.aggregator.initialize(world);
    }

    fn aggregate(&self, ctx: AggregationCtx) -> (score: Score) {
        let score = self.aggregator.aggregate(ctx);
        sample_or_min(self.curve.sample(score))
    }
}

/// What a curve gives at each of the scores, in their order.
pub open spec fn samples_of<C: Fn(Score) -> Option<Score> + Send + Sync + 'static>(
    curve: Sampler<C>,
    scores: Seq<Score>,
) -> Seq<Option<Score>> {
    Seq::new(scores.len(), |i: int| curve.sample_of(scores[i]))
}

/// An aggregator that samples a curve at each of its input scores before it
/// hands them to another aggregator. An input at which the curve cannot be
/// sampled is dropped from the input.
pub struct CurveInputAggregator<C: Fn(Score) -> Option<Score> + Send + Sync + 'static, A> {
    /// The curve applied to each input.
    pub curve: Sampler<C>,
    /// The wrapped aggregator.
    pub aggregator: A,
}

impl<C, A> Aggregator for CurveInputAggregator<C, A> where
    C: Fn(Score) -> Option<Score> + Send + Sync + 'static,
    A: Aggregator,
{
    open spec fn score_of(&self, world: &World, target: Entity, scores: Seq<Score>) -> Score {
        self.aggregator.score_of(world, target, sampled(samples_of(self.curve, scores)))
    }

    open spec fn spec_name(&self) -> NodeName {
        NodeName {
            text: derived_name(self.aggregator.spec_name().text, "curve_input"@, "function"@),
        }
    }

    open spec fn is_initialized(&self) -> bool {
        self.aggregator.is_initialized()
    }

    fn name(&self) -> (name: String) {
        let base = self.aggregator.name();
        compose_name(base.as_str(), "curve_input", "function")
    }

    fn initialize(&mut self, world: &mut World) {
        self.aggregator.initialize(world);
    }

    fn aggregate(&self, ctx: AggregationCtx) -> (score: Score) {
        let world = ctx.world;
        let target = ctx.aggregation.target;
        let inputs = ctx.aggregation.scores.as_slice();
        let mut samples: Vec<Option<Score>> = Vec::new();
        let mut i: usize = 0;
        while i < inputs.len()
            invariant
                i <= inputs.len(),
                samples.len() == i,
                forall|k: int|
                    0 <= k < i ==> #[trigger] samples[k] == self.curve.sample_of(inputs@[k]),
            decreases inputs.len() - i,
        {
            samples.push(self.curve.sample(inputs[i]));
            i += 1;
        }
        proof {
            assert(samples@ =~= samples_of(self.curve, inputs@));
        }
        let kept = retain_sampled(samples.as_slice());
        self.aggregator.aggregate(
            AggregationCtx { world, aggregation: Aggregation { target, scores: kept } },
        )
    }
}

/// Whether a function can be called on every world and target, and finds
/// the same scores for each, or nothing for each.
pub open spec fn lookup_function<L: Fn(&World, Entity) -> Option<ScoreBuffer>>(lookup: L) -> bool {
    &&& forall|world: &World, target: Entity| #[trigger] lookup.requires((world, target))
    &&& forall|world: &World, target: Entity, a: Option<ScoreBuffer>, b: Option<ScoreBuffer>|
        #![auto]
        lookup.ensures((world, target), a) && lookup.ensures((world, target), b) ==> views_of(a)
            == views_of(b)
}

/// The scores that a buffer holds, if there is a buffer.
pub open spec fn views_of(found: Option<ScoreBuffer>) -> Option<Seq<Score>> {
    match found {
        Some(buffer) => Some(buffer@),
        None => None,
    }
}

/// Finds the scores of the children of a target: nothing where the target
/// has no children, else the scores of those children that can be scored.
pub struct ChildLookup<L: Fn(&World, Entity) -> Option<ScoreBuffer> + Send + Sync + 'static> {
    lookup: L,
}

impl<L: Fn(&World, Entity) -> Option<ScoreBuffer> + Send + Sync + 'static> ChildLookup<L> {
    #[verifier::type_invariant]
    spec fn sound(self) -> bool {
        lookup_function(self.lookup)
    }

    /// The function that finds the scores.
    pub closed spec fn lookup(self) -> L {
        self.lookup
    }

    /// The scores found for the children of `target` in `world`.
    pub closed spec fn found(self, world: &World, target: Entity) -> Option<Seq<Score>> {
        views_of(choose|found: Option<ScoreBuffer>| self.lookup.ensures((world, target), found))
    }

    /// Makes a lookup of a function that can be called on every world and
    /// target and finds the same scores for each.
    pub fn new(lookup: L) -> (made: Self)
        requires
            lookup_function(lookup),
        ensures
            made.lookup() == lookup,
    {
        ChildLookup { lookup }
    }

    /// Finds the scores of the children of `target` in `world`.
    pub fn find(&self, world: &World, target: Entity) -> (found: Option<ScoreBuffer>)
        ensures
            views_of(found) == self.found(world, target),
    {
        proof {
            use_type_invariant(self);
        }
        (self.lookup)(world, target)
    }
}

/// An evaluator that scores the children of the target and aggregates their
/// scores. If the target has no children, or none of them can be scored, it
/// returns the minimum.
pub struct ChildrenEvaluator<
    L: Fn(&World, Entity) -> Option<ScoreBuffer> + Send + Sync + 'static,
    A,
> {
    /// Finds the scores of the children.
    pub lookup: ChildLookup<L>,
    /// Aggregates the scores of the children.
    pub aggregator: A,
}

impl<L, A> Evaluator for ChildrenEvaluator<L, A> where
    L: Fn(&World, Entity) -> Option<ScoreBuffer> + Send + Sync + 'static,
    A: Aggregator,
{
    open spec fn score_of(&self, world: &World, target: Entity) -> Score {
        children_score(&self.aggregator, world, target, self.lookup.found(world, target))
    }

    open spec fn spec_name(&self) -> NodeName {
        NodeName {
            text: derived_name(self.aggregator.spec_name().text, "score_children"@, "function"@),
        }
    }

    open spec fn is_initialized(&self) -> bool {
        self.aggregator.is_initialized()
    }

    fn name(&self) -> (name: String) {
        let base = self.aggregator.name();
        compose_name(base.as_str(), "score_children", "function")
    }

    fn initialize(&mut self, world: &mut World) {
        self.aggregator.initialize(world);
    }

    fn evaluate(&self, ctx: EvaluationCtx) -> (score: Score) {
        let found = self.lookup.find(ctx.world, ctx.evaluation.target);
        aggregate_children(&self.aggregator, ctx.world, ctx.evaluation.target, found)
    }
}

/// The score of a target whose children were scored: the minimum where the
/// target has no children or none of them could be scored, else what the
/// aggregator makes of the scores of the children.
pub open spec fn children_score<A: Aggregator>(
    aggregator: &A,
    world: &World,
    target: Entity,
    scores: Option<Seq<Score>>,
) -> Score {
    match scores {
        None => Score::spec_min(),
        Some(scores) => if scores.len() == 0 {
            Score::spec_min()
        } else {
            aggregator.score_of(world, target, scores)
        },
    }
}

/// Aggregates the scores of the children of the target: `scores` is nothing
/// where the target has no children, else the scores of those children that
/// could be scored. The aggregator must have been initialized.
pub fn aggregate_children<A: Aggregator>(
    aggregator: &A,
    world: &World,
    target: Entity,
    scores: Option<ScoreBuffer>,
) -> (score: Score)
    requires
        aggregator.is_initialized(),
    ensures
        score == children_score(
            aggregator,
            world,
            target,
            match scores {
                Some(buffer) => Some(buffer@),
                None => None,
            },
        ),
{
    match scores {
        None => Score::min_score(),
        Some(buffer) => {
            if buffer.len() == 0 {
                Score::min_score()
            } else {
                aggregator.aggregate(
                    AggregationCtx { world, aggregation: Aggregation { target, scores: buffer } },
                )
            }
        },
    }
}

/// Types that can be converted into an [`Aggregator`], and the operators
/// that derive a new aggregator from the converted one.
pub trait IntoAggregator<Marker>: Sized {
    /// The type of aggregator that this value is converted into.
    type Aggregator: Aggregator;

    /// Whether the value can be converted.
    spec fn convertible(&self) -> bool;

    /// Whether the value may be converted into the given aggregator.
    spec fn converts_to(self, made: Self::Aggregator) -> bool;

    /// Converts this value into an aggregator.
    fn into_aggregator(self) -> (aggregator: Self::Aggregator)
        requires
            self.convertible(),
        ensures
            self.converts_to(aggregator),
    ;

    /// Maps the output score of this aggregator using the given mapper.
    fn map<MM, M: IntoMapper<Score, MM>>(self, mapper: M) -> (mapped: MapAggregator<
        M::Mapper,
        Self::Aggregator,
    >)
        requires
            self.convertible(),
            mapper.convertible(),
        ensures
            mapper.converts_to(mapped.mapper),
            self.converts_to(mapped.aggregator),
    {
        MapAggregator { mapper: mapper.into_mapper(), aggregator: self.into_aggregator() }
    }

    /// Makes of this aggregator one that returns the minimum where no child
    /// scores are provided, without asking this one.
    fn unless_empty(self) -> (guarded: NonEmptyAggregator<Self::Aggregator>)
        requires
            self.convertible(),
        ensures
            self.converts_to(guarded.aggregator),
    {
        NonEmptyAggregator { aggregator: self.into_aggregator() }
    }

    /// Applies the given curve to the output score of this aggregator. If the
    /// curve cannot be sampled at the output, the minimum is returned.
    fn curve<C: Fn(Score) -> Option<Score> + Send + Sync + 'static>(self, curve: C) -> (curved:
        CurveAggregator<C, Self::Aggregator>)
        requires
            self.convertible(),
            sampling_function(curve),
        ensures
            curved.curve.curve() == curve,
            self.converts_to(curved.aggregator),
    {
        CurveAggregator { curve: Sampler::new(curve), aggregator: self.into_aggregator() }
    }

    /// Applies the given curve to the input scores of this aggregator. An
    /// input at which the curve cannot be sampled is dropped.
    fn curve_input<C: Fn(Score) -> Option<Score> + Send + Sync + 'static>(
        self,
        curve: C,
    ) -> (curved: CurveInputAggregator<C, Self::Aggregator>)
        requires
            self.convertible(),
            sampling_function(curve),
        ensures
            curved.curve.curve() == curve,
            self.converts_to(curved.aggregator),
    {
        CurveInputAggregator { curve: Sampler::new(curve), aggregator: self.into_aggregator() }
    }

    /// Converts this aggregator into an evaluator that scores the children
    /// of the target, as `lookup` finds them, and aggregates their scores
    /// using this aggregator. If the target has no children that can be
    /// scored, the evaluator returns the minimum.
    fn score_children<L: Fn(&World, Entity) -> Option<ScoreBuffer> + Send + Sync + 'static>(
        self,
        lookup: L,
    ) -> (scored: ChildrenEvaluator<L, Self::Aggregator>)
        requires
            self.convertible(),
            lookup_function(lookup),
        ensures
            scored.lookup.lookup() == lookup,
            self.converts_to(scored.aggregator),
    {
        ChildrenEvaluator { lookup: ChildLookup::new(lookup), aggregator: self.into_aggregator() }
    }

    /// Applies the given threshold to the output score of this aggregator:
    /// an output below the threshold becomes the minimum.
    fn threshold(self, threshold: Score) -> (limited: OutputThresholdAggregator<Self::Aggregator>)
        requires
            self.convertible(),
        ensures
            limited.threshold == threshold,
            self.converts_to(limited.aggregator),
    {
        OutputThresholdAggregator { threshold, aggregator: self.into_aggregator() }
    }

    /// Applies the given threshold to the input scores of this aggregator:
    /// where any input is below the threshold, the output is the minimum.
    fn input_threshold(self, threshold: Score) -> (limited: InputThresholdAggregator<
        Self::Aggregator,
    >)
        requires
            self.convertible(),
        ensures
            limited.threshold == threshold,
            self.converts_to(limited.aggregator),
    {
        InputThresholdAggregator { threshold, aggregator: self.into_aggregator() }
    }

    /// Sets the children of this aggregator to the given nodes.
    fn with_children<M, C: IntoFlowNodeConfigs<M>>(self, children: C) -> (config: FlowNodeConfig)
        requires
            self.convertible(),
            children.convertible(),
        ensures
            config.label is None,
            exists|made: Self::Aggregator|
                self.converts_to(made) && #[trigger] holds_aggregator(config.node, made),
            children.yields(config.node->children.0@),
    {
        let made = self.into_aggregator();
        let configs = children.into_configs();
        let node = aggregator_node(made, configs);
        proof {
            assert(self.converts_to(made) && holds_aggregator(node, made));
        }
        FlowNodeConfig { node, label: None }
    }
}

/// All aggregators can be converted into themselves.
impl<A: Aggregator> IntoAggregator<()> for A {
    type Aggregator = A;

    open spec fn convertible(&self) -> bool {
        true
    }

    open spec fn converts_to(self, made: A) -> bool {
        made == self
    }

    fn into_aggregator(self) -> (aggregator: A) {
        self
    }
}

/// Whether a function can be called on every world and aggregation, and has
/// one outcome for each target and sequence of scores.
pub open spec fn aggregation_function<S: Fn(&World, Aggregation) -> Score>(system: S) -> bool {
    &&& forall|world: &World, aggregation: Aggregation| #[trigger]
        system.requires((world, aggregation))
    &&& forall|world: &World, one: Aggregation, other: Aggregation, a: Score, b: Score|
        #![auto]
        one.target == other.target && one.scores@ == other.scores@ && system.ensures(
            (world, one),
            a,
        ) && system.ensures((world, other), b) ==> a == b
}

/// Whether the function may return `score` for an aggregation with the given
/// target and scores.
pub open spec fn may_yield<S: Fn(&World, Aggregation) -> Score>(
    system: S,
    world: &World,
    target: Entity,
    scores: Seq<Score>,
    score: Score,
) -> bool {
    exists|aggregation: Aggregation|
        aggregation.target == target && aggregation.scores@ == scores && #[trigger] system.ensures(
            (world, aggregation),
            score,
        )
}

/// An [`Aggregator`] that calls a function to aggregate the scores.
pub struct SystemAggregator<S: Fn(&World, Aggregation) -> Score + Send + Sync + 'static> {
    name: String,
    system: S,
}

impl<S: Fn(&World, Aggregation) -> Score + Send + Sync + 'static> SystemAggregator<S> {
    #[verifier::type_invariant]
    spec fn sound(self) -> bool {
        aggregation_function(self.system)
    }

    /// The function that the aggregator calls.
    pub closed spec fn system(self) -> S {
        self.system
    }

    /// The name that was given to the function.
    pub closed spec fn label(self) -> Seq<char> {
        self.name@
    }

    /// Makes an aggregator of a function that can be called on every world
    /// and aggregation and has one outcome for each.
    pub fn new(system: S) -> (aggregator: Self)
        requires
            aggregation_function(system),
        ensures
            aggregator.system() == system,
            aggregator.label() == "system"@,
    {
        SystemAggregator { name: "system".to_owned(), system }
    }

    /// Like [`Self::new`], with a name of its own.
    pub fn named(name: &str, system: S) -> (made: Self)
        requires
            aggregation_function(system),
        ensures
            made.system() == system,
            made.label() == name@,
    {
        SystemAggregator { name: name.to_owned(), system }
    }
}

impl<S: Fn(&World, Aggregation) -> Score + Send + Sync + 'static> Aggregator for SystemAggregator<
    S,
> {
    closed spec fn score_of(&self, world: &World, target: Entity, scores: Seq<Score>) -> Score {
        choose|score: Score| #[trigger] may_yield(self.system, world, target, scores, score)
    }

    open spec fn spec_name(&self) -> NodeName {
        NodeName { text: self.label() }
    }

    open spec fn is_initialized(&self) -> bool {
        true
    }

    fn name(&self) -> (name: String) {
        self.name.clone()
    }

    fn initialize(&mut self, world: &mut World) {
    }

    fn aggregate(&self, ctx: AggregationCtx) -> (score: Score) {
        proof {
            use_type_invariant(self);
        }
        let ghost aggregation = ctx.aggregation;
        let score = (self.system)(ctx.world, ctx.aggregation);
        proof {
            assert(self.system.ensures((ctx.world, aggregation), score));
            assert(may_yield(
                self.system,
                ctx.world,
                aggregation.target,
                aggregation.scores@,
                score,
            ));
        }
        score
    }
}

/// Marks the conversion of a function into an aggregator.
pub struct AggregatorSystemMarker;

impl<S: Fn(&World, Aggregation) -> Score + Send + Sync + 'static> IntoAggregator<
    AggregatorSystemMarker,
> for S {
    type Aggregator = SystemAggregator<S>;

    open spec fn convertible(&self) -> bool {
        aggregation_function(*self)
    }

    open spec fn converts_to(self, made: SystemAggregator<S>) -> bool {
        made.system() == self
    }

    fn into_aggregator(self) -> (aggregator: SystemAggregator<S>) {
        SystemAggregator::new(self)
    }
}

} // verus!
