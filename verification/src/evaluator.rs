//! The [`Evaluator`] trait: a leaf computation that scores one target in the
//! world, and the operators that derive one evaluator from another.

use vstd::prelude::*;
use bevy_ecs::entity::Entity;
use bevy_ecs::world::World;
use crate::naming::{compose_name, derived_name, score_name, score_text, NodeName};
use crate::config::{evaluator_node, holds_evaluator, FlowNodeConfig};
use crate::label::InternedScoreLabel;
use crate::mapper::{IntoMapper, Mapper, Mapping, MappingCtx};
use crate::score::Score;

verus! {

/// What is evaluated: the target.
pub struct Evaluation {
    /// The entity that is being scored.
    pub target: Entity,
}

/// World and [`Evaluation`] pair passed to an [`Evaluator`].
pub struct EvaluationCtx<'w> {
    /// The world in which the target is scored.
    pub world: &'w World,
    /// The evaluation being performed.
    pub evaluation: Evaluation,
}

/// A computation that views the target in the world and returns a score.
/// Evaluation only reads: for one evaluator, world and target the outcome is
/// always the same, and [`Evaluator::score_of`] is its name.
pub trait Evaluator: Send + Sync + 'static {
    /// The score of `target` in `world`.
    spec fn score_of(&self, world: &World, target: Entity) -> Score;

    /// The name of the evaluator.
    spec fn spec_name(&self) -> NodeName;

    /// Whether the evaluator is prepared for its first evaluation.
    spec fn is_initialized(&self) -> bool;

    /// Returns the name of the evaluator.
    fn name(&self) -> (name: String)
        ensures
            name@ == self.spec_name().text,
    ;

    /// Prepares the evaluator; called once before the first evaluation.
    /// An evaluator that wraps other nodes prepares those too.
    fn initialize(&mut self, world: &mut World)
        ensures
            final(self).is_initialized(),
            old(self).is_initialized() ==> forall|w: &World, target: Entity| #[trigger]
                final(self).score_of(w, target) == old(self).score_of(w, target),
    ;

    /// Scores the target of the given context. The evaluator must have been
    /// initialized.
    fn evaluate(&self, ctx: EvaluationCtx) -> (score: Score)
        requires
            self.is_initialized(),
        ensures
            score == self.score_of(ctx.world, ctx.evaluation.target),
    ;
}

/// The score that a threshold lets through: the minimum where `score` is
/// below `threshold`, else `score`.
pub open spec fn thresholded(score: Score, threshold: Score) -> Score {
    if score@ < threshold@ {
        Score::spec_min()
    } else {
        score
    }
}

/// Applies a threshold to a score: a score below the threshold becomes the
/// minimum, any other passes unchanged.
pub fn apply_threshold(score: Score, threshold: Score) -> (out: Score)
    ensures
        out == thresholded(score, threshold),
{
    if score.below(&threshold) {
        Score::min_score()
    } else {
        score
    }
}

/// The score that stands for a sample: the sample where there is one, the
/// minimum where the curve could not be sampled.
pub open spec fn or_min(sample: Option<Score>) -> Score {
    match sample {
        Some(score) => score,
        None => Score::spec_min(),
    }
}

/// Returns the score that stands for a sample: the sample where there is
/// one, the minimum where the curve could not be sampled.
pub fn sample_or_min(sample: Option<Score>) -> (out: Score)
    ensures
        out == or_min(sample),
{
    match sample {
        Some(score) => score,
        None => Score::min_score(),
    }
}

/// An evaluator that always returns the same score.
pub struct ConstantScoreEvaluator(pub Score);

impl Evaluator for ConstantScoreEvaluator {
    open spec fn score_of(&self, world: &World, target: Entity) -> Score {
        self.0
    }

    open spec fn spec_name(&self) -> NodeName {
        NodeName { text: "constant"@ }
    }

    open spec fn is_initialized(&self) -> bool {
        true
    }

    fn name(&self) -> (name: String) {
        "constant".to_owned()
    }

    fn initialize(&mut self, world: &mut World) {
    }

    fn evaluate(&self, ctx: EvaluationCtx) -> (score: Score) {
        self.0
    }
}

/// Creates an evaluator that always returns the given score.
pub fn constant(score: Score) -> (evaluator: ConstantScoreEvaluator)
    ensures
        evaluator.0 == score,
{
    ConstantScoreEvaluator(score)
}

/// An evaluator whose output is the output of another, passed through a
/// mapper.
pub struct MapEvaluator<M, E> {
    /// The mapper applied to the output.
    pub mapper: M,
    /// The wrapped evaluator.
    pub evaluator: E,
}

impl<M: Mapper<Score>, E: Evaluator> Evaluator for MapEvaluator<M, E> {
    open spec fn score_of(&self, world: &World, target: Entity) -> Score {
        self.mapper.mapped(world, target, self.evaluator.score_of(world, target))
    }

    open spec fn spec_name(&self) -> NodeName {
        NodeName {
            text: derived_name(
                self.evaluator.spec_name().text,
                "map"@,
                self.mapper.spec_name().text,
            ),
        }
    }

    open spec fn is_initialized(&self) -> bool {
        self.mapper.is_initialized() && self.evaluator.is_initialized()
    }

    fn name(&self) -> (name: String) {
        let base = self.evaluator.name();
        let mapper = self.mapper.name();
        compose_name(base.as_str(), "map", mapper.as_str())
    }

    fn initialize(&mut self, world: &mut World) {
        self.mapper.initialize(world);
        self.evaluator.initialize(world);
    }

    fn evaluate(&self, ctx: EvaluationCtx) -> (score: Score) {
        let world = ctx.world;
        let target = ctx.evaluation.target;
        let value = self.evaluator.evaluate(ctx);
        self.mapper.map(MappingCtx { world, mapping: Mapping { target, value } })
    }
}

/// An evaluator whose output is the output of another where that reaches a
/// threshold, and the minimum where it does not.
pub struct OutputThresholdEvaluator<E> {
    /// The score below which the output is forced to the minimum.
    pub threshold: Score,
    /// The wrapped evaluator.
    pub evaluator: E,
}

impl<E: Evaluator> Evaluator for OutputThresholdEvaluator<E> {
    open spec fn score_of(&self, world: &World, target: Entity) -> Score {
        thresholded(self.evaluator.score_of(world, target), self.threshold)
    }

    open spec fn spec_name(&self) -> NodeName {
        NodeName {
            text: derived_name(
                self.evaluator.spec_name().text,
                "threshold"@,
                score_name(self.threshold@),
            ),
        }
    }

    open spec fn is_initialized(&self) -> bool {
        self.evaluator.is_initialized()
    }

    fn name(&self) -> (name: String) {
        let base = self.evaluator.name();
        let threshold = score_text(self.threshold);
        compose_name(base.as_str(), "threshold", threshold.as_str())
    }

    fn initialize(&mut self, world: &mut World) {
        self.evaluator.initialize(world);
    }

    fn evaluate(&self, ctx: EvaluationCtx) -> (score: Score) {
        let score = self.evaluator.evaluate(ctx);
        apply_threshold(score, self.threshold)
    }
}


/// Whether a function can be called on every score, and has one outcome for
/// each.
pub open spec fn sampling_function<C: Fn(Score) -> Option<Score>>(curve: C) -> bool {
    &&& forall|at: Score| #[trigger] curve.requires((at,))
    &&& forall|at: Score, a: Option<Score>, b: Option<Score>|
        #![auto]
        curve.ensures((at,), a) && curve.ensures((at,), b) ==> a == b
}

/// A curve over scores: a function that gives a score for a score, or nothing
/// where it cannot be sampled.
pub struct Sampler<C: Fn(Score) -> Option<Score> + Send + Sync + 'static> {
    curve: C,
}

impl<C: Fn(Score) -> Option<Score> + Send + Sync + 'static> Sampler<C> {
    #[verifier::type_invariant]
    spec fn sound(self) -> bool {
        sampling_function(self.curve)
    }

    /// The function that samples the curve.
    pub closed spec fn curve(self) -> C {
        self.curve
    }

    /// What the curve gives at a score.
    pub closed spec fn sample_of(self, at: Score) -> Option<Score> {
        choose|out: Option<Score>| self.curve.ensures((at,), out)
    }

    /// Makes a curve of a function that can be called on every score and has
    /// one outcome for each.
    pub fn new(curve: C) -> (sampler: Self)
        requires
            sampling_function(curve),
        ensures
            sampler.curve() == curve,
    {
        Sampler { curve }
    }

    /// Samples the curve at a score.
    pub fn sample(&self, at: Score) -> (out: Option<Score>)
        ensures
            out == self.sample_of(at),
    {
        proof {
            use_type_invariant(self);
        }
        (self.curve)(at)
    }
}

/// An evaluator whose output is a curve sampled at the output of another,
/// or the minimum where the curve cannot be sampled there.
pub struct CurveEvaluator<C: Fn(Score) -> Option<Score> + Send + Sync + 'static, E> {
    /// The curve applied to the output.
    pub curve: Sampler<C>,
    /// The wrapped evaluator.
    pub evaluator: E,
}

impl<C, E> Evaluator for CurveEvaluator<C, E> where
    C: Fn(Score) -> Option<Score> + Send + Sync + 'static,
    E: Evaluator,
{
    open spec fn score_of(&self, world: &World, target: Entity) -> Score {
        or_min(self.curve.sample_of(self.evaluator.score_of(world, target)))
    }

    open spec fn spec_name(&self) -> NodeName {
        NodeName {
            text: derived_name(self.evaluator.spec_name().text, "curve"@, "function"@),
        }
    }

    open spec fn is_initialized(&self) -> bool {
        self.evaluator.is_initialized()
    }

    fn name(&self) -> (name: String) {
        let base = self.evaluator.name();
        compose_name(base.as_str(), "curve", "function")
    }

    fn initialize(&mut self, world: &mut World) {
        self.evaluator.initialize(world);
    }

    fn evaluate(&self, ctx: EvaluationCtx) -> (score: Score) {
        let score = self.evaluator.evaluate(ctx);
        sample_or_min(self.curve.sample(score))
    }
}

/// Types that can be converted into an [`Evaluator`], and the operators that
/// derive a new evaluator from the converted one.
pub trait IntoEvaluator<Marker>: Sized {
    /// The type of evaluator that this value is converted into.
    type Evaluator: Evaluator;

    /// Whether the value can be converted.
    spec fn convertible(&self) -> bool;

    /// Whether the value may be converted into the given evaluator.
    spec fn converts_to(self, made: Self::Evaluator) -> bool;

    /// Converts this value into an evaluator.
    fn into_evaluator(self) -> (evaluator: Self::Evaluator)
        requires
            self.convertible(),
        ensures
            self.converts_to(evaluator),
    ;

    /// Maps the output score of this evaluator using the given mapper.
    fn map<MM, M: IntoMapper<Score, MM>>(self, mapper: M) -> (mapped: MapEvaluator<
        M::Mapper,
        Self::Evaluator,
    >)
        requires
            self.convertible(),
            mapper.convertible(),
        ensures
            mapper.converts_to(mapped.mapper),
            self.converts_to(mapped.evaluator),
    {
        MapEvaluator { mapper: mapper.into_mapper(), evaluator: self.into_evaluator() }
    }

    /// Applies the given curve to the output score of this evaluator. If the
    /// curve cannot be sampled at the output, the minimum is returned.
    fn curve<C: Fn(Score) -> Option<Score> + Send + Sync + 'static>(self, curve: C) -> (curved:
        CurveEvaluator<C, Self::Evaluator>)
        requires
            self.convertible(),
            sampling_function(curve),
        ensures
            curved.curve.curve() == curve,
            self.converts_to(curved.evaluator),
    {
        CurveEvaluator { curve: Sampler::new(curve), evaluator: self.into_evaluator() }
    }

    /// Applies the given threshold to the output score of this evaluator: an
    /// output below the threshold becomes the minimum.
    fn threshold(self, threshold: Score) -> (limited: OutputThresholdEvaluator<Self::Evaluator>)
        requires
            self.convertible(),
        ensures
            limited.threshold == threshold,
            self.converts_to(limited.evaluator),
    {
        OutputThresholdEvaluator { threshold, evaluator: self.into_evaluator() }
    }

    /// Labels this evaluator with the given label.
    fn label(self, label: InternedScoreLabel) -> (config: FlowNodeConfig)
        requires
            self.convertible(),
        ensures
            config.label == Some(label),
            exists|made: Self::Evaluator|
                self.converts_to(made) && #[trigger] holds_evaluator(config.node, made),
    {
        let made = self.into_evaluator();
        let node = evaluator_node(made);
        proof {
            assert(self.converts_to(made) && holds_evaluator(node, made));
        }
        FlowNodeConfig { node, label: Some(label) }
    }
}

/// All evaluators can be converted into themselves.
impl<E: Evaluator> IntoEvaluator<()> for E {
    type Evaluator = E;

    open spec fn convertible(&self) -> bool {
        true
    }

    open spec fn converts_to(self, made: E) -> bool {
        made == self
    }

    fn into_evaluator(self) -> (evaluator: E) {
        self
    }
}

/// Whether a function can be called on every world and evaluation, and has
/// one outcome for each.
pub open spec fn evaluation_function<S: Fn(&World, Evaluation) -> Score>(system: S) -> bool {
    &&& forall|world: &World, evaluation: Evaluation| #[trigger]
        system.requires((world, evaluation))
    &&& forall|world: &World, evaluation: Evaluation, a: Score, b: Score|
        #![auto]
        system.ensures((world, evaluation), a) && system.ensures((world, evaluation), b) ==> a
            == b
}

/// An [`Evaluator`] that calls a function to score the target.
pub struct SystemEvaluator<S: Fn(&World, Evaluation) -> Score + Send + Sync + 'static> {
    name: String,
    system: S,
}

impl<S: Fn(&World, Evaluation) -> Score + Send + Sync + 'static> SystemEvaluator<S> {
    #[verifier::type_invariant]
    spec fn sound(self) -> bool {
        evaluation_function(self.system)
    }

    /// The function that the evaluator calls.
    pub closed spec fn system(self) -> S {
        self.system
    }

    /// The name that was given to the function.
    pub closed spec fn label(self) -> Seq<char> {
        self.name@
    }

    /// Makes an evaluator of a function that can be called on every world
    /// and evaluation and has one outcome for each.
    pub fn new(system: S) -> (evaluator: Self)
        requires
            evaluation_function(system),
        ensures
            evaluator.system() == system,
            evaluator.label() == "system"@,
    {
        SystemEvaluator { name: "system".to_owned(), system }
    }

    /// Like [`Self::new`], with a name of its own.
    pub fn named(name: &str, system: S) -> (made: Self)
        requires
            evaluation_function(system),
        ensures
            made.system() == system,
            made.label() == name@,
    {
        SystemEvaluator { name: name.to_owned(), system }
    }
}

impl<S: Fn(&World, Evaluation) -> Score + Send + Sync + 'static> Evaluator for SystemEvaluator<
    S,
> {
    closed spec fn score_of(&self, world: &World, target: Entity) -> Score {
        choose|score: Score| self.system.ensures((world, Evaluation { target }), score)
    }

    open spec fn spec_name(&self) -> NodeName {
        NodeName { text: self.label() }
    }

    open spec fn is_initialized(&self) -> bool {
        true
    }

    fn name(&self) -> (name: String) {
        self.name.clone()
    }

    fn initialize(&mut self, world: &mut World) {
    }

    fn evaluate(&self, ctx: EvaluationCtx) -> (score: Score) {
        proof {
            use_type_invariant(self);
        }
        (self.system)(ctx.world, ctx.evaluation)
    }
}

/// Marks the conversion of a function into an evaluator.
pub struct EvaluatorSystemMarker;

impl<S: Fn(&World, Evaluation) -> Score + Send + Sync + 'static> IntoEvaluator<
    EvaluatorSystemMarker,
> for S {
    type Evaluator = SystemEvaluator<S>;

    open spec fn convertible(&self) -> bool {
        evaluation_function(*self)
    }

    open spec fn converts_to(self, made: SystemEvaluator<S>) -> bool {
        made.system() == self
    }

    fn into_evaluator(self) -> (evaluator: SystemEvaluator<S>) {
        SystemEvaluator::new(self)
    }
}

} // verus!
