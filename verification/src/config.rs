//! Nodes that are not registered yet: what a flow is built from.

use vstd::prelude::*;
use bevy_ecs::entity::Entity;
use bevy_ecs::world::World;
use crate::aggregator::{Aggregator, IntoAggregator};
use crate::evaluator::{Evaluator, IntoEvaluator};
use crate::flow_graph::GraphShape;
use crate::label::InternedScoreLabel;
use crate::schedule::ScoringNodeId;
use crate::score::Score;

verus! {

/// An evaluator of any type, as a flow holds it.
pub struct BoxedEvaluator {
    /// The evaluator.
    pub node: Box<dyn Evaluator>,
}

/// An aggregator of any type, as a flow holds it.
pub struct BoxedAggregator {
    /// The aggregator.
    pub node: Box<dyn Aggregator>,
}

/// A node that is not registered yet.
pub enum FlowNode {
    /// An aggregator node and its children.
    Aggregator {
        /// The aggregator to register.
        aggregator: BoxedAggregator,
        /// The nodes to register as children of this aggregator, in order.
        children: FlowNodeConfigs,
    },
    /// An evaluator node.
    Evaluator {
        /// The evaluator to register.
        evaluator: BoxedEvaluator,
    },
}

/// Configuration for a flow node: the node, and the label under which its
/// score is returned, if any.
pub struct FlowNodeConfig {
    /// The node to register.
    pub node: FlowNode,
    /// The label to associate with this node, if any.
    pub label: Option<InternedScoreLabel>,
}

/// A collection of [`FlowNodeConfig`]s.
pub struct FlowNodeConfigs(pub Vec<FlowNodeConfig>);

impl FlowNode {
    /// The number of evaluators that registering this node adds to a graph:
    /// the node itself, or those among its descendants.
    pub open spec fn evaluator_count(self) -> nat
        decreases self,
    {
        match self {
            FlowNode::Evaluator { .. } => 1,
            FlowNode::Aggregator { children, .. } => registered_evaluators(true, children.0@),
        }
    }

    /// The number of aggregators that registering this node adds to a
    /// graph: the node itself and those among its descendants.
    pub open spec fn aggregator_count(self) -> nat
        decreases self,
    {
        match self {
            FlowNode::Evaluator { .. } => 0,
            FlowNode::Aggregator { children, .. } => 1 + registered_aggregators(
                true,
                children.0@,
            ),
        }
    }
}

impl FlowNodeConfig {
    /// The labels that registering this config asks for: its own, if it has
    /// one, and those of its descendants.
    pub open spec fn label_set(self) -> Set<u64>
        decreases self,
    {
        (match self.label {
            Some(label) => set![label.0],
            None => Set::empty(),
        }).union(
            match self.node {
                FlowNode::Evaluator { .. } => Set::empty(),
                FlowNode::Aggregator { children, .. } => registered_labels(true, children.0@),
            },
        )
    }
}

/// The shape that a graph of the given shape has once the config is
/// registered with the given parent.
///
/// A config without a parent and without a label is left out, with all its
/// children. Any other becomes the next node of its kind; then its label is
/// bound, unless the label is bound already; then its children are
/// registered with it as their parent, in order.
pub open spec fn lowered_config(
    shape: GraphShape,
    parent: Option<ScoringNodeId>,
    config: FlowNodeConfig,
) -> GraphShape
    decreases config,
{
    if !is_registered(parent is Some, config) {
        shape
    } else {
        let id = shape.next_id(config.node);
        let labeled = shape.with_node(parent, config.node).with_label(config.label, id);
        match config.node {
            FlowNode::Evaluator { .. } => labeled,
            FlowNode::Aggregator { children, .. } => lowered(labeled, Some(id), children.0@),
        }
    }
}

/// The shape that a graph of the given shape has once the configs are
/// registered with the given parent, one after the other.
pub open spec fn lowered(
    shape: GraphShape,
    parent: Option<ScoringNodeId>,
    configs: Seq<FlowNodeConfig>,
) -> GraphShape
    decreases configs,
{
    if configs.len() == 0 {
        shape
    } else {
        lowered(
            lowered_config(shape, parent, configs[0]),
            parent,
            configs.subrange(1, configs.len() as int),
        )
    }
}

/// The labels that registering the configs asks for.
pub open spec fn registered_labels(has_parent: bool, configs: Seq<FlowNodeConfig>) -> Set<u64>
    decreases configs,
{
    if configs.len() == 0 {
        Set::empty()
    } else {
        (if is_registered(has_parent, configs[0]) {
            configs[0].label_set()
        } else {
            Set::empty()
        }).union(registered_labels(has_parent, configs.subrange(1, configs.len() as int)))
    }
}

/// Whether a config is registered: one without a parent and without a label
/// is not, since its score could never be observed.
pub open spec fn is_registered(has_parent: bool, config: FlowNodeConfig) -> bool {
    has_parent || config.label is Some
}

/// The number of evaluators that registering the configs adds to a graph.
pub open spec fn registered_evaluators(has_parent: bool, configs: Seq<FlowNodeConfig>) -> nat
    decreases configs,
{
    if configs.len() == 0 {
        0
    } else {
        (if is_registered(has_parent, configs[0]) {
            configs[0].node.evaluator_count()
        } else {
            0
        }) + registered_evaluators(has_parent, configs.subrange(1, configs.len() as int))
    }
}

/// The number of aggregators that registering the configs adds to a graph.
pub open spec fn registered_aggregators(has_parent: bool, configs: Seq<FlowNodeConfig>) -> nat
    decreases configs,
{
    if configs.len() == 0 {
        0
    } else {
        (if is_registered(has_parent, configs[0]) {
            configs[0].node.aggregator_count()
        } else {
            0
        }) + registered_aggregators(has_parent, configs.subrange(1, configs.len() as int))
    }
}

/// Whether the node holds the evaluator `made`: it is an evaluator node that
/// scores every target as `made` does, has its name, and is initialized if
/// `made` is.
pub open spec fn holds_evaluator<E: Evaluator>(node: FlowNode, made: E) -> bool {
    match node {
        FlowNode::Evaluator { evaluator } => {
            &&& forall|world: &World, target: Entity| #[trigger]
                evaluator.node.score_of(world, target) == made.score_of(world, target)
            &&& evaluator.node.spec_name() == made.spec_name()
            &&& evaluator.node.is_initialized() == made.is_initialized()
        },
        FlowNode::Aggregator { .. } => false,
    }
}

/// Whether the node holds the aggregator `made`: it is an aggregator node
/// that aggregates all scores as `made` does, has its name, and is
/// initialized if `made` is.
pub open spec fn holds_aggregator<A: Aggregator>(node: FlowNode, made: A) -> bool {
    match node {
        FlowNode::Aggregator { aggregator, .. } => {
            &&& forall|world: &World, target: Entity, scores: Seq<Score>| #[trigger]
                aggregator.node.score_of(world, target, scores) == made.score_of(
                    world,
                    target,
                    scores,
                )
            &&& aggregator.node.spec_name() == made.spec_name()
            &&& aggregator.node.is_initialized() == made.is_initialized()
        },
        FlowNode::Evaluator { .. } => false,
    }
}

/// Whether the node holds an evaluator that `evaluator` converts into.
pub open spec fn holds_evaluator_of<M, E: IntoEvaluator<M>>(node: FlowNode, evaluator: E) -> bool {
    exists|made: E::Evaluator| evaluator.converts_to(made) && #[trigger] holds_evaluator(node, made)
}

/// Whether the node holds an aggregator that `aggregator` converts into.
pub open spec fn holds_aggregator_of<M, A: IntoAggregator<M>>(
    node: FlowNode,
    aggregator: A,
) -> bool {
    exists|made: A::Aggregator|
        aggregator.converts_to(made) && #[trigger] holds_aggregator(node, made)
}

/// `Box::new` of the standard library, and the conversion of the box into a
/// trait object: the node holds the evaluator, so that every call on the
/// node is that call on the evaluator.
#[verifier::external_body]
pub(crate) fn evaluator_node<E: Evaluator>(evaluator: E) -> (node: FlowNode)
    ensures
        holds_evaluator(node, evaluator),
{
    FlowNode::Evaluator { evaluator: BoxedEvaluator { node: Box::new(evaluator) } }
}

/// `Box::new` of the standard library, and the conversion of the box into a
/// trait object: the node holds the aggregator, so that every call on the
/// node is that call on the aggregator, and it holds the given children.
#[verifier::external_body]
pub(crate) fn aggregator_node<A: Aggregator>(aggregator: A, children: FlowNodeConfigs) -> (node:
    FlowNode)
    ensures
        holds_aggregator(node, aggregator),
        node->children == children,
{
    FlowNode::Aggregator { aggregator: BoxedAggregator { node: Box::new(aggregator) }, children }
}

impl FlowNode {
    /// Returns the kind of the node.
    pub fn kind(&self) -> (kind: &'static str)
        ensures
            kind@ == (if self is Aggregator {
                "Aggregator"@
            } else {
                "Evaluator"@
            }),
    {
        match self {
            FlowNode::Aggregator { .. } => "Aggregator",
            FlowNode::Evaluator { .. } => "Evaluator",
        }
    }

    /// Returns the name of the node: that of its aggregator or evaluator.
    pub fn name(&self) -> (name: String)
        ensures
            name@ == (match self {
                FlowNode::Aggregator { aggregator, .. } => aggregator.node.spec_name().text,
                FlowNode::Evaluator { evaluator } => evaluator.node.spec_name().text,
            }),
    {
        match self {
            FlowNode::Aggregator { aggregator, .. } => aggregator.node.name(),
            FlowNode::Evaluator { evaluator } => evaluator.node.name(),
        }
    }
}

impl FlowNodeConfig {
    /// Constructs a new config with the given aggregator and children,
    /// without a label.
    pub fn aggregator<MC, MN, A: IntoAggregator<MC>, C: IntoFlowNodeConfigs<MN>>(
        aggregator: A,
        children: C,
    ) -> (config: FlowNodeConfig)
        requires
            aggregator.convertible(),
            children.convertible(),
        ensures
            config.label is None,
            holds_aggregator_of(config.node, aggregator),
            children.yields(config.node->children.0@),
    {
        let made = aggregator.into_aggregator();
        let configs = children.into_configs();
        let node = aggregator_node(made, configs);
        proof {
            assert(aggregator.converts_to(made) && holds_aggregator(node, made));
        }
        FlowNodeConfig { node, label: None }
    }

    /// Constructs a new config with the given evaluator, without a label.
    pub fn evaluator<M, E: IntoEvaluator<M>>(evaluator: E) -> (config: FlowNodeConfig)
        requires
            evaluator.convertible(),
        ensures
            config.label is None,
            holds_evaluator_of(config.node, evaluator),
    {
        let made = evaluator.into_evaluator();
        let node = evaluator_node(made);
        proof {
            assert(evaluator.converts_to(made) && holds_evaluator(node, made));
        }
        FlowNodeConfig { node, label: None }
    }

    /// Labels this aggregator or evaluator with the given label.
    pub fn label(self, label: InternedScoreLabel) -> (config: FlowNodeConfig)
        ensures
            config.label == Some(label),
            config.node == self.node,
    {
        FlowNodeConfig { node: self.node, label: Some(label) }
    }
}

/// Types that can be converted into a [`FlowNodeConfigs`].
pub trait IntoFlowNodeConfigs<Marker>: Sized {
    /// Whether the value can be converted.
    spec fn convertible(&self) -> bool;

    /// Whether the value may be converted into the given configs.
    spec fn yields(self, configs: Seq<FlowNodeConfig>) -> bool;

    /// Converts this value into a [`FlowNodeConfigs`].
    fn into_configs(self) -> (configs: FlowNodeConfigs)
        requires
            self.convertible(),
        ensures
            self.yields(configs.0@),
    ;
}

/// A config is converted into the list that holds it alone.
impl IntoFlowNodeConfigs<()> for FlowNodeConfig {
    open spec fn convertible(&self) -> bool {
        true
    }

    open spec fn yields(self, configs: Seq<FlowNodeConfig>) -> bool {
        configs == seq![self]
    }

    fn into_configs(self) -> (configs: FlowNodeConfigs) {
        let mut list: Vec<FlowNodeConfig> = Vec::new();
        list.push(self);
        FlowNodeConfigs(list)
    }
}

/// A list of configs is converted into itself.
impl IntoFlowNodeConfigs<()> for FlowNodeConfigs {
    open spec fn convertible(&self) -> bool {
        true
    }

    open spec fn yields(self, configs: Seq<FlowNodeConfig>) -> bool {
        configs == self.0@
    }

    fn into_configs(self) -> (configs: FlowNodeConfigs) {
        self
    }
}

/// Marks the conversion of an evaluator into a config.
pub struct EvaluatorConfigMarker;

/// An evaluator is converted into the list that holds its config alone,
/// without a label.
impl<Marker, E: IntoEvaluator<Marker>> IntoFlowNodeConfigs<(EvaluatorConfigMarker, Marker)> for E {
    open spec fn convertible(&self) -> bool {
        IntoEvaluator::convertible(self)
    }

    open spec fn yields(self, configs: Seq<FlowNodeConfig>) -> bool {
        configs.len() == 1 && configs[0].label is None && holds_evaluator_of(
            configs[0].node,
            self,
        )
    }

    fn into_configs(self) -> (configs: FlowNodeConfigs) {
        let mut list: Vec<FlowNodeConfig> = Vec::new();
        list.push(FlowNodeConfig::evaluator(self));
        FlowNodeConfigs(list)
    }
}

/// Marks the conversion of a tuple of nodes into configs.
pub struct FlowNodeConfigTupleMarker;

/// A tuple of one part is converted into the configs of that part.
impl<M0, S0: IntoFlowNodeConfigs<M0>> IntoFlowNodeConfigs<(FlowNodeConfigTupleMarker, M0)> for (
    S0,
) {
    open spec fn convertible(&self) -> bool {
        self.0.convertible()
    }

    open spec fn yields(self, configs: Seq<FlowNodeConfig>) -> bool {
        self.0.yields(configs)
    }

    fn into_configs(self) -> (configs: FlowNodeConfigs) {
        self.0.into_configs()
    }
}

/// A pair is converted into the configs of its first part, followed by those
/// of its second.
impl<M0, S0: IntoFlowNodeConfigs<M0>, M1, S1: IntoFlowNodeConfigs<M1>> IntoFlowNodeConfigs<
    (FlowNodeConfigTupleMarker, M0, M1),
> for (S0, S1) {
    open spec fn convertible(&self) -> bool {
        self.0.convertible() && self.1.convertible()
    }

    open spec fn yields(self, configs: Seq<FlowNodeConfig>) -> bool {
        exists|first: Seq<FlowNodeConfig>, second: Seq<FlowNodeConfig>|
            #![auto]
            self.0.yields(first) && self.1.yields(second) && configs == first + second
    }

    fn into_configs(self) -> (configs: FlowNodeConfigs) {
        let mut first = self.0.into_configs().0;
        let mut second = self.1.into_configs().0;
        let ghost head = first@;
        let ghost tail = second@;
        first.append(&mut second);
        proof {
            assert(self.0.yields(head) && self.1.yields(tail) && first@ == head + tail);
        }
        FlowNodeConfigs(first)
    }
}

/// A triple is converted into the configs of its parts, in order.
impl<
    M0,
    S0: IntoFlowNodeConfigs<M0>,
    M1,
    S1: IntoFlowNodeConfigs<M1>,
    M2,
    S2: IntoFlowNodeConfigs<M2>,
> IntoFlowNodeConfigs<(FlowNodeConfigTupleMarker, M0, M1, M2)> for (S0, S1, S2) {
    open spec fn convertible(&self) -> bool {
        self.0.convertible() && self.1.convertible() && self.2.convertible()
    }

    open spec fn yields(self, configs: Seq<FlowNodeConfig>) -> bool {
        exists|first: Seq<FlowNodeConfig>, second: Seq<FlowNodeConfig>, third: Seq<FlowNodeConfig>|
            #![auto]
            self.0.yields(first) && self.1.yields(second) && self.2.yields(third) && configs
                == first + second + third
    }

    fn into_configs(self) -> (configs: FlowNodeConfigs) {
        let mut first = self.0.into_configs().0;
        let mut second = self.1.into_configs().0;
        let mut third = self.2.into_configs().0;
        let ghost head = first@;
        let ghost middle = second@;
        let ghost tail = third@;
        first.append(&mut second);
        first.append(&mut third);
        proof {
            assert(self.0.yields(head) && self.1.yields(middle) && self.2.yields(tail) && first@
                == head + middle + tail);
        }
        FlowNodeConfigs(first)
    }
}

/// A tuple of four parts is converted into the configs of its parts, in
/// order. More nodes than four are given as tuples of tuples.
impl<
    M0,
    S0: IntoFlowNodeConfigs<M0>,
    M1,
    S1: IntoFlowNodeConfigs<M1>,
    M2,
    S2: IntoFlowNodeConfigs<M2>,
    M3,
    S3: IntoFlowNodeConfigs<M3>,
> IntoFlowNodeConfigs<(FlowNodeConfigTupleMarker, M0, M1, M2, M3)> for (S0, S1, S2, S3) {
    open spec fn convertible(&self) -> bool {
        self.0.convertible() && self.1.convertible() && self.2.convertible()
            && self.3.convertible()
    }

    open spec fn yields(self, configs: Seq<FlowNodeConfig>) -> bool {
        exists|
            first: Seq<FlowNodeConfig>,
            second: Seq<FlowNodeConfig>,
            third: Seq<FlowNodeConfig>,
            fourth: Seq<FlowNodeConfig>,
        |
            #![auto]
            self.0.yields(first) && self.1.yields(second) && self.2.yields(third) && self.3.yields(
                fourth,
            ) && configs == first + second + third + fourth
    }

    fn into_configs(self) -> (configs: FlowNodeConfigs) {
        let mut first = self.0.into_configs().0;
        let mut second = self.1.into_configs().0;
        let mut third = self.2.into_configs().0;
        let mut fourth = self.3.into_configs().0;
        let ghost one = first@;
        let ghost two = second@;
        let ghost three = third@;
        let ghost four = fourth@;
        first.append(&mut second);
        first.append(&mut third);
        first.append(&mut fourth);
        proof {
            assert(self.0.yields(one) && self.1.yields(two) && self.2.yields(three)
                && self.3.yields(four) && first@ == one + two + three + four);
        }
        FlowNodeConfigs(first)
    }
}

/// Types that can be converted into a [`FlowNodeConfig`].
pub trait IntoFlowNodeConfig<Marker>: Sized {
    /// Whether the value can be converted.
    spec fn convertible(&self) -> bool;

    /// Whether the value may be converted into the given config.
    spec fn yields(self, config: FlowNodeConfig) -> bool;

    /// Converts this value into a [`FlowNodeConfig`].
    fn into_config(self) -> (config: FlowNodeConfig)
        requires
            self.convertible(),
        ensures
            self.yields(config),
    ;
}

/// A config is converted into itself.
impl IntoFlowNodeConfig<()> for FlowNodeConfig {
    open spec fn convertible(&self) -> bool {
        true
    }

    open spec fn yields(self, config: FlowNodeConfig) -> bool {
        config == self
    }

    fn into_config(self) -> (config: FlowNodeConfig) {
        self
    }
}

/// An evaluator is converted into its config, without a label.
impl<Marker, E: IntoEvaluator<Marker>> IntoFlowNodeConfig<(EvaluatorConfigMarker, Marker)> for E {
    open spec fn convertible(&self) -> bool {
        IntoEvaluator::convertible(self)
    }

    open spec fn yields(self, config: FlowNodeConfig) -> bool {
        config.label is None && holds_evaluator_of(config.node, self)
    }

    fn into_config(self) -> (config: FlowNodeConfig) {
        FlowNodeConfig::evaluator(self)
    }
}

} // verus!
