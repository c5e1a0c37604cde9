//! The [`Flow`] type: a collection of [`Aggregator`] and [`Evaluator`] nodes
//! that is run in dependency order, and the registry of the flows.
//!
//! [`Aggregator`]: crate::aggregator::Aggregator
//! [`Evaluator`]: crate::evaluator::Evaluator

use vstd::prelude::*;
use std::collections::HashMap;
use bevy_ecs::entity::Entity;
use bevy_ecs::world::World;
use crate::label::InternedFlowLabel;
use crate::schedule::ScoringNodeId;
use crate::score::Score;

pub use crate::config::{
    is_registered, lowered, lowered_config, registered_aggregators, registered_evaluators,
    registered_labels,
    BoxedAggregator, BoxedEvaluator, EvaluatorConfigMarker, FlowNode, FlowNodeConfig,
    FlowNodeConfigTupleMarker, FlowNodeConfigs,
    IntoFlowNodeConfig, IntoFlowNodeConfigs,
};
pub use crate::flow_graph::{FlowGraph, GraphShape};

verus! {

broadcast use vstd::std_specs::hash::group_hash_axioms;

/// A collection of [`Aggregator`] and [`Evaluator`] nodes under a label, and
/// the metadata needed to run them in dependency order.
pub struct Flow {
    /// The label of the flow.
    pub label: InternedFlowLabel,
    /// The nodes of the flow.
    pub graph: FlowGraph,
}

/// Whether `after` is `before` with the configs registered under `parent`:
/// its shape is the lowered shape, and so it has as many more nodes and
/// knows as many more labels as the configs register.
pub open spec fn registered(
    after: &FlowGraph,
    before: &FlowGraph,
    parent: Option<ScoringNodeId>,
    configs: Seq<FlowNodeConfig>,
) -> bool {
    &&& after.shape() == lowered(before.shape(), parent, configs)
    &&& after.extends(before)
    &&& after.evaluators.len() == before.evaluators.len() + registered_evaluators(
        parent is Some,
        configs,
    )
    &&& after.aggregators.len() == before.aggregators.len() + registered_aggregators(
        parent is Some,
        configs,
    )
    &&& after.labels@.dom() == before.labels@.dom().union(
        registered_labels(parent is Some, configs),
    )
}

impl Flow {
    /// Constructs an empty flow.
    pub fn new(label: InternedFlowLabel) -> (flow: Flow)
        ensures
            flow.label == label,
            flow.graph.wf(),
            flow.graph.shape() == GraphShape::empty(),
            flow.graph.evaluators.len() == 0,
            flow.graph.aggregators.len() == 0,
            flow.graph.uninitialized.len() == 0,
            flow.graph.labels@ == Map::<u64, ScoringNodeId>::empty(),
    {
        Flow { label, graph: FlowGraph::new() }
    }

    /// Adds a collection of nodes to the flow, each without a parent.
    ///
    /// A node without a label is left out, with all its children: its score
    /// could never be observed. Every other node is registered, then its
    /// label is bound unless the label is bound already, then its children
    /// are registered with it as their parent, in order.
    pub fn add_nodes<M, N: IntoFlowNodeConfigs<M>>(&mut self, nodes: N)
        requires
            old(self).graph.wf(),
            nodes.convertible(),
        ensures
            final(self).graph.wf(),
            final(self).label == old(self).label,
            exists|configs: Seq<FlowNodeConfig>|
                #![auto]
                nodes.yields(configs) && registered(
                    &final(self).graph,
                    &old(self).graph,
                    None,
                    configs,
                ),
    {
        let configs = nodes.into_configs();
        let ghost given = configs.0@;
        self.add_nodes_with_parent(None, configs);
        proof {
            assert(nodes.yields(given) && registered(&self.graph, &old(self).graph, None, given));
        }
    }

    /// Adds a collection of nodes to the flow, each as a child of `parent`
    /// where there is one.
    pub fn add_nodes_with_parent(&mut self, parent: Option<ScoringNodeId>, nodes: FlowNodeConfigs)
        requires
            old(self).graph.wf(),
            parent matches Some(p) ==> p is Aggregator && old(self).graph.valid_node(p),
        ensures
            final(self).graph.wf(),
            final(self).label == old(self).label,
            registered(&final(self).graph, &old(self).graph, parent, nodes.0@),
        decreases nodes,
    {
        let mut list = nodes.0;
        let ghost given = list@;
        let ghost mut done: int = 0;
        let ghost has_parent = parent is Some;
        proof {
            self.graph.lemma_extends_transitive(&self.graph, &self.graph);
            assert(given.subrange(0, given.len() as int) =~= given);
        }
        while list.len() > 0
            invariant
                self.graph.wf(),
                self.graph.extends(&old(self).graph),
                self.label == old(self).label,
                parent matches Some(p) ==> p is Aggregator && old(self).graph.valid_node(p),
                has_parent == (parent is Some),
                lowered(self.graph.shape(), parent, list@) == lowered(
                    old(self).graph.shape(),
                    parent,
                    given,
                ),
                0 <= done <= given.len(),
                list@ == given.subrange(done, given.len() as int),
                given == nodes.0@,
                self.graph.evaluators.len() + registered_evaluators(has_parent, list@)
                    == old(self).graph.evaluators.len() + registered_evaluators(has_parent, given),
                self.graph.aggregators.len() + registered_aggregators(has_parent, list@)
                    == old(self).graph.aggregators.len() + registered_aggregators(has_parent, given),
                self.graph.labels@.dom().union(registered_labels(has_parent, list@))
                    == old(self).graph.labels@.dom().union(registered_labels(has_parent, given)),
            decreases list.len(),
        {
            let ghost pending = list@;
            let config = list.remove(0);
            proof {
                assert(config == given[done]);
                assert(config == pending[0]);
                assert(list@ =~= pending.subrange(1, pending.len() as int));
                assert(list@ =~= given.subrange(done + 1, given.len() as int));
                done = done + 1;
            }
            let ghost asked = config.label_set();
            let ghost known = self.graph.labels@.dom();
            let ghost shape = self.graph.shape();
            proof {
                assert(lowered(shape, parent, pending) == lowered(
                    lowered_config(shape, parent, config),
                    parent,
                    list@,
                ));
            }
            proof {
                assert(registered_labels(has_parent, pending) == (if is_registered(
                    has_parent,
                    config,
                ) {
                    asked
                } else {
                    Set::empty()
                }).union(registered_labels(has_parent, list@)));
            }
            let FlowNodeConfig { node, label } = config;
            proof {
                assert(node.evaluator_count() == (match node {
                    FlowNode::Evaluator { .. } => 1,
                    FlowNode::Aggregator { children, .. } => registered_evaluators(
                        true,
                        children.0@,
                    ),
                }));
                assert(node.aggregator_count() == (match node {
                    FlowNode::Evaluator { .. } => 0,
                    FlowNode::Aggregator { children, .. } => 1 + registered_aggregators(
                        true,
                        children.0@,
                    ),
                }));
            }
            if parent.is_some() || label.is_some() {
                let ghost start = self.graph;
                let (id, children) = self.graph.add_node(parent, node);
                let ghost added = self.graph;
                if let Some(label) = label {
                    self.graph.add_label(label, id);
                }
                let ghost labeled = self.graph;
                proof {
                    assert(labeled.extends(&added));
                    labeled.lemma_extends_transitive(&added, &start);
                    labeled.lemma_extends_transitive(&start, &old(self).graph);
                }
                if let Some(children) = children {
                    self.add_nodes_with_parent(Some(id), children);
                    proof {
                        self.graph.lemma_extends_transitive(&labeled, &old(self).graph);
                    }
                }
                proof {
                    assert(self.graph.shape() == lowered_config(shape, parent, config));
                    assert(self.graph.labels@.dom() =~= known.union(asked));
                    assert(self.graph.labels@.dom().union(registered_labels(has_parent, list@))
                        =~= known.union(registered_labels(has_parent, pending)));
                }
            } else {
                proof {
                    assert(self.graph.labels@.dom().union(registered_labels(has_parent, list@))
                        =~= known.union(registered_labels(has_parent, pending)));
                }
            }
        }
        proof {
            assert(self.graph.labels@.dom().union(Set::<u64>::empty())
                =~= self.graph.labels@.dom());
        }
    }

    /// Initializes all evaluators and aggregators of the flow that have not
    /// been initialized yet, each once. Afterwards no node is pending and
    /// every node is initialized; a flow without pending nodes is left as it
    /// is, and so is the world.
    pub fn initialize(&mut self, world: &mut World)
        requires
            old(self).graph.wf(),
        ensures
            final(self).graph.wf(),
            final(self).label == old(self).label,
            final(self).graph.initialized_from(&old(self).graph),
            old(self).graph.uninitialized.len() == 0 ==> *final(self) == *old(self) && *final(world)
                == *old(world),
    {
        self.graph.initialize(world);
    }

    /// Runs the flow, returning the scores of all labeled nodes.
    ///
    /// The flow must have been initialized before: no node may be pending.
    /// With the invariant of the graph this says that every node is
    /// initialized.
    pub fn run_readonly(&self, world: &World, target: Entity) -> (labeled: HashMap<u64, Score>)
        requires
            self.graph.wf(),
            self.graph.uninitialized.len() == 0,
        ensures
            exists|scores: Map<ScoringNodeId, Score>|
                #![auto]
                self.graph.is_valuation(world, target, scores) && labeled@
                    == self.graph.labeled_scores(scores),
    {
        self.graph.run_readonly(world, target)
    }

    /// Initializes the flow if necessary and runs it, returning the scores
    /// of all labeled nodes.
    pub fn run(&mut self, world: &mut World, target: Entity) -> (labeled: HashMap<u64, Score>)
        requires
            old(self).graph.wf(),
        ensures
            final(self).graph.wf(),
            final(self).label == old(self).label,
            final(self).graph.initialized_from(&old(self).graph),
            old(self).graph.uninitialized.len() == 0 ==> *final(self) == *old(self) && *final(world)
                == *old(world),
            exists|scores: Map<ScoringNodeId, Score>|
                #![auto]
                final(self).graph.is_valuation(final(world), target, scores)
                    && labeled@ == final(self).graph.labeled_scores(scores),
    {
        self.initialize(world);
        self.run_readonly(world, target)
    }
}


/// Error returned when trying to run a flow that does not exist. It holds
/// the label that no flow has.
#[derive(Debug)]
pub struct TryRunFlowError(pub InternedFlowLabel);

/// Stores [`Flow`]s by their labels: at most one flow has a label.
pub struct Flows {
    /// The flows, each under the number of its label.
    pub inner: HashMap<u64, Flow>,
}

impl Flows {
    /// The invariant of the registry: every flow is stored under its own
    /// label, and its graph is well formed.
    pub open spec fn wf(&self) -> bool {
        forall|label: u64| #[trigger]
            self.inner@.contains_key(label) ==> self.inner@[label].graph.wf()
                && self.inner@[label].label.0 == label
    }

    /// Creates a registry without flows.
    pub fn new() -> (flows: Flows)
        ensures
            flows.wf(),
            flows.inner@ == Map::<u64, Flow>::empty(),
    {
        Flows { inner: HashMap::new() }
    }

    /// Inserts a flow under its label, and returns the flow that had the
    /// label before, if there was one.
    pub fn insert(&mut self, flow: Flow) -> (replaced: Option<Flow>)
        requires
            old(self).wf(),
            flow.graph.wf(),
        ensures
            final(self).wf(),
            final(self).inner@ == old(self).inner@.insert(flow.label.0, flow),
            replaced == (if old(self).inner@.contains_key(flow.label.0) {
                Some(old(self).inner@[flow.label.0])
            } else {
                None
            }),
    {
        self.inner.insert(flow.label.0, flow)
    }

    /// Removes the flow with the given label and returns it, if there is
    /// one.
    pub fn remove(&mut self, label: InternedFlowLabel) -> (removed: Option<Flow>)
        requires
            old(self).wf(),
        ensures
            final(self).wf(),
            final(self).inner@ == old(self).inner@.remove(label.0),
            removed == (if old(self).inner@.contains_key(label.0) {
                Some(old(self).inner@[label.0])
            } else {
                None
            }),
            removed matches Some(flow) ==> flow.graph.wf() && flow.label == label,
    {
        self.inner.remove(&label.0)
    }

    /// Adds one or more nodes to the flow with the given label. If the flow
    /// does not exist, it is created. No other flow changes.
    pub fn add_nodes<M, N: IntoFlowNodeConfigs<M>>(&mut self, label: InternedFlowLabel, nodes: N)
        requires
            old(self).wf(),
            nodes.convertible(),
        ensures
            final(self).wf(),
            final(self).inner@.dom() == old(self).inner@.dom().insert(label.0),
            forall|other: u64|
                other != label.0 && #[trigger] old(self).inner@.contains_key(other)
                    ==> final(self).inner@[other] == old(self).inner@[other],
            final(self).inner@[label.0].label == label,
            exists|configs: Seq<FlowNodeConfig>|
                #![auto]
                nodes.yields(configs) && final(self).inner@[label.0].graph.shape() == lowered(
                    if old(self).inner@.contains_key(label.0) {
                        old(self).inner@[label.0].graph.shape()
                    } else {
                        GraphShape::empty()
                    },
                    None,
                    configs,
                ),
            old(self).inner@.contains_key(label.0) ==> final(self).inner@[label.0].graph.extends(
                &old(self).inner@[label.0].graph,
            ),
    {
        let mut flow = match self.inner.remove(&label.0) {
            Some(flow) => flow,
            None => Flow::new(label),
        };
        let ghost before = flow.graph.shape();
        let configs = nodes.into_configs();
        let ghost given = configs.0@;
        flow.add_nodes_with_parent(None, configs);
        let ghost after = flow.graph.shape();
        self.inner.insert(label.0, flow);
        proof {
            assert(final(self).inner@.dom() =~= old(self).inner@.dom().insert(label.0));
            assert(nodes.yields(given) && after == lowered(before, None, given));
        }
    }

    /// Takes the flow with the given label out of the registry, initializes
    /// it if necessary, runs it for `target`, and puts it back. Returns the
    /// scores of the labeled nodes of the flow, or an error if no flow has
    /// the label. No other flow changes.
    pub fn try_run_flow(
        &mut self,
        world: &mut World,
        label: InternedFlowLabel,
        target: Entity,
    ) -> (outcome: Result<HashMap<u64, Score>, TryRunFlowError>)
        requires
            old(self).wf(),
        ensures
            final(self).wf(),
            final(self).inner@.dom() == old(self).inner@.dom(),
            forall|other: u64|
                other != label.0 && #[trigger] old(self).inner@.contains_key(other)
                    ==> final(self).inner@[other] == old(self).inner@[other],
            outcome is Ok <==> old(self).inner@.contains_key(label.0),
            outcome matches Err(error) ==> error.0 == label
                && final(self).inner@ == old(self).inner@,
            outcome matches Ok(labeled) ==> {
                let flow = final(self).inner@[label.0];
                &&& flow.graph.initialized_from(&old(self).inner@[label.0].graph)
                &&& exists|scores: Map<ScoringNodeId, Score>|
                    #![auto]
                    flow.graph.is_valuation(final(world), target, scores) && labeled@
                        == flow.graph.labeled_scores(scores)
            },
            old(self).inner@.contains_key(label.0)
                && old(self).inner@[label.0].graph.uninitialized.len() == 0
                ==> final(self).inner@ == old(self).inner@ && *final(world) == *old(world),
            !old(self).inner@.contains_key(label.0) ==> *final(world) == *old(world),
    {
        let mut flow = match self.inner.remove(&label.0) {
            Some(flow) => flow,
            None => {
                proof {
                    assert(final(self).inner@ =~= old(self).inner@);
                }
                return Err(TryRunFlowError(label));
            },
        };
        let labeled = flow.run(world, target);
        self.inner.insert(label.0, flow);
        proof {
            assert(final(self).inner@.dom() =~= old(self).inner@.dom());
            if old(self).inner@[label.0].graph.uninitialized.len() == 0 {
                assert(final(self).inner@ =~= old(self).inner@);
            }
        }
        Ok(labeled)
    }
}

} // verus!
