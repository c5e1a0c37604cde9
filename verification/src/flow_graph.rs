//! The registered nodes of a flow, their dependencies, and the order in
//! which they run.

use vstd::prelude::*;
use std::collections::HashMap;
use bevy_ecs::entity::Entity;
use bevy_ecs::world::World;
use petgraph::graphmap::GraphMap;
use petgraph::Directed;
use crate::aggregator::{Aggregation, AggregationCtx, Aggregator};
use crate::buffer::ScoreBuffer;
use crate::config::{BoxedAggregator, BoxedEvaluator, FlowNode, FlowNodeConfigs};
use crate::evaluator::{Evaluation, EvaluationCtx, Evaluator};
use crate::graph::{
    graph_add_edge, graph_add_node, graph_edges, graph_new, graph_nodes, graph_toposort,
    is_topological_order,
};
use crate::label::InternedScoreLabel;
use crate::schedule::ScoringNodeId;
use crate::score::Score;

verus! {

broadcast use vstd::std_specs::hash::group_hash_axioms;

/// Stores all nodes of a flow and their dependency metadata.
pub struct FlowGraph {
    /// All evaluator nodes. A [`ScoringNodeId::Evaluator`] is an index into
    /// this list.
    pub evaluators: Vec<BoxedEvaluator>,
    /// All aggregator nodes. A [`ScoringNodeId::Aggregator`] is an index into
    /// this list.
    pub aggregators: Vec<BoxedAggregator>,
    /// For each aggregator, its direct children in the order in which they
    /// were registered.
    pub children: Vec<Vec<ScoringNodeId>>,
    /// The nodes that have not been initialized yet.
    pub uninitialized: Vec<ScoringNodeId>,
    /// For each evaluator, its label, if any.
    pub evaluator_labels: Vec<Option<u64>>,
    /// For each aggregator, its label, if any.
    pub aggregator_labels: Vec<Option<u64>>,
    /// The node of each label; the reverse of the two lists of labels.
    pub labels: HashMap<u64, ScoringNodeId>,
    /// The dependencies: an edge leads from each child to its parent.
    pub dependency: GraphMap<(bool, usize), (), Directed>,
    /// All nodes, each behind all of its children.
    pub dependency_toposort: Vec<ScoringNodeId>,
}

/// What a graph holds, apart from the order in which its nodes run: the
/// nodes, the children of each aggregator, the node of each label, and the
/// nodes that are not initialized yet.
pub struct GraphShape {
    /// The evaluators, in the order of their registration.
    pub evaluators: Seq<BoxedEvaluator>,
    /// The aggregators, in the order of their registration.
    pub aggregators: Seq<BoxedAggregator>,
    /// For each aggregator, its children in the order of their registration.
    pub children: Seq<Seq<ScoringNodeId>>,
    /// The node of each label.
    pub labels: Map<u64, ScoringNodeId>,
    /// The nodes that have not been initialized yet.
    pub uninitialized: Seq<ScoringNodeId>,
}

impl GraphShape {
    /// The identifier that the next node of the kind of `node` gets.
    pub open spec fn next_id(self, node: FlowNode) -> ScoringNodeId {
        match node {
            FlowNode::Evaluator { .. } => ScoringNodeId::Evaluator(self.evaluators.len() as usize),
            FlowNode::Aggregator { .. } => ScoringNodeId::Aggregator(
                self.aggregators.len() as usize,
            ),
        }
    }

    /// The shape of a graph without nodes.
    pub open spec fn empty() -> GraphShape {
        GraphShape {
            evaluators: Seq::empty(),
            aggregators: Seq::empty(),
            children: Seq::empty(),
            labels: Map::empty(),
            uninitialized: Seq::empty(),
        }
    }

    /// The shape with one more node: the node is the last of its kind, not
    /// initialized, and the last child of `parent`, if there is a parent.
    pub open spec fn with_node(self, parent: Option<ScoringNodeId>, node: FlowNode) -> GraphShape {
        let id = self.next_id(node);
        let children = match node {
            FlowNode::Evaluator { .. } => self.children,
            FlowNode::Aggregator { .. } => self.children.push(Seq::empty()),
        };
        GraphShape {
            evaluators: match node {
                FlowNode::Evaluator { evaluator } => self.evaluators.push(evaluator),
                FlowNode::Aggregator { .. } => self.evaluators,
            },
            aggregators: match node {
                FlowNode::Evaluator { .. } => self.aggregators,
                FlowNode::Aggregator { aggregator, .. } => self.aggregators.push(aggregator),
            },
            children: match parent {
                Some(ScoringNodeId::Aggregator(index)) => children.update(
                    index as int,
                    children[index as int].push(id),
                ),
                _ => children,
            },
            labels: self.labels,
            uninitialized: self.uninitialized.push(id),
        }
    }

    /// The shape with the label bound to the node, unless the label is
    /// bound already: then the shape stays as it is.
    pub open spec fn with_label(self, label: Option<InternedScoreLabel>, node: ScoringNodeId)
        -> GraphShape {
        match label {
            Some(label) => if self.labels.contains_key(label.0) {
                self
            } else {
                GraphShape {
                    evaluators: self.evaluators,
                    aggregators: self.aggregators,
                    children: self.children,
                    labels: self.labels.insert(label.0, node),
                    uninitialized: self.uninitialized,
                }
            },
            None => self,
        }
    }
}

/// Initializing is idempotent: a graph that was initialized from a graph
/// without pending nodes is that graph, and initializing what was
/// initialized gives the same graph again.
pub proof fn initialize_is_idempotent(before: &FlowGraph, once: &FlowGraph, twice: &FlowGraph)
    requires
        once.initialized_from(before),
        twice.initialized_from(once),
    ensures
        *twice == *once,
        before.uninitialized.len() == 0 ==> *once == *before,
{
}

/// A label is bound once: binding it to a second node leaves the shape as
/// the first binding made it, and the label stays with the node that had it
/// first.
pub proof fn first_binding_is_kept(
    shape: GraphShape,
    label: InternedScoreLabel,
    first: ScoringNodeId,
    second: ScoringNodeId,
)
    ensures
        shape.with_label(Some(label), first).with_label(Some(label), second) == shape.with_label(
            Some(label),
            first,
        ),
        shape.with_label(Some(label), first).labels[label.0] == (if shape.labels.contains_key(
            label.0,
        ) {
            shape.labels[label.0]
        } else {
            first
        }),
{
}

/// The keys of a sequence of nodes.
pub open spec fn keys_of(nodes: Seq<ScoringNodeId>) -> Seq<(bool, usize)> {
    Seq::new(nodes.len(), |i: int| nodes[i].key())
}

impl FlowGraph {
    /// What the graph holds, apart from the order in which its nodes run.
    pub open spec fn shape(&self) -> GraphShape {
        GraphShape {
            evaluators: self.evaluators@,
            aggregators: self.aggregators@,
            children: Seq::new(self.children.len() as nat, |j: int| self.children[j]@),
            labels: self.labels@,
            uninitialized: self.uninitialized@,
        }
    }

    /// Whether `node` identifies a node of this graph.
    pub open spec fn valid_node(&self, node: ScoringNodeId) -> bool {
        match node {
            ScoringNodeId::Evaluator(index) => index < self.evaluators.len(),
            ScoringNodeId::Aggregator(index) => index < self.aggregators.len(),
        }
    }

    /// The label of a node, if it has one.
    pub open spec fn node_label(&self, node: ScoringNodeId) -> Option<u64> {
        match node {
            ScoringNodeId::Evaluator(index) => self.evaluator_labels[index as int],
            ScoringNodeId::Aggregator(index) => self.aggregator_labels[index as int],
        }
    }

    /// Whether `child` is a direct child of `parent`.
    pub open spec fn is_child(&self, child: ScoringNodeId, parent: ScoringNodeId) -> bool {
        match parent {
            ScoringNodeId::Evaluator(_) => false,
            ScoringNodeId::Aggregator(index) => index < self.children.len()
                && self.children[index as int]@.contains(child),
        }
    }

    /// Whether the labels of the nodes and the nodes of the labels agree.
    pub open spec fn labels_agree(&self) -> bool {
        &&& forall|label: u64| #[trigger]
            self.labels@.contains_key(label) ==> self.valid_node(self.labels@[label])
                && self.node_label(self.labels@[label]) == Some(label)
        &&& forall|node: ScoringNodeId|
            self.valid_node(node) && (#[trigger] self.node_label(node)) is Some
                ==> self.labels@.contains_key(self.node_label(node).unwrap())
                && self.labels@[self.node_label(node).unwrap()] == node
    }

    /// Whether the dependency graph holds the nodes of this graph and an
    /// edge from each child to its parent, and nothing else.
    pub open spec fn dependency_agrees(&self) -> bool {
        &&& forall|key: (bool, usize)| #[trigger]
            graph_nodes(self.dependency).contains(key) <==> self.valid_node(
                ScoringNodeId::of_key(key),
            )
        &&& forall|source: (bool, usize), target: (bool, usize)| #[trigger]
            graph_edges(self.dependency).contains((source, target)) <==> self.is_child(
                ScoringNodeId::of_key(source),
                ScoringNodeId::of_key(target),
            )
    }

    /// Whether the node is initialized.
    pub open spec fn node_initialized(&self, node: ScoringNodeId) -> bool {
        match node {
            ScoringNodeId::Evaluator(index) => self.evaluators[index as int].node.is_initialized(),
            ScoringNodeId::Aggregator(index) => self.aggregators[index as int].node.is_initialized(),
        }
    }

    /// Whether every node is initialized but those that are pending.
    pub open spec fn ready(&self) -> bool {
        forall|node: ScoringNodeId|
            self.valid_node(node) && !self.uninitialized@.contains(node)
                ==> #[trigger] self.node_initialized(node)
    }

    /// Whether the node of this graph is the node of `other`.
    pub open spec fn same_node(&self, other: &FlowGraph, node: ScoringNodeId) -> bool {
        match node {
            ScoringNodeId::Evaluator(index) => self.evaluators[index as int]
                == other.evaluators[index as int],
            ScoringNodeId::Aggregator(index) => self.aggregators[index as int]
                == other.aggregators[index as int],
        }
    }

    /// Whether the node of this graph scores as the node of `other` does.
    pub open spec fn same_scores(&self, other: &FlowGraph, node: ScoringNodeId) -> bool {
        match node {
            ScoringNodeId::Evaluator(index) => forall|world: &World, target: Entity| #[trigger]
                self.evaluators[index as int].node.score_of(world, target)
                    == other.evaluators[index as int].node.score_of(world, target),
            ScoringNodeId::Aggregator(index) => forall|
                world: &World,
                target: Entity,
                scores: Seq<Score>,
            | #[trigger]
                self.aggregators[index as int].node.score_of(world, target, scores)
                    == other.aggregators[index as int].node.score_of(world, target, scores),
        }
    }

    /// Whether this graph is `before` with its pending nodes initialized: no
    /// node is pending and every node is initialized; a node that was not
    /// pending is the node it was, and a node that was initialized already
    /// scores as it did; the shape is the same; and a graph without pending
    /// nodes is the graph it was.
    pub open spec fn initialized_from(&self, before: &FlowGraph) -> bool {
        &&& self.uninitialized.len() == 0
        &&& forall|node: ScoringNodeId|
            self.valid_node(node) ==> #[trigger] self.node_initialized(node)
        &&& forall|node: ScoringNodeId|
            before.valid_node(node) && !before.uninitialized@.contains(node)
                ==> #[trigger] self.same_node(before, node)
        &&& forall|node: ScoringNodeId|
            before.valid_node(node) && before.node_initialized(node) ==> #[trigger] self.same_scores(
                before,
                node,
            )
        &&& self.evaluators.len() == before.evaluators.len()
        &&& self.aggregators.len() == before.aggregators.len()
        &&& self.children@ == before.children@
        &&& self.labels@ == before.labels@
        &&& self.evaluator_labels@ == before.evaluator_labels@
        &&& self.aggregator_labels@ == before.aggregator_labels@
        &&& self.dependency == before.dependency
        &&& self.dependency_toposort@ == before.dependency_toposort@
        &&& before.uninitialized.len() == 0 ==> *self == *before
    }

    /// The invariant of the graph: its shape is sound, and every node is
    /// initialized but those that are pending.
    pub open spec fn wf(&self) -> bool {
        self.shaped() && self.ready()
    }

    /// The invariant of the shape: the lists are as long as each other, every
    /// identifier that is stored identifies a node, labels and nodes agree,
    /// and the cached order lists every node once, behind all its children.
    pub open spec fn shaped(&self) -> bool {
        &&& self.children.len() == self.aggregators.len()
        &&& self.evaluator_labels.len() == self.evaluators.len()
        &&& self.aggregator_labels.len() == self.aggregators.len()
        &&& forall|j: int, k: int|
            0 <= j < self.children.len() && 0 <= k < self.children[j].len() ==> self.valid_node(
                #[trigger] self.children[j][k],
            )
        &&& forall|i: int|
            0 <= i < self.uninitialized.len() ==> self.valid_node(#[trigger] self.uninitialized[i])
        &&& self.labels_agree()
        &&& self.dependency_agrees()
        &&& is_topological_order(
            graph_nodes(self.dependency),
            graph_edges(self.dependency),
            keys_of(self.dependency_toposort@),
        )
    }

    /// Creates a graph without nodes.
    pub fn new() -> (graph: FlowGraph)
        ensures
            graph.wf(),
            graph.shape() == GraphShape::empty(),
            graph.evaluators.len() == 0,
            graph.aggregators.len() == 0,
            graph.uninitialized.len() == 0,
            graph.labels@ == Map::<u64, ScoringNodeId>::empty(),
    {
        let graph = FlowGraph {
            evaluators: Vec::new(),
            aggregators: Vec::new(),
            children: Vec::new(),
            uninitialized: Vec::new(),
            evaluator_labels: Vec::new(),
            aggregator_labels: Vec::new(),
            labels: HashMap::new(),
            dependency: graph_new(),
            dependency_toposort: Vec::new(),
        };
        proof {
            assert(keys_of(graph.dependency_toposort@) =~= Seq::<(bool, usize)>::empty());
            assert(graph.shape().children =~= GraphShape::empty().children);
        }
        graph
    }
}


/// An order stays topological when a new node with at most one edge, to a
/// node that is already there, is put in front of it.
proof fn lemma_front_extends_order(
    nodes: Set<(bool, usize)>,
    edges: Set<((bool, usize), (bool, usize))>,
    order: Seq<(bool, usize)>,
    fresh: (bool, usize),
    parent: Option<(bool, usize)>,
)
    requires
        is_topological_order(nodes, edges, order),
        !nodes.contains(fresh),
        parent matches Some(p) ==> nodes.contains(p),
        forall|a: (bool, usize), b: (bool, usize)| #[trigger]
            edges.contains((a, b)) ==> nodes.contains(a) && nodes.contains(b),
    ensures
        is_topological_order(
            match parent {
                Some(p) => nodes.insert(fresh).insert(p),
                None => nodes.insert(fresh),
            },
            match parent {
                Some(p) => edges.insert((fresh, p)),
                None => edges,
            },
            seq![fresh] + order,
        ),
{
    let extended = seq![fresh] + order;
    let new_nodes = match parent {
        Some(p) => nodes.insert(fresh).insert(p),
        None => nodes.insert(fresh),
    };
    let new_edges = match parent {
        Some(p) => edges.insert((fresh, p)),
        None => edges,
    };
    assert(extended[0] == fresh);
    assert(forall|i: int| 1 <= i < extended.len() ==> extended[i] == order[i - 1]);
    assert(!order.contains(fresh));
    assert(extended.no_duplicates()) by {
        assert forall|i: int, j: int|
            0 <= i < extended.len() && 0 <= j < extended.len() && i != j implies extended[i]
            != extended[j] by {
            if i >= 1 {
                assert(order.contains(order[i - 1]));
            }
            if j >= 1 {
                assert(order.contains(order[j - 1]));
            }
        }
    }
    assert forall|n: (bool, usize)| new_nodes.contains(n) <==> #[trigger] extended.contains(
        n,
    ) by {
        if extended.contains(n) {
            let i = choose|i: int| 0 <= i < extended.len() && extended[i] == n;
            if i >= 1 {
                assert(order.contains(order[i - 1]));
            }
        }
        if new_nodes.contains(n) {
            if n == fresh {
                assert(extended[0] == n);
            } else {
                assert(nodes.contains(n));
                assert(order.contains(n));
                let i = choose|i: int| 0 <= i < order.len() && order[i] == n;
                assert(extended[i + 1] == n);
            }
        }
    }
    assert forall|i: int, j: int|
        0 <= i < extended.len() && 0 <= j < extended.len() && #[trigger] new_edges.contains(
            (extended[i], extended[j]),
        ) implies i < j by {
        if i >= 1 {
            assert(order.contains(order[i - 1]));
        }
        if j >= 1 {
            assert(order.contains(order[j - 1]));
        }
        if edges.contains((extended[i], extended[j])) {
            assert(nodes.contains(extended[i]) && nodes.contains(extended[j]));
            assert(i >= 1 && j >= 1);
            assert(edges.contains((order[i - 1], order[j - 1])));
        } else {
            assert(extended[i] == fresh);
            assert(i == 0);
            assert(extended[j] != fresh);
        }
    }
}

/// What appending does to a sequence: it grows by one, the new item is last,
/// and the items before it stay.
proof fn lemma_push_keeps<T>(items: Seq<T>, item: T)
    ensures
        items.push(item).len() == items.len() + 1,
        items.push(item)[items.len() as int] == item,
        forall|i: int| 0 <= i < items.len() ==> #[trigger] items.push(item)[i] == items[i],
{
}

/// Turns the keys of a topological sort back into nodes.
fn nodes_of_keys(keys: &Vec<(bool, usize)>) -> (nodes: Vec<ScoringNodeId>)
    ensures
        keys_of(nodes@) == keys@,
{
    let mut nodes: Vec<ScoringNodeId> = Vec::new();
    let mut i: usize = 0;
    while i < keys.len()
        invariant
            i <= keys.len(),
            nodes.len() == i,
            forall|k: int| 0 <= k < i ==> (#[trigger] nodes[k]).key() == keys[k],
        decreases keys.len() - i,
    {
        nodes.push(ScoringNodeId::from_key(keys[i]));
        i += 1;
    }
    proof {
        assert(keys_of(nodes@) =~= keys@);
    }
    nodes
}

impl FlowGraph {
    /// Adds an individual node to the graph, as a child of `parent` if there
    /// is one, and returns its identifier and the configurations of its
    /// children, if it is an aggregator.
    ///
    /// The node is appended to the nodes of its kind, without a label and
    /// not initialized; nothing else changes but the children of `parent`.
    pub fn add_node(&mut self, parent: Option<ScoringNodeId>, node: FlowNode) -> (added: (
        ScoringNodeId,
        Option<FlowNodeConfigs>,
    ))
        requires
            old(self).wf(),
            parent matches Some(p) ==> p is Aggregator && old(self).valid_node(p),
        ensures
            final(self).wf(),
            final(self).shape() == old(self).shape().with_node(parent, node),
            added.0 == old(self).shape().next_id(node),
            final(self).extends(old(self)),
            !old(self).valid_node(added.0),
            final(self).valid_node(added.0),
            final(self).node_label(added.0) is None,
            final(self).labels@ == old(self).labels@,
            final(self).uninitialized@ == old(self).uninitialized@.push(added.0),
            match node {
                FlowNode::Evaluator { evaluator } => {
                    &&& added.0 == ScoringNodeId::Evaluator(old(self).evaluators.len())
                    &&& added.1 is None
                    &&& final(self).evaluators@ == old(self).evaluators@.push(evaluator)
                    &&& final(self).evaluators.len() == old(self).evaluators.len() + 1
                    &&& final(self).aggregators@ == old(self).aggregators@
                    &&& final(self).children.len() == old(self).children.len()
                },
                FlowNode::Aggregator { aggregator, children } => {
                    &&& added.0 == ScoringNodeId::Aggregator(old(self).aggregators.len())
                    &&& added.1 == Some(children)
                    &&& final(self).evaluators@ == old(self).evaluators@
                    &&& final(self).aggregators@ == old(self).aggregators@.push(aggregator)
                    &&& final(self).aggregators.len() == old(self).aggregators.len() + 1
                    &&& final(self).children.len() == old(self).children.len() + 1
                    &&& final(self).children[old(self).children.len() as int]@
                        == Seq::<ScoringNodeId>::empty()
                },
            },
            forall|j: int|
                0 <= j < old(self).children.len() ==> #[trigger] final(self).children[j]@ == (
                if parent == Some(ScoringNodeId::Aggregator(j as usize)) {
                    old(self).children[j]@.push(added.0)
                } else {
                    old(self).children[j]@
                }),
    {
        let ghost before = *old(self);
        let (id, kids) = match node {
            FlowNode::Aggregator { aggregator, children } => {
                let id = ScoringNodeId::Aggregator(self.aggregators.len());
                let ghost pushed = aggregator;
                self.aggregators.push(aggregator);
                proof {
                    lemma_push_keeps(before.aggregators@, pushed);
                }
                self.children.push(Vec::new());
                self.aggregator_labels.push(None);
                (id, Some(children))
            },
            FlowNode::Evaluator { evaluator } => {
                let id = ScoringNodeId::Evaluator(self.evaluators.len());
                let ghost pushed = evaluator;
                self.evaluators.push(evaluator);
                proof {
                    lemma_push_keeps(before.evaluators@, pushed);
                }
                self.evaluator_labels.push(None);
                (id, None)
            },
        };
        self.uninitialized.push(id);
        let key = id.to_key();
        let ghost mid = *self;
        proof {
            assert(before.evaluators@.is_prefix_of(mid.evaluators@));
            assert(before.aggregators@.is_prefix_of(mid.aggregators@));
            assert(before.uninitialized@.is_prefix_of(mid.uninitialized@));
            assert(mid.uninitialized@ == old(self).uninitialized@.push(id));
            assert(mid.evaluators.len() >= before.evaluators.len());
            assert(mid.aggregators.len() >= before.aggregators.len());
            assert(mid.valid_node(id) && !before.valid_node(id));
            assert forall|n: ScoringNodeId| mid.valid_node(n) <==> before.valid_node(n) || n
                == id by {}
        }
        match parent {
            Some(ScoringNodeId::Aggregator(index)) => {
                self.children[index].push(id);
                graph_add_edge(&mut self.dependency, key, (true, index));
            },
            _ => {
                graph_add_node(&mut self.dependency, key);
            },
        }
        proof {
            assert(self.children.len() == mid.children.len());
            assert forall|j: int| 0 <= j < mid.children.len() implies #[trigger] self.children[j]@
                == (if parent == Some(ScoringNodeId::Aggregator(j as usize)) {
                mid.children[j]@.push(id)
            } else {
                mid.children[j]@
            }) by {}
            assert(forall|n: ScoringNodeId| self.valid_node(n) <==> mid.valid_node(n));
            let parent_key: Option<(bool, usize)> = match parent {
                Some(p) => Some(p.key()),
                None => None,
            };
            assert forall|a: (bool, usize), b: (bool, usize)| #[trigger]
                graph_edges(before.dependency).contains((a, b)) implies graph_nodes(
                before.dependency,
            ).contains(a) && graph_nodes(before.dependency).contains(b) by {
                let child = ScoringNodeId::of_key(a);
                let target = ScoringNodeId::of_key(b);
                assert(before.is_child(child, target));
                let j = target->Aggregator_0 as int;
                let k = choose|k: int|
                    0 <= k < before.children[j]@.len() && before.children[j]@[k] == child;
                assert(before.valid_node(before.children[j][k]));
            }
            assert(!graph_nodes(before.dependency).contains(key));
            lemma_front_extends_order(
                graph_nodes(before.dependency),
                graph_edges(before.dependency),
                keys_of(before.dependency_toposort@),
                key,
                parent_key,
            );
        }
        let order = match graph_toposort(&self.dependency) {
            Ok(order) => order,
            Err(_) => {
                proof {
                    assert(false);
                }
                vstd::pervasive::unreached()
            },
        };
        self.dependency_toposort = nodes_of_keys(&order);
        proof {
            assert forall|j: int, k: int|
                0 <= j < self.children.len() && 0 <= k < self.children[j].len()
                    implies self.valid_node(#[trigger] self.children[j][k]) by {
                if j < before.children.len() {
                    assert(mid.children[j]@ == before.children[j]@);
                    if k < before.children[j].len() {
                        assert(before.valid_node(before.children[j][k]));
                        assert(self.children[j]@[k] == before.children[j]@[k]);
                    } else {
                        assert(self.children[j]@[k] == id);
                    }
                }
            }
            assert forall|i: int| 0 <= i < self.uninitialized.len() implies self.valid_node(
                #[trigger] self.uninitialized[i],
            ) by {
                if i < before.uninitialized.len() {
                    assert(before.valid_node(before.uninitialized[i]));
                    assert(self.uninitialized[i] == before.uninitialized[i]);
                } else {
                    assert(self.uninitialized[i] == id);
                }
            }
            assert(self.labels_agree()) by {
                assert forall|label: u64| #[trigger]
                    self.labels@.contains_key(label) implies self.valid_node(self.labels@[label])
                    && self.node_label(self.labels@[label]) == Some(label) by {
                    assert(before.labels@.contains_key(label));
                }
                assert forall|node: ScoringNodeId|
                    self.valid_node(node) && (#[trigger] self.node_label(node)) is Some
                        implies self.labels@.contains_key(self.node_label(node).unwrap())
                    && self.labels@[self.node_label(node).unwrap()] == node by {
                    assert(node != id);
                    assert(before.valid_node(node));
                    assert(before.node_label(node) == self.node_label(node));
                }
            }
            assert(self.dependency_agrees()) by {
                assert forall|k: (bool, usize)| #[trigger]
                    graph_nodes(self.dependency).contains(k) <==> self.valid_node(
                        ScoringNodeId::of_key(k),
                    ) by {
                    assert(graph_nodes(before.dependency).contains(k) <==> before.valid_node(
                        ScoringNodeId::of_key(k),
                    ));
                }
                assert forall|source: (bool, usize), target: (bool, usize)| #[trigger]
                    graph_edges(self.dependency).contains((source, target)) <==> self.is_child(
                        ScoringNodeId::of_key(source),
                        ScoringNodeId::of_key(target),
                    ) by {
                    let child = ScoringNodeId::of_key(source);
                    let above = ScoringNodeId::of_key(target);
                    assert(graph_edges(before.dependency).contains((source, target))
                        <==> before.is_child(child, above));
                    if above is Aggregator {
                        let j = above->Aggregator_0 as int;
                        if j < before.children.len() {
                            if parent == Some(above) {
                                assert(self.children[j]@ == before.children[j]@.push(id));
                                assert(self.children[j]@.contains(child)
                                    <==> before.children[j]@.contains(child) || child == id) by {
                                    if before.children[j]@.contains(child) {
                                        let k = choose|k: int|
                                            0 <= k < before.children[j]@.len()
                                                && before.children[j]@[k] == child;
                                        assert(self.children[j]@[k] == child);
                                    }
                                    if child == id {
                                        assert(self.children[j]@[before.children[j]@.len() as int]
                                            == id);
                                    }
                                }
                            } else {
                                assert(self.children[j]@ == before.children[j]@);
                            }
                        }
                    }
                }
            }
        }
        proof {
            assert forall|other: ScoringNodeId|
                self.valid_node(other) && !self.uninitialized@.contains(
                    other,
                ) implies #[trigger] self.node_initialized(other) by {
                assert(self.uninitialized@[before.uninitialized@.len() as int] == id);
                assert(other != id);
                assert(before.valid_node(other));
                if before.uninitialized@.contains(other) {
                    let k = choose|k: int|
                        0 <= k < before.uninitialized@.len() && before.uninitialized@[k] == other;
                    assert(self.uninitialized@[k] == other);
                }
                assert(before.node_initialized(other));
                assert(self.same_node(&before, other));
            }
            assert(self.shape().children =~= before.shape().with_node(parent, node).children);
            assert(self.shape().uninitialized =~= before.shape().with_node(
                parent,
                node,
            ).uninitialized);
            assert(self.evaluators@ == mid.evaluators@);
            assert(self.aggregators@ == mid.aggregators@);
            assert forall|j: int| 0 <= j < before.children.len() implies (
            #[trigger] before.children[j]@).is_prefix_of(self.children[j]@) by {
                assert(mid.children[j]@ == before.children[j]@);
            }
        }
        (id, kids)
    }
}


/// The score that the two lists of a run hold for a node, if any.
pub open spec fn slot_of(
    evaluator_scores: Seq<Option<Score>>,
    aggregator_scores: Seq<Option<Score>>,
    node: ScoringNodeId,
) -> Option<Score> {
    match node {
        ScoringNodeId::Evaluator(index) => evaluator_scores[index as int],
        ScoringNodeId::Aggregator(index) => aggregator_scores[index as int],
    }
}

/// Whether the two lists of a run hold, for every node of the graph, the
/// score that `scores` has for it, and nothing for a node that `scores` does
/// not know.
pub open spec fn slots_hold(
    graph: &FlowGraph,
    evaluator_scores: Seq<Option<Score>>,
    aggregator_scores: Seq<Option<Score>>,
    scores: Map<ScoringNodeId, Score>,
) -> bool {
    &&& evaluator_scores.len() == graph.evaluators.len()
    &&& aggregator_scores.len() == graph.aggregators.len()
    &&& forall|node: ScoringNodeId|
        graph.valid_node(node) ==> #[trigger] slot_of(evaluator_scores, aggregator_scores, node)
            == (if scores.dom().contains(node) {
            Some(scores[node])
        } else {
            None
        })
}

/// A list of `len` empty slots.
fn vacant_slots(len: usize) -> (slots: Vec<Option<Score>>)
    ensures
        slots.len() == len,
        forall|i: int| 0 <= i < len ==> #[trigger] slots[i] is None,
{
    let mut slots: Vec<Option<Score>> = Vec::new();
    let mut i: usize = 0;
    while i < len
        invariant
            i <= len,
            slots.len() == i,
            forall|k: int| 0 <= k < i ==> #[trigger] slots[k] is None,
        decreases len - i,
    {
        slots.push(None);
        i += 1;
    }
    slots
}

impl FlowGraph {
    /// The scores of the children of an aggregator, in the order in which
    /// the children were registered, as `scores` has them.
    pub open spec fn child_scores(&self, parent: int, scores: Map<ScoringNodeId, Score>) -> Seq<
        Score,
    > {
        Seq::new(
            self.children[parent]@.len(),
            |k: int| scores[self.children[parent]@[k]],
        )
    }

    /// The score that a node yields for `target` in `world`, where `scores`
    /// has the scores of its children.
    pub open spec fn node_score(
        &self,
        world: &World,
        target: Entity,
        node: ScoringNodeId,
        scores: Map<ScoringNodeId, Score>,
    ) -> Score {
        match node {
            ScoringNodeId::Evaluator(index) => self.evaluators[index as int].node.score_of(
                world,
                target,
            ),
            ScoringNodeId::Aggregator(index) => self.aggregators[index as int].node.score_of(
                world,
                target,
                self.child_scores(index as int, scores),
            ),
        }
    }

    /// Whether `scores` gives every node of the graph, and nothing else, the
    /// score that the node yields for `target` in `world`: an evaluator its
    /// own score, an aggregator the score that it makes of the scores that
    /// `scores` gives its children, taken in the order of their registration.
    pub open spec fn is_valuation(
        &self,
        world: &World,
        target: Entity,
        scores: Map<ScoringNodeId, Score>,
    ) -> bool {
        &&& forall|node: ScoringNodeId| scores.dom().contains(node) <==> self.valid_node(node)
        &&& forall|node: ScoringNodeId|
            self.valid_node(node) ==> #[trigger] scores[node] == self.node_score(
                world,
                target,
                node,
                scores,
            )
    }

    /// The scores of the labeled nodes, each under its label.
    pub open spec fn labeled_scores(&self, scores: Map<ScoringNodeId, Score>) -> Map<u64, Score> {
        Map::new(
            |label: u64| self.labels@.contains_key(label),
            |label: u64| scores[self.labels@[label]],
        )
    }

    /// Every node of the cached order is a node of the graph.
    pub proof fn lemma_order_valid(&self, i: int)
        requires
            self.wf(),
            0 <= i < self.dependency_toposort.len(),
        ensures
            self.valid_node(self.dependency_toposort[i]),
    {
        let keys = keys_of(self.dependency_toposort@);
        assert(keys[i] == self.dependency_toposort[i].key());
        assert(keys.contains(keys[i]));
        assert(graph_nodes(self.dependency).contains(keys[i]));
        assert(ScoringNodeId::of_key(keys[i]) == self.dependency_toposort[i]);
    }

    /// Every node of the graph stands in the cached order.
    pub proof fn lemma_order_position(&self, node: ScoringNodeId) -> (i: int)
        requires
            self.wf(),
            self.valid_node(node),
        ensures
            0 <= i < self.dependency_toposort.len(),
            self.dependency_toposort[i] == node,
    {
        let keys = keys_of(self.dependency_toposort@);
        assert(ScoringNodeId::of_key(node.key()) == node);
        assert(graph_nodes(self.dependency).contains(node.key()));
        assert(keys.contains(node.key()));
        let i = choose|i: int| 0 <= i < keys.len() && keys[i] == node.key();
        assert(self.dependency_toposort[i].key() == node.key());
        i
    }

    /// No node stands twice in the cached order.
    pub proof fn lemma_order_distinct(&self, i: int, j: int)
        requires
            self.wf(),
            0 <= i < self.dependency_toposort.len(),
            0 <= j < self.dependency_toposort.len(),
            i != j,
        ensures
            self.dependency_toposort[i] != self.dependency_toposort[j],
    {
        let keys = keys_of(self.dependency_toposort@);
        assert(keys[i] == self.dependency_toposort[i].key());
        assert(keys[j] == self.dependency_toposort[j].key());
    }

    /// In the cached order every child stands before its parent.
    pub proof fn lemma_child_before_parent(&self, i: int, j: int)
        requires
            self.wf(),
            0 <= i < self.dependency_toposort.len(),
            0 <= j < self.dependency_toposort.len(),
            self.is_child(self.dependency_toposort[i], self.dependency_toposort[j]),
        ensures
            i < j,
    {
        let keys = keys_of(self.dependency_toposort@);
        let child = self.dependency_toposort[i];
        let parent = self.dependency_toposort[j];
        assert(keys[i] == child.key());
        assert(keys[j] == parent.key());
        assert(ScoringNodeId::of_key(child.key()) == child);
        assert(ScoringNodeId::of_key(parent.key()) == parent);
        assert(graph_edges(self.dependency).contains((keys[i], keys[j])));
    }

    /// Collects the scores of the children of an aggregator from the lists
    /// of a run, in the order in which the children were registered.
    fn gather_child_scores(
        &self,
        parent: usize,
        evaluator_scores: &Vec<Option<Score>>,
        aggregator_scores: &Vec<Option<Score>>,
        Ghost(scores): Ghost<Map<ScoringNodeId, Score>>,
    ) -> (buffer: ScoreBuffer)
        requires
            self.wf(),
            parent < self.aggregators.len(),
            slots_hold(self, evaluator_scores@, aggregator_scores@, scores),
            forall|k: int|
                0 <= k < self.children[parent as int].len() ==> scores.dom().contains(
                    #[trigger] self.children[parent as int][k],
                ),
        ensures
            buffer@ == self.child_scores(parent as int, scores),
    {
        let children = &self.children[parent];
        let mut buffer = ScoreBuffer::new();
        let mut k: usize = 0;
        while k < children.len()
            invariant
                self.wf(),
                parent < self.aggregators.len(),
                children == &self.children[parent as int],
                slots_hold(self, evaluator_scores@, aggregator_scores@, scores),
                forall|c: int|
                    0 <= c < children.len() ==> scores.dom().contains(#[trigger] children[c]),
                k <= children.len(),
                buffer@.len() == k,
                forall|c: int| 0 <= c < k ==> #[trigger] buffer@[c] == scores[children[c]],
            decreases children.len() - k,
        {
            let child = children[k];
            proof {
                assert(self.valid_node(self.children[parent as int][k as int]));
                assert(slot_of(evaluator_scores@, aggregator_scores@, child) == Some(
                    scores[child],
                ));
            }
            let slot = match child {
                ScoringNodeId::Evaluator(index) => evaluator_scores[index],
                ScoringNodeId::Aggregator(index) => aggregator_scores[index],
            };
            let score = match slot {
                Some(score) => score,
                None => {
                    proof {
                        assert(false);
                    }
                    vstd::pervasive::unreached()
                },
            };
            buffer.push(score);
            k += 1;
        }
        proof {
            assert(buffer@ =~= self.child_scores(parent as int, scores));
        }
        buffer
    }

    /// Runs every node of the graph for `target` in `world`, each behind all
    /// of its children, and returns the scores of the labeled nodes. No node
    /// may be pending: every node is initialized.
    ///
    /// Every evaluator is evaluated once. Every aggregator receives the
    /// scores of all its children, in the order in which they were
    /// registered.
    pub fn run_readonly(&self, world: &World, target: Entity) -> (labeled: HashMap<u64, Score>)
        requires
            self.wf(),
            self.uninitialized.len() == 0,
        ensures
            exists|scores: Map<ScoringNodeId, Score>|
                #![auto]
                self.is_valuation(world, target, scores) && labeled@ == self.labeled_scores(
                    scores,
                ),
    {
        let mut labeled: HashMap<u64, Score> = HashMap::new();
        let mut evaluator_scores = vacant_slots(self.evaluators.len());
        let mut aggregator_scores = vacant_slots(self.aggregators.len());
        let ghost mut scores: Map<ScoringNodeId, Score> = Map::empty();
        let order = &self.dependency_toposort;
        let mut position: usize = 0;
        proof {
            assert(labeled@ =~= Map::new(
                |label: u64|
                    self.labels@.contains_key(label) && scores.dom().contains(
                        self.labels@[label],
                    ),
                |label: u64| scores[self.labels@[label]],
            ));
        }
        while position < order.len()
            invariant
                self.wf(),
                self.uninitialized.len() == 0,
                order == &self.dependency_toposort,
                position <= order.len(),
                slots_hold(self, evaluator_scores@, aggregator_scores@, scores),
                forall|node: ScoringNodeId|
                    scores.dom().contains(node) <==> exists|i: int|
                        0 <= i < position && #[trigger] order[i] == node,
                forall|node: ScoringNodeId|
                    scores.dom().contains(node) ==> #[trigger] scores[node] == self.node_score(
                        world,
                        target,
                        node,
                        scores,
                    ),
                labeled@ == Map::new(
                    |label: u64|
                        self.labels@.contains_key(label) && scores.dom().contains(
                            self.labels@[label],
                        ),
                    |label: u64| scores[self.labels@[label]],
                ),
            decreases order.len() - position,
        {
            let node = order[position];
            let ghost before = scores;
            proof {
                self.lemma_order_valid(position as int);
                assert(!self.uninitialized@.contains(node));
                assert(self.node_initialized(node));
                if before.dom().contains(node) {
                    let i = choose|i: int| 0 <= i < position && order[i] == node;
                    self.lemma_order_distinct(i, position as int);
                }
            }
            let score = match node {
                ScoringNodeId::Evaluator(index) => {
                    self.evaluators[index].node.evaluate(
                        EvaluationCtx { world, evaluation: Evaluation { target } },
                    )
                },
                ScoringNodeId::Aggregator(index) => {
                    proof {
                        assert forall|k: int|
                            0 <= k < self.children[index as int].len()
                                implies before.dom().contains(
                            #[trigger] self.children[index as int][k],
                        ) by {
                            let child = self.children[index as int][k];
                            assert(self.valid_node(child));
                            let i = self.lemma_order_position(child);
                            assert(self.children[index as int]@.contains(child));
                            self.lemma_child_before_parent(i, position as int);
                        }
                    }
                    let scores_of_children = self.gather_child_scores(
                        index,
                        &evaluator_scores,
                        &aggregator_scores,
                        Ghost(before),
                    );
                    self.aggregators[index].node.aggregate(
                        AggregationCtx {
                            world,
                            aggregation: Aggregation { target, scores: scores_of_children },
                        },
                    )
                },
            };
            let ghost old_evaluator_scores = evaluator_scores@;
            let ghost old_aggregator_scores = aggregator_scores@;
            let label = match node {
                ScoringNodeId::Evaluator(index) => {
                    evaluator_scores.set(index, Some(score));
                    self.evaluator_labels[index]
                },
                ScoringNodeId::Aggregator(index) => {
                    aggregator_scores.set(index, Some(score));
                    self.aggregator_labels[index]
                },
            };
            let ghost labeled_before = labeled@;
            if let Some(label) = label {
                labeled.insert(label, score);
            }
            proof {
                scores = before.insert(node, score);
                assert(label == self.node_label(node));
                assert(slots_hold(self, evaluator_scores@, aggregator_scores@, scores)) by {
                    assert forall|other: ScoringNodeId|
                        self.valid_node(other) implies #[trigger] slot_of(
                        evaluator_scores@,
                        aggregator_scores@,
                        other,
                    ) == (if scores.dom().contains(other) {
                        Some(scores[other])
                    } else {
                        None
                    }) by {
                        if other != node {
                            assert(slot_of(evaluator_scores@, aggregator_scores@, other)
                                == slot_of(
                                old_evaluator_scores,
                                old_aggregator_scores,
                                other,
                            ));
                        }
                    }
                }
                assert forall|other: ScoringNodeId|
                    scores.dom().contains(other) <==> exists|i: int|
                        0 <= i < position + 1 && #[trigger] order[i] == other by {
                    if other == node {
                        assert(order[position as int] == other);
                    }
                }
                // The children of a node that has run have run before it.
                assert forall|other: ScoringNodeId|
                    scores.dom().contains(other) implies self.node_score(
                    world,
                    target,
                    other,
                    scores,
                ) == self.node_score(world, target, other, before) by {
                    if other is Aggregator {
                        let parent = other->Aggregator_0 as int;
                        let at = if other == node {
                            position as int
                        } else {
                            choose|i: int| 0 <= i < position && order[i] == other
                        };
                        self.lemma_order_valid(at);
                        assert forall|k: int|
                            0 <= k < self.children[parent].len()
                                implies scores[self.children[parent]@[k]]
                            == before[self.children[parent]@[k]] by {
                            let child = self.children[parent][k];
                            assert(self.valid_node(child));
                            let i = self.lemma_order_position(child);
                            assert(self.children[parent]@.contains(child));
                            self.lemma_child_before_parent(i, at);
                            self.lemma_order_distinct(i, position as int);
                        }
                        assert(self.child_scores(parent, scores) =~= self.child_scores(
                            parent,
                            before,
                        ));
                    }
                }
                assert(labeled@ =~= Map::new(
                    |label: u64|
                        self.labels@.contains_key(label) && scores.dom().contains(
                            self.labels@[label],
                        ),
                    |label: u64| scores[self.labels@[label]],
                )) by {
                    assert forall|l: u64|
                        self.labels@.contains_key(l) implies (self.labels@[l] == node
                        <==> label == Some(l)) by {
                        assert(self.node_label(self.labels@[l]) == Some(l));
                    }
                    if label is Some {
                        assert(self.labels@.contains_key(label.unwrap()));
                        assert(labeled@ == labeled_before.insert(label.unwrap(), score));
                    } else {
                        assert(labeled@ == labeled_before);
                    }
                }
            }
            position += 1;
        }
        proof {
            assert forall|node: ScoringNodeId| scores.dom().contains(node) <==> self.valid_node(
                node,
            ) by {
                if self.valid_node(node) {
                    let i = self.lemma_order_position(node);
                }
                if scores.dom().contains(node) {
                    let i = choose|i: int| 0 <= i < position && order[i] == node;
                    self.lemma_order_valid(i);
                }
            }
            assert(self.is_valuation(world, target, scores));
            assert(labeled@ =~= self.labeled_scores(scores));
        }
        labeled
    }
}


impl FlowGraph {
    /// Whether `self` has grown out of `before`: every node, child, label and
    /// pending initialization of `before` is still there, at its place.
    pub open spec fn extends(&self, before: &FlowGraph) -> bool {
        &&& before.evaluators@.is_prefix_of(self.evaluators@)
        &&& before.aggregators@.is_prefix_of(self.aggregators@)
        &&& before.uninitialized@.is_prefix_of(self.uninitialized@)
        &&& before.children.len() <= self.children.len()
        &&& forall|j: int|
            0 <= j < before.children.len() ==> (#[trigger] before.children[j]@).is_prefix_of(
                self.children[j]@,
            )
        &&& forall|label: u64| #[trigger]
            before.labels@.contains_key(label) ==> self.labels@.contains_key(label)
                && self.labels@[label] == before.labels@[label]
    }

    /// Associates a label with a node, unless the label is already
    /// associated with a node: a label is never bound a second time.
    /// Returns whether the label was bound.
    pub fn add_label(&mut self, label: InternedScoreLabel, node: ScoringNodeId) -> (bound: bool)
        requires
            old(self).wf(),
            old(self).valid_node(node),
            old(self).node_label(node) is None,
        ensures
            final(self).wf(),
            final(self).shape() == old(self).shape().with_label(Some(label), node),
            bound == !old(self).labels@.contains_key(label.0),
            bound ==> final(self).labels@ == old(self).labels@.insert(label.0, node),
            bound ==> final(self).node_label(node) == Some(label.0),
            !bound ==> final(self).labels@ == old(self).labels@,
            !bound ==> final(self).evaluator_labels@ == old(self).evaluator_labels@,
            !bound ==> final(self).aggregator_labels@ == old(self).aggregator_labels@,
            forall|other: ScoringNodeId|
                other != node && old(self).valid_node(other) ==> final(self).node_label(other)
                    == #[trigger] old(self).node_label(other),
            final(self).evaluators@ == old(self).evaluators@,
            final(self).aggregators@ == old(self).aggregators@,
            final(self).children@ == old(self).children@,
            final(self).uninitialized@ == old(self).uninitialized@,
            final(self).dependency == old(self).dependency,
            final(self).dependency_toposort@ == old(self).dependency_toposort@,
    {
        if self.labels.contains_key(&label.0) {
            return false;
        }
        let ghost before = *old(self);
        match node {
            ScoringNodeId::Evaluator(index) => {
                self.evaluator_labels.set(index, Some(label.0));
            },
            ScoringNodeId::Aggregator(index) => {
                self.aggregator_labels.set(index, Some(label.0));
            },
        }
        self.labels.insert(label.0, node);
        proof {
            assert forall|other: ScoringNodeId|
                other != node && before.valid_node(other) implies self.node_label(other)
                == #[trigger] before.node_label(other) by {}
            assert(self.labels_agree()) by {
                assert forall|l: u64| #[trigger]
                    self.labels@.contains_key(l) implies self.valid_node(self.labels@[l])
                    && self.node_label(self.labels@[l]) == Some(l) by {
                    if l != label.0 {
                        assert(before.labels@.contains_key(l));
                        assert(before.node_label(before.labels@[l]) == Some(l));
                    }
                }
                assert forall|other: ScoringNodeId|
                    self.valid_node(other) && (#[trigger] self.node_label(other)) is Some
                        implies self.labels@.contains_key(self.node_label(other).unwrap())
                    && self.labels@[self.node_label(other).unwrap()] == other by {
                    if other != node {
                        assert(before.node_label(other) == self.node_label(other));
                    }
                }
            }
            assert(forall|n: ScoringNodeId| self.valid_node(n) <==> before.valid_node(n));
            assert(forall|c: ScoringNodeId, p: ScoringNodeId|
                self.is_child(c, p) <==> before.is_child(c, p));
            assert forall|other: ScoringNodeId|
                self.valid_node(other) && !self.uninitialized@.contains(
                    other,
                ) implies #[trigger] self.node_initialized(other) by {
                assert(before.node_initialized(other));
            }
        }
        true
    }

    /// Initializes all nodes that have not been initialized yet, each once.
    ///
    /// Afterwards no node is pending and every node is initialized. A node
    /// that was not pending is left as it is, and a node that was initialized
    /// already scores as it did. A graph without pending nodes is left as it
    /// is, and so is the world.
    pub fn initialize(&mut self, world: &mut World)
        requires
            old(self).wf(),
        ensures
            final(self).wf(),
            final(self).initialized_from(old(self)),
            old(self).uninitialized.len() == 0 ==> *final(world) == *old(world),
    {
        if self.uninitialized.len() == 0 {
            proof {
                assert forall|node: ScoringNodeId| self.valid_node(node) implies #[trigger]
                    self.node_initialized(node) by {
                    assert(!self.uninitialized@.contains(node));
                }
            }
            return ;
        }
        let mut i: usize = 0;
        while i < self.uninitialized.len()
            invariant
                self.shaped(),
                i <= self.uninitialized.len(),
                self.uninitialized@ == old(self).uninitialized@,
                self.evaluators.len() == old(self).evaluators.len(),
                self.aggregators.len() == old(self).aggregators.len(),
                self.children@ == old(self).children@,
                self.labels@ == old(self).labels@,
                self.evaluator_labels@ == old(self).evaluator_labels@,
                self.aggregator_labels@ == old(self).aggregator_labels@,
                self.dependency == old(self).dependency,
                self.dependency_toposort@ == old(self).dependency_toposort@,
                forall|k: int|
                    0 <= k < i ==> self.node_initialized(#[trigger] self.uninitialized[k]),
                forall|node: ScoringNodeId|
                    old(self).valid_node(node) && !old(self).uninitialized@.contains(node)
                        ==> #[trigger] self.same_node(old(self), node),
                forall|node: ScoringNodeId|
                    old(self).valid_node(node) && old(self).node_initialized(node)
                        ==> #[trigger] self.node_initialized(node),
                forall|node: ScoringNodeId|
                    old(self).valid_node(node) && old(self).node_initialized(node)
                        ==> #[trigger] self.same_scores(old(self), node),
            decreases self.uninitialized.len() - i,
        {
            let id = self.uninitialized[i];
            let ghost before = *self;
            proof {
                assert(self.valid_node(self.uninitialized[i as int]));
                assert(old(self).uninitialized@.contains(id));
            }
            match id {
                ScoringNodeId::Evaluator(index) => {
                    self.evaluators[index].node.initialize(world);
                },
                ScoringNodeId::Aggregator(index) => {
                    self.aggregators[index].node.initialize(world);
                },
            }
            proof {
                before.lemma_same_shape(self);
                assert forall|node: ScoringNodeId|
                    before.valid_node(node) && node != id implies #[trigger] self.same_node(
                    &before,
                    node,
                ) by {}
                assert(self.node_initialized(id));
                assert forall|k: int| 0 <= k < i + 1 implies self.node_initialized(
                    #[trigger] self.uninitialized[k],
                ) by {
                    let node = self.uninitialized[k];
                    assert(before.valid_node(before.uninitialized[k]));
                    if node != id {
                        assert(self.same_node(&before, node));
                        assert(before.node_initialized(before.uninitialized[k]));
                    }
                }
                assert forall|node: ScoringNodeId|
                    old(self).valid_node(node) && !old(self).uninitialized@.contains(
                        node,
                    ) implies #[trigger] self.same_node(old(self), node) by {
                    assert(before.same_node(old(self), node));
                    assert(self.same_node(&before, node));
                }
                assert forall|node: ScoringNodeId|
                    old(self).valid_node(node) && old(self).node_initialized(
                        node,
                    ) implies #[trigger] self.node_initialized(node) by {
                    assert(before.node_initialized(node));
                    if node != id {
                        assert(self.same_node(&before, node));
                    }
                }
                assert forall|node: ScoringNodeId|
                    old(self).valid_node(node) && old(self).node_initialized(
                        node,
                    ) implies #[trigger] self.same_scores(old(self), node) by {
                    assert(before.same_scores(old(self), node));
                    assert(before.node_initialized(node));
                    if node != id {
                        assert(self.same_node(&before, node));
                    }
                }
            }
            i += 1;
        }
        let ghost before = *self;
        self.uninitialized.clear();
        proof {
            before.lemma_same_shape(self);
            assert forall|node: ScoringNodeId| self.valid_node(node) implies #[trigger]
                self.node_initialized(node) by {
                assert(before.node_initialized(node)) by {
                    if old(self).uninitialized@.contains(node) {
                        let k = choose|k: int|
                            0 <= k < old(self).uninitialized@.len() && old(self).uninitialized@[k]
                                == node;
                        assert(before.node_initialized(before.uninitialized[k]));
                    } else {
                        assert(old(self).node_initialized(node));
                        assert(before.same_node(old(self), node));
                    }
                }
            }
            assert forall|node: ScoringNodeId|
                old(self).valid_node(node) && !old(self).uninitialized@.contains(
                    node,
                ) implies #[trigger] self.same_node(old(self), node) by {
                assert(before.same_node(old(self), node));
            }
            assert forall|node: ScoringNodeId|
                old(self).valid_node(node) && old(self).node_initialized(
                    node,
                ) implies #[trigger] self.same_scores(old(self), node) by {
                assert(before.same_scores(old(self), node));
            }
        }
    }

    /// The invariant of the shape holds of any graph with as many nodes, the
    /// same children, labels and order, whose pending initializations are of
    /// nodes of the graph.
    pub proof fn lemma_same_shape(&self, other: &FlowGraph)
        requires
            self.shaped(),
            other.evaluators.len() == self.evaluators.len(),
            other.aggregators.len() == self.aggregators.len(),
            other.children@ == self.children@,
            other.labels@ == self.labels@,
            other.evaluator_labels@ == self.evaluator_labels@,
            other.aggregator_labels@ == self.aggregator_labels@,
            other.dependency == self.dependency,
            other.dependency_toposort@ == self.dependency_toposort@,
            forall|i: int|
                0 <= i < other.uninitialized.len() ==> other.valid_node(
                    #[trigger] other.uninitialized[i],
                ),
        ensures
            other.shaped(),
    {
        assert forall|n: ScoringNodeId| other.valid_node(n) <==> self.valid_node(n) by {}
        assert forall|n: ScoringNodeId| other.node_label(n) == self.node_label(n) by {}
        assert forall|c: ScoringNodeId, p: ScoringNodeId|
            other.is_child(c, p) <==> self.is_child(c, p) by {}
        assert forall|j: int, k: int|
            0 <= j < other.children.len() && 0 <= k < other.children[j].len()
                implies other.valid_node(#[trigger] other.children[j][k]) by {
            assert(self.valid_node(self.children[j][k]));
        }
        assert(other.labels_agree()) by {
            assert forall|label: u64| #[trigger]
                other.labels@.contains_key(label) implies other.valid_node(other.labels@[label])
                && other.node_label(other.labels@[label]) == Some(label) by {
                assert(self.labels@.contains_key(label));
            }
            assert forall|node: ScoringNodeId|
                other.valid_node(node) && (#[trigger] other.node_label(node)) is Some
                    implies other.labels@.contains_key(other.node_label(node).unwrap())
                && other.labels@[other.node_label(node).unwrap()] == node by {
                assert(self.node_label(node) is Some);
            }
        }
        assert(other.dependency_agrees()) by {
            assert forall|key: (bool, usize)| #[trigger]
                graph_nodes(other.dependency).contains(key) <==> other.valid_node(
                    ScoringNodeId::of_key(key),
                ) by {
                assert(graph_nodes(self.dependency).contains(key) <==> self.valid_node(
                    ScoringNodeId::of_key(key),
                ));
            }
            assert forall|source: (bool, usize), target: (bool, usize)| #[trigger]
                graph_edges(other.dependency).contains((source, target)) <==> other.is_child(
                    ScoringNodeId::of_key(source),
                    ScoringNodeId::of_key(target),
                ) by {
                assert(graph_edges(self.dependency).contains((source, target)) <==> self.is_child(
                    ScoringNodeId::of_key(source),
                    ScoringNodeId::of_key(target),
                ));
            }
        }
    }
}


impl FlowGraph {
    /// Two valuations of a graph agree on the first `upto` nodes of the
    /// cached order.
    proof fn lemma_valuations_agree(
        &self,
        world: &World,
        target: Entity,
        one: Map<ScoringNodeId, Score>,
        other: Map<ScoringNodeId, Score>,
        upto: int,
    )
        requires
            self.wf(),
            self.is_valuation(world, target, one),
            self.is_valuation(world, target, other),
            0 <= upto <= self.dependency_toposort.len(),
        ensures
            forall|i: int|
                0 <= i < upto ==> one[#[trigger] self.dependency_toposort[i]]
                    == other[self.dependency_toposort[i]],
        decreases upto,
    {
        if upto > 0 {
            self.lemma_valuations_agree(world, target, one, other, upto - 1);
            let node = self.dependency_toposort[upto - 1];
            self.lemma_order_valid(upto - 1);
            assert(one[node] == self.node_score(world, target, node, one));
            assert(other[node] == self.node_score(world, target, node, other));
            if node is Aggregator {
                let parent = node->Aggregator_0 as int;
                assert forall|k: int|
                    0 <= k < self.children[parent].len()
                        implies one[self.children[parent]@[k]]
                    == other[self.children[parent]@[k]] by {
                    let child = self.children[parent][k];
                    assert(self.valid_node(child));
                    let i = self.lemma_order_position(child);
                    assert(self.children[parent]@.contains(child));
                    self.lemma_child_before_parent(i, upto - 1);
                }
                assert(self.child_scores(parent, one) =~= self.child_scores(parent, other));
            }
        }
    }

    /// A graph has at most one valuation for a world and a target: the
    /// scores of a run are determined by the nodes and their children.
    pub proof fn valuation_is_unique(
        &self,
        world: &World,
        target: Entity,
        one: Map<ScoringNodeId, Score>,
        other: Map<ScoringNodeId, Score>,
    )
        requires
            self.wf(),
            self.is_valuation(world, target, one),
            self.is_valuation(world, target, other),
        ensures
            one == other,
    {
        self.lemma_valuations_agree(
            world,
            target,
            one,
            other,
            self.dependency_toposort.len() as int,
        );
        assert forall|node: ScoringNodeId| one.dom().contains(node) == other.dom().contains(
            node,
        ) by {
            assert(one.dom().contains(node) <==> self.valid_node(node));
            assert(other.dom().contains(node) <==> self.valid_node(node));
        }
        assert forall|node: ScoringNodeId| one.dom().contains(node) implies one[node]
            == other[node] by {
            assert(self.valid_node(node));
            let i = self.lemma_order_position(node);
        }
        assert(one.dom() =~= other.dom());
        assert(one =~= other);
    }

    /// In every run an aggregator receives the score that each of its
    /// children yields: the cached order, by which a run goes, lists every
    /// child before its parent.
    pub proof fn children_run_before_parents(&self, child: ScoringNodeId, parent: ScoringNodeId)
        requires
            self.wf(),
            self.valid_node(parent),
            self.is_child(child, parent),
        ensures
            exists|i: int, j: int|
                0 <= i < j < self.dependency_toposort.len() && self.dependency_toposort[i] == child
                    && self.dependency_toposort[j] == parent,
    {
        let index = parent->Aggregator_0 as int;
        let k = choose|k: int|
            0 <= k < self.children[index]@.len() && self.children[index]@[k] == child;
        assert(self.valid_node(self.children[index][k]));
        let i = self.lemma_order_position(child);
        let j = self.lemma_order_position(parent);
        self.lemma_child_before_parent(i, j);
    }
}

impl FlowGraph {
    /// Growing is transitive, and every graph has grown out of itself.
    pub proof fn lemma_extends_transitive(&self, middle: &FlowGraph, before: &FlowGraph)
        requires
            self.extends(middle),
            middle.extends(before),
        ensures
            self.extends(before),
            before.extends(before),
    {
        assert forall|j: int| 0 <= j < before.children.len() implies (
        #[trigger] before.children[j]@).is_prefix_of(self.children[j]@) by {
            assert(before.children[j]@.is_prefix_of(middle.children[j]@));
            assert(middle.children[j]@.is_prefix_of(self.children[j]@));
        }
    }

    /// A graph that has grown out of another still has the nodes of that
    /// other.
    pub proof fn lemma_extends_keeps_nodes(&self, before: &FlowGraph, node: ScoringNodeId)
        requires
            self.extends(before),
            before.valid_node(node),
        ensures
            self.valid_node(node),
    {
    }
}

} // verus!
