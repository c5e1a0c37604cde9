//! Identifiers of the nodes of a scoring graph, and the bookkeeping of a
//! graph that is rebuilt when it changes.

use vstd::prelude::*;

verus! {

/// Identifies a node of a scoring graph: the kind of the node, and its index
/// among the nodes of that kind, in the order in which they were added.
#[derive(Clone, Copy, PartialEq, Eq, PartialOrd, Ord, Debug, Hash, Structural)]
pub enum ScoringNodeId {
    /// The index of an evaluator.
    Evaluator(usize),
    /// The index of an aggregator.
    Aggregator(usize),
}

impl ScoringNodeId {
    /// The node as a pair of integers: whether it is an aggregator, and its
    /// index.
    pub open spec fn key(self) -> (bool, usize) {
        match self {
            ScoringNodeId::Evaluator(index) => (false, index),
            ScoringNodeId::Aggregator(index) => (true, index),
        }
    }

    /// The node that a pair of integers stands for.
    pub open spec fn of_key(key: (bool, usize)) -> ScoringNodeId {
        if key.0 {
            ScoringNodeId::Aggregator(key.1)
        } else {
            ScoringNodeId::Evaluator(key.1)
        }
    }

    /// Returns the node as a pair of integers.
    pub fn to_key(self) -> (key: (bool, usize))
        ensures
            key == self.key(),
    {
        match self {
            ScoringNodeId::Evaluator(index) => (false, index),
            ScoringNodeId::Aggregator(index) => (true, index),
        }
    }

    /// Returns the node that a pair of integers stands for.
    pub fn from_key(key: (bool, usize)) -> (node: ScoringNodeId)
        ensures
            node == ScoringNodeId::of_key(key),
    {
        if key.0 {
            ScoringNodeId::Aggregator(key.1)
        } else {
            ScoringNodeId::Evaluator(key.1)
        }
    }
}

/// Records whether a scoring graph has changed since it was last built.
pub struct ScoringGraph {
    changed: bool,
}

impl ScoringGraph {
    /// Whether the graph is marked as changed, in specifications.
    pub closed spec fn is_changed(&self) -> bool {
        self.changed
    }

    /// Whether the graph has changed since it was last built.
    pub fn changed(&self) -> (changed: bool)
        ensures
            changed == self.is_changed(),
    {
        self.changed
    }

    /// Marks the graph as changed or as built.
    pub fn set_changed(&mut self, changed: bool)
        ensures
            final(self).is_changed() == changed,
    {
        self.changed = changed;
    }
}

impl Default for ScoringGraph {
    fn default() -> (graph: ScoringGraph)
        ensures
            !graph.is_changed(),
    {
        ScoringGraph { changed: false }
    }
}

/// What a built scoring graph runs from. It holds nothing: a flow runs from
/// its graph directly.
pub struct ScoringExecutable {}

impl Default for ScoringExecutable {
    fn default() -> (executable: ScoringExecutable) {
        ScoringExecutable {  }
    }
}

/// The errors of building a scoring graph. There is none to construct: a
/// graph is acyclic by construction.
pub enum ScoringBuildError {
    /// Holds a value of a type without values.
    Never(core::convert::Infallible),
}

} // verus!
