//! What is attached to an entity: the flow that scores it, the scores that
//! the flow computed most recently, and the actions that the scores select.

use vstd::prelude::*;
use std::collections::HashMap;
use crate::label::{InternedActionLabel, InternedFlowLabel, InternedScoreLabel};
use crate::score::Score;

verus! {

broadcast use vstd::std_specs::hash::group_hash_axioms;

/// Associates an entity with a flow.
pub struct EntityFlow(pub InternedFlowLabel);

impl EntityFlow {
    /// Creates a new [`EntityFlow`] with the given label.
    pub fn new(label: InternedFlowLabel) -> (flow: EntityFlow)
        ensures
            flow.0 == label,
    {
        EntityFlow(label)
    }
}

/// Stores the scores that the most recent run of a flow computed for an
/// entity, each under the number of its label.
pub struct ComputedScores(pub HashMap<u64, Score>);

impl ComputedScores {
    /// Creates a store without scores.
    pub fn new() -> (scores: ComputedScores)
        ensures
            scores.0@ == Map::<u64, Score>::empty(),
    {
        ComputedScores(HashMap::new())
    }

    /// Gets the score associated with the given label, if any.
    pub fn get(&self, label: InternedScoreLabel) -> (score: Option<Score>)
        ensures
            score == (if self.0@.contains_key(label.0) {
                Some(self.0@[label.0])
            } else {
                None
            }),
    {
        match self.0.get(&label.0) {
            Some(score) => Some(*score),
            None => None,
        }
    }

    /// Associates a score with the given label, and returns the score that
    /// the label had before, if any.
    pub fn insert(&mut self, label: InternedScoreLabel, score: Score) -> (replaced: Option<Score>)
        ensures
            final(self).0@ == old(self).0@.insert(label.0, score),
            replaced == (if old(self).0@.contains_key(label.0) {
                Some(old(self).0@[label.0])
            } else {
                None
            }),
    {
        self.0.insert(label.0, score)
    }
}

impl Default for ComputedScores {
    fn default() -> (scores: ComputedScores)
        ensures
            scores.0@ == Map::<u64, Score>::empty(),
    {
        ComputedScores::new()
    }
}

/// Associates an entity with a set of actions keyed by labeled scores.
pub struct Actions {
    /// The action to pick when the score with the given label is selected.
    pub actions: HashMap<u64, InternedActionLabel>,
    /// The default action when no other action is available.
    pub default: InternedActionLabel,
    /// The current action.
    pub current: InternedActionLabel,
}

impl Actions {
    /// Creates a new set of actions with the given default action, which is
    /// the current action too.
    pub fn new(default: InternedActionLabel) -> (actions: Actions)
        ensures
            actions.actions@ == Map::<u64, InternedActionLabel>::empty(),
            actions.default == default,
            actions.current == default,
    {
        Actions { actions: HashMap::new(), default, current: default }
    }

    /// Adds an action associated with the given score label. An action that
    /// the label had before is replaced.
    pub fn with(self, score: InternedScoreLabel, action: InternedActionLabel) -> (actions: Actions)
        ensures
            actions.actions@ == self.actions@.insert(score.0, action),
            actions.default == self.default,
            actions.current == self.current,
    {
        let mut actions = self;
        actions.actions.insert(score.0, action);
        actions
    }

    /// Gets the action associated with the given score label, if any.
    pub fn action(&self, score: InternedScoreLabel) -> (action: Option<InternedActionLabel>)
        ensures
            action == (if self.actions@.contains_key(score.0) {
                Some(self.actions@[score.0])
            } else {
                None
            }),
    {
        match self.actions.get(&score.0) {
            Some(action) => Some(*action),
            None => None,
        }
    }

    /// Gets the current action.
    pub fn current(&self) -> (action: InternedActionLabel)
        ensures
            action == self.current,
    {
        self.current
    }

    /// Gets the default action.
    pub fn default(&self) -> (action: InternedActionLabel)
        ensures
            action == self.default,
    {
        self.default
    }
}

} // verus!
