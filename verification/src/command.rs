//! Commands that run flows for entities.

use vstd::prelude::*;
use std::collections::HashMap;
use bevy_ecs::entity::Entity;
use bevy_ecs::world::World;
use crate::flow::{Flows, TryRunFlowError};
use crate::label::InternedFlowLabel;
use crate::schedule::ScoringNodeId;
use crate::score::Score;

verus! {

/// Whether `labeled` holds the scores of the labeled nodes of the flow with
/// the given label, run for `target` in `world`.
pub open spec fn ran_flow(
    flows: &Flows,
    world: &World,
    label: InternedFlowLabel,
    target: Entity,
    labeled: Map<u64, Score>,
) -> bool {
    let flow = flows.inner@[label.0];
    exists|scores: Map<ScoringNodeId, Score>|
        #![auto]
        flow.graph.is_valuation(world, target, scores) && labeled == flow.graph.labeled_scores(
            scores,
        )
}

/// Whether every flow of the registry is initialized: none has a pending
/// node.
pub open spec fn all_initialized(flows: &Flows) -> bool {
    forall|label: u64| #[trigger]
        flows.inner@.contains_key(label) ==> flows.inner@[label].graph.uninitialized.len() == 0
}

/// Whether `labeled` holds the scores of the labeled nodes of the flow with
/// the given label, which has no pending node, run for `target` in some
/// world.
pub open spec fn ran_in_some_world(
    flows: &Flows,
    label: InternedFlowLabel,
    target: Entity,
    labeled: Map<u64, Score>,
) -> bool {
    &&& flows.inner@.contains_key(label.0)
    &&& flows.inner@[label.0].graph.uninitialized.len() == 0
    &&& exists|world: &World| #[trigger] ran_flow(flows, world, label, target, labeled)
}

/// Runs the flows associated with entities, one after the other.
///
/// A flow that does not exist is no reason to stop: the entity is skipped,
/// and the result holds nothing at its place. For every other entity the
/// result holds the scores of the labeled nodes of its flow, run for that
/// entity in the world as it was at that moment, and the flow has no pending
/// node afterwards. Where every flow was initialized before, neither the
/// flows nor the world change, and every result is that of running the flow
/// in the given world. No flow is added or removed, and no flow gets or
/// loses a label.
pub fn run_entity_flows(
    flows: &mut Flows,
    world: &mut World,
    entity_flows: &Vec<(Entity, InternedFlowLabel)>,
) -> (results: Vec<Option<HashMap<u64, Score>>>)
    requires
        old(flows).wf(),
    ensures
        final(flows).wf(),
        final(flows).inner@.dom() == old(flows).inner@.dom(),
        forall|label: u64| #[trigger]
            final(flows).inner@.contains_key(label) ==> final(flows).inner@[label].graph.labels@
                == old(flows).inner@[label].graph.labels@,
        results.len() == entity_flows.len(),
        forall|i: int|
            0 <= i < results.len() ==> ((#[trigger] results[i]) is Some
                <==> old(flows).inner@.contains_key(entity_flows[i].1.0)),
        forall|i: int|
            0 <= i < results.len() ==> ((#[trigger] results[i]) matches Some(labeled)
                ==> labeled@.dom() == old(flows).inner@[entity_flows[i].1.0].graph.labels@.dom()),
        forall|i: int|
            0 <= i < results.len() ==> ((#[trigger] results[i]) matches Some(labeled)
                ==> ran_in_some_world(final(flows), entity_flows[i].1, entity_flows[i].0, labeled@)),
        all_initialized(old(flows)) ==> final(flows).inner@ == old(flows).inner@ && *final(world)
            == *old(world) && forall|i: int|
            0 <= i < results.len() ==> ((#[trigger] results[i]) matches Some(labeled) ==> ran_flow(
                old(flows),
                old(world),
                entity_flows[i].1,
                entity_flows[i].0,
                labeled@,
            )),
{
    let mut results: Vec<Option<HashMap<u64, Score>>> = Vec::new();
    let mut i: usize = 0;
    while i < entity_flows.len()
        invariant
            flows.wf(),
            flows.inner@.dom() == old(flows).inner@.dom(),
            forall|label: u64| #[trigger]
                flows.inner@.contains_key(label) ==> flows.inner@[label].graph.labels@
                    == old(flows).inner@[label].graph.labels@,
            i <= entity_flows.len(),
            results.len() == i,
            forall|k: int|
                0 <= k < i ==> ((#[trigger] results[k]) is Some
                    <==> old(flows).inner@.contains_key(entity_flows[k].1.0)),
            forall|k: int|
                0 <= k < i ==> ((#[trigger] results[k]) matches Some(labeled) ==> labeled@.dom()
                    == old(flows).inner@[entity_flows[k].1.0].graph.labels@.dom()),
            forall|k: int|
                0 <= k < i ==> ((#[trigger] results[k]) matches Some(labeled)
                    ==> ran_in_some_world(flows, entity_flows[k].1, entity_flows[k].0, labeled@)),
            all_initialized(old(flows)) ==> flows.inner@ == old(flows).inner@
                && *world == *old(world) && forall|k: int|
                0 <= k < i ==> ((#[trigger] results[k]) matches Some(labeled) ==> ran_flow(
                    old(flows),
                    old(world),
                    entity_flows[k].1,
                    entity_flows[k].0,
                    labeled@,
                )),
        decreases entity_flows.len() - i,
    {
        let (entity, label) = entity_flows[i];
        let ghost before = *flows;
        let ghost earlier = results@;
        match flows.try_run_flow(world, label, entity) {
            Ok(labeled) => {
                proof {
                    assert(before.inner@.contains_key(label.0));
                    assert(labeled@.dom() =~= flows.inner@[label.0].graph.labels@.dom());
                    assert forall|other: u64| #[trigger]
                        flows.inner@.contains_key(other) implies flows.inner@[other].graph.labels@
                        == before.inner@[other].graph.labels@ by {
                        assert(before.inner@.contains_key(other));
                    }
                }
                results.push(Some(labeled));
                proof {
                    let now: &World = &*world;
                    assert(ran_flow(flows, now, label, entity, labeled@));
                    assert(flows.inner@.contains_key(label.0));
                    assert(flows.inner@[label.0].graph.initialized_from(
                        &before.inner@[label.0].graph,
                    ));
                    assert(flows.inner@[label.0].graph.uninitialized.len() == 0);
                    assert(exists|w: &World| #[trigger]
                        ran_flow(flows, w, label, entity, labeled@));
                    assert(ran_in_some_world(flows, label, entity, labeled@));
                }
            },
            Err(_) => {
                results.push(None);
            },
        }
        proof {
            assert forall|k: int|
                0 <= k < i && (#[trigger] results[k]) is Some implies ran_in_some_world(
                flows,
                entity_flows[k].1,
                entity_flows[k].0,
                results[k].unwrap()@,
            ) by {
                assert(results[k] == earlier[k]);
                let other = entity_flows[k].1;
                let scores = earlier[k].unwrap()@;
                assert(ran_in_some_world(&before, other, entity_flows[k].0, scores));
                assert(flows.inner@[other.0] == before.inner@[other.0]);
                let witness = choose|w: &World| #[trigger]
                    ran_flow(&before, w, other, entity_flows[k].0, scores);
                assert(ran_flow(flows, witness, other, entity_flows[k].0, scores));
            }
        }
        i += 1;
    }
    results
}

/// Command for running the flow with the given label for an entity.
pub struct RunFlow(pub InternedFlowLabel);

impl RunFlow {
    /// Creates a new [`RunFlow`] command with the given label.
    pub fn new(flow: InternedFlowLabel) -> (command: RunFlow)
        ensures
            command.0 == flow,
    {
        RunFlow(flow)
    }

    /// Runs the flow of the command for `entity`. Returns the scores of the
    /// labeled nodes, or an error if the flow does not exist.
    pub fn apply(self, flows: &mut Flows, world: &mut World, entity: Entity) -> (outcome: Result<
        HashMap<u64, Score>,
        TryRunFlowError,
    >)
        requires
            old(flows).wf(),
        ensures
            final(flows).wf(),
            final(flows).inner@.dom() == old(flows).inner@.dom(),
            outcome is Ok <==> old(flows).inner@.contains_key(self.0.0),
            outcome matches Err(error) ==> error.0 == self.0
                && final(flows).inner@ == old(flows).inner@,
            outcome matches Ok(labeled) ==> ran_flow(
                final(flows),
                final(world),
                self.0,
                entity,
                labeled@,
            ),
    {
        flows.try_run_flow(world, self.0, entity)
    }
}

/// How running the flow associated with an entity ended.
pub enum RunEntityFlowOutcome {
    /// The entity has no associated flow.
    NoFlow,
    /// The flow associated with the entity does not exist.
    Missing(TryRunFlowError),
    /// The flow ran; these are the scores of its labeled nodes.
    Scored(HashMap<u64, Score>),
}

/// Command for running the flow associated with an entity.
pub struct RunEntityFlow;

impl RunEntityFlow {
    /// Runs the flow associated with `entity`, where `flow` is the label of
    /// that flow, or nothing if the entity has no associated flow.
    pub fn apply(
        self,
        flows: &mut Flows,
        world: &mut World,
        entity: Entity,
        flow: Option<InternedFlowLabel>,
    ) -> (outcome: RunEntityFlowOutcome)
        requires
            old(flows).wf(),
        ensures
            final(flows).wf(),
            final(flows).inner@.dom() == old(flows).inner@.dom(),
            match flow {
                None => outcome is NoFlow && final(flows).inner@ == old(flows).inner@,
                Some(label) => if old(flows).inner@.contains_key(label.0) {
                    outcome matches RunEntityFlowOutcome::Scored(labeled) && ran_flow(
                        final(flows),
                        final(world),
                        label,
                        entity,
                        labeled@,
                    )
                } else {
                    outcome matches RunEntityFlowOutcome::Missing(error) && error.0 == label
                        && final(flows).inner@ == old(flows).inner@
                },
            },
    {
        match flow {
            None => RunEntityFlowOutcome::NoFlow,
            Some(label) => match flows.try_run_flow(world, label, entity) {
                Ok(labeled) => RunEntityFlowOutcome::Scored(labeled),
                Err(error) => RunEntityFlowOutcome::Missing(error),
            },
        }
    }
}

} // verus!
