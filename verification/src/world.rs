//! The host world that scoring reads, and the subjects it scores.
//!
//! Both are carried through the engine untouched: nodes receive them, the
//! engine itself never looks inside.

use vstd::prelude::*;

verus! {

/// `bevy_ecs::world::World`: the state store that evaluators read, as an
/// opaque type.
#[verifier::external_type_specification]
#[verifier::external_body]
pub struct ExWorld(bevy_ecs::world::World);

/// `bevy_ecs::entity::Entity`: the identifier of the subject a flow is run
/// for, as an opaque type.
#[verifier::external_type_specification]
#[verifier::external_body]
pub struct ExEntity(bevy_ecs::entity::Entity);

} // verus!
