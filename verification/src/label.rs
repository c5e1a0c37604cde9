//! Labels for identifying named output scores, flows, and actions.
//!
//! A label is the canonical token that interning gives to a value: two equal
//! values of one kind have the same token, two different ones different
//! tokens. The three kinds are types of their own and cannot be mixed.

use vstd::prelude::*;

verus! {

/// Identifies a named output score.
#[derive(Clone, Copy, PartialEq, Eq, PartialOrd, Ord, Debug, Hash, Structural)]
pub struct InternedScoreLabel(pub u64);

/// Identifies a named flow.
#[derive(Clone, Copy, PartialEq, Eq, PartialOrd, Ord, Debug, Hash, Structural)]
pub struct InternedFlowLabel(pub u64);

/// Identifies a named action.
#[derive(Clone, Copy, PartialEq, Eq, PartialOrd, Ord, Debug, Hash, Structural)]
pub struct InternedActionLabel(pub u64);

} // verus!
