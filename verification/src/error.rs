//! The faults that stop a match.

use vstd::prelude::*;

verus! {

/// What can be wrong with a match or with its configuration. Every fault is
/// fatal: a match that has one does not start.
#[derive(Clone, Copy, Debug, PartialEq, Eq, Structural)]
pub enum CoreError {
    /// A rule the progression depends on is broken: a wave with an interval
    /// of zero or an empty batch, or a match without exactly one player.
    InvariantViolation,
    /// A wave names an archetype that is not defined.
    MissingTemplate,
}

} // verus!
