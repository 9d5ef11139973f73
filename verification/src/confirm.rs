//! What the user decides about a call that changes something outside.

use vstd::prelude::*;

verus! {

/// The user's decision about one call.
#[derive(Debug, Clone, Copy, PartialEq, Eq, Structural)]
pub enum ToolDecision {
    /// Run this call.
    Allow,
    /// Run it, and do not ask about this tool again in this turn.
    AllowForTurn,
    /// Do not run it; the model is told.
    Deny,
}

} // verus!
