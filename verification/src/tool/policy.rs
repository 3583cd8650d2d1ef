//! Whether a tool may run at once, decided from its risk alone.

use vstd::prelude::*;

use crate::tool::entity::Risk;

verus! {

#[derive(Clone, Copy, Debug, PartialEq, Eq, Structural)]
pub enum PolicyDecision {
    Execute,
    RequiresApproval,
}

/// Only a tool that changes nothing runs without approval.
pub fn check_policy(risk: Risk) -> (decision: PolicyDecision)
    ensures
        decision == PolicyDecision::Execute <==> risk == Risk::ReadOnly,
        decision == PolicyDecision::RequiresApproval <==> risk != Risk::ReadOnly,
{
    match risk {
        Risk::ReadOnly => PolicyDecision::Execute,
        Risk::Write | Risk::Destructive => PolicyDecision::RequiresApproval,
    }
}

} // verus!
