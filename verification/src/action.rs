use vstd::prelude::*;

use crate::node::NodeHandle;

verus! {

/// What an action connection does to a match it targets.
#[derive(Debug, PartialEq, Eq, Clone, Copy, Structural)]
pub enum ConnectionActionMatch {
    TryStart,
    ForceStart,
}

/// What an action connection does to a registration it targets.
#[derive(Debug, PartialEq, Eq, Clone, Copy, Structural)]
pub enum ConnectionActionRegistration {
    Open,
    Close,
}

/// The action of an action connection, by the kind of node it targets.
#[derive(Debug, PartialEq, Eq, Clone, Copy, Structural)]
pub enum ConnectionAction {
    MatchV1(ConnectionActionMatch),
    RegistrationV1(ConnectionActionRegistration),
}

/// The action that an action connection carries out when it resolves.
#[derive(Debug, PartialEq, Eq, Clone, Copy, Structural)]
pub struct TabConnectionAction {
    pub competition_id: u32,
    pub connection_id: u32,
    pub action: ConnectionAction,
}

impl TabConnectionAction {
    /// The action on a match.
    pub fn get_match(&self) -> (r: ConnectionActionMatch)
        requires
            self.action is MatchV1,
        ensures
            self.action == ConnectionAction::MatchV1(r),
    {
        match self.action {
            ConnectionAction::MatchV1(m) => m,
            ConnectionAction::RegistrationV1(_) => ConnectionActionMatch::TryStart,
        }
    }
}

/// The match that a resolved action connection tries to start: the connection's target, whose
/// action is the match action `TryStart`. (A failed start is only logged.)
pub fn try_exec_action(action: &TabConnectionAction, target: NodeHandle) -> (r: u32)
    requires
        target is MatchV1,
        action.action == ConnectionAction::MatchV1(ConnectionActionMatch::TryStart),
    ensures
        target == NodeHandle::MatchV1(r),
{
    match target {
        NodeHandle::MatchV1(m) => m,
        _ => 0,
    }
}

} // verus!
