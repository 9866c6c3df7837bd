use vstd::prelude::*;

use crate::competition::CompetitionV1;
use crate::error::ManagerError;
use crate::registration::Registration;
use crate::schedule::ScheduleV1;
use crate::tm_match::TmMatchV1;

verus! {

/// A handle to any node of the competition graph.
#[derive(Debug, PartialEq, Eq, Clone, Copy, Hash, Structural)]
pub enum NodeHandle {
    MatchV1(u32),
    CompetitionV1(u32),
    MonitoringV1(u32),
    ServerV1(u32),
    ScheduleV1(u32),
    PortalV1(u32),
    RegistrationV1(u32),
}

/// The node kinds that have a stored (variant, id) form.
pub open spec fn splittable(h: NodeHandle) -> bool {
    !(h is MonitoringV1) && !(h is ServerV1)
}

/// The variant tags that name a node kind.
pub open spec fn known_variant(variant: u8) -> bool {
    variant == 1 || variant == 2 || variant == 3 || variant == 6 || variant == 7
}

/// The stored (variant, id) form of a handle.
pub open spec fn split_spec(h: NodeHandle) -> (u8, u32) {
    match h {
        NodeHandle::MatchV1(m) => (1u8, m),
        NodeHandle::CompetitionV1(c) => (2u8, c),
        NodeHandle::ScheduleV1(s) => (3u8, s),
        NodeHandle::PortalV1(p) => (6u8, p),
        NodeHandle::RegistrationV1(r) => (7u8, r),
        NodeHandle::MonitoringV1(m) => (4u8, m),
        NodeHandle::ServerV1(s) => (5u8, s),
    }
}

/// The handle that a stored (variant, id) pair stands for.
pub open spec fn combine_spec(variant: u8, value: u32) -> NodeHandle {
    if variant == 1 {
        NodeHandle::MatchV1(value)
    } else if variant == 2 {
        NodeHandle::CompetitionV1(value)
    } else if variant == 3 {
        NodeHandle::ScheduleV1(value)
    } else if variant == 6 {
        NodeHandle::PortalV1(value)
    } else {
        NodeHandle::RegistrationV1(value)
    }
}

impl NodeHandle {
    /// The stored (variant, id) form of this handle.
    pub fn split(self) -> (r: (u8, u32))
        requires
            splittable(self),
        ensures
            r == split_spec(self),
            known_variant(r.0),
    {
        match self {
            NodeHandle::MatchV1(m) => (1, m),
            NodeHandle::CompetitionV1(c) => (2, c),
            NodeHandle::ScheduleV1(s) => (3, s),
            NodeHandle::PortalV1(p) => (6, p),
            NodeHandle::RegistrationV1(r) => (7, r),
            NodeHandle::MonitoringV1(m) => (4, m),
            NodeHandle::ServerV1(s) => (5, s),
        }
    }

    /// The handle that a stored (variant, id) pair stands for.
    pub fn combine(variant: u8, value: u32) -> (r: Self)
        requires
            known_variant(variant),
        ensures
            r == combine_spec(variant, value),
            splittable(r),
    {
        match variant {
            1 => NodeHandle::MatchV1(value),
            2 => NodeHandle::CompetitionV1(value),
            3 => NodeHandle::ScheduleV1(value),
            6 => NodeHandle::PortalV1(value),
            _ => NodeHandle::RegistrationV1(value),
        }
    }

    pub fn is_match(&self) -> (r: bool)
        ensures
            r == (*self is MatchV1),
    {
        match self {
            NodeHandle::MatchV1(_) => true,
            _ => false,
        }
    }

    pub fn is_competition(&self) -> (r: bool)
        ensures
            r == (*self is CompetitionV1),
    {
        match self {
            NodeHandle::CompetitionV1(_) => true,
            _ => false,
        }
    }

    pub fn is_server(&self) -> (r: bool)
        ensures
            r == (*self is ServerV1),
    {
        match self {
            NodeHandle::ServerV1(_) => true,
            _ => false,
        }
    }
}

/// The error for a node whose row the store lacks.
pub open spec fn missing_node_error(node: NodeHandle) -> ManagerError {
    match node {
        NodeHandle::MatchV1(_) => ManagerError::MatchNotFound,
        NodeHandle::CompetitionV1(_) => ManagerError::CompetitionNotFound,
        NodeHandle::PortalV1(_) => ManagerError::PortalNotFound,
        _ => ManagerError::ScheduleNotFound,
    }
}

/// The stored row of a node, as the store finds it for the node's handle. A portal is given by
/// its id and the competition it belongs to.
pub enum NodeRow<'a> {
    Match(&'a TmMatchV1),
    Competition(&'a CompetitionV1),
    Schedule(&'a ScheduleV1),
    Portal { id: u32, parent_id: u32 },
    Registration(&'a Registration),
}

/// `row` is the stored row of `node`: of the same kind and with the node's id.
pub open spec fn row_of(node: NodeHandle, row: NodeRow) -> bool {
    match (node, row) {
        (NodeHandle::MatchV1(i), NodeRow::Match(m)) => m.id == i,
        (NodeHandle::CompetitionV1(i), NodeRow::Competition(c)) => c.id == i,
        (NodeHandle::ScheduleV1(i), NodeRow::Schedule(s)) => s.id == i,
        (NodeHandle::PortalV1(i), NodeRow::Portal { id, .. }) => id == i,
        (NodeHandle::RegistrationV1(i), NodeRow::Registration(r)) => r.id == i,
        _ => false,
    }
}

/// The competition that a row records as the one its node belongs to.
pub open spec fn row_parent(row: NodeRow) -> u32 {
    match row {
        NodeRow::Match(m) => m.parent_id,
        NodeRow::Competition(c) => c.parent_id,
        NodeRow::Schedule(s) => s.parent_id,
        NodeRow::Portal { parent_id, .. } => parent_id,
        NodeRow::Registration(r) => r.parent_id,
    }
}

/// The competition that a node belongs to, as found from its stored row (`None` where the
/// store has no row for the node), or why it cannot be had.
pub open spec fn node_parent_spec(node: NodeHandle, row: Option<NodeRow>) -> Result<u32, ManagerError> {
    match row {
        None => Err(missing_node_error(node)),
        Some(w) => if w is Competition && row_parent(w) == 0 {
            Err(ManagerError::CompetitionWithoutParent)
        } else {
            Ok(row_parent(w))
        },
    }
}

/// The competition that a node belongs to, found from its stored row `row` (`None` where the
/// store has no row for the node). A competition without a parent (parent 0) cannot be part of
/// a connection.
pub fn node_get_parent(node: NodeHandle, row: Option<NodeRow>) -> (r: Result<u32, ManagerError>)
    requires
        splittable(node),
        row matches Some(w) ==> row_of(node, w),
    ensures
        r == node_parent_spec(node, row),
{
    match row {
        None => match node {
            NodeHandle::MatchV1(_) => Err(ManagerError::MatchNotFound),
            NodeHandle::CompetitionV1(_) => Err(ManagerError::CompetitionNotFound),
            NodeHandle::PortalV1(_) => Err(ManagerError::PortalNotFound),
            _ => Err(ManagerError::ScheduleNotFound),
        },
        Some(NodeRow::Match(m)) => Ok(m.parent_id),
        Some(NodeRow::Competition(c)) => {
            if c.parent_id == 0 {
                Err(ManagerError::CompetitionWithoutParent)
            } else {
                Ok(c.parent_id)
            }
        },
        Some(NodeRow::Schedule(s)) => Ok(s.parent_id),
        Some(NodeRow::Portal { parent_id, .. }) => Ok(parent_id),
        Some(NodeRow::Registration(r)) => Ok(r.parent_id),
    }
}

/// Combining the parts of a split handle gives the handle back.
pub proof fn lemma_combine_split(h: NodeHandle)
    requires
        splittable(h),
    ensures
        known_variant(split_spec(h).0),
        combine_spec(split_spec(h).0, split_spec(h).1) == h,
{
}

/// Splitting a combined handle gives back the variant and the id.
pub proof fn lemma_split_combine(variant: u8, value: u32)
    requires
        known_variant(variant),
    ensures
        splittable(combine_spec(variant, value)),
        split_spec(combine_spec(variant, value)) == (variant, value),
{
}

/// Distinct storable handles have distinct stored forms.
pub proof fn lemma_split_injective(a: NodeHandle, b: NodeHandle)
    requires
        splittable(a),
        splittable(b),
        split_spec(a) == split_spec(b),
    ensures
        a == b,
{
}

} // verus!
