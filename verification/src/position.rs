use vstd::prelude::*;

use crate::error::ManagerError;
use crate::node::{
    NodeHandle, NodeRow, combine_spec, known_variant, node_get_parent, node_parent_spec, row_of, split_spec,
    splittable,
};

verus! {

/// A point of the layout canvas; the coordinates are the bit patterns of `f32`s.
#[derive(Debug, PartialEq, Eq, Clone, Copy, Structural)]
pub struct Vec2 {
    pub x_bits: u32,
    pub y_bits: u32,
}

/// Where a node of a competition stands on the layout canvas.
#[derive(Debug, PartialEq, Eq, Clone, Copy, Structural)]
pub struct TabCompetitionNodePosition {
    pub position: Vec2,
    pub id: u32,
    pub competition_id: u32,
    pub node_id: u32,
    pub node_variant: u8,
}

impl TabCompetitionNodePosition {
    /// A node of the competition at the origin (`0.0`, `0.0`).
    pub fn new(node: NodeHandle, competition_id: u32) -> (r: Self)
        requires
            splittable(node),
        ensures
            r == (TabCompetitionNodePosition {
                id: 0,
                competition_id,
                node_variant: split_spec(node).0,
                node_id: split_spec(node).1,
                position: Vec2 { x_bits: 0, y_bits: 0 },
            }),
    {
        let (node_variant, node_id) = node.split();
        Self {
            id: 0,
            competition_id,
            node_id,
            node_variant,
            position: Vec2 { x_bits: 0, y_bits: 0 },
        }
    }
}

/// The row of `node` at the origin of the layout of the competition `competition_id`.
pub open spec fn origin_position(node: NodeHandle, competition_id: u32) -> TabCompetitionNodePosition {
    TabCompetitionNodePosition {
        id: 0,
        competition_id,
        node_variant: split_spec(node).0,
        node_id: split_spec(node).1,
        position: Vec2 { x_bits: 0, y_bits: 0 },
    }
}

/// The position row that inserting a node stores: the node at the origin of the layout of its
/// competition. `parent` is what finding that competition gave.
pub fn node_position_insert(node: NodeHandle, parent: Result<u32, ManagerError>) -> (r: Result<
    TabCompetitionNodePosition,
    ManagerError,
>)
    requires
        splittable(node),
    ensures
        r == (match parent {
            Ok(c) => Ok(origin_position(node, c)),
            Err(e) => Err(e),
        }),
{
    match parent {
        Ok(c) => Ok(TabCompetitionNodePosition::new(node, c)),
        Err(e) => Err(e),
    }
}

/// Creating a node stores its position row, in the competition found from the node's stored
/// row `row` (`None` where the store has none).
pub fn node_create(node: NodeHandle, row: Option<NodeRow>) -> (r: Result<TabCompetitionNodePosition, ManagerError>)
    requires
        splittable(node),
        row matches Some(w) ==> row_of(node, w),
    ensures
        r == (match node_parent_spec(node, row) {
            Ok(c) => Ok(origin_position(node, c)),
            Err(e) => Err(e),
        }),
{
    let parent = node_get_parent(node, row);
    node_position_insert(node, parent)
}

/// The position of a node as clients see it.
#[derive(Debug, PartialEq, Eq, Clone, Copy, Structural)]
pub struct CompetitionNodePosition {
    pub competition_id: u32,
    pub node: NodeHandle,
    pub position: Vec2,
}

/// A new position for a node.
#[derive(Debug, PartialEq, Eq, Clone, Copy, Structural)]
pub struct NodePositionUpdate {
    pub node: NodeHandle,
    pub position: Vec2,
}

/// The rows of the competitions from `competition_id` on.
pub open spec fn from_competition(competition_id: u32) -> spec_fn(TabCompetitionNodePosition) -> bool {
    |p: TabCompetitionNodePosition| competition_id <= p.competition_id < u32::MAX
}

/// The position of a row as clients see it.
pub open spec fn shown_position(p: TabCompetitionNodePosition) -> CompetitionNodePosition {
    CompetitionNodePosition {
        competition_id: p.competition_id,
        node: combine_spec(p.node_variant, p.node_id),
        position: p.position,
    }
}

/// The node positions of the competitions with ids from `competition_id` up to, not including,
/// `u32::MAX`, in row order.
pub fn my_node_positions(rows: &Vec<TabCompetitionNodePosition>, competition_id: u32) -> (r: Vec<
    CompetitionNodePosition,
>)
    requires
        forall|k: int| 0 <= k < rows@.len() ==> known_variant(#[trigger] rows@[k].node_variant),
    ensures
        r@ == rows@.filter(from_competition(competition_id)).map_values(
            |p: TabCompetitionNodePosition| shown_position(p),
        ),
{
    let ghost pred = from_competition(competition_id);
    let mut out: Vec<CompetitionNodePosition> = Vec::new();
    proof {
        reveal(Seq::filter);
    }
    let mut i: usize = 0;
    while i < rows.len()
        invariant
            i <= rows.len(),
            pred == from_competition(competition_id),
            forall|k: int| 0 <= k < rows@.len() ==> known_variant(#[trigger] rows@[k].node_variant),
            out@ == rows@.subrange(0, i as int).filter(pred).map_values(
                |p: TabCompetitionNodePosition| shown_position(p),
            ),
        decreases rows.len() - i,
    {
        let p = rows[i];
        proof {
            assert(rows@.subrange(0, i + 1) =~= rows@.subrange(0, i as int).push(rows@[i as int]));
            rows@.subrange(0, i as int).lemma_filter_push(rows@[i as int], pred);
        }
        if competition_id <= p.competition_id && p.competition_id < u32::MAX {
            assert(known_variant(rows@[i as int].node_variant));
            let shown = CompetitionNodePosition {
                competition_id: p.competition_id,
                node: NodeHandle::combine(p.node_variant, p.node_id),
                position: p.position,
            };
            out.push(shown);
            assert(out@ =~= rows@.subrange(0, i + 1).filter(pred).map_values(
                |p: TabCompetitionNodePosition| shown_position(p),
            ));
        }
        i = i + 1;
    }
    assert(rows@.subrange(0, rows@.len() as int) =~= rows@);
    out
}

/// Moves a node: the row with its new position. `authorized` is the outcome of finding the
/// node's competition and authorizing the layout edit in it; `row` the stored position.
pub fn competition_node_position_update(
    authorized: Result<u32, ManagerError>,
    row: Option<TabCompetitionNodePosition>,
    position: Vec2,
) -> (r: Result<TabCompetitionNodePosition, ManagerError>)
    ensures
        authorized is Err ==> r == Err::<TabCompetitionNodePosition, ManagerError>(
            authorized->Err_0,
        ),
        authorized is Ok && row is None ==> r == Err::<TabCompetitionNodePosition, ManagerError>(
            ManagerError::NodeNotFound,
        ),
        authorized is Ok && row is Some ==> r == Ok::<TabCompetitionNodePosition, ManagerError>(
            TabCompetitionNodePosition { position, ..row->0 },
        ),
{
    if let Err(e) = authorized {
        return Err(e);
    }
    match row {
        Some(mut p) => {
            p.position = position;
            Ok(p)
        },
        None => Err(ManagerError::NodeNotFound),
    }
}

/// The index of the first failed check, or the length.
pub open spec fn first_failure(checks: Seq<Result<u32, ManagerError>>) -> int
    decreases checks.len(),
{
    if checks.len() == 0 {
        0
    } else if checks[0] is Err {
        0
    } else {
        1 + first_failure(checks.drop_first())
    }
}

/// The index of the first missing row, or the length.
pub open spec fn first_missing(found: Seq<Option<TabCompetitionNodePosition>>) -> int
    decreases found.len(),
{
    if found.len() == 0 {
        0
    } else if found[0] is None {
        0
    } else {
        1 + first_missing(found.drop_first())
    }
}

proof fn lemma_first_failure(checks: Seq<Result<u32, ManagerError>>, i: int)
    requires
        0 <= i <= checks.len(),
        forall|k: int| 0 <= k < i ==> (#[trigger] checks[k]) is Ok,
    ensures
        first_failure(checks) == i + first_failure(checks.subrange(i, checks.len() as int)),
    decreases i,
{
    if i > 0 {
        let rest = checks.drop_first();
        assert forall|k: int| 0 <= k < i - 1 implies (#[trigger] rest[k]) is Ok by {
            assert(rest[k] == checks[k + 1]);
        }
        lemma_first_failure(rest, i - 1);
        assert(rest.subrange(i - 1, rest.len() as int) =~= checks.subrange(i, checks.len() as int));
    } else {
        assert(checks.subrange(0, checks.len() as int) =~= checks);
    }
}

proof fn lemma_first_missing(found: Seq<Option<TabCompetitionNodePosition>>, i: int)
    requires
        0 <= i <= found.len(),
        forall|k: int| 0 <= k < i ==> (#[trigger] found[k]) is Some,
    ensures
        first_missing(found) == i + first_missing(found.subrange(i, found.len() as int)),
    decreases i,
{
    if i > 0 {
        let rest = found.drop_first();
        assert forall|k: int| 0 <= k < i - 1 implies (#[trigger] rest[k]) is Some by {
            assert(rest[k] == found[k + 1]);
        }
        lemma_first_missing(rest, i - 1);
        assert(rest.subrange(i - 1, rest.len() as int) =~= found.subrange(i, found.len() as int));
    } else {
        assert(found.subrange(0, found.len() as int) =~= found);
    }
}

/// Moves several nodes at once, all or none: every update is authorized first (`checks`, one
/// outcome per update, in order), then the stored row of each node is found (`found`, one per
/// update). The first failed check, else the first missing row, refuses the whole request;
/// otherwise the rows with their new positions, to be written in order.
pub fn competition_node_positions_update(
    positions: &Vec<NodePositionUpdate>,
    checks: &Vec<Result<u32, ManagerError>>,
    found: &Vec<Option<TabCompetitionNodePosition>>,
) -> (r: Result<Vec<TabCompetitionNodePosition>, ManagerError>)
    requires
        checks@.len() == positions@.len(),
        found@.len() == positions@.len(),
    ensures
        first_failure(checks@) < checks@.len() ==> r == Err::<
            Vec<TabCompetitionNodePosition>,
            ManagerError,
        >(checks@[first_failure(checks@)]->Err_0),
        first_failure(checks@) == checks@.len() && first_missing(found@) < found@.len() ==> r
            == Err::<Vec<TabCompetitionNodePosition>, ManagerError>(ManagerError::NodeNotFound),
        first_failure(checks@) == checks@.len() && first_missing(found@) == found@.len() ==> r is Ok
            && r->Ok_0@.len() == positions@.len() && forall|k: int|
            0 <= k < positions@.len() ==> (#[trigger] r->Ok_0@[k]) == (TabCompetitionNodePosition {
                position: positions@[k].position,
                ..found@[k]->0
            }),
{
    let mut i: usize = 0;
    while i < checks.len()
        invariant
            i <= checks@.len(),
            forall|k: int| 0 <= k < i ==> (#[trigger] checks@[k]) is Ok,
        decreases checks.len() - i,
    {
        if let Err(e) = checks[i] {
            proof {
                lemma_first_failure(checks@, i as int);
            }
            return Err(e);
        }
        i = i + 1;
    }
    proof {
        lemma_first_failure(checks@, checks@.len() as int);
    }
    let mut out: Vec<TabCompetitionNodePosition> = Vec::new();
    let mut j: usize = 0;
    while j < found.len()
        invariant
            j <= found@.len(),
            found@.len() == positions@.len(),
            first_failure(checks@) == checks@.len(),
            forall|k: int| 0 <= k < j ==> (#[trigger] found@[k]) is Some,
            out@.len() == j,
            forall|k: int|
                0 <= k < j ==> (#[trigger] out@[k]) == (TabCompetitionNodePosition {
                    position: positions@[k].position,
                    ..found@[k]->0
                }),
        decreases found.len() - j,
    {
        match found[j] {
            Some(row) => {
                out.push(TabCompetitionNodePosition { position: positions[j].position, ..row });
            },
            None => {
                proof {
                    lemma_first_missing(found@, j as int);
                }
                return Err(ManagerError::NodeNotFound);
            },
        }
        j = j + 1;
    }
    proof {
        lemma_first_missing(found@, found@.len() as int);
    }
    Ok(out)
}

} // verus!
