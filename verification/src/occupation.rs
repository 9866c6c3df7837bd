use vstd::prelude::*;

use crate::node::{NodeHandle, combine_spec, known_variant, split_spec, splittable};

verus! {

/// A raw server taken by a node of the competition graph (a match or a server node).
#[derive(Debug, PartialEq, Eq, Clone, Copy, Structural)]
pub struct RawServerOccupation {
    pub server_id: u32,
    pub node_id: u32,
    pub node_variant: u8,
}

/// Every stored occupation names a node kind.
pub open spec fn occupations_well_formed(occs: Seq<RawServerOccupation>) -> bool {
    forall|k: int| 0 <= k < occs.len() ==> known_variant(#[trigger] occs[k].node_variant)
}

/// Some occupation holds the server.
pub open spec fn occupied(occs: Seq<RawServerOccupation>, server_id: u32) -> bool {
    exists|k: int| 0 <= k < occs.len() && (#[trigger] occs[k]).server_id == server_id
}

/// The node that the first occupation of the server names.
pub open spec fn occupier_of(occs: Seq<RawServerOccupation>, server_id: u32) -> Option<NodeHandle>
    decreases occs.len(),
{
    if occs.len() == 0 {
        None
    } else if occs[0].server_id == server_id {
        Some(combine_spec(occs[0].node_variant, occs[0].node_id))
    } else {
        occupier_of(occs.drop_first(), server_id)
    }
}

/// Some occupation names the node.
pub open spec fn occupies_a_server(occs: Seq<RawServerOccupation>, node: NodeHandle) -> bool {
    exists|k: int|
        0 <= k < occs.len() && ((#[trigger] occs[k]).node_variant, occs[k].node_id) == split_spec(node)
}

impl RawServerOccupation {
    /// The occupation of the server `server_id` by the node.
    pub fn new(node_handle: NodeHandle, server_id: u32) -> (r: Self)
        requires
            splittable(node_handle),
        ensures
            r == (RawServerOccupation {
                server_id,
                node_variant: split_spec(node_handle).0,
                node_id: split_spec(node_handle).1,
            }),
            known_variant(r.node_variant),
    {
        let (node_variant, node_id) = node_handle.split();
        Self { server_id, node_id, node_variant }
    }
}

/// Whether the server is occupied.
pub fn raw_server_is_occupied(occs: &Vec<RawServerOccupation>, server_id: u32) -> (r: bool)
    ensures
        r == occupied(occs@, server_id),
{
    let mut i: usize = 0;
    while i < occs.len()
        invariant
            i <= occs.len(),
            forall|k: int| 0 <= k < i ==> (#[trigger] occs@[k]).server_id != server_id,
        decreases occs.len() - i,
    {
        if occs[i].server_id == server_id {
            return true;
        }
        i = i + 1;
    }
    false
}

/// The node that occupies the server, if any.
pub fn raw_server_occupation(occs: &Vec<RawServerOccupation>, server_id: u32) -> (r: Option<
    NodeHandle,
>)
    requires
        occupations_well_formed(occs@),
    ensures
        r == occupier_of(occs@, server_id),
        r is Some <==> occupied(occs@, server_id),
{
    let mut i: usize = 0;
    assert(occs@.subrange(0, occs@.len() as int) =~= occs@);
    while i < occs.len()
        invariant
            i <= occs.len(),
            occupations_well_formed(occs@),
            forall|k: int| 0 <= k < i ==> (#[trigger] occs@[k]).server_id != server_id,
            occupier_of(occs@, server_id) == occupier_of(occs@.subrange(i as int, occs@.len() as int), server_id),
        decreases occs.len() - i,
    {
        assert(occs@.subrange(i as int, occs@.len() as int).drop_first() =~= occs@.subrange(
            i as int + 1,
            occs@.len() as int,
        ));
        if occs[i].server_id == server_id {
            assert(known_variant(occs@[i as int].node_variant));
            return Some(NodeHandle::combine(occs[i].node_variant, occs[i].node_id));
        }
        i = i + 1;
    }
    None
}

/// The node itself, where it occupies a server.
pub fn occupation_with_occupier(occs: &Vec<RawServerOccupation>, node_handle: NodeHandle) -> (r:
    Option<NodeHandle>)
    requires
        splittable(node_handle),
        occupations_well_formed(occs@),
    ensures
        r is Some <==> occupies_a_server(occs@, node_handle),
        r is Some ==> r->0 == node_handle,
{
    let key = node_handle.split();
    let mut i: usize = 0;
    while i < occs.len()
        invariant
            i <= occs.len(),
            key == split_spec(node_handle),
            splittable(node_handle),
            forall|k: int|
                0 <= k < i ==> ((#[trigger] occs@[k]).node_variant, occs@[k].node_id) != key,
        decreases occs.len() - i,
    {
        if occs[i].node_variant == key.0 && occs[i].node_id == key.1 {
            let found = NodeHandle::combine(occs[i].node_variant, occs[i].node_id);
            return Some(found);
        }
        i = i + 1;
    }
    None
}

/// The occupation is held by some node other than `node`.
pub open spec fn not_held_by(node: NodeHandle) -> spec_fn(RawServerOccupation) -> bool {
    |o: RawServerOccupation| (o.node_variant, o.node_id) != split_spec(node)
}

/// The occupations that stay when `node` releases every server it holds: all others, in order.
pub fn occupations_without(occs: &Vec<RawServerOccupation>, node: NodeHandle) -> (r: Vec<RawServerOccupation>)
    requires
        splittable(node),
    ensures
        r@ == occs@.filter(not_held_by(node)),
        !occupies_a_server(r@, node),
{
    let key = node.split();
    let ghost pred = not_held_by(node);
    let mut out: Vec<RawServerOccupation> = Vec::new();
    proof {
        reveal(Seq::filter);
    }
    let mut i: usize = 0;
    while i < occs.len()
        invariant
            i <= occs.len(),
            key == split_spec(node),
            pred == not_held_by(node),
            out@ == occs@.subrange(0, i as int).filter(pred),
            forall|k: int| 0 <= k < out@.len() ==> ((#[trigger] out@[k]).node_variant, out@[k].node_id) != key,
        decreases occs.len() - i,
    {
        let o = occs[i];
        proof {
            assert(occs@.subrange(0, i + 1) =~= occs@.subrange(0, i as int).push(occs@[i as int]));
            occs@.subrange(0, i as int).lemma_filter_push(occs@[i as int], pred);
        }
        if !(o.node_variant == key.0 && o.node_id == key.1) {
            out.push(o);
        }
        i = i + 1;
    }
    assert(occs@.subrange(0, occs@.len() as int) =~= occs@);
    out
}

} // verus!
