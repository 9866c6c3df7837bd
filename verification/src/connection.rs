use vstd::prelude::*;

use crate::connection_data::ConnectionData;
use crate::error::ManagerError;
use crate::graph::{
    check_new_edge, edges_within, has_cycle, lemma_add_edge_acyclic, lemma_reaches_map, lemma_relabel,
    reaches, relabels, with_edge, EdgeCheck,
};
use crate::node::{combine_spec, known_variant, split_spec, splittable, NodeHandle};
use crate::position::TabCompetitionNodePosition;

use std::collections::HashMap;

verus! {

#[derive(Debug, PartialEq, Eq, Clone, Copy, Structural)]
pub enum ConnectionStatus {
    Configuring,
    Configured,
    Resolved,
}

#[derive(Debug, PartialEq, Eq, Clone, Copy, Structural)]
pub enum ConnectionType {
    Wait,
    Data,
    Action,
}

/// A stored edge of the competition graph; the nodes stand in their (variant, id) form.
#[derive(Debug, PartialEq, Eq, Clone, Copy, Structural)]
pub struct TabConnection {
    pub id: u32,
    pub parent_id: u32,
    pub origin_id: u32,
    pub target_id: u32,
    pub origin_variant: u8,
    pub target_variant: u8,
    pub connection_type: ConnectionType,
    pub status: ConnectionStatus,
}

/// Both ends of a stored connection name a node kind.
pub open spec fn well_stored(c: TabConnection) -> bool {
    known_variant(c.origin_variant) && known_variant(c.target_variant)
}

/// Every row of a table of connections is well stored.
pub open spec fn all_well_stored(conns: Seq<TabConnection>) -> bool {
    forall|k: int| 0 <= k < conns.len() ==> well_stored(#[trigger] conns[k])
}

pub open spec fn origin_of(c: TabConnection) -> NodeHandle {
    combine_spec(c.origin_variant, c.origin_id)
}

pub open spec fn target_of(c: TabConnection) -> NodeHandle {
    combine_spec(c.target_variant, c.target_id)
}

impl TabConnection {
    pub fn connection_origin(&self) -> (r: NodeHandle)
        requires
            well_stored(*self),
        ensures
            r == origin_of(*self),
    {
        NodeHandle::combine(self.origin_variant, self.origin_id)
    }

    pub fn connection_target(&self) -> (r: NodeHandle)
        requires
            well_stored(*self),
        ensures
            r == target_of(*self),
    {
        NodeHandle::combine(self.target_variant, self.target_id)
    }

    pub fn is_data(&self) -> (r: bool)
        ensures
            r == (self.connection_type == ConnectionType::Data),
    {
        self.connection_type == ConnectionType::Data
    }

    pub fn is_wait(&self) -> (r: bool)
        ensures
            r == (self.connection_type == ConnectionType::Wait),
    {
        self.connection_type == ConnectionType::Wait
    }

    pub fn is_action(&self) -> (r: bool)
        ensures
            r == (self.connection_type == ConnectionType::Action),
    {
        self.connection_type == ConnectionType::Action
    }

    pub fn resolve(&mut self)
        ensures
            *final(self) == (TabConnection { status: ConnectionStatus::Resolved, ..*old(self) }),
    {
        self.status = ConnectionStatus::Resolved;
    }

    pub fn is_resolved(&self) -> (r: bool)
        ensures
            r == (self.status == ConnectionStatus::Resolved),
    {
        self.status == ConnectionStatus::Resolved
    }

    /// A copy for another competition; the store gives it a new id.
    pub fn instantiate(self, parent_id: u32) -> (r: Self)
        ensures
            r == (TabConnection { parent_id, id: 0, ..self }),
    {
        let mut s = self;
        s.parent_id = parent_id;
        s.id = 0;
        s
    }

    pub fn update_origin(&mut self, new_origin: u32)
        ensures
            *final(self) == (TabConnection { origin_id: new_origin, ..*old(self) }),
    {
        self.origin_id = new_origin;
    }

    pub fn update_target(&mut self, new_target: u32)
        ensures
            *final(self) == (TabConnection { target_id: new_target, ..*old(self) }),
    {
        self.target_id = new_target;
    }
}

/// A connection as clients see it, with its nodes as handles.
#[derive(Debug, PartialEq, Eq, Clone, Copy, Structural)]
pub struct CompetitionConnection {
    pub id: u32,
    pub origin: NodeHandle,
    pub target: NodeHandle,
    pub connection_type: ConnectionType,
    pub status: ConnectionStatus,
}

impl CompetitionConnection {
    pub fn is_action(&self) -> (r: bool)
        ensures
            r == (self.connection_type == ConnectionType::Action),
    {
        self.connection_type == ConnectionType::Action
    }

    pub fn from(v: TabConnection) -> (r: Self)
        requires
            well_stored(v),
        ensures
            r == (CompetitionConnection {
                id: v.id,
                origin: origin_of(v),
                target: target_of(v),
                connection_type: v.connection_type,
                status: v.status,
            }),
    {
        CompetitionConnection {
            origin: NodeHandle::combine(v.origin_variant, v.origin_id),
            target: NodeHandle::combine(v.target_variant, v.target_id),
            connection_type: v.connection_type,
            id: v.id,
            status: v.status,
        }
    }
}

/// The edges of the competition `comp`: its connections, from origin to target.
pub open spec fn comp_rel(conns: Seq<TabConnection>, comp: u32) -> spec_fn(NodeHandle, NodeHandle) -> bool {
    |a: NodeHandle, b: NodeHandle|
        exists|k: int|
            0 <= k < conns.len() && (#[trigger] conns[k]).parent_id == comp && origin_of(conns[k]) == a
                && target_of(conns[k]) == b
}

/// A connection from `origin` to `target` is stored already.
pub open spec fn parallel_exists(conns: Seq<TabConnection>, origin: NodeHandle, target: NodeHandle) -> bool {
    exists|k: int|
        0 <= k < conns.len() && split_spec(origin) == ((#[trigger] conns[k]).origin_variant, conns[k].origin_id)
            && split_spec(target) == (conns[k].target_variant, conns[k].target_id)
}

/// The decision on a request to connect `origin` to `target`: the error, or the row to store
/// (the store gives it its id).
pub open spec fn connection_create_spec(
    origin: NodeHandle,
    target: NodeHandle,
    setting: ConnectionType,
    origin_parent: Result<u32, ManagerError>,
    target_parent: Result<u32, ManagerError>,
    origin_is_template: bool,
    target_is_template: bool,
    authorized: Result<u32, ManagerError>,
    conns: Seq<TabConnection>,
) -> Result<TabConnection, ManagerError> {
    if origin == target {
        Err(ManagerError::SelfConnection)
    } else if origin_parent is Err {
        Err(origin_parent->Err_0)
    } else if target_parent is Err {
        Err(target_parent->Err_0)
    } else if origin_parent->Ok_0 != target_parent->Ok_0 {
        Err(ManagerError::DifferentCompetitions)
    } else if origin_is_template != target_is_template {
        Err(ManagerError::TemplateMismatch)
    } else if authorized is Err {
        Err(authorized->Err_0)
    } else if parallel_exists(conns, origin, target) {
        Err(ManagerError::ParallelEdge)
    } else if has_cycle(comp_rel(conns, origin_parent->Ok_0)) {
        Err(ManagerError::ExistingCycle)
    } else if reaches(comp_rel(conns, origin_parent->Ok_0), target, origin) {
        Err(ManagerError::WouldCycle)
    } else {
        Ok(
            TabConnection {
                id: 0,
                parent_id: origin_parent->Ok_0,
                origin_id: split_spec(origin).1,
                target_id: split_spec(target).1,
                origin_variant: split_spec(origin).0,
                target_variant: split_spec(target).0,
                connection_type: setting,
                status: ConnectionStatus::Configuring,
            },
        )
    }
}

/// The key under which a node is indexed: its stored (variant, id) form as one number.
pub open spec fn node_key(h: NodeHandle) -> u64 {
    (split_spec(h).0 as int * 0x1_0000_0000 + split_spec(h).1 as int) as u64
}

fn node_key_of(h: NodeHandle) -> (r: u64)
    requires
        splittable(h),
    ensures
        r == node_key(h),
{
    let (variant, id) = h.split();
    (variant as u64) * 0x1_0000_0000 + (id as u64)
}

/// Distinct storable nodes have distinct keys.
proof fn lemma_node_key_injective(a: NodeHandle, b: NodeHandle)
    requires
        splittable(a),
        splittable(b),
        node_key(a) == node_key(b),
    ensures
        a == b,
{
    assert(split_spec(a) == split_spec(b));
    crate::node::lemma_split_injective(a, b);
}

/// The nodes of a graph in the order of their graph indices, with the index of each node's key.
struct NodeIndex {
    nodes: Vec<NodeHandle>,
    index: HashMap<u64, usize>,
}

impl NodeIndex {
    /// Every node is storable and its key leads to its position; every key leads to a node with
    /// that key.
    spec fn wf(&self) -> bool {
        &&& forall|i: int|
            0 <= i < self.nodes@.len() ==> splittable(#[trigger] self.nodes@[i]) && self.index@.contains_key(
                node_key(self.nodes@[i]),
            ) && self.index@[node_key(self.nodes@[i])] == i
        &&& forall|k: u64|
            #[trigger] self.index@.contains_key(k) ==> self.index@[k] < self.nodes@.len() && node_key(
                self.nodes@[self.index@[k] as int],
            ) == k
    }

    fn new() -> (r: Self)
        ensures
            r.wf(),
            r.nodes@ == Seq::<NodeHandle>::empty(),
    {
        NodeIndex { nodes: Vec::new(), index: HashMap::new() }
    }

    /// The position of `h`.
    fn position(&self, h: NodeHandle) -> (r: Option<usize>)
        requires
            self.wf(),
            splittable(h),
        ensures
            r matches Some(i) ==> i < self.nodes@.len() && self.nodes@[i as int] == h,
            r is None ==> !self.nodes@.contains(h),
    {
        broadcast use vstd::std_specs::hash::group_hash_axioms;

        let key = node_key_of(h);
        match self.index.get(&key) {
            Some(i) => {
                let i = *i;
                proof {
                    lemma_node_key_injective(self.nodes@[i as int], h);
                }
                Some(i)
            },
            None => {
                proof {
                    if self.nodes@.contains(h) {
                        let j = choose|j: int| 0 <= j < self.nodes@.len() && self.nodes@[j] == h;
                        assert(splittable(self.nodes@[j]));
                    }
                }
                None
            },
        }
    }

    /// Adds `h` unless it is there already.
    fn insert(&mut self, h: NodeHandle)
        requires
            old(self).wf(),
            splittable(h),
        ensures
            final(self).wf(),
            final(self).nodes@.contains(h),
            forall|x: NodeHandle| old(self).nodes@.contains(x) ==> final(self).nodes@.contains(x),
            final(self).nodes@.len() <= old(self).nodes@.len() + 1,
    {
        broadcast use vstd::std_specs::hash::group_hash_axioms;

        match self.position(h) {
            Some(_) => {},
            None => {
                let ghost before = self.nodes@;
                let key = node_key_of(h);
                self.index.insert(key, self.nodes.len());
                self.nodes.push(h);
                assert(self.nodes@[self.nodes@.len() - 1] == h);
                assert forall|x: NodeHandle| before.contains(x) implies self.nodes@.contains(x) by {
                    let j = choose|j: int| 0 <= j < before.len() && before[j] == x;
                    assert(self.nodes@[j] == x);
                }
                assert forall|i: int| 0 <= i < self.nodes@.len() implies splittable(#[trigger] self.nodes@[i])
                    && self.index@.contains_key(node_key(self.nodes@[i])) && self.index@[node_key(self.nodes@[i])] == i by {
                    if i < before.len() {
                        assert(self.nodes@[i] == before[i]);
                        if node_key(before[i]) == key {
                            lemma_node_key_injective(before[i], h);
                            assert(before.contains(h));
                        }
                    }
                }
                assert forall|k: u64| #[trigger] self.index@.contains_key(k) implies self.index@[k] < self.nodes@.len()
                    && node_key(self.nodes@[self.index@[k] as int]) == k by {
                    if k != key {
                        assert(self.nodes@[self.index@[k] as int] == before[self.index@[k] as int]);
                    }
                }
            },
        }
    }
}

/// The nodes of an index are distinct.
proof fn lemma_index_distinct(idx: &NodeIndex)
    requires
        idx.wf(),
    ensures
        idx.nodes@.no_duplicates(),
{
    assert forall|i: int, j: int| 0 <= i < idx.nodes@.len() && 0 <= j < idx.nodes@.len() && i != j implies idx.nodes@[i]
        != idx.nodes@[j] by {
        if idx.nodes@[i] == idx.nodes@[j] {
            assert(idx.index@[node_key(idx.nodes@[i])] == i);
            assert(idx.index@[node_key(idx.nodes@[j])] == j);
        }
    }
}

/// The nodes of the competition graph of `comp` together with `origin` and `target`, indexed.
fn collect_nodes(conns: &Vec<TabConnection>, comp: u32, origin: NodeHandle, target: NodeHandle) -> (r: NodeIndex)
    requires
        all_well_stored(conns@),
        splittable(origin),
        splittable(target),
    ensures
        r.wf(),
        r.nodes@.no_duplicates(),
        r.nodes@.contains(origin),
        r.nodes@.contains(target),
        r.nodes@.len() <= 2 * conns@.len() + 2,
        forall|k: int| 0 <= k < conns@.len() && (#[trigger] conns@[k]).parent_id == comp ==>
            r.nodes@.contains(origin_of(conns@[k])) && r.nodes@.contains(target_of(conns@[k])),
{
    let mut idx = NodeIndex::new();
    idx.insert(origin);
    idx.insert(target);
    let mut k: usize = 0;
    while k < conns.len()
        invariant
            k <= conns.len(),
            all_well_stored(conns@),
            idx.wf(),
            idx.nodes@.contains(origin),
            idx.nodes@.contains(target),
            idx.nodes@.len() <= 2 * k + 2,
            forall|k2: int| 0 <= k2 < k && (#[trigger] conns@[k2]).parent_id == comp ==>
                idx.nodes@.contains(origin_of(conns@[k2])) && idx.nodes@.contains(target_of(conns@[k2])),
        decreases conns.len() - k,
    {
        let c = conns[k];
        if c.parent_id == comp {
            assert(well_stored(conns@[k as int]));
            let o = c.connection_origin();
            let t = c.connection_target();
            idx.insert(o);
            idx.insert(t);
        }
        k = k + 1;
    }
    proof {
        lemma_index_distinct(&idx);
    }
    idx
}

/// The edges of the competition graph of `comp`, as pairs of positions among the indexed nodes.
fn collect_edges(conns: &Vec<TabConnection>, comp: u32, idx: &NodeIndex) -> (edges: Vec<(u32, u32)>)
    requires
        idx.wf(),
        all_well_stored(conns@),
        idx.nodes@.no_duplicates(),
        idx.nodes@.len() <= u32::MAX,
        forall|k: int| 0 <= k < conns@.len() && (#[trigger] conns@[k]).parent_id == comp ==>
            idx.nodes@.contains(origin_of(conns@[k])) && idx.nodes@.contains(target_of(conns@[k])),
    ensures
        relabels(comp_rel(conns@, comp), idx.nodes@, edges@),
        edges_within(edges@, idx.nodes@.len()),
        edges@.len() <= conns@.len(),
{
    let ghost rel = comp_rel(conns@, comp);
    let mut edges: Vec<(u32, u32)> = Vec::new();
    let mut k: usize = 0;
    while k < conns.len()
        invariant
            k <= conns.len(),
            edges@.len() <= k,
            idx.wf(),
            all_well_stored(conns@),
            idx.nodes@.no_duplicates(),
            idx.nodes@.len() <= u32::MAX,
            rel == comp_rel(conns@, comp),
            forall|k2: int| 0 <= k2 < conns@.len() && (#[trigger] conns@[k2]).parent_id == comp ==>
                idx.nodes@.contains(origin_of(conns@[k2])) && idx.nodes@.contains(target_of(conns@[k2])),
            forall|i: u32, j: u32| #[trigger] edges@.contains((i, j)) ==> (i as int) < idx.nodes@.len() && (j as int) < idx.nodes@.len()
                && rel(idx.nodes@[i as int], idx.nodes@[j as int]),
            forall|k2: int| 0 <= k2 < k && (#[trigger] conns@[k2]).parent_id == comp ==>
                exists|i: u32, j: u32| (i as int) < idx.nodes@.len() && (j as int) < idx.nodes@.len()
                    && idx.nodes@[i as int] == origin_of(conns@[k2]) && idx.nodes@[j as int] == target_of(conns@[k2])
                    && #[trigger] edges@.contains((i, j)),
        decreases conns.len() - k,
    {
        let c = conns[k];
        if c.parent_id == comp {
            assert(well_stored(conns@[k as int]));
            let o = c.connection_origin();
            let t = c.connection_target();
            let io = idx.position(o);
            let it = idx.position(t);
            let i = io.unwrap() as u32;
            let j = it.unwrap() as u32;
            let ghost old_edges = edges@;
            edges.push((i, j));
            assert(edges@[edges@.len() - 1] == (i, j));
            assert(rel(o, t));
            assert forall|x: u32, y: u32| #[trigger] edges@.contains((x, y)) implies (x as int) < idx.nodes@.len() && (y as int) < idx.nodes@.len()
                && rel(idx.nodes@[x as int], idx.nodes@[y as int]) by {
                if (x, y) != (i, j) {
                    let m = choose|m: int| 0 <= m < edges@.len() && edges@[m] == (x, y);
                    assert(old_edges[m] == (x, y));
                    assert(old_edges.contains((x, y)));
                }
            }
            assert forall|k2: int| 0 <= k2 < k + 1 && (#[trigger] conns@[k2]).parent_id == comp implies
                exists|i2: u32, j2: u32| (i2 as int) < idx.nodes@.len() && (j2 as int) < idx.nodes@.len()
                    && idx.nodes@[i2 as int] == origin_of(conns@[k2]) && idx.nodes@[j2 as int] == target_of(conns@[k2])
                    && #[trigger] edges@.contains((i2, j2)) by {
                if k2 == k {
                    assert(edges@.contains((i, j)));
                } else {
                    let (i2, j2) = choose|i2: u32, j2: u32| (i2 as int) < idx.nodes@.len() && (j2 as int) < idx.nodes@.len()
                        && idx.nodes@[i2 as int] == origin_of(conns@[k2]) && idx.nodes@[j2 as int] == target_of(conns@[k2])
                        && #[trigger] old_edges.contains((i2, j2));
                    let m = choose|m: int| 0 <= m < old_edges.len() && old_edges[m] == (i2, j2);
                    assert(edges@[m] == (i2, j2));
                    assert(edges@.contains((i2, j2)));
                }
            }
        }
        k = k + 1;
    }
    assert forall|a: NodeHandle, b: NodeHandle| #[trigger] rel(a, b) implies exists|i: u32, j: u32|
        (i as int) < idx.nodes@.len() && (j as int) < idx.nodes@.len() && idx.nodes@[i as int] == a && idx.nodes@[j as int] == b
            && #[trigger] edges@.contains((i, j)) by {
        let k2 = choose|k2: int| 0 <= k2 < conns@.len() && (#[trigger] conns@[k2]).parent_id == comp
            && origin_of(conns@[k2]) == a && target_of(conns@[k2]) == b;
    }
    assert forall|m: int| 0 <= m < edges@.len() implies (#[trigger] edges@[m]).0 < idx.nodes@.len() && edges@[m].1 < idx.nodes@.len() by {
        assert(edges@.contains((edges@[m].0, edges@[m].1)));
    }
    edges
}

/// Decides a request to connect `origin` to `target` with a connection of kind `setting`.
/// `origin_parent` and `target_parent` are the competitions that the store finds for the nodes,
/// `origin_is_template` and `target_is_template` whether they are templates, `authorized` the
/// outcome of the permission check on the competition, and `connections` all stored connections.
/// On success the row to store is returned; a data connection then gets its
/// [`ConnectionData`] row (see [`connection_data_for`]). An action connection has no stored
/// form yet: it is refused with the same errors as any other, and a request for one that would
/// be accepted is left out. The cycle check builds a graph with `u32` node indices
/// over at most two nodes per connection and the two new ones, which bounds the number of
/// connections it takes.
pub fn connection_create(
    origin: NodeHandle,
    target: NodeHandle,
    setting: ConnectionType,
    origin_parent: Result<u32, ManagerError>,
    target_parent: Result<u32, ManagerError>,
    origin_is_template: bool,
    target_is_template: bool,
    authorized: Result<u32, ManagerError>,
    connections: &Vec<TabConnection>,
) -> (r: Result<TabConnection, ManagerError>)
    requires
        origin != target ==> splittable(origin) && splittable(target),
        all_well_stored(connections@),
        connections@.len() < 0x7fff_ffff,
        setting == ConnectionType::Action ==> connection_create_spec(
            origin,
            target,
            setting,
            origin_parent,
            target_parent,
            origin_is_template,
            target_is_template,
            authorized,
            connections@,
        ) is Err,
    ensures
        r == connection_create_spec(
            origin,
            target,
            setting,
            origin_parent,
            target_parent,
            origin_is_template,
            target_is_template,
            authorized,
            connections@,
        ),
{
    if origin == target {
        return Err(ManagerError::SelfConnection);
    }
    let from_comp = match origin_parent {
        Ok(p) => p,
        Err(e) => return Err(e),
    };
    let to_comp = match target_parent {
        Ok(p) => p,
        Err(e) => return Err(e),
    };
    if from_comp != to_comp {
        return Err(ManagerError::DifferentCompetitions);
    }
    if origin_is_template != target_is_template {
        return Err(ManagerError::TemplateMismatch);
    }
    if let Err(e) = authorized {
        return Err(e);
    }
    let (from_variant, from_id) = origin.split();
    let (to_variant, to_id) = target.split();
    let mut k: usize = 0;
    while k < connections.len()
        invariant
            k <= connections.len(),
            origin != target,
            origin_parent == Ok::<u32, ManagerError>(from_comp),
            target_parent == Ok::<u32, ManagerError>(from_comp),
            authorized is Ok,
            origin_is_template == target_is_template,
            (from_variant, from_id) == split_spec(origin),
            (to_variant, to_id) == split_spec(target),
            forall|k2: int| 0 <= k2 < k ==> !(split_spec(origin) == ((#[trigger] connections@[k2]).origin_variant, connections@[k2].origin_id)
                && split_spec(target) == (connections@[k2].target_variant, connections@[k2].target_id)),
        decreases connections.len() - k,
    {
        let c = connections[k];
        if c.origin_variant == from_variant && c.origin_id == from_id && c.target_variant == to_variant
            && c.target_id == to_id {
            assert(split_spec(origin) == (connections@[k as int].origin_variant, connections@[k as int].origin_id));
            assert(split_spec(target) == (connections@[k as int].target_variant, connections@[k as int].target_id));
            assert(parallel_exists(connections@, origin, target));
            return Err(ManagerError::ParallelEdge);
        }
        k = k + 1;
    }
    let idx = collect_nodes(connections, from_comp, origin, target);
    let edges = collect_edges(connections, from_comp, &idx);
    proof {
        lemma_relabel(comp_rel(connections@, from_comp), idx.nodes@, edges@);
    }
    let io = idx.position(origin).unwrap();
    let it = idx.position(target).unwrap();
    match check_new_edge(idx.nodes.len() as u32, &edges, io as u32, it as u32) {
        EdgeCheck::ExistingCycle => Err(ManagerError::ExistingCycle),
        EdgeCheck::WouldCycle => Err(ManagerError::WouldCycle),
        EdgeCheck::Accepted => Ok(
            TabConnection {
                id: 0,
                parent_id: from_comp,
                origin_id: from_id,
                target_id: to_id,
                origin_variant: from_variant,
                target_variant: to_variant,
                connection_type: setting,
                status: ConnectionStatus::Configuring,
            },
        ),
    }
}

/// The data row that a stored connection needs: one for a data connection, none for a wait.
pub fn connection_data_for(connection: &TabConnection) -> (r: Option<ConnectionData>)
    requires
        connection.connection_type != ConnectionType::Action,
    ensures
        connection.connection_type == ConnectionType::Wait ==> r is None,
        connection.connection_type == ConnectionType::Data ==> (r matches Some(d) && d.connection_id == connection.id
            && d.competition_id == connection.parent_id && d.options is All),
{
    match connection.connection_type {
        ConnectionType::Data => Some(ConnectionData::new(connection.id, connection.parent_id)),
        _ => None,
    }
}

/// What follows for one connection that leaves a node that has just finished.
#[derive(Debug, PartialEq, Eq, Clone, Copy, Structural)]
pub enum ResolutionStep {
    /// The action of the connection `connection` runs on `target`.
    ExecAction { connection: u32, target: NodeHandle },
    /// Nothing that `target` waits on is pending any more: `target` is made ready.
    Ready(NodeHandle),
    /// `target` still waits on other connections.
    Waiting(NodeHandle),
}

/// The connection leaves the node `node`.
pub open spec fn starts_at(c: TabConnection, node: NodeHandle) -> bool {
    (c.origin_variant, c.origin_id) == split_spec(node)
}

/// The connection enters the node `node`.
pub open spec fn ends_at(c: TabConnection, node: NodeHandle) -> bool {
    (c.target_variant, c.target_id) == split_spec(node)
}

/// The connection holds `node` back: it enters it, is no action and is not resolved.
pub open spec fn holds_back(c: TabConnection, node: NodeHandle) -> bool {
    ends_at(c, node) && c.connection_type != ConnectionType::Action && c.status != ConnectionStatus::Resolved
}

/// No connection of `table` holds `node` back.
pub open spec fn nothing_pending(table: Seq<TabConnection>, node: NodeHandle) -> bool {
    forall|j: int| 0 <= j < table.len() ==> !holds_back(#[trigger] table[j], node)
}

/// The table and the steps after the first `k` rows of `start` were handled for the node
/// `trigger` that has finished: each row that leaves `trigger` is resolved in turn, and right
/// after it is resolved its step is decided on the table as it then stands.
pub open spec fn resolution(start: Seq<TabConnection>, trigger: NodeHandle, k: nat) -> (Seq<TabConnection>, Seq<ResolutionStep>)
    decreases k,
{
    if k == 0 {
        (start, Seq::empty())
    } else {
        let (table, steps) = resolution(start, trigger, (k - 1) as nat);
        let c = start[k - 1];
        if starts_at(c, trigger) {
            let resolved = TabConnection { status: ConnectionStatus::Resolved, ..c };
            let table2 = table.update(k - 1, resolved);
            let target = target_of(c);
            let step = if c.connection_type == ConnectionType::Action {
                ResolutionStep::ExecAction { connection: c.id, target }
            } else if nothing_pending(table2, target) {
                ResolutionStep::Ready(target)
            } else {
                ResolutionStep::Waiting(target)
            };
            (table2, steps.push(step))
        } else {
            (table, steps)
        }
    }
}

/// When the node `trigger` has finished, each connection that leaves it is resolved in turn
/// and gives one step. For a connection that is no action, the step readies its target exactly
/// when, right after it is resolved, no connection of the table enters that target unless it
/// is an action or resolved; otherwise the target still waits. A connection that does not
/// leave `trigger` changes nothing and gives no step.
pub proof fn lemma_resolution_readies(start: Seq<TabConnection>, trigger: NodeHandle, k: nat)
    requires
        1 <= k <= start.len(),
        all_well_stored(start),
    ensures
        ({
            let c = start[k - 1];
            let before = resolution(start, trigger, (k - 1) as nat);
            let after = resolution(start, trigger, k);
            let target = combine_spec(c.target_variant, c.target_id);
            if (c.origin_variant, c.origin_id) == split_spec(trigger) {
                &&& after.0 == before.0.update(k - 1, TabConnection { status: ConnectionStatus::Resolved, ..c })
                &&& after.1.len() == before.1.len() + 1
                &&& after.1.subrange(0, before.1.len() as int) == before.1
                &&& c.connection_type != ConnectionType::Action ==> (after.1.last() == ResolutionStep::Ready(target)
                    <==> forall|j: int| 0 <= j < after.0.len() ==> !((#[trigger] after.0[j]).target_variant == c.target_variant
                        && after.0[j].target_id == c.target_id && after.0[j].connection_type != ConnectionType::Action
                        && after.0[j].status != ConnectionStatus::Resolved))
                &&& c.connection_type != ConnectionType::Action ==> (after.1.last() == ResolutionStep::Ready(target)
                    || after.1.last() == ResolutionStep::Waiting(target))
                &&& c.connection_type == ConnectionType::Action ==> after.1.last() == (ResolutionStep::ExecAction {
                    connection: c.id,
                    target,
                })
            } else {
                after == before
            }
        }),
{
    let c = start[k - 1];
    let before = resolution(start, trigger, (k - 1) as nat);
    let after = resolution(start, trigger, k);
    lemma_resolution_frame(start, trigger, (k - 1) as nat);
    assert(well_stored(start[k - 1]));
    if (c.origin_variant, c.origin_id) == split_spec(trigger) {
        assert(after.1.subrange(0, before.1.len() as int) =~= before.1);
    }
}

/// The rows before `k` of `start` may have changed, the others are as they were.
proof fn lemma_resolution_frame(start: Seq<TabConnection>, trigger: NodeHandle, k: nat)
    requires
        k <= start.len(),
    ensures
        resolution(start, trigger, k).0.len() == start.len(),
        forall|j: int| k <= j < start.len() ==> #[trigger] resolution(start, trigger, k).0[j] == start[j],
    decreases k,
{
    if k > 0 {
        lemma_resolution_frame(start, trigger, (k - 1) as nat);
    }
}

/// Whether anything holds `node` back in `table`.
fn find_pending(table: &Vec<TabConnection>, node: NodeHandle) -> (r: bool)
    requires
        splittable(node),
    ensures
        r == !nothing_pending(table@, node),
{
    let (variant, id) = node.split();
    let mut j: usize = 0;
    while j < table.len()
        invariant
            j <= table.len(),
            (variant, id) == split_spec(node),
            forall|j2: int| 0 <= j2 < j ==> !holds_back(#[trigger] table@[j2], node),
        decreases table.len() - j,
    {
        let c = table[j];
        if c.target_variant == variant && c.target_id == id && c.connection_type != ConnectionType::Action
            && c.status != ConnectionStatus::Resolved {
            assert(holds_back(table@[j as int], node));
            return true;
        }
        j = j + 1;
    }
    false
}

/// Resolves the connections that leave `trigger`, a node that has just finished, and says for
/// each of them what follows: its action runs, its target becomes ready, or its target still
/// waits. `connections` is the table of connections; the table after resolving is returned with
/// the steps in the order of the table.
pub fn internal_graph_resolution_node_finished(connections: Vec<TabConnection>, trigger: NodeHandle) -> (r: (
    Vec<TabConnection>,
    Vec<ResolutionStep>,
))
    requires
        splittable(trigger),
        all_well_stored(connections@),
    ensures
        r.0@ == resolution(connections@, trigger, connections@.len()).0,
        r.1@ == resolution(connections@, trigger, connections@.len()).1,
{
    let ghost start = connections@;
    let (variant, id) = trigger.split();
    let mut table = connections;
    let mut steps: Vec<ResolutionStep> = Vec::new();
    let mut k: usize = 0;
    while k < table.len()
        invariant
            k <= start.len(),
            table@.len() == start.len(),
            all_well_stored(start),
            (variant, id) == split_spec(trigger),
            table@ == resolution(start, trigger, k as nat).0,
            steps@ == resolution(start, trigger, k as nat).1,
        decreases table.len() - k,
    {
        proof {
            lemma_resolution_frame(start, trigger, k as nat);
        }
        let c = table[k];
        assert(c == start[k as int]);
        if c.origin_variant == variant && c.origin_id == id {
            let mut resolved = c;
            resolved.resolve();
            table.set(k, resolved);
            assert(well_stored(start[k as int]));
            let target = c.connection_target();
            let step = if c.is_action() {
                ResolutionStep::ExecAction { connection: c.id, target }
            } else if !find_pending(&table, target) {
                ResolutionStep::Ready(target)
            } else {
                ResolutionStep::Waiting(target)
            };
            steps.push(step);
        }
        k = k + 1;
    }
    (table, steps)
}

/// The connection touches the node at its origin (`leaving`) or at its target, and has the type.
pub open spec fn touches(node: NodeHandle, ty: ConnectionType, leaving: bool) -> spec_fn(TabConnection) -> bool {
    |c: TabConnection|
        (if leaving {
            starts_at(c, node)
        } else {
            ends_at(c, node)
        }) && c.connection_type == ty
}

/// The ids of the connections of the type that leave the node, then of those that enter it.
pub open spec fn touching_ids(conns: Seq<TabConnection>, node: NodeHandle, ty: ConnectionType) -> Seq<u32> {
    conns.filter(touches(node, ty, true)).map_values(|c: TabConnection| c.id) + conns.filter(
        touches(node, ty, false),
    ).map_values(|c: TabConnection| c.id)
}

/// What deleting a node leaves: the action rows and the data rows of the connections that touch
/// the node, to be deleted, each given by its connection id; the connections and the position
/// rows that stay.
#[derive(Debug)]
pub struct NodeDeletion {
    pub action_rows: Vec<u32>,
    pub data_rows: Vec<u32>,
    pub connections: Vec<TabConnection>,
    pub positions: Vec<TabCompetitionNodePosition>,
}

/// The connection neither leaves nor enters `node`.
pub open spec fn untouched_by(node: NodeHandle) -> spec_fn(TabConnection) -> bool {
    |c: TabConnection| !starts_at(c, node) && !ends_at(c, node)
}

/// The position row is not that of `node`.
pub open spec fn not_position_of(node: NodeHandle) -> spec_fn(TabCompetitionNodePosition) -> bool {
    |p: TabCompetitionNodePosition| (p.node_variant, p.node_id) != split_spec(node)
}

fn connections_untouched(conns: &Vec<TabConnection>, node: NodeHandle) -> (r: Vec<TabConnection>)
    requires
        splittable(node),
    ensures
        r@ == conns@.filter(untouched_by(node)),
{
    let key = node.split();
    let ghost pred = untouched_by(node);
    let mut out: Vec<TabConnection> = Vec::new();
    proof {
        reveal(Seq::filter);
    }
    let mut i: usize = 0;
    while i < conns.len()
        invariant
            i <= conns.len(),
            key == split_spec(node),
            pred == untouched_by(node),
            out@ == conns@.subrange(0, i as int).filter(pred),
        decreases conns.len() - i,
    {
        let c = conns[i];
        proof {
            assert(conns@.subrange(0, i + 1) =~= conns@.subrange(0, i as int).push(conns@[i as int]));
            conns@.subrange(0, i as int).lemma_filter_push(conns@[i as int], pred);
        }
        let leaves = c.origin_variant == key.0 && c.origin_id == key.1;
        let enters = c.target_variant == key.0 && c.target_id == key.1;
        if !leaves && !enters {
            out.push(c);
        }
        i = i + 1;
    }
    assert(conns@.subrange(0, conns@.len() as int) =~= conns@);
    out
}

fn positions_without(positions: &Vec<TabCompetitionNodePosition>, node: NodeHandle) -> (r: Vec<
    TabCompetitionNodePosition,
>)
    requires
        splittable(node),
    ensures
        r@ == positions@.filter(not_position_of(node)),
{
    let key = node.split();
    let ghost pred = not_position_of(node);
    let mut out: Vec<TabCompetitionNodePosition> = Vec::new();
    proof {
        reveal(Seq::filter);
    }
    let mut i: usize = 0;
    while i < positions.len()
        invariant
            i <= positions.len(),
            key == split_spec(node),
            pred == not_position_of(node),
            out@ == positions@.subrange(0, i as int).filter(pred),
        decreases positions.len() - i,
    {
        let p = positions[i];
        proof {
            assert(positions@.subrange(0, i + 1) =~= positions@.subrange(0, i as int).push(positions@[i as int]));
            positions@.subrange(0, i as int).lemma_filter_push(positions@[i as int], pred);
        }
        if !(p.node_variant == key.0 && p.node_id == key.1) {
            out.push(p);
        }
        i = i + 1;
    }
    assert(positions@.subrange(0, positions@.len() as int) =~= positions@);
    out
}

fn push_touching_ids(
    out: &mut Vec<u32>,
    conns: &Vec<TabConnection>,
    node: NodeHandle,
    ty: ConnectionType,
    leaving: bool,
)
    requires
        splittable(node),
    ensures
        final(out)@ == old(out)@ + conns@.filter(touches(node, ty, leaving)).map_values(
            |c: TabConnection| c.id,
        ),
{
    let key = node.split();
    let ghost pred = touches(node, ty, leaving);
    let ghost start = out@;
    proof {
        reveal(Seq::filter);
    }
    let mut i: usize = 0;
    while i < conns.len()
        invariant
            i <= conns.len(),
            key == split_spec(node),
            pred == touches(node, ty, leaving),
            out@ == start + conns@.subrange(0, i as int).filter(pred).map_values(
                |c: TabConnection| c.id,
            ),
        decreases conns.len() - i,
    {
        let c = conns[i];
        proof {
            assert(conns@.subrange(0, i + 1) =~= conns@.subrange(0, i as int).push(conns@[i as int]));
            conns@.subrange(0, i as int).lemma_filter_push(conns@[i as int], pred);
        }
        let at_node = if leaving {
            c.origin_variant == key.0 && c.origin_id == key.1
        } else {
            c.target_variant == key.0 && c.target_id == key.1
        };
        if at_node && c.connection_type == ty {
            out.push(c.id);
            assert(out@ =~= start + conns@.subrange(0, i + 1).filter(pred).map_values(
                |c: TabConnection| c.id,
            ));
        }
        i = i + 1;
    }
    assert(conns@.subrange(0, conns@.len() as int) =~= conns@);
}

/// Deleting a node: its position row goes, and so do the connections that leave or enter it,
/// with their action and data rows; all other rows stay. (A connection of the node to itself is
/// named twice among the action or data rows, as it is met twice.)
pub fn node_delete(
    conns: &Vec<TabConnection>,
    positions: &Vec<TabCompetitionNodePosition>,
    node: NodeHandle,
) -> (r: NodeDeletion)
    requires
        splittable(node),
    ensures
        r.action_rows@ == touching_ids(conns@, node, ConnectionType::Action),
        r.data_rows@ == touching_ids(conns@, node, ConnectionType::Data),
        r.connections@ == conns@.filter(untouched_by(node)),
        r.positions@ == positions@.filter(not_position_of(node)),
        forall|k: int| 0 <= k < r.connections@.len() ==> !starts_at(#[trigger] r.connections@[k], node)
            && !ends_at(r.connections@[k], node),
        forall|k: int| 0 <= k < r.positions@.len() ==> ((#[trigger] r.positions@[k]).node_variant,
            r.positions@[k].node_id) != split_spec(node),
{
    let mut action_rows: Vec<u32> = Vec::new();
    push_touching_ids(&mut action_rows, conns, node, ConnectionType::Action, true);
    push_touching_ids(&mut action_rows, conns, node, ConnectionType::Action, false);
    let mut data_rows: Vec<u32> = Vec::new();
    push_touching_ids(&mut data_rows, conns, node, ConnectionType::Data, true);
    push_touching_ids(&mut data_rows, conns, node, ConnectionType::Data, false);
    let kept_connections = connections_untouched(conns, node);
    let kept_positions = positions_without(positions, node);
    proof {
        assert forall|k: int| 0 <= k < kept_connections@.len() implies !starts_at(
            #[trigger] kept_connections@[k],
            node,
        ) && !ends_at(kept_connections@[k], node) by {
            conns@.lemma_filter_pred(untouched_by(node), k);
        }
        assert forall|k: int| 0 <= k < kept_positions@.len() implies ((
        #[trigger] kept_positions@[k]).node_variant, kept_positions@[k].node_id) != split_spec(node) by {
            positions@.lemma_filter_pred(not_position_of(node), k);
        }
    }
    NodeDeletion { action_rows, data_rows, connections: kept_connections, positions: kept_positions }
}

/// The connections of a competition never form a cycle: where they have none, a connection
/// that the manager accepts, once stored, leaves them without one.
pub proof fn lemma_connection_create_keeps_acyclic(
    origin: NodeHandle,
    target: NodeHandle,
    setting: ConnectionType,
    origin_parent: Result<u32, ManagerError>,
    target_parent: Result<u32, ManagerError>,
    origin_is_template: bool,
    target_is_template: bool,
    authorized: Result<u32, ManagerError>,
    conns: Seq<TabConnection>,
)
    requires
        splittable(origin),
        splittable(target),
        connection_create_spec(
            origin,
            target,
            setting,
            origin_parent,
            target_parent,
            origin_is_template,
            target_is_template,
            authorized,
            conns,
        ) is Ok,
    ensures
        !has_cycle(
            comp_rel(
                conns.push(
                    connection_create_spec(
                        origin,
                        target,
                        setting,
                        origin_parent,
                        target_parent,
                        origin_is_template,
                        target_is_template,
                        authorized,
                        conns,
                    )->Ok_0,
                ),
                origin_parent->Ok_0,
            ),
        ),
{
    let comp = origin_parent->Ok_0;
    let row = connection_create_spec(
        origin,
        target,
        setting,
        origin_parent,
        target_parent,
        origin_is_template,
        target_is_template,
        authorized,
        conns,
    )->Ok_0;
    let table = conns.push(row);
    let old_rel = comp_rel(conns, comp);
    let new_rel = comp_rel(table, comp);
    let wider = with_edge(old_rel, origin, target);
    lemma_add_edge_acyclic(old_rel, origin, target);
    assert(origin_of(row) == origin);
    assert(target_of(row) == target);
    assert forall|x: NodeHandle, y: NodeHandle| #[trigger] new_rel(x, y) implies wider(x, y) by {
        let k = choose|k: int|
            0 <= k < table.len() && (#[trigger] table[k]).parent_id == comp && origin_of(table[k]) == x
                && target_of(table[k]) == y;
        if k < conns.len() {
            assert(table[k] == conns[k]);
            assert(old_rel(x, y));
        }
    }
    let id = |x: NodeHandle| x;
    if has_cycle(new_rel) {
        let v = choose|v: NodeHandle| #[trigger] reaches(new_rel, v, v);
        lemma_reaches_map(new_rel, wider, id, v, v);
        assert(reaches(wider, v, v));
    }
}

/// A row that leaves the node, resolved; any other row as it is.
pub open spec fn resolved_if_leaving(c: TabConnection, trigger: NodeHandle) -> TabConnection {
    if starts_at(c, trigger) {
        TabConnection { status: ConnectionStatus::Resolved, ..c }
    } else {
        c
    }
}

/// The rows that leave the node.
pub open spec fn leaving(trigger: NodeHandle) -> spec_fn(TabConnection) -> bool {
    |c: TabConnection| starts_at(c, trigger)
}

proof fn lemma_resolution_prefix(start: Seq<TabConnection>, trigger: NodeHandle, k: nat)
    requires
        k <= start.len(),
    ensures
        resolution(start, trigger, k).0.len() == start.len(),
        forall|j: int|
            0 <= j < k ==> #[trigger] resolution(start, trigger, k).0[j] == resolved_if_leaving(
                start[j],
                trigger,
            ),
        forall|j: int| k <= j < start.len() ==> #[trigger] resolution(start, trigger, k).0[j] == start[j],
        resolution(start, trigger, k).1.len() == start.take(k as int).filter(leaving(trigger)).len(),
        forall|i: int|
            0 <= i < resolution(start, trigger, k).1.len() && (#[trigger] resolution(
                start,
                trigger,
                k,
            ).1[i]) is Ready ==> nothing_pending(
                resolution(start, trigger, k).0,
                resolution(start, trigger, k).1[i]->Ready_0,
            ),
    decreases k,
{
    reveal(Seq::filter);
    if k > 0 {
        lemma_resolution_prefix(start, trigger, (k - 1) as nat);
        let (table, steps) = resolution(start, trigger, (k - 1) as nat);
        let c = start[k - 1];
        assert(start.take(k as int) =~= start.take(k - 1).push(c));
        start.take(k - 1).lemma_filter_push(c, leaving(trigger));
        if starts_at(c, trigger) {
            let resolved = TabConnection { status: ConnectionStatus::Resolved, ..c };
            let table2 = table.update(k - 1, resolved);
            let (t3, s3) = resolution(start, trigger, k);
            assert(t3 == table2);
            assert forall|i: int| 0 <= i < s3.len() && (#[trigger] s3[i]) is Ready implies nothing_pending(
                t3,
                s3[i]->Ready_0,
            ) by {
                let n = s3[i]->Ready_0;
                if i < steps.len() {
                    assert(s3[i] == steps[i]);
                    assert(nothing_pending(table, n));
                    assert forall|j: int| 0 <= j < t3.len() implies !holds_back(#[trigger] t3[j], n) by {
                        if j != k - 1 {
                            assert(t3[j] == table[j]);
                            assert(!holds_back(table[j], n));
                        }
                    }
                }
            }
        }
    }
}

/// When a node finishes, exactly the connections that leave it become resolved and every other
/// row stays as it was; one step is decided per connection that leaves it; and a node declared
/// ready has nothing holding it back in the table that results.
pub proof fn lemma_resolution_outcome(start: Seq<TabConnection>, trigger: NodeHandle)
    ensures
        resolution(start, trigger, start.len()).0.len() == start.len(),
        forall|j: int|
            0 <= j < start.len() ==> #[trigger] resolution(start, trigger, start.len()).0[j]
                == resolved_if_leaving(start[j], trigger),
        resolution(start, trigger, start.len()).1.len() == start.filter(leaving(trigger)).len(),
        forall|i: int|
            0 <= i < resolution(start, trigger, start.len()).1.len() && (#[trigger] resolution(
                start,
                trigger,
                start.len(),
            ).1[i]) is Ready ==> nothing_pending(
                resolution(start, trigger, start.len()).0,
                resolution(start, trigger, start.len()).1[i]->Ready_0,
            ),
{
    lemma_resolution_prefix(start, trigger, start.len());
    assert(start.take(start.len() as int) =~= start);
}

} // verus!
