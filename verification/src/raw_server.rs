use vstd::prelude::*;

use crate::error::ManagerError;
use crate::node::{NodeHandle, split_spec, splittable};
use crate::occupation::{RawServerOccupation, occupied, raw_server_is_occupied};
use crate::tm_match::{TmMatchV1, config_id_spec, has_config};
use crate::tm_server::TmServerV1;
use crate::user::Identity;

verus! {

/// A Trackmania dedicated server that logged in to the manager.
#[derive(Debug)]
pub struct RawServerV1 {
    pub identity: Identity,
    pub server_login: String,
    /// The account of the server on the Trackmania web services.
    pub server_account_id: u128,
    /// The Ubisoft account of the user that owns the server.
    pub user_account_id: u128,
    pub id: u32,
    /// The server can be reached through an active bridge.
    pub online: bool,
    /// The server can be provisioned (it is no fixed server).
    pub capturable: bool,
    /// The owner confirmed the server by hand: the account given at login cannot be checked.
    pub verified: bool,
}

impl RawServerV1 {
    pub fn set_online(&mut self)
        ensures
            *final(self) == (RawServerV1 { online: true, ..*old(self) }),
    {
        self.online = true;
    }

    pub fn set_offline(&mut self)
        ensures
            *final(self) == (RawServerV1 { online: false, ..*old(self) }),
    {
        self.online = false;
    }

    pub fn set_identity(&mut self, identity: Identity)
        ensures
            *final(self) == (RawServerV1 { identity, ..*old(self) }),
    {
        self.identity = identity;
    }

    pub fn is_verified(&self) -> (r: bool)
        ensures
            r == self.verified,
    {
        self.verified
    }

    /// A copy of the row.
    pub fn copy_row(&self) -> (r: Self)
        ensures
            r == *self,
    {
        RawServerV1 {
            identity: self.identity,
            server_login: self.server_login.clone(),
            server_account_id: self.server_account_id,
            user_account_id: self.user_account_id,
            id: self.id,
            online: self.online,
            capturable: self.capturable,
            verified: self.verified,
        }
    }
}

/// The raw server of the caller: the row that the store holds for the caller's identity.
pub fn get_server(found: Option<RawServerV1>) -> (r: Result<RawServerV1, ManagerError>)
    ensures
        found is None ==> r == Err::<RawServerV1, ManagerError>(ManagerError::NotAServer),
        found is Some ==> r == Ok::<RawServerV1, ManagerError>(found->0),
{
    match found {
        Some(server) => Ok(server),
        None => Err(ManagerError::NotAServer),
    }
}

/// The answer to a server login after the account service replied with the HTTP status
/// `status`: the credentials are taken only with a success status (200 to 299).
pub fn login_response(status: u16) -> (r: Result<(), ManagerError>)
    ensures
        r == (if 200 <= status <= 299 {
            Ok::<(), ManagerError>(())
        } else {
            Err::<(), ManagerError>(ManagerError::CredentialsRejected)
        }),
{
    if 200 <= status && status <= 299 {
        Ok(())
    } else {
        Err(ManagerError::CredentialsRejected)
    }
}

/// What a successful server login writes to the store.
#[derive(Debug)]
pub enum ServerLoginRecord {
    /// The server was seen before: its row is updated.
    Update(RawServerV1),
    /// The server is new: the row is inserted, and the store gives it its id.
    Insert(RawServerV1),
}

/// The row that a server login with valid credentials leaves: a known server comes online under
/// the new identity and loses its verification where its server account differs from the user
/// account given; a new server is stored online, capturable and unverified.
pub fn server_login_record(
    existing: Option<RawServerV1>,
    login: String,
    server_account_id: u128,
    user_account_id: u128,
    identity: Identity,
) -> (r: ServerLoginRecord)
    ensures
        existing is Some ==> r == ServerLoginRecord::Update(
            RawServerV1 {
                online: true,
                identity,
                verified: existing->0.verified && existing->0.server_account_id == user_account_id,
                ..existing->0
            },
        ),
        existing is None ==> r == ServerLoginRecord::Insert(
            RawServerV1 {
                id: 0,
                server_login: login,
                server_account_id,
                user_account_id,
                identity,
                capturable: true,
                verified: false,
                online: true,
            },
        ),
{
    match existing {
        Some(mut server) => {
            if server.server_account_id != user_account_id {
                server.verified = false;
            }
            server.set_online();
            server.set_identity(identity);
            ServerLoginRecord::Update(server)
        },
        None => ServerLoginRecord::Insert(
            RawServerV1 {
                id: 0,
                server_login: login,
                server_account_id,
                user_account_id,
                identity,
                capturable: true,
                verified: false,
                online: true,
            },
        ),
    }
}

/// The verified servers of an account.
pub open spec fn in_user_pool(account_id: u128) -> spec_fn(RawServerV1) -> bool {
    |s: RawServerV1| s.user_account_id == account_id && s.verified
}

/// The verified, capturable and unoccupied servers of an account.
pub open spec fn in_available_pool(account_id: u128, occs: Seq<RawServerOccupation>) -> spec_fn(
    RawServerV1,
) -> bool {
    |s: RawServerV1|
        s.user_account_id == account_id && s.verified && s.capturable && !occupied(occs, s.id)
}

/// The servers of an account that wait for verification.
pub open spec fn in_unverified_pool(account_id: u128) -> spec_fn(RawServerV1) -> bool {
    |s: RawServerV1| s.user_account_id == account_id && !s.verified
}

/// The pools of servers of a user.
#[derive(PartialEq, Eq, Clone, Copy, Structural)]
enum Pool {
    Verified,
    Available,
    Unverified,
}

/// The filter of a pool.
spec fn pool_filter(pool: Pool, account_id: u128, occs: Seq<RawServerOccupation>) -> spec_fn(
    RawServerV1,
) -> bool {
    match pool {
        Pool::Verified => in_user_pool(account_id),
        Pool::Available => in_available_pool(account_id, occs),
        Pool::Unverified => in_unverified_pool(account_id),
    }
}

fn keep_servers(
    servers: &Vec<RawServerV1>,
    account_id: u128,
    occs: &Vec<RawServerOccupation>,
    pool: Pool,
) -> (r: Vec<RawServerV1>)
    ensures
        r@ == servers@.filter(pool_filter(pool, account_id, occs@)),
{
    let ghost pred = pool_filter(pool, account_id, occs@);
    let mut out: Vec<RawServerV1> = Vec::new();
    proof {
        reveal(Seq::filter);
    }
    let mut i: usize = 0;
    while i < servers.len()
        invariant
            i <= servers.len(),
            pred == pool_filter(pool, account_id, occs@),
            out@ == servers@.subrange(0, i as int).filter(pred),
        decreases servers.len() - i,
    {
        let s = &servers[i];
        let keep = match pool {
            Pool::Verified => s.user_account_id == account_id && s.verified,
            Pool::Available => s.user_account_id == account_id && s.verified && s.capturable
                && !raw_server_is_occupied(occs, s.id),
            Pool::Unverified => s.user_account_id == account_id && !s.verified,
        };
        assert(keep == pred(servers@[i as int]));
        proof {
            assert(servers@.subrange(0, i + 1) =~= servers@.subrange(0, i as int).push(
                servers@[i as int],
            ));
            servers@.subrange(0, i as int).lemma_filter_push(servers@[i as int], pred);
        }
        if keep {
            out.push(s.copy_row());
        }
        i = i + 1;
    }
    assert(servers@.subrange(0, servers@.len() as int) =~= servers@);
    out
}

/// The raw server pool of the calling user: its verified servers, empty where the caller is no
/// user.
pub fn user_raw_server_pool(user_account: Result<u128, ManagerError>, servers: &Vec<RawServerV1>) -> (r:
    Vec<RawServerV1>)
    ensures
        user_account is Err ==> r@.len() == 0,
        user_account is Ok ==> r@ == servers@.filter(in_user_pool(user_account->Ok_0)),
{
    match user_account {
        Ok(account_id) => keep_servers(servers, account_id, &Vec::new(), Pool::Verified),
        Err(_) => Vec::new(),
    }
}

/// The servers of the calling user that can be provisioned now: verified, capturable and not
/// occupied; empty where the caller is no user.
pub fn user_available_server_pool(
    user_account: Result<u128, ManagerError>,
    servers: &Vec<RawServerV1>,
    occs: &Vec<RawServerOccupation>,
) -> (r: Vec<RawServerV1>)
    ensures
        user_account is Err ==> r@.len() == 0,
        user_account is Ok ==> r@ == servers@.filter(in_available_pool(user_account->Ok_0, occs@)),
{
    match user_account {
        Ok(account_id) => keep_servers(servers, account_id, occs, Pool::Available),
        Err(_) => Vec::new(),
    }
}

/// The servers of the calling user that are not verified yet; empty where the caller is no user.
pub fn user_raw_server_pool_unverified(
    user_account: Result<u128, ManagerError>,
    servers: &Vec<RawServerV1>,
) -> (r: Vec<RawServerV1>)
    ensures
        user_account is Err ==> r@.len() == 0,
        user_account is Ok ==> r@ == servers@.filter(in_unverified_pool(user_account->Ok_0)),
{
    match user_account {
        Ok(account_id) => keep_servers(servers, account_id, &Vec::new(), Pool::Unverified),
        Err(_) => Vec::new(),
    }
}

/// The decision on a request to verify a server: the error, or the verified row.
pub open spec fn raw_server_verify_spec(user_account: Result<u128, ManagerError>, server: Option<RawServerV1>) -> Result<
    RawServerV1,
    ManagerError,
> {
    if user_account is Err {
        Err(user_account->Err_0)
    } else if server is None {
        Err(ManagerError::ServerNotFound)
    } else if server->0.user_account_id != user_account->Ok_0 {
        Err(ManagerError::NotServerOwner)
    } else if server->0.verified {
        Err(ManagerError::AlreadyVerified)
    } else {
        Ok(RawServerV1 { verified: true, ..server->0 })
    }
}

/// Verifying is done once: a verified row is refused a second verification.
pub proof fn lemma_verify_once(user_account: Result<u128, ManagerError>, server: Option<RawServerV1>)
    requires
        raw_server_verify_spec(user_account, server) is Ok,
    ensures
        raw_server_verify_spec(user_account, Some(raw_server_verify_spec(user_account, server)->Ok_0))
            == Err::<RawServerV1, ManagerError>(ManagerError::AlreadyVerified),
{
}

/// The owner confirms a server: the row comes back verified.
pub fn raw_server_verify(user_account: Result<u128, ManagerError>, server: Option<RawServerV1>) -> (r:
    Result<RawServerV1, ManagerError>)
    ensures
        r == raw_server_verify_spec(user_account, server),
{
    let account_id = match user_account {
        Ok(a) => a,
        Err(e) => {
            return Err(e);
        },
    };
    let mut server = match server {
        Some(s) => s,
        None => {
            return Err(ManagerError::ServerNotFound);
        },
    };
    if server.user_account_id == account_id {
        if server.verified {
            Err(ManagerError::AlreadyVerified)
        } else {
            server.verified = true;
            Ok(server)
        }
    } else {
        Err(ManagerError::NotServerOwner)
    }
}

/// A raw server lent to a competition.
#[derive(Debug, PartialEq, Eq, Clone, Copy, Structural)]
pub struct CompetitionServer {
    pub competition_id: u32,
    pub server_id: u32,
}

/// Some row lends the server to the competition.
pub open spec fn is_lent(lent: Seq<CompetitionServer>, server_id: u32, competition_id: u32) -> bool {
    exists|k: int|
        0 <= k < lent.len() && #[trigger] lent[k] == (CompetitionServer { competition_id, server_id })
}

fn lent_to(lent: &Vec<CompetitionServer>, server_id: u32, competition_id: u32) -> (r: bool)
    ensures
        r == is_lent(lent@, server_id, competition_id),
{
    let mut i: usize = 0;
    while i < lent.len()
        invariant
            i <= lent.len(),
            forall|k: int|
                0 <= k < i ==> #[trigger] lent@[k] != (CompetitionServer { competition_id, server_id }),
        decreases lent.len() - i,
    {
        if lent[i].server_id == server_id && lent[i].competition_id == competition_id {
            assert(lent@[i as int] == (CompetitionServer { competition_id, server_id }));
            return true;
        }
        i = i + 1;
    }
    false
}

/// The decision on a request to lend a server: the error, or the row to store.
pub open spec fn lend_raw_server_spec(
    owner: Result<u128, ManagerError>,
    server: Option<&RawServerV1>,
    lent: Seq<CompetitionServer>,
    server_id: u32,
    competition_id: u32,
) -> Result<CompetitionServer, ManagerError> {
    if owner is Err {
        Err(owner->Err_0)
    } else if server is None {
        Err(ManagerError::ServerNotFound)
    } else if server->0.user_account_id != owner->Ok_0 {
        Err(ManagerError::NotServerOwner)
    } else if is_lent(lent, server_id, competition_id) {
        Err(ManagerError::ServerAlreadyLent)
    } else {
        Ok(CompetitionServer { competition_id, server_id })
    }
}

/// A server is lent to a competition at most once: once the row of a successful request is
/// stored, the same request is refused.
pub proof fn lemma_lent_once(
    owner: Result<u128, ManagerError>,
    server: Option<&RawServerV1>,
    lent: Seq<CompetitionServer>,
    server_id: u32,
    competition_id: u32,
)
    requires
        lend_raw_server_spec(owner, server, lent, server_id, competition_id) is Ok,
    ensures
        lend_raw_server_spec(
            owner,
            server,
            lent.push(lend_raw_server_spec(owner, server, lent, server_id, competition_id)->Ok_0),
            server_id,
            competition_id,
        ) == Err::<CompetitionServer, ManagerError>(ManagerError::ServerAlreadyLent),
{
    let rows = lent.push(CompetitionServer { competition_id, server_id });
    assert(rows[lent.len() as int] == CompetitionServer { competition_id, server_id });
}

/// A user lends a server of its own to a competition: the row to store. `owner` is the account
/// that the authorization for the competition gave, `server` the raw server that the store
/// found for `server_id` (none if it has none), `lent` the rows that lend the server.
pub fn lend_raw_server(
    owner: Result<u128, ManagerError>,
    server: Option<&RawServerV1>,
    lent: &Vec<CompetitionServer>,
    server_id: u32,
    competition_id: u32,
) -> (r: Result<CompetitionServer, ManagerError>)
    requires
        server matches Some(s) ==> s.id == server_id,
    ensures
        r == lend_raw_server_spec(owner, server, lent@, server_id, competition_id),
{
    let account_id = match owner {
        Ok(a) => a,
        Err(e) => {
            return Err(e);
        },
    };
    let server = match server {
        Some(s) => s,
        None => {
            return Err(ManagerError::ServerNotFound);
        },
    };
    if server.user_account_id != account_id {
        return Err(ManagerError::NotServerOwner);
    }
    if lent_to(lent, server_id, competition_id) {
        return Err(ManagerError::ServerAlreadyLent);
    }
    Ok(CompetitionServer { competition_id, server_id })
}

/// A user takes a lent server back: the row to delete. The owner of the server always may;
/// anybody else needs the authorization for the competition. `server` is the raw server that
/// the store found for `server_id` (none if it has none).
pub fn revoke_raw_server(
    user_account: Result<u128, ManagerError>,
    server: Option<&RawServerV1>,
    authorized: Result<u128, ManagerError>,
    server_id: u32,
    competition_id: u32,
) -> (r: Result<CompetitionServer, ManagerError>)
    requires
        server matches Some(s) ==> s.id == server_id,
    ensures
        user_account is Err ==> r == Err::<CompetitionServer, ManagerError>(user_account->Err_0),
        user_account is Ok && server is None ==> r == Err::<CompetitionServer, ManagerError>(
            ManagerError::ServerNotFound,
        ),
        user_account is Ok && server is Some && (server->0.user_account_id == user_account->Ok_0
            || authorized is Ok) ==> r == Ok::<CompetitionServer, ManagerError>(
            CompetitionServer { competition_id, server_id },
        ),
        user_account is Ok && server is Some && server->0.user_account_id != user_account->Ok_0
            && authorized is Err ==> r == Err::<CompetitionServer, ManagerError>(
            authorized->Err_0,
        ),
{
    let account_id = match user_account {
        Ok(a) => a,
        Err(e) => {
            return Err(e);
        },
    };
    let server = match server {
        Some(s) => s,
        None => {
            return Err(ManagerError::ServerNotFound);
        },
    };
    if server.user_account_id == account_id {
        return Ok(CompetitionServer { competition_id, server_id });
    }
    match authorized {
        Ok(_) => Ok(CompetitionServer { competition_id, server_id }),
        Err(e) => Err(e),
    }
}

/// The first server with the id.
pub open spec fn find_server(servers: Seq<RawServerV1>, id: u32) -> Option<RawServerV1>
    decreases servers.len(),
{
    if servers.len() == 0 {
        None
    } else if servers[0].id == id {
        Some(servers[0])
    } else {
        find_server(servers.drop_first(), id)
    }
}

/// Every server lent to the competition is stored.
pub open spec fn lent_servers_stored(
    lent: Seq<CompetitionServer>,
    servers: Seq<RawServerV1>,
    competition_id: u32,
) -> bool {
    forall|k: int|
        0 <= k < lent.len() && (#[trigger] lent[k]).competition_id == competition_id ==> find_server(
            servers,
            lent[k].server_id,
        ) is Some
}

/// The servers lent to the competition that are verified and unoccupied, in the order of the
/// rows that lend them.
pub open spec fn pool_available(
    lent: Seq<CompetitionServer>,
    servers: Seq<RawServerV1>,
    occs: Seq<RawServerOccupation>,
    competition_id: u32,
) -> Seq<RawServerV1>
    decreases lent.len(),
{
    if lent.len() == 0 {
        Seq::empty()
    } else {
        let rest = pool_available(lent.drop_last(), servers, occs, competition_id);
        let l = lent.last();
        let found = find_server(servers, l.server_id);
        if l.competition_id == competition_id && found is Some && found->0.verified && !occupied(
            occs,
            l.server_id,
        ) {
            rest.push(found->0)
        } else {
            rest
        }
    }
}

fn find_server_index(servers: &Vec<RawServerV1>, id: u32) -> (r: usize)
    requires
        find_server(servers@, id) is Some,
    ensures
        r < servers.len(),
        find_server(servers@, id) == Some(servers@[r as int]),
        servers@[r as int].id == id,
{
    let mut i: usize = 0;
    assert(servers@.subrange(0, servers@.len() as int) =~= servers@);
    while i < servers.len()
        invariant
            i <= servers.len(),
            find_server(servers@, id) is Some,
            find_server(servers@, id) == find_server(
                servers@.subrange(i as int, servers@.len() as int),
                id,
            ),
        decreases servers.len() - i,
    {
        assert(servers@.subrange(i as int, servers@.len() as int).drop_first() =~= servers@.subrange(
            i as int + 1,
            servers@.len() as int,
        ));
        if servers[i].id == id {
            return i;
        }
        i = i + 1;
    }
    i
}

/// The servers of the competition's pool that can be provisioned now.
pub fn server_pool_available(
    competition_id: u32,
    lent: &Vec<CompetitionServer>,
    servers: &Vec<RawServerV1>,
    occs: &Vec<RawServerOccupation>,
) -> (r: Vec<RawServerV1>)
    requires
        lent_servers_stored(lent@, servers@, competition_id),
    ensures
        r@ == pool_available(lent@, servers@, occs@, competition_id),
{
    let mut out: Vec<RawServerV1> = Vec::new();
    let mut i: usize = 0;
    while i < lent.len()
        invariant
            i <= lent.len(),
            lent_servers_stored(lent@, servers@, competition_id),
            out@ == pool_available(lent@.subrange(0, i as int), servers@, occs@, competition_id),
        decreases lent.len() - i,
    {
        let l = lent[i];
        assert(lent@.subrange(0, i + 1).drop_last() =~= lent@.subrange(0, i as int));
        if l.competition_id == competition_id {
            assert(lent@[i as int].competition_id == competition_id);
            let k = find_server_index(servers, l.server_id);
            let s = &servers[k];
            if s.is_verified() && !raw_server_is_occupied(occs, s.id) {
                out.push(s.copy_row());
            }
        }
        i = i + 1;
    }
    assert(lent@.subrange(0, lent@.len() as int) =~= lent@);
    out
}

/// The server found for an id has that id.
proof fn lemma_find_server_id(servers: Seq<RawServerV1>, id: u32)
    ensures
        find_server(servers, id) is Some ==> find_server(servers, id)->0.id == id,
    decreases servers.len(),
{
    if servers.len() > 0 && servers[0].id != id {
        lemma_find_server_id(servers.drop_first(), id);
    }
}

/// Every server of a competition's available pool is lent to the competition, is the stored
/// server of its id, is verified and is not occupied.
pub proof fn lemma_pool_available_sound(
    lent: Seq<CompetitionServer>,
    servers: Seq<RawServerV1>,
    occs: Seq<RawServerOccupation>,
    competition_id: u32,
)
    ensures
        forall|k: int|
            0 <= k < pool_available(lent, servers, occs, competition_id).len() ==> {
                let s = #[trigger] pool_available(lent, servers, occs, competition_id)[k];
                &&& is_lent(lent, s.id, competition_id)
                &&& find_server(servers, s.id) == Some(s)
                &&& s.verified
                &&& !occupied(occs, s.id)
            },
    decreases lent.len(),
{
    if lent.len() > 0 {
        let d = lent.drop_last();
        lemma_pool_available_sound(d, servers, occs, competition_id);
        let rest = pool_available(d, servers, occs, competition_id);
        let pool = pool_available(lent, servers, occs, competition_id);
        let l = lent.last();
        lemma_find_server_id(servers, l.server_id);
        assert forall|k: int| 0 <= k < pool.len() implies {
            let s = #[trigger] pool[k];
            &&& is_lent(lent, s.id, competition_id)
            &&& find_server(servers, s.id) == Some(s)
            &&& s.verified
            &&& !occupied(occs, s.id)
        } by {
            if k < rest.len() {
                let s = rest[k];
                assert(pool[k] == s);
                let j = choose|j: int|
                    0 <= j < d.len() && #[trigger] d[j] == (CompetitionServer {
                        competition_id,
                        server_id: s.id,
                    });
                assert(lent[j] == d[j]);
            } else {
                assert(lent[lent.len() - 1] == l);
            }
        }
    }
}

/// A server that a node is given from the pool is lent to the node's competition, is stored,
/// verified and not occupied.
pub proof fn lemma_pool_assign_sound(
    parent: Result<u32, ManagerError>,
    lent: Seq<CompetitionServer>,
    servers: Seq<RawServerV1>,
    occs: Seq<RawServerOccupation>,
)
    requires
        parent is Ok,
        pool_available(lent, servers, occs, parent->Ok_0).len() > 0,
    ensures
        ({
            let s = pool_available(lent, servers, occs, parent->Ok_0)[0];
            &&& is_lent(lent, s.id, parent->Ok_0)
            &&& find_server(servers, s.id) == Some(s)
            &&& s.verified
            &&& !occupied(occs, s.id)
        }),
{
    lemma_pool_available_sound(lent, servers, occs, parent->Ok_0);
}

/// A server for a node that needs one: the first available server of the competition that the
/// node belongs to, with the occupation to store. `parent` is the competition that the node
/// belongs to, as the store gave it.
pub fn raw_server_pool_assign(
    node_handle: NodeHandle,
    parent: Result<u32, ManagerError>,
    lent: &Vec<CompetitionServer>,
    servers: &Vec<RawServerV1>,
    occs: &Vec<RawServerOccupation>,
) -> (r: Result<RawServerOccupation, ManagerError>)
    requires
        splittable(node_handle),
        parent is Ok ==> lent_servers_stored(lent@, servers@, parent->Ok_0),
    ensures
        parent is Err ==> r == Err::<RawServerOccupation, ManagerError>(parent->Err_0),
        parent is Ok && pool_available(lent@, servers@, occs@, parent->Ok_0).len() == 0 ==> r == Err::<
            RawServerOccupation,
            ManagerError,
        >(ManagerError::NoServerAvailable),
        parent is Ok && pool_available(lent@, servers@, occs@, parent->Ok_0).len() > 0 ==> r == Ok::<
            RawServerOccupation,
            ManagerError,
        >(
            RawServerOccupation {
                server_id: pool_available(lent@, servers@, occs@, parent->Ok_0)[0].id,
                node_variant: split_spec(node_handle).0,
                node_id: split_spec(node_handle).1,
            },
        ),
{
    let competition_id = match parent {
        Ok(c) => c,
        Err(e) => {
            return Err(e);
        },
    };
    let available = server_pool_available(competition_id, lent, servers, occs);
    if available.len() == 0 {
        return Err(ManagerError::NoServerAvailable);
    }
    let server_id = available[0].id;
    Ok(RawServerOccupation::new(node_handle, server_id))
}

/// Where the configuration of a raw server comes from: the id of the configuration to load and
/// whether the server is open to everybody. `node` is the node that occupies the server, and
/// `tm_match` / `tm_server` the row of that node. Only matches and server nodes configure a
/// server.
pub fn server_config_source(
    node: Option<NodeHandle>,
    tm_match: Option<&TmMatchV1>,
    tm_server: Option<&TmServerV1>,
) -> (r: Option<(u32, bool)>)
    requires
        node matches Some(NodeHandle::MatchV1(_)) ==> tm_match is Some && has_config(
            tm_match->0.status,
        ),
        node matches Some(NodeHandle::ServerV1(_)) ==> tm_server is Some,
    ensures
        r == (match node {
            Some(NodeHandle::MatchV1(_)) => Some((config_id_spec(*tm_match->0), tm_match->0.open)),
            Some(NodeHandle::ServerV1(_)) => Some((tm_server->0.config, tm_server->0.open)),
            _ => None,
        }),
{
    match node {
        Some(NodeHandle::MatchV1(_)) => {
            let m = tm_match.unwrap();
            Some((m.get_config_id(), m.is_open()))
        },
        Some(NodeHandle::ServerV1(_)) => {
            let s = tm_server.unwrap();
            Some((s.get_config_id(), s.is_open()))
        },
        _ => None,
    }
}

/// The match that receives the events a server posts: the node that occupies the server, where
/// it is a match that the store found (`tm_match`, the row of the occupying match) and that is
/// live.
pub fn event_match_target(occupier: Option<NodeHandle>, tm_match: Option<&TmMatchV1>) -> (r: Option<u32>)
    requires
        occupier matches Some(NodeHandle::MatchV1(i)) ==> (tm_match matches Some(m) ==> m.id == i),
    ensures
        r == (if occupier matches Some(NodeHandle::MatchV1(_)) && tm_match is Some
            && tm_match->0.status == crate::tm_match::MatchStatus::Live {
            Some(tm_match->0.id)
        } else {
            None
        }),
{
    match occupier {
        Some(node) => {
            if node.is_match() {
                match tm_match {
                    Some(m) => {
                        if m.is_live() {
                            return Some(m.id);
                        }
                    },
                    None => {},
                }
            }
            None
        },
        None => None,
    }
}

/// Whether a server may post a round replay: it must be a known server (`server`) that a node
/// occupies (`occupier`).
pub fn post_round_replay(server: Option<&RawServerV1>, occupier: Option<NodeHandle>) -> (r: Result<
    (),
    ManagerError,
>)
    ensures
        server is None ==> r == Err::<(), ManagerError>(ManagerError::NotAServer),
        server is Some && occupier is None ==> r == Err::<(), ManagerError>(
            ManagerError::ServerNotOccupied,
        ),
        server is Some && occupier is Some ==> r == Ok::<(), ManagerError>(()),
{
    if server.is_none() {
        return Err(ManagerError::NotAServer);
    }
    if occupier.is_none() {
        return Err(ManagerError::ServerNotOccupied);
    }
    Ok(())
}

} // verus!
