use vstd::prelude::*;

use crate::raw_server::{RawServerV1, find_server};
use crate::user::UserIdsMap;

verus! {

/// A player (all players where `user_id` is 0) that is to move to a server of a competition.
#[derive(Debug, PartialEq, Eq, Clone, Copy, Structural)]
pub struct TabPlayerDestination {
    pub competition_id: u32,
    pub match_id: u32,
    /// The raw server the player is to join.
    pub destination_server_id: u32,
    pub user_id: u32,
}

/// Where a server sends a player: the account of the player (`u128::MAX` for every player)
/// and the server account it joins.
#[derive(Debug, PartialEq, Eq, Clone, Copy, Structural)]
pub struct PlayerDestination {
    pub account_id: u128,
    pub server_account_id: u128,
}

/// The account of the first map row of the user.
pub open spec fn account_of_user(maps: Seq<UserIdsMap>, user_id: u32) -> Option<u128>
    decreases maps.len(),
{
    if maps.len() == 0 {
        None
    } else if maps[0].user_id == user_id {
        Some(maps[0].account_id)
    } else {
        account_of_user(maps.drop_first(), user_id)
    }
}

/// The rows that move players of the competition away from the server `this_server`.
pub open spec fn leaves(row: TabPlayerDestination, competition_id: u32, this_server: u32) -> bool {
    row.competition_id == competition_id && row.destination_server_id != this_server
}

/// The destination that a row gives.
pub open spec fn destination_of(
    row: TabPlayerDestination,
    maps: Seq<UserIdsMap>,
    servers: Seq<RawServerV1>,
) -> PlayerDestination {
    PlayerDestination {
        account_id: if row.user_id == 0 {
            u128::MAX
        } else {
            account_of_user(maps, row.user_id)->0
        },
        server_account_id: find_server(servers, row.destination_server_id)->0.server_account_id,
    }
}

/// Every row that moves players away from the server names a stored server, and a user with
/// an account unless it moves everybody.
pub open spec fn destinations_resolvable(
    rows: Seq<TabPlayerDestination>,
    competition_id: u32,
    this_server: u32,
    maps: Seq<UserIdsMap>,
    servers: Seq<RawServerV1>,
) -> bool {
    forall|k: int|
        0 <= k < rows.len() && leaves(#[trigger] rows[k], competition_id, this_server) ==> {
            &&& find_server(servers, rows[k].destination_server_id) is Some
            &&& rows[k].user_id != 0 ==> account_of_user(maps, rows[k].user_id) is Some
        }
}

/// The destinations of the rows that move players away from the server, in row order.
pub open spec fn destinations(
    rows: Seq<TabPlayerDestination>,
    competition_id: u32,
    this_server: u32,
    maps: Seq<UserIdsMap>,
    servers: Seq<RawServerV1>,
) -> Seq<PlayerDestination>
    decreases rows.len(),
{
    if rows.len() == 0 {
        Seq::empty()
    } else {
        let rest = destinations(rows.drop_last(), competition_id, this_server, maps, servers);
        if leaves(rows.last(), competition_id, this_server) {
            rest.push(destination_of(rows.last(), maps, servers))
        } else {
            rest
        }
    }
}

/// The rows of the competition `competition_id` whose destination is a server other than
/// `this_server`.
pub open spec fn sends_away(competition_id: u32, this_server: u32) -> spec_fn(TabPlayerDestination) -> bool {
    |row: TabPlayerDestination| row.competition_id == competition_id && row.destination_server_id != this_server
}

/// Each row of the competition that sends players to another server gives one destination, in
/// row order, and no other row gives one: the account of the row's user (every account where
/// the row names no user) and the server account of the destination server.
pub proof fn lemma_destinations_follow_rows(
    rows: Seq<TabPlayerDestination>,
    competition_id: u32,
    this_server: u32,
    maps: Seq<UserIdsMap>,
    servers: Seq<RawServerV1>,
)
    ensures
        ({
            let out = destinations(rows, competition_id, this_server, maps, servers);
            let away = rows.filter(sends_away(competition_id, this_server));
            &&& out.len() == away.len()
            &&& forall|i: int| 0 <= i < out.len() ==> (#[trigger] out[i]).server_account_id == find_server(
                servers,
                away[i].destination_server_id,
            )->0.server_account_id && out[i].account_id == (if away[i].user_id == 0 {
                u128::MAX
            } else {
                account_of_user(maps, away[i].user_id)->0
            })
        }),
    decreases rows.len(),
{
    if rows.len() > 0 {
        let d = rows.drop_last();
        lemma_destinations_follow_rows(d, competition_id, this_server, maps, servers);
        assert(rows =~= d.push(rows.last()));
        d.lemma_filter_push(rows.last(), sends_away(competition_id, this_server));
    }
}

fn account_lookup(maps: &Vec<UserIdsMap>, user_id: u32) -> (r: u128)
    requires
        account_of_user(maps@, user_id) is Some,
    ensures
        r == account_of_user(maps@, user_id)->0,
{
    let mut i: usize = 0;
    assert(maps@.subrange(0, maps@.len() as int) =~= maps@);
    while i < maps.len()
        invariant
            i <= maps.len(),
            account_of_user(maps@, user_id) is Some,
            account_of_user(maps@, user_id) == account_of_user(
                maps@.subrange(i as int, maps@.len() as int),
                user_id,
            ),
        decreases maps.len() - i,
    {
        assert(maps@.subrange(i as int, maps@.len() as int).drop_first() =~= maps@.subrange(
            i as int + 1,
            maps@.len() as int,
        ));
        if maps[i].user_id == user_id {
            return maps[i].account_id;
        }
        i = i + 1;
    }
    0
}

fn server_account_lookup(servers: &Vec<RawServerV1>, id: u32) -> (r: u128)
    requires
        find_server(servers@, id) is Some,
    ensures
        r == find_server(servers@, id)->0.server_account_id,
{
    let mut i: usize = 0;
    assert(servers@.subrange(0, servers@.len() as int) =~= servers@);
    while i < servers.len()
        invariant
            i <= servers.len(),
            find_server(servers@, id) is Some,
            find_server(servers@, id) == find_server(
                servers@.subrange(i as int, servers@.len() as int),
                id,
            ),
        decreases servers.len() - i,
    {
        assert(servers@.subrange(i as int, servers@.len() as int).drop_first() =~= servers@.subrange(
            i as int + 1,
            servers@.len() as int,
        ));
        if servers[i].id == id {
            return servers[i].server_account_id;
        }
        i = i + 1;
    }
    0
}

/// The players that the server `this_server` is to send away, and where: the rows of the
/// competition that the server's node belongs to whose destination is another server. Empty
/// where the server has no such competition (`None`).
pub fn raw_server_player_destination(
    this_server: u32,
    competition_id: Option<u32>,
    rows: &Vec<TabPlayerDestination>,
    maps: &Vec<UserIdsMap>,
    servers: &Vec<RawServerV1>,
) -> (r: Vec<PlayerDestination>)
    requires
        competition_id is Some ==> destinations_resolvable(
            rows@,
            competition_id->0,
            this_server,
            maps@,
            servers@,
        ),
    ensures
        competition_id is None ==> r@.len() == 0,
        competition_id is Some ==> r@ == destinations(
            rows@,
            competition_id->0,
            this_server,
            maps@,
            servers@,
        ),
{
    let competition_id = match competition_id {
        Some(c) => c,
        None => {
            return Vec::new();
        },
    };
    let mut out: Vec<PlayerDestination> = Vec::new();
    let mut i: usize = 0;
    while i < rows.len()
        invariant
            i <= rows.len(),
            destinations_resolvable(rows@, competition_id, this_server, maps@, servers@),
            out@ == destinations(
                rows@.subrange(0, i as int),
                competition_id,
                this_server,
                maps@,
                servers@,
            ),
        decreases rows.len() - i,
    {
        let row = rows[i];
        assert(rows@.subrange(0, i + 1).drop_last() =~= rows@.subrange(0, i as int));
        if row.competition_id == competition_id && row.destination_server_id != this_server {
            assert(leaves(rows@[i as int], competition_id, this_server));
            let account_id = if row.user_id == 0 {
                u128::MAX
            } else {
                account_lookup(maps, row.user_id)
            };
            let server_account_id = server_account_lookup(servers, row.destination_server_id);
            out.push(PlayerDestination { account_id, server_account_id });
        }
        i = i + 1;
    }
    assert(rows@.subrange(0, rows@.len() as int) =~= rows@);
    out
}

} // verus!
