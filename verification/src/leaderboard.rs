use vstd::prelude::*;

use std::collections::HashMap;

use crate::match_state::{PlayerAction, TabMatchRoundPlayerExt};
use crate::user::UserV1;

verus! {

broadcast use {vstd::seq_lib::to_multiset_insert, vstd::seq_lib::to_multiset_build};

/// The result of one player in one round of a match.
#[derive(Debug, PartialEq, Eq, Clone, Copy, Structural)]
pub struct TabMatchRoundPlayer {
    pub id: u32,
    pub user_id: u32,
    pub match_id: u32,
    pub time: i32,
    /// The points of the round.
    pub points: i32,
    pub round: u16,
}

impl TabMatchRoundPlayer {
    pub fn new(match_id: u32, user_id: u32, round: u16) -> (r: Self)
        ensures
            r == (TabMatchRoundPlayer { id: 0, user_id, match_id, time: 0, points: 0, round }),
    {
        Self { user_id, match_id, round, time: 0, points: 0, id: 0 }
    }

    pub fn set_time(&mut self, points: i32)
        ensures
            *final(self) == (TabMatchRoundPlayer { time: points, ..*old(self) }),
    {
        self.time = points;
    }

    pub fn set_points(&mut self, points: i32)
        ensures
            *final(self) == (TabMatchRoundPlayer { points, ..*old(self) }),
    {
        self.points = points;
    }
}

/// A line of a leaderboard as clients see it.
#[derive(Debug, PartialEq, Eq, Clone, Copy, Structural)]
pub struct MatchRoundPlayer {
    pub account_id: u128,
    pub id: u32,
    pub match_id: u32,
    pub time: i32,
    pub score: i32,
    pub round: u16,
    pub position: u16,
}

/// The row `acc` of a player after adding the round result `e` of the same player: the
/// points add up, and the latest round (and its row id) is kept.
pub open spec fn merge_round(acc: TabMatchRoundPlayer, e: TabMatchRoundPlayer) -> TabMatchRoundPlayer {
    TabMatchRoundPlayer {
        points: (acc.points + e.points) as i32,
        round: if e.round > acc.round { e.round } else { acc.round },
        id: if e.round > acc.round { e.id } else { acc.id },
        ..acc
    }
}

/// Some row of `s` belongs to the user.
pub open spec fn has_user(s: Seq<TabMatchRoundPlayer>, user_id: u32) -> bool {
    exists|i: int| 0 <= i < s.len() && (#[trigger] s[i]).user_id == user_id
}

/// The position of the user's row in `s`.
pub open spec fn user_pos(s: Seq<TabMatchRoundPlayer>, user_id: u32) -> int {
    choose|i: int| 0 <= i < s.len() && (#[trigger] s[i]).user_id == user_id
}

/// One row per user, in the order in which the users first appear in `entries`, holding the
/// sum of the user's points and the latest of the user's rounds.
pub open spec fn accumulate(entries: Seq<TabMatchRoundPlayer>) -> Seq<TabMatchRoundPlayer>
    decreases entries.len(),
{
    if entries.len() == 0 {
        Seq::empty()
    } else {
        let prev = accumulate(entries.drop_last());
        let e = entries.last();
        if has_user(prev, e.user_id) {
            let i = user_pos(prev, e.user_id);
            prev.update(i, merge_round(prev[i], e))
        } else {
            prev.push(e)
        }
    }
}

/// No two rows of `s` belong to the same user.
pub open spec fn users_distinct(s: Seq<TabMatchRoundPlayer>) -> bool {
    forall|i: int, j: int| 0 <= i < s.len() && 0 <= j < s.len() && i != j ==> (#[trigger] s[i]).user_id != (#[trigger] s[j]).user_id
}

/// Adding up the entries one after the other stays within the range of `i32`.
pub open spec fn points_fit(entries: Seq<TabMatchRoundPlayer>) -> bool {
    forall|k: int| 0 <= k < entries.len() ==> {
        let prev = #[trigger] accumulate(entries.take(k));
        has_user(prev, entries[k].user_id) ==> i32::MIN <= prev[user_pos(prev, entries[k].user_id)].points + entries[k].points <= i32::MAX
    }
}

proof fn lemma_accumulate_distinct(entries: Seq<TabMatchRoundPlayer>)
    ensures
        users_distinct(accumulate(entries)),
    decreases entries.len(),
{
    if entries.len() > 0 {
        lemma_accumulate_distinct(entries.drop_last());
        let prev = accumulate(entries.drop_last());
        let e = entries.last();
        if has_user(prev, e.user_id) {
            let i = user_pos(prev, e.user_id);
            let next = prev.update(i, merge_round(prev[i], e));
            assert forall|a: int, b: int| 0 <= a < next.len() && 0 <= b < next.len() && a != b implies (#[trigger] next[a]).user_id
                != (#[trigger] next[b]).user_id by {
                assert(next[a].user_id == prev[a].user_id);
                assert(next[b].user_id == prev[b].user_id);
            }
        } else {
            let next = prev.push(e);
            assert forall|a: int, b: int| 0 <= a < next.len() && 0 <= b < next.len() && a != b implies (#[trigger] next[a]).user_id
                != (#[trigger] next[b]).user_id by {
                if a < prev.len() && b < prev.len() {
                    assert(next[a] == prev[a]);
                    assert(next[b] == prev[b]);
                } else if a < prev.len() {
                    assert(next[a] == prev[a]);
                } else if b < prev.len() {
                    assert(next[b] == prev[b]);
                }
            }
        }
    }
}

/// The points of the user's rows, added up.
pub open spec fn user_points(s: Seq<TabMatchRoundPlayer>, user_id: u32) -> int
    decreases s.len(),
{
    if s.len() == 0 {
        0
    } else {
        user_points(s.drop_last(), user_id) + if s.last().user_id == user_id {
            s.last().points as int
        } else {
            0
        }
    }
}

proof fn lemma_user_points_absent(s: Seq<TabMatchRoundPlayer>, user_id: u32)
    requires
        !has_user(s, user_id),
    ensures
        user_points(s, user_id) == 0,
    decreases s.len(),
{
    if s.len() > 0 {
        let d = s.drop_last();
        assert(!has_user(d, user_id)) by {
            if has_user(d, user_id) {
                let i = choose|i: int| 0 <= i < d.len() && (#[trigger] d[i]).user_id == user_id;
                assert(s[i] == d[i]);
            }
        }
        lemma_user_points_absent(d, user_id);
        assert(s[s.len() - 1].user_id != user_id);
    }
}

proof fn lemma_points_fit_prefix(entries: Seq<TabMatchRoundPlayer>)
    requires
        points_fit(entries),
        entries.len() > 0,
    ensures
        points_fit(entries.drop_last()),
{
    let d = entries.drop_last();
    assert forall|k: int| 0 <= k < d.len() implies {
        let prev = #[trigger] accumulate(d.take(k));
        has_user(prev, d[k].user_id) ==> i32::MIN <= prev[user_pos(prev, d[k].user_id)].points
            + d[k].points <= i32::MAX
    } by {
        assert(d.take(k) =~= entries.take(k));
        assert(d[k] == entries[k]);
        let prev = accumulate(entries.take(k));
        assert(has_user(prev, entries[k].user_id) ==> i32::MIN <= prev[user_pos(
            prev,
            entries[k].user_id,
        )].points + entries[k].points <= i32::MAX);
    }
}

/// In a sequence without repeated users, the user's row is the one at `i`.
proof fn lemma_user_pos_unique(s: Seq<TabMatchRoundPlayer>, user_id: u32, i: int)
    requires
        users_distinct(s),
        0 <= i < s.len(),
        s[i].user_id == user_id,
    ensures
        has_user(s, user_id),
        user_pos(s, user_id) == i,
{
    assert(has_user(s, user_id));
    let c = user_pos(s, user_id);
    if c != i {
        assert(s[c].user_id == s[i].user_id);
    }
}

/// Accumulating the round results gives a row exactly for each user that has a result, and
/// that row holds the sum of the user's points over all the results.
pub proof fn lemma_accumulate_sums(entries: Seq<TabMatchRoundPlayer>)
    requires
        points_fit(entries),
    ensures
        forall|u: u32| #[trigger] has_user(accumulate(entries), u) <==> has_user(entries, u),
        forall|u: u32|
            #[trigger] has_user(entries, u) ==> accumulate(entries)[user_pos(accumulate(entries), u)].points
                == user_points(entries, u),
    decreases entries.len(),
{
    if entries.len() > 0 {
        let d = entries.drop_last();
        let e = entries.last();
        lemma_points_fit_prefix(entries);
        lemma_accumulate_sums(d);
        lemma_accumulate_distinct(d);
        lemma_accumulate_distinct(entries);
        let prev = accumulate(d);
        let next = accumulate(entries);
        assert(entries.take(entries.len() - 1) =~= d);
        assert forall|u: u32| #[trigger] has_user(entries, u) <==> (has_user(d, u) || e.user_id == u) by {
            if has_user(entries, u) {
                let i = choose|i: int| 0 <= i < entries.len() && (#[trigger] entries[i]).user_id == u;
                if i < d.len() {
                    assert(d[i] == entries[i]);
                }
            }
            if has_user(d, u) {
                let i = choose|i: int| 0 <= i < d.len() && (#[trigger] d[i]).user_id == u;
                assert(entries[i] == d[i]);
            }
            if e.user_id == u {
                assert(entries[entries.len() - 1].user_id == u);
            }
        }
        if has_user(prev, e.user_id) {
            let i = user_pos(prev, e.user_id);
            assert(next == prev.update(i, merge_round(prev[i], e)));
            assert forall|u: u32| #[trigger] has_user(next, u) <==> has_user(entries, u) by {
                if has_user(next, u) {
                    let j = choose|j: int| 0 <= j < next.len() && (#[trigger] next[j]).user_id == u;
                    assert(prev[j].user_id == u);
                }
                if has_user(prev, u) {
                    let j = choose|j: int| 0 <= j < prev.len() && (#[trigger] prev[j]).user_id == u;
                    assert(next[j].user_id == u);
                }
            }
            assert forall|u: u32| #[trigger] has_user(entries, u) implies next[user_pos(next, u)].points
                == user_points(entries, u) by {
                let j = user_pos(prev, u);
                assert(has_user(prev, u));
                assert(next[j].user_id == u);
                lemma_user_pos_unique(next, u, j);
                if u == e.user_id {
                    assert(j == i);
                } else {
                    assert(next[j] == prev[j]);
                }
            }
        } else {
            assert(next == prev.push(e));
            assert forall|u: u32| #[trigger] has_user(next, u) <==> has_user(entries, u) by {
                if has_user(next, u) {
                    let j = choose|j: int| 0 <= j < next.len() && (#[trigger] next[j]).user_id == u;
                    if j < prev.len() {
                        assert(prev[j].user_id == u);
                    }
                }
                if has_user(prev, u) {
                    let j = choose|j: int| 0 <= j < prev.len() && (#[trigger] prev[j]).user_id == u;
                    assert(next[j].user_id == u);
                }
                if u == e.user_id {
                    assert(next[prev.len() as int].user_id == u);
                }
            }
            assert forall|u: u32| #[trigger] has_user(entries, u) implies next[user_pos(next, u)].points
                == user_points(entries, u) by {
                if u == e.user_id {
                    lemma_user_pos_unique(next, u, prev.len() as int);
                    lemma_user_points_absent(d, u);
                } else {
                    let j = user_pos(prev, u);
                    assert(has_user(prev, u));
                    assert(next[j] == prev[j]);
                    lemma_user_pos_unique(next, u, j);
                }
            }
        }
    }
}

/// The standings of a match: the round results of each player added up into one row per
/// player, in the order in which the players first appear.
pub fn accumulate_rounds(entries: &Vec<TabMatchRoundPlayer>) -> (r: Vec<TabMatchRoundPlayer>)
    requires
        points_fit(entries@),
    ensures
        r@ == accumulate(entries@),
        users_distinct(r@),
{
    broadcast use vstd::std_specs::hash::group_hash_axioms;

    let mut out: Vec<TabMatchRoundPlayer> = Vec::new();
    // Where each user's row stands in `out`.
    let mut index: HashMap<u32, usize> = HashMap::new();
    let mut k: usize = 0;
    while k < entries.len()
        invariant
            k <= entries.len(),
            points_fit(entries@),
            out@ == accumulate(entries@.take(k as int)),
            forall|u: u32| #[trigger] index@.contains_key(u) <==> has_user(out@, u),
            forall|u: u32| #[trigger] index@.contains_key(u) ==> index@[u] < out@.len() && out@[index@[u] as int].user_id == u,
        decreases entries.len() - k,
    {
        let e = entries[k];
        proof {
            lemma_accumulate_distinct(entries@.take(k as int));
            assert(entries@.take(k + 1).drop_last() =~= entries@.take(k as int));
            assert(entries@.take(k + 1).last() == e);
        }
        let found_at: Option<usize> = match index.get(&e.user_id) {
            Some(i) => Some(*i),
            None => None,
        };
        proof {
            if index@.contains_key(e.user_id) {
                assert(found_at == Some(index@[e.user_id]));
            }
        }
        let ghost prev = out@;
        if let Some(i) = found_at {
            proof {
                assert(has_user(prev, e.user_id));
                let c = user_pos(prev, e.user_id);
                if c != i as int {
                    assert(prev[c].user_id == prev[i as int].user_id);
                }
                assert(user_pos(prev, e.user_id) == i as int);
                assert(0 <= k < entries@.len());
                assert(accumulate(entries@.take(k as int)) == prev);
            }
            let a = out[i];
            let merged = TabMatchRoundPlayer {
                points: a.points + e.points,
                round: if e.round > a.round { e.round } else { a.round },
                id: if e.round > a.round { e.id } else { a.id },
                ..a
            };
            out.set(i, merged);
            proof {
                assert forall|u: u32| has_user(out@, u) <==> has_user(prev, u) by {
                    if has_user(prev, u) {
                        let j = choose|j: int| 0 <= j < prev.len() && (#[trigger] prev[j]).user_id == u;
                        assert(out@[j].user_id == u);
                    }
                    if has_user(out@, u) {
                        let j = choose|j: int| 0 <= j < out@.len() && (#[trigger] out@[j]).user_id == u;
                        assert(prev[j].user_id == u);
                    }
                }
            }
        } else {
            proof {
                assert(!has_user(prev, e.user_id));
            }
            index.insert(e.user_id, out.len());
            out.push(e);
            proof {
                assert(out@[prev.len() as int] == e);
                assert forall|u: u32| has_user(out@, u) <==> (has_user(prev, u) || u == e.user_id) by {
                    if has_user(prev, u) {
                        let j = choose|j: int| 0 <= j < prev.len() && (#[trigger] prev[j]).user_id == u;
                        assert(out@[j].user_id == u);
                    }
                    if has_user(out@, u) {
                        let j = choose|j: int| 0 <= j < out@.len() && (#[trigger] out@[j]).user_id == u;
                        if j < prev.len() {
                            assert(prev[j].user_id == u);
                        }
                    }
                }
                assert forall|u: u32| #[trigger] index@.contains_key(u) ==> index@[u] < out@.len()
                    && out@[index@[u] as int].user_id == u by {
                    if index@.contains_key(u) && u != e.user_id {
                        assert(out@[index@[u] as int] == prev[index@[u] as int]);
                    }
                }
            }
        }
        k = k + 1;
    }
    assert(entries@.take(entries.len() as int) =~= entries@);
    proof {
        lemma_accumulate_distinct(entries@);
    }
    out
}

/// The row that accumulating gives a user holds the user's latest round, with the row id of a
/// result of that round: some result of the user has that round and id, and no result of the
/// user has a later round.
pub proof fn lemma_accumulate_latest_round(entries: Seq<TabMatchRoundPlayer>)
    requires
        points_fit(entries),
    ensures
        forall|u: u32| #[trigger] has_user(entries, u) ==> {
            let row = accumulate(entries)[user_pos(accumulate(entries), u)];
            &&& row.user_id == u
            &&& exists|i: int| 0 <= i < entries.len() && (#[trigger] entries[i]).user_id == u && entries[i].round == row.round
                && entries[i].id == row.id
            &&& forall|i: int| 0 <= i < entries.len() && (#[trigger] entries[i]).user_id == u ==> entries[i].round <= row.round
        },
    decreases entries.len(),
{
    lemma_accumulate_sums(entries);
    lemma_accumulate_distinct(entries);
    if entries.len() > 0 {
        let d = entries.drop_last();
        let e = entries.last();
        let last = entries.len() - 1;
        lemma_points_fit_prefix(entries);
        lemma_accumulate_latest_round(d);
        lemma_accumulate_sums(d);
        lemma_accumulate_distinct(d);
        let prev = accumulate(d);
        let next = accumulate(entries);
        assert(entries.take(entries.len() - 1) =~= d);
        assert(entries[last] == e);
        assert forall|i: int| 0 <= i < d.len() implies #[trigger] entries[i] == d[i] by {}
        assert forall|u: u32| #[trigger] has_user(entries, u) implies {
            let row = next[user_pos(next, u)];
            &&& row.user_id == u
            &&& exists|i: int| 0 <= i < entries.len() && (#[trigger] entries[i]).user_id == u && entries[i].round == row.round
                && entries[i].id == row.id
            &&& forall|i: int| 0 <= i < entries.len() && (#[trigger] entries[i]).user_id == u ==> entries[i].round <= row.round
        } by {
            let row = next[user_pos(next, u)];
            assert(has_user(next, u));
            if has_user(d, u) {
                assert(has_user(prev, u));
                let j = user_pos(prev, u);
                let w = choose|i: int| 0 <= i < d.len() && (#[trigger] d[i]).user_id == u && d[i].round == prev[j].round
                    && d[i].id == prev[j].id;
                if u == e.user_id {
                    assert(next == prev.update(j, merge_round(prev[j], e)));
                    assert(next[j].user_id == u);
                    lemma_user_pos_unique(next, u, j);
                    if e.round > prev[j].round {
                        assert(entries[last].user_id == u && entries[last].round == row.round && entries[last].id == row.id);
                    } else {
                        assert(entries[w].user_id == u && entries[w].round == row.round && entries[w].id == row.id);
                    }
                    assert forall|i: int| 0 <= i < entries.len() && (#[trigger] entries[i]).user_id == u implies entries[i].round
                        <= row.round by {
                        if i < d.len() {
                            assert(d[i].user_id == u);
                        }
                    }
                } else {
                    if has_user(prev, e.user_id) {
                        let i0 = user_pos(prev, e.user_id);
                        assert(next == prev.update(i0, merge_round(prev[i0], e)));
                        assert(i0 != j);
                    } else {
                        assert(next == prev.push(e));
                    }
                    assert(next[j] == prev[j]);
                    lemma_user_pos_unique(next, u, j);
                    assert(entries[w].user_id == u && entries[w].round == row.round && entries[w].id == row.id);
                    assert forall|i: int| 0 <= i < entries.len() && (#[trigger] entries[i]).user_id == u implies entries[i].round
                        <= row.round by {
                        if i < d.len() {
                            assert(d[i].user_id == u);
                        }
                    }
                }
            } else {
                assert(u == e.user_id) by {
                    let i = choose|i: int| 0 <= i < entries.len() && (#[trigger] entries[i]).user_id == u;
                    if i < d.len() {
                        assert(d[i].user_id == u);
                    }
                }
                assert(!has_user(prev, u));
                assert(next == prev.push(e));
                assert(next[prev.len() as int].user_id == u);
                lemma_user_pos_unique(next, u, prev.len() as int);
                assert(entries[last].user_id == u && entries[last].round == row.round && entries[last].id == row.id);
                assert forall|i: int| 0 <= i < entries.len() && (#[trigger] entries[i]).user_id == u implies entries[i].round
                    <= row.round by {
                    if i < d.len() {
                        assert(d[i].user_id == u);
                        assert(has_user(d, u));
                    }
                }
            }
        }
    }
}

/// Scores never fall along `s`.
pub open spec fn ascending_scores(s: Seq<MatchRoundPlayer>) -> bool {
    forall|i: int, j: int| 0 <= i <= j < s.len() ==> (#[trigger] s[i]).score <= (#[trigger] s[j]).score
}

/// `s` with every position cleared.
pub open spec fn without_positions(s: Seq<MatchRoundPlayer>) -> Seq<MatchRoundPlayer> {
    s.map_values(|p: MatchRoundPlayer| MatchRoundPlayer { position: 0, ..p })
}

/// The lines with the score `v`.
pub open spec fn scoring(v: i32) -> spec_fn(MatchRoundPlayer) -> bool {
    |p: MatchRoundPlayer| p.score == v
}

proof fn lemma_filter_none<A>(s: Seq<A>, pred: spec_fn(A) -> bool)
    requires
        forall|j: int| 0 <= j < s.len() ==> !pred(#[trigger] s[j]),
    ensures
        s.filter(pred) == Seq::<A>::empty(),
    decreases s.len(),
{
    reveal(Seq::filter);
    if s.len() > 0 {
        let d = s.drop_last();
        assert forall|j: int| 0 <= j < d.len() implies !pred(#[trigger] d[j]) by {
            assert(d[j] == s[j]);
        }
        lemma_filter_none(d, pred);
        assert(!pred(s[s.len() - 1]));
    }
}

/// Inserting `x` at `p`, where no line after `p` passes the filter if `x` does, adds `x` at
/// the end of the filtered lines (if it passes).
pub(crate) proof fn lemma_filter_insert<A>(s: Seq<A>, p: int, x: A, pred: spec_fn(A) -> bool)
    requires
        0 <= p <= s.len(),
        pred(x) ==> forall|j: int| p <= j < s.len() ==> !pred(#[trigger] s[j]),
    ensures
        s.insert(p, x).filter(pred) == (if pred(x) {
            s.filter(pred).push(x)
        } else {
            s.filter(pred)
        }),
{
    reveal(Seq::filter);
    let a = s.subrange(0, p);
    let b = s.subrange(p, s.len() as int);
    let one = seq![x];
    assert(s.insert(p, x) =~= a + one + b);
    assert(s =~= a + b);
    Seq::filter_distributes_over_add(a + one, b, pred);
    Seq::filter_distributes_over_add(a, one, pred);
    Seq::filter_distributes_over_add(a, b, pred);
    assert(one.drop_last() =~= Seq::<A>::empty());
    assert(Seq::<A>::empty().filter(pred) =~= Seq::<A>::empty());
    assert(one.last() == x);
    if pred(x) {
        assert forall|j: int| 0 <= j < b.len() implies !pred(#[trigger] b[j]) by {
            assert(b[j] == s[p + j]);
        }
        lemma_filter_none(b, pred);
        assert(s.filter(pred) =~= a.filter(pred));
        assert(one.filter(pred) =~= seq![x]);
    } else {
        assert(one.filter(pred) =~= Seq::<A>::empty());
    }
}

/// Orders the lines by ascending score, keeping the order of lines with equal scores, and
/// numbers them from 1 (the number is cut to 16 bits).
pub fn rank_by_score(lines: Vec<MatchRoundPlayer>) -> (r: Vec<MatchRoundPlayer>)
    ensures
        r@.len() == lines@.len(),
        ascending_scores(r@),
        without_positions(r@).to_multiset() == without_positions(lines@).to_multiset(),
        forall|v: i32| #[trigger] without_positions(r@).filter(scoring(v)) == without_positions(lines@).filter(scoring(v)),
        forall|i: int| 0 <= i < r@.len() ==> (#[trigger] r@[i]).position == (i + 1) as u16,
{
    let mut sorted: Vec<MatchRoundPlayer> = Vec::new();
    assert(sorted@ =~= without_positions(lines@.take(0)));
    let mut k: usize = 0;
    while k < lines.len()
        invariant
            k <= lines.len(),
            sorted@.len() == k,
            ascending_scores(sorted@),
            forall|i: int| 0 <= i < sorted@.len() ==> (#[trigger] sorted@[i]).position == 0,
            sorted@.to_multiset() == without_positions(lines@.take(k as int)).to_multiset(),
            forall|v: i32| #[trigger] sorted@.filter(scoring(v)) == without_positions(lines@.take(k as int)).filter(scoring(v)),
        decreases lines.len() - k,
    {
        let x = MatchRoundPlayer { position: 0, ..lines[k] };
        let mut p: usize = 0;
        while p < sorted.len() && sorted[p].score <= x.score
            invariant
                p <= sorted.len(),
                forall|j: int| 0 <= j < p ==> (#[trigger] sorted@[j]).score <= x.score,
            decreases sorted.len() - p,
        {
            p = p + 1;
        }
        let ghost before = sorted@;
        sorted.insert(p, x);
        proof {
            assert(sorted@ == before.insert(p as int, x));
            assert forall|i: int, j: int| 0 <= i <= j < sorted@.len() implies (#[trigger] sorted@[i]).score
                <= (#[trigger] sorted@[j]).score by {
                if i < p && j < p {
                    assert(sorted@[i] == before[i] && sorted@[j] == before[j]);
                } else if i < p && j == p {
                } else if i < p {
                    assert(sorted@[i] == before[i] && sorted@[j] == before[j - 1]);
                } else if i == p && j == p {
                } else if i == p {
                    assert(sorted@[j] == before[j - 1]);
                    assert(before[p as int].score > x.score);
                    assert(before[p as int].score <= before[j - 1].score);
                } else {
                    assert(sorted@[i] == before[i - 1] && sorted@[j] == before[j - 1]);
                }
            }
            assert(without_positions(lines@.take(k + 1)) =~= without_positions(lines@.take(k as int)).push(x));
            assert forall|v: i32| #[trigger] sorted@.filter(scoring(v)) == without_positions(lines@.take(k + 1)).filter(scoring(v)) by {
                assert forall|j: int| p <= j < before.len() implies (#[trigger] before[j]).score > x.score by {
                    assert(before[p as int].score > x.score);
                }
                lemma_filter_insert(before, p as int, x, scoring(v));
                without_positions(lines@.take(k as int)).lemma_filter_push(x, scoring(v));
            }
        }
        k = k + 1;
    }
    assert(lines@.take(lines.len() as int) =~= lines@);
    let ghost unnumbered = sorted@;
    let mut i: usize = 0;
    while i < sorted.len()
        invariant
            i <= sorted@.len(),
            sorted@.len() == unnumbered.len(),
            forall|j: int| 0 <= j < sorted@.len() ==> (#[trigger] sorted@[j]).score == unnumbered[j].score,
            forall|j: int| 0 <= j < sorted@.len() ==> (MatchRoundPlayer { position: 0, ..(#[trigger] sorted@[j]) }) == unnumbered[j],
            forall|j: int| 0 <= j < i ==> (#[trigger] sorted@[j]).position == (j + 1) as u16,
        decreases sorted.len() - i,
    {
        let line = MatchRoundPlayer { position: (i + 1) as u16, ..sorted[i] };
        sorted.set(i, line);
        i = i + 1;
    }
    proof {
        assert(without_positions(sorted@) =~= unnumbered);
        assert(without_positions(unnumbered) =~= unnumbered);
    }
    sorted
}

/// The round a view shows: the round asked for, or the current round of the match (from its
/// state, where it has one) for round 0.
pub open spec fn view_round(round: u16, state_round: Option<u16>) -> Option<u16> {
    if round != 0 {
        Some(round)
    } else {
        state_round
    }
}

/// The account of the first user with the id.
pub open spec fn user_account(users: Seq<UserV1>, id: u32) -> Option<u128>
    decreases users.len(),
{
    if users.len() == 0 {
        None
    } else if users[0].id == id {
        Some(users[0].account_id)
    } else {
        user_account(users.drop_first(), id)
    }
}

/// Every row belongs to a known user.
pub open spec fn users_known(rows: Seq<TabMatchRoundPlayer>, users: Seq<UserV1>) -> bool {
    forall|k: int| 0 <= k < rows.len() ==> user_account(users, (#[trigger] rows[k]).user_id) is Some
}

/// The leaderboard line of a row, before it is ranked.
pub open spec fn line_of(p: TabMatchRoundPlayer, match_id: u32, users: Seq<UserV1>) -> MatchRoundPlayer {
    MatchRoundPlayer {
        account_id: user_account(users, p.user_id)->0,
        id: p.id,
        match_id,
        time: p.time,
        score: p.points,
        round: p.round,
        position: 0,
    }
}

/// The lines of the rows, in row order.
pub open spec fn lines_of(rows: Seq<TabMatchRoundPlayer>, match_id: u32, users: Seq<UserV1>) -> Seq<
    MatchRoundPlayer,
> {
    rows.map_values(|p: TabMatchRoundPlayer| line_of(p, match_id, users))
}

/// The rows of the match in rounds 1 to `round`.
pub open spec fn in_rounds_up_to(match_id: u32, round: u16) -> spec_fn(TabMatchRoundPlayer) -> bool {
    |e: TabMatchRoundPlayer| e.match_id == match_id && 1 <= e.round <= round
}

/// The rows of the match in the round.
pub open spec fn in_round(match_id: u32, round: u16) -> spec_fn(TabMatchRoundPlayer) -> bool {
    |e: TabMatchRoundPlayer| e.match_id == match_id && e.round == round
}

/// The lines ranked: ascending scores, lines of equal score in their order, numbered from 1,
/// the same lines otherwise.
pub open spec fn ranks(r: Seq<MatchRoundPlayer>, lines: Seq<MatchRoundPlayer>) -> bool {
    &&& r.len() == lines.len()
    &&& ascending_scores(r)
    &&& without_positions(r).to_multiset() == lines.to_multiset()
    &&& forall|v: i32| #[trigger] without_positions(r).filter(scoring(v)) == lines.filter(scoring(v))
    &&& forall|i: int| 0 <= i < r.len() ==> (#[trigger] r[i]).position == (i + 1) as u16
}

fn account_of(users: &Vec<UserV1>, id: u32) -> (r: u128)
    requires
        user_account(users@, id) is Some,
    ensures
        r == user_account(users@, id)->0,
{
    let mut i: usize = 0;
    assert(users@.subrange(0, users@.len() as int) =~= users@);
    while i < users.len()
        invariant
            i <= users.len(),
            user_account(users@, id) is Some,
            user_account(users@, id) == user_account(users@.subrange(i as int, users@.len() as int), id),
        decreases users.len() - i,
    {
        assert(users@.subrange(i as int, users@.len() as int).drop_first() =~= users@.subrange(
            i as int + 1,
            users@.len() as int,
        ));
        if users[i].id == id {
            return users[i].account_id;
        }
        i = i + 1;
    }
    0
}

/// The rows that pass the filter of the match: rounds 1 to `round` where `up_to`, else the
/// round alone.
fn select_rows(rows: &Vec<TabMatchRoundPlayer>, match_id: u32, round: u16, up_to: bool) -> (r: Vec<
    TabMatchRoundPlayer,
>)
    ensures
        up_to ==> r@ == rows@.filter(in_rounds_up_to(match_id, round)),
        !up_to ==> r@ == rows@.filter(in_round(match_id, round)),
{
    let ghost pred = if up_to {
        in_rounds_up_to(match_id, round)
    } else {
        in_round(match_id, round)
    };
    let mut out: Vec<TabMatchRoundPlayer> = Vec::new();
    proof {
        reveal(Seq::filter);
    }
    let mut i: usize = 0;
    while i < rows.len()
        invariant
            i <= rows.len(),
            pred == (if up_to {
                in_rounds_up_to(match_id, round)
            } else {
                in_round(match_id, round)
            }),
            out@ == rows@.subrange(0, i as int).filter(pred),
        decreases rows.len() - i,
    {
        let e = rows[i];
        let keep = if up_to {
            e.match_id == match_id && 1 <= e.round && e.round <= round
        } else {
            e.match_id == match_id && e.round == round
        };
        assert(keep == pred(rows@[i as int]));
        proof {
            assert(rows@.subrange(0, i + 1) =~= rows@.subrange(0, i as int).push(rows@[i as int]));
            rows@.subrange(0, i as int).lemma_filter_push(rows@[i as int], pred);
        }
        if keep {
            out.push(e);
        }
        i = i + 1;
    }
    assert(rows@.subrange(0, rows@.len() as int) =~= rows@);
    out
}

fn to_lines(rows: &Vec<TabMatchRoundPlayer>, match_id: u32, users: &Vec<UserV1>) -> (r: Vec<
    MatchRoundPlayer,
>)
    requires
        users_known(rows@, users@),
    ensures
        r@ == lines_of(rows@, match_id, users@),
{
    let mut out: Vec<MatchRoundPlayer> = Vec::new();
    let mut i: usize = 0;
    while i < rows.len()
        invariant
            i <= rows.len(),
            users_known(rows@, users@),
            out@ =~= lines_of(rows@.take(i as int), match_id, users@),
        decreases rows.len() - i,
    {
        let p = rows[i];
        let account_id = account_of(users, p.user_id);
        out.push(
            MatchRoundPlayer {
                account_id,
                id: p.id,
                match_id,
                time: p.time,
                score: p.points,
                round: p.round,
                position: 0,
            },
        );
        proof {
            assert(lines_of(rows@.take(i + 1), match_id, users@) =~= lines_of(
                rows@.take(i as int),
                match_id,
                users@,
            ).push(line_of(p, match_id, users@)));
        }
        i = i + 1;
    }
    assert(rows@.take(rows@.len() as int) =~= rows@);
    out
}

proof fn lemma_lines_unnumbered(lines: Seq<MatchRoundPlayer>)
    requires
        forall|i: int| 0 <= i < lines.len() ==> (#[trigger] lines[i]).position == 0,
    ensures
        without_positions(lines) == lines,
{
    assert(without_positions(lines) =~= lines);
}

/// The accumulated leaderboard of a match up to a round (round 0: the current round of the
/// match, which shows nothing where the match has no state): the points of each player over
/// rounds 1 to that round added up, ranked by ascending score.
pub fn match_leaderboard(
    match_id: u32,
    round: u16,
    state_round: Option<u16>,
    rows: &Vec<TabMatchRoundPlayer>,
    users: &Vec<UserV1>,
) -> (r: Vec<MatchRoundPlayer>)
    requires
        view_round(round, state_round) is Some ==> points_fit(
            rows@.filter(in_rounds_up_to(match_id, view_round(round, state_round)->0)),
        ),
        view_round(round, state_round) is Some ==> users_known(
            rows@.filter(in_rounds_up_to(match_id, view_round(round, state_round)->0)),
            users@,
        ),
    ensures
        view_round(round, state_round) is None ==> r@.len() == 0,
        view_round(round, state_round) is Some ==> ranks(
            r@,
            lines_of(
                accumulate(rows@.filter(in_rounds_up_to(match_id, view_round(round, state_round)->0))),
                match_id,
                users@,
            ),
        ),
{
    let round = if round == 0 {
        match state_round {
            Some(current) => current,
            None => {
                return Vec::new();
            },
        }
    } else {
        round
    };
    let entries = select_rows(rows, match_id, round, true);
    let standings = accumulate_rounds(&entries);
    proof {
        lemma_accumulate_users_known(entries@, users@);
    }
    let lines = to_lines(&standings, match_id, users);
    proof {
        lemma_lines_unnumbered(lines@);
    }
    rank_by_score(lines)
}

/// Each row of the accumulation stands for a user of the entries.
proof fn lemma_accumulate_users_known(entries: Seq<TabMatchRoundPlayer>, users: Seq<UserV1>)
    requires
        users_known(entries, users),
    ensures
        users_known(accumulate(entries), users),
    decreases entries.len(),
{
    if entries.len() > 0 {
        let rest = entries.drop_last();
        assert forall|k: int| 0 <= k < rest.len() implies user_account(
            users,
            (#[trigger] rest[k]).user_id,
        ) is Some by {
            assert(rest[k] == entries[k]);
        }
        lemma_accumulate_users_known(rest, users);
        let prev = accumulate(rest);
        let e = entries.last();
        assert(user_account(users, entries[entries.len() - 1].user_id) is Some);
        if has_user(prev, e.user_id) {
            let i = user_pos(prev, e.user_id);
            let next = prev.update(i, merge_round(prev[i], e));
            assert forall|k: int| 0 <= k < next.len() implies user_account(
                users,
                (#[trigger] next[k]).user_id,
            ) is Some by {
                assert(next[k].user_id == prev[k].user_id);
            }
        } else {
            let next = prev.push(e);
            assert forall|k: int| 0 <= k < next.len() implies user_account(
                users,
                (#[trigger] next[k]).user_id,
            ) is Some by {
                if k < prev.len() {
                    assert(next[k] == prev[k]);
                }
            }
        }
    }
}

/// One round of a match (round 0: the current round, nothing where the match has no state):
/// the result of each player in that round, ranked by ascending score.
pub fn match_round(
    match_id: u32,
    round: u16,
    state_round: Option<u16>,
    rows: &Vec<TabMatchRoundPlayer>,
    users: &Vec<UserV1>,
) -> (r: Vec<MatchRoundPlayer>)
    requires
        view_round(round, state_round) is Some ==> users_known(
            rows@.filter(in_round(match_id, view_round(round, state_round)->0)),
            users@,
        ),
    ensures
        view_round(round, state_round) is None ==> r@.len() == 0,
        view_round(round, state_round) is Some ==> ranks(
            r@,
            lines_of(
                rows@.filter(in_round(match_id, view_round(round, state_round)->0)),
                match_id,
                users@,
            ),
        ),
{
    let round = if round == 0 {
        match state_round {
            Some(current) => current,
            None => {
                return Vec::new();
            },
        }
    } else {
        round
    };
    let entries = select_rows(rows, match_id, round, false);
    let lines = to_lines(&entries, match_id, users);
    proof {
        lemma_lines_unnumbered(lines@);
    }
    rank_by_score(lines)
}

/// The action log of a player in a round, as clients see it.
#[derive(Debug)]
pub struct MatchRoundPlayerExt {
    pub round_actions: Vec<PlayerAction>,
    pub id: u32,
    pub match_id: u32,
    pub round: u16,
}

fn copy_actions(v: &Vec<PlayerAction>) -> (r: Vec<PlayerAction>)
    ensures
        r@ == v@,
{
    let mut out: Vec<PlayerAction> = Vec::new();
    let mut i: usize = 0;
    while i < v.len()
        invariant
            i <= v.len(),
            out@ =~= v@.take(i as int),
        decreases v.len() - i,
    {
        out.push(v[i]);
        i = i + 1;
    }
    assert(v@.take(v@.len() as int) =~= v@);
    out
}

/// The action logs of one round of a match (round 0: the current round, nothing where the
/// match has no state), in row order.
pub fn match_round_ext(
    match_id: u32,
    round: u16,
    state_round: Option<u16>,
    rows: &Vec<TabMatchRoundPlayerExt>,
) -> (r: Vec<MatchRoundPlayerExt>)
    ensures
        view_round(round, state_round) is None ==> r@.len() == 0,
        view_round(round, state_round) is Some ==> {
            let sel = rows@.filter(
                |p: TabMatchRoundPlayerExt|
                    p.match_id == match_id && p.round == view_round(round, state_round)->0,
            );
            &&& r@.len() == sel.len()
            &&& forall|k: int|
                0 <= k < sel.len() ==> (#[trigger] r@[k]).round_actions@ == sel[k].round_actions@
                    && r@[k].id == sel[k].id && r@[k].match_id == match_id && r@[k].round
                    == view_round(round, state_round)->0
        },
{
    let round = if round == 0 {
        match state_round {
            Some(current) => current,
            None => {
                return Vec::new();
            },
        }
    } else {
        round
    };
    let ghost pred = |p: TabMatchRoundPlayerExt| p.match_id == match_id && p.round == round;
    proof {
        reveal(Seq::filter);
    }
    let mut out: Vec<MatchRoundPlayerExt> = Vec::new();
    let mut i: usize = 0;
    while i < rows.len()
        invariant
            i <= rows.len(),
            pred == (|p: TabMatchRoundPlayerExt| p.match_id == match_id && p.round == round),
            out@.len() == rows@.subrange(0, i as int).filter(pred).len(),
            forall|k: int|
                0 <= k < out@.len() ==> (#[trigger] out@[k]).round_actions@ == rows@.subrange(
                    0,
                    i as int,
                ).filter(pred)[k].round_actions@ && out@[k].id == rows@.subrange(
                    0,
                    i as int,
                ).filter(pred)[k].id && out@[k].match_id == match_id && out@[k].round == round,
        decreases rows.len() - i,
    {
        let p = &rows[i];
        proof {
            assert(rows@.subrange(0, i + 1) =~= rows@.subrange(0, i as int).push(rows@[i as int]));
            rows@.subrange(0, i as int).lemma_filter_push(rows@[i as int], pred);
        }
        if p.match_id == match_id && p.round == round {
            let actions = copy_actions(&p.round_actions);
            out.push(MatchRoundPlayerExt { round_actions: actions, id: p.id, match_id, round });
        }
        i = i + 1;
    }
    assert(rows@.subrange(0, rows@.len() as int) =~= rows@);
    out
}

} // verus!
