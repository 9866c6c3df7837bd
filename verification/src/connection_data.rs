use vstd::prelude::*;

use crate::connection::TabConnection;
use crate::error::ManagerError;
use crate::leaderboard::TabMatchRoundPlayer;
use crate::registration::RegisterationPlayer;

verus! {

/// Which of the players that an origin node ranks a data connection passes on.
#[derive(Debug)]
pub enum ConnectionDataOption {
    All,
    FirstN(u8),
    LastN(u8),
    /// The players at these positions, in this order; positions past the end are skipped.
    Custom(Vec<u8>),
}

/// The rules of a data connection.
#[derive(Debug)]
pub struct ConnectionData {
    pub competition_id: u32,
    pub connection_id: u32,
    pub options: ConnectionDataOption,
}

/// The players at the positions `items` of `s`, skipping positions past its end.
pub open spec fn custom_pick<T>(items: Seq<u8>, s: Seq<T>) -> Seq<T>
    decreases items.len(),
{
    if items.len() == 0 {
        Seq::empty()
    } else {
        let rest = custom_pick(items.drop_last(), s);
        let i = items.last() as int;
        if i < s.len() {
            rest.push(s[i])
        } else {
            rest
        }
    }
}

/// At most `n` elements: `n` or the whole length.
pub open spec fn at_most(n: u8, len: nat) -> int {
    if (n as nat) < len {
        n as int
    } else {
        len as int
    }
}

/// What the option `o` passes on of the ranking `s`.
pub open spec fn apply_spec<T>(o: ConnectionDataOption, s: Seq<T>) -> Seq<T> {
    match o {
        ConnectionDataOption::All => s,
        ConnectionDataOption::FirstN(f) => s.take(at_most(f, s.len())),
        ConnectionDataOption::LastN(l) => s.reverse().take(at_most(l, s.len())),
        ConnectionDataOption::Custom(items) => custom_pick(items@, s),
    }
}

/// What the options pass on, told element by element: everybody in order; the first `f`
/// players in order (all of them where there are no more than `f`); the last `l` players,
/// the last first (all of them, last first, where there are no more than `l`).
pub proof fn lemma_apply_selects<T>(o: ConnectionDataOption, s: Seq<T>)
    ensures
        apply_spec(o, s).len() <= s.len() || o is Custom,
        o is All ==> apply_spec(o, s) == s,
        o matches ConnectionDataOption::FirstN(f) ==> {
            &&& apply_spec(o, s).len() == (if (f as nat) < s.len() { f as nat } else { s.len() })
            &&& forall|i: int| 0 <= i < apply_spec(o, s).len() ==> #[trigger] apply_spec(o, s)[i] == s[i]
        },
        o matches ConnectionDataOption::LastN(l) ==> {
            &&& apply_spec(o, s).len() == (if (l as nat) < s.len() { l as nat } else { s.len() })
            &&& forall|i: int| 0 <= i < apply_spec(o, s).len() ==> #[trigger] apply_spec(o, s)[i] == s[s.len() - 1 - i]
        },
{
}

/// A custom selection passes on, in the order of the positions listed, the player at each
/// listed position that lies within the ranking, and nobody else.
pub proof fn lemma_custom_picks_listed<T>(items: Seq<u8>, s: Seq<T>)
    ensures
        custom_pick(items, s).len() <= items.len(),
        forall|i: int| 0 <= i < custom_pick(items, s).len() ==> exists|j: int| 0 <= j < items.len()
            && (items[j] as int) < s.len() && #[trigger] custom_pick(items, s)[i] == s[items[j] as int],
        (forall|j: int| 0 <= j < items.len() ==> (#[trigger] items[j] as int) < s.len()) ==> custom_pick(items, s).len() == items.len()
            && forall|i: int| 0 <= i < items.len() ==> #[trigger] custom_pick(items, s)[i] == s[items[i] as int],
    decreases items.len(),
{
    if items.len() > 0 {
        let d = items.drop_last();
        lemma_custom_picks_listed::<T>(d, s);
        let rest = custom_pick(d, s);
        let out = custom_pick(items, s);
        assert forall|i: int| 0 <= i < out.len() implies exists|j: int| 0 <= j < items.len()
            && (items[j] as int) < s.len() && #[trigger] out[i] == s[items[j] as int] by {
            if i < rest.len() {
                let j = choose|j: int| 0 <= j < d.len() && (d[j] as int) < s.len() && rest[i] == s[d[j] as int];
                assert(items[j] == d[j]);
            } else {
                assert(items[items.len() - 1] == items.last());
            }
        }
        if forall|j: int| 0 <= j < items.len() ==> (#[trigger] items[j] as int) < s.len() {
            assert forall|j: int| 0 <= j < d.len() implies (#[trigger] d[j] as int) < s.len() by {
                assert(d[j] == items[j]);
            }
            assert forall|i: int| 0 <= i < items.len() implies #[trigger] out[i] == s[items[i] as int] by {
                if i < d.len() {
                    assert(d[i] == items[i]);
                }
            }
        }
    }
}

impl ConnectionData {
    /// A fresh data connection that passes on everybody.
    pub fn new(connection_id: u32, competition_id: u32) -> (r: Self)
        ensures
            r.connection_id == connection_id,
            r.competition_id == competition_id,
            r.options is All,
    {
        ConnectionData { competition_id, connection_id, options: ConnectionDataOption::All }
    }

    /// The same rules for another connection of another competition.
    pub fn instantiate(self, connection_id: u32, competition_id: u32) -> (r: Self)
        ensures
            r.connection_id == connection_id,
            r.competition_id == competition_id,
            r.options == self.options,
    {
        let mut s = self;
        s.competition_id = competition_id;
        s.connection_id = connection_id;
        s
    }

    /// Applies the rules to a ranking.
    pub fn apply<T: Copy>(&self, ranking: Vec<T>) -> (r: Vec<T>)
        ensures
            r@ == apply_spec(self.options, ranking@),
    {
        match &self.options {
            ConnectionDataOption::All => ranking,
            ConnectionDataOption::FirstN(f) => {
                let n: usize = if (*f as usize) < ranking.len() { *f as usize } else { ranking.len() };
                let mut out: Vec<T> = Vec::new();
                let mut i: usize = 0;
                while i < n
                    invariant
                        n <= ranking.len(),
                        i <= n,
                        out@ == ranking@.take(i as int),
                    decreases n - i,
                {
                    out.push(ranking[i]);
                    i = i + 1;
                    assert(out@ =~= ranking@.take(i as int));
                }
                out
            },
            ConnectionDataOption::LastN(l) => {
                let len = ranking.len();
                let n: usize = if (*l as usize) < len { *l as usize } else { len };
                let mut out: Vec<T> = Vec::new();
                let mut i: usize = 0;
                while i < n
                    invariant
                        len == ranking.len(),
                        n <= len,
                        i <= n,
                        out@ == ranking@.reverse().take(i as int),
                    decreases n - i,
                {
                    out.push(ranking[len - 1 - i]);
                    i = i + 1;
                    assert(out@ =~= ranking@.reverse().take(i as int));
                }
                out
            },
            ConnectionDataOption::Custom(items) => {
                let mut out: Vec<T> = Vec::new();
                let mut k: usize = 0;
                while k < items.len()
                    invariant
                        k <= items.len(),
                        out@ == custom_pick(items@.take(k as int), ranking@),
                    decreases items.len() - k,
                {
                    let item = items[k] as usize;
                    assert(items@.take(k + 1).drop_last() =~= items@.take(k as int));
                    if item < ranking.len() {
                        out.push(ranking[item]);
                    }
                    k = k + 1;
                }
                assert(items@.take(items.len() as int) =~= items@);
                out
            },
        }
    }

    /// Applies the rules to the standings of a match.
    pub fn apply_match(&self, tm_match: Vec<TabMatchRoundPlayer>) -> (r: Vec<TabMatchRoundPlayer>)
        ensures
            r@ == apply_spec(self.options, tm_match@),
    {
        self.apply(tm_match)
    }

    /// Applies the rules to the players of a registration.
    pub fn apply_registration(&self, registration: Vec<RegisterationPlayer>) -> (r: Vec<
        RegisterationPlayer,
    >)
        ensures
            r@ == apply_spec(self.options, registration@),
    {
        self.apply(registration)
    }
}

/// New rules for a data connection: the stored rules with the option replaced. `connection` is
/// the connection the store found, `authorized` the outcome of the authorization for its
/// competition, `data` the stored rules.
pub fn competition_connection_data_update(
    connection: Option<&TabConnection>,
    authorized: Result<u32, ManagerError>,
    data: Option<ConnectionData>,
    option: ConnectionDataOption,
) -> (r: Result<ConnectionData, ManagerError>)
    ensures
        connection is None ==> r == Err::<ConnectionData, ManagerError>(
            ManagerError::ConnectionNotFound,
        ),
        connection is Some && authorized is Err ==> r == Err::<ConnectionData, ManagerError>(
            authorized->Err_0,
        ),
        connection is Some && authorized is Ok && data is None ==> r == Err::<
            ConnectionData,
            ManagerError,
        >(ManagerError::ConnectionDataNotFound),
        connection is Some && authorized is Ok && data is Some ==> r == Ok::<
            ConnectionData,
            ManagerError,
        >(ConnectionData { options: option, ..data->0 }),
{
    if connection.is_none() {
        return Err(ManagerError::ConnectionNotFound);
    }
    if let Err(e) = authorized {
        return Err(e);
    }
    match data {
        Some(mut d) => {
            d.options = option;
            Ok(d)
        },
        None => Err(ManagerError::ConnectionDataNotFound),
    }
}

} // verus!
