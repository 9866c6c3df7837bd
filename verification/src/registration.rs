use vstd::prelude::*;

use crate::error::ManagerError;
use crate::leaderboard::lemma_filter_insert;

verus! {

broadcast use {vstd::seq_lib::to_multiset_insert, vstd::seq_lib::to_multiset_build};

#[derive(Debug, PartialEq, Eq, Clone, Copy, Structural)]
pub struct RegistrationSettingsPlayer {
    pub player_limit: u32,
}

#[derive(Debug, PartialEq, Eq, Clone, Copy, Structural)]
pub struct RegistrationSettingsTeam {
    pub team_limit: u32,
    pub team_size_min: u8,
    pub team_size_max: u8,
}

#[derive(Debug, PartialEq, Eq, Clone, Copy, Structural)]
pub enum RegistrationSettings {
    Player(RegistrationSettingsPlayer),
}

#[derive(Debug, PartialEq, Eq, Clone, Copy, Structural)]
pub enum RegistrationStatus {
    Configuring,
    Upcoming,
    Ongoing,
    Ended,
    Locked,
}

impl RegistrationStatus {
    pub fn before_live(&self) -> (r: bool)
        ensures
            r == (*self == RegistrationStatus::Configuring || *self == RegistrationStatus::Upcoming),
    {
        match self {
            RegistrationStatus::Configuring => true,
            RegistrationStatus::Upcoming => true,
            _ => false,
        }
    }
}

/// A registration: players sign up for a competition through it.
#[derive(Debug)]
pub struct Registration {
    pub name: String,
    pub id: u32,
    pub parent_id: u32,
    pub settings: RegistrationSettings,
    pub status: RegistrationStatus,
    pub template: bool,
}

/// Whether a player may sign up or off while `registered` players are signed up, or why not.
pub open spec fn player_registration_spec(r: Registration, registered: nat) -> Result<(), ManagerError> {
    if r.template {
        Err(ManagerError::TemplateNotAllowed)
    } else if r.status != RegistrationStatus::Ongoing {
        Err(ManagerError::WrongState)
    } else {
        match r.settings {
            RegistrationSettings::Player(p) => if registered < p.player_limit {
                Ok(())
            } else {
                Err(ManagerError::RegistrationFull)
            },
        }
    }
}

impl Registration {
    pub fn get_comp_id(&self) -> (r: u32)
        ensures
            r == self.parent_id,
    {
        self.parent_id
    }

    pub fn is_template(&self) -> (r: bool)
        ensures
            r == self.template,
    {
        self.template
    }

    /// A copy under another competition; the store gives it a new id.
    pub fn instantiate(self, parent_id: u32, stay_template: bool) -> (r: Self)
        ensures
            r == (Registration { parent_id, id: 0, template: stay_template, ..self }),
    {
        let mut s = self;
        s.parent_id = parent_id;
        s.id = 0;
        s.template = stay_template;
        s
    }

    /// Whether a player may sign up (or off) while `registered` players are signed up: not on
    /// templates, only while the registration is ongoing, and only below the player limit.
    pub fn player_registration_allowed(&self, registered: usize) -> (r: Result<(), ManagerError>)
        ensures
            r == player_registration_spec(*self, registered as nat),
    {
        if self.template {
            return Err(ManagerError::TemplateNotAllowed);
        }
        if self.status != RegistrationStatus::Ongoing {
            return Err(ManagerError::WrongState);
        }
        match &self.settings {
            RegistrationSettings::Player(p) => {
                if registered < p.player_limit as usize {
                    Ok(())
                } else {
                    Err(ManagerError::RegistrationFull)
                }
            },
        }
    }

    /// The settings may change only before the registration goes live.
    pub fn can_change_settings(&self) -> (r: Result<(), ManagerError>)
        ensures
            r is Ok <==> (self.status == RegistrationStatus::Configuring || self.status == RegistrationStatus::Upcoming),
            r is Err ==> r == Err::<(), ManagerError>(ManagerError::WrongState),
    {
        if !self.status.before_live() {
            return Err(ManagerError::WrongState);
        }
        Ok(())
    }
}

/// Decides a request to create a registration under the competition `parent_id`, whose
/// template flag is `parent_is_template`; `template` is the registration that `with_template`
/// names (if it is not 0 and the store holds it).
pub fn registration_create(
    name: String,
    parent_id: u32,
    with_template: u32,
    authorized: Result<u32, ManagerError>,
    parent_is_template: bool,
    template: Option<Registration>,
) -> (r: Result<Registration, ManagerError>)
    ensures
        r == (if authorized is Err {
            Err(authorized->Err_0)
        } else if parent_is_template {
            Err(ManagerError::ParentIsTemplate)
        } else if with_template != 0 {
            match template {
                None => Err(ManagerError::TemplateNotFound),
                Some(t) => Ok(Registration { parent_id, id: 0, template: false, ..t }),
            }
        } else {
            Ok(Registration {
                name,
                id: 0,
                parent_id,
                settings: RegistrationSettings::Player(RegistrationSettingsPlayer { player_limit: 100 }),
                status: RegistrationStatus::Configuring,
                template: false,
            })
        }),
{
    if let Err(e) = authorized {
        return Err(e);
    }
    if parent_is_template {
        return Err(ManagerError::ParentIsTemplate);
    }
    if with_template != 0 {
        match template {
            None => Err(ManagerError::TemplateNotFound),
            Some(t) => Ok(t.instantiate(parent_id, false)),
        }
    } else {
        Ok(
            Registration {
                name,
                id: 0,
                parent_id,
                settings: RegistrationSettings::Player(RegistrationSettingsPlayer { player_limit: 100 }),
                status: RegistrationStatus::Configuring,
                template: false,
            },
        )
    }
}

/// Sets the status of a registration that is found, for an authorized caller.
fn registration_set_status(
    registration: Option<Registration>,
    authorized: Result<u32, ManagerError>,
    status: RegistrationStatus,
) -> (r: Result<Registration, ManagerError>)
    ensures
        r == (match registration {
            None => Err(ManagerError::RegistrationNotFound),
            Some(reg) => if authorized is Err {
                Err(authorized->Err_0)
            } else {
                Ok(Registration { status, ..reg })
            },
        }),
{
    let mut reg = match registration {
        Some(reg) => reg,
        None => return Err(ManagerError::RegistrationNotFound),
    };
    if let Err(e) = authorized {
        return Err(e);
    }
    reg.status = status;
    Ok(reg)
}

/// Decides a request to mark the registration configured: it becomes upcoming.
pub fn registration_configured(registration: Option<Registration>, authorized: Result<u32, ManagerError>) -> (r: Result<Registration, ManagerError>)
    ensures
        r == (match registration {
            None => Err(ManagerError::RegistrationNotFound),
            Some(reg) => if authorized is Err { Err(authorized->Err_0) } else { Ok(Registration { status: RegistrationStatus::Upcoming, ..reg }) },
        }),
{
    registration_set_status(registration, authorized, RegistrationStatus::Upcoming)
}

/// Decides a request to open the registration: it becomes ongoing.
pub fn registration_start(registration: Option<Registration>, authorized: Result<u32, ManagerError>) -> (r: Result<Registration, ManagerError>)
    ensures
        r == (match registration {
            None => Err(ManagerError::RegistrationNotFound),
            Some(reg) => if authorized is Err { Err(authorized->Err_0) } else { Ok(Registration { status: RegistrationStatus::Ongoing, ..reg }) },
        }),
{
    registration_set_status(registration, authorized, RegistrationStatus::Ongoing)
}

/// Decides a request to close the registration: it becomes ended.
pub fn registration_end(registration: Option<Registration>, authorized: Result<u32, ManagerError>) -> (r: Result<Registration, ManagerError>)
    ensures
        r == (match registration {
            None => Err(ManagerError::RegistrationNotFound),
            Some(reg) => if authorized is Err { Err(authorized->Err_0) } else { Ok(Registration { status: RegistrationStatus::Ended, ..reg }) },
        }),
{
    registration_set_status(registration, authorized, RegistrationStatus::Ended)
}

/// A player signed up for a registration; times are microseconds since the Unix epoch.
#[derive(Debug, PartialEq, Eq, Clone, Copy, Structural)]
pub struct RegisterationPlayer {
    pub account_id: u128,
    pub registered_at: i64,
    pub registration_id: u32,
}

/// The decision on a request to sign up: the error, or the sign-up to store.
pub open spec fn register_player_spec(
    user: Result<u128, ManagerError>,
    registration_id: u32,
    registration: Option<&Registration>,
    registered: Seq<RegisterationPlayer>,
    now: i64,
) -> Result<RegisterationPlayer, ManagerError> {
    if user is Err {
        Err(user->Err_0)
    } else {
        match registration {
            None => Err(ManagerError::RegistrationNotFound),
            Some(reg) => if player_registration_spec(*reg, registered.len()) is Err {
                Err(player_registration_spec(*reg, registered.len())->Err_0)
            } else if is_registered(registered, user->Ok_0) {
                Err(ManagerError::AlreadyRegistered)
            } else {
                Ok(RegisterationPlayer { registration_id, account_id: user->Ok_0, registered_at: now })
            },
        }
    }
}

/// A player signs up at most once: once the sign-up of a successful request is stored, the
/// same user's next request to that registration is refused.
pub proof fn lemma_no_double_registration(
    user: Result<u128, ManagerError>,
    registration_id: u32,
    registration: Option<&Registration>,
    registered: Seq<RegisterationPlayer>,
    now: i64,
    later: i64,
)
    requires
        register_player_spec(user, registration_id, registration, registered, now) is Ok,
    ensures
        register_player_spec(
            user,
            registration_id,
            registration,
            registered.push(register_player_spec(user, registration_id, registration, registered, now)->Ok_0),
            later,
        ) is Err,
{
    let row = register_player_spec(user, registration_id, registration, registered, now)->Ok_0;
    let rows = registered.push(row);
    assert(rows[registered.len() as int] == row);
    assert(is_registered(rows, user->Ok_0));
}

/// The sign-ups of the registration `registration_id`.
pub open spec fn of_registration(registration_id: u32) -> spec_fn(RegisterationPlayer) -> bool {
    |p: RegisterationPlayer| p.registration_id == registration_id
}

/// The most players that the registration takes.
pub open spec fn player_limit(reg: Registration) -> nat {
    match reg.settings {
        RegistrationSettings::Player(p) => p.player_limit as nat,
    }
}

/// The sign-up table is sound for the registrations `regs`: no account is signed up twice for
/// one registration, and no registration holds more players than its limit.
pub open spec fn signups_sound(table: Seq<RegisterationPlayer>, regs: Seq<Registration>) -> bool {
    &&& forall|i: int, j: int|
        0 <= i < j < table.len() ==> !((#[trigger] table[i]).registration_id == (#[trigger] table[j]).registration_id
            && table[i].account_id == table[j].account_id)
    &&& forall|k: int| 0 <= k < regs.len() ==> table.filter(of_registration((#[trigger] regs[k]).id)).len() <= player_limit(regs[k])
}

/// Storing the sign-up of an accepted request keeps the sign-up table sound: the request is
/// decided on the sign-ups of its registration, `regs[k]`, and the registrations have distinct
/// ids.
pub proof fn lemma_register_keeps_signups_sound(
    user: Result<u128, ManagerError>,
    table: Seq<RegisterationPlayer>,
    regs: Seq<Registration>,
    k: int,
    now: i64,
)
    requires
        signups_sound(table, regs),
        0 <= k < regs.len(),
        forall|a: int, b: int| 0 <= a < regs.len() && 0 <= b < regs.len() && (#[trigger] regs[a]).id == (#[trigger] regs[b]).id ==> a == b,
        register_player_spec(user, regs[k].id, Some(&regs[k]), table.filter(of_registration(regs[k].id)), now) is Ok,
    ensures
        signups_sound(
            table.push(register_player_spec(user, regs[k].id, Some(&regs[k]), table.filter(of_registration(regs[k].id)), now)->Ok_0),
            regs,
        ),
{
    let id = regs[k].id;
    let mine = table.filter(of_registration(id));
    let row = register_player_spec(user, id, Some(&regs[k]), mine, now)->Ok_0;
    let next = table.push(row);
    assert forall|i: int, j: int| 0 <= i < j < next.len() implies !((#[trigger] next[i]).registration_id == (#[trigger] next[j]).registration_id
        && next[i].account_id == next[j].account_id) by {
        if j == table.len() && next[i].registration_id == id && next[i].account_id == row.account_id {
            assert(next[i] == table[i]);
            table.lemma_filter_contains(of_registration(id), i);
            let m = choose|m: int| 0 <= m < mine.len() && mine[m] == table[i];
            assert(mine[m].account_id == user->Ok_0);
            assert(is_registered(mine, user->Ok_0));
        }
    }
    assert forall|k2: int| 0 <= k2 < regs.len() implies next.filter(of_registration((#[trigger] regs[k2]).id)).len() <= player_limit(regs[k2]) by {
        table.lemma_filter_push(row, of_registration(regs[k2].id));
        if regs[k2].id == id {
            assert(k2 == k);
            assert(mine.len() < player_limit(regs[k]));
        }
    }
}

/// The account has signed up among `rows`.
pub open spec fn is_registered(rows: Seq<RegisterationPlayer>, account_id: u128) -> bool {
    exists|i: int| 0 <= i < rows.len() && (#[trigger] rows[i]).account_id == account_id
}

/// The position of the account's first sign-up among `rows`.
fn first_registration(rows: &Vec<RegisterationPlayer>, account_id: u128) -> (r: Option<usize>)
    ensures
        r matches Some(i) ==> i < rows@.len() && rows@[i as int].account_id == account_id
            && forall|j: int| 0 <= j < i ==> (#[trigger] rows@[j]).account_id != account_id,
        r is None ==> !is_registered(rows@, account_id),
{
    let mut i: usize = 0;
    while i < rows.len()
        invariant
            i <= rows@.len(),
            forall|j: int| 0 <= j < i ==> (#[trigger] rows@[j]).account_id != account_id,
        decreases rows.len() - i,
    {
        if rows[i].account_id == account_id {
            return Some(i);
        }
        i = i + 1;
    }
    None
}

/// Decides the request of the user with the account `user` to sign up for the registration
/// `registration_id` at the time `now`; `registered` are the players signed up for it.
pub fn register_player(
    user: Result<u128, ManagerError>,
    registration_id: u32,
    registration: Option<&Registration>,
    registered: &Vec<RegisterationPlayer>,
    now: i64,
) -> (r: Result<RegisterationPlayer, ManagerError>)
    ensures
        r == register_player_spec(user, registration_id, registration, registered@, now),
{
    let account = match user {
        Ok(a) => a,
        Err(e) => return Err(e),
    };
    let reg = match registration {
        Some(reg) => reg,
        None => return Err(ManagerError::RegistrationNotFound),
    };
    if let Err(e) = reg.player_registration_allowed(registered.len()) {
        return Err(e);
    }
    if first_registration(registered, account).is_some() {
        return Err(ManagerError::AlreadyRegistered);
    }
    Ok(RegisterationPlayer { registration_id, account_id: account, registered_at: now })
}

/// Decides the request of the user with the account `user` to sign off from a registration;
/// `registered` are the players signed up for it. On success the returned sign-up, the first of
/// the user, is deleted.
pub fn unregister_player(
    user: Result<u128, ManagerError>,
    registration: Option<&Registration>,
    registered: &Vec<RegisterationPlayer>,
) -> (r: Result<RegisterationPlayer, ManagerError>)
    ensures
        user is Err ==> r == Err::<RegisterationPlayer, ManagerError>(user->Err_0),
        user is Ok && registration is None ==> r == Err::<RegisterationPlayer, ManagerError>(ManagerError::RegistrationNotFound),
        user is Ok && registration is Some && player_registration_spec(*registration->0, registered@.len()) is Err
            ==> r == Err::<RegisterationPlayer, ManagerError>(player_registration_spec(*registration->0, registered@.len())->Err_0),
        user is Ok && registration is Some && player_registration_spec(*registration->0, registered@.len()) is Ok
            && !is_registered(registered@, user->Ok_0) ==> r == Err::<RegisterationPlayer, ManagerError>(ManagerError::NotRegistered),
        user is Ok && registration is Some && player_registration_spec(*registration->0, registered@.len()) is Ok
            && is_registered(registered@, user->Ok_0) ==> (r matches Ok(row) && exists|i: int| 0 <= i < registered@.len()
                && registered@[i] == row && row.account_id == user->Ok_0
                && forall|j: int| 0 <= j < i ==> (#[trigger] registered@[j]).account_id != user->Ok_0),
{
    let account = match user {
        Ok(a) => a,
        Err(e) => return Err(e),
    };
    let reg = match registration {
        Some(reg) => reg,
        None => return Err(ManagerError::RegistrationNotFound),
    };
    if let Err(e) = reg.player_registration_allowed(registered.len()) {
        return Err(e);
    }
    match first_registration(registered, account) {
        Some(i) => Ok(registered[i]),
        None => Err(ManagerError::NotRegistered),
    }
}

/// The sign-ups made at the time `t`.
pub open spec fn registered_at_time(t: i64) -> spec_fn(RegisterationPlayer) -> bool {
    |p: RegisterationPlayer| p.registered_at == t
}

/// Times of sign-up never fall along `s`.
pub open spec fn by_registration_time(s: Seq<RegisterationPlayer>) -> bool {
    forall|i: int, j: int| 0 <= i <= j < s.len() ==> (#[trigger] s[i]).registered_at <= (#[trigger] s[j]).registered_at
}

/// The players signed up for a registration, in the order of their sign-up (players who
/// signed up at the same time keep their order).
pub fn registration_player(rows: &Vec<RegisterationPlayer>) -> (r: Vec<RegisterationPlayer>)
    ensures
        by_registration_time(r@),
        r@.to_multiset() == rows@.to_multiset(),
        r@.len() == rows@.len(),
        forall|t: i64| #[trigger] r@.filter(registered_at_time(t)) == rows@.filter(registered_at_time(t)),
{
    let mut sorted: Vec<RegisterationPlayer> = Vec::new();
    assert(sorted@ =~= rows@.take(0));
    let mut k: usize = 0;
    while k < rows.len()
        invariant
            k <= rows.len(),
            sorted@.len() == k,
            by_registration_time(sorted@),
            sorted@.to_multiset() == rows@.take(k as int).to_multiset(),
            forall|t: i64| #[trigger] sorted@.filter(registered_at_time(t)) == rows@.take(k as int).filter(registered_at_time(t)),
        decreases rows.len() - k,
    {
        let x = rows[k];
        let mut p: usize = 0;
        while p < sorted.len() && sorted[p].registered_at <= x.registered_at
            invariant
                p <= sorted.len(),
                forall|j: int| 0 <= j < p ==> (#[trigger] sorted@[j]).registered_at <= x.registered_at,
            decreases sorted.len() - p,
        {
            p = p + 1;
        }
        let ghost before = sorted@;
        sorted.insert(p, x);
        proof {
            assert forall|i: int, j: int| 0 <= i <= j < sorted@.len() implies (#[trigger] sorted@[i]).registered_at
                <= (#[trigger] sorted@[j]).registered_at by {
                if i < p && j < p {
                    assert(sorted@[i] == before[i] && sorted@[j] == before[j]);
                } else if i < p && j == p {
                } else if i < p {
                    assert(sorted@[i] == before[i] && sorted@[j] == before[j - 1]);
                } else if i == p && j == p {
                } else if i == p {
                    assert(sorted@[j] == before[j - 1]);
                    assert(before[p as int].registered_at > x.registered_at);
                    assert(before[p as int].registered_at <= before[j - 1].registered_at);
                } else {
                    assert(sorted@[i] == before[i - 1] && sorted@[j] == before[j - 1]);
                }
            }
            assert(rows@.take(k + 1) =~= rows@.take(k as int).push(x));
            assert forall|t: i64| #[trigger] sorted@.filter(registered_at_time(t)) == rows@.take(k + 1).filter(registered_at_time(t)) by {
                assert forall|j: int| p <= j < before.len() implies (#[trigger] before[j]).registered_at > x.registered_at by {
                    assert(before[p as int].registered_at > x.registered_at);
                }
                lemma_filter_insert(before, p as int, x, registered_at_time(t));
                rows@.take(k as int).lemma_filter_push(x, registered_at_time(t));
            }
        }
        k = k + 1;
    }
    assert(rows@.take(rows.len() as int) =~= rows@);
    sorted
}

/// A team signed up for a registration; times are microseconds since the Unix epoch.
#[derive(Debug)]
pub struct RegisteredTeam {
    pub name: String,
    pub registered_at: i64,
    pub registration_id: u32,
    pub id: u32,
}

/// The checks of a request to sign a team up. Whether teams may sign up is not decided yet for
/// any registration, so requests that pass both checks are left out.
pub fn create_team(user: Result<u128, ManagerError>, registration: Option<&Registration>) -> (r: Result<
    (),
    ManagerError,
>)
    requires
        user is Err || registration is None,
    ensures
        user is Err ==> r == Err::<(), ManagerError>(user->Err_0),
        user is Ok ==> r == Err::<(), ManagerError>(ManagerError::RegistrationNotFound),
{
    match user {
        Err(e) => Err(e),
        Ok(_) => Err(ManagerError::RegistrationNotFound),
    }
}

} // verus!
