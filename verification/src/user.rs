use vstd::prelude::*;

use crate::error::ManagerError;

verus! {

/// The 256-bit identity of a client of the database.
#[derive(Debug, PartialEq, Eq, Clone, Copy, Hash, Structural)]
pub struct Identity {
    pub hi: u128,
    pub lo: u128,
}

/// A user of the manager: a Trackmania account.
#[derive(Debug)]
pub struct UserV1 {
    pub name: String,
    pub club_tag: String,
    pub zone: String,
    pub account_id: u128,
    pub id: u32,
}

impl UserV1 {
    /// A user of the account, without name, club tag or zone; the store gives it its id.
    pub fn new(account_id: u128) -> (r: Self)
        ensures
            r.id == 0,
            r.account_id == account_id,
            r.name@ == Seq::<char>::empty(),
            r.club_tag@ == Seq::<char>::empty(),
            r.zone@ == Seq::<char>::empty(),
    {
        UserV1 { id: 0, account_id, name: String::new(), club_tag: String::new(), zone: String::new() }
    }

    pub fn set_name(&mut self, name: String)
        ensures
            *final(self) == (UserV1 { name, ..*old(self) }),
    {
        self.name = name;
    }
}

/// The identity with which a user last logged in.
#[derive(Debug, PartialEq, Eq, Clone, Copy, Structural)]
pub struct UserIdentity {
    pub identity: Identity,
    pub user_id: u32,
}

impl UserIdentity {
    pub fn new(user_id: u32, identity: Identity) -> (r: Self)
        ensures
            r == (UserIdentity { identity, user_id }),
    {
        Self { identity, user_id }
    }
}

/// The internal id of the user of an account.
#[derive(Debug, PartialEq, Eq, Clone, Copy, Structural)]
pub struct UserIdsMap {
    pub account_id: u128,
    pub user_id: u32,
}

impl UserIdsMap {
    pub fn new(account_id: u128, internal_id: u32) -> (r: Self)
        ensures
            r == (UserIdsMap { account_id, user_id: internal_id }),
    {
        Self { user_id: internal_id, account_id }
    }
}

/// The user id behind an identity: that of the row the store finds for it.
pub fn get_user_id(found: Option<&UserIdentity>) -> (r: Result<u32, ManagerError>)
    ensures
        found is None ==> r == Err::<u32, ManagerError>(ManagerError::NotAUser),
        found is Some ==> r == Ok::<u32, ManagerError>(found->0.user_id),
{
    match found {
        Some(u) => Ok(u.user_id),
        None => Err(ManagerError::NotAUser),
    }
}

/// What storing a user leads to.
#[derive(Debug)]
pub enum UserInsert {
    /// The user is stored already under this id, with the same name.
    Existing(u32),
    /// The stored user takes the new name; the row is updated.
    Rename(UserV1),
    /// The user is new: the row is stored, and then the map from its account to its id.
    Insert(UserV1),
}

/// How a user is stored, given the user that the store holds for its account.
pub open spec fn user_insert_spec(existing: Option<UserV1>, new_user: UserV1) -> UserInsert {
    match existing {
        None => UserInsert::Insert(new_user),
        Some(u) => if u.name@ == new_user.name@ {
            UserInsert::Existing(u.id)
        } else {
            UserInsert::Rename(UserV1 { name: new_user.name, ..u })
        },
    }
}

/// The user row that the store holds after storing; a new row gets the id `new_id`.
pub open spec fn stored_user(existing: Option<UserV1>, outcome: UserInsert, new_id: u32) -> UserV1 {
    match outcome {
        UserInsert::Existing(_) => existing->0,
        UserInsert::Rename(u) => u,
        UserInsert::Insert(u) => UserV1 { id: new_id, ..u },
    }
}

/// Storing the same user again changes nothing: it finds the user stored already under the
/// id of the row that the first storing left.
pub proof fn lemma_user_insert_idempotent(existing: Option<UserV1>, new_user: UserV1, new_id: u32)
    ensures
        user_insert_spec(
            Some(stored_user(existing, user_insert_spec(existing, new_user), new_id)),
            new_user,
        ) == UserInsert::Existing(
            stored_user(existing, user_insert_spec(existing, new_user), new_id).id,
        ),
{
}

/// Decides how `new_user` is stored, given the user that the store holds for its account.
pub fn user_insert(existing: Option<UserV1>, new_user: UserV1) -> (r: UserInsert)
    ensures
        r == user_insert_spec(existing, new_user),
{
    match existing {
        Some(mut user) => {
            if user.name != new_user.name {
                user.name = new_user.name;
                UserInsert::Rename(user)
            } else {
                UserInsert::Existing(user.id)
            }
        },
        None => UserInsert::Insert(new_user),
    }
}

/// What a login of a user with an identity leads to.
#[derive(Debug, PartialEq, Eq, Clone, Copy, Structural)]
pub enum UserLogin {
    /// The user logged in with this identity before.
    Unchanged,
    /// The stored identity of the user is replaced.
    Update(UserIdentity),
    /// The user logs in for the first time.
    Insert(UserIdentity),
}

/// How a login is stored, given the identity row that the store holds for the user.
pub open spec fn user_login_spec(existing: Option<UserIdentity>, user_id: u32, identity: Identity) -> UserLogin {
    match existing {
        Some(u) => if u.identity == identity {
            UserLogin::Unchanged
        } else {
            UserLogin::Update(UserIdentity { identity, ..u })
        },
        None => UserLogin::Insert(UserIdentity { identity, user_id }),
    }
}

/// The identity row of the user after a login is stored.
pub open spec fn stored_identity(existing: Option<UserIdentity>, outcome: UserLogin) -> Option<UserIdentity> {
    match outcome {
        UserLogin::Unchanged => existing,
        UserLogin::Update(u) => Some(u),
        UserLogin::Insert(u) => Some(u),
    }
}

/// A second login with the same identity changes nothing.
pub proof fn lemma_user_login_idempotent(existing: Option<UserIdentity>, user_id: u32, identity: Identity)
    ensures
        user_login_spec(
            stored_identity(existing, user_login_spec(existing, user_id, identity)),
            user_id,
            identity,
        ) == UserLogin::Unchanged,
{
}

/// Decides how the login of the user `user_id` with `identity` is stored, given the identity
/// that the store holds for the user.
pub fn user_login(existing: Option<UserIdentity>, user_id: u32, identity: Identity) -> (r: UserLogin)
    ensures
        r == user_login_spec(existing, user_id, identity),
{
    match existing {
        Some(mut u) => {
            if u.identity == identity {
                UserLogin::Unchanged
            } else {
                u.identity = identity;
                UserLogin::Update(u)
            }
        },
        None => UserLogin::Insert(UserIdentity::new(user_id, identity)),
    }
}

} // verus!
