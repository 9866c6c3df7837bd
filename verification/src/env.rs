use vstd::prelude::*;

use crate::error::ManagerError;

verus! {

/// A setting of the database, by key.
#[derive(Debug)]
pub struct Env {
    pub key: String,
    pub value: String,
}

/// The setting that a request stores: only the database itself may set one.
pub fn set_env_var(is_internal: bool, key: String, value: String) -> (r: Result<Env, ManagerError>)
    ensures
        !is_internal ==> r == Err::<Env, ManagerError>(ManagerError::Unauthorized),
        is_internal ==> r == Ok::<Env, ManagerError>(Env { key, value }),
{
    if !is_internal {
        return Err(ManagerError::Unauthorized);
    }
    Ok(Env { key, value })
}

} // verus!
