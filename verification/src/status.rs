//! The status codes under which the vault's outcomes cross a foreign
//! function interface.

use crate::error::Error;
use vstd::prelude::*;

verus! {

/// The operation succeeded.
pub const CLAWBOX_OK: i32 = 0;

/// The vault is locked.
pub const CLAWBOX_ERR_VAULT_LOCKED: i32 = 1;

/// The master password does not open the vault.
pub const CLAWBOX_ERR_INVALID_PASSWORD: i32 = 2;

/// Nothing is stored under the path.
pub const CLAWBOX_ERR_NOT_FOUND: i32 = 3;

/// The vault could not be written.
pub const CLAWBOX_ERR_IO: i32 = 4;

/// Anything else.
pub const CLAWBOX_ERR_UNKNOWN: i32 = -1;

/// The code of an outcome of `init`: every failure counts as one of writing.
pub fn init_status(outcome: &Result<(), Error>) -> (code: i32)
    ensures
        code == (if outcome is Ok {
            CLAWBOX_OK
        } else {
            CLAWBOX_ERR_IO
        }),
{
    match outcome {
        Ok(_) => CLAWBOX_OK,
        Err(_) => CLAWBOX_ERR_IO,
    }
}

/// The code of an outcome of `unlock`.
pub fn unlock_status(outcome: &Result<(), Error>) -> (code: i32)
    ensures
        code == (match *outcome {
            Ok(_) => CLAWBOX_OK,
            Err(Error::InvalidPassword) => CLAWBOX_ERR_INVALID_PASSWORD,
            Err(_) => CLAWBOX_ERR_UNKNOWN,
        }),
{
    match outcome {
        Ok(_) => CLAWBOX_OK,
        Err(Error::InvalidPassword) => CLAWBOX_ERR_INVALID_PASSWORD,
        Err(_) => CLAWBOX_ERR_UNKNOWN,
    }
}

/// The code of an outcome of `get`: a path that holds nothing is not found.
pub fn get_status(outcome: &Result<Option<String>, Error>) -> (code: i32)
    ensures
        code == (match *outcome {
            Ok(Some(_)) => CLAWBOX_OK,
            Ok(None) => CLAWBOX_ERR_NOT_FOUND,
            Err(Error::VaultLocked) => CLAWBOX_ERR_VAULT_LOCKED,
            Err(_) => CLAWBOX_ERR_UNKNOWN,
        }),
{
    match outcome {
        Ok(Some(_)) => CLAWBOX_OK,
        Ok(None) => CLAWBOX_ERR_NOT_FOUND,
        Err(Error::VaultLocked) => CLAWBOX_ERR_VAULT_LOCKED,
        Err(_) => CLAWBOX_ERR_UNKNOWN,
    }
}

/// The code of an outcome of `set`.
pub fn set_status(outcome: &Result<(), Error>) -> (code: i32)
    ensures
        code == (match *outcome {
            Ok(_) => CLAWBOX_OK,
            Err(Error::VaultLocked) => CLAWBOX_ERR_VAULT_LOCKED,
            Err(_) => CLAWBOX_ERR_UNKNOWN,
        }),
{
    match outcome {
        Ok(_) => CLAWBOX_OK,
        Err(Error::VaultLocked) => CLAWBOX_ERR_VAULT_LOCKED,
        Err(_) => CLAWBOX_ERR_UNKNOWN,
    }
}

/// The code of an outcome of `delete`: a path that held nothing is not found.
pub fn delete_status(outcome: &Result<bool, Error>) -> (code: i32)
    ensures
        code == (match *outcome {
            Ok(true) => CLAWBOX_OK,
            Ok(false) => CLAWBOX_ERR_NOT_FOUND,
            Err(Error::VaultLocked) => CLAWBOX_ERR_VAULT_LOCKED,
            Err(_) => CLAWBOX_ERR_UNKNOWN,
        }),
{
    match outcome {
        Ok(true) => CLAWBOX_OK,
        Ok(false) => CLAWBOX_ERR_NOT_FOUND,
        Err(Error::VaultLocked) => CLAWBOX_ERR_VAULT_LOCKED,
        Err(_) => CLAWBOX_ERR_UNKNOWN,
    }
}

} // verus!
