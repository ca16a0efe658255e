//! The token of the remote service: what to put in the secret store before
//! a run, and what the run has once the store was read.

use vstd::prelude::*;

verus! {

/// Why a run has no token.
#[derive(Debug, Clone, Copy, PartialEq, Eq, Structural)]
pub enum CredentialError {
    /// The secret store holds no token.
    CredentialMissing,
}

/// What to do with the secret store before it is read.
#[derive(Debug, Clone)]
pub enum StoreAction {
    /// Store this token, in place of any that is there.
    Put(String),
    /// Leave the store as it is.
    Leave,
}

/// Decides what to do with the secret store, given the token that the
/// environment offers in its place, if it offers one: that token is
/// stored; without one the store is left alone.
pub fn store_action(offered: Option<String>) -> (action: StoreAction)
    ensures
        action == match offered {
            Some(token) => StoreAction::Put(token),
            None => StoreAction::Leave,
        },
{
    match offered {
        Some(token) => StoreAction::Put(token),
        None => StoreAction::Leave,
    }
}

/// The token of a run, given what the secret store held when it was read.
pub fn token_from_store(stored: Option<String>) -> (r: Result<String, CredentialError>)
    ensures
        r == match stored {
            Some(token) => Ok::<String, CredentialError>(token),
            None => Err::<String, CredentialError>(CredentialError::CredentialMissing),
        },
{
    match stored {
        Some(token) => Ok(token),
        None => Err(CredentialError::CredentialMissing),
    }
}

} // verus!
