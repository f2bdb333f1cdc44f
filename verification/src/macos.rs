//! The macOS credential store. Studio keeps the account list in its
//! `defaults` domain and the active id in its binary cookie store; neither
//! has been checked against a real install, so every method refuses.

use vstd::prelude::*;

use crate::credential::{Account, CredentialStore, StoreError};

verus! {

/// The credential store Studio uses on macOS.
pub struct MacCredentialStore;

impl MacCredentialStore {
    pub fn new() -> Self {
        MacCredentialStore
    }
}

impl CredentialStore for MacCredentialStore {
    fn list_accounts(&self) -> (r: Result<Vec<Account>, StoreError>)
        ensures
            r matches Err(StoreError::NotYetTested),
    {
        Err(StoreError::NotYetTested)
    }

    fn current_user_id(&self) -> (r: Result<Option<String>, StoreError>)
        ensures
            r matches Err(StoreError::NotYetTested),
    {
        Err(StoreError::NotYetTested)
    }

    fn set_user_id(&self, _user_id: &str) -> (r: Result<(), StoreError>)
        ensures
            r matches Err(StoreError::NotYetTested),
    {
        Err(StoreError::NotYetTested)
    }
}

} // verus!
