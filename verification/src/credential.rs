//! The accounts Studio has signed in, and the stores that hold them.

use vstd::prelude::*;
use vstd::string::*;

verus! {

/// A Roblox account as stored by Studio.
#[derive(Debug, Clone)]
pub struct Account {
    pub user_id: String,
    pub username: String,
    pub profile_pic_url: Option<String>,
}

/// An account as plain text.
pub struct AccountView {
    pub user_id: Seq<char>,
    pub username: Seq<char>,
    pub profile_pic_url: Option<Seq<char>>,
}

impl View for Account {
    type V = AccountView;

    open spec fn view(&self) -> AccountView {
        AccountView {
            user_id: self.user_id@,
            username: self.username@,
            profile_pic_url: self.profile_pic_url.deep_view(),
        }
    }
}

/// The accounts of a list, as plain text.
pub open spec fn accounts_view(accounts: Seq<Account>) -> Seq<AccountView> {
    accounts.map_values(|a: Account| a@)
}

/// Why a credential store could not answer.
#[derive(Debug)]
pub enum StoreError {
    /// Studio keeps no account list on this platform.
    UnsupportedPlatform,
    /// The store exists in code but has never been checked against a real
    /// install.
    NotYetTested,
    /// One `;`-separated entry of the registry's account list is not JSON.
    MalformedAccountEntry { entry: String, cause: String },
    /// The platform's own store refused, in its own words.
    Backend { message: String },
}

pub open spec fn unsupported_platform_text() -> Seq<char> {
    "rbx-switch is not supported on this platform.\nStudio stores its signed-in accounts in the Windows registry or the macOS keychain, and neither exists here."@
}

pub open spec fn not_yet_tested_text() -> Seq<char> {
    "macOS support is not yet tested \u{2014} contributions welcome!"@
}

pub open spec fn malformed_entry_text() -> Seq<char> {
    "Failed to parse account entry"@
}

/// The sentence that reports `error` to the user.
pub open spec fn store_error_message(error: StoreError) -> Seq<char> {
    match error {
        StoreError::UnsupportedPlatform => unsupported_platform_text(),
        StoreError::NotYetTested => not_yet_tested_text(),
        StoreError::MalformedAccountEntry { .. } => malformed_entry_text(),
        StoreError::Backend { message } => message@,
    }
}

/// The sentence followed by the reason beneath it, where there is one: a
/// malformed entry adds `: ` and what the JSON parser reported.
pub open spec fn store_error_chain(error: StoreError) -> Seq<char> {
    match error {
        StoreError::MalformedAccountEntry { cause, .. } => malformed_entry_text() + ": "@ + cause@,
        _ => store_error_message(error),
    }
}

impl StoreError {
    /// The sentence that reports this error to the user.
    pub fn message(&self) -> (text: String)
        ensures
            text@ == store_error_message(*self),
    {
        match self {
            StoreError::UnsupportedPlatform => String::from_str(
                "rbx-switch is not supported on this platform.\nStudio stores its signed-in accounts in the Windows registry or the macOS keychain, and neither exists here.",
            ),
            StoreError::NotYetTested => String::from_str(
                "macOS support is not yet tested \u{2014} contributions welcome!",
            ),
            StoreError::MalformedAccountEntry { .. } => String::from_str(
                "Failed to parse account entry",
            ),
            StoreError::Backend { message } => message.clone(),
        }
    }

    /// The sentence followed by the reason beneath it, as an error chain is
    /// printed in full.
    pub fn full_message(&self) -> (text: String)
        ensures
            text@ == store_error_chain(*self),
    {
        match self {
            StoreError::MalformedAccountEntry { cause, .. } => {
                let mut text = String::from_str("Failed to parse account entry");
                text.append(": ");
                text.append(cause.as_str());
                text
            },
            _ => self.message(),
        }
    }
}

/// Reading and writing the credentials Studio keeps, one implementation per
/// platform.
pub trait CredentialStore {
    /// List all signed-in accounts.
    fn list_accounts(&self) -> Result<Vec<Account>, StoreError>;

    /// The id of the account Studio currently uses, if any.
    fn current_user_id(&self) -> Result<Option<String>, StoreError>;

    /// Make `user_id` the account Studio uses.
    fn set_user_id(&self, user_id: &str) -> Result<(), StoreError>;
}

} // verus!
