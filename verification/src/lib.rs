//! Switch between the Roblox Studio accounts signed in on this machine.
//!
//! The library holds the rules: how a name given on the command line picks an
//! account, how the project and personal alias files merge, how Studio's
//! registry value lists the signed-in accounts, and what each command reports.
//! Reading the credential stores, the files and the terminal is left to the
//! binary around it.

pub mod config;
pub mod credential;
pub mod json;
pub mod macos;
pub mod switch;
pub mod text;
pub mod windows;

pub use config::{personal_file_read, project_search_step, AliasFile, Config, ProjectSearch, Source};
pub use credential::{Account, CredentialStore, StoreError};
pub use macos::MacCredentialStore;
pub use switch::{
    choose_action, current_account, get_store, list_rows, plan_picker, plan_switch,
    resolve_account, resolve_lowered, Action, CurrentAccount, GlobalFlags, ListRow, PickerError,
    PickerPlan, Platform, ResolveError, Resolved, StoreChoice, SwitchCli, SwitchCommands,
    SwitchPlan, Via,
};
pub use windows::WindowsCredentialStore;
