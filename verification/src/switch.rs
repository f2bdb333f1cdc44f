//! What each command decides: which account a name picks, what the listing
//! and the picker show, and which store serves this platform.

use vstd::prelude::*;
use vstd::string::*;

use crate::config::{source_wording, Config, Source};
use crate::credential::{accounts_view, Account, AccountView, StoreError};
use crate::macos::MacCredentialStore;
use crate::windows::WindowsCredentialStore;
use crate::text::{decimal, lowercase, to_lowercase};

verus! {

/// Whether some account in `accounts` has the user id `id`.
pub open spec fn has_user_id(accounts: Seq<AccountView>, id: Seq<char>) -> bool {
    exists|i: int| 0 <= i < accounts.len() && #[trigger] accounts[i].user_id == id
}

/// `i` is the first account in `accounts` with the user id `id`.
pub open spec fn is_first_with_id(accounts: Seq<AccountView>, id: Seq<char>, i: int) -> bool {
    &&& 0 <= i < accounts.len()
    &&& accounts[i].user_id == id
    &&& forall|j: int| 0 <= j < i ==> (#[trigger] accounts[j]).user_id != id
}

/// The index of the first account with the user id `id`.
pub open spec fn first_with_id(accounts: Seq<AccountView>, id: Seq<char>) -> int {
    choose|i: int| is_first_with_id(accounts, id, i)
}

/// `i` is the first of `names` equal to `name`.
pub open spec fn is_first_name(names: Seq<Seq<char>>, name: Seq<char>, i: int) -> bool {
    &&& 0 <= i < names.len()
    &&& names[i] == name
    &&& forall|j: int| 0 <= j < i ==> #[trigger] names[j] != name
}

/// Which rule picked the account.
#[derive(Debug, Clone, Copy, PartialEq, Eq, Structural)]
pub enum Via {
    /// The name is the user id of a signed-in account.
    UserId,
    /// The name is an alias, from the given file, of a signed-in account.
    Alias(Source),
    /// The name is the username of a signed-in account, ignoring case.
    Username,
}

/// What an alias picks: its id, written in decimal, when an account with
/// that user id is signed in.
pub open spec fn alias_pick(accounts: Seq<AccountView>, alias: Option<(u64, Source)>) -> Option<
    (Seq<char>, Via),
> {
    match alias {
        Some((id, source)) => if has_user_id(accounts, decimal(id as nat)) {
            Some((decimal(id as nat), Via::Alias(source)))
        } else {
            None
        },
        None => None,
    }
}

/// The account that `name` picks, by the first rule that applies:
/// 1. a signed-in user id picks itself;
/// 2. an alias picks its id, when that id is signed in (an alias for an
///    account that is not signed in falls through);
/// 3. a username picks the first account whose lowercased username equals
///    the lowercased name.
///
/// `alias` is what the aliases say of `name`; `lowered_name` and
/// `lowered_usernames` are `name` and the usernames of `accounts` lowercased.
pub open spec fn resolution(
    accounts: Seq<AccountView>,
    alias: Option<(u64, Source)>,
    name: Seq<char>,
    lowered_name: Seq<char>,
    lowered_usernames: Seq<Seq<char>>,
) -> Option<(Seq<char>, Via)> {
    if has_user_id(accounts, name) {
        Some((name, Via::UserId))
    } else if alias_pick(accounts, alias) is Some {
        alias_pick(accounts, alias)
    } else if exists|i: int| is_first_name(lowered_usernames, lowered_name, i) {
        let i = choose|i: int| is_first_name(lowered_usernames, lowered_name, i);
        Some((accounts[i].user_id, Via::Username))
    } else {
        None
    }
}

/// The usernames of `accounts`, lowercased.
pub open spec fn lowered_usernames(accounts: Seq<AccountView>) -> Seq<Seq<char>> {
    accounts.map_values(|a: AccountView| lowercase(a.username))
}

/// The account `name` picks among `accounts`, with `config`'s aliases.
pub open spec fn resolve_spec(accounts: Seq<AccountView>, config: Config, name: Seq<char>) -> Option<
    (Seq<char>, Via),
> {
    resolution(
        accounts,
        config.alias(name),
        name,
        lowercase(name),
        lowered_usernames(accounts),
    )
}

/// A name that picked an account: its user id, and the rule that picked it.
#[derive(Debug)]
pub struct Resolved {
    pub user_id: String,
    pub via: Via,
}

/// A name that picks no signed-in account.
#[derive(Debug)]
pub enum ResolveError {
    NoMatch { name: String },
}

/// The sentence that reports that `name` picks no account.
pub open spec fn no_match_text(name: Seq<char>) -> Seq<char> {
    "No account found matching '"@ + name
        + "'. Use `rbx-switch list` to see available accounts."@
}

impl ResolveError {
    /// The sentence that reports this error.
    pub fn message(&self) -> (text: String)
        ensures
            match self {
                ResolveError::NoMatch { name } => text@ == no_match_text(name@),
            },
    {
        match self {
            ResolveError::NoMatch { name } => {
                let mut text = String::from_str("No account found matching '");
                text.append(name.as_str());
                text.append("'. Use `rbx-switch list` to see available accounts.");
                text
            },
        }
    }
}

proof fn lemma_first_with_id_unique(accounts: Seq<AccountView>, id: Seq<char>, i: int, k: int)
    requires
        is_first_with_id(accounts, id, i),
        is_first_with_id(accounts, id, k),
    ensures
        i == k,
{
    if i < k {
        assert(accounts[i].user_id != id);
    } else if k < i {
        assert(accounts[k].user_id != id);
    }
}

proof fn lemma_first_name_unique(names: Seq<Seq<char>>, name: Seq<char>, i: int, k: int)
    requires
        is_first_name(names, name, i),
        is_first_name(names, name, k),
    ensures
        i == k,
{
    if i < k {
        assert(names[i] != name);
    } else if k < i {
        assert(names[k] != name);
    }
}

/// The position of the first account with the user id `id`.
fn position_of_user_id(accounts: &[Account], id: &String) -> (r: Option<usize>)
    ensures
        match r {
            Some(i) => is_first_with_id(accounts_view(accounts@), id@, i as int)
                && first_with_id(accounts_view(accounts@), id@) == i,
            None => !has_user_id(accounts_view(accounts@), id@),
        },
{
    let ghost view = accounts_view(accounts@);
    let mut i: usize = 0;
    while i < accounts.len()
        invariant
            i <= accounts.len(),
            view == accounts_view(accounts@),
            view.len() == accounts@.len(),
            forall|j: int| 0 <= j < i ==> (#[trigger] view[j]).user_id != id@,
        decreases accounts.len() - i,
    {
        assert(view[i as int] == accounts@[i as int]@);
        if accounts[i].user_id == *id {
            proof {
                assert(is_first_with_id(view, id@, i as int));
                lemma_first_with_id_unique(view, id@, i as int, first_with_id(view, id@));
            }
            return Some(i);
        }
        i = i + 1;
    }
    None
}

/// The account `name` picks, given the lowercased name and usernames.
///
/// `lowered_name` is `name` lowercased and `lowered_usernames[i]` the
/// username of `accounts[i]` lowercased; the rules are those of
/// [`resolution`].
pub fn resolve_lowered(
    accounts: &[Account],
    config: &Config,
    name: &str,
    lowered_name: &str,
    lowered_usernames: &Vec<String>,
) -> (r: Result<Resolved, ResolveError>)
    requires
        lowered_usernames.len() == accounts.len(),
    ensures
        match r {
            Ok(resolved) => resolution(
                accounts_view(accounts@),
                config.alias(name@),
                name@,
                lowered_name@,
                lowered_usernames@.map_values(|s: String| s@),
            ) == Some((resolved.user_id@, resolved.via)),
            Err(ResolveError::NoMatch { name: n }) => n@ == name@ && resolution(
                accounts_view(accounts@),
                config.alias(name@),
                name@,
                lowered_name@,
                lowered_usernames@.map_values(|s: String| s@),
            ) is None,
        },
{
    let ghost view = accounts_view(accounts@);
    let ghost names = lowered_usernames@.map_values(|s: String| s@);
    let name_text = String::from_str(name);
    if position_of_user_id(accounts, &name_text).is_some() {
        return Ok(Resolved { user_id: name_text, via: Via::UserId });
    }
    match config.resolve_alias(name) {
        Some((id, source)) => {
            if position_of_user_id(accounts, &id).is_some() {
                return Ok(Resolved { user_id: id, via: Via::Alias(source) });
            }
        },
        None => {},
    }
    assert(alias_pick(view, config.alias(name@)) is None);
    let lowered = String::from_str(lowered_name);
    let mut i: usize = 0;
    while i < accounts.len()
        invariant
            i <= accounts.len(),
            lowered_usernames.len() == accounts.len(),
            lowered@ == lowered_name@,
            view == accounts_view(accounts@),
            names == lowered_usernames@.map_values(|s: String| s@),
            !has_user_id(view, name@),
            alias_pick(view, config.alias(name@)) is None,
            forall|j: int| 0 <= j < i ==> #[trigger] names[j] != lowered_name@,
        decreases accounts.len() - i,
    {
        assert(names[i as int] == lowered_usernames@[i as int]@);
        if lowered_usernames[i] == lowered {
            proof {
                assert(is_first_name(names, lowered_name@, i as int));
                let k = choose|k: int| is_first_name(names, lowered_name@, k);
                lemma_first_name_unique(names, lowered_name@, i as int, k);
                assert(view[i as int] == accounts@[i as int]@);
            }
            return Ok(Resolved { user_id: accounts[i].user_id.clone(), via: Via::Username });
        }
        i = i + 1;
    }
    proof {
        assert forall|k: int| !is_first_name(names, lowered_name@, k) by {
            if is_first_name(names, lowered_name@, k) {
                assert(names[k] != lowered_name@);
            }
        }
    }
    Err(ResolveError::NoMatch { name: name_text })
}


/// Lowercase `name` and every username, then resolve.
fn resolve_full(accounts: &[Account], config: &Config, name: &str) -> (r: Result<Resolved, ResolveError>)
    ensures
        match r {
            Ok(resolved) => resolve_spec(accounts_view(accounts@), *config, name@) == Some(
                (resolved.user_id@, resolved.via),
            ),
            Err(ResolveError::NoMatch { name: n }) => n@ == name@ && resolve_spec(
                accounts_view(accounts@),
                *config,
                name@,
            ) is None,
        },
{
    let ghost view = accounts_view(accounts@);
    let lowered_name = to_lowercase(name);
    let mut lowered: Vec<String> = Vec::new();
    let mut i: usize = 0;
    while i < accounts.len()
        invariant
            i <= accounts.len(),
            view == accounts_view(accounts@),
            lowered.len() == i,
            forall|j: int| 0 <= j < i ==> #[trigger] lowered@[j]@ == lowercase(view[j].username),
        decreases accounts.len() - i,
    {
        assert(view[i as int] == accounts@[i as int]@);
        lowered.push(to_lowercase(accounts[i].username.as_str()));
        i = i + 1;
    }
    assert(lowered@.map_values(|s: String| s@) =~= lowered_usernames(view));
    resolve_lowered(accounts, config, name, lowered_name.as_str(), &lowered)
}

/// The user id of the account that `name` picks among `accounts`: a user id
/// picks itself, an alias its account when that account is signed in, and a
/// username, compared without case, its account.
pub fn resolve_account(accounts: &[Account], config: &Config, name: &str) -> (r: Result<
    String,
    ResolveError,
>)
    ensures
        match r {
            Ok(id) => resolve_spec(accounts_view(accounts@), *config, name@) matches Some(
                (picked, _),
            ) && id@ == picked,
            Err(ResolveError::NoMatch { name: n }) => n@ == name@ && resolve_spec(
                accounts_view(accounts@),
                *config,
                name@,
            ) is None,
        },
{
    match resolve_full(accounts, config, name) {
        Ok(resolved) => Ok(resolved.user_id),
        Err(error) => Err(error),
    }
}

/// A switch decided on: the account to make active, and the alias file that
/// named it when an alias did.
#[derive(Debug)]
pub struct SwitchPlan {
    pub user_id: String,
    pub username: String,
    pub alias_source: Option<Source>,
}

/// The line that follows a switch made through an alias from `source`:
/// Studio keeps the account machine-wide, so the user is told which file
/// chose it.
pub open spec fn alias_note_text(source: Source) -> Seq<char> {
    "  alias from "@ + source_wording(source)
        + " - Studio stays on this account until you switch again"@
}

impl SwitchPlan {
    /// The line to print under "Switched to ..." when an alias chose the
    /// account; nothing when a user id or username did.
    pub fn alias_note(&self) -> (r: Option<String>)
        ensures
            match self.alias_source {
                Some(source) => r matches Some(text) && text@ == alias_note_text(source),
                None => r is None,
            },
    {
        match self.alias_source {
            Some(source) => {
                let mut text = String::from_str("  alias from ");
                text.append(source.describe());
                text.append(" - Studio stays on this account until you switch again");
                Some(text)
            },
            None => None,
        }
    }
}

/// What `rbx-switch use <name>` decides: the account `name` picks, its
/// username as listed, and the alias file when an alias picked it. The
/// account is always one of `accounts`.
pub fn plan_switch(accounts: &[Account], config: &Config, name: &str) -> (r: Result<
    SwitchPlan,
    ResolveError,
>)
    ensures
        match r {
            Ok(plan) => resolve_spec(accounts_view(accounts@), *config, name@) matches Some(
                (picked, via),
            ) && plan.user_id@ == picked && has_user_id(accounts_view(accounts@), picked)
                && plan.username@ == accounts_view(accounts@)[first_with_id(
                accounts_view(accounts@),
                picked,
            )].username && plan.alias_source == match via {
                Via::Alias(source) => Some(source),
                _ => None,
            },
            Err(ResolveError::NoMatch { name: n }) => n@ == name@ && resolve_spec(
                accounts_view(accounts@),
                *config,
                name@,
            ) is None,
        },
{
    let resolved = match resolve_full(accounts, config, name) {
        Ok(resolved) => resolved,
        Err(error) => return Err(error),
    };
    proof {
        law_resolved_account_is_signed_in(accounts_view(accounts@), *config, name@);
    }
    let position = position_of_user_id(accounts, &resolved.user_id);
    let i = match position {
        Some(i) => i,
        None => {
            // A resolved id is always listed, so "account not found" cannot
            // happen here.
            assert(false);
            0
        },
    };
    assert(accounts_view(accounts@)[i as int] == accounts@[i as int]@);
    let alias_source = match resolved.via {
        Via::Alias(source) => Some(source),
        _ => None,
    };
    Ok(SwitchPlan { user_id: resolved.user_id, username: accounts[i].username.clone(), alias_source })
}

/// Whatever a name resolves to is the user id of a signed-in account, so a
/// switch never targets an account that is not listed.
pub proof fn law_resolved_account_is_signed_in(
    accounts: Seq<AccountView>,
    config: Config,
    name: Seq<char>,
)
    ensures
        resolve_spec(accounts, config, name) matches Some((id, _)) ==> has_user_id(accounts, id),
{
    if let Some((id, via)) = resolve_spec(accounts, config, name) {
        if !has_user_id(accounts, name) && alias_pick(accounts, config.alias(name)) is None {
            let names = lowered_usernames(accounts);
            let i = choose|i: int| is_first_name(names, lowercase(name), i);
            assert(accounts[i].user_id == id);
        }
    }
}

/// The username rule: when the name is no signed-in user id and no alias
/// picks a signed-in account, the name picks the first account whose
/// lowercased username equals the lowercased name, and nothing when no
/// lowercased username equals it.
pub proof fn law_username_rule(
    accounts: Seq<AccountView>,
    alias: Option<(u64, Source)>,
    name: Seq<char>,
    lowered_name: Seq<char>,
    lowered_usernames: Seq<Seq<char>>,
)
    requires
        lowered_usernames.len() == accounts.len(),
        forall|i: int| 0 <= i < accounts.len() ==> #[trigger] accounts[i].user_id != name,
        match alias {
            Some((id, _)) => forall|i: int|
                0 <= i < accounts.len() ==> #[trigger] accounts[i].user_id != decimal(id as nat),
            None => true,
        },
    ensures
        (forall|i: int| 0 <= i < accounts.len() ==> #[trigger] lowered_usernames[i] != lowered_name)
            ==> resolution(accounts, alias, name, lowered_name, lowered_usernames) is None,
        forall|i: int|
            0 <= i < accounts.len() && #[trigger] lowered_usernames[i] == lowered_name && (forall|j: int|
                0 <= j < i ==> lowered_usernames[j] != lowered_name) ==> resolution(
                accounts,
                alias,
                name,
                lowered_name,
                lowered_usernames,
            ) == Some((accounts[i].user_id, Via::Username)),
{
    assert(!has_user_id(accounts, name));
    assert(alias_pick(accounts, alias) is None);
    assert forall|i: int|
        0 <= i < accounts.len() && #[trigger] lowered_usernames[i] == lowered_name && (forall|j: int|
            0 <= j < i ==> lowered_usernames[j] != lowered_name) implies resolution(
        accounts,
        alias,
        name,
        lowered_name,
        lowered_usernames,
    ) == Some((accounts[i].user_id, Via::Username)) by {
        assert(is_first_name(lowered_usernames, lowered_name, i));
        let k = choose|k: int| is_first_name(lowered_usernames, lowered_name, k);
        lemma_first_name_unique(lowered_usernames, lowered_name, i, k);
    }
    if forall|i: int| 0 <= i < accounts.len() ==> #[trigger] lowered_usernames[i] != lowered_name {
        assert forall|k: int| !is_first_name(lowered_usernames, lowered_name, k) by {
            if is_first_name(lowered_usernames, lowered_name, k) {
                assert(lowered_usernames[k] != lowered_name);
            }
        }
    }
}

/// A row or item is marked active exactly when the current user id is that
/// account's user id: never without a current account, and never for an
/// account whose id differs in any way.
pub proof fn law_active_means_same_id(account: AccountView, current: Option<Seq<char>>)
    ensures
        current is None ==> !is_active(account, current),
        current matches Some(id) ==> (is_active(account, current) <==> id == account.user_id),
{
}

/// A picker item is the username, the user id in parentheses, and the
/// marker ` *` exactly when the current user id is that account's.
pub proof fn law_picker_item(account: AccountView, current: Option<Seq<char>>)
    ensures
        current == Some(account.user_id) ==> picker_item_text(account, current)
            == account.username + " ("@ + account.user_id + ")"@ + " *"@,
        current != Some(account.user_id) ==> picker_item_text(account, current)
            == account.username + " ("@ + account.user_id + ")"@,
{
    reveal_strlit("");
    let base = account.username + " ("@ + account.user_id + ")"@;
    assert(base + ""@ =~= base);
}

/// A user id of a signed-in account resolves to itself, whatever the
/// aliases and usernames say.
pub proof fn law_user_id_resolves_to_itself(accounts: Seq<AccountView>, config: Config, id: Seq<char>)
    requires
        has_user_id(accounts, id),
    ensures
        resolve_spec(accounts, config, id) == Some((id, Via::UserId)),
{
}

/// Resolving the id a name resolved to gives that id again.
pub proof fn law_resolution_is_idempotent(accounts: Seq<AccountView>, config: Config, name: Seq<char>)
    ensures
        resolve_spec(accounts, config, name) matches Some((id, _)) ==> resolve_spec(
            accounts,
            config,
            id,
        ) == Some((id, Via::UserId)),
{
    law_resolved_account_is_signed_in(accounts, config, name);
}

/// An alias of a signed-in account picks that account, unless the name is
/// itself a signed-in user id.
pub proof fn law_alias_picks_its_account(
    accounts: Seq<AccountView>,
    config: Config,
    name: Seq<char>,
    id: u64,
    source: Source,
)
    requires
        !has_user_id(accounts, name),
        config.alias(name) == Some((id, source)),
        has_user_id(accounts, decimal(id as nat)),
    ensures
        resolve_spec(accounts, config, name) == Some((decimal(id as nat), Via::Alias(source))),
{
}

/// An alias whose account is not signed in is skipped: the name falls
/// through to the username rule, exactly as if there were no alias.
pub proof fn law_signed_out_alias_falls_through(
    accounts: Seq<AccountView>,
    config: Config,
    name: Seq<char>,
    id: u64,
    source: Source,
)
    requires
        config.alias(name) == Some((id, source)),
        !has_user_id(accounts, decimal(id as nat)),
    ensures
        resolve_spec(accounts, config, name) == resolution(
            accounts,
            None,
            name,
            lowercase(name),
            lowered_usernames(accounts),
        ),
{
}

/// Usernames match without regard to case: two names with the same
/// lowercase form pick the same account, unless one of them is a user id or
/// an alias that picks an account.
pub proof fn law_username_match_ignores_case(
    accounts: Seq<AccountView>,
    config: Config,
    name: Seq<char>,
    other: Seq<char>,
)
    requires
        lowercase(name) == lowercase(other),
        !has_user_id(accounts, name),
        !has_user_id(accounts, other),
        alias_pick(accounts, config.alias(name)) is None,
        alias_pick(accounts, config.alias(other)) is None,
    ensures
        resolve_spec(accounts, config, name) == resolve_spec(accounts, config, other),
{
}


/// Whether `account` is the one Studio currently uses.
pub open spec fn is_active(account: AccountView, current: Option<Seq<char>>) -> bool {
    current == Some(account.user_id)
}

/// One line of `rbx-switch list`.
#[derive(Debug)]
pub struct ListRow {
    pub username: String,
    pub user_id: String,
    /// Marked with `*`: this is the account Studio currently uses.
    pub active: bool,
}

/// What `rbx-switch list` shows: one row per account, in order, the current
/// one marked. No rows means no account is signed in.
pub fn list_rows(accounts: &[Account], current: &Option<String>) -> (rows: Vec<ListRow>)
    ensures
        rows.len() == accounts.len(),
        forall|i: int|
            0 <= i < rows.len() ==> {
                &&& (#[trigger] rows@[i]).username@ == accounts@[i].username@
                &&& rows@[i].user_id@ == accounts@[i].user_id@
                &&& rows@[i].active == is_active(accounts@[i]@, current.deep_view())
            },
{
    let mut rows: Vec<ListRow> = Vec::new();
    let mut i: usize = 0;
    while i < accounts.len()
        invariant
            i <= accounts.len(),
            rows.len() == i,
            forall|j: int|
                0 <= j < i ==> {
                    &&& (#[trigger] rows@[j]).username@ == accounts@[j].username@
                    &&& rows@[j].user_id@ == accounts@[j].user_id@
                    &&& rows@[j].active == is_active(accounts@[j]@, current.deep_view())
                },
        decreases accounts.len() - i,
    {
        let account = &accounts[i];
        let active = match current {
            Some(id) => *id == account.user_id,
            None => false,
        };
        rows.push(ListRow { username: account.username.clone(), user_id: account.user_id.clone(), active });
        i = i + 1;
    }
    rows
}

/// What `rbx-switch current` shows about the active account.
#[derive(Debug)]
pub struct CurrentAccount {
    /// The username of the active account, or `unknown` when the active id
    /// is not among the signed-in accounts.
    pub username: String,
    pub user_id: String,
}

/// What `rbx-switch current` shows: nothing when no account is active, else
/// the active id with the username of the first account that has it.
pub fn current_account(accounts: &[Account], current: &Option<String>) -> (r: Option<CurrentAccount>)
    ensures
        match current {
            None => r is None,
            Some(id) => r matches Some(shown) && shown.user_id@ == id@ && shown.username@ == if has_user_id(
                accounts_view(accounts@),
                id@,
            ) {
                accounts_view(accounts@)[first_with_id(accounts_view(accounts@), id@)].username
            } else {
                "unknown"@
            },
        },
{
    match current {
        None => None,
        Some(id) => {
            let username = match position_of_user_id(accounts, id) {
                Some(i) => {
                    assert(accounts_view(accounts@)[i as int] == accounts@[i as int]@);
                    accounts[i].username.clone()
                },
                None => String::from_str("unknown"),
            };
            Some(CurrentAccount { username, user_id: id.clone() })
        },
    }
}

/// One line of the interactive picker: `username (user id)`, followed by
/// ` *` for the active account.
pub open spec fn picker_item_text(account: AccountView, current: Option<Seq<char>>) -> Seq<char> {
    account.username + " ("@ + account.user_id + ")"@ + if is_active(account, current) {
        " *"@
    } else {
        ""@
    }
}

/// What the interactive picker will do.
#[derive(Debug)]
pub enum PickerPlan {
    /// No account is signed in; say so and stop.
    NoAccounts,
    /// Offer `items`, one per account in order, with `default` selected.
    Choose { items: Vec<String>, default: usize },
}

/// The picker was needed but is not allowed.
#[derive(Debug)]
pub enum PickerError {
    NonInteractive,
}

pub open spec fn non_interactive_text() -> Seq<char> {
    "No account named, and --non-interactive forbids the picker. Pass an alias, username or user id, or run `rbx-switch list` to see them."@
}

impl PickerError {
    /// The sentence that reports this error.
    pub fn message(&self) -> (text: String)
        ensures
            text@ == non_interactive_text(),
    {
        String::from_str(
            "No account named, and --non-interactive forbids the picker. Pass an alias, username or user id, or run `rbx-switch list` to see them.",
        )
    }
}

/// What `rbx-switch` with no name decides before it asks: with no account
/// there is nothing to pick; with `--non-interactive` the picker is refused;
/// otherwise one item per account, the active account selected (the first
/// one otherwise).
pub fn plan_picker(accounts: &[Account], current: &Option<String>, non_interactive: bool) -> (r:
    Result<PickerPlan, PickerError>)
    ensures
        accounts.len() == 0 ==> r matches Ok(PickerPlan::NoAccounts),
        accounts.len() > 0 && non_interactive ==> r matches Err(PickerError::NonInteractive),
        accounts.len() > 0 && !non_interactive ==> (r matches Ok(PickerPlan::Choose { items, default }) && {
            &&& items.len() == accounts.len()
            &&& forall|i: int|
                0 <= i < items.len() ==> (#[trigger] items@[i])@ == picker_item_text(
                    accounts@[i]@,
                    current.deep_view(),
                )
            &&& default == match current {
                Some(id) => if has_user_id(accounts_view(accounts@), id@) {
                    first_with_id(accounts_view(accounts@), id@)
                } else {
                    0
                },
                None => 0,
            }
        }),
{
    if accounts.len() == 0 {
        return Ok(PickerPlan::NoAccounts);
    }
    if non_interactive {
        return Err(PickerError::NonInteractive);
    }
    let mut items: Vec<String> = Vec::new();
    let mut i: usize = 0;
    while i < accounts.len()
        invariant
            i <= accounts.len(),
            items.len() == i,
            forall|j: int|
                0 <= j < i ==> (#[trigger] items@[j])@ == picker_item_text(
                    accounts@[j]@,
                    current.deep_view(),
                ),
        decreases accounts.len() - i,
    {
        let account = &accounts[i];
        let active = match current {
            Some(id) => *id == account.user_id,
            None => false,
        };
        let mut item = account.username.clone();
        item.append(" (");
        item.append(account.user_id.as_str());
        item.append(")");
        if active {
            item.append(" *");
        } else {
            proof {
                reveal_strlit("");
                assert(item@ + ""@ =~= item@);
            }
        }
        items.push(item);
        i = i + 1;
    }
    let default = match current {
        Some(id) => match position_of_user_id(accounts, id) {
            Some(p) => p,
            None => 0,
        },
        None => 0,
    };
    Ok(PickerPlan::Choose { items, default })
}

/// Flags that apply to every command.
#[derive(Debug, Clone)]
pub struct GlobalFlags {
    /// Never colour the output.
    pub no_color: bool,
    /// Fail instead of opening the interactive picker.
    pub non_interactive: bool,
}

impl Default for GlobalFlags {
    fn default() -> (flags: GlobalFlags)
        ensures
            !flags.no_color,
            !flags.non_interactive,
    {
        GlobalFlags { no_color: false, non_interactive: false }
    }
}

/// The subcommands.
#[derive(Debug)]
pub enum SwitchCommands {
    /// List all signed-in accounts.
    List,
    /// Show the currently active account.
    Current,
    /// Switch to a specific account by alias, username, or user id.
    Use { name: String },
}

/// The command line: a subcommand, or a bare name as shorthand for `use`.
#[derive(Debug)]
pub struct SwitchCli {
    pub command: Option<SwitchCommands>,
    pub name: Option<String>,
}

/// What a command line asks for.
#[derive(Debug)]
pub enum Action {
    List,
    Current,
    Switch { name: String },
    Pick,
}

/// The action a command line asks for: the subcommand when there is one,
/// else a switch to the bare name, else the interactive picker.
pub fn choose_action(cli: SwitchCli) -> (action: Action)
    ensures
        match cli.command {
            Some(SwitchCommands::List) => action is List,
            Some(SwitchCommands::Current) => action is Current,
            Some(SwitchCommands::Use { name }) => action matches Action::Switch { name: n } && n@ == name@,
            None => match cli.name {
                Some(name) => action matches Action::Switch { name: n } && n@ == name@,
                None => action is Pick,
            },
        },
{
    match cli.command {
        Some(SwitchCommands::List) => Action::List,
        Some(SwitchCommands::Current) => Action::Current,
        Some(SwitchCommands::Use { name }) => Action::Switch { name },
        None => match cli.name {
            Some(name) => Action::Switch { name },
            None => Action::Pick,
        },
    }
}

/// The platform the binary runs on, as far as the stores care.
#[derive(Debug, Clone, Copy, PartialEq, Eq, Structural)]
pub enum Platform {
    Windows,
    MacOs,
    Other,
}

/// The credential store that serves a platform.
pub enum StoreChoice {
    Windows(WindowsCredentialStore),
    Mac(MacCredentialStore),
}

/// The credential store for `platform`; an unsupported platform is an error
/// the user can act on.
pub fn get_store(platform: Platform) -> (r: Result<StoreChoice, StoreError>)
    ensures
        match platform {
            Platform::Windows => r matches Ok(StoreChoice::Windows(_)),
            Platform::MacOs => r matches Ok(StoreChoice::Mac(_)),
            Platform::Other => r matches Err(StoreError::UnsupportedPlatform),
        },
{
    match platform {
        Platform::Windows => Ok(StoreChoice::Windows(WindowsCredentialStore::new())),
        Platform::MacOs => Ok(StoreChoice::Mac(MacCredentialStore::new())),
        Platform::Other => Err(StoreError::UnsupportedPlatform),
    }
}

} // verus!
