use rbx_switch::{
    plan_switch, resolve_account, resolve_lowered, Account, Config, ResolveError, Source, Via,
};

fn account(user_id: &str, username: &str) -> Account {
    Account {
        user_id: user_id.to_string(),
        username: username.to_string(),
        profile_pic_url: None,
    }
}

fn accounts() -> Vec<Account> {
    vec![
        account("1122334455", "MainAccount"),
        account("9876543210", "DevAccount"),
    ]
}

#[test]
fn a_user_id_resolves_to_itself() {
    let config = Config::default();
    assert_eq!(
        resolve_account(&accounts(), &config, "9876543210").unwrap(),
        "9876543210"
    );
}

#[test]
fn a_username_resolves_regardless_of_case() {
    let config = Config::default();
    assert_eq!(
        resolve_account(&accounts(), &config, "mainaccount").unwrap(),
        "1122334455"
    );
}

#[test]
fn an_alias_resolves_through_the_config() {
    let config = Config::with_alias("dev", 9_876_543_210, Source::Project);
    assert_eq!(
        resolve_account(&accounts(), &config, "dev").unwrap(),
        "9876543210"
    );
}

/// An alias pointing at an account that is no longer signed in must fall
/// through to the username pass rather than resolve to a dead id.
#[test]
fn an_alias_for_a_signed_out_account_falls_through() {
    let config = Config::with_alias("gone", 1, Source::Project);
    let error = resolve_account(&accounts(), &config, "gone").unwrap_err();
    assert!(
        error.message().contains("No account found matching"),
        "unexpected error: {}",
        error.message()
    );
}

#[test]
fn an_unknown_name_names_the_command_that_lists_accounts() {
    let config = Config::default();
    let error = resolve_account(&accounts(), &config, "nobody").unwrap_err();
    assert!(
        error.message().contains("rbx-switch list"),
        "unexpected error: {}",
        error.message()
    );
}

#[test]
fn the_no_match_error_quotes_the_name() {
    let config = Config::default();
    let error = resolve_account(&accounts(), &config, "nobody").unwrap_err();
    assert_eq!(
        error.message(),
        "No account found matching 'nobody'. Use `rbx-switch list` to see available accounts."
    );
    match error {
        ResolveError::NoMatch { name } => assert_eq!(name, "nobody"),
    }
}

#[test]
fn an_upper_case_username_resolves() {
    let config = Config::default();
    assert_eq!(
        resolve_account(&accounts(), &config, "DEVACCOUNT").unwrap(),
        "9876543210"
    );
}

#[test]
fn a_user_id_beats_an_alias_of_the_same_name() {
    let config = Config::with_alias("9876543210", 1_122_334_455, Source::Global);
    assert_eq!(
        resolve_account(&accounts(), &config, "9876543210").unwrap(),
        "9876543210"
    );
}

#[test]
fn an_alias_beats_a_username_of_the_same_name() {
    let config = Config::with_alias("mainaccount", 9_876_543_210, Source::Project);
    assert_eq!(
        resolve_account(&accounts(), &config, "mainaccount").unwrap(),
        "9876543210"
    );
}

#[test]
fn the_first_account_with_a_matching_username_wins() {
    let list = vec![
        account("1", "Twin"),
        account("2", "twin"),
    ];
    let config = Config::default();
    assert_eq!(resolve_account(&list, &config, "TWIN").unwrap(), "1");
}

#[test]
fn resolving_a_resolved_id_gives_it_back() {
    let config = Config::with_alias("dev", 9_876_543_210, Source::Project);
    let id = resolve_account(&accounts(), &config, "dev").unwrap();
    assert_eq!(resolve_account(&accounts(), &config, &id).unwrap(), id);
}

#[test]
fn no_accounts_means_no_match() {
    let config = Config::with_alias("dev", 9_876_543_210, Source::Project);
    assert!(resolve_account(&[], &config, "dev").is_err());
}

#[test]
fn a_switch_through_an_alias_names_the_file() {
    let config = Config::with_alias("dev", 9_876_543_210, Source::Project);
    let plan = plan_switch(&accounts(), &config, "dev").unwrap();
    assert_eq!(plan.user_id, "9876543210");
    assert_eq!(plan.username, "DevAccount");
    assert_eq!(plan.alias_source, Some(Source::Project));
    assert_eq!(
        plan.alias_note().unwrap(),
        "  alias from this project - Studio stays on this account until you switch again"
    );

    let config = Config::with_alias("dev", 9_876_543_210, Source::Global);
    let plan = plan_switch(&accounts(), &config, "dev").unwrap();
    assert_eq!(
        plan.alias_note().unwrap(),
        "  alias from your personal aliases - Studio stays on this account until you switch again"
    );
}

#[test]
fn a_switch_by_username_has_no_alias_note() {
    let config = Config::default();
    let plan = plan_switch(&accounts(), &config, "mainACCOUNT").unwrap();
    assert_eq!(plan.user_id, "1122334455");
    assert_eq!(plan.username, "MainAccount");
    assert_eq!(plan.alias_source, None);
    assert!(plan.alias_note().is_none());
}

#[test]
fn a_switch_to_an_unknown_name_fails() {
    let config = Config::default();
    assert!(plan_switch(&accounts(), &config, "nobody").is_err());
}

#[test]
fn resolution_uses_the_lowercased_forms_it_is_given() {
    let config = Config::default();
    let lowered = vec!["mainaccount".to_string(), "devaccount".to_string()];
    let resolved = resolve_lowered(&accounts(), &config, "Dev", "devaccount", &lowered).unwrap();
    assert_eq!(resolved.user_id, "9876543210");
    assert_eq!(resolved.via, Via::Username);

    let resolved = resolve_lowered(&accounts(), &config, "1122334455", "x", &lowered).unwrap();
    assert_eq!(resolved.user_id, "1122334455");
    assert_eq!(resolved.via, Via::UserId);

    let config = Config::with_alias("qa", 9_876_543_210, Source::Global);
    let resolved = resolve_lowered(&accounts(), &config, "qa", "qa", &lowered).unwrap();
    assert_eq!(resolved.user_id, "9876543210");
    assert_eq!(resolved.via, Via::Alias(Source::Global));

    assert!(resolve_lowered(&accounts(), &Config::default(), "Dev", "dev", &lowered).is_err());
}
