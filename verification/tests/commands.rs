use rbx_switch::{
    choose_action, current_account, get_store, list_rows, plan_picker, Account, Action,
    CredentialStore, GlobalFlags, MacCredentialStore, PickerError, PickerPlan, Platform,
    StoreChoice, StoreError, SwitchCli, SwitchCommands,
};

fn account(user_id: &str, username: &str) -> Account {
    Account {
        user_id: user_id.to_string(),
        username: username.to_string(),
        profile_pic_url: None,
    }
}

fn accounts() -> Vec<Account> {
    vec![
        account("1234567890", "BuilderBot"),
        account("9876543210", "DevAccount"),
        account("1122334455", "MainAccount"),
    ]
}

#[test]
fn the_list_marks_only_the_active_account() {
    let rows = list_rows(&accounts(), &Some("9876543210".to_string()));
    assert_eq!(rows.len(), 3);
    assert_eq!(rows[0].username, "BuilderBot");
    assert_eq!(rows[0].user_id, "1234567890");
    assert!(!rows[0].active);
    assert!(rows[1].active);
    assert!(!rows[2].active);
}

#[test]
fn the_list_marks_nothing_without_an_active_account() {
    let rows = list_rows(&accounts(), &None);
    assert!(rows.iter().all(|r| !r.active));
    let rows = list_rows(&accounts(), &Some("42".to_string()));
    assert!(rows.iter().all(|r| !r.active));
}

#[test]
fn an_empty_list_has_no_rows() {
    assert!(list_rows(&[], &Some("1".to_string())).is_empty());
}

#[test]
fn the_current_account_is_shown_by_name() {
    let shown = current_account(&accounts(), &Some("1122334455".to_string())).unwrap();
    assert_eq!(shown.username, "MainAccount");
    assert_eq!(shown.user_id, "1122334455");
}

#[test]
fn an_active_id_that_is_not_listed_is_unknown() {
    let shown = current_account(&accounts(), &Some("5".to_string())).unwrap();
    assert_eq!(shown.username, "unknown");
    assert_eq!(shown.user_id, "5");
}

#[test]
fn no_active_account_shows_nothing() {
    assert!(current_account(&accounts(), &None).is_none());
}

#[test]
fn the_picker_lists_every_account_and_selects_the_active_one() {
    match plan_picker(&accounts(), &Some("9876543210".to_string()), false).unwrap() {
        PickerPlan::Choose { items, default } => {
            assert_eq!(
                items,
                vec![
                    "BuilderBot (1234567890)".to_string(),
                    "DevAccount (9876543210) *".to_string(),
                    "MainAccount (1122334455)".to_string(),
                ]
            );
            assert_eq!(default, 1);
        }
        PickerPlan::NoAccounts => panic!("accounts were given"),
    }
}

#[test]
fn the_picker_selects_the_first_account_without_an_active_one() {
    match plan_picker(&accounts(), &None, false).unwrap() {
        PickerPlan::Choose { default, .. } => assert_eq!(default, 0),
        PickerPlan::NoAccounts => panic!("accounts were given"),
    }
    match plan_picker(&accounts(), &Some("77".to_string()), false).unwrap() {
        PickerPlan::Choose { default, .. } => assert_eq!(default, 0),
        PickerPlan::NoAccounts => panic!("accounts were given"),
    }
}

#[test]
fn the_picker_refuses_when_non_interactive() {
    let error = plan_picker(&accounts(), &None, true).unwrap_err();
    assert!(matches!(error, PickerError::NonInteractive));
    assert!(error.message().contains("--non-interactive forbids the picker"));
    assert!(error.message().contains("rbx-switch list"));
}

#[test]
fn the_picker_with_no_accounts_has_nothing_to_pick_even_when_non_interactive() {
    assert!(matches!(plan_picker(&[], &None, true), Ok(PickerPlan::NoAccounts)));
    assert!(matches!(plan_picker(&[], &None, false), Ok(PickerPlan::NoAccounts)));
}

#[test]
fn a_subcommand_decides_the_action() {
    let cli = SwitchCli { command: Some(SwitchCommands::List), name: None };
    assert!(matches!(choose_action(cli), Action::List));
    let cli = SwitchCli { command: Some(SwitchCommands::Current), name: Some("x".to_string()) };
    assert!(matches!(choose_action(cli), Action::Current));
    let cli = SwitchCli {
        command: Some(SwitchCommands::Use { name: "qa".to_string() }),
        name: None,
    };
    match choose_action(cli) {
        Action::Switch { name } => assert_eq!(name, "qa"),
        _ => panic!("use must switch"),
    }
}

#[test]
fn a_bare_name_switches_and_nothing_opens_the_picker() {
    let cli = SwitchCli { command: None, name: Some("qa".to_string()) };
    match choose_action(cli) {
        Action::Switch { name } => assert_eq!(name, "qa"),
        _ => panic!("a bare name must switch"),
    }
    let cli = SwitchCli { command: None, name: None };
    assert!(matches!(choose_action(cli), Action::Pick));
}

#[test]
fn each_platform_gets_its_store() {
    assert!(matches!(get_store(Platform::Windows), Ok(StoreChoice::Windows(_))));
    assert!(matches!(get_store(Platform::MacOs), Ok(StoreChoice::Mac(_))));
    let error = match get_store(Platform::Other) {
        Err(error) => error,
        Ok(_) => panic!("no store on this platform"),
    };
    assert!(matches!(error, StoreError::UnsupportedPlatform));
    assert_eq!(
        error.message(),
        "rbx-switch is not supported on this platform.\nStudio stores its signed-in accounts in the Windows registry or the macOS keychain, and neither exists here."
    );
}

#[test]
fn the_mac_store_is_not_yet_tested() {
    let store = MacCredentialStore::new();
    let error = store.list_accounts().unwrap_err();
    assert_eq!(
        error.message(),
        "macOS support is not yet tested \u{2014} contributions welcome!"
    );
    assert!(matches!(store.current_user_id(), Err(StoreError::NotYetTested)));
    assert!(matches!(store.set_user_id("1"), Err(StoreError::NotYetTested)));
}

#[test]
fn global_flags_default_to_off() {
    let flags = GlobalFlags::default();
    assert!(!flags.no_color);
    assert!(!flags.non_interactive);
}

#[test]
fn a_backend_error_keeps_its_words() {
    let error = StoreError::Backend { message: "No 'users' value found".to_string() };
    assert_eq!(error.message(), "No 'users' value found");
}
