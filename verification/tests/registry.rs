use rbx_switch::{StoreError, WindowsCredentialStore};

#[test]
fn entries_are_read_in_order() {
    let value = r#"{"1234567890":{"username":"BuilderBot","profilePicUrl":"https://p/1"}};{"9876543210":{"username":"DevAccount"}}"#;
    let accounts = WindowsCredentialStore::parse_accounts_from_registry(value).unwrap();
    assert_eq!(accounts.len(), 2);
    assert_eq!(accounts[0].user_id, "1234567890");
    assert_eq!(accounts[0].username, "BuilderBot");
    assert_eq!(accounts[0].profile_pic_url.as_deref(), Some("https://p/1"));
    assert_eq!(accounts[1].user_id, "9876543210");
    assert_eq!(accounts[1].username, "DevAccount");
    assert_eq!(accounts[1].profile_pic_url, None);
}

#[test]
fn blank_entries_and_surrounding_space_are_ignored() {
    let value = "  {\"1\":{\"username\":\"a\"}} ;; \n ;\t{\"2\":{\"username\":\"b\"}};";
    let accounts = WindowsCredentialStore::parse_accounts_from_registry(value).unwrap();
    let ids: Vec<&str> = accounts.iter().map(|a| a.user_id.as_str()).collect();
    assert_eq!(ids, vec!["1", "2"]);
}

#[test]
fn an_empty_value_lists_no_account() {
    assert!(WindowsCredentialStore::parse_accounts_from_registry("").unwrap().is_empty());
    assert!(WindowsCredentialStore::parse_accounts_from_registry(" ; ").unwrap().is_empty());
}

#[test]
fn a_missing_or_odd_username_reads_as_empty() {
    let value = r#"{"1":{}};{"2":{"username":5,"profilePicUrl":null}};{"3":"text"}"#;
    let accounts = WindowsCredentialStore::parse_accounts_from_registry(value).unwrap();
    assert_eq!(accounts.len(), 3);
    for account in &accounts {
        assert_eq!(account.username, "");
        assert_eq!(account.profile_pic_url, None);
    }
}

#[test]
fn an_entry_that_is_not_an_object_lists_nothing() {
    let value = r#"[1,2];"plain";{"7":{"username":"x"}}"#;
    let accounts = WindowsCredentialStore::parse_accounts_from_registry(value).unwrap();
    assert_eq!(accounts.len(), 1);
    assert_eq!(accounts[0].user_id, "7");
}

#[test]
fn one_entry_may_list_several_accounts() {
    let value = r#"{"1":{"username":"a"},"2":{"username":"b"}}"#;
    let accounts = WindowsCredentialStore::parse_accounts_from_registry(value).unwrap();
    assert_eq!(accounts.len(), 2);
}

#[test]
fn a_malformed_entry_is_an_error_naming_it() {
    let value = r#"{"1":{"username":"a"}};  {not json} ;{also not}"#;
    let error = WindowsCredentialStore::parse_accounts_from_registry(value).unwrap_err();
    match &error {
        StoreError::MalformedAccountEntry { entry, .. } => assert_eq!(entry, "{not json}"),
        other => panic!("unexpected error: {other:?}"),
    }
    assert_eq!(error.message(), "Failed to parse account entry");
    assert!(error.full_message().starts_with("Failed to parse account entry: "));
    assert!(error.full_message().len() > "Failed to parse account entry: ".len());
}

#[test]
fn a_new_store_is_a_store() {
    let _store = WindowsCredentialStore::new();
}

#[test]
fn two_values_joined_by_a_separator_list_both() {
    let first = r#"{"1":{"username":"a"}}"#;
    let second = r#" {"2":{"username":"b"}} ; {"3":{"username":"c"}}"#;
    let joined = format!("{first};{second}");
    let both = WindowsCredentialStore::parse_accounts_from_registry(&joined).unwrap();
    let mut expected = WindowsCredentialStore::parse_accounts_from_registry(first).unwrap();
    expected.extend(WindowsCredentialStore::parse_accounts_from_registry(second).unwrap());
    let ids = |v: &Vec<rbx_switch::Account>| v.iter().map(|a| a.user_id.clone()).collect::<Vec<_>>();
    assert_eq!(ids(&both), ids(&expected));
    assert_eq!(ids(&both), vec!["1", "2", "3"]);
}


#[test]
fn unicode_white_space_around_an_entry_is_ignored() {
    let value = "\u{3000}{\"1\":{\"username\":\"a\"}}\u{2028};\u{a0}\u{1680} ";
    let accounts = WindowsCredentialStore::parse_accounts_from_registry(value).unwrap();
    assert_eq!(accounts.len(), 1);
    assert_eq!(accounts[0].user_id, "1");
}
