use base64::Engine;
use rokio::accounts::{make_profile, merge_accounts, with_account, with_changes, without_account};
use rokio::crypto::{decrypt_string, derive_key, encrypt_string};
use rokio::error::VaultError;
use rokio::profiles::Profile;
use rokio::roblox::RobloxUserData;
use rokio::vault::{
    add_account, add_profile, clear_accounts, create_vault, create_vault_with_nonce,
    delete_account, export_accounts, get_accounts, get_vault_status, import_accounts,
    load_accounts, lock_vault, save_accounts, save_accounts_with_nonces, unlock_vault,
    update_account, CryptoState, EncryptedAccount, VaultData, VaultFile,
};

const HOST: &str = "ROKIO-LINUX-vaulthost-tester";

fn user(id: i64, name: &str) -> RobloxUserData {
    RobloxUserData {
        id,
        name: name.to_string(),
        display_name: format!("{} (display)", name),
        thumbnail: Some(format!("https://thumbs.example/{}.png", id)),
    }
}

fn profile(id: &str, user_id: i64, cookie: &str) -> Profile {
    Profile {
        id: id.to_string(),
        cookie: cookie.to_string(),
        user_id,
        username: format!("user{}", user_id),
        display_name: format!("User {}", user_id),
        thumbnail: if user_id % 2 == 0 { None } else { Some("t.png".to_string()) },
        alias: format!("alias-{}", id),
        description: "a note\nwith two lines".to_string(),
        is_favorite: user_id % 3 == 0,
        last_played_at: 1_700_000_000_000 + user_id as u64,
        created_at: 1_600_000_000 + user_id as u64,
    }
}

fn same(a: &Profile, b: &Profile) -> bool {
    a.id == b.id
        && a.cookie == b.cookie
        && a.user_id == b.user_id
        && a.username == b.username
        && a.display_name == b.display_name
        && a.thumbnail == b.thumbnail
        && a.alias == b.alias
        && a.description == b.description
        && a.is_favorite == b.is_favorite
        && a.last_played_at == b.last_played_at
        && a.created_at == b.created_at
}

fn same_list(a: &[Profile], b: &[Profile]) -> bool {
    a.len() == b.len() && a.iter().zip(b.iter()).all(|(x, y)| same(x, y))
}

fn new_vault(password: &str) -> (VaultFile, CryptoState) {
    let mut state = CryptoState::new();
    let record = create_vault(password, HOST, &mut state);
    (VaultFile::Record(record), state)
}

#[test]
fn create_then_unlock_with_the_right_and_the_wrong_password() {
    let mut state = CryptoState::new();
    let record = create_vault("correct-horse", HOST, &mut state);
    assert_eq!(record.version, 1);
    assert!(record.accounts.is_empty());
    assert!(state.is_unlocked());
    assert_eq!(state.key, Some(derive_key("correct-horse", HOST)));

    let file = VaultFile::Record(record.clone());
    let mut session = CryptoState::new();
    assert_eq!(unlock_vault(&file, "correct-horse", HOST, &mut session), Ok(true));
    assert!(session.is_unlocked());
    assert_eq!(session.key, Some(derive_key("correct-horse", HOST)));

    let mut other = CryptoState::new();
    assert_eq!(unlock_vault(&file, "wrong", HOST, &mut other), Ok(false));
    assert!(!other.is_unlocked());
    assert_eq!(other.key, None);

    // a failed attempt changes neither the record nor a session that was open
    assert_eq!(unlock_vault(&file, "wrong", HOST, &mut session), Ok(false));
    assert_eq!(session.key, Some(derive_key("correct-horse", HOST)));
    match &file {
        VaultFile::Record(after) => {
            assert_eq!(after.verification, record.verification);
            assert_eq!(after.version, record.version);
        }
        _ => panic!("the file holds a record"),
    }
}

#[test]
fn a_vault_opens_only_on_the_machine_that_made_it() {
    let (file, _) = new_vault("pw");
    let mut session = CryptoState::new();
    assert_eq!(
        unlock_vault(&file, "pw", "ROKIO-LINUX-elsewhere-tester", &mut session),
        Ok(false)
    );
    assert_eq!(unlock_vault(&file, "pw", HOST, &mut session), Ok(true));
}

#[test]
fn the_verification_blob_seals_the_marker() {
    let mut state = CryptoState::new();
    let record = create_vault_with_nonce("pw", HOST, &[4u8; 12], &mut state);
    let key = derive_key("pw", HOST);
    assert_eq!(
        decrypt_string(&record.verification, &key).unwrap(),
        "ROKIO_VAULT_V1"
    );
    let again = create_vault_with_nonce("pw", HOST, &[4u8; 12], &mut CryptoState::new());
    assert_eq!(again.verification, record.verification);
    let fresh = create_vault("pw", HOST, &mut CryptoState::new());
    assert_ne!(fresh.verification, record.verification);
}

#[test]
fn a_blob_of_another_text_does_not_unlock() {
    let key = derive_key("pw", HOST);
    let record = VaultData {
        version: 1,
        verification: encrypt_string("ROKIO_VAULT_V2", &key).unwrap(),
        accounts: vec![],
    };
    let mut session = CryptoState::new();
    assert_eq!(
        unlock_vault(&VaultFile::Record(record), "pw", HOST, &mut session),
        Ok(false)
    );
    assert!(!session.is_unlocked());
}

#[test]
fn unlock_tells_a_missing_or_broken_vault_from_a_wrong_password() {
    let mut session = CryptoState::new();
    assert_eq!(
        unlock_vault(&VaultFile::Missing, "pw", HOST, &mut session),
        Err(VaultError::NotFound)
    );
    assert_eq!(
        unlock_vault(&VaultFile::Malformed, "pw", HOST, &mut session),
        Err(VaultError::Parse)
    );
    assert_eq!(
        unlock_vault(&VaultFile::Unreadable, "pw", HOST, &mut session),
        Err(VaultError::Io)
    );
    assert!(!session.is_unlocked());
}

#[test]
fn lock_drops_the_key_and_may_be_repeated() {
    let (_, mut state) = new_vault("pw");
    assert!(state.is_unlocked());
    lock_vault(&mut state);
    assert!(!state.is_unlocked());
    assert_eq!(state.key, None);
    lock_vault(&mut state);
    assert!(!state.is_unlocked());
    assert!(!CryptoState::default().is_unlocked());
}

#[test]
fn status_reports_file_and_session() {
    let (_, mut state) = new_vault("pw");
    let status = get_vault_status(true, &state);
    assert!(status.exists && status.unlocked);
    lock_vault(&mut state);
    let status = get_vault_status(false, &state);
    assert!(!status.exists && !status.unlocked);
}

#[test]
fn a_locked_session_rejects_every_account_operation() {
    let (file, mut state) = new_vault("pw");
    lock_vault(&mut state);
    assert_eq!(get_accounts(&file, &state).err(), Some(VaultError::Locked));
    assert_eq!(
        add_account(&file, &state, "c".to_string(), user(1, "a")).err(),
        Some(VaultError::Locked)
    );
    assert_eq!(
        add_profile(&file, &state, profile("a", 1, "c")).err(),
        Some(VaultError::Locked)
    );
    assert_eq!(
        update_account(&file, &state, &profile("a", 1, "c")).err(),
        Some(VaultError::Locked)
    );
    assert_eq!(delete_account(&file, &state, "a").err(), Some(VaultError::Locked));
    assert_eq!(clear_accounts(&file, &state).err(), Some(VaultError::Locked));
    assert_eq!(
        import_accounts(&file, &state, &None, true).err(),
        Some(VaultError::Locked)
    );
    assert_eq!(
        export_accounts(Some("{}".to_string()), &state),
        Err(VaultError::Locked)
    );
    assert_eq!(
        get_accounts(&VaultFile::Missing, &state).err(),
        Some(VaultError::Locked)
    );
}

#[test]
fn saved_accounts_load_equal_in_every_field() {
    let (file, state) = new_vault("pw");
    let key = state.key.unwrap();
    let accounts = vec![
        profile("id-1", 1, "_|WARNING|_token-one"),
        profile("id-2", 2, ""),
        profile("id-3", 3, "tökén ☃"),
    ];
    let first = save_accounts(&file, &key, &accounts).unwrap();
    let second = save_accounts(&file, &key, &accounts).unwrap();

    let before = match &file {
        VaultFile::Record(r) => r.clone(),
        _ => panic!("the file holds a record"),
    };
    for saved in [&first, &second] {
        assert_eq!(saved.version, before.version);
        assert_eq!(saved.verification, before.verification);
        assert_eq!(saved.accounts.len(), 3);
        let loaded = load_accounts(&VaultFile::Record(saved.clone()), &key).unwrap();
        assert!(same_list(&loaded, &accounts));
    }
    for i in 0..3 {
        assert_ne!(
            first.accounts[i].encrypted_cookie,
            second.accounts[i].encrypted_cookie
        );
        assert_ne!(first.accounts[i].encrypted_cookie, accounts[i].cookie);
        assert_eq!(first.accounts[i].id, accounts[i].id);
        assert_eq!(first.accounts[i].created_at, accounts[i].created_at);
    }
    // the password still unlocks what was saved
    let mut session = CryptoState::new();
    assert_eq!(
        unlock_vault(&VaultFile::Record(first), "pw", HOST, &mut session),
        Ok(true)
    );
}

#[test]
fn saving_with_given_nonces_is_a_function() {
    let (file, state) = new_vault("pw");
    let key = state.key.unwrap();
    let accounts = vec![profile("a", 1, "one"), profile("b", 2, "two")];
    let nonces = [[1u8; 12], [2u8; 12]];
    let first = save_accounts_with_nonces(&file, &key, &accounts, &nonces).unwrap();
    let second = save_accounts_with_nonces(&file, &key, &accounts, &nonces).unwrap();
    for i in 0..2 {
        assert_eq!(
            first.accounts[i].encrypted_cookie,
            second.accounts[i].encrypted_cookie
        );
        assert_eq!(
            decrypt_string(&first.accounts[i].encrypted_cookie, &key).unwrap(),
            accounts[i].cookie
        );
    }
    assert_ne!(
        first.accounts[0].encrypted_cookie,
        first.accounts[1].encrypted_cookie
    );
    let other = save_accounts_with_nonces(&file, &key, &accounts, &[[3u8; 12], [2u8; 12]]).unwrap();
    assert_ne!(
        first.accounts[0].encrypted_cookie,
        other.accounts[0].encrypted_cookie
    );
    assert_eq!(
        first.accounts[1].encrypted_cookie,
        other.accounts[1].encrypted_cookie
    );
    for (i, nonce) in nonces.iter().enumerate() {
        let bytes = base64::engine::general_purpose::STANDARD
            .decode(&first.accounts[i].encrypted_cookie)
            .unwrap();
        assert_eq!(&bytes[..12], nonce);
        assert_eq!(bytes.len(), 12 + accounts[i].cookie.len() + 16);
    }
}

#[test]
fn saving_needs_a_record_to_save_over() {
    let key = [1u8; 32];
    assert_eq!(
        save_accounts(&VaultFile::Missing, &key, &[]).err(),
        Some(VaultError::NotFound)
    );
    assert_eq!(
        save_accounts(&VaultFile::Malformed, &key, &[]).err(),
        Some(VaultError::Parse)
    );
    assert_eq!(
        save_accounts(&VaultFile::Unreadable, &key, &[]).err(),
        Some(VaultError::Io)
    );
}

#[test]
fn loading_a_missing_vault_gives_no_accounts() {
    let key = [1u8; 32];
    assert!(load_accounts(&VaultFile::Missing, &key).unwrap().is_empty());
    assert_eq!(
        load_accounts(&VaultFile::Malformed, &key).err(),
        Some(VaultError::Parse)
    );
    assert_eq!(
        load_accounts(&VaultFile::Unreadable, &key).err(),
        Some(VaultError::Io)
    );
}

#[test]
fn one_account_that_does_not_open_fails_the_whole_load() {
    let (file, state) = new_vault("pw");
    let key = state.key.unwrap();
    let accounts = vec![profile("a", 1, "one"), profile("b", 2, "two"), profile("c", 3, "x")];
    let mut saved = save_accounts(&file, &key, &accounts).unwrap();

    let other_key = derive_key("other", HOST);
    assert_eq!(
        load_accounts(&VaultFile::Record(saved.clone()), &other_key).err(),
        Some(VaultError::Authentication)
    );

    saved.accounts[1].encrypted_cookie = "%%%".to_string();
    assert_eq!(
        load_accounts(&VaultFile::Record(saved.clone()), &key).err(),
        Some(VaultError::Decode)
    );
    // the first failure in order is the one reported
    saved.accounts[0].encrypted_cookie = encrypt_string("one", &other_key).unwrap();
    assert_eq!(
        load_accounts(&VaultFile::Record(saved), &key).err(),
        Some(VaultError::Authentication)
    );
}

#[test]
fn adding_the_same_user_twice_fails_and_keeps_one_account() {
    let (file, state) = new_vault("pw");
    let (added, record) =
        add_account(&file, &state, "token-1".to_string(), user(77, "builder")).unwrap();
    assert_eq!(added.cookie, "token-1");
    assert_eq!(added.user_id, 77);
    assert_eq!(added.username, "builder");
    assert_eq!(added.display_name, "builder (display)");
    assert_eq!(added.thumbnail, Some("https://thumbs.example/77.png".to_string()));
    assert_eq!(added.alias, "");
    assert_eq!(added.description, "");
    assert!(!added.is_favorite);
    assert_eq!(added.last_played_at, 0);
    assert!(added.created_at > 1_700_000_000);
    assert_eq!(added.id.len(), 36);

    let file = VaultFile::Record(record);
    let second = add_account(&file, &state, "token-2".to_string(), user(77, "builder"));
    assert_eq!(second.err(), Some(VaultError::DuplicateAccount));

    let accounts = get_accounts(&file, &state).unwrap();
    assert_eq!(accounts.len(), 1);
    assert!(same(&accounts[0], &added));

    let (other, record) =
        add_account(&file, &state, "token-3".to_string(), user(78, "other")).unwrap();
    assert_ne!(other.id, added.id);
    let accounts = get_accounts(&VaultFile::Record(record), &state).unwrap();
    assert_eq!(accounts.len(), 2);
    assert!(same(&accounts[0], &added));
    assert!(same(&accounts[1], &other));
}

#[test]
fn adding_to_a_missing_vault_finds_no_vault() {
    let (_, state) = new_vault("pw");
    assert_eq!(
        add_account(&VaultFile::Missing, &state, "t".to_string(), user(1, "a")).err(),
        Some(VaultError::NotFound)
    );
    assert_eq!(
        add_account(&VaultFile::Malformed, &state, "t".to_string(), user(1, "a")).err(),
        Some(VaultError::Parse)
    );
}

#[test]
fn update_edits_what_the_user_may_edit_and_nothing_else() {
    let (file, state) = new_vault("pw");
    let key = state.key.unwrap();
    let accounts = vec![profile("a", 1, "one"), profile("b", 2, "two")];
    let file = VaultFile::Record(save_accounts(&file, &key, &accounts).unwrap());

    let mut change = profile("b", 999, "another token");
    change.alias = "main".to_string();
    change.description = "the good one".to_string();
    change.is_favorite = true;
    change.last_played_at = 42;
    change.username = "ignored".to_string();
    change.created_at = 1;

    let record = update_account(&file, &state, &change).unwrap();
    let loaded = get_accounts(&VaultFile::Record(record), &state).unwrap();
    assert_eq!(loaded.len(), 2);
    assert!(same(&loaded[0], &accounts[0]));
    let mut expected = profile("b", 2, "two");
    expected.alias = "main".to_string();
    expected.description = "the good one".to_string();
    expected.is_favorite = true;
    expected.last_played_at = 42;
    assert!(same(&loaded[1], &expected));

    assert_eq!(
        update_account(&file, &state, &profile("zz", 1, "one")).err(),
        Some(VaultError::AccountNotFound)
    );
    assert_eq!(
        update_account(&VaultFile::Missing, &state, &change).err(),
        Some(VaultError::AccountNotFound)
    );
}

#[test]
fn delete_removes_the_account_with_the_id() {
    let (file, state) = new_vault("pw");
    let key = state.key.unwrap();
    let accounts = vec![profile("a", 1, "one"), profile("b", 2, "two"), profile("c", 3, "x")];
    let file = VaultFile::Record(save_accounts(&file, &key, &accounts).unwrap());

    let record = delete_account(&file, &state, "b").unwrap();
    let loaded = get_accounts(&VaultFile::Record(record), &state).unwrap();
    assert!(same_list(&loaded, &[profile("a", 1, "one"), profile("c", 3, "x")]));

    assert_eq!(
        delete_account(&file, &state, "missing").err(),
        Some(VaultError::AccountNotFound)
    );
    assert_eq!(
        delete_account(&file, &state, "").err(),
        Some(VaultError::AccountNotFound)
    );
}

#[test]
fn clear_removes_every_account_and_keeps_the_password() {
    let (file, state) = new_vault("pw");
    let key = state.key.unwrap();
    let file = VaultFile::Record(
        save_accounts(&file, &key, &[profile("a", 1, "one"), profile("b", 2, "two")]).unwrap(),
    );
    let record = clear_accounts(&file, &state).unwrap();
    assert!(record.accounts.is_empty());
    let cleared = VaultFile::Record(record);
    assert!(get_accounts(&cleared, &state).unwrap().is_empty());
    assert_eq!(unlock_vault(&cleared, "pw", HOST, &mut CryptoState::new()), Ok(true));
    assert_eq!(
        clear_accounts(&VaultFile::Missing, &state).err(),
        Some(VaultError::NotFound)
    );
}

#[test]
fn import_replaces_or_merges() {
    let (file, state) = new_vault("pw");
    let key = state.key.unwrap();
    let stored = vec![profile("a", 1, "one"), profile("b", 2, "two")];
    let file = VaultFile::Record(save_accounts(&file, &key, &stored).unwrap());

    let incoming = vec![profile("x", 2, "two again"), profile("y", 5, "five"), profile("z", 5, "5")];
    let mut backup = save_accounts(&file, &key, &incoming).unwrap();
    let foreign = derive_key("someone else", HOST);
    backup.accounts.push(EncryptedAccount {
        id: "w".to_string(),
        encrypted_cookie: encrypt_string("theirs", &foreign).unwrap(),
        user_id: 9,
        username: "u".to_string(),
        display_name: "U".to_string(),
        thumbnail: None,
        alias: String::new(),
        description: String::new(),
        is_favorite: false,
        last_played_at: 0,
        created_at: 0,
    });
    let backup = Some(backup);

    let (count, merged) = import_accounts(&file, &state, &backup, true).unwrap();
    assert_eq!(count, 3);
    let loaded = get_accounts(&VaultFile::Record(merged), &state).unwrap();
    assert!(same_list(
        &loaded,
        &[profile("a", 1, "one"), profile("b", 2, "two"), profile("y", 5, "five")]
    ));

    let (count, replaced) = import_accounts(&file, &state, &backup, false).unwrap();
    assert_eq!(count, 3);
    let loaded = get_accounts(&VaultFile::Record(replaced), &state).unwrap();
    assert!(same_list(&loaded, &incoming));

    assert_eq!(
        import_accounts(&file, &state, &None, false).err(),
        Some(VaultError::Parse)
    );
    assert_eq!(
        import_accounts(&VaultFile::Missing, &state, &backup, true).err(),
        Some(VaultError::NotFound)
    );
}

#[test]
fn export_hands_out_the_file_as_it_is() {
    let (_, state) = new_vault("pw");
    assert_eq!(
        export_accounts(Some("{\"version\":1}".to_string()), &state),
        Ok("{\"version\":1}".to_string())
    );
    assert_eq!(export_accounts(None, &state), Ok("{}".to_string()));
}

#[test]
fn list_rules_on_plain_lists() {
    let list = vec![profile("a", 1, "one"), profile("b", 2, "two"), profile("a", 3, "x")];

    assert_eq!(
        with_account(list.clone(), profile("n", 2, "t")).err(),
        Some(VaultError::DuplicateAccount)
    );
    let longer = with_account(list.clone(), profile("n", 4, "t")).unwrap();
    assert_eq!(longer.len(), 4);
    assert!(same(&longer[3], &profile("n", 4, "t")));
    assert!(same_list(&longer[..3], &list));

    let mut change = profile("a", 0, "");
    change.alias = "first only".to_string();
    let edited = with_changes(list.clone(), &change).unwrap();
    assert_eq!(edited[0].alias, "first only");
    assert_eq!(edited[0].cookie, "one");
    assert_eq!(edited[2].alias, "alias-a");
    assert_eq!(
        with_changes(list.clone(), &profile("q", 1, "")).err(),
        Some(VaultError::AccountNotFound)
    );

    let fewer = without_account(list.clone(), "a").unwrap();
    assert!(same_list(&fewer, &[profile("b", 2, "two")]));
    assert_eq!(
        without_account(list.clone(), "q").err(),
        Some(VaultError::AccountNotFound)
    );
    assert_eq!(
        without_account(vec![], "a").err(),
        Some(VaultError::AccountNotFound)
    );

    let merged = merge_accounts(
        vec![profile("a", 1, "one")],
        &vec![profile("b", 1, "dup"), profile("c", 2, "two"), profile("d", 2, "dup")],
    );
    assert!(same_list(&merged, &[profile("a", 1, "one"), profile("c", 2, "two")]));

    let made = make_profile("the-id".to_string(), "tok".to_string(), user(5, "five"), 99);
    assert_eq!(made.id, "the-id");
    assert_eq!(made.cookie, "tok");
    assert_eq!(made.user_id, 5);
    assert_eq!(made.username, "five");
    assert_eq!(made.created_at, 99);
    assert_eq!(made.last_played_at, 0);
    assert!(same(&made.duplicate(), &made));
}
