use r2nova::config::{account_from_keychain_record, kept_secret, new_account, ConfigManager};
use r2nova::creds::{build_profile, delete_secret_result, secret_plan, Jurisdiction, ProfileStore, SecretPlan};
use r2nova::error::AppError;
use r2nova::ids::new_profile_id;
use r2nova::models::{AccountInput, Timestamp, TransferStatus};
use r2nova::tasks::{file_name_of_key, status_name, TransferManager};

fn input(name: &str) -> AccountInput {
    AccountInput {
        name: name.into(),
        endpoint: "e".into(),
        access_key_id: "AKIA".into(),
        secret_access_key: "s".into(),
    }
}

#[test]
fn store_roundtrip() {
    let mut store = ProfileStore::default();
    store.upsert(build_profile("p1".into(), "prod".into(), "acct".into(), "AKIA".into(), Jurisdiction::Default, false));
    assert_eq!(store.list().len(), 1);
    assert_eq!(store.get("p1").unwrap().name, "prod");
}

#[test]
fn store_replaces_and_removes() {
    let mut store = ProfileStore::default();
    store.upsert(build_profile("p1".into(), "a".into(), "acct".into(), "K".into(), Jurisdiction::Eu, false));
    store.upsert(build_profile("p1".into(), "b".into(), "acct".into(), "K".into(), Jurisdiction::Eu, true));
    assert_eq!(store.list().len(), 1);
    assert_eq!(store.get("p1").unwrap().name, "b");
    assert!(matches!(store.get("zz"), Err(AppError::NotFound(m)) if m == "profile zz"));
    assert_eq!(store.remove("p1").unwrap().name, "b");
    assert!(store.remove("p1").is_err());
}

#[test]
fn update_with_empty_secret_keeps_keychain() {
    let existing = build_profile("p-keep".into(), "prod".into(), "acct".into(), "AKIA".into(), Jurisdiction::Default, true);
    let plan = secret_plan(Some(&existing), "", None).unwrap();
    assert!(plan.has_cf_token);
    assert_eq!(plan, SecretPlan { store_s3: false, store_cf: false, has_cf_token: true });
}

#[test]
fn create_without_secret_fails() {
    let err = secret_plan(None, "", None).unwrap_err();
    assert_eq!(err.kind(), "invalidCredentials");
}

#[test]
fn new_profile_with_token_writes_both() {
    let plan = secret_plan(None, "secret", Some("tok")).unwrap();
    assert_eq!(plan, SecretPlan { store_s3: true, store_cf: true, has_cf_token: true });
    let plan = secret_plan(None, "secret", Some("")).unwrap();
    assert_eq!(plan, SecretPlan { store_s3: true, store_cf: false, has_cf_token: false });
}

#[test]
fn missing_keychain_entry_deletes_fine() {
    assert!(delete_secret_result(None).is_ok());
    assert!(delete_secret_result(Some("No matching entry found in secure storage".into())).is_ok());
    assert!(delete_secret_result(Some("Entry NOT FOUND".into())).is_ok());
    assert!(matches!(delete_secret_result(Some("locked".into())), Err(AppError::Keyring(m)) if m == "locked"));
}

#[test]
fn profile_ids_are_uuids() {
    let id = new_profile_id();
    assert_eq!(id.len(), 36);
    assert_eq!(&id[14..15], "4");
    assert_ne!(new_profile_id(), id);
}

#[test]
fn one_active_account_at_a_time() {
    let mut cm = ConfigManager::new("/tmp/accounts.json".into(), false);
    let a = new_account(&input("a"));
    let b = new_account(&input("b"));
    cm.insert_account(a.clone());
    cm.insert_account(b.clone());
    assert!(cm.get_active_account().is_none());
    cm.set_active_account(Some(&a.id)).unwrap();
    assert_eq!(cm.active_account_id(), Some(a.id.clone()));
    cm.set_active_account(Some(&b.id)).unwrap();
    assert_eq!(cm.get_active_account().unwrap().id, b.id);
    assert!(!cm.get_account(&a.id).unwrap().is_active);
    assert!(matches!(cm.set_active_account(Some("nobody")), Err(AppError::AccountNotFound(m)) if m == "nobody"));
    assert!(cm.get_active_account().is_none());
    cm.remove_account(&a.id);
    assert_eq!(cm.list_accounts().len(), 1);
}

#[test]
fn edits_keep_creation_time_and_mark() {
    let mut cm = ConfigManager::new("/tmp/accounts.json".into(), true);
    let a = new_account(&input("a"));
    cm.insert_account(a.clone());
    cm.set_active_account(Some(&a.id)).unwrap();
    let edited = cm.updated_account(&a.id, &input("renamed")).unwrap();
    assert_eq!(edited.name, "renamed");
    assert_eq!(edited.created_at, a.created_at);
    assert!(edited.is_active);
    assert!(cm.updated_account("x", &input("r")).is_err());
    assert_eq!(kept_secret("", Some("old".into())), Some("old".into()));
    assert_eq!(kept_secret("new", Some("old".into())), Some("new".into()));
}

#[test]
fn keychain_records_need_all_fields() {
    let t = Timestamp { secs: 1, nanos: 0 };
    let ok = account_from_keychain_record("id1", Some("n".into()), Some("e".into()), Some("k".into()), Some("id1"), t).unwrap();
    assert!(ok.is_active);
    let err = account_from_keychain_record("id1", Some("n".into()), None, Some("k".into()), None, t).unwrap_err();
    assert!(matches!(err, AppError::Config(m) if m == "Account id1 missing endpoint field"));
}

#[test]
fn legacy_tasks_follow_their_state() {
    let mut tm = TransferManager::new();
    let id = tm.create_upload_task("b".into(), "dir/file.txt".into(), "/tmp/file.txt".into(), 50);
    assert_eq!(tm.get_task(&id).unwrap().status, TransferStatus::Pending);
    tm.update_progress(&id, 20).unwrap();
    assert_eq!(tm.get_task(&id).unwrap().bytes_transferred, 20);
    tm.pause_task(&id).unwrap();
    assert_eq!(tm.get_task(&id).unwrap().status, TransferStatus::Paused);
    tm.resume_task(&id).unwrap();
    tm.complete_task(&id).unwrap();
    let t = tm.get_task(&id).unwrap();
    assert_eq!(t.status, TransferStatus::Completed);
    assert_eq!(t.bytes_transferred, 50);
    assert!(matches!(tm.fail_task("nope"), Err(AppError::TransferNotFound(m)) if m == "nope"));
    assert_eq!(tm.get_all_tasks().len(), 1);
    assert_eq!(file_name_of_key("dir/file.txt"), "file.txt");
    assert_eq!(file_name_of_key("file.txt"), "file.txt");
    assert_eq!(status_name(TransferStatus::InProgress), "in_progress");
}
