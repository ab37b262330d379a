use r2nova::commands::{gtk_theme_is_dark, lowered_theme_is_dark, macos_style_is_dark, theme_name, trimmed_style_is_dark};
use r2nova::config::{load_records, AccountRecord, ConfigManager};
use r2nova::creds::{profile_endpoint, says_absent, Jurisdiction};
use r2nova::paths::{decoded_path, is_free_path, normalize_trimmed_path};
use r2nova::listing::{object_key, preview_page, ListedObject};
use r2nova::models::Timestamp;
use r2nova::transfer::{checked_resume_bytes, ResumeState};

#[test]
fn theme_follows_the_system() {
    assert_eq!(theme_name(Some(true)), "dark");
    assert_eq!(theme_name(Some(false)), "light");
    assert_eq!(theme_name(None), "light");
}

#[test]
fn gtk_dark_themes_in_any_case() {
    assert!(gtk_theme_is_dark("'Adwaita-Dark'\n"));
    assert!(gtk_theme_is_dark("'Yaru-dark'\n"));
    assert!(!gtk_theme_is_dark("'Adwaita'\n"));
}

#[test]
fn macos_dark_style_is_trimmed() {
    assert!(macos_style_is_dark("Dark\n"));
    assert!(!macos_style_is_dark(""));
    assert!(!macos_style_is_dark("dark"));
}

#[test]
fn profile_endpoints_per_jurisdiction() {
    assert_eq!(profile_endpoint("abc", Jurisdiction::Default), "https://abc.r2.cloudflarestorage.com");
    assert_eq!(profile_endpoint("abc", Jurisdiction::Eu), "https://abc.eu.r2.cloudflarestorage.com");
    assert_eq!(profile_endpoint("abc", Jurisdiction::Fedramp), "https://abc.fedramp.r2.cloudflarestorage.com");
}

#[test]
fn checked_resume_bytes_counts_or_refuses() {
    let resume = ResumeState {
        transfer_id: "t".into(),
        bucket: "b".into(),
        key: "k".into(),
        path: "/a".into(),
        size: 20,
        chunk: 8,
        upload_id: "u".into(),
        completed: vec![(3, "e3".into()), (1, "e1".into())],
    };
    assert_eq!(checked_resume_bytes(&resume), Some(12));
    let huge = ResumeState { size: u64::MAX, chunk: u64::MAX, completed: vec![(1, "a".into()), (1, "b".into())], ..resume };
    assert_eq!(checked_resume_bytes(&huge), None);
}

fn record(id: Option<&str>, name: &str) -> AccountRecord {
    AccountRecord {
        id: id.map(String::from),
        name: Some(name.into()),
        endpoint: Some("e".into()),
        access_key_id: Some("k".into()),
    }
}

#[test]
fn accounts_file_records_load_in_order() {
    let mut cache = ConfigManager::new("accounts.json".into(), true);
    let at = Timestamp { secs: 5, nanos: 0 };
    let records = vec![record(Some("a"), "first"), record(None, "lost"), record(Some("a"), "second"), record(Some("b"), "other")];
    load_records(&mut cache, &records, Some("b"), at);
    assert_eq!(cache.list_accounts().len(), 2);
    let a = cache.get_account("a").unwrap();
    assert_eq!(a.name, "second");
    assert!(!a.is_active);
    assert_eq!(a.created_at, at);
    assert!(cache.get_account("b").unwrap().is_active);
}

#[test]
fn preview_entries_keep_listing_fields() {
    let page = vec![
        ListedObject { key: Some("f/a".into()), size: Some(7), last_modified: None, e_tag: Some("x".into()) },
        ListedObject { key: None, size: None, last_modified: None, e_tag: None },
        ListedObject { key: Some("f/sub/".into()), size: Some(0), last_modified: None, e_tag: None },
    ];
    let mut acc = Vec::new();
    assert!(!preview_page(&mut acc, &page, 10));
    assert_eq!(acc[0].key, "f/a");
    assert_eq!(acc[0].size, 7);
    assert_eq!(acc[0].etag.as_deref(), Some("x"));
    assert_eq!(acc[1].key, "");
    assert_eq!(acc[1].size, 0);
    assert!(acc[2].is_directory);
}

#[test]
fn folder_uploads_keep_their_layout() {
    assert_eq!(object_key("photos", "trip\\day1\\a.jpg"), "photos/trip/day1/a.jpg");
    assert_eq!(object_key("photos/", "trip/a.jpg"), "photos/trip/a.jpg");
    assert_eq!(object_key("", "a.jpg"), "a.jpg");
}

#[test]
fn decoded_uri_paths_resolve_hosts() {
    assert_eq!(decoded_path("localhost/tmp/a.bin"), "/tmp/a.bin");
    assert_eq!(decoded_path("/tmp/a.bin"), "/tmp/a.bin");
    assert_eq!(decoded_path("nas/share/a.bin"), "/share/a.bin");
    assert_eq!(decoded_path("a.bin"), "a.bin");
    assert_eq!(normalize_trimmed_path("file:///tmp/my%20file.bin"), "/tmp/my file.bin");
    assert_eq!(normalize_trimmed_path("/tmp/a.bin"), "/tmp/a.bin");
}

#[test]
fn lowered_texts_are_matched_as_given() {
    assert!(lowered_theme_is_dark("'adwaita-dark'"));
    assert!(!lowered_theme_is_dark("'Adwaita-Dark'"));
    assert!(trimmed_style_is_dark("Dark"));
    assert!(!trimmed_style_is_dark("Dark\n"));
    assert!(says_absent("no matching entry found"));
    assert!(says_absent("item not found"));
    assert!(!says_absent("Not Found"));
}

#[test]
fn free_paths_are_unused_everywhere() {
    let taken = vec!["/d/a.bin".to_string()];
    let on_disk = vec!["/d/b.bin".to_string()];
    assert!(!is_free_path("/d/a.bin", &taken, &on_disk));
    assert!(!is_free_path("/d/b.bin", &taken, &on_disk));
    assert!(is_free_path("/d/c.bin", &taken, &on_disk));
}
