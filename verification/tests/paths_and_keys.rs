use r2nova::commands::install_kind_from;
use r2nova::listing::{
    assemble_listing, content_type_for_key, delete_batches, endpoint_url, find_bucket, folder_key,
    list_buckets_error, normalized_prefix, object_info_from_common_prefix, object_info_from_listed_object,
    preview_page, bucket_info, ListedObject,
};
use r2nova::error::AppError;
use r2nova::paths::{normalize_drop_path, percent_decode, unique_dest, unique_dest_among, from_hex};
use std::path::PathBuf;

#[test]
fn classifies_linux_installers() {
    assert_eq!(install_kind_from(true, true), "appimage");
    assert_eq!(install_kind_from(true, false), "linux-pkg");
    assert_eq!(install_kind_from(false, true), "native");
    assert_eq!(install_kind_from(false, false), "native");
}

#[test]
fn file_uri_becomes_absolute_path() {
    assert_eq!(PathBuf::from(normalize_drop_path("file:///tmp/a.bin")), PathBuf::from("/tmp/a.bin"));
    assert_eq!(PathBuf::from(normalize_drop_path("file://localhost/tmp/a.bin")), PathBuf::from("/tmp/a.bin"));
}

#[test]
fn file_uri_decodes_spaces() {
    assert_eq!(PathBuf::from(normalize_drop_path("file:///tmp/my%20file.bin")), PathBuf::from("/tmp/my file.bin"));
}

#[test]
fn plain_path_is_unchanged() {
    assert_eq!(PathBuf::from(normalize_drop_path("/tmp/a.bin")), PathBuf::from("/tmp/a.bin"));
}

#[test]
fn file_uri_with_other_host_keeps_path() {
    assert_eq!(normalize_drop_path("  file://host/srv/x  "), "/srv/x");
    assert_eq!(normalize_drop_path("file:relative"), "relative");
}

#[test]
fn percent_decoding_edges() {
    assert_eq!(percent_decode("a%2Fb"), "a/b");
    assert_eq!(percent_decode("100%"), "100%");
    assert_eq!(percent_decode("%zz"), "%zz");
    assert_eq!(percent_decode("%41%"), "A%");
    assert_eq!(percent_decode("%ff"), "\u{fffd}");
    assert_eq!(from_hex(b'F'), Some(15));
    assert_eq!(from_hex(b'g'), None);
}

#[test]
fn unique_dest_appends_counter() {
    let dir = "/tmp/r2nova-unique";
    let first = format!("{dir}/logo.svg");
    let on_disk = vec![first.clone()];
    let next = unique_dest(&first, &on_disk);
    assert_eq!(PathBuf::from(&next).file_name().unwrap(), "logo (1).svg");
    let on_disk = vec![first.clone(), next];
    assert_eq!(PathBuf::from(unique_dest(&first, &on_disk)).file_name().unwrap(), "logo (2).svg");
}

#[test]
fn unique_dest_skips_taken_paths() {
    let first = "/tmp/r2nova-taken/logo.svg".to_string();
    let taken = vec![first.clone()];
    let none: Vec<String> = Vec::new();
    assert_eq!(PathBuf::from(unique_dest_among(&first, &taken, &none)).file_name().unwrap(), "logo (1).svg");
    assert_eq!(unique_dest_among(&first, &none, &none), first);
}

#[test]
fn folder_key_adds_trailing_slash() {
    assert_eq!(folder_key("photos/2026/raw"), "photos/2026/raw/");
}

#[test]
fn folder_key_keeps_existing_trailing_slash() {
    assert_eq!(folder_key("photos/2026/raw/"), "photos/2026/raw/");
}

#[test]
fn common_prefix_becomes_directory_object() {
    let directory = object_info_from_common_prefix("photos/").expect("directory object");
    assert_eq!(directory.key, "photos/");
    assert!(directory.is_directory);
    assert_eq!(directory.size, 0);
}

#[test]
fn current_prefix_marker_is_filtered() {
    let object = object_info_from_listed_object("photos/", 0, None, None, Some("photos/"));
    assert!(object.is_none());
}

#[test]
fn nested_object_is_not_shown_as_direct_child() {
    let object = object_info_from_listed_object("photos/2026/raw.jpg", 12, None, None, None);
    assert!(object.is_none());
}

#[test]
fn direct_child_is_shown() {
    let object = object_info_from_listed_object("photos/a.jpg", 12, None, Some("\"e\"".into()), Some("photos")).unwrap();
    assert_eq!(object.key, "photos/a.jpg");
    assert_eq!(object.size, 12);
    assert!(!object.is_directory);
    assert_eq!(normalized_prefix(Some("")), None);
    assert_eq!(normalized_prefix(Some("a")), Some("a/".into()));
}

#[test]
fn listing_puts_folders_first() {
    let prefixes = vec![Some("photos/2026/".to_string()), None, Some(String::new())];
    let contents = vec![
        ListedObject { key: Some("photos/".into()), size: Some(0), last_modified: None, e_tag: None },
        ListedObject { key: Some("photos/a.jpg".into()), size: Some(5), last_modified: None, e_tag: None },
        ListedObject { key: None, size: None, last_modified: None, e_tag: None },
    ];
    let page = assemble_listing(&prefixes, &contents, Some("photos/"));
    assert_eq!(page.len(), 2);
    assert!(page[0].is_directory);
    assert_eq!(page[0].key, "photos/2026/");
    assert_eq!(page[1].key, "photos/a.jpg");
}

#[test]
fn preview_stops_at_limit() {
    let page: Vec<ListedObject> = (0..5)
        .map(|i| ListedObject { key: Some(format!("f/{i}")), size: Some(i), last_modified: None, e_tag: None })
        .collect();
    let mut acc = Vec::new();
    assert!(preview_page(&mut acc, &page, 3));
    assert_eq!(acc.len(), 3);
    let mut acc = Vec::new();
    assert!(!preview_page(&mut acc, &page, 10));
    assert_eq!(acc.len(), 5);
}

#[test]
fn delete_batches_of_a_thousand() {
    let keys: Vec<String> = (0..2500).map(|i| format!("k{i}")).collect();
    let batches = delete_batches(&keys);
    assert_eq!(batches.len(), 3);
    assert_eq!(batches[0].len(), 1000);
    assert_eq!(batches[2].len(), 500);
    assert_eq!(batches.concat(), keys);
    assert!(delete_batches(&Vec::new()).is_empty());
}

#[test]
fn endpoints_get_a_scheme() {
    assert_eq!(endpoint_url("acct.r2.cloudflarestorage.com"), "https://acct.r2.cloudflarestorage.com");
    assert_eq!(endpoint_url("http://localhost:9000"), "http://localhost:9000");
}

#[test]
fn list_errors_are_classified() {
    assert!(matches!(list_buckets_error("DispatchFailure dispatch", "x"), AppError::S3Error(m) if m.starts_with("网络连接失败")));
    assert!(matches!(list_buckets_error("bad signature", "x"), AppError::S3Error(m) if m.starts_with("认证失败")));
    assert!(matches!(list_buckets_error("other", "boom"), AppError::S3Error(m) if m == "S3 请求失败: boom"));
}

#[test]
fn preview_content_types() {
    assert_eq!(content_type_for_key("a.jpeg"), "image/jpeg");
    assert_eq!(content_type_for_key("a.md"), "text/plain");
    assert_eq!(content_type_for_key("a.bin"), "application/octet-stream");
}

#[test]
fn bucket_lookup() {
    let buckets = vec![bucket_info(Some("a".into()), None), bucket_info(None, None)];
    assert_eq!(find_bucket(buckets.clone(), "a").unwrap().name, "a");
    assert!(matches!(find_bucket(buckets, "zz"), Err(AppError::BucketNotFound(m)) if m == "zz"));
}
