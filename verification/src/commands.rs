//! The plain logic of the window's commands: request and response shapes,
//! and what each command computes from them. Locking, I/O and the calls to
//! R2 happen around these functions.
use vstd::prelude::*;
use crate::config::{account_key, account_val, ConfigManager};
use crate::keyed::{keyed_map, keys_unique};
use crate::listing::{content_type_for_key, spec_content_type};
use crate::models::{Account, AccountInput, AppInfo, BucketInfo, MultipartUploadInfo, ObjectInfo};
use crate::creds::{spec_to_lowercase, to_lowercase};
use crate::paths::{spec_trim, trim};
use crate::text::{chars_of, contains_chars, contains_seq, str_eq};

verus! {

/// The request to add an account.
#[derive(Clone, Debug)]
pub struct SaveAccountRequest {
    pub name: String,
    pub endpoint: String,
    pub access_key_id: String,
    pub secret_access_key: String,
}

/// The request to edit an account.
#[derive(Clone, Debug)]
pub struct UpdateAccountRequest {
    pub id: String,
    pub name: String,
    pub endpoint: String,
    pub access_key_id: String,
    pub secret_access_key: String,
}

/// One account, as a reply.
#[derive(Clone, Debug)]
pub struct AccountResponse {
    pub account: Account,
}

/// All accounts and the active one, as a reply.
#[derive(Clone, Debug)]
pub struct AccountsListResponse {
    pub accounts: Vec<Account>,
    pub active_account_id: Option<String>,
}

/// The buckets of the active account, as a reply.
#[derive(Clone, Debug)]
pub struct BucketsListResponse {
    pub buckets: Vec<BucketInfo>,
}

/// The request to upload a local file.
#[derive(Clone, Debug)]
pub struct UploadFileRequest {
    pub bucket: String,
    pub key: String,
    pub local_path: String,
}

/// The request to download an object to a local file.
#[derive(Clone, Debug)]
pub struct DownloadFileRequest {
    pub bucket: String,
    pub key: String,
    pub local_path: String,
}

/// The request for one page of a bucket listing.
#[derive(Clone, Debug)]
pub struct ListObjectsRequest {
    pub bucket: String,
    pub prefix: Option<String>,
    pub continuation_token: Option<String>,
}

/// One page of a bucket listing, as a reply.
#[derive(Clone, Debug)]
pub struct ListObjectsResponse {
    pub objects: Vec<ObjectInfo>,
    pub next_token: Option<String>,
}

/// The id of a started transfer task, as a reply.
#[derive(Clone, Debug)]
pub struct TransferResponse {
    pub task_id: String,
}

/// The bytes of a previewed object and their MIME type, as a reply.
#[derive(Clone, Debug)]
pub struct PreviewResponse {
    pub data: Vec<u8>,
    pub content_type: String,
}

/// The request to create a folder.
#[derive(Clone, Debug)]
pub struct CreateFolderRequest {
    pub bucket: String,
    pub key: String,
}

/// The request to delete a folder and everything under it.
#[derive(Clone, Debug)]
pub struct DeleteFolderRequest {
    pub bucket: String,
    pub key: String,
}

/// The request to preview what a folder holds.
#[derive(Clone, Debug)]
pub struct PreviewFolderRequest {
    pub bucket: String,
    pub key: String,
    pub limit: Option<i32>,
}

/// What a folder holds, up to the preview limit, as a reply.
#[derive(Clone, Debug)]
pub struct PreviewFolderResponse {
    pub objects: Vec<ObjectInfo>,
    pub has_more: bool,
    pub total_count: usize,
}

/// The request to list unfinished multipart uploads.
#[derive(Clone, Debug)]
pub struct ListMultipartUploadsRequest {
    pub bucket: String,
    pub prefix: Option<String>,
}

/// Unfinished multipart uploads, as a reply.
#[derive(Clone, Debug)]
pub struct ListMultipartUploadsResponse {
    pub uploads: Vec<MultipartUploadInfo>,
}

/// The request to abort an unfinished multipart upload.
#[derive(Clone, Debug)]
pub struct AbortMultipartUploadRequest {
    pub bucket: String,
    pub key: String,
    pub upload_id: String,
}

/// The app and the machine it runs on, as a reply.
#[derive(Clone, Debug)]
pub struct SystemInfoResponse {
    pub app: AppInfo,
    pub platform: String,
    pub arch: String,
}

/// One object of a batch download: where it goes and how big it is
/// (0 when unknown).
#[derive(Clone, Debug)]
pub struct DownloadObjectItem {
    pub key: String,
    pub dest: String,
    pub bytes_total: u64,
}

/// The account fields of an add request.
pub fn account_input_from_save(request: SaveAccountRequest) -> (r: AccountInput)
    ensures
        r == (AccountInput {
            name: request.name,
            endpoint: request.endpoint,
            access_key_id: request.access_key_id,
            secret_access_key: request.secret_access_key,
        }),
{
    AccountInput {
        name: request.name,
        endpoint: request.endpoint,
        access_key_id: request.access_key_id,
        secret_access_key: request.secret_access_key,
    }
}

/// The account id and fields of an edit request.
pub fn account_input_from_update(request: UpdateAccountRequest) -> (r: (String, AccountInput))
    ensures
        r.0 == request.id,
        r.1 == (AccountInput {
            name: request.name,
            endpoint: request.endpoint,
            access_key_id: request.access_key_id,
            secret_access_key: request.secret_access_key,
        }),
{
    (
        request.id,
        AccountInput {
            name: request.name,
            endpoint: request.endpoint,
            access_key_id: request.access_key_id,
            secret_access_key: request.secret_access_key,
        },
    )
}

/// The reply listing every cached account and the active one.
pub fn accounts_list_response(config: &ConfigManager) -> (r: AccountsListResponse)
    ensures
        keys_unique(r.accounts@, account_key()),
        keyed_map(r.accounts@, account_key(), account_val()) == config.accounts_view(),
        r.active_account_id matches Some(id) ==> config.accounts_view().dom().contains(id@)
            && config.accounts_view()[id@].is_active,
        r.active_account_id is None ==> forall|k: Seq<char>| #[trigger] config.accounts_view().dom().contains(k)
            ==> !config.accounts_view()[k].is_active,
{
    AccountsListResponse { accounts: config.list_accounts(), active_account_id: config.active_account_id() }
}

/// The most entries a folder preview shows: the request's limit, else 100.
pub fn preview_limit(request: &PreviewFolderRequest) -> (r: i32)
    ensures
        r == match request.limit {
            Some(l) => l,
            None => 100,
        },
{
    match request.limit {
        Some(l) => l,
        None => 100,
    }
}

/// The reply of a folder preview: its entries, whether more exist, and how
/// many entries it shows.
pub fn preview_folder_response(objects: Vec<ObjectInfo>, has_more: bool) -> (r: PreviewFolderResponse)
    ensures
        r.objects == objects,
        r.has_more == has_more,
        r.total_count == objects.len(),
{
    let total_count = objects.len();
    PreviewFolderResponse { objects, has_more, total_count }
}

/// The reply of an object preview: its bytes and the MIME type its key
/// suggests.
pub fn preview_response(data: Vec<u8>, key: &str) -> (r: PreviewResponse)
    ensures
        r.data == data,
        r.content_type@ == spec_content_type(key@),
{
    PreviewResponse { data, content_type: content_type_for_key(key) }
}

/// The app's name, version and platform.
pub fn app_info(version: String, platform: String) -> (r: AppInfo)
    ensures
        r.version == version,
        r.name@ == "R2Nova"@,
        r.platform == platform,
{
    AppInfo { version, name: "R2Nova".to_owned(), platform }
}

/// The reply of the connectivity check.
pub fn ping() -> (r: String)
    ensures
        r@ == "ok"@,
{
    "ok".to_owned()
}

/// How the app was installed: an AppImage or a distro package on Linux,
/// a native installer elsewhere.
pub fn install_kind_from(linux: bool, appimage: bool) -> (r: &'static str)
    ensures
        r@ == if linux && appimage {
            "appimage"@
        } else if linux {
            "linux-pkg"@
        } else {
            "native"@
        },
{
    if linux && appimage {
        "appimage"
    } else if linux {
        "linux-pkg"
    } else {
        "native"
    }
}

/// The theme the window follows: `dark` when the system reports a dark
/// theme, else `light` (also when it cannot tell).
pub fn theme_name(is_dark: Option<bool>) -> (r: &'static str)
    ensures
        r@ == if is_dark == Some(true) {
            "dark"@
        } else {
            "light"@
        },
{
    match is_dark {
        Some(true) => "dark",
        _ => "light",
    }
}

/// Whether a lower-cased GTK theme name names a dark theme: it mentions
/// `dark`.
pub fn lowered_theme_is_dark(lower: &str) -> (r: bool)
    ensures
        r == contains_seq(lower@, "dark"@),
{
    contains_chars(&chars_of(lower), &chars_of("dark"))
}

/// Whether a GTK theme name (as `gsettings` prints it) is a dark theme: it
/// mentions `dark` in any case.
pub fn gtk_theme_is_dark(theme: &str) -> (r: bool)
    ensures
        r == contains_seq(spec_to_lowercase(theme@), "dark"@),
{
    let lower = to_lowercase(theme);
    lowered_theme_is_dark(lower.as_str())
}

/// Whether a trimmed macOS interface style is the dark one: `Dark`.
pub fn trimmed_style_is_dark(trimmed: &str) -> (r: bool)
    ensures
        r == (trimmed@ == "Dark"@),
{
    str_eq(trimmed, "Dark")
}

/// Whether the macOS interface style (as `defaults` prints it) is dark:
/// it reads `Dark` once trimmed.
pub fn macos_style_is_dark(style: &str) -> (r: bool)
    ensures
        r == (spec_trim(style@) == "Dark"@),
{
    let t = trim(style);
    trimmed_style_is_dark(t.as_str())
}

} // verus!
