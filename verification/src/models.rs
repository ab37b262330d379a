//! Records shared by the account store, the object browser and the legacy
//! transfer list.
use vstd::prelude::*;

verus! {

/// A point in time: whole seconds since the Unix epoch and the nanoseconds
/// past that second.
#[derive(Clone, Copy, Debug, PartialEq, Eq, Structural)]
pub struct Timestamp {
    pub secs: i64,
    pub nanos: u32,
}

/// A saved R2 account (its secret key is kept apart).
#[derive(Clone, Debug)]
pub struct Account {
    pub id: String,
    pub name: String,
    pub endpoint: String,
    pub access_key_id: String,
    pub created_at: Timestamp,
    pub is_active: bool,
}

/// What the user enters to add or edit an account.
#[derive(Clone, Debug)]
pub struct AccountInput {
    pub name: String,
    pub endpoint: String,
    pub access_key_id: String,
    pub secret_access_key: String,
}

/// A bucket as the browser lists it.
#[derive(Clone, Debug)]
pub struct BucketInfo {
    pub name: String,
    pub creation_date: Option<Timestamp>,
    pub object_count: Option<i64>,
    pub total_size: Option<i64>,
}

/// An object or a folder as the browser lists it.
#[derive(Clone, Debug)]
pub struct ObjectInfo {
    pub key: String,
    pub size: i64,
    pub last_modified: Option<Timestamp>,
    pub etag: Option<String>,
    pub is_directory: bool,
}

/// Direction of a task of the legacy transfer list.
#[derive(Clone, Copy, Debug, PartialEq, Eq, Structural)]
pub enum TransferType {
    Upload,
    Download,
}

/// State of a task of the legacy transfer list.
#[derive(Clone, Copy, Debug, PartialEq, Eq, Structural)]
pub enum TransferStatus {
    Pending,
    InProgress,
    Paused,
    Completed,
    Failed,
}

/// A task of the legacy transfer list. Its transfer speed, a float, is kept
/// by the caller beside it.
#[derive(Clone, Debug)]
pub struct TransferTask {
    pub id: String,
    pub transfer_type: TransferType,
    pub status: TransferStatus,
    pub bucket: String,
    pub key: String,
    pub local_path: String,
    pub bytes_total: i64,
    pub bytes_transferred: i64,
    pub created_at: Timestamp,
    pub updated_at: Timestamp,
}

/// Name, version and platform of the app.
#[derive(Clone, Debug)]
pub struct AppInfo {
    pub version: String,
    pub name: String,
    pub platform: String,
}

/// An unfinished multipart upload found in a bucket.
#[derive(Clone, Debug)]
pub struct MultipartUploadInfo {
    pub key: String,
    pub upload_id: String,
    pub initiated: Option<Timestamp>,
    pub storage_class: Option<String>,
}

} // verus!
