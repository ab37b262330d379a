//! The error type of the library and the text each error shows the user.
use vstd::prelude::*;
use crate::text::{chars_of, concat_chars, string_of};

verus! {

/// Everything that can go wrong in r2nova. Payloads are the messages of the
/// underlying failures (I/O, keychain, JSON, S3) as text.
#[derive(Clone, Debug)]
pub enum AppError {
    R2Error(String),
    S3Error(String),
    Config(String),
    Io(String),
    Validation { field: String, message: String },
    Keyring(String),
    Serialization(String),
    AccountNotFound(String),
    TransferNotFound(String),
    BucketNotFound(String),
    ObjectNotFound(String),
    Network(String),
    Unknown(String),
    NotFound(String),
    Other(String),
    InvalidCredentials(String),
}

/// The stable, camel-case name of an error's kind, as the window sees it.
pub open spec fn spec_kind(e: AppError) -> Seq<char> {
    match e {
        AppError::R2Error(_) => "r2Error"@,
        AppError::S3Error(_) => "s3Error"@,
        AppError::Config(_) => "config"@,
        AppError::Io(_) => "io"@,
        AppError::Validation { .. } => "validation"@,
        AppError::Keyring(_) => "keyring"@,
        AppError::Serialization(_) => "serialization"@,
        AppError::AccountNotFound(_) => "accountNotFound"@,
        AppError::TransferNotFound(_) => "transferNotFound"@,
        AppError::BucketNotFound(_) => "bucketNotFound"@,
        AppError::ObjectNotFound(_) => "objectNotFound"@,
        AppError::Network(_) => "network"@,
        AppError::Unknown(_) => "unknown"@,
        AppError::NotFound(_) => "notFound"@,
        AppError::Other(_) => "other"@,
        AppError::InvalidCredentials(_) => "invalidCredentials"@,
    }
}

/// The text an error shows: a label for its kind followed by its payload.
pub open spec fn spec_message(e: AppError) -> Seq<char> {
    match e {
        AppError::R2Error(m) => "R2 API 错误: "@ + m@,
        AppError::S3Error(m) => "S3 客户端错误: "@ + m@,
        AppError::Config(m) => "配置错误: "@ + m@,
        AppError::Io(m) => "IO 错误: "@ + m@,
        AppError::Validation { field, message } => "验证错误: "@ + field@ + " - "@ + message@,
        AppError::Keyring(m) => "密钥存储错误: "@ + m@,
        AppError::Serialization(m) => "序列化错误: "@ + m@,
        AppError::AccountNotFound(m) => "账户未找到: "@ + m@,
        AppError::TransferNotFound(m) => "传输任务未找到: "@ + m@,
        AppError::BucketNotFound(m) => "Bucket 未找到: "@ + m@,
        AppError::ObjectNotFound(m) => "对象未找到: "@ + m@,
        AppError::Network(m) => "网络错误: "@ + m@,
        AppError::Unknown(m) => "未知错误: "@ + m@,
        AppError::NotFound(m) => m@,
        AppError::Other(m) => m@,
        AppError::InvalidCredentials(m) => m@,
    }
}

/// `label` followed by `m`.
fn labelled(label: &str, m: &String) -> (r: String)
    ensures
        r@ == label@ + m@,
{
    string_of(&concat_chars(&chars_of(label), &chars_of(m.as_str())))
}

impl AppError {
    /// The camel-case name of this error's kind.
    pub fn kind(&self) -> (r: String)
        ensures
            r@ == spec_kind(*self),
    {
        let k = match self {
            AppError::R2Error(_) => "r2Error",
            AppError::S3Error(_) => "s3Error",
            AppError::Config(_) => "config",
            AppError::Io(_) => "io",
            AppError::Validation { .. } => "validation",
            AppError::Keyring(_) => "keyring",
            AppError::Serialization(_) => "serialization",
            AppError::AccountNotFound(_) => "accountNotFound",
            AppError::TransferNotFound(_) => "transferNotFound",
            AppError::BucketNotFound(_) => "bucketNotFound",
            AppError::ObjectNotFound(_) => "objectNotFound",
            AppError::Network(_) => "network",
            AppError::Unknown(_) => "unknown",
            AppError::NotFound(_) => "notFound",
            AppError::Other(_) => "other",
            AppError::InvalidCredentials(_) => "invalidCredentials",
        };
        string_of(&chars_of(k))
    }

    /// The text this error shows the user.
    pub fn message(&self) -> (r: String)
        ensures
            r@ == spec_message(*self),
    {
        match self {
            AppError::R2Error(m) => labelled("R2 API 错误: ", m),
            AppError::S3Error(m) => labelled("S3 客户端错误: ", m),
            AppError::Config(m) => labelled("配置错误: ", m),
            AppError::Io(m) => labelled("IO 错误: ", m),
            AppError::Validation { field, message } => {
                let a = labelled("验证错误: ", field);
                let b = concat_chars(&chars_of(a.as_str()), &chars_of(" - "));
                string_of(&concat_chars(&b, &chars_of(message.as_str())))
            },
            AppError::Keyring(m) => labelled("密钥存储错误: ", m),
            AppError::Serialization(m) => labelled("序列化错误: ", m),
            AppError::AccountNotFound(m) => labelled("账户未找到: ", m),
            AppError::TransferNotFound(m) => labelled("传输任务未找到: ", m),
            AppError::BucketNotFound(m) => labelled("Bucket 未找到: ", m),
            AppError::ObjectNotFound(m) => labelled("对象未找到: ", m),
            AppError::Network(m) => labelled("网络错误: ", m),
            AppError::Unknown(m) => labelled("未知错误: ", m),
            AppError::NotFound(m) => m.clone(),
            AppError::Other(m) => m.clone(),
            AppError::InvalidCredentials(m) => m.clone(),
        }
    }
}

} // verus!
