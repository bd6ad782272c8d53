//! Errors of the library and the messages the user is shown for them.

use vstd::prelude::*;
use crate::text::{concat2, decimal, u64_to_decimal};

verus! {

/// The one message shown whenever no other device can take part in a sync.
pub const NO_SYNC_DEVICES_MESSAGE: &'static str = "当前没有可同步的在线设备，请至少保持 1 台其他设备在线";

/// The category of an error shown to the user.
#[derive(Debug, Clone, Copy, PartialEq, Eq, Structural)]
pub enum ErrorCode {
    NetworkUnreachable,
    MdnsUnavailable,
    PairingTimeout,
    PairingRejected,
    InvalidPairingCode,
    ClipboardUnavailable,
    ClipboardTooLarge,
    SourceFileChanged,
    SourceFileMissing,
    DiskFull,
    PermissionDenied,
    ReceiveDirectoryInvalid,
    TransferFailed,
    StorageUnavailable,
    NoSyncDevices,
    InvalidInput,
    Internal,
}

/// An error as the user interface presents it.
#[derive(Debug, Clone)]
pub struct UserFacingError {
    pub code: ErrorCode,
    pub message: String,
    pub detail: Option<String>,
    pub recoverable: bool,
}

/// The characters of an optional string.
pub open spec fn opt_chars(o: Option<String>) -> Option<Seq<char>> {
    match o {
        Some(s) => Some(s@),
        None => None,
    }
}

impl UserFacingError {
    /// A recoverable error without detail.
    pub fn new(code: ErrorCode, message: String) -> (e: Self)
        ensures
            e.code == code,
            e.message@ == message@,
            e.detail is None,
            e.recoverable,
    {
        UserFacingError { code, message, detail: None, recoverable: true }
    }

    /// The same error with `detail` attached.
    pub fn detail(self, detail: String) -> (e: Self)
        ensures
            e.code == self.code,
            e.message@ == self.message@,
            opt_chars(e.detail) == Some(detail@),
            e.recoverable == self.recoverable,
    {
        let mut e = self;
        e.detail = Some(detail);
        e
    }

    /// The same error, marked as one the user cannot recover from.
    pub fn fatal(self) -> (e: Self)
        ensures
            e.code == self.code,
            e.message@ == self.message@,
            opt_chars(e.detail) == opt_chars(self.detail),
            !e.recoverable,
    {
        let mut e = self;
        e.recoverable = false;
        e
    }
}

/// The errors the library's operations report.
#[derive(Debug, Clone)]
pub enum AppError {
    InvalidInput(String),
    NoSyncDevices,
    /// A trusted device answered from another sync space and must be paired again.
    SyncSpaceMismatch,
    Storage(String),
    Clipboard(String),
    Network(String),
    File(String),
    DiskFull { required: u64, available: u64 },
    Crypto,
    Internal(String),
}

/// The code the user is shown for `e`.
pub open spec fn user_code(e: AppError) -> ErrorCode {
    match e {
        AppError::InvalidInput(_) => ErrorCode::InvalidInput,
        AppError::NoSyncDevices => ErrorCode::NoSyncDevices,
        AppError::SyncSpaceMismatch => ErrorCode::PairingRejected,
        AppError::Storage(_) => ErrorCode::StorageUnavailable,
        AppError::Clipboard(_) => ErrorCode::ClipboardUnavailable,
        AppError::Network(_) => ErrorCode::NetworkUnreachable,
        AppError::File(_) => ErrorCode::TransferFailed,
        AppError::DiskFull { .. } => ErrorCode::DiskFull,
        AppError::Crypto => ErrorCode::Internal,
        AppError::Internal(_) => ErrorCode::Internal,
    }
}

/// The message the user is shown for `e`.
pub open spec fn user_message(e: AppError) -> Seq<char> {
    match e {
        AppError::InvalidInput(_) => "输入内容无效"@,
        AppError::NoSyncDevices => NO_SYNC_DEVICES_MESSAGE@,
        AppError::SyncSpaceMismatch => "可信设备已加入其他同步空间，请重新配对"@,
        AppError::Storage(_) => "无法读取或保存本地数据"@,
        AppError::Clipboard(_) => "无法访问系统粘贴板"@,
        AppError::Network(_) => "局域网连接不可用"@,
        AppError::File(_) => "文件操作失败"@,
        AppError::DiskFull { .. } => "接收目录磁盘空间不足"@,
        AppError::Crypto => "安全存储初始化失败"@,
        AppError::Internal(_) => "SyncHalo 遇到内部错误"@,
    }
}

/// The detail the user is shown for `e`.
pub open spec fn user_detail(e: AppError) -> Option<Seq<char>> {
    match e {
        AppError::InvalidInput(d) => Some(d@),
        AppError::Storage(d) => Some(d@),
        AppError::Clipboard(d) => Some(d@),
        AppError::Network(d) => Some(d@),
        AppError::File(d) => Some(d@),
        AppError::Internal(d) => Some(d@),
        AppError::DiskFull { required, available } => Some(
            "需要 "@ + decimal(required as nat) + " 字节，可用 "@ + decimal(available as nat)
                + " 字节"@,
        ),
        _ => None,
    }
}

/// The description of `e` (what its `Display` would print).
pub open spec fn error_text(e: AppError) -> Seq<char> {
    match e {
        AppError::InvalidInput(d) => "invalid input: "@ + d@,
        AppError::NoSyncDevices => "no sync devices are available"@,
        AppError::SyncSpaceMismatch => "trusted device belongs to another sync space"@,
        AppError::Storage(d) => "storage unavailable: "@ + d@,
        AppError::Clipboard(d) => "clipboard unavailable: "@ + d@,
        AppError::Network(d) => "network unavailable: "@ + d@,
        AppError::File(d) => "file operation failed: "@ + d@,
        AppError::DiskFull { required, available } => "insufficient disk space: need "@ + decimal(
            required as nat,
        ) + " bytes, "@ + decimal(available as nat) + " available"@,
        AppError::Crypto => "cryptographic operation failed"@,
        AppError::Internal(d) => "internal error: "@ + d@,
    }
}

impl AppError {
    /// The description of this error.
    pub fn message(&self) -> (text: String)
        ensures
            text@ == error_text(*self),
    {
        match self {
            AppError::InvalidInput(d) => concat2("invalid input: ", d.as_str()),
            AppError::NoSyncDevices => String::from_str("no sync devices are available"),
            AppError::SyncSpaceMismatch => String::from_str(
                "trusted device belongs to another sync space",
            ),
            AppError::Storage(d) => concat2("storage unavailable: ", d.as_str()),
            AppError::Clipboard(d) => concat2("clipboard unavailable: ", d.as_str()),
            AppError::Network(d) => concat2("network unavailable: ", d.as_str()),
            AppError::File(d) => concat2("file operation failed: ", d.as_str()),
            AppError::DiskFull { required, available } => {
                let mut s = String::from_str("insufficient disk space: need ");
                let r = u64_to_decimal(*required);
                s.append(r.as_str());
                s.append(" bytes, ");
                let a = u64_to_decimal(*available);
                s.append(a.as_str());
                s.append(" available");
                s
            },
            AppError::Crypto => String::from_str("cryptographic operation failed"),
            AppError::Internal(d) => concat2("internal error: ", d.as_str()),
        }
    }
}

impl UserFacingError {
    /// The user-facing form of an internal error: its code, a fixed message
    /// per kind, the internal detail, and whether the user can recover.
    pub fn from_app_error(error: AppError) -> (e: UserFacingError)
        ensures
            e.code == user_code(error),
            e.message@ == user_message(error),
            opt_chars(e.detail) == user_detail(error),
            e.recoverable == !(error is Crypto),
    {
        match error {
            AppError::InvalidInput(detail) => UserFacingError::new(
                ErrorCode::InvalidInput,
                String::from_str("输入内容无效"),
            ).detail(detail),
            AppError::NoSyncDevices => UserFacingError::new(
                ErrorCode::NoSyncDevices,
                String::from_str(NO_SYNC_DEVICES_MESSAGE),
            ),
            AppError::SyncSpaceMismatch => UserFacingError::new(
                ErrorCode::PairingRejected,
                String::from_str("可信设备已加入其他同步空间，请重新配对"),
            ),
            AppError::Storage(detail) => UserFacingError::new(
                ErrorCode::StorageUnavailable,
                String::from_str("无法读取或保存本地数据"),
            ).detail(detail),
            AppError::Clipboard(detail) => UserFacingError::new(
                ErrorCode::ClipboardUnavailable,
                String::from_str("无法访问系统粘贴板"),
            ).detail(detail),
            AppError::Network(detail) => UserFacingError::new(
                ErrorCode::NetworkUnreachable,
                String::from_str("局域网连接不可用"),
            ).detail(detail),
            AppError::File(detail) => UserFacingError::new(
                ErrorCode::TransferFailed,
                String::from_str("文件操作失败"),
            ).detail(detail),
            AppError::DiskFull { required, available } => {
                let mut d = String::from_str("需要 ");
                let r = u64_to_decimal(required);
                d.append(r.as_str());
                d.append(" 字节，可用 ");
                let a = u64_to_decimal(available);
                d.append(a.as_str());
                d.append(" 字节");
                UserFacingError::new(
                    ErrorCode::DiskFull,
                    String::from_str("接收目录磁盘空间不足"),
                ).detail(d)
            },
            AppError::Crypto => UserFacingError::new(
                ErrorCode::Internal,
                String::from_str("安全存储初始化失败"),
            ).fatal(),
            AppError::Internal(detail) => UserFacingError::new(
                ErrorCode::Internal,
                String::from_str("SyncHalo 遇到内部错误"),
            ).detail(detail),
        }
    }
}

impl From<AppError> for UserFacingError {
    /// The user-facing form of an error, as `UserFacingError::from_app_error`
    /// builds it.
    fn from(error: AppError) -> (e: UserFacingError)
        ensures
            e.code == user_code(error),
            e.message@ == user_message(error),
            opt_chars(e.detail) == user_detail(error),
            e.recoverable == !(error is Crypto),
    {
        UserFacingError::from_app_error(error)
    }
}

impl vstd::std_specs::convert::FromSpecImpl<AppError> for UserFacingError {
    /// Nothing is claimed through the generic trait, since no spec value of
    /// this type can be written with its text fields: the result is stated
    /// by the contract of the `from` of this impl.
    open spec fn obeys_from_spec() -> bool {
        false
    }

    open spec fn from_spec(v: AppError) -> UserFacingError {
        arbitrary()
    }
}

} // verus!

verus! {

/// `r` failed with a network error that reads `text`.
pub open spec fn fails_network<T>(r: Result<T, AppError>, text: Seq<char>) -> bool {
    match r {
        Err(AppError::Network(m)) => m@ == text,
        _ => false,
    }
}

/// `r` failed with an invalid-input error that reads `text`.
pub open spec fn fails_input<T>(r: Result<T, AppError>, text: Seq<char>) -> bool {
    match r {
        Err(AppError::InvalidInput(m)) => m@ == text,
        _ => false,
    }
}

} // verus!
