//! Error types of the data layer and of the application commands, and the messages they
//! are shown with.
use vstd::prelude::*;

verus! {

/// Errors of the data layer; errors of the database, migrations, JSON and I/O carry their
/// message.
#[derive(Debug, Clone, PartialEq, Eq)]
pub enum CoreError {
    Db(String),
    Migration(String),
    Serde(String),
    Io(String),
    NotFound(String),
    UidConflict(String),
    InvalidUid,
    Other(String),
}

/// Errors returned by application commands, tagged by kind.
#[derive(Debug, Clone, PartialEq, Eq)]
pub enum IpcError {
    NotFound(String),
    UidConflict(String),
    InvalidUid,
    Internal(String),
    Io(String),
    BadRequest(String),
    Lan(String),
    Review(String),
}

impl IpcError {
    /// The command error for a data-layer error: not-found, uid conflict and invalid uid
    /// keep their kind, I/O errors stay I/O errors, everything else is internal.
    pub fn from_core(e: CoreError) -> (r: IpcError)
        ensures
            r == (match e {
                CoreError::NotFound(m) => IpcError::NotFound(m),
                CoreError::UidConflict(u) => IpcError::UidConflict(u),
                CoreError::InvalidUid => IpcError::InvalidUid,
                CoreError::Db(m) => IpcError::Internal(m),
                CoreError::Migration(m) => IpcError::Internal(m),
                CoreError::Serde(m) => IpcError::Internal(m),
                CoreError::Io(m) => IpcError::Io(m),
                CoreError::Other(m) => IpcError::Internal(m),
            }),
    {
        match e {
            CoreError::NotFound(m) => IpcError::NotFound(m),
            CoreError::UidConflict(u) => IpcError::UidConflict(u),
            CoreError::InvalidUid => IpcError::InvalidUid,
            CoreError::Db(m) => IpcError::Internal(m),
            CoreError::Migration(m) => IpcError::Internal(m),
            CoreError::Serde(m) => IpcError::Internal(m),
            CoreError::Io(m) => IpcError::Io(m),
            CoreError::Other(m) => IpcError::Internal(m),
        }
    }
}


/// `prefix` followed by `detail`, as a string.
pub(crate) fn with_prefix(prefix: &str, detail: &String) -> (r: String)
    ensures
        r@ == prefix@ + detail@,
{
    let mut s = String::from_str(prefix);
    s.append(detail.as_str());
    s
}

/// The message of a data-layer error.
pub open spec fn core_message(e: CoreError) -> Seq<char> {
    match e {
        CoreError::Db(m) => "数据库错误: "@ + m@,
        CoreError::Migration(m) => "迁移错误: "@ + m@,
        CoreError::Serde(m) => "序列化错误: "@ + m@,
        CoreError::Io(m) => "IO 错误: "@ + m@,
        CoreError::NotFound(m) => "未找到: "@ + m@,
        CoreError::UidConflict(u) => "UID 已存在: "@ + u@,
        CoreError::InvalidUid => "无效 UID 格式"@,
        CoreError::Other(m) => m@,
    }
}

impl CoreError {
    /// The message the error is shown with.
    pub fn message(&self) -> (r: String)
        ensures
            r@ == core_message(*self),
    {
        match self {
            CoreError::Db(m) => with_prefix("数据库错误: ", m),
            CoreError::Migration(m) => with_prefix("迁移错误: ", m),
            CoreError::Serde(m) => with_prefix("序列化错误: ", m),
            CoreError::Io(m) => with_prefix("IO 错误: ", m),
            CoreError::NotFound(m) => with_prefix("未找到: ", m),
            CoreError::UidConflict(u) => with_prefix("UID 已存在: ", u),
            CoreError::InvalidUid => String::from_str("无效 UID 格式"),
            CoreError::Other(m) => m.clone(),
        }
    }
}

/// The message of a command error: its kind, then its message.
pub open spec fn ipc_message(e: IpcError) -> Seq<char> {
    match e {
        IpcError::NotFound(m) => "NotFound: "@ + m@,
        IpcError::UidConflict(u) => "UidConflict: "@ + u@,
        IpcError::InvalidUid => "InvalidUid"@,
        IpcError::Internal(m) => "Internal: "@ + m@,
        IpcError::Io(m) => "Io: "@ + m@,
        IpcError::BadRequest(m) => "BadRequest: "@ + m@,
        IpcError::Lan(m) => "Lan: "@ + m@,
        IpcError::Review(m) => "Review: "@ + m@,
    }
}

impl IpcError {
    /// The message the error is shown with.
    pub fn message(&self) -> (r: String)
        ensures
            r@ == ipc_message(*self),
    {
        match self {
            IpcError::NotFound(m) => with_prefix("NotFound: ", m),
            IpcError::UidConflict(u) => with_prefix("UidConflict: ", u),
            IpcError::InvalidUid => String::from_str("InvalidUid"),
            IpcError::Internal(m) => with_prefix("Internal: ", m),
            IpcError::Io(m) => with_prefix("Io: ", m),
            IpcError::BadRequest(m) => with_prefix("BadRequest: ", m),
            IpcError::Lan(m) => with_prefix("Lan: ", m),
            IpcError::Review(m) => with_prefix("Review: ", m),
        }
    }

    /// The command error for a failed file operation, with its message.
    pub fn from_io(message: String) -> (r: IpcError)
        ensures
            r == IpcError::Io(message),
    {
        IpcError::Io(message)
    }

    /// The command error for a failed JSON conversion: `serde: ` and its message.
    pub fn from_serde(message: String) -> (r: IpcError)
        ensures
            r matches IpcError::Internal(m) && m@ == "serde: "@ + message@,
    {
        IpcError::Internal(with_prefix("serde: ", &message))
    }
}

} // verus!
