//! The failure kinds of the router and of the connection registry.

use vstd::prelude::*;

verus! {

/// A failure of the database layer or of the partition router. Each kind
/// carries the detail of what went wrong as text.
#[derive(Debug)]
pub enum Sqlite3xError {
    /// A file could not be opened, a pragma could not be set, a lock could not be taken.
    Connection(String),
    /// The embedded engine refused to prepare or run a statement, or a row could not be read.
    Query(String),
    Transaction(String),
    /// Schema introspection failed.
    Schema(String),
    Ffi(String),
    /// The registry holds no handle under the given identifier.
    InvalidHandle(String),
    /// A parameter or a result cell could not be converted.
    TypeConversion(String),
    /// An I/O failure, with the text of the underlying error.
    Io(String),
    /// Bytes that are not UTF-8, with the text of the underlying error.
    Utf8(String),
    /// The partition-key column, or its value, is not in the statement.
    PartitionKeyNotFound(String),
    /// The statement did not pass the admission filter or is malformed.
    InvalidSql(String),
    /// The selected shard alias is not attached.
    ShardNotFound(String),
    /// A partition configuration breaks one of its invariants.
    ShardingPolicyViolation(String),
    /// The value is already present on some shard.
    GlobalUniquenessViolation(String),
}

/// Result type of the database layer.
pub type Sqlite3xResult<T> = Result<T, Sqlite3xError>;

impl Sqlite3xError {
    /// The text that introduces an error of this kind.
    pub open spec fn prefix(&self) -> Seq<char> {
        match self {
            Sqlite3xError::Connection(_) => "Connection error: "@,
            Sqlite3xError::Query(_) => "Query error: "@,
            Sqlite3xError::Transaction(_) => "Transaction error: "@,
            Sqlite3xError::Schema(_) => "Schema error: "@,
            Sqlite3xError::Ffi(_) => "FFI error: "@,
            Sqlite3xError::InvalidHandle(_) => "Invalid handle: "@,
            Sqlite3xError::TypeConversion(_) => "Type conversion error: "@,
            Sqlite3xError::Io(_) => "IO error: "@,
            Sqlite3xError::Utf8(_) => "UTF-8 error: "@,
            Sqlite3xError::PartitionKeyNotFound(_) => "Partition key not found: "@,
            Sqlite3xError::InvalidSql(_) => "Invalid SQL: "@,
            Sqlite3xError::ShardNotFound(_) => "Shard not found: "@,
            Sqlite3xError::ShardingPolicyViolation(_) => "Sharding policy violation: "@,
            Sqlite3xError::GlobalUniquenessViolation(_) => "Global uniqueness violation: "@,
        }
    }

    /// The detail that the error carries.
    pub open spec fn detail(&self) -> Seq<char> {
        match self {
            Sqlite3xError::Connection(m) => m@,
            Sqlite3xError::Query(m) => m@,
            Sqlite3xError::Transaction(m) => m@,
            Sqlite3xError::Schema(m) => m@,
            Sqlite3xError::Ffi(m) => m@,
            Sqlite3xError::InvalidHandle(m) => m@,
            Sqlite3xError::TypeConversion(m) => m@,
            Sqlite3xError::Io(m) => m@,
            Sqlite3xError::Utf8(m) => m@,
            Sqlite3xError::PartitionKeyNotFound(m) => m@,
            Sqlite3xError::InvalidSql(m) => m@,
            Sqlite3xError::ShardNotFound(m) => m@,
            Sqlite3xError::ShardingPolicyViolation(m) => m@,
            Sqlite3xError::GlobalUniquenessViolation(m) => m@,
        }
    }

    /// The textual form of the error: the prefix of its kind, then its detail.
    pub fn to_string(&self) -> (s: String)
        ensures
            s@ == self.prefix() + self.detail(),
    {
        match self {
            Sqlite3xError::Connection(m) => prefixed("Connection error: ", m),
            Sqlite3xError::Query(m) => prefixed("Query error: ", m),
            Sqlite3xError::Transaction(m) => prefixed("Transaction error: ", m),
            Sqlite3xError::Schema(m) => prefixed("Schema error: ", m),
            Sqlite3xError::Ffi(m) => prefixed("FFI error: ", m),
            Sqlite3xError::InvalidHandle(m) => prefixed("Invalid handle: ", m),
            Sqlite3xError::TypeConversion(m) => prefixed("Type conversion error: ", m),
            Sqlite3xError::Io(m) => prefixed("IO error: ", m),
            Sqlite3xError::Utf8(m) => prefixed("UTF-8 error: ", m),
            Sqlite3xError::PartitionKeyNotFound(m) => prefixed("Partition key not found: ", m),
            Sqlite3xError::InvalidSql(m) => prefixed("Invalid SQL: ", m),
            Sqlite3xError::ShardNotFound(m) => prefixed("Shard not found: ", m),
            Sqlite3xError::ShardingPolicyViolation(m) => prefixed(
                "Sharding policy violation: ",
                m,
            ),
            Sqlite3xError::GlobalUniquenessViolation(m) => prefixed(
                "Global uniqueness violation: ",
                m,
            ),
        }
    }
}

/// `head` followed by `tail`.
pub fn prefixed(head: &str, tail: &str) -> (s: String)
    ensures
        s@ == head@ + tail@,
{
    let mut s = head.to_string();
    s.append(tail);
    s
}

/// A failure reported by the command layer.
#[derive(Debug)]
pub enum AppError {
    ConnectionError(String),
    QueryError(String),
    CommandError(String),
    SerializationError(String),
    FsError(String),
    IoError(String),
    BadRequest(String),
    InternalError(String),
    NotFound(String),
}

/// Result type of the command layer.
pub type AppResult<T> = Result<T, AppError>;

impl AppError {
    /// The text that introduces an error of this kind.
    pub open spec fn prefix(&self) -> Seq<char> {
        match self {
            AppError::ConnectionError(_) => "Database connection error: "@,
            AppError::QueryError(_) => "Query execution error: "@,
            AppError::CommandError(_) => "Command execution error: "@,
            AppError::SerializationError(_) => "Serialization error: "@,
            AppError::FsError(_) => "File system error: "@,
            AppError::IoError(_) => "I/O error: "@,
            AppError::BadRequest(_) => "Bad request: "@,
            AppError::InternalError(_) => "Internal error: "@,
            AppError::NotFound(_) => "Not found: "@,
        }
    }

    /// The detail that the error carries.
    pub open spec fn detail(&self) -> Seq<char> {
        match self {
            AppError::ConnectionError(m) => m@,
            AppError::QueryError(m) => m@,
            AppError::CommandError(m) => m@,
            AppError::SerializationError(m) => m@,
            AppError::FsError(m) => m@,
            AppError::IoError(m) => m@,
            AppError::BadRequest(m) => m@,
            AppError::InternalError(m) => m@,
            AppError::NotFound(m) => m@,
        }
    }

    /// The textual form of the error: the prefix of its kind, then its detail.
    pub fn to_string(&self) -> (s: String)
        ensures
            s@ == self.prefix() + self.detail(),
    {
        match self {
            AppError::ConnectionError(m) => prefixed("Database connection error: ", m),
            AppError::QueryError(m) => prefixed("Query execution error: ", m),
            AppError::CommandError(m) => prefixed("Command execution error: ", m),
            AppError::SerializationError(m) => prefixed("Serialization error: ", m),
            AppError::FsError(m) => prefixed("File system error: ", m),
            AppError::IoError(m) => prefixed("I/O error: ", m),
            AppError::BadRequest(m) => prefixed("Bad request: ", m),
            AppError::InternalError(m) => prefixed("Internal error: ", m),
            AppError::NotFound(m) => prefixed("Not found: ", m),
        }
    }
}

} // verus!
