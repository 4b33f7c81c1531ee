//! Plain types of the engine's interface: result codes, column types and
//! the flags with which a database is opened.

use vstd::prelude::*;
use vstd::std_specs::convert::FromSpecImpl;

verus! {

/// Handle of a database.
pub type DatabaseHandle = i64;

/// Handle of a prepared statement.
pub type StatementHandle = i64;

/// Handle of a transaction.
pub type TransactionHandle = i64;

/// A result code of the engine.
#[derive(Debug, Clone, Copy, PartialEq, Eq, Structural)]
pub enum ResultCode {
    /// Success. (The engine calls it `OK`.)
    Okay,
    Error,
    Internal,
    Perm,
    Abort,
    Busy,
    Locked,
    NoMem,
    ReadOnly,
    Interrupt,
    IoErr,
    Corrupt,
    NotFound,
    Full,
    CantOpen,
    Protocol,
    Empty,
    Schema,
    TooBig,
    Constraint,
    Mismatch,
    Misuse,
    NoLfs,
    Auth,
    Format,
    Range,
    NotADb,
    Notice,
    Warning,
    Row,
    Done,
}

/// The result code that stands for a number: 0, 1, 100 and 101 have their
/// own; every other number is an error.
pub open spec fn result_code_of(code: i32) -> ResultCode {
    if code == 0 {
        ResultCode::Okay
    } else if code == 100 {
        ResultCode::Row
    } else if code == 101 {
        ResultCode::Done
    } else {
        ResultCode::Error
    }
}

impl ResultCode {
    /// The code reports success: `Okay`, `Row` or `Done`.
    pub open spec fn spec_is_ok(&self) -> bool {
        *self == ResultCode::Okay || *self == ResultCode::Row || *self == ResultCode::Done
    }

    /// The number that the engine uses for the code.
    pub open spec fn spec_number(&self) -> i32 {
        match self {
            ResultCode::Okay => 0,
            ResultCode::Error => 1,
            ResultCode::Internal => 2,
            ResultCode::Perm => 3,
            ResultCode::Abort => 4,
            ResultCode::Busy => 5,
            ResultCode::Locked => 6,
            ResultCode::NoMem => 7,
            ResultCode::ReadOnly => 8,
            ResultCode::Interrupt => 9,
            ResultCode::IoErr => 10,
            ResultCode::Corrupt => 11,
            ResultCode::NotFound => 12,
            ResultCode::Full => 13,
            ResultCode::CantOpen => 14,
            ResultCode::Protocol => 15,
            ResultCode::Empty => 16,
            ResultCode::Schema => 17,
            ResultCode::TooBig => 18,
            ResultCode::Constraint => 19,
            ResultCode::Mismatch => 20,
            ResultCode::Misuse => 21,
            ResultCode::NoLfs => 22,
            ResultCode::Auth => 23,
            ResultCode::Format => 24,
            ResultCode::Range => 25,
            ResultCode::NotADb => 26,
            ResultCode::Notice => 27,
            ResultCode::Warning => 28,
            ResultCode::Row => 100,
            ResultCode::Done => 101,
        }
    }

    #[verifier::when_used_as_spec(spec_is_ok)]
    pub fn is_ok(&self) -> (b: bool)
        ensures
            b == self.spec_is_ok(),
    {
        match self {
            ResultCode::Okay => true,
            ResultCode::Row => true,
            ResultCode::Done => true,
            _ => false,
        }
    }

    pub fn is_error(&self) -> (b: bool)
        ensures
            b == !self.spec_is_ok(),
    {
        !self.is_ok()
    }

    /// The number that the engine uses for the code.
    #[verifier::when_used_as_spec(spec_number)]
    pub fn number(&self) -> (n: i32)
        ensures
            n == self.spec_number(),
    {
        match self {
            ResultCode::Okay => 0,
            ResultCode::Error => 1,
            ResultCode::Internal => 2,
            ResultCode::Perm => 3,
            ResultCode::Abort => 4,
            ResultCode::Busy => 5,
            ResultCode::Locked => 6,
            ResultCode::NoMem => 7,
            ResultCode::ReadOnly => 8,
            ResultCode::Interrupt => 9,
            ResultCode::IoErr => 10,
            ResultCode::Corrupt => 11,
            ResultCode::NotFound => 12,
            ResultCode::Full => 13,
            ResultCode::CantOpen => 14,
            ResultCode::Protocol => 15,
            ResultCode::Empty => 16,
            ResultCode::Schema => 17,
            ResultCode::TooBig => 18,
            ResultCode::Constraint => 19,
            ResultCode::Mismatch => 20,
            ResultCode::Misuse => 21,
            ResultCode::NoLfs => 22,
            ResultCode::Auth => 23,
            ResultCode::Format => 24,
            ResultCode::Range => 25,
            ResultCode::NotADb => 26,
            ResultCode::Notice => 27,
            ResultCode::Warning => 28,
            ResultCode::Row => 100,
            ResultCode::Done => 101,
        }
    }
}

impl From<i32> for ResultCode {
    fn from(code: i32) -> (r: Self) {
        if code == 0 {
            ResultCode::Okay
        } else if code == 100 {
            ResultCode::Row
        } else if code == 101 {
            ResultCode::Done
        } else {
            ResultCode::Error
        }
    }
}

impl FromSpecImpl<i32> for ResultCode {
    open spec fn obeys_from_spec() -> bool {
        true
    }

    open spec fn from_spec(code: i32) -> Self {
        result_code_of(code)
    }
}

/// The storage class of a column.
#[derive(Debug, Clone, Copy, PartialEq, Eq, Structural)]
pub enum ColumnType {
    Integer,
    Float,
    Text,
    Blob,
    Null,
}

/// The column type that stands for a number: 1 to 4 have their own; every
/// other number is `Null`.
pub open spec fn column_type_of(code: i32) -> ColumnType {
    if code == 1 {
        ColumnType::Integer
    } else if code == 2 {
        ColumnType::Float
    } else if code == 3 {
        ColumnType::Text
    } else if code == 4 {
        ColumnType::Blob
    } else {
        ColumnType::Null
    }
}

impl From<i32> for ColumnType {
    fn from(code: i32) -> (r: Self) {
        if code == 1 {
            ColumnType::Integer
        } else if code == 2 {
            ColumnType::Float
        } else if code == 3 {
            ColumnType::Text
        } else if code == 4 {
            ColumnType::Blob
        } else {
            ColumnType::Null
        }
    }
}

impl FromSpecImpl<i32> for ColumnType {
    open spec fn obeys_from_spec() -> bool {
        true
    }

    open spec fn from_spec(code: i32) -> Self {
        column_type_of(code)
    }
}

/// How a database is opened.
#[derive(Debug, Clone, Copy, PartialEq, Eq, Structural)]
pub struct OpenFlags {
    pub read_only: bool,
    pub read_write: bool,
    pub create: bool,
    pub wal_mode: bool,
}

impl Default for OpenFlags {
    /// Read and write, create the file if it is missing, write-ahead logging.
    fn default() -> (r: Self)
        ensures
            r == (OpenFlags { read_only: false, read_write: true, create: true, wal_mode: true }),
    {
        OpenFlags { read_only: false, read_write: true, create: true, wal_mode: true }
    }
}

} // verus!
