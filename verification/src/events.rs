//! What is told to listeners when a row changes.

use vstd::prelude::*;

verus! {

/// The name under which a change of data is announced.
pub const DATA_CHANGED: &'static str = "db:data_changed";

/// The name under which performance figures are announced.
pub const PERF_UPDATE: &'static str = "db:perf_update";

/// What the engine did to a row.
#[derive(Debug, Clone, Copy, PartialEq, Eq, Structural)]
pub enum ChangeAction {
    Insert,
    Update,
    Delete,
    Unknown,
}

/// A change of one row.
#[derive(Debug, Clone, PartialEq)]
pub struct DataChangeEvent {
    pub table: String,
    pub operation: String,
    pub rowid: i64,
    pub timestamp: String,
}

/// The name of an action as listeners see it.
pub open spec fn operation_name(action: ChangeAction) -> Seq<char> {
    match action {
        ChangeAction::Insert => "INSERT"@,
        ChangeAction::Update => "UPDATE"@,
        ChangeAction::Delete => "DELETE"@,
        ChangeAction::Unknown => "UNKNOWN"@,
    }
}

impl DataChangeEvent {
    /// The event for an action on the row `rowid` of `table`, seen at `timestamp`.
    pub fn new(action: ChangeAction, table: &str, rowid: i64, timestamp: String) -> (e: Self)
        ensures
            e.table@ == table@,
            e.operation@ == operation_name(action),
            e.rowid == rowid,
            e.timestamp == timestamp,
    {
        let operation = match action {
            ChangeAction::Insert => "INSERT",
            ChangeAction::Update => "UPDATE",
            ChangeAction::Delete => "DELETE",
            ChangeAction::Unknown => "UNKNOWN",
        };
        DataChangeEvent {
            table: table.to_string(),
            operation: operation.to_string(),
            rowid,
            timestamp,
        }
    }
}

} // verus!
