//! How a statement is run for a caller: as a query that returns rows, or as
//! a statement that reports how many rows it affected.

use vstd::prelude::*;
use crate::text::{
    begins_with, chars_of, starts_with, trim, trimmed, uppercase, uppercased, views,
};
use crate::values::QueryResult;

verus! {

/// The name and the type of a column of a result.
#[derive(Debug, Clone, PartialEq)]
pub struct ColumnInfo {
    pub name: String,
    pub data_type: String,
}

/// The statement is run as a query: its trimmed text in upper case begins
/// with `SELECT`, `PRAGMA` or `EXPLAIN`.
pub open spec fn is_row_query(sql: Seq<char>) -> bool {
    let up = uppercase(trim(sql));
    starts_with(up, "SELECT"@) || starts_with(up, "PRAGMA"@) || starts_with(up, "EXPLAIN"@)
}

/// Whether the statement is run as a query that returns rows.
pub fn returns_rows(sql: &str) -> (b: bool)
    ensures
        b == is_row_query(sql@),
{
    let c = chars_of(sql);
    let up = uppercased(trimmed(c.as_slice()));
    begins_with(up.as_slice(), chars_of("SELECT").as_slice()) || begins_with(
        up.as_slice(),
        chars_of("PRAGMA").as_slice(),
    ) || begins_with(up.as_slice(), chars_of("EXPLAIN").as_slice())
}

/// The statement that asks for the plan of `sql`.
pub fn explain_statement(sql: &str) -> (r: String)
    ensures
        r@ == "EXPLAIN QUERY PLAN "@ + sql@,
{
    crate::errors::prefixed("EXPLAIN QUERY PLAN ", sql)
}

/// The columns of a result, each name with the type at its position. Where
/// there are fewer types than names, the names without a type are left out.
pub fn result_columns(result: &QueryResult) -> (cols: Vec<ColumnInfo>)
    ensures
        cols@.len() == if result@.columns.len() <= result@.column_types.len() {
            result@.columns.len()
        } else {
            result@.column_types.len()
        },
        forall|i: int|
            0 <= i < cols@.len() ==> (#[trigger] cols@[i]).name@ == result@.columns[i]
                && cols@[i].data_type@ == result@.column_types[i],
{
    let mut cols: Vec<ColumnInfo> = Vec::new();
    let mut i: usize = 0;
    while i < result.columns.len() && i < result.column_types.len()
        invariant
            i <= result.columns@.len(),
            i <= result.column_types@.len(),
            cols@.len() == i,
            forall|k: int|
                0 <= k < i ==> (#[trigger] cols@[k]).name@ == result@.columns[k]
                    && cols@[k].data_type@ == result@.column_types[k],
        decreases result.columns@.len() - i,
    {
        cols.push(
            ColumnInfo {
                name: result.columns[i].clone(),
                data_type: result.column_types[i].clone(),
            },
        );
        i += 1;
    }
    cols
}

} // verus!
