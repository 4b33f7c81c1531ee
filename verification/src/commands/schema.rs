//! The schema as the command layer reports it.

use vstd::prelude::*;
use crate::values::{json_views, JsonValue, JsonView};

verus! {

/// A column of a table.
#[derive(Debug, Clone, PartialEq)]
pub struct ColumnInfo {
    pub name: String,
    pub column_type: String,
    pub nullable: bool,
    pub primary_key: bool,
    pub default_value: Option<String>,
}

/// A table with its columns and its size.
#[derive(Debug, Clone, PartialEq)]
pub struct TableInfo {
    pub name: String,
    pub columns: Vec<ColumnInfo>,
    pub row_count: i64,
    pub size_bytes: i64,
}

/// A view.
#[derive(Debug, Clone, PartialEq)]
pub struct ViewInfo {
    pub name: String,
    pub sql: String,
}

/// An index.
#[derive(Debug, Clone, PartialEq)]
pub struct IndexInfo {
    pub name: String,
    pub table_name: String,
    pub columns: Vec<String>,
    pub is_unique: bool,
}

/// A trigger.
#[derive(Debug, Clone, PartialEq)]
pub struct TriggerInfo {
    pub name: String,
    pub table_name: String,
    pub timing: String,
    pub event: String,
    pub sql: String,
}

/// The schema of a database.
#[derive(Debug, Clone, PartialEq)]
pub struct SchemaInfo {
    pub tables: Vec<TableInfo>,
    pub views: Vec<ViewInfo>,
    pub indexes: Vec<IndexInfo>,
    pub triggers: Vec<TriggerInfo>,
}

/// A reported column as mathematical data.
pub struct ReportedColumn {
    pub name: Seq<char>,
    pub column_type: Seq<char>,
    pub nullable: bool,
    pub primary_key: bool,
    pub default_value: Option<Seq<char>>,
}

/// The cell is a number other than zero.
pub open spec fn is_set(cell: JsonView) -> bool {
    match cell {
        JsonView::Integer(n) => n != 0,
        _ => false,
    }
}

/// The column that a row of `PRAGMA table_info` (cid, name, type, notnull,
/// dflt_value, pk) describes. A row of fewer than six cells, or without a
/// name, describes none. A type that is no text counts as `TEXT`.
pub open spec fn reported_column(row: Seq<JsonView>) -> Option<ReportedColumn> {
    if row.len() >= 6 {
        match row[1] {
            JsonView::Text(name) => Some(
                ReportedColumn {
                    name: name,
                    column_type: match row[2] {
                        JsonView::Text(t) => t,
                        _ => "TEXT"@,
                    },
                    nullable: !is_set(row[3]),
                    primary_key: is_set(row[5]),
                    default_value: match row[4] {
                        JsonView::Text(d) => Some(d),
                        _ => None,
                    },
                },
            ),
            _ => None,
        }
    } else {
        None
    }
}

fn cell_is_set(cell: &JsonValue) -> (b: bool)
    ensures
        b == is_set(cell@),
{
    match cell {
        JsonValue::Integer(n) => *n != 0,
        _ => false,
    }
}

/// The column that a row of `PRAGMA table_info` describes.
pub fn column_from_row(row: &Vec<JsonValue>) -> (r: Option<ColumnInfo>)
    ensures
        match reported_column(json_views(row@)) {
            Some(c) => r matches Some(col) && col.name@ == c.name && col.column_type@
                == c.column_type && col.nullable == c.nullable && col.primary_key == c.primary_key
                && crate::sql_parser::opt_view(col.default_value) == c.default_value,
            None => r is None,
        },
{
    if row.len() < 6 {
        return None;
    }
    let name = match &row[1] {
        JsonValue::Text(s) => s.clone(),
        _ => {
            return None;
        },
    };
    let column_type = match &row[2] {
        JsonValue::Text(s) => s.clone(),
        _ => "TEXT".to_string(),
    };
    let default_value = match &row[4] {
        JsonValue::Text(s) => Some(s.clone()),
        _ => None,
    };
    Some(
        ColumnInfo {
            name,
            column_type,
            nullable: !cell_is_set(&row[3]),
            primary_key: cell_is_set(&row[5]),
            default_value,
        },
    )
}

/// The number that the first cell of a row holds; zero if it holds none.
pub open spec fn first_number(rows: Seq<Seq<JsonView>>) -> i64 {
    if rows.len() > 0 && rows[0].len() > 0 {
        match rows[0][0] {
            JsonView::Integer(n) => n,
            _ => 0,
        }
    } else {
        0
    }
}

/// The count that a counting query returned; zero if it returned none.
pub fn row_count(result: &crate::values::QueryResult) -> (n: i64)
    ensures
        n == first_number(result@.rows),
{
    if result.rows.len() > 0 && result.rows[0].len() > 0 {
        match &result.rows[0][0] {
            JsonValue::Integer(n) => *n,
            _ => 0,
        }
    } else {
        0
    }
}

/// The statement that counts the rows of a table.
pub fn count_statement(table: &str) -> (sql: String)
    ensures
        sql@ == "SELECT COUNT(*) FROM \""@ + table@ + "\""@,
{
    let mut sql = "SELECT COUNT(*) FROM \"".to_string();
    sql.append(table);
    sql.append("\"");
    sql
}

/// The columns that the first `n` rows of `PRAGMA table_info` describe, in
/// their order; rows that describe none are passed over.
pub open spec fn reported_columns(rows: Seq<Seq<JsonView>>, n: nat) -> Seq<ReportedColumn>
    decreases n,
{
    if n == 0 || n > rows.len() {
        Seq::<ReportedColumn>::empty()
    } else {
        let before = reported_columns(rows, (n - 1) as nat);
        match reported_column(rows[n - 1]) {
            Some(c) => before.push(c),
            None => before,
        }
    }
}

impl View for ColumnInfo {
    type V = ReportedColumn;

    open spec fn view(&self) -> ReportedColumn {
        ReportedColumn {
            name: self.name@,
            column_type: self.column_type@,
            nullable: self.nullable,
            primary_key: self.primary_key,
            default_value: crate::sql_parser::opt_view(self.default_value),
        }
    }
}

/// The views of a list of columns.
pub open spec fn column_views(v: Seq<ColumnInfo>) -> Seq<ReportedColumn> {
    Seq::new(v.len(), |i: int| v[i]@)
}

/// The columns that the rows of `PRAGMA table_info` describe.
pub fn columns_from_rows(result: &crate::values::QueryResult) -> (cols: Vec<ColumnInfo>)
    ensures
        column_views(cols@) == reported_columns(result@.rows, result@.rows.len()),
{
    let mut cols: Vec<ColumnInfo> = Vec::new();
    let mut i: usize = 0;
    assert(column_views(cols@) =~= Seq::<ReportedColumn>::empty());
    while i < result.rows.len()
        invariant
            i <= result.rows@.len(),
            column_views(cols@) == reported_columns(result@.rows, i as nat),
        decreases result.rows@.len() - i,
    {
        let ghost had = column_views(cols@);
        assert(result@.rows[i as int] == json_views(result.rows@[i as int]@));
        match column_from_row(&result.rows[i]) {
            Some(c) => {
                let ghost v = c@;
                cols.push(c);
                assert(column_views(cols@) =~= had.push(v));
            },
            None => {},
        }
        i += 1;
    }
    cols
}

} // verus!
