//! The state that belongs to one open database, and the shapes in which its
//! schema is reported.
//!
//! The connection itself lives with whoever opened it. This module holds
//! what is decided about it: the statements that are run on it, how the
//! rows that come back are put together, and what is remembered about it.

use vstd::prelude::*;
use crate::errors::Sqlite3xError;
use crate::manager::{attach_sql, ManagerView, PartitionManager};
use crate::sql_parser::{opt_view, valid_identifier, SqlParser};
use crate::text::{chars_of, contains, has, same_str, views};

verus! {

/// The pragmas that are set on every database right after it is opened.
pub const OPEN_PRAGMAS: &'static str = "PRAGMA journal_mode=WAL; PRAGMA foreign_keys=ON;";

/// The statement that lists the attached databases.
pub const DATABASE_LIST: &'static str = "PRAGMA database_list";

/// The queries that enumerate tables, views, indexes and triggers.
pub const TABLES_QUERY: &'static str =
    "SELECT name, sql FROM sqlite_master WHERE type='table' AND name NOT LIKE 'sqlite_%' ORDER BY name";

pub const VIEWS_QUERY: &'static str =
    "SELECT name, sql FROM sqlite_master WHERE type='view' ORDER BY name";

pub const INDEXES_QUERY: &'static str =
    "SELECT name, tbl_name, sql FROM sqlite_master WHERE type='index' AND name NOT LIKE 'sqlite_%' ORDER BY name";

pub const TRIGGERS_QUERY: &'static str =
    "SELECT name, tbl_name, sql FROM sqlite_master WHERE type='trigger' ORDER BY name";

/// The number of pages that one step of an online backup copies.
pub const BACKUP_PAGES_PER_STEP: i32 = 5;

/// The pause between two steps of an online backup, in milliseconds.
pub const BACKUP_STEP_PAUSE_MS: u64 = 250;

/// The engine's flag for a function that takes UTF-8 text.
pub const FUNCTION_UTF8: i32 = 0x1;

/// The engine's flag for a function whose result depends on its arguments alone.
pub const FUNCTION_DETERMINISTIC: i32 = 0x800;

/// A database that is attached to a connection.
#[derive(Debug, Clone, PartialEq)]
pub struct AttachedDatabase {
    pub seq: i32,
    pub name: String,
    pub file: Option<String>,
}

/// The target of a foreign key.
#[derive(Debug, PartialEq)]
pub struct ForeignKeyInfo {
    pub table: String,
    pub column: String,
}

/// A foreign key as mathematical data.
pub struct ForeignKeyView {
    pub table: Seq<char>,
    pub column: Seq<char>,
}

impl View for ForeignKeyInfo {
    type V = ForeignKeyView;

    open spec fn view(&self) -> ForeignKeyView {
        ForeignKeyView { table: self.table@, column: self.column@ }
    }
}

impl Clone for ForeignKeyInfo {
    fn clone(&self) -> (r: Self)
        ensures
            r@ == self@,
    {
        ForeignKeyInfo { table: self.table.clone(), column: self.column.clone() }
    }
}

/// A column of a table.
#[derive(Debug, PartialEq)]
pub struct ColumnInfo {
    pub name: String,
    pub data_type: String,
    pub not_null: bool,
    pub primary_key: bool,
    pub default_value: Option<String>,
    pub foreign_key: Option<ForeignKeyInfo>,
}

/// A column as mathematical data.
pub struct ColumnView {
    pub name: Seq<char>,
    pub data_type: Seq<char>,
    pub not_null: bool,
    pub primary_key: bool,
    pub default_value: Option<Seq<char>>,
    pub foreign_key: Option<ForeignKeyView>,
}

impl View for ColumnInfo {
    type V = ColumnView;

    open spec fn view(&self) -> ColumnView {
        ColumnView {
            name: self.name@,
            data_type: self.data_type@,
            not_null: self.not_null,
            primary_key: self.primary_key,
            default_value: opt_view(self.default_value),
            foreign_key: match self.foreign_key {
                Some(f) => Some(f@),
                None => None,
            },
        }
    }
}

impl Clone for ColumnInfo {
    fn clone(&self) -> (r: Self)
        ensures
            r@ == self@,
    {
        ColumnInfo {
            name: self.name.clone(),
            data_type: self.data_type.clone(),
            not_null: self.not_null,
            primary_key: self.primary_key,
            default_value: crate::sql_parser::clone_opt_string(&self.default_value),
            foreign_key: match &self.foreign_key {
                Some(f) => Some(f.clone()),
                None => None,
            },
        }
    }
}

/// A table with its columns.
#[derive(Debug, Clone, PartialEq)]
pub struct TableInfo {
    pub name: String,
    pub sql: Option<String>,
    pub columns: Vec<ColumnInfo>,
}

/// A view.
#[derive(Debug, Clone, PartialEq)]
pub struct ViewInfo {
    pub name: String,
    pub sql: Option<String>,
}

/// An index.
#[derive(Debug, Clone, PartialEq)]
pub struct IndexInfo {
    pub name: String,
    pub table_name: String,
    pub sql: Option<String>,
    pub unique: bool,
    pub columns: Vec<String>,
}

/// An index as mathematical data.
pub struct IndexView {
    pub name: Seq<char>,
    pub table_name: Seq<char>,
    pub sql: Option<Seq<char>>,
    pub unique: bool,
    pub columns: Seq<Seq<char>>,
}

impl View for IndexInfo {
    type V = IndexView;

    open spec fn view(&self) -> IndexView {
        IndexView {
            name: self.name@,
            table_name: self.table_name@,
            sql: opt_view(self.sql),
            unique: self.unique,
            columns: views(self.columns@),
        }
    }
}

/// A trigger.
#[derive(Debug, Clone, PartialEq)]
pub struct TriggerInfo {
    pub name: String,
    pub table_name: String,
    pub sql: Option<String>,
}

/// The schema of a database.
#[derive(Debug, Clone, PartialEq)]
pub struct SchemaInfo {
    pub tables: Vec<TableInfo>,
    pub views: Vec<ViewInfo>,
    pub indexes: Vec<IndexInfo>,
    pub triggers: Vec<TriggerInfo>,
}

/// One row of `PRAGMA table_info`.
#[derive(Debug, Clone, PartialEq)]
pub struct TableInfoRow {
    pub name: String,
    pub data_type: String,
    /// The `notnull` cell.
    pub not_null: i64,
    /// The `dflt_value` cell, if it is text.
    pub default_value: Option<String>,
    /// The `pk` cell.
    pub primary_key: i64,
}

/// One row of `PRAGMA foreign_key_list`.
#[derive(Debug, Clone, PartialEq)]
pub struct ForeignKeyRow {
    /// The table that the key points to.
    pub table: String,
    /// The column of this table that holds the key.
    pub from: String,
    /// The column that the key points to.
    pub to: String,
}

/// The index of the first foreign key, at or after `i`, that leaves from `column`.
pub open spec fn key_from(fks: Seq<ForeignKeyRow>, column: Seq<char>, i: int) -> Option<int>
    decreases fks.len() - i,
{
    if i < 0 || i >= fks.len() {
        None
    } else if fks[i].from@ == column {
        Some(i)
    } else {
        key_from(fks, column, i + 1)
    }
}

/// The column that a row of `PRAGMA table_info` describes: a non-zero cell
/// counts as set, and the column's foreign key is the first that leaves from it.
pub open spec fn column_from(row: TableInfoRow, fks: Seq<ForeignKeyRow>) -> ColumnView {
    ColumnView {
        name: row.name@,
        data_type: row.data_type@,
        not_null: row.not_null != 0,
        primary_key: row.primary_key != 0,
        default_value: opt_view(row.default_value),
        foreign_key: match key_from(fks, row.name@, 0) {
            Some(i) => Some(ForeignKeyView { table: fks[i].table@, column: fks[i].to@ }),
            None => None,
        },
    }
}

/// The statement that lists the columns of a table.
pub open spec fn table_info_sql(table: Seq<char>) -> Seq<char> {
    "PRAGMA table_info("@ + table + ")"@
}

/// The statement that lists the foreign keys of a table.
pub open spec fn foreign_key_list_sql(table: Seq<char>) -> Seq<char> {
    "PRAGMA foreign_key_list("@ + table + ")"@
}

/// The statement that lists the columns of a table.
pub fn table_info_statement(table: &str) -> (sql: String)
    ensures
        sql@ == table_info_sql(table@),
{
    let mut sql = "PRAGMA table_info(".to_string();
    sql.append(table);
    sql.append(")");
    sql
}

/// The statement that lists the foreign keys of a table.
pub fn foreign_key_list_statement(table: &str) -> (sql: String)
    ensures
        sql@ == foreign_key_list_sql(table@),
{
    let mut sql = "PRAGMA foreign_key_list(".to_string();
    sql.append(table);
    sql.append(")");
    sql
}

impl ColumnInfo {
    /// The column that a row of `PRAGMA table_info` describes, with the
    /// foreign key that leaves from it among `fks`.
    pub fn from_row(row: TableInfoRow, fks: &Vec<ForeignKeyRow>) -> (c: ColumnInfo)
        ensures
            c@ == column_from(row, fks@),
    {
        let mut foreign_key: Option<ForeignKeyInfo> = None;
        let mut i: usize = 0;
        while i < fks.len() && foreign_key.is_none()
            invariant
                i <= fks@.len(),
                match foreign_key {
                    None => key_from(fks@, row.name@, i as int) == key_from(fks@, row.name@, 0),
                    Some(f) => match key_from(fks@, row.name@, 0) {
                        Some(k) => 0 <= k < fks@.len() && f@ == (ForeignKeyView {
                            table: fks@[k].table@,
                            column: fks@[k].to@,
                        }),
                        None => false,
                    },
                },
            decreases fks@.len() - i + (if foreign_key is None { 1int } else { 0int }),
        {
            if same_str(fks[i].from.as_str(), row.name.as_str()) {
                foreign_key = Some(
                    ForeignKeyInfo { table: fks[i].table.clone(), column: fks[i].to.clone() },
                );
            } else {
                i += 1;
            }
        }
        ColumnInfo {
            name: row.name,
            data_type: row.data_type,
            not_null: row.not_null != 0,
            primary_key: row.primary_key != 0,
            default_value: row.default_value,
            foreign_key,
        }
    }
}

/// The views of a list of columns.
pub open spec fn column_views(c: Seq<ColumnInfo>) -> Seq<ColumnView> {
    Seq::new(c.len(), |i: int| c[i]@)
}

impl TableInfo {
    /// The table of the given name and definition, with the columns that
    /// the rows of `PRAGMA table_info` describe, in their order, each with
    /// the foreign key that leaves from it among `fks`.
    pub fn from_rows(
        name: String,
        sql: Option<String>,
        rows: Vec<TableInfoRow>,
        fks: &Vec<ForeignKeyRow>,
    ) -> (t: TableInfo)
        ensures
            t.name == name,
            t.sql == sql,
            column_views(t.columns@) == rows@.map_values(|r: TableInfoRow| column_from(r, fks@)),
    {
        let ghost all = rows@;
        let mut rest = crate::values::reversed(rows);
        let mut columns: Vec<ColumnInfo> = Vec::new();
        while rest.len() > 0
            invariant
                rest@.len() + columns@.len() == all.len(),
                forall|k: int| 0 <= k < rest@.len() ==> rest@[k] == all[all.len() - 1 - k],
                forall|k: int|
                    0 <= k < columns@.len() ==> (#[trigger] columns@[k])@ == column_from(
                        all[k],
                        fks@,
                    ),
            decreases rest@.len(),
        {
            let r = rest.pop().unwrap();
            columns.push(ColumnInfo::from_row(r, fks));
        }
        assert(column_views(columns@) =~= all.map_values(|r: TableInfoRow| column_from(r, fks@)));
        TableInfo { name, sql, columns }
    }
}

impl IndexInfo {
    /// The index that a row of the index query describes. It is unique if
    /// its definition holds the word `UNIQUE`. Its columns are not listed.
    pub fn from_row(name: String, table_name: String, sql: Option<String>) -> (r: IndexInfo)
        ensures
            r@ == (IndexView {
                name: name@,
                table_name: table_name@,
                sql: opt_view(sql),
                unique: match sql {
                    Some(s) => contains(s@, "UNIQUE"@),
                    None => false,
                },
                columns: Seq::<Seq<char>>::empty(),
            }),
    {
        let unique = match &sql {
            Some(s) => has(chars_of(s.as_str()).as_slice(), chars_of("UNIQUE").as_slice()),
            None => false,
        };
        let columns: Vec<String> = Vec::new();
        assert(views(columns@) =~= Seq::<Seq<char>>::empty());
        IndexInfo { name, table_name, sql, unique, columns }
    }
}

/// The flags with which a scalar function is registered: UTF-8 always, and
/// deterministic where asked for.
pub fn scalar_function_flags(deterministic: bool) -> (flags: i32)
    ensures
        flags == if deterministic {
            0x801i32
        } else {
            0x1i32
        },
{
    if deterministic {
        0x801
    } else {
        0x1
    }
}

/// The statement that attaches the file `path` under `alias`. The alias
/// must be an identifier.
pub fn attach_statement(alias: &str, path: &str) -> (r: Result<String, Sqlite3xError>)
    ensures
        valid_identifier(alias@) ==> (r matches Ok(sql) && sql@ == attach_sql(alias@, path@)),
        !valid_identifier(alias@) ==> r matches Err(Sqlite3xError::InvalidSql(_)),
{
    let parser = SqlParser::new();
    match parser.validate_identifier(alias) {
        Err(e) => Err(e),
        Ok(()) => {
            let mut sql = "ATTACH DATABASE '".to_string();
            sql.append(path);
            sql.append("' AS ");
            sql.append(alias);
            Ok(sql)
        },
    }
}

/// What is remembered about one open database: its path, the names of the
/// functions registered on it, and its partition manager, if it has one.
pub struct Database {
    path: String,
    registered_udfs: Vec<String>,
    partition_manager: Option<PartitionManager>,
}

/// The state of a database as mathematical data.
pub struct DatabaseView {
    pub path: Seq<char>,
    /// The names of the registered functions, each once, in the order of registration.
    pub functions: Seq<Seq<char>>,
    pub manager: Option<ManagerView>,
}

impl View for Database {
    type V = DatabaseView;

    closed spec fn view(&self) -> DatabaseView {
        DatabaseView {
            path: self.path@,
            functions: views(self.registered_udfs@),
            manager: match self.partition_manager {
                Some(m) => Some(m@),
                None => None,
            },
        }
    }
}

impl Database {
    /// The state of a database that was just opened at `path`: no function
    /// registered, no partition manager.
    pub fn open(path: &str) -> (db: Self)
        ensures
            db@ == (DatabaseView {
                path: path@,
                functions: Seq::<Seq<char>>::empty(),
                manager: None,
            }),
    {
        let registered_udfs: Vec<String> = Vec::new();
        assert(views(registered_udfs@) =~= Seq::<Seq<char>>::empty());
        Database { path: path.to_string(), registered_udfs, partition_manager: None }
    }

    /// The path of the database file.
    pub fn get_path(&self) -> (p: &str)
        ensures
            p@ == self@.path,
    {
        self.path.as_str()
    }

    /// Gives the database its partition manager, in place of the one it had.
    pub fn set_partition_manager(&mut self, manager: PartitionManager)
        ensures
            final(self)@ == (DatabaseView { manager: Some(manager@), ..old(self)@ }),
    {
        self.partition_manager = Some(manager);
    }

    /// The partition manager of the database.
    pub fn get_partition_manager(&self) -> (m: Option<&PartitionManager>)
        ensures
            match self@.manager {
                Some(v) => m matches Some(p) && p@ == v,
                None => m is None,
            },
    {
        match &self.partition_manager {
            Some(m) => Some(m),
            None => None,
        }
    }

    /// Takes the partition manager out of the database, to work with it;
    /// `set_partition_manager` puts it back.
    pub fn take_partition_manager(&mut self) -> (m: Option<PartitionManager>)
        ensures
            final(self)@ == (DatabaseView { manager: None, ..old(self)@ }),
            match old(self)@.manager {
                Some(v) => m matches Some(p) && p@ == v,
                None => m is None,
            },
    {
        let mut taken: Option<PartitionManager> = None;
        std::mem::swap(&mut self.partition_manager, &mut taken);
        taken
    }

    /// The statement that attaches the file `path` under `alias`.
    pub fn attach_database_for_partition(&self, alias: &str, path: &str) -> (r: Result<
        String,
        Sqlite3xError,
    >)
        ensures
            valid_identifier(alias@) ==> (r matches Ok(sql) && sql@ == attach_sql(alias@, path@)),
            !valid_identifier(alias@) ==> r matches Err(Sqlite3xError::InvalidSql(_)),
    {
        attach_statement(alias, path)
    }

    /// Remembers that a scalar function was registered under `function_name`.
    /// A name that is remembered already is not remembered twice.
    pub fn create_scalar_function(&mut self, function_name: &str)
        ensures
            final(self)@ == (DatabaseView {
                functions: if old(self)@.functions.contains(function_name@) {
                    old(self)@.functions
                } else {
                    old(self)@.functions.push(function_name@)
                },
                ..old(self)@
            }),
    {
        let ghost before = self@.functions;
        let mut i: usize = 0;
        while i < self.registered_udfs.len()
            invariant
                i <= self.registered_udfs@.len(),
                *self == *old(self),
                forall|k: int| 0 <= k < i ==> views(self.registered_udfs@)[k] != function_name@,
            decreases self.registered_udfs@.len() - i,
        {
            if same_str(self.registered_udfs[i].as_str(), function_name) {
                assert(views(self.registered_udfs@)[i as int] == function_name@);
                return ;
            }
            i += 1;
        }
        self.registered_udfs.push(function_name.to_string());
        assert(views(self.registered_udfs@) =~= before.push(function_name@));
    }

    /// The names of the registered functions.
    pub fn get_registered_functions(&self) -> (names: Vec<String>)
        ensures
            views(names@) == self@.functions,
    {
        crate::sql_parser::clone_strings(&self.registered_udfs)
    }
}

} // verus!
