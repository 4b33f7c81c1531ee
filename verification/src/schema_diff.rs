//! The statements that turn one schema into another.
//!
//! The source is the schema that is wanted, the target the schema that is
//! there. Objects are matched by name, and every name is compared once:
//! where a name occurs more than once in a list, its last occurrence stands
//! for it and the earlier ones are passed over.

use vstd::prelude::*;
use crate::text::{decimal, push_decimal, same_str, views};
use crate::wrapper::{ColumnInfo, IndexInfo, SchemaInfo, TableInfo};

verus! {

/// The statements that turn the target schema into the source schema.
#[derive(Debug, Clone, PartialEq)]
pub struct SchemaDiffResult {
    pub tables_to_create: Vec<String>,
    pub tables_to_drop: Vec<String>,
    pub columns_to_add: Vec<String>,
    pub columns_to_drop: Vec<String>,
    pub indexes_to_create: Vec<String>,
    pub indexes_to_drop: Vec<String>,
    pub summary: String,
}

/// The names of the tables.
pub open spec fn table_names(t: Seq<TableInfo>) -> Seq<Seq<char>> {
    Seq::new(t.len(), |i: int| t[i].name@)
}

/// The names of the columns.
pub open spec fn column_names(c: Seq<ColumnInfo>) -> Seq<Seq<char>> {
    Seq::new(c.len(), |i: int| c[i].name@)
}

/// The names of the indexes.
pub open spec fn index_names(x: Seq<IndexInfo>) -> Seq<Seq<char>> {
    Seq::new(x.len(), |i: int| x[i].name@)
}

/// The last index below `n` at which `name` stands among `names`.
pub open spec fn last_index_below(names: Seq<Seq<char>>, name: Seq<char>, n: nat) -> Option<int>
    decreases n,
{
    if n == 0 || n > names.len() {
        None
    } else if names[n - 1] == name {
        Some(n - 1)
    } else {
        last_index_below(names, name, (n - 1) as nat)
    }
}

/// The last index at which `name` stands among `names`.
pub open spec fn last_index(names: Seq<Seq<char>>, name: Seq<char>) -> Option<int> {
    last_index_below(names, name, names.len())
}

/// The entry at index `i` stands for its name: the name does not occur again
/// after it.
pub open spec fn counts(names: Seq<Seq<char>>, i: int) -> bool {
    0 <= i < names.len() && last_index(names, names[i]) == Some(i)
}

/// The statement that adds a column of the source to the table.
pub open spec fn add_column_sql(table: Seq<char>, c: ColumnInfo) -> Seq<char> {
    "ALTER TABLE "@ + table + " ADD COLUMN "@ + c.name@ + " "@ + c.data_type@ + (if c.not_null {
        " NOT NULL"@
    } else {
        Seq::<char>::empty()
    }) + (match c.default_value {
        Some(d) => " DEFAULT "@ + d@,
        None => Seq::<char>::empty(),
    }) + ";"@
}

/// The note on a column of the target that the source does not have.
pub open spec fn drop_column_note(table: Seq<char>, column: Seq<char>) -> Seq<char> {
    "-- SQLite 3.35.0+ supports: ALTER TABLE "@ + table + " DROP COLUMN "@ + column + ";"@
}

/// The statements that add, to a table, those of the first `n` columns of
/// the source that stand for their name and that the target lacks.
pub open spec fn added_columns(source: TableInfo, target: TableInfo, n: nat) -> Seq<Seq<char>>
    decreases n,
{
    if n == 0 || n > source.columns@.len() {
        Seq::<Seq<char>>::empty()
    } else {
        let before = added_columns(source, target, (n - 1) as nat);
        let c = source.columns@[n - 1];
        if counts(column_names(source.columns@), n - 1) && last_index(
            column_names(target.columns@),
            c.name@,
        ) is None {
            before.push(add_column_sql(source.name@, c))
        } else {
            before
        }
    }
}

/// The notes on those of the first `n` columns of the target that stand for
/// their name and that the source lacks.
pub open spec fn dropped_columns(source: TableInfo, target: TableInfo, n: nat) -> Seq<Seq<char>>
    decreases n,
{
    if n == 0 || n > target.columns@.len() {
        Seq::<Seq<char>>::empty()
    } else {
        let before = dropped_columns(source, target, (n - 1) as nat);
        let c = target.columns@[n - 1];
        if counts(column_names(target.columns@), n - 1) && last_index(
            column_names(source.columns@),
            c.name@,
        ) is None {
            before.push(drop_column_note(source.name@, c.name@))
        } else {
            before
        }
    }
}

/// The definitions of those of the first `n` tables of the source that stand
/// for their name and that the target lacks, where they are known.
pub open spec fn created_tables(source: Seq<TableInfo>, target: Seq<TableInfo>, n: nat) -> Seq<
    Seq<char>,
>
    decreases n,
{
    if n == 0 || n > source.len() {
        Seq::<Seq<char>>::empty()
    } else {
        let before = created_tables(source, target, (n - 1) as nat);
        let t = source[n - 1];
        if counts(table_names(source), n - 1) {
            match (last_index(table_names(target), t.name@), t.sql) {
                (None, Some(sql)) => before.push(sql@ + ";"@),
                _ => before,
            }
        } else {
            before
        }
    }
}

/// The column statements for those of the first `n` tables of the source
/// that stand for their name, each compared with the table that stands for
/// the same name in the target.
pub open spec fn all_added_columns(source: Seq<TableInfo>, target: Seq<TableInfo>, n: nat) -> Seq<
    Seq<char>,
>
    decreases n,
{
    if n == 0 || n > source.len() {
        Seq::<Seq<char>>::empty()
    } else {
        let before = all_added_columns(source, target, (n - 1) as nat);
        let t = source[n - 1];
        if counts(table_names(source), n - 1) {
            match last_index(table_names(target), t.name@) {
                Some(j) => before + added_columns(t, target[j], t.columns@.len()),
                None => before,
            }
        } else {
            before
        }
    }
}

/// The column notes for those of the first `n` tables of the source that
/// stand for their name.
pub open spec fn all_dropped_columns(source: Seq<TableInfo>, target: Seq<TableInfo>, n: nat) -> Seq<
    Seq<char>,
>
    decreases n,
{
    if n == 0 || n > source.len() {
        Seq::<Seq<char>>::empty()
    } else {
        let before = all_dropped_columns(source, target, (n - 1) as nat);
        let t = source[n - 1];
        if counts(table_names(source), n - 1) {
            match last_index(table_names(target), t.name@) {
                Some(j) => before + dropped_columns(t, target[j], target[j].columns@.len()),
                None => before,
            }
        } else {
            before
        }
    }
}

/// The statements that drop what stands under those of the first `n` names
/// of the target that count and are not among the names of the source.
pub open spec fn dropped(
    keyword: Seq<char>,
    target: Seq<Seq<char>>,
    source: Seq<Seq<char>>,
    n: nat,
) -> Seq<Seq<char>>
    decreases n,
{
    if n == 0 || n > target.len() {
        Seq::<Seq<char>>::empty()
    } else {
        let before = dropped(keyword, target, source, (n - 1) as nat);
        if counts(target, n - 1) && last_index(source, target[n - 1]) is None {
            before.push(keyword + target[n - 1] + ";"@)
        } else {
            before
        }
    }
}

/// The definitions of those of the first `n` indexes of the source that
/// stand for their name and that the target lacks, where they are known.
pub open spec fn created_indexes(source: Seq<IndexInfo>, target: Seq<IndexInfo>, n: nat) -> Seq<
    Seq<char>,
>
    decreases n,
{
    if n == 0 || n > source.len() {
        Seq::<Seq<char>>::empty()
    } else {
        let before = created_indexes(source, target, (n - 1) as nat);
        let x = source[n - 1];
        if counts(index_names(source), n - 1) {
            match (last_index(index_names(target), x.name@), x.sql) {
                (None, Some(sql)) => before.push(sql@ + ";"@),
                _ => before,
            }
        } else {
            before
        }
    }
}

/// The sentence that sums a difference up.
pub open spec fn summary_text(creates: nat, drops: nat, indexes: nat) -> Seq<char> {
    "Found "@ + decimal(creates) + " tables to create, "@ + decimal(drops) + " tables to drop, "@
        + decimal(indexes) + " indexes to create."@
}

fn last_position(names: &Vec<String>, name: &str) -> (r: Option<usize>)
    ensures
        match r {
            Some(i) => last_index(views(names@), name@) == Some(i as int) && i < names@.len(),
            None => last_index(views(names@), name@) is None,
        },
{
    let mut n: usize = names.len();
    while n > 0
        invariant
            n <= names@.len(),
            last_index_below(views(names@), name@, n as nat) == last_index(views(names@), name@),
        decreases n,
    {
        if same_str(names[n - 1].as_str(), name) {
            return Some(n - 1);
        }
        n -= 1;
    }
    None
}

/// Whether the entry at index `i` stands for its name.
fn counts_at(names: &Vec<String>, i: usize) -> (b: bool)
    requires
        i < names@.len(),
    ensures
        b == counts(views(names@), i as int),
{
    match last_position(names, names[i].as_str()) {
        Some(j) => j == i,
        None => false,
    }
}

fn names_of_tables(t: &Vec<TableInfo>) -> (r: Vec<String>)
    ensures
        views(r@) == table_names(t@),
{
    let mut r: Vec<String> = Vec::new();
    let mut i: usize = 0;
    while i < t.len()
        invariant
            i <= t@.len(),
            r@.len() == i,
            forall|k: int| 0 <= k < i ==> r@[k]@ == t@[k].name@,
        decreases t@.len() - i,
    {
        r.push(t[i].name.clone());
        i += 1;
    }
    assert(views(r@) =~= table_names(t@));
    r
}

fn names_of_columns(c: &Vec<ColumnInfo>) -> (r: Vec<String>)
    ensures
        views(r@) == column_names(c@),
{
    let mut r: Vec<String> = Vec::new();
    let mut i: usize = 0;
    while i < c.len()
        invariant
            i <= c@.len(),
            r@.len() == i,
            forall|k: int| 0 <= k < i ==> r@[k]@ == c@[k].name@,
        decreases c@.len() - i,
    {
        r.push(c[i].name.clone());
        i += 1;
    }
    assert(views(r@) =~= column_names(c@));
    r
}

fn names_of_indexes(x: &Vec<IndexInfo>) -> (r: Vec<String>)
    ensures
        views(r@) == index_names(x@),
{
    let mut r: Vec<String> = Vec::new();
    let mut i: usize = 0;
    while i < x.len()
        invariant
            i <= x@.len(),
            r@.len() == i,
            forall|k: int| 0 <= k < i ==> r@[k]@ == x@[k].name@,
        decreases x@.len() - i,
    {
        r.push(x[i].name.clone());
        i += 1;
    }
    assert(views(r@) =~= index_names(x@));
    r
}

fn drops_of(keyword: &str, target: &Vec<String>, source: &Vec<String>) -> (r: Vec<String>)
    ensures
        views(r@) == dropped(keyword@, views(target@), views(source@), target@.len()),
{
    let mut r: Vec<String> = Vec::new();
    let mut i: usize = 0;
    assert(views(r@) =~= Seq::<Seq<char>>::empty());
    while i < target.len()
        invariant
            i <= target@.len(),
            views(r@) == dropped(keyword@, views(target@), views(source@), i as nat),
        decreases target@.len() - i,
    {
        let ghost had = views(r@);
        if counts_at(target, i) && last_position(source, target[i].as_str()).is_none() {
            let mut sql = keyword.to_string();
            sql.append(target[i].as_str());
            sql.append(";");
            r.push(sql);
            assert(views(r@) =~= had.push(keyword@ + target@[i as int]@ + ";"@));
        }
        i += 1;
    }
    r
}

/// The statements that add to `diff` what the columns of one table ask for:
/// an `ALTER TABLE` for each column of the source that the target lacks, and
/// a note for each column of the target that the source lacks.
pub fn compare_columns(source: &TableInfo, target: &TableInfo, diff: &mut SchemaDiffResult)
    ensures
        views(final(diff).columns_to_add@) == views(old(diff).columns_to_add@) + added_columns(
            *source,
            *target,
            source.columns@.len(),
        ),
        views(final(diff).columns_to_drop@) == views(old(diff).columns_to_drop@) + dropped_columns(
            *source,
            *target,
            target.columns@.len(),
        ),
        final(diff).tables_to_create == old(diff).tables_to_create,
        final(diff).tables_to_drop == old(diff).tables_to_drop,
        final(diff).indexes_to_create == old(diff).indexes_to_create,
        final(diff).indexes_to_drop == old(diff).indexes_to_drop,
        final(diff).summary == old(diff).summary,
{
    let source_names = names_of_columns(&source.columns);
    let target_names = names_of_columns(&target.columns);
    let ghost adds = views(diff.columns_to_add@);
    let ghost drops = views(diff.columns_to_drop@);
    let mut i: usize = 0;
    assert(views(diff.columns_to_add@) =~= adds + added_columns(*source, *target, 0));
    while i < source.columns.len()
        invariant
            i <= source.columns@.len(),
            views(source_names@) == column_names(source.columns@),
            views(target_names@) == column_names(target.columns@),
            views(diff.columns_to_add@) == adds + added_columns(*source, *target, i as nat),
            views(diff.columns_to_drop@) == drops,
            diff.tables_to_create == old(diff).tables_to_create,
            diff.tables_to_drop == old(diff).tables_to_drop,
            diff.indexes_to_create == old(diff).indexes_to_create,
            diff.indexes_to_drop == old(diff).indexes_to_drop,
            diff.summary == old(diff).summary,
        decreases source.columns@.len() - i,
    {
        let ghost had = views(diff.columns_to_add@);
        let c = &source.columns[i];
        if counts_at(&source_names, i) && last_position(&target_names, c.name.as_str()).is_none() {
            let mut sql = "ALTER TABLE ".to_string();
            sql.append(source.name.as_str());
            sql.append(" ADD COLUMN ");
            sql.append(c.name.as_str());
            sql.append(" ");
            sql.append(c.data_type.as_str());
            if c.not_null {
                sql.append(" NOT NULL");
            }
            match &c.default_value {
                Some(d) => {
                    sql.append(" DEFAULT ");
                    sql.append(d.as_str());
                },
                None => {},
            }
            sql.append(";");
            assert(sql@ =~= add_column_sql(source.name@, *c));
            diff.columns_to_add.push(sql);
            assert(views(diff.columns_to_add@) =~= had.push(add_column_sql(source.name@, *c)));
        }
        i += 1;
    }
    let mut j: usize = 0;
    assert(views(diff.columns_to_drop@) =~= drops + dropped_columns(*source, *target, 0));
    while j < target.columns.len()
        invariant
            j <= target.columns@.len(),
            views(source_names@) == column_names(source.columns@),
            views(target_names@) == column_names(target.columns@),
            views(diff.columns_to_add@) == adds + added_columns(
                *source,
                *target,
                source.columns@.len(),
            ),
            views(diff.columns_to_drop@) == drops + dropped_columns(*source, *target, j as nat),
            diff.tables_to_create == old(diff).tables_to_create,
            diff.tables_to_drop == old(diff).tables_to_drop,
            diff.indexes_to_create == old(diff).indexes_to_create,
            diff.indexes_to_drop == old(diff).indexes_to_drop,
            diff.summary == old(diff).summary,
        decreases target.columns@.len() - j,
    {
        let ghost had = views(diff.columns_to_drop@);
        let c = &target.columns[j];
        if counts_at(&target_names, j) && last_position(&source_names, c.name.as_str()).is_none() {
            let mut note = "-- SQLite 3.35.0+ supports: ALTER TABLE ".to_string();
            note.append(source.name.as_str());
            note.append(" DROP COLUMN ");
            note.append(c.name.as_str());
            note.append(";");
            diff.columns_to_drop.push(note);
            assert(views(diff.columns_to_drop@) =~= had.push(
                drop_column_note(source.name@, c.name@),
            ));
        }
        j += 1;
    }
}

/// The difference between the schema that is wanted (`source`) and the
/// schema that is there (`target`): the tables and indexes to create, in the
/// order of the source; those to drop, in the order of the target; and, for
/// the tables that both have, the columns to add and to drop. Every name is
/// compared once, by its last occurrence on either side.
pub fn compare_schemas(source: &SchemaInfo, target: &SchemaInfo) -> (diff: SchemaDiffResult)
    ensures
        views(diff.tables_to_create@) == created_tables(
            source.tables@,
            target.tables@,
            source.tables@.len(),
        ),
        views(diff.tables_to_drop@) == dropped(
            "DROP TABLE IF EXISTS "@,
            table_names(target.tables@),
            table_names(source.tables@),
            target.tables@.len(),
        ),
        views(diff.columns_to_add@) == all_added_columns(
            source.tables@,
            target.tables@,
            source.tables@.len(),
        ),
        views(diff.columns_to_drop@) == all_dropped_columns(
            source.tables@,
            target.tables@,
            source.tables@.len(),
        ),
        views(diff.indexes_to_create@) == created_indexes(
            source.indexes@,
            target.indexes@,
            source.indexes@.len(),
        ),
        views(diff.indexes_to_drop@) == dropped(
            "DROP INDEX IF EXISTS "@,
            index_names(target.indexes@),
            index_names(source.indexes@),
            target.indexes@.len(),
        ),
        diff.summary@ == summary_text(
            diff.tables_to_create@.len(),
            diff.tables_to_drop@.len(),
            diff.indexes_to_create@.len(),
        ),
{
    let source_tables = names_of_tables(&source.tables);
    let target_tables = names_of_tables(&target.tables);
    let source_indexes = names_of_indexes(&source.indexes);
    let target_indexes = names_of_indexes(&target.indexes);
    let mut diff = SchemaDiffResult {
        tables_to_create: Vec::new(),
        tables_to_drop: drops_of("DROP TABLE IF EXISTS ", &target_tables, &source_tables),
        columns_to_add: Vec::new(),
        columns_to_drop: Vec::new(),
        indexes_to_create: Vec::new(),
        indexes_to_drop: drops_of("DROP INDEX IF EXISTS ", &target_indexes, &source_indexes),
        summary: String::new(),
    };
    let ghost table_drops = diff.tables_to_drop;
    let ghost index_drops = diff.indexes_to_drop;
    assert(views(diff.tables_to_create@) =~= Seq::<Seq<char>>::empty());
    assert(views(diff.columns_to_add@) =~= Seq::<Seq<char>>::empty());
    assert(views(diff.columns_to_drop@) =~= Seq::<Seq<char>>::empty());
    assert(views(diff.indexes_to_create@) =~= Seq::<Seq<char>>::empty());
    let mut i: usize = 0;
    while i < source.tables.len()
        invariant
            i <= source.tables@.len(),
            views(source_tables@) == table_names(source.tables@),
            views(target_tables@) == table_names(target.tables@),
            views(diff.tables_to_create@) == created_tables(
                source.tables@,
                target.tables@,
                i as nat,
            ),
            views(diff.columns_to_add@) == all_added_columns(
                source.tables@,
                target.tables@,
                i as nat,
            ),
            views(diff.columns_to_drop@) == all_dropped_columns(
                source.tables@,
                target.tables@,
                i as nat,
            ),
            views(diff.indexes_to_create@) == Seq::<Seq<char>>::empty(),
            diff.tables_to_drop == table_drops,
            diff.indexes_to_drop == index_drops,
        decreases source.tables@.len() - i,
    {
        let ghost had = views(diff.tables_to_create@);
        let t = &source.tables[i];
        if counts_at(&source_tables, i) {
            match last_position(&target_tables, t.name.as_str()) {
                None => {
                    match &t.sql {
                        Some(sql) => {
                            let mut statement = sql.clone();
                            statement.append(";");
                            diff.tables_to_create.push(statement);
                            assert(views(diff.tables_to_create@) =~= had.push(sql@ + ";"@));
                        },
                        None => {},
                    }
                },
                Some(j) => {
                    compare_columns(t, &target.tables[j], &mut diff);
                },
            }
        }
        i += 1;
    }
    let mut k: usize = 0;
    while k < source.indexes.len()
        invariant
            k <= source.indexes@.len(),
            views(source_indexes@) == index_names(source.indexes@),
            views(target_indexes@) == index_names(target.indexes@),
            views(diff.tables_to_create@) == created_tables(
                source.tables@,
                target.tables@,
                source.tables@.len(),
            ),
            views(diff.columns_to_add@) == all_added_columns(
                source.tables@,
                target.tables@,
                source.tables@.len(),
            ),
            views(diff.columns_to_drop@) == all_dropped_columns(
                source.tables@,
                target.tables@,
                source.tables@.len(),
            ),
            views(diff.indexes_to_create@) == created_indexes(
                source.indexes@,
                target.indexes@,
                k as nat,
            ),
            diff.tables_to_drop == table_drops,
            diff.indexes_to_drop == index_drops,
        decreases source.indexes@.len() - k,
    {
        let ghost had = views(diff.indexes_to_create@);
        let x = &source.indexes[k];
        if counts_at(&source_indexes, k) && last_position(&target_indexes, x.name.as_str()).is_none() {
            match &x.sql {
                Some(sql) => {
                    let mut statement = sql.clone();
                    statement.append(";");
                    diff.indexes_to_create.push(statement);
                    assert(views(diff.indexes_to_create@) =~= had.push(sql@ + ";"@));
                },
                None => {},
            }
        }
        k += 1;
    }
    let mut summary = "Found ".to_string();
    push_decimal(&mut summary, diff.tables_to_create.len() as u64);
    summary.append(" tables to create, ");
    push_decimal(&mut summary, diff.tables_to_drop.len() as u64);
    summary.append(" tables to drop, ");
    push_decimal(&mut summary, diff.indexes_to_create.len() as u64);
    summary.append(" indexes to create.");
    diff.summary = summary;
    diff
}

/// A name that stands in a list has a last occurrence in it.
pub proof fn lemma_present(names: Seq<Seq<char>>, i: int, n: nat)
    requires
        0 <= i < n <= names.len(),
    ensures
        last_index_below(names, names[i], n) is Some,
    decreases n,
{
    if names[n - 1] != names[i] {
        lemma_present(names, i, (n - 1) as nat);
    }
}

/// A table compared with itself asks for no column.
pub proof fn lemma_same_columns(t: TableInfo, n: nat)
    ensures
        added_columns(t, t, n).len() == 0,
        dropped_columns(t, t, n).len() == 0,
    decreases n,
{
    if n > 0 && n <= t.columns@.len() {
        lemma_same_columns(t, (n - 1) as nat);
        let names = column_names(t.columns@);
        lemma_present(names, n - 1, names.len());
    }
}

/// A list of names compared with itself asks for no drop.
pub proof fn lemma_same_names(keyword: Seq<char>, names: Seq<Seq<char>>, n: nat)
    ensures
        dropped(keyword, names, names, n).len() == 0,
    decreases n,
{
    if n > 0 && n <= names.len() {
        lemma_same_names(keyword, names, (n - 1) as nat);
        lemma_present(names, n - 1, names.len());
    }
}

/// Tables compared with themselves ask for nothing.
pub proof fn lemma_same_tables(tables: Seq<TableInfo>, n: nat)
    ensures
        created_tables(tables, tables, n).len() == 0,
        all_added_columns(tables, tables, n).len() == 0,
        all_dropped_columns(tables, tables, n).len() == 0,
    decreases n,
{
    if n > 0 && n <= tables.len() {
        lemma_same_tables(tables, (n - 1) as nat);
        let names = table_names(tables);
        lemma_present(names, n - 1, names.len());
        let t = tables[n - 1];
        lemma_same_columns(t, t.columns@.len());
        if counts(names, n - 1) {
            assert(last_index(names, t.name@) == Some(n - 1));
        }
    }
}

/// Indexes compared with themselves ask for nothing.
pub proof fn lemma_same_indexes(indexes: Seq<IndexInfo>, n: nat)
    ensures
        created_indexes(indexes, indexes, n).len() == 0,
    decreases n,
{
    if n > 0 && n <= indexes.len() {
        lemma_same_indexes(indexes, (n - 1) as nat);
        let names = index_names(indexes);
        lemma_present(names, n - 1, names.len());
    }
}

/// A schema compared with itself differs in nothing: there is no table and
/// no index to create or to drop, and no column to add or to drop, whatever
/// names occur in it and however often.
pub proof fn law_schema_equals_itself(s: SchemaInfo)
    ensures
        created_tables(s.tables@, s.tables@, s.tables@.len()).len() == 0,
        dropped(
            "DROP TABLE IF EXISTS "@,
            table_names(s.tables@),
            table_names(s.tables@),
            s.tables@.len(),
        ).len() == 0,
        all_added_columns(s.tables@, s.tables@, s.tables@.len()).len() == 0,
        all_dropped_columns(s.tables@, s.tables@, s.tables@.len()).len() == 0,
        created_indexes(s.indexes@, s.indexes@, s.indexes@.len()).len() == 0,
        dropped(
            "DROP INDEX IF EXISTS "@,
            index_names(s.indexes@),
            index_names(s.indexes@),
            s.indexes@.len(),
        ).len() == 0,
{
    lemma_same_tables(s.tables@, s.tables@.len());
    lemma_same_indexes(s.indexes@, s.indexes@.len());
    lemma_same_names("DROP TABLE IF EXISTS "@, table_names(s.tables@), s.tables@.len());
    lemma_same_names("DROP INDEX IF EXISTS "@, index_names(s.indexes@), s.indexes@.len());
}

} // verus!
