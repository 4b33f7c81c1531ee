//! Uniqueness across shards: a value is unique if no shard holds it.

use vstd::prelude::*;
use crate::errors::{prefixed, Sqlite3xError};
use crate::manager::{
    coverage_views, after_query, missing_in, plan_views, query_plan, routed_write, view_wf,
    IndexCoverage, ManagerView, PartitionManager, ShardStatement,
};
use crate::sql_parser::select_of;
use crate::text::{chars_of, trim, views};
use crate::values::{json_views, JsonValue, JsonView, QueryResult};

verus! {

/// The text with every single quote doubled.
pub open spec fn escaped(value: Seq<char>) -> Seq<char>
    decreases value.len(),
{
    if value.len() == 0 {
        Seq::<char>::empty()
    } else if value.last() == '\'' {
        escaped(value.drop_last()) + seq!['\'', '\'']
    } else {
        escaped(value.drop_last()).push(value.last())
    }
}

/// The query that counts, on one shard, the rows of `table` whose `column`
/// holds `value`.
pub open spec fn uniqueness_sql(table: Seq<char>, column: Seq<char>, value: Seq<char>) -> Seq<char> {
    "SELECT COUNT(*) FROM "@ + table + " WHERE "@ + column + " = '"@ + escaped(value) + "'"@
}

/// The count that a row of a counting query reports: its first cell, if that
/// is an integer that is not negative.
pub open spec fn count_of(row: Seq<JsonView>) -> nat {
    if row.len() > 0 {
        match row[0] {
            JsonView::Integer(i) => if i >= 0 {
                i as nat
            } else {
                0
            },
            _ => 0,
        }
    } else {
        0
    }
}

/// The sum of the counts that the rows report.
pub open spec fn total_count(rows: Seq<Seq<JsonView>>) -> nat
    decreases rows.len(),
{
    if rows.len() == 0 {
        0
    } else {
        total_count(rows.drop_last()) + count_of(rows.last())
    }
}

/// Doubles every single quote of `value`.
pub fn escape_quotes(value: &str) -> (r: String)
    ensures
        r@ == escaped(value@),
{
    let v = chars_of(value);
    let mut r = String::new();
    let mut i: usize = 0;
    assert(v@.take(0) =~= Seq::<char>::empty());
    while i < v.len()
        invariant
            i <= v@.len(),
            v@ == value@,
            r@ == escaped(v@.take(i as int)),
        decreases v@.len() - i,
    {
        proof {
            let t = v@.take(i + 1);
            assert(t.drop_last() =~= v@.take(i as int));
            assert(t.last() == v@[i as int]);
        }
        if v[i] == '\'' {
            r.push('\'');
            r.push('\'');
            assert(r@ =~= escaped(v@.take(i as int)) + seq!['\'', '\'']);
        } else {
            r.push(v[i]);
        }
        i += 1;
    }
    assert(v@.take(v@.len() as int) =~= v@);
    r
}

/// The query that counts the rows of `table` whose `column` holds `value`.
pub fn uniqueness_query(table_name: &str, column_name: &str, value: &str) -> (sql: String)
    ensures
        sql@ == uniqueness_sql(table_name@, column_name@, value@),
{
    let mut sql = "SELECT COUNT(*) FROM ".to_string();
    sql.append(table_name);
    sql.append(" WHERE ");
    sql.append(column_name);
    sql.append(" = '");
    sql.append(escape_quotes(value).as_str());
    sql.append("'");
    sql
}

/// Whether the merged response of a counting query reports no row at all.
pub fn is_unique(counts: &QueryResult) -> (unique: bool)
    ensures
        unique == (total_count(counts@.rows) == 0),
{
    let mut i: usize = 0;
    assert(counts@.rows.take(0) =~= Seq::<Seq<JsonView>>::empty());
    while i < counts.rows.len()
        invariant
            i <= counts.rows@.len(),
            total_count(counts@.rows.take(i as int)) == 0,
        decreases counts.rows@.len() - i,
    {
        proof {
            let t = counts@.rows.take(i + 1);
            assert(t.drop_last() =~= counts@.rows.take(i as int));
            assert(t.last() == json_views(counts.rows@[i as int]@));
            lemma_total_count_grows(counts@.rows, i + 1);
        }
        let row = &counts.rows[i];
        if row.len() > 0 {
            match &row[0] {
                JsonValue::Integer(n) => {
                    if *n > 0 {
                        return false;
                    }
                },
                _ => {},
            }
        }
        i += 1;
    }
    assert(counts@.rows.take(counts@.rows.len() as int) =~= counts@.rows);
    true
}

/// The total of all rows is at least the total of the first `i`.
pub proof fn lemma_total_count_grows(rows: Seq<Seq<JsonView>>, i: int)
    requires
        0 <= i <= rows.len(),
    ensures
        total_count(rows.take(i)) <= total_count(rows),
    decreases rows.len() - i,
{
    if i < rows.len() {
        lemma_total_count_grows(rows, i + 1);
        assert(rows.take(i + 1).drop_last() =~= rows.take(i));
    } else {
        assert(rows.take(i) =~= rows);
    }
}

/// Uniqueness of values across the shards of a partition manager.
pub struct GlobalIndexManager {
    partition_manager: PartitionManager,
}

impl View for GlobalIndexManager {
    type V = ManagerView;

    closed spec fn view(&self) -> ManagerView {
        self.partition_manager@
    }
}

impl GlobalIndexManager {
    pub fn new(partition_manager: PartitionManager) -> (g: Self)
        ensures
            g@ == partition_manager@,
    {
        GlobalIndexManager { partition_manager }
    }

    /// The partition manager.
    pub fn partition_manager(&self) -> (m: &PartitionManager)
        ensures
            m@ == self@,
    {
        &self.partition_manager
    }

    /// Hands the partition manager back.
    pub fn into_partition_manager(self) -> (m: PartitionManager)
        ensures
            m@ == self@,
    {
        self.partition_manager
    }

    /// The statements that count, shard by shard, the rows of `table_name`
    /// whose `column_name` holds `value`. The value is unique if the merged
    /// response reports no row: see `is_unique`.
    pub fn check_global_uniqueness(&mut self, table_name: &str, column_name: &str, value: &str) -> (r:
        Result<Vec<ShardStatement>, Sqlite3xError>)
        requires
            view_wf(old(self)@),
        ensures
            view_wf(final(self)@),
            match select_of(trim(uniqueness_sql(table_name@, column_name@, value@))) {
                Some(parsed) => r matches Ok(plan) && plan_views(plan@) == query_plan(
                    old(self)@,
                    uniqueness_sql(table_name@, column_name@, value@),
                    parsed,
                ) && final(self)@ == after_query(
                    old(self)@,
                    uniqueness_sql(table_name@, column_name@, value@),
                    parsed,
                ),
                None => r matches Err(Sqlite3xError::InvalidSql(_)) && final(self)@ == old(self)@,
            },
    {
        let sql = uniqueness_query(table_name, column_name, value);
        self.partition_manager.query_partitioned(sql.as_str())
    }

    /// The tables without an index on the key column, from what the probes found.
    pub fn analyze_index_coverage(&self, findings: &Vec<IndexCoverage>) -> (missing: Vec<String>)
        ensures
            views(missing@) == if self@.config.key_column is Some {
                missing_in(coverage_views(findings@))
            } else {
                Seq::<Seq<char>>::empty()
            },
    {
        self.partition_manager.verify_shard_key_indices(findings)
    }

    /// Routes an insert whose value must be unique across the shards.
    /// `counts` is the merged response to the statements of
    /// `check_global_uniqueness`. If it reports a row, the insert is refused
    /// and nothing changes; otherwise the insert is routed as any write.
    pub fn unique_insert_partitioned(
        &mut self,
        sql: &str,
        unique_column: &str,
        value: &str,
        counts: &QueryResult,
    ) -> (r: Result<ShardStatement, Sqlite3xError>)
        requires
            view_wf(old(self)@),
        ensures
            view_wf(final(self)@),
            total_count(counts@.rows) != 0 ==> (r matches Err(
                Sqlite3xError::GlobalUniquenessViolation(_),
            ) && final(self)@ == old(self)@),
            total_count(counts@.rows) == 0 ==> routed_write(old(self)@, sql@, r, final(self)@),
    {
        if !is_unique(counts) {
            let mut detail = prefixed("Value already present in column ", unique_column);
            detail.append(": ");
            detail.append(value);
            return Err(Sqlite3xError::GlobalUniquenessViolation(detail));
        }
        self.partition_manager.execute_partitioned(sql)
    }
}

} // verus!
