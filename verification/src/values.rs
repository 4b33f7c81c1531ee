//! The values that cross the boundary of the embedded engine: what a cell of
//! a result holds, what a bound parameter holds, and whole query results.
//!
//! A floating-point number is carried as the 64 bits of its IEEE 754 binary
//! form, so that every decision about it is a decision about integers.

use vstd::prelude::*;
use crate::text::{decimal, push_decimal, views};

verus! {

/// A value as the engine stores it.
#[derive(Debug, Clone, PartialEq)]
pub enum SqlValue {
    Null,
    Integer(i64),
    /// A `REAL`, as the bits of its binary form.
    Real(u64),
    Text(String),
    Blob(Vec<u8>),
}

/// A value as callers see it in a result row and hand it over as a parameter.
#[derive(Debug, Clone, PartialEq)]
pub enum JsonValue {
    Null,
    Bool(bool),
    Integer(i64),
    /// A number that is no integer, as the bits of its binary form.
    Real(u64),
    Text(String),
    /// An array or an object, as its JSON text.
    Structured(String),
}

/// An engine value as mathematical data.
pub enum SqlView {
    Null,
    Integer(i64),
    Real(u64),
    Text(Seq<char>),
    Blob(Seq<u8>),
}

/// A caller's value as mathematical data.
pub enum JsonView {
    Null,
    Bool(bool),
    Integer(i64),
    Real(u64),
    Text(Seq<char>),
    Structured(Seq<char>),
}

impl View for SqlValue {
    type V = SqlView;

    open spec fn view(&self) -> SqlView {
        match self {
            SqlValue::Null => SqlView::Null,
            SqlValue::Integer(i) => SqlView::Integer(*i),
            SqlValue::Real(b) => SqlView::Real(*b),
            SqlValue::Text(s) => SqlView::Text(s@),
            SqlValue::Blob(b) => SqlView::Blob(b@),
        }
    }
}

impl View for JsonValue {
    type V = JsonView;

    open spec fn view(&self) -> JsonView {
        match self {
            JsonValue::Null => JsonView::Null,
            JsonValue::Bool(b) => JsonView::Bool(*b),
            JsonValue::Integer(i) => JsonView::Integer(*i),
            JsonValue::Real(b) => JsonView::Real(*b),
            JsonValue::Text(s) => JsonView::Text(s@),
            JsonValue::Structured(s) => JsonView::Structured(s@),
        }
    }
}

/// The bits denote a finite number: the eleven exponent bits are not all set.
pub open spec fn is_finite_bits(bits: u64) -> bool {
    (bits / 0x10_0000_0000_0000) % 0x800 != 0x7ff
}

pub fn finite_bits(bits: u64) -> (b: bool)
    ensures
        b == is_finite_bits(bits),
{
    (bits / 0x10_0000_0000_0000) % 0x800 != 0x7ff
}

/// The placeholder shown in place of a blob of `n` bytes.
pub open spec fn blob_placeholder(n: nat) -> Seq<char> {
    "<BLOB "@ + decimal(n) + " bytes>"@
}

/// What a caller sees of a cell: `NULL` as null, an integer and a finite real
/// as numbers, a real that is not finite as null, text as text, and a blob as
/// a placeholder that tells its length.
pub open spec fn decoded(v: SqlView) -> JsonView {
    match v {
        SqlView::Null => JsonView::Null,
        SqlView::Integer(i) => JsonView::Integer(i),
        SqlView::Real(b) => if is_finite_bits(b) {
            JsonView::Real(b)
        } else {
            JsonView::Null
        },
        SqlView::Text(s) => JsonView::Text(s),
        SqlView::Blob(b) => JsonView::Text(blob_placeholder(b.len())),
    }
}

/// What the engine is handed for a parameter: null as `NULL`, a boolean as
/// the integer 0 or 1, an integer as `INTEGER`, a finite real as `REAL` (one
/// that is not finite as `NULL`), text as `TEXT`, and an array or an object
/// as its JSON text.
pub open spec fn encoded(v: JsonView) -> SqlView {
    match v {
        JsonView::Null => SqlView::Null,
        JsonView::Bool(b) => SqlView::Integer(
            if b {
                1i64
            } else {
                0i64
            },
        ),
        JsonView::Integer(i) => SqlView::Integer(i),
        JsonView::Real(b) => if is_finite_bits(b) {
            SqlView::Real(b)
        } else {
            SqlView::Null
        },
        JsonView::Text(s) => SqlView::Text(s),
        JsonView::Structured(s) => SqlView::Text(s),
    }
}

/// Decodes one cell of a result row.
pub fn decode_cell(v: SqlValue) -> (j: JsonValue)
    ensures
        j@ == decoded(v@),
{
    match v {
        SqlValue::Null => JsonValue::Null,
        SqlValue::Integer(i) => JsonValue::Integer(i),
        SqlValue::Real(b) => if finite_bits(b) {
            JsonValue::Real(b)
        } else {
            JsonValue::Null
        },
        SqlValue::Text(s) => JsonValue::Text(s),
        SqlValue::Blob(b) => {
            let mut s = "<BLOB ".to_string();
            let n: usize = b.len();
            push_decimal(&mut s, n as u64);
            s.append(" bytes>");
            JsonValue::Text(s)
        },
    }
}

/// Encodes one parameter for binding.
pub fn encode_param(v: JsonValue) -> (s: SqlValue)
    ensures
        s@ == encoded(v@),
{
    match v {
        JsonValue::Null => SqlValue::Null,
        JsonValue::Bool(b) => SqlValue::Integer(
            if b {
                1
            } else {
                0
            },
        ),
        JsonValue::Integer(i) => SqlValue::Integer(i),
        JsonValue::Real(b) => if finite_bits(b) {
            SqlValue::Real(b)
        } else {
            SqlValue::Null
        },
        JsonValue::Text(s) => SqlValue::Text(s),
        JsonValue::Structured(s) => SqlValue::Text(s),
    }
}

/// The views of a row of engine values.
pub open spec fn sql_views(row: Seq<SqlValue>) -> Seq<SqlView> {
    Seq::new(row.len(), |i: int| row[i]@)
}

/// The views of a row of caller's values.
pub open spec fn json_views(row: Seq<JsonValue>) -> Seq<JsonView> {
    Seq::new(row.len(), |i: int| row[i]@)
}

/// The views of the rows of a result.
pub open spec fn rows_view(rows: Seq<Vec<JsonValue>>) -> Seq<Seq<JsonView>> {
    Seq::new(rows.len(), |i: int| json_views(rows[i]@))
}

/// The views of rows as the engine hands them out.
pub open spec fn raw_rows_view(rows: Seq<Vec<SqlValue>>) -> Seq<Seq<SqlView>> {
    Seq::new(rows.len(), |i: int| sql_views(rows[i]@))
}

/// The elements of `v` in the opposite order.
pub fn reversed<T>(v: Vec<T>) -> (r: Vec<T>)
    ensures
        r@.len() == v@.len(),
        forall|k: int| 0 <= k < r@.len() ==> r@[k] == v@[v@.len() - 1 - k],
{
    let ghost all = v@;
    let mut v = v;
    let mut r: Vec<T> = Vec::new();
    while v.len() > 0
        invariant
            v@.len() + r@.len() == all.len(),
            forall|k: int| 0 <= k < v@.len() ==> v@[k] == all[k],
            forall|k: int| 0 <= k < r@.len() ==> r@[k] == all[all.len() - 1 - k],
        decreases v@.len(),
    {
        let x = v.pop().unwrap();
        r.push(x);
    }
    r
}

/// Encodes the parameters of a statement, in order.
pub fn json_params_to_sqlite(params: Vec<JsonValue>) -> (r: Vec<SqlValue>)
    ensures
        sql_views(r@) == json_views(params@).map_values(|v: JsonView| encoded(v)),
{
    let mut r: Vec<SqlValue> = Vec::new();
    let ghost want = json_views(params@).map_values(|v: JsonView| encoded(v));
    let ghost all = params@;
    let mut rest = reversed(params);
    while rest.len() > 0
        invariant
            rest@.len() + r@.len() == all.len(),
            forall|k: int| 0 <= k < rest@.len() ==> rest@[k] == all[all.len() - 1 - k],
            forall|k: int| 0 <= k < r@.len() ==> r@[k]@ == encoded(all[k]@),
        decreases rest@.len(),
    {
        let v = rest.pop().unwrap();
        r.push(encode_param(v));
    }
    assert(sql_views(r@) =~= want);
    r
}

/// Decodes a row of a result, cell by cell.
pub fn decode_row(row: Vec<SqlValue>) -> (r: Vec<JsonValue>)
    ensures
        json_views(r@) == sql_views(row@).map_values(|v: SqlView| decoded(v)),
{
    let mut r: Vec<JsonValue> = Vec::new();
    let ghost want = sql_views(row@).map_values(|v: SqlView| decoded(v));
    let ghost all = row@;
    let mut rest = reversed(row);
    while rest.len() > 0
        invariant
            rest@.len() + r@.len() == all.len(),
            forall|k: int| 0 <= k < rest@.len() ==> rest@[k] == all[all.len() - 1 - k],
            forall|k: int| 0 <= k < r@.len() ==> r@[k]@ == decoded(all[k]@),
        decreases rest@.len(),
    {
        let v = rest.pop().unwrap();
        r.push(decode_cell(v));
    }
    assert(json_views(r@) =~= want);
    r
}

/// The rows that a query returned, with the names of their columns.
#[derive(Debug, Clone, PartialEq)]
pub struct QueryResult {
    pub columns: Vec<String>,
    pub column_types: Vec<String>,
    pub rows: Vec<Vec<JsonValue>>,
}

/// A query result as mathematical data.
pub struct ResultView {
    pub columns: Seq<Seq<char>>,
    pub column_types: Seq<Seq<char>>,
    pub rows: Seq<Seq<JsonView>>,
}

impl View for QueryResult {
    type V = ResultView;

    open spec fn view(&self) -> ResultView {
        ResultView {
            columns: views(self.columns@),
            column_types: views(self.column_types@),
            rows: rows_view(self.rows@),
        }
    }
}

/// The result that holds nothing.
pub open spec fn empty_result() -> ResultView {
    ResultView {
        columns: Seq::<Seq<char>>::empty(),
        column_types: Seq::<Seq<char>>::empty(),
        rows: Seq::<Seq<JsonView>>::empty(),
    }
}

/// A result with the response of one more shard taken in: the column names
/// and types come from the first response that has columns; the rows are
/// appended.
pub open spec fn absorbed(acc: ResultView, next: ResultView) -> ResultView {
    ResultView {
        columns: if acc.columns.len() == 0 {
            next.columns
        } else {
            acc.columns
        },
        column_types: if acc.columns.len() == 0 {
            next.column_types
        } else {
            acc.column_types
        },
        rows: acc.rows + next.rows,
    }
}

/// The responses of the shards, merged in the order in which they came.
pub open spec fn merged(responses: Seq<ResultView>) -> ResultView
    decreases responses.len(),
{
    if responses.len() == 0 {
        empty_result()
    } else {
        absorbed(merged(responses.drop_last()), responses.last())
    }
}

/// The views of a list of results.
pub open spec fn result_views(v: Seq<QueryResult>) -> Seq<ResultView> {
    Seq::new(v.len(), |i: int| v[i]@)
}

/// The type name reported for every column of a result.
pub open spec fn reported_types(n: nat) -> Seq<Seq<char>> {
    Seq::new(n, |i: int| "TEXT"@)
}

impl QueryResult {
    /// The result that holds nothing.
    pub fn empty() -> (r: QueryResult)
        ensures
            r@ == empty_result(),
    {
        let r = QueryResult { columns: Vec::new(), column_types: Vec::new(), rows: Vec::new() };
        assert(views(r.columns@) =~= Seq::<Seq<char>>::empty());
        assert(views(r.column_types@) =~= Seq::<Seq<char>>::empty());
        assert(rows_view(r.rows@) =~= Seq::<Seq<JsonView>>::empty());
        r
    }

    /// Takes in the response of one more shard.
    pub fn absorb(&mut self, next: QueryResult)
        ensures
            final(self)@ == absorbed(old(self)@, next@),
    {
        let mut next = next;
        let ghost before = self.rows@;
        let ghost added = next.rows@;
        if self.columns.len() == 0 {
            self.columns = next.columns;
            self.column_types = next.column_types;
        }
        self.rows.append(&mut next.rows);
        assert(rows_view(self.rows@) =~= rows_view(before) + rows_view(added));
    }

    /// The result of a query from what the engine handed out: the column
    /// names as given, `TEXT` as the type of every column, and the rows
    /// decoded cell by cell.
    pub fn from_rows(columns: Vec<String>, raw_rows: Vec<Vec<SqlValue>>) -> (r: QueryResult)
        ensures
            r@.columns == views(columns@),
            r@.column_types == reported_types(columns@.len()),
            r@.rows == raw_rows_view(raw_rows@).map_values(
                |row: Seq<SqlView>| row.map_values(|v: SqlView| decoded(v)),
            ),
    {
        let mut column_types: Vec<String> = Vec::new();
        let mut i: usize = 0;
        while i < columns.len()
            invariant
                i <= columns@.len(),
                column_types@.len() == i,
                forall|k: int| 0 <= k < i ==> column_types@[k]@ == "TEXT"@,
            decreases columns@.len() - i,
        {
            column_types.push("TEXT".to_string());
            i += 1;
        }
        let ghost all = raw_rows@;
        let mut rest = reversed(raw_rows);
        let mut rows: Vec<Vec<JsonValue>> = Vec::new();
        while rest.len() > 0
            invariant
                rest@.len() + rows@.len() == all.len(),
                forall|k: int| 0 <= k < rest@.len() ==> rest@[k] == all[all.len() - 1 - k],
                forall|k: int|
                    0 <= k < rows@.len() ==> json_views(#[trigger] rows@[k]@) == sql_views(
                        all[k]@,
                    ).map_values(|v: SqlView| decoded(v)),
            decreases rest@.len(),
        {
            let v = rest.pop().unwrap();
            rows.push(decode_row(v));
        }
        let r = QueryResult { columns, column_types, rows };
        assert(r@.column_types =~= reported_types(columns@.len()));
        assert(r@.rows =~= raw_rows_view(raw_rows@).map_values(
            |row: Seq<SqlView>| row.map_values(|v: SqlView| decoded(v)),
        ));
        r
    }
}

/// Merges the responses of the shards in the order in which they came.
pub fn merge_results(responses: Vec<QueryResult>) -> (r: QueryResult)
    ensures
        r@ == merged(result_views(responses@)),
{
    let ghost all = responses@;
    let mut rest = reversed(responses);
    let mut r = QueryResult::empty();
    let ghost mut done: int = 0;
    while rest.len() > 0
        invariant
            0 <= done <= all.len(),
            rest@.len() + done == all.len(),
            forall|k: int| 0 <= k < rest@.len() ==> rest@[k] == all[all.len() - 1 - k],
            r@ == merged(result_views(all).take(done)),
        decreases rest@.len(),
    {
        let v = rest.pop().unwrap();
        r.absorb(v);
        proof {
            let t = result_views(all).take(done + 1);
            assert(t.drop_last() =~= result_views(all).take(done));
            assert(t.last() == all[done]@);
            done = done + 1;
        }
    }
    assert(result_views(all).take(done) =~= result_views(all));
    r
}

/// Merging keeps every row, shard by shard in the order of the responses,
/// and takes the column names and types from the first response that has
/// columns.
pub proof fn law_merged(responses: Seq<ResultView>)
    ensures
        merged(responses).rows == responses.map_values(|r: ResultView| r.rows).flatten(),
        forall|i: int|
            0 <= i < responses.len() && (#[trigger] responses[i]).columns.len() > 0 && (forall|
                j: int,
            |
                0 <= j < i ==> (#[trigger] responses[j]).columns.len() == 0) ==> merged(
                responses,
            ).columns == responses[i].columns && merged(responses).column_types
                == responses[i].column_types,
        (forall|j: int| 0 <= j < responses.len() ==> (#[trigger] responses[j]).columns.len() == 0)
            ==> merged(responses).columns.len() == 0,
    decreases responses.len(),
{
    broadcast use Seq::lemma_flatten_push;

    let rows = |r: ResultView| r.rows;
    if responses.len() == 0 {
        assert(responses.map_values(rows) =~= Seq::<Seq<Seq<JsonView>>>::empty());
    } else {
        let before = responses.drop_last();
        law_merged(before);
        assert(responses.map_values(rows) =~= before.map_values(rows).push(responses.last().rows));
        assert forall|i: int|
            0 <= i < responses.len() && (#[trigger] responses[i]).columns.len() > 0 && (forall|
                j: int,
            |
                0 <= j < i ==> (#[trigger] responses[j]).columns.len() == 0) implies merged(
            responses,
        ).columns == responses[i].columns && merged(responses).column_types
            == responses[i].column_types by {
            if i < before.len() {
                assert(before[i] == responses[i]);
                assert forall|j: int| 0 <= j < i implies (#[trigger] before[j]).columns.len()
                    == 0 by {
                    assert(before[j] == responses[j]);
                }
            } else {
                assert forall|j: int| 0 <= j < before.len() implies (#[trigger] before[j]).columns.len()
                    == 0 by {
                    assert(before[j] == responses[j]);
                }
            }
        }
        if forall|j: int| 0 <= j < responses.len() ==> (#[trigger] responses[j]).columns.len() == 0 {
            assert forall|j: int| 0 <= j < before.len() implies (#[trigger] before[j]).columns.len()
                == 0 by {
                assert(before[j] == responses[j]);
            }
            assert(responses[responses.len() - 1].columns.len() == 0);
        }
    }
}

} // verus!
