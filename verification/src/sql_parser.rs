//! A deliberately narrow recogniser for the four statements that the router
//! can place: `INSERT`, `UPDATE`, `DELETE` and `SELECT`.
//!
//! It tells the router the table, the partition-key value and, for a
//! `SELECT`, the predicate, without running the statement. Everything else is
//! turned away by the admission filter. The filter judges a statement by
//! the upper case that the standard library gives its trimmed text; the
//! recognisers, which cut the statement into parts, match keywords without
//! regard to the case of ASCII letters, so that every index they find is an
//! index into the statement itself.

use vstd::prelude::*;
use vstd::slice::slice_subrange;
use crate::errors::Sqlite3xError;
use crate::errors::prefixed;
use crate::text::{
    all_digits, ascii_upper, begins_with, char_is_letter, char_is_letter_or_digit, chars_of,
    contains, count, count_in, eq_ignore_case, lemma_contains, occurs_at, find, find_any, find_any_in, find_in, has,
    is_letter, is_letter_or_digit, single, uppercase, uppercased, lemma_find_from, list_items, same_ignore_case, split_list,
    starts_with, string_of, to_upper, trim, trim_start, trimmed, trimmed_start, unquote, unquoted,
    upper, views,
};

verus! {

/// The kind of a recognised statement.
#[derive(Debug, Clone, Copy, PartialEq, Eq, Structural)]
pub enum StatementType {
    Insert,
    Update,
    Delete,
    Select,
}

/// What the recogniser found in a statement.
#[derive(Debug)]
pub struct ParsedStatement {
    pub statement_type: StatementType,
    pub table_name: String,
    /// The column list of an `INSERT`, as written.
    pub columns: Vec<String>,
    /// The values of an `INSERT`; strings keep their quotes.
    pub values: Vec<String>,
    /// The body of the `WHERE` clause of an `UPDATE`, `DELETE` or `SELECT`.
    pub where_clause: Option<String>,
    /// The body of the `SET` clause of an `UPDATE`.
    pub set_clause: Option<String>,
}

/// A parsed statement as mathematical text.
pub struct StatementView {
    pub statement_type: StatementType,
    pub table_name: Seq<char>,
    pub columns: Seq<Seq<char>>,
    pub values: Seq<Seq<char>>,
    pub where_clause: Option<Seq<char>>,
    pub set_clause: Option<Seq<char>>,
}

/// The text of an optional string.
pub open spec fn opt_view(o: Option<String>) -> Option<Seq<char>> {
    match o {
        Some(s) => Some(s@),
        None => None,
    }
}

impl View for ParsedStatement {
    type V = StatementView;

    open spec fn view(&self) -> StatementView {
        StatementView {
            statement_type: self.statement_type,
            table_name: self.table_name@,
            columns: views(self.columns@),
            values: views(self.values@),
            where_clause: opt_view(self.where_clause),
            set_clause: opt_view(self.set_clause),
        }
    }
}

/// A copy of a list of strings.
pub fn clone_strings(v: &Vec<String>) -> (r: Vec<String>)
    ensures
        views(r@) == views(v@),
{
    let mut r: Vec<String> = Vec::new();
    let mut i: usize = 0;
    while i < v.len()
        invariant
            i <= v@.len(),
            r@.len() == i,
            forall|k: int| 0 <= k < i ==> r@[k]@ == v@[k]@,
        decreases v@.len() - i,
    {
        r.push(v[i].clone());
        i += 1;
    }
    assert(views(r@) =~= views(v@));
    r
}

/// A copy of an optional string.
pub fn clone_opt_string(o: &Option<String>) -> (r: Option<String>)
    ensures
        opt_view(r) == opt_view(*o),
{
    match o {
        Some(s) => Some(s.clone()),
        None => None,
    }
}

impl Clone for ParsedStatement {
    fn clone(&self) -> (r: Self)
        ensures
            r@ == self@,
    {
        ParsedStatement {
            statement_type: self.statement_type,
            table_name: self.table_name.clone(),
            columns: clone_strings(&self.columns),
            values: clone_strings(&self.values),
            where_clause: clone_opt_string(&self.where_clause),
            set_clause: clone_opt_string(&self.set_clause),
        }
    }
}

// ---------------------------------------------------------------------------
// What is admitted
// ---------------------------------------------------------------------------
/// The upper-cased statement begins with one of the four routable keywords.
pub open spec fn begins_with_routable_keyword(up: Seq<char>) -> bool {
    starts_with(up, "INSERT"@) || starts_with(up, "UPDATE"@) || starts_with(up, "DELETE"@)
        || starts_with(up, "SELECT"@)
}

/// The upper-cased statement holds a keyword of data definition between spaces.
pub open spec fn has_ddl_keyword(up: Seq<char>) -> bool {
    contains(up, " DROP "@) || contains(up, " ALTER "@) || contains(up, " CREATE "@) || contains(
        up,
        " TRUNCATE "@,
    )
}

/// The statement holds the start or the end of an SQL comment.
pub open spec fn has_comment(sql: Seq<char>) -> bool {
    contains(sql, "--"@) || contains(sql, "/*"@) || contains(sql, "*/"@)
}

/// The statement passes the admission filter. It is judged by the upper
/// case of its trimmed text; only the comment markers are looked for in the
/// text as it was given.
pub open spec fn admissible(sql: Seq<char>) -> bool {
    let up = uppercase(trim(sql));
    &&& begins_with_routable_keyword(up)
    &&& !has_ddl_keyword(up)
    &&& !has_comment(sql)
    &&& count(up, "SELECT"@) <= 1
}

/// An identifier: not empty, a letter or an underscore first, then letters,
/// digits and underscores only.
pub open spec fn valid_identifier(s: Seq<char>) -> bool {
    &&& s.len() > 0
    &&& (is_letter(s[0]) || s[0] == '_')
    &&& forall|i: int| 1 <= i < s.len() ==> is_letter_or_digit(#[trigger] s[i]) || s[i] == '_'
}

/// Every text of the list is an identifier.
pub open spec fn all_valid_identifiers(l: Seq<Seq<char>>) -> bool {
    forall|i: int| 0 <= i < l.len() ==> valid_identifier(#[trigger] l[i])
}

// ---------------------------------------------------------------------------
// The shapes
// ---------------------------------------------------------------------------
/// The characters that end the table name of an `INSERT`.
pub open spec fn insert_table_delims() -> Seq<char> {
    seq![' ', '(', '\n', '\r']
}

/// The characters that end the table name of an `UPDATE`.
pub open spec fn update_table_delims() -> Seq<char> {
    seq![' ', '\n', '\r']
}

/// The characters that end the table name of a `DELETE` or a `SELECT`, and a
/// partition-key value in a predicate.
pub open spec fn word_delims() -> Seq<char> {
    seq![' ', ';', '\n', '\r']
}

/// The length of the first word of `s`: up to the first delimiter, or all of `s`.
pub open spec fn word_len(s: Seq<char>, delims: Seq<char>) -> int {
    match find_any(s, delims) {
        Some(i) => i,
        None => s.len() as int,
    }
}

/// The items between the parentheses that follow the keyword `VALUES` at the
/// start of `rest`; `None` if `rest` does not have that shape.
pub open spec fn values_clause(rest: Seq<char>) -> Option<Seq<Seq<char>>> {
    if !starts_with(upper(rest), "VALUES"@) {
        None
    } else {
        parenthesized_list(trim_start(rest.skip("VALUES"@.len() as int)))
    }
}

/// The items between the `(` that `s` starts with and the first `)`.
pub open spec fn parenthesized_list(s: Seq<char>) -> Option<Seq<Seq<char>>> {
    if !starts_with(s, seq!['(']) {
        None
    } else {
        match find(s, seq![')']) {
            Some(e) => if 1 <= e {
                Some(list_items(s.subrange(1, e)))
            } else {
                None
            },
            None => None,
        }
    }
}

/// The text that follows the first `)` of `s`.
pub open spec fn after_parenthesis(s: Seq<char>) -> Seq<char> {
    match find(s, seq![')']) {
        Some(e) => s.skip(e + 1),
        None => Seq::<char>::empty(),
    }
}

/// What `parse_insert` finds in `sql`; `None` where it rejects.
pub open spec fn insert_of(sql: Seq<char>) -> Option<StatementView> {
    let t = trim(sql);
    if !admissible(sql) || !starts_with(upper(t), "INSERT INTO "@) {
        None
    } else {
        let after_into = t.skip("INSERT INTO "@.len() as int);
        let n = word_len(after_into, insert_table_delims());
        let table = trim(after_into.take(n));
        let rest = trim_start(after_into.skip(n));
        if !valid_identifier(table) {
            None
        } else if starts_with(rest, seq!['(']) {
            match parenthesized_list(rest) {
                Some(columns) => if all_valid_identifiers(columns) {
                    match values_clause(trim_start(after_parenthesis(rest))) {
                        Some(values) => Some(
                            StatementView {
                                statement_type: StatementType::Insert,
                                table_name: table,
                                columns: columns,
                                values: values,
                                where_clause: None,
                                set_clause: None,
                            },
                        ),
                        None => None,
                    }
                } else {
                    None
                },
                None => None,
            }
        } else {
            match values_clause(rest) {
                Some(values) => Some(
                    StatementView {
                        statement_type: StatementType::Insert,
                        table_name: table,
                        columns: Seq::<Seq<char>>::empty(),
                        values: values,
                        where_clause: None,
                        set_clause: None,
                    },
                ),
                None => None,
            }
        }
    }
}

/// What `parse_update` finds in `sql`; `None` where it rejects.
pub open spec fn update_of(sql: Seq<char>) -> Option<StatementView> {
    let t = trim(sql);
    if !admissible(sql) || !starts_with(upper(t), "UPDATE "@) {
        None
    } else {
        let after_update = t.skip("UPDATE "@.len() as int);
        let n = word_len(after_update, update_table_delims());
        let table = trim(after_update.take(n));
        let rest = trim_start(after_update.skip(n));
        if !valid_identifier(table) || !starts_with(upper(rest), "SET"@) {
            None
        } else {
            let after_set = trim_start(rest.skip("SET"@.len() as int));
            match find(upper(after_set), " WHERE "@) {
                Some(p) => Some(
                    StatementView {
                        statement_type: StatementType::Update,
                        table_name: table,
                        columns: Seq::<Seq<char>>::empty(),
                        values: Seq::<Seq<char>>::empty(),
                        where_clause: Some(trim(after_set.skip(p + " WHERE "@.len()))),
                        set_clause: Some(trim(after_set.take(p))),
                    },
                ),
                None => Some(
                    StatementView {
                        statement_type: StatementType::Update,
                        table_name: table,
                        columns: Seq::<Seq<char>>::empty(),
                        values: Seq::<Seq<char>>::empty(),
                        where_clause: None,
                        set_clause: Some(trim(after_set)),
                    },
                ),
            }
        }
    }
}

/// What `parse_delete` finds in `sql`; `None` where it rejects.
pub open spec fn delete_of(sql: Seq<char>) -> Option<StatementView> {
    let t = trim(sql);
    if !admissible(sql) || !starts_with(upper(t), "DELETE FROM "@) {
        None
    } else {
        let after_from = t.skip("DELETE FROM "@.len() as int);
        let n = word_len(after_from, word_delims());
        let table = trim(after_from.take(n));
        let rest = trim_start(after_from.skip(n));
        if !valid_identifier(table) {
            None
        } else {
            Some(
                StatementView {
                    statement_type: StatementType::Delete,
                    table_name: table,
                    columns: Seq::<Seq<char>>::empty(),
                    values: Seq::<Seq<char>>::empty(),
                    where_clause: if starts_with(upper(rest), "WHERE"@) {
                        Some(trim(rest.skip("WHERE"@.len() as int)))
                    } else {
                        None
                    },
                    set_clause: None,
                },
            )
        }
    }
}

/// The smaller of two optional indices, an absent one counting as no bound.
pub open spec fn nearer(a: Option<int>, b: Option<int>) -> Option<int> {
    match (a, b) {
        (Some(x), Some(y)) => Some(if x <= y { x } else { y }),
        (Some(x), None) => Some(x),
        (None, b) => b,
    }
}

/// Where the predicate of a `SELECT` ends: at the nearest of ` GROUP BY `,
/// ` ORDER BY ` and ` LIMIT `, or at the end of the text.
pub open spec fn predicate_len(after_where: Seq<char>) -> int {
    let up = upper(after_where);
    match nearer(nearer(find(up, " GROUP BY "@), find(up, " ORDER BY "@)), find(up, " LIMIT "@)) {
        Some(e) => e,
        None => after_where.len() as int,
    }
}

/// What `parse_select` finds in `sql`; `None` where it rejects.
pub open spec fn select_of(sql: Seq<char>) -> Option<StatementView> {
    let t = trim(sql);
    if !admissible(sql) || !starts_with(upper(t), "SELECT "@) {
        None
    } else {
        match find(upper(t), " FROM "@) {
            None => None,
            Some(from_pos) => {
                let after_from = t.skip(from_pos + " FROM "@.len());
                let n = word_len(after_from, word_delims());
                let table = trim(after_from.take(n));
                let rest = after_from.skip(n);
                if !valid_identifier(table) {
                    None
                } else {
                    Some(
                        StatementView {
                            statement_type: StatementType::Select,
                            table_name: table,
                            columns: Seq::<Seq<char>>::empty(),
                            values: Seq::<Seq<char>>::empty(),
                            where_clause: match find(upper(rest), " WHERE "@) {
                                Some(wp) => {
                                    let after_where = rest.skip(wp + " WHERE "@.len());
                                    Some(trim(after_where.take(predicate_len(after_where))))
                                },
                                None => None,
                            },
                            set_clause: None,
                        },
                    )
                }
            },
        }
    }
}

// ---------------------------------------------------------------------------
// The partition key
// ---------------------------------------------------------------------------
/// The first index at or after `i` whose text equals `key` up to ASCII case.
pub open spec fn position_from(l: Seq<Seq<char>>, key: Seq<char>, i: int) -> Option<int>
    decreases l.len() - i,
{
    if i < 0 || i >= l.len() {
        None
    } else if eq_ignore_case(l[i], key) {
        Some(i)
    } else {
        position_from(l, key, i + 1)
    }
}

/// The partition-key value that a predicate gives: what follows the first
/// `<key> =`, up to the next delimiter, without surrounding quotes.
pub open spec fn key_in_predicate(predicate: Seq<char>, key: Seq<char>) -> Option<Seq<char>> {
    let pattern = key + " ="@;
    match find(upper(predicate), upper(pattern)) {
        Some(pos) => {
            let after_eq = trim_start(predicate.skip(pos + pattern.len()));
            Some(unquote(trim(after_eq.take(word_len(after_eq, word_delims())))))
        },
        None => None,
    }
}

/// The partition-key value of a statement; `None` where it has none.
pub open spec fn partition_key_of(st: StatementView, key: Seq<char>) -> Option<Seq<char>> {
    match st.statement_type {
        StatementType::Insert => match position_from(st.columns, key, 0) {
            Some(i) => if i < st.values.len() {
                Some(st.values[i])
            } else {
                None
            },
            None => None,
        },
        _ => match st.where_clause {
            Some(predicate) => key_in_predicate(predicate, key),
            None => None,
        },
    }
}

// ---------------------------------------------------------------------------
// The recogniser
// ---------------------------------------------------------------------------
/// An `InvalidSql` error with the given detail.
fn invalid_sql(detail: &str) -> (e: Sqlite3xError)
    ensures
        e matches Sqlite3xError::InvalidSql(m) && m@ == detail@,
{
    Sqlite3xError::InvalidSql(detail.to_string())
}

fn admitted(sql: &[char]) -> (b: bool)
    ensures
        b == admissible(sql@),
{
    let up = uppercased(trimmed(sql));
    let allowed = begins_with(up.as_slice(), chars_of("INSERT").as_slice()) || begins_with(
        up.as_slice(),
        chars_of("UPDATE").as_slice(),
    ) || begins_with(up.as_slice(), chars_of("DELETE").as_slice()) || begins_with(
        up.as_slice(),
        chars_of("SELECT").as_slice(),
    );
    if !allowed {
        return false;
    }
    let ddl = has(up.as_slice(), chars_of(" DROP ").as_slice()) || has(
        up.as_slice(),
        chars_of(" ALTER ").as_slice(),
    ) || has(up.as_slice(), chars_of(" CREATE ").as_slice()) || has(
        up.as_slice(),
        chars_of(" TRUNCATE ").as_slice(),
    );
    if ddl {
        return false;
    }
    let comment = has(sql, chars_of("--").as_slice()) || has(sql, chars_of("/*").as_slice())
        || has(sql, chars_of("*/").as_slice());
    if comment {
        return false;
    }
    count_in(up.as_slice(), chars_of("SELECT").as_slice()) <= 1
}

fn is_identifier(s: &[char]) -> (b: bool)
    ensures
        b == valid_identifier(s@),
{
    if s.len() == 0 {
        return false;
    }
    if !char_is_letter(s[0]) && s[0] != '_' {
        return false;
    }
    let mut i: usize = 1;
    while i < s.len()
        invariant
            1 <= i <= s@.len(),
            forall|k: int| 1 <= k < i ==> is_letter_or_digit(#[trigger] s@[k]) || s@[k] == '_',
        decreases s@.len() - i,
    {
        if !char_is_letter_or_digit(s[i]) && s[i] != '_' {
            return false;
        }
        i += 1;
    }
    true
}

fn all_identifiers(l: &Vec<String>) -> (b: bool)
    ensures
        b == all_valid_identifiers(views(l@)),
{
    let mut i: usize = 0;
    while i < l.len()
        invariant
            i <= l@.len(),
            forall|k: int| 0 <= k < i ==> valid_identifier(#[trigger] views(l@)[k]),
        decreases l@.len() - i,
    {
        let c = chars_of(l[i].as_str());
        if !is_identifier(c.as_slice()) {
            assert(!valid_identifier(views(l@)[i as int]));
            return false;
        }
        i += 1;
    }
    true
}

fn first_word_len(s: &[char], delims: &[char]) -> (n: usize)
    ensures
        n == word_len(s@, delims@),
        n <= s@.len(),
{
    match find_any_in(s, delims) {
        Some(i) => i,
        None => s.len(),
    }
}

fn paren_list(s: &[char]) -> (r: Option<Vec<String>>)
    ensures
        match parenthesized_list(s@) {
            Some(l) => r matches Some(v) && views(v@) == l,
            None => r is None,
        },
{
    if !begins_with(s, single('(').as_slice()) {
        return None;
    }
    match find_in(s, single(')').as_slice()) {
        Some(e) => {
            proof {
                lemma_find_from(s@, seq![')'], 0);
            }
            if 1 <= e {
                Some(split_list(slice_subrange(s, 1, e)))
            } else {
                None
            }
        },
        None => None,
    }
}

fn after_paren<'a>(s: &'a [char]) -> (r: &'a [char])
    ensures
        r@ == after_parenthesis(s@),
{
    let len = s.len();
    match find_in(s, single(')').as_slice()) {
        Some(e) => {
            proof {
                lemma_find_from(s@, seq![')'], 0);
                assert(e + 1 <= s@.len());
            }
            slice_subrange(s, e + 1, len)
        },
        None => slice_subrange(s, 0, 0),
    }
}

fn values_of(rest: &[char]) -> (r: Option<Vec<String>>)
    ensures
        match values_clause(rest@) {
            Some(l) => r matches Some(v) && views(v@) == l,
            None => r is None,
        },
{
    let kw = chars_of("VALUES");
    let up = to_upper(rest);
    if !begins_with(up.as_slice(), kw.as_slice()) {
        return None;
    }
    paren_list(trimmed_start(slice_subrange(rest, kw.len(), rest.len())))
}

fn nearer_of(a: Option<usize>, b: Option<usize>) -> (r: Option<usize>)
    ensures
        r == match (a, b) {
            (Some(x), Some(y)) => Some(if x <= y { x } else { y }),
            (Some(x), None) => Some(x),
            (None, b) => b,
        },
{
    match (a, b) {
        (Some(x), Some(y)) => Some(if x <= y { x } else { y }),
        (Some(x), None) => Some(x),
        (None, b) => b,
    }
}

/// An optional index as a mathematical integer.
pub open spec fn as_int(o: Option<usize>) -> Option<int> {
    match o {
        Some(i) => Some(i as int),
        None => None,
    }
}

fn predicate_end(after_where: &[char]) -> (n: usize)
    ensures
        n == predicate_len(after_where@),
        n <= after_where@.len(),
{
    let up = to_upper(after_where);
    let g = find_in(up.as_slice(), chars_of(" GROUP BY ").as_slice());
    let o = find_in(up.as_slice(), chars_of(" ORDER BY ").as_slice());
    let l = find_in(up.as_slice(), chars_of(" LIMIT ").as_slice());
    proof {
        lemma_find_from(up@, " GROUP BY "@, 0);
        lemma_find_from(up@, " ORDER BY "@, 0);
        lemma_find_from(up@, " LIMIT "@, 0);
        assert(as_int(g) == find(up@, " GROUP BY "@));
        assert(as_int(o) == find(up@, " ORDER BY "@));
        assert(as_int(l) == find(up@, " LIMIT "@));
    }
    match nearer_of(nearer_of(g, o), l) {
        Some(e) => e,
        None => after_where.len(),
    }
}

/// The recogniser. It holds no state.
pub struct SqlParser;

impl SqlParser {
    pub fn new() -> Self {
        SqlParser
    }

    /// The admission filter: accepts exactly the statements that begin with
    /// `INSERT`, `UPDATE`, `DELETE` or `SELECT`, hold no keyword of data
    /// definition between spaces, no comment marker, and at most one `SELECT`.
    pub fn detect_sql_injection_patterns(&self, sql: &str) -> (r: Result<(), Sqlite3xError>)
        ensures
            admissible(sql@) ==> r is Ok,
            !admissible(sql@) ==> r matches Err(Sqlite3xError::InvalidSql(_)),
    {
        let c = chars_of(sql);
        if admitted(c.as_slice()) {
            Ok(())
        } else {
            Err(invalid_sql("Statement is not admitted for partitioning"))
        }
    }

    /// Accepts exactly the identifiers.
    pub fn validate_identifier(&self, identifier: &str) -> (r: Result<(), Sqlite3xError>)
        ensures
            valid_identifier(identifier@) ==> r is Ok,
            !valid_identifier(identifier@) ==> r matches Err(Sqlite3xError::InvalidSql(_)),
    {
        let c = chars_of(identifier);
        if is_identifier(c.as_slice()) {
            Ok(())
        } else {
            Err(Sqlite3xError::InvalidSql(prefixed("Invalid identifier: ", identifier)))
        }
    }

    /// Recognises `INSERT INTO <table> [ ( <col>, … ) ] VALUES ( <val>, … )`.
    pub fn parse_insert(&self, sql: &str) -> (r: Result<ParsedStatement, Sqlite3xError>)
        ensures
            match insert_of(sql@) {
                Some(v) => r matches Ok(p) && p@ == v,
                None => r matches Err(Sqlite3xError::InvalidSql(_)),
            },
    {
        let c = chars_of(sql);
        if !admitted(c.as_slice()) {
            return Err(invalid_sql("Statement is not admitted for partitioning"));
        }
        let t = trimmed(c.as_slice());
        let up = to_upper(t);
        let kw = chars_of("INSERT INTO ");
        if !begins_with(up.as_slice(), kw.as_slice()) {
            return Err(invalid_sql("Not an INSERT statement"));
        }
        let after_into = slice_subrange(t, kw.len(), t.len());
        let delims: Vec<char> = vec![' ', '(', '\n', '\r'];
        let n = first_word_len(after_into, delims.as_slice());
        let table = trimmed(slice_subrange(after_into, 0, n));
        if !is_identifier(table) {
            return Err(invalid_sql("Invalid table name"));
        }
        let rest = trimmed_start(slice_subrange(after_into, n, after_into.len()));
        if begins_with(rest, single('(').as_slice()) {
            let columns = match paren_list(rest) {
                Some(l) => l,
                None => {
                    return Err(invalid_sql("Column list not closed"));
                },
            };
            if !all_identifiers(&columns) {
                return Err(invalid_sql("Invalid column name"));
            }
            let values = match values_of(trimmed_start(after_paren(rest))) {
                Some(l) => l,
                None => {
                    return Err(invalid_sql("VALUES clause not found"));
                },
            };
            Ok(
                ParsedStatement {
                    statement_type: StatementType::Insert,
                    table_name: string_of(table),
                    columns,
                    values,
                    where_clause: None,
                    set_clause: None,
                },
            )
        } else {
            let values = match values_of(rest) {
                Some(l) => l,
                None => {
                    return Err(invalid_sql("VALUES clause not found"));
                },
            };
            let columns: Vec<String> = Vec::new();
            assert(views(columns@) =~= Seq::<Seq<char>>::empty());
            Ok(
                ParsedStatement {
                    statement_type: StatementType::Insert,
                    table_name: string_of(table),
                    columns,
                    values,
                    where_clause: None,
                    set_clause: None,
                },
            )
        }
    }

    /// Recognises `UPDATE <table> SET <assigns> [ WHERE <cond> ]`.
    pub fn parse_update(&self, sql: &str) -> (r: Result<ParsedStatement, Sqlite3xError>)
        ensures
            match update_of(sql@) {
                Some(v) => r matches Ok(p) && p@ == v,
                None => r matches Err(Sqlite3xError::InvalidSql(_)),
            },
    {
        let c = chars_of(sql);
        if !admitted(c.as_slice()) {
            return Err(invalid_sql("Statement is not admitted for partitioning"));
        }
        let t = trimmed(c.as_slice());
        let up = to_upper(t);
        let kw = chars_of("UPDATE ");
        if !begins_with(up.as_slice(), kw.as_slice()) {
            return Err(invalid_sql("Not an UPDATE statement"));
        }
        let after_update = slice_subrange(t, kw.len(), t.len());
        let delims: Vec<char> = vec![' ', '\n', '\r'];
        let n = first_word_len(after_update, delims.as_slice());
        let table = trimmed(slice_subrange(after_update, 0, n));
        if !is_identifier(table) {
            return Err(invalid_sql("Invalid table name"));
        }
        let rest = trimmed_start(slice_subrange(after_update, n, after_update.len()));
        let set_kw = chars_of("SET");
        if !begins_with(to_upper(rest).as_slice(), set_kw.as_slice()) {
            return Err(invalid_sql("SET keyword not found"));
        }
        let after_set = trimmed_start(slice_subrange(rest, set_kw.len(), rest.len()));
        let where_kw = chars_of(" WHERE ");
        let up_set = to_upper(after_set);
        let set_len = after_set.len();
        let columns: Vec<String> = Vec::new();
        let values: Vec<String> = Vec::new();
        assert(views(columns@) =~= Seq::<Seq<char>>::empty());
        assert(views(values@) =~= Seq::<Seq<char>>::empty());
        match find_in(up_set.as_slice(), where_kw.as_slice()) {
            Some(p) => {
                proof {
                    lemma_find_from(up_set@, " WHERE "@, 0);
                    assert(p + where_kw@.len() <= after_set@.len());
                }
                let set = trimmed(slice_subrange(after_set, 0, p));
                let predicate = trimmed(
                    slice_subrange(after_set, p + where_kw.len(), set_len),
                );
                Ok(
                    ParsedStatement {
                        statement_type: StatementType::Update,
                        table_name: string_of(table),
                        columns,
                        values,
                        where_clause: Some(string_of(predicate)),
                        set_clause: Some(string_of(set)),
                    },
                )
            },
            None => {
                assert(after_set@.take(after_set@.len() as int) =~= after_set@);
                Ok(
                    ParsedStatement {
                        statement_type: StatementType::Update,
                        table_name: string_of(table),
                        columns,
                        values,
                        where_clause: None,
                        set_clause: Some(string_of(trimmed(after_set))),
                    },
                )
            },
        }
    }

    /// Recognises `DELETE FROM <table> [ WHERE <cond> ]`.
    pub fn parse_delete(&self, sql: &str) -> (r: Result<ParsedStatement, Sqlite3xError>)
        ensures
            match delete_of(sql@) {
                Some(v) => r matches Ok(p) && p@ == v,
                None => r matches Err(Sqlite3xError::InvalidSql(_)),
            },
    {
        let c = chars_of(sql);
        if !admitted(c.as_slice()) {
            return Err(invalid_sql("Statement is not admitted for partitioning"));
        }
        let t = trimmed(c.as_slice());
        let up = to_upper(t);
        let kw = chars_of("DELETE FROM ");
        if !begins_with(up.as_slice(), kw.as_slice()) {
            return Err(invalid_sql("Not a DELETE statement"));
        }
        let after_from = slice_subrange(t, kw.len(), t.len());
        let delims: Vec<char> = vec![' ', ';', '\n', '\r'];
        let n = first_word_len(after_from, delims.as_slice());
        let table = trimmed(slice_subrange(after_from, 0, n));
        if !is_identifier(table) {
            return Err(invalid_sql("Invalid table name"));
        }
        let rest = trimmed_start(slice_subrange(after_from, n, after_from.len()));
        let where_kw = chars_of("WHERE");
        let where_clause = if begins_with(to_upper(rest).as_slice(), where_kw.as_slice()) {
            Some(string_of(trimmed(slice_subrange(rest, where_kw.len(), rest.len()))))
        } else {
            None
        };
        let columns: Vec<String> = Vec::new();
        let values: Vec<String> = Vec::new();
        assert(views(columns@) =~= Seq::<Seq<char>>::empty());
        assert(views(values@) =~= Seq::<Seq<char>>::empty());
        Ok(
            ParsedStatement {
                statement_type: StatementType::Delete,
                table_name: string_of(table),
                columns,
                values,
                where_clause,
                set_clause: None,
            },
        )
    }

    /// Recognises `SELECT … FROM <table> [ WHERE <cond> ] [ GROUP BY / ORDER BY / LIMIT … ]`.
    pub fn parse_select(&self, sql: &str) -> (r: Result<ParsedStatement, Sqlite3xError>)
        ensures
            match select_of(sql@) {
                Some(v) => r matches Ok(p) && p@ == v,
                None => r matches Err(Sqlite3xError::InvalidSql(_)),
            },
    {
        let c = chars_of(sql);
        if !admitted(c.as_slice()) {
            return Err(invalid_sql("Statement is not admitted for partitioning"));
        }
        let t = trimmed(c.as_slice());
        let up = to_upper(t);
        let kw = chars_of("SELECT ");
        if !begins_with(up.as_slice(), kw.as_slice()) {
            return Err(invalid_sql("Not a SELECT statement"));
        }
        let from_kw = chars_of(" FROM ");
        let len = t.len();
        let from_pos = match find_in(up.as_slice(), from_kw.as_slice()) {
            Some(p) => p,
            None => {
                return Err(invalid_sql("FROM keyword not found"));
            },
        };
        proof {
            lemma_find_from(up@, " FROM "@, 0);
            assert(from_pos + from_kw@.len() <= t@.len());
        }
        let after_from = slice_subrange(t, from_pos + from_kw.len(), len);
        let delims: Vec<char> = vec![' ', ';', '\n', '\r'];
        let n = first_word_len(after_from, delims.as_slice());
        let table = trimmed(slice_subrange(after_from, 0, n));
        if !is_identifier(table) {
            return Err(invalid_sql("Invalid table name"));
        }
        let rest = slice_subrange(after_from, n, after_from.len());
        let where_kw = chars_of(" WHERE ");
        let up_rest = to_upper(rest);
        let rest_len = rest.len();
        let where_clause = match find_in(up_rest.as_slice(), where_kw.as_slice()) {
            Some(wp) => {
                proof {
                    lemma_find_from(up_rest@, " WHERE "@, 0);
                    assert(wp + where_kw@.len() <= rest@.len());
                }
                let after_where = slice_subrange(rest, wp + where_kw.len(), rest_len);
                let e = predicate_end(after_where);
                Some(string_of(trimmed(slice_subrange(after_where, 0, e))))
            },
            None => None,
        };
        let columns: Vec<String> = Vec::new();
        let values: Vec<String> = Vec::new();
        assert(views(columns@) =~= Seq::<Seq<char>>::empty());
        assert(views(values@) =~= Seq::<Seq<char>>::empty());
        Ok(
            ParsedStatement {
                statement_type: StatementType::Select,
                table_name: string_of(table),
                columns,
                values,
                where_clause,
                set_clause: None,
            },
        )
    }

    /// The partition-key value of a statement. For an `INSERT` it is the value
    /// at the position of the first column that equals `key_column` up to
    /// ASCII case; for the others, what the predicate gives after
    /// `<key_column> =`.
    pub fn extract_partition_key_value(&self, statement: &ParsedStatement, key_column: &str) -> (r:
        Result<String, Sqlite3xError>)
        ensures
            match partition_key_of(statement@, key_column@) {
                Some(v) => r matches Ok(s) && s@ == v,
                None => r matches Err(Sqlite3xError::PartitionKeyNotFound(_)),
            },
    {
        let key = chars_of(key_column);
        match statement.statement_type {
            StatementType::Insert => {
                let mut i: usize = 0;
                while i < statement.columns.len()
                    invariant
                        i <= statement.columns@.len(),
                        key@ == key_column@,
                        statement.statement_type == StatementType::Insert,
                        position_from(views(statement.columns@), key@, i as int) == position_from(
                            views(statement.columns@),
                            key@,
                            0,
                        ),
                    decreases statement.columns@.len() - i,
                {
                    let col = chars_of(statement.columns[i].as_str());
                    assert(views(statement.columns@)[i as int] == col@);
                    if same_ignore_case(col.as_slice(), key.as_slice()) {
                        assert(i < statement.values@.len() ==> views(statement.values@)[i as int]
                            == statement.values@[i as int]@);

                        if i < statement.values.len() {
                            return Ok(statement.values[i].clone());
                        } else {
                            return Err(
                                Sqlite3xError::PartitionKeyNotFound("Value not found".to_string()),
                            );
                        }
                    }
                    i += 1;
                }
                Err(
                    Sqlite3xError::PartitionKeyNotFound(
                        prefixed("Key not found in INSERT: ", key_column),
                    ),
                )
            },
            _ => {
                match &statement.where_clause {
                    None => Err(
                        Sqlite3xError::PartitionKeyNotFound("WHERE clause required".to_string()),
                    ),
                    Some(w) => {
                        let predicate = chars_of(w.as_str());
                        match key_value_in(predicate.as_slice(), key.as_slice()) {
                            Some(v) => Ok(v),
                            None => Err(
                                Sqlite3xError::PartitionKeyNotFound(
                                    prefixed("Key not found in WHERE: ", key_column),
                                ),
                            ),
                        }
                    },
                }
            },
        }
    }
}

/// The partition-key value that a predicate gives for the column `key`.
pub fn key_value_in(predicate: &[char], key: &[char]) -> (r: Option<String>)
    ensures
        match key_in_predicate(predicate@, key@) {
            Some(v) => r matches Some(s) && s@ == v,
            None => r is None,
        },
{
    let mut pattern: Vec<char> = Vec::new();
    pattern.extend_from_slice(key);
    pattern.extend_from_slice(chars_of(" =").as_slice());
    assert(pattern@ =~= key@ + " ="@);
    let up = to_upper(predicate);
    let len = predicate.len();
    let up_pattern = to_upper(pattern.as_slice());
    match find_in(up.as_slice(), up_pattern.as_slice()) {
        Some(pos) => {
            proof {
                lemma_find_from(up@, up_pattern@, 0);
                assert(pos + pattern@.len() <= predicate@.len());
            }
            let after_eq = trimmed_start(
                slice_subrange(predicate, pos + pattern.len(), len),
            );
            let delims: Vec<char> = vec![' ', ';', '\n', '\r'];
            let n = first_word_len(after_eq, delims.as_slice());
            Some(string_of(unquoted(trimmed(slice_subrange(after_eq, 0, n)))))
        },
        None => None,
    }
}

impl Default for SqlParser {
    fn default() -> Self {
        SqlParser
    }
}

// ---------------------------------------------------------------------------
// Laws of the recogniser
// ---------------------------------------------------------------------------
/// The admission filter turns away every statement that holds a comment
/// marker at any place, or whose trimmed text in upper case holds a keyword
/// of data definition between spaces or more than one `SELECT`.
pub proof fn law_admission_rejects(sql: Seq<char>)
    requires
        (exists|k: int| occurs_at(sql, "--"@, k)) || (exists|k: int| occurs_at(sql, "/*"@, k)) || (
        exists|k: int| occurs_at(sql, "*/"@, k)) || (exists|k: int|
            occurs_at(uppercase(trim(sql)), " DROP "@, k)) || (exists|k: int|
            occurs_at(uppercase(trim(sql)), " ALTER "@, k)) || (exists|k: int|
            occurs_at(uppercase(trim(sql)), " CREATE "@, k)) || (exists|k: int|
            occurs_at(uppercase(trim(sql)), " TRUNCATE "@, k)) || count(uppercase(trim(sql)), "SELECT"@)
            > 1,
    ensures
        !admissible(sql),
{
    let up = uppercase(trim(sql));
    lemma_contains(sql, "--"@);
    lemma_contains(sql, "/*"@);
    lemma_contains(sql, "*/"@);
    lemma_contains(up, " DROP "@);
    lemma_contains(up, " ALTER "@);
    lemma_contains(up, " CREATE "@);
    lemma_contains(up, " TRUNCATE "@);
}

/// What `position_from` returns is the least index, from `i` on, whose text
/// equals the key up to ASCII case.
pub proof fn lemma_position_from(l: Seq<Seq<char>>, key: Seq<char>, i: int)
    requires
        0 <= i,
    ensures
        match position_from(l, key, i) {
            Some(j) => i <= j < l.len() && eq_ignore_case(l[j], key) && forall|k: int|
                i <= k < j ==> !eq_ignore_case(#[trigger] l[k], key),
            None => forall|k: int| i <= k < l.len() ==> !eq_ignore_case(#[trigger] l[k], key),
        },
    decreases l.len() - i,
{
    if i < l.len() && !eq_ignore_case(l[i], key) {
        lemma_position_from(l, key, i + 1);
    }
}

/// The partition key of an `INSERT` is the value at the position of the key
/// column: where `columns[i]` is the key column, no earlier column equals it
/// up to ASCII case, and there is a value at that position, the key is
/// `values[i]`.
pub proof fn law_insert_key_is_value_at_column(st: StatementView, key: Seq<char>, i: int)
    requires
        st.statement_type == StatementType::Insert,
        0 <= i < st.columns.len(),
        i < st.values.len(),
        st.columns[i] == key,
        forall|k: int| 0 <= k < i ==> !eq_ignore_case(#[trigger] st.columns[k], key),
    ensures
        partition_key_of(st, key) == Some(st.values[i]),
{
    lemma_position_from(st.columns, key, 0);
}

} // verus!
