//! Rewriting a statement for one shard: the table that the statement names
//! is qualified with the shard's alias, so that the engine runs it against
//! the database attached under that alias.
//!
//! The rewriting is textual. It never touches a reference that is qualified
//! already, and never requotes an identifier.

use vstd::prelude::*;
use vstd::slice::slice_subrange;
use crate::sql_parser::{
    insert_table_delims, update_table_delims, word_len, StatementType,
};
use crate::text::{
    begins_with, chars_of, find, find_any, find_any_in, find_in, is_one_of, is_whitespace,
    lemma_find_any_from, lemma_find_any_is, lemma_find_from, lemma_find_is, lemma_trim_keeps,
    lemma_trim_part, occurs_at, push_chars, skip_set, starts_with, string_of, to_upper, trim,
    trim_start, trimmed, upper, whitespace,
};

verus! {

/// The characters that end the table name after `FROM`.
pub open spec fn from_delims() -> Seq<char> {
    seq![' ', ',', ';', '\n', '\r']
}

/// `sql` with the table name that starts at index `at` qualified by `alias`.
/// The name runs to the first delimiter. An empty name, or one that holds a
/// dot already, leaves `sql` as it is.
pub open spec fn qualified_at(sql: Seq<char>, at: int, delims: Seq<char>, alias: Seq<char>) -> Seq<
    char,
> {
    let rest = sql.skip(at);
    let n = word_len(rest, delims);
    let table = trim(rest.take(n));
    if table.len() > 0 && !table.contains('.') {
        sql.take(at) + alias + seq!['.'] + table + rest.skip(n)
    } else {
        sql
    }
}

/// `sql` with the table after its first ` FROM ` qualified by `alias`.
pub open spec fn qualified_from(sql: Seq<char>, alias: Seq<char>) -> Seq<char> {
    match find(upper(sql), " FROM "@) {
        Some(p) => qualified_at(sql, p + " FROM "@.len(), from_delims(), alias),
        None => sql,
    }
}

/// `sql` with the table after its first ` INTO ` qualified by `alias`.
pub open spec fn qualified_into(sql: Seq<char>, alias: Seq<char>) -> Seq<char> {
    match find(upper(sql), " INTO "@) {
        Some(p) => qualified_at(sql, p + " INTO "@.len(), insert_table_delims(), alias),
        None => sql,
    }
}

/// `sql` with the table after its leading `UPDATE ` qualified by `alias`.
pub open spec fn qualified_update(sql: Seq<char>, alias: Seq<char>) -> Seq<char> {
    let lead = skip_set(sql, whitespace(), 0);
    if starts_with(upper(trim_start(sql)), "UPDATE "@) {
        qualified_at(sql, lead + "UPDATE "@.len(), update_table_delims(), alias)
    } else {
        sql
    }
}

/// The statement of the given kind as it is run on the shard `alias`.
pub open spec fn rewritten(kind: StatementType, sql: Seq<char>, alias: Seq<char>) -> Seq<char> {
    match kind {
        StatementType::Insert => qualified_into(sql, alias),
        StatementType::Update => qualified_update(sql, alias),
        StatementType::Delete => qualified_from(sql, alias),
        StatementType::Select => qualified_from(sql, alias),
    }
}

fn qualify_at(sql: &[char], at: usize, delims: &[char], alias: &[char]) -> (r: String)
    requires
        at <= sql@.len(),
    ensures
        r@ == qualified_at(sql@, at as int, delims@, alias@),
{
    let rest = slice_subrange(sql, at, sql.len());
    let n = match find_any_in(rest, delims) {
        Some(i) => i,
        None => rest.len(),
    };
    let table = trimmed(slice_subrange(rest, 0, n));
    if table.len() > 0 && !is_one_of('.', table) {
        let mut r = string_of(slice_subrange(sql, 0, at));
        push_chars(&mut r, alias);
        r.push('.');
        push_chars(&mut r, table);
        push_chars(&mut r, slice_subrange(rest, n, rest.len()));
        assert(r@ =~= sql@.take(at as int) + alias@ + seq!['.'] + table@ + rest@.skip(n as int));
        r
    } else {
        string_of(sql)
    }
}

/// Qualifies the table after the first ` FROM ` of `sql` with `alias`.
pub fn modify_sql_for_shard(sql: &str, alias: &str) -> (r: String)
    ensures
        r@ == qualified_from(sql@, alias@),
{
    let s = chars_of(sql);
    let a = chars_of(alias);
    let up = to_upper(s.as_slice());
    let kw = chars_of(" FROM ");
    let len = s.len();
    let delims: Vec<char> = vec![' ', ',', ';', '\n', '\r'];
    match find_in(up.as_slice(), kw.as_slice()) {
        Some(p) => {
            proof {
                lemma_find_from(up@, " FROM "@, 0);
                assert(p + kw@.len() <= len);
            }
            qualify_at(s.as_slice(), p + kw.len(), delims.as_slice(), a.as_slice())
        },
        None => string_of(s.as_slice()),
    }
}

/// Qualifies the table after the first ` INTO ` of `sql` with `alias`.
pub fn modify_insert_for_shard(sql: &str, alias: &str) -> (r: String)
    ensures
        r@ == qualified_into(sql@, alias@),
{
    let s = chars_of(sql);
    let a = chars_of(alias);
    let up = to_upper(s.as_slice());
    let kw = chars_of(" INTO ");
    let len = s.len();
    let delims: Vec<char> = vec![' ', '(', '\n', '\r'];
    match find_in(up.as_slice(), kw.as_slice()) {
        Some(p) => {
            proof {
                lemma_find_from(up@, " INTO "@, 0);
                assert(p + kw@.len() <= len);
            }
            qualify_at(s.as_slice(), p + kw.len(), delims.as_slice(), a.as_slice())
        },
        None => string_of(s.as_slice()),
    }
}

/// Qualifies the table after the leading `UPDATE ` of `sql` with `alias`.
pub fn modify_update_for_shard(sql: &str, alias: &str) -> (r: String)
    ensures
        r@ == qualified_update(sql@, alias@),
{
    let s = chars_of(sql);
    let a = chars_of(alias);
    let kw = chars_of("UPDATE ");
    let delims: Vec<char> = vec![' ', '\n', '\r'];
    let mut lead: usize = 0;
    while lead < s.len() && crate::text::char_is_whitespace(s[lead])
        invariant
            lead <= s@.len(),
            skip_set(s@, whitespace(), lead as int) == skip_set(s@, whitespace(), 0),
        decreases s@.len() - lead,
    {
        lead += 1;
    }
    let body = slice_subrange(s.as_slice(), lead, s.len());
    let up = to_upper(body);
    if begins_with(up.as_slice(), kw.as_slice()) {
        qualify_at(s.as_slice(), lead + kw.len(), delims.as_slice(), a.as_slice())
    } else {
        string_of(s.as_slice())
    }
}

/// The statement of the given kind as it is run on the shard `alias`.
pub fn rewrite_for_shard(kind: StatementType, sql: &str, alias: &str) -> (r: String)
    ensures
        r@ == rewritten(kind, sql@, alias@),
{
    match kind {
        StatementType::Insert => modify_insert_for_shard(sql, alias),
        StatementType::Update => modify_update_for_shard(sql, alias),
        StatementType::Delete => modify_sql_for_shard(sql, alias),
        StatementType::Select => modify_sql_for_shard(sql, alias),
    }
}

/// A reference that is qualified already is left alone: where the table
/// after the first ` FROM ` holds a dot, the rewritten statement is the
/// statement itself.
pub proof fn law_qualified_reference_unchanged(sql: Seq<char>, alias: Seq<char>)
    requires
        find(upper(sql), " FROM "@) is Some,
        ({
            let rest = sql.skip(find(upper(sql), " FROM "@)->0 + " FROM "@.len());
            trim(rest.take(word_len(rest, from_delims()))).contains('.')
        }),
    ensures
        qualified_from(sql, alias) == sql,
{
}

/// Rewriting twice is rewriting once: for an alias that holds none of the
/// characters that end a table name, the rewritten statement is left alone
/// when it is rewritten again.
pub proof fn law_rewrite_is_idempotent(sql: Seq<char>, alias: Seq<char>)
    requires
        forall|k: int| 0 <= k < alias.len() ==> !from_delims().contains(#[trigger] alias[k]),
    ensures
        qualified_from(qualified_from(sql, alias), alias) == qualified_from(sql, alias),
{
    let kw = " FROM "@;
    let delims = from_delims();
    let once = qualified_from(sql, alias);
    match find(upper(sql), kw) {
        None => {},
        Some(p) => {
            lemma_find_from(upper(sql), kw, 0);
            let q = p + kw.len();
            let rest = sql.skip(q);
            let n = word_len(rest, delims);
            let table = trim(rest.take(n));
            if table.len() > 0 && !table.contains('.') {
                lemma_find_any_from(rest, delims, 0);
                assert(0 <= n <= rest.len());
                let head = sql.take(q);
                let word = alias + seq!['.'] + table;
                let tail = rest.skip(n);
                assert(once == head + alias + seq!['.'] + table + tail);
                assert(once =~= head + (word + tail));
                // The keyword is found where it was.
                assert forall|k: int| 0 <= k < q implies upper(once)[k] == upper(sql)[k] by {
                    assert(once[k] == sql[k]);
                }
                assert(upper(once).subrange(p, q) =~= upper(sql).subrange(p, q));
                assert(occurs_at(upper(once), kw, p));
                assert forall|k: int| 0 <= k < p implies !occurs_at(upper(once), kw, k) by {
                    if occurs_at(upper(once), kw, k) {
                        assert(upper(once).subrange(k, k + kw.len()) =~= upper(sql).subrange(
                            k,
                            k + kw.len(),
                        ));
                        assert(occurs_at(upper(sql), kw, k));
                    }
                }
                lemma_find_is(upper(once), kw, p);
                // The word after it is the qualified name.
                let rest2 = once.skip(q);
                assert(rest2 =~= word + tail);
                lemma_trim_part(rest.take(n));
                let m = word.len() as int;
                assert(!delims.contains('.')) by {
                    assert forall|i: int| 0 <= i < delims.len() implies delims[i] != '.' by {}
                }
                assert forall|k: int| 0 <= k < m implies !delims.contains(#[trigger] rest2[k]) by {
                    if k < alias.len() {
                        assert(rest2[k] == alias[k]);
                    } else if k == alias.len() {
                        assert(rest2[k] == '.');
                    } else {
                        let i = k - alias.len() - 1;
                        let lead = skip_set(rest.take(n), whitespace(), 0);
                        assert(rest2[k] == table[i]);
                        assert(table[i] == rest.take(n)[i + lead]);
                        assert(rest.take(n)[i + lead] == rest[i + lead]);
                    }
                }
                if m < rest2.len() {
                    assert(rest2[m] == tail[0]);
                    assert(tail[0] == rest[n]);
                    assert(n < rest.len());
                }
                lemma_find_any_is(rest2, delims, m);
                assert(word_len(rest2, delims) == m);
                assert(rest2.take(m) =~= word);
                // It holds a dot, so it is left alone.
                assert(word[alias.len() as int] == '.');
                assert(!is_whitespace('.'));
                lemma_trim_keeps(word, alias.len() as int);
                let lead2 = skip_set(word, whitespace(), 0);
                assert(trim(word)[alias.len() - lead2] == '.');
                assert(trim(word).contains('.'));
            }
        },
    }
}

} // verus!
