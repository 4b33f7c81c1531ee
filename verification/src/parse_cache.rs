//! The bounded cache of recognised statements, kept by least recent use.
//!
//! The cache itself is `lru::LruCache`. What it holds is modelled as a
//! sequence of entries, the most recently used first.

use vstd::prelude::*;
use crate::sql_parser::{ParsedStatement, StatementView};

verus! {

/// `lru::LruCache`, the cache itself. Nothing of its inside is known here.
#[verifier::external_type_specification]
#[verifier::external_body]
#[verifier::reject_recursive_types(K)]
#[verifier::reject_recursive_types(V)]
#[verifier::reject_recursive_types(S)]
pub struct ExLruCache<K, V, S>(lru::LruCache<K, V, S>);

/// `lru::DefaultHasher`, the hasher that a cache is made with where none is named.
#[verifier::external_type_specification]
#[verifier::external_body]
pub struct ExDefaultHasher(lru::DefaultHasher);

/// What the cache holds, most recently used first: each raw statement with
/// what was recognised in it.
pub uninterp spec fn cache_entries(c: lru::LruCache<String, ParsedStatement>) -> Seq<
    (Seq<char>, StatementView),
>;

/// The number of entries that the cache was made to hold at most.
pub uninterp spec fn cache_capacity(c: lru::LruCache<String, ParsedStatement>) -> nat;

/// The first index, at or after `i`, of the entry stored under `key`.
pub open spec fn entry_index_from(
    entries: Seq<(Seq<char>, StatementView)>,
    key: Seq<char>,
    i: int,
) -> Option<int>
    decreases entries.len() - i,
{
    if i < 0 || i >= entries.len() {
        None
    } else if entries[i].0 == key {
        Some(i)
    } else {
        entry_index_from(entries, key, i + 1)
    }
}

/// The index of the entry stored under `key`.
pub open spec fn entry_index(entries: Seq<(Seq<char>, StatementView)>, key: Seq<char>) -> Option<
    int,
> {
    entry_index_from(entries, key, 0)
}

/// The entries after the one at index `i` was used: it moves to the front.
pub open spec fn touched(entries: Seq<(Seq<char>, StatementView)>, i: int) -> Seq<
    (Seq<char>, StatementView),
> {
    seq![entries[i]] + entries.remove(i)
}

/// The entries after `value` was stored under `key`: the new entry stands at
/// the front; an entry that was stored under the same key is gone; otherwise,
/// if the cache was full, the least recently used entry is gone.
pub open spec fn stored(
    entries: Seq<(Seq<char>, StatementView)>,
    capacity: nat,
    key: Seq<char>,
    value: StatementView,
) -> Seq<(Seq<char>, StatementView)> {
    seq![(key, value)] + (match entry_index(entries, key) {
        Some(i) => entries.remove(i),
        None => if entries.len() == capacity {
            entries.drop_last()
        } else {
            entries
        },
    })
}

/// `LruCache::new`: an empty cache that holds at most `capacity` entries.
#[verifier::external_body]
pub(crate) fn cache_new(capacity: usize) -> (c: lru::LruCache<String, ParsedStatement>)
    requires
        capacity > 0,
    ensures
        cache_entries(c) == Seq::<(Seq<char>, StatementView)>::empty(),
        cache_capacity(c) == capacity,
{
    lru::LruCache::new(std::num::NonZeroUsize::new(capacity).unwrap())
}

/// `LruCache::get`: a copy of the value stored under `key`, if there is one;
/// the entry found becomes the most recently used, nothing else changes.
#[verifier::external_body]
pub(crate) fn cache_get(c: &mut lru::LruCache<String, ParsedStatement>, key: &str) -> (r: Option<
    ParsedStatement,
>)
    ensures
        cache_capacity(*final(c)) == cache_capacity(*old(c)),
        match entry_index(cache_entries(*old(c)), key@) {
            Some(i) => r matches Some(p) && p@ == cache_entries(*old(c))[i].1 && cache_entries(
                *final(c),
            ) == touched(cache_entries(*old(c)), i),
            None => r is None && cache_entries(*final(c)) == cache_entries(*old(c)),
        },
{
    c.get(key).cloned()
}

/// `LruCache::put`: stores `value` under `key` as the most recently used
/// entry, replacing an entry under the same key, or else, in a full cache,
/// evicting the least recently used entry.
#[verifier::external_body]
pub(crate) fn cache_put(
    c: &mut lru::LruCache<String, ParsedStatement>,
    key: String,
    value: ParsedStatement,
)
    ensures
        cache_capacity(*final(c)) == cache_capacity(*old(c)),
        cache_entries(*final(c)) == stored(
            cache_entries(*old(c)),
            cache_capacity(*old(c)),
            key@,
            value@,
        ),
{
    c.put(key, value);
}

} // verus!
