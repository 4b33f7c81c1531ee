//! The partition manager: which shard a statement belongs to, and what is to
//! be run where.
//!
//! The manager never touches a database. Each routing entry point returns
//! the statements to run, shard by shard; whoever owns the connection runs
//! them and hands the responses back to be merged or summed.

use vstd::prelude::*;
use crate::errors::{prefixed, Sqlite3xError};
use crate::parse_cache::{
    cache_capacity, cache_entries, cache_get, cache_new, cache_put, entry_index,
    entry_index_from, stored, touched,
};
use crate::rewrite::{qualified_from, rewrite_for_shard, rewritten};
use crate::sql_parser::{
    admissible, delete_of, insert_of, partition_key_of, select_of, update_of, ParsedStatement,
    SqlParser, StatementType, StatementView,
};
use crate::values::{json_views, JsonValue, JsonView, QueryResult};
use crate::text::{
    begins_with, chars_of, decimal, parse_i64_magnitude, parse_magnitude, push_decimal, same_str,
    starts_with, string_of, trim, trimmed, uppercase, uppercased, views,
};

verus! {

/// How a partition key is mapped to a shard.
#[derive(Debug, Clone, Copy, PartialEq, Eq, Structural)]
pub enum PartitionStrategy {
    /// By a 64-bit hash of the key.
    Hash,
    /// By the magnitude of a key that is a signed 64-bit integer; by hash otherwise.
    Range,
    /// In turn, whatever the key.
    RoundRobin,
}

/// What a maintenance pass prunes from one table.
#[derive(Debug, PartialEq)]
pub struct PartitionPolicy {
    pub table_name: String,
    pub date_column: String,
    /// `"daily"`, `"weekly"` or `"monthly"`.
    pub interval: String,
    pub retention: u32,
    pub auto_indexing: bool,
}

/// A policy as mathematical data.
pub struct PolicyView {
    pub table_name: Seq<char>,
    pub date_column: Seq<char>,
    pub interval: Seq<char>,
    pub retention: u32,
    pub auto_indexing: bool,
}

impl View for PartitionPolicy {
    type V = PolicyView;

    open spec fn view(&self) -> PolicyView {
        PolicyView {
            table_name: self.table_name@,
            date_column: self.date_column@,
            interval: self.interval@,
            retention: self.retention,
            auto_indexing: self.auto_indexing,
        }
    }
}

impl Clone for PartitionPolicy {
    fn clone(&self) -> (r: Self)
        ensures
            r@ == self@,
    {
        PartitionPolicy {
            table_name: self.table_name.clone(),
            date_column: self.date_column.clone(),
            interval: self.interval.clone(),
            retention: self.retention,
            auto_indexing: self.auto_indexing,
        }
    }
}

/// The views of a list of policies.
pub open spec fn policy_views(v: Seq<PartitionPolicy>) -> Seq<PolicyView> {
    Seq::new(v.len(), |i: int| v[i]@)
}

/// The shard files, the strategy and the policies of a partitioned database.
#[derive(Debug, PartialEq)]
pub struct PartitionConfig {
    pub strategy: PartitionStrategy,
    /// The shard files, in the order in which they are attached.
    pub shards: Vec<String>,
    pub key_column: Option<String>,
    pub policies: Vec<PartitionPolicy>,
}

/// A configuration as mathematical data.
pub struct ConfigView {
    pub strategy: PartitionStrategy,
    pub shards: Seq<Seq<char>>,
    pub key_column: Option<Seq<char>>,
    pub policies: Seq<PolicyView>,
}

impl View for PartitionConfig {
    type V = ConfigView;

    open spec fn view(&self) -> ConfigView {
        ConfigView {
            strategy: self.strategy,
            shards: views(self.shards@),
            key_column: match self.key_column {
                Some(k) => Some(k@),
                None => None,
            },
            policies: policy_views(self.policies@),
        }
    }
}

/// No two policies speak of the same table.
pub open spec fn distinct_tables(p: Seq<PolicyView>) -> bool {
    forall|i: int, j: int| 0 <= i < j < p.len() ==> p[i].table_name != p[j].table_name
}

/// Some policy speaks of `table`.
pub open spec fn has_policy(p: Seq<PolicyView>, table: Seq<char>) -> bool {
    exists|i: int| 0 <= i < p.len() && #[trigger] p[i].table_name == table
}

/// The invariants of a configuration: at least one shard; a key column
/// wherever the strategy goes by the key; no two policies for one table.
pub open spec fn valid_config(c: ConfigView) -> bool {
    &&& c.shards.len() > 0
    &&& (c.strategy != PartitionStrategy::RoundRobin ==> c.key_column is Some)
    &&& distinct_tables(c.policies)
}

/// The index of the first policy, at or after `i`, that speaks of `table`.
fn policy_position(policies: &Vec<PartitionPolicy>, table: &str) -> (r: Option<usize>)
    ensures
        match r {
            Some(i) => i < policies@.len() && policies@[i as int]@.table_name == table@
                && forall|k: int| 0 <= k < i ==> policies@[k]@.table_name != table@,
            None => !has_policy(policy_views(policies@), table@),
        },
{
    let mut i: usize = 0;
    while i < policies.len()
        invariant
            i <= policies@.len(),
            forall|k: int| 0 <= k < i ==> policies@[k]@.table_name != table@,
        decreases policies@.len() - i,
    {
        if same_str(policies[i].table_name.as_str(), table) {
            return Some(i);
        }
        i += 1;
    }
    None
}

impl PartitionConfig {
    /// A configuration with the given strategy and shard files, no key column
    /// and no policy.
    pub fn new(strategy: PartitionStrategy, shards: Vec<String>) -> (c: Self)
        ensures
            c@ == (ConfigView {
                strategy: strategy,
                shards: views(shards@),
                key_column: None,
                policies: Seq::<PolicyView>::empty(),
            }),
    {
        let c = PartitionConfig { strategy, shards, key_column: None, policies: Vec::new() };
        assert(policy_views(c.policies@) =~= Seq::<PolicyView>::empty());
        c
    }

    /// Accepts exactly the configurations that keep the invariants.
    pub fn validate(&self) -> (r: Result<(), Sqlite3xError>)
        ensures
            valid_config(self@) ==> r is Ok,
            !valid_config(self@) ==> r matches Err(Sqlite3xError::ShardingPolicyViolation(_)),
    {
        if self.shards.len() == 0 {
            return Err(
                Sqlite3xError::ShardingPolicyViolation("At least one shard is required".to_string()),
            );
        }
        let keyed = match self.strategy {
            PartitionStrategy::RoundRobin => false,
            _ => true,
        };
        if keyed && self.key_column.is_none() {
            return Err(
                Sqlite3xError::ShardingPolicyViolation(
                    "Key column is required for hash or range strategy".to_string(),
                ),
            );
        }
        let mut j: usize = 0;
        while j < self.policies.len()
            invariant
                j <= self.policies@.len(),
                forall|a: int, b: int|
                    0 <= a < b < j ==> policy_views(self.policies@)[a].table_name != policy_views(
                        self.policies@,
                    )[b].table_name,
            decreases self.policies@.len() - j,
        {
            let mut i: usize = 0;
            while i < j
                invariant
                    i <= j < self.policies@.len(),
                    forall|a: int|
                        0 <= a < i ==> policy_views(self.policies@)[a].table_name != policy_views(
                            self.policies@,
                        )[j as int].table_name,
                decreases j - i,
            {
                if self.policies[i].table_name == self.policies[j].table_name {
                    assert(policy_views(self.policies@)[i as int].table_name == policy_views(
                        self.policies@,
                    )[j as int].table_name);
                    return Err(
                        Sqlite3xError::ShardingPolicyViolation(
                            prefixed(
                                "More than one policy for table ",
                                self.policies[j].table_name.as_str(),
                            ),
                        ),
                    );
                }
                i += 1;
            }
            j += 1;
        }
        Ok(())
    }
}

impl Clone for PartitionConfig {
    fn clone(&self) -> (r: Self)
        ensures
            r@ == self@,
    {
        let mut policies: Vec<PartitionPolicy> = Vec::new();
        let mut i: usize = 0;
        while i < self.policies.len()
            invariant
                i <= self.policies@.len(),
                policies@.len() == i,
                forall|k: int| 0 <= k < i ==> policies@[k]@ == self.policies@[k]@,
            decreases self.policies@.len() - i,
        {
            policies.push(self.policies[i].clone());
            i += 1;
        }
        assert(policy_views(policies@) =~= policy_views(self.policies@));
        PartitionConfig {
            strategy: self.strategy,
            shards: crate::sql_parser::clone_strings(&self.shards),
            key_column: match &self.key_column {
                Some(k) => Some(k.clone()),
                None => None,
            },
            policies,
        }
    }
}

// ---------------------------------------------------------------------------
// Choosing a shard
// ---------------------------------------------------------------------------
/// The 64-bit hash of a key: what the standard library's default hasher, in
/// its initial state, gives for the key as a string.
pub uninterp spec fn key_hash(key: Seq<char>) -> u64;

/// `BuildHasher::hash_one` of the standard library, on a default-built
/// `DefaultHasher`: the hash of the key as a string. Every hasher built this
/// way starts in the same state, so the hash depends on the key alone.
#[verifier::external_body]
fn hash_key(key: &str) -> (h: u64)
    ensures
        h == key_hash(key@),
{
    std::hash::BuildHasher::hash_one(
        &std::hash::BuildHasherDefault::<std::collections::hash_map::DefaultHasher>::default(),
        key,
    )
}

/// The alias under which the shard of index `i` is attached.
pub open spec fn shard_alias(i: nat) -> Seq<char> {
    "shard_"@ + decimal(i)
}

/// The aliases of the first `n` shards.
pub open spec fn shard_aliases(n: nat) -> Seq<Seq<char>> {
    Seq::new(n, |i: int| shard_alias(i as nat))
}

/// The shard that a key hashes to, among `n`.
pub open spec fn hash_slot(key: Seq<char>, n: nat) -> nat {
    ((key_hash(key) as usize) % (n as usize)) as nat
}

/// The shard of a key under the range strategy, among `n`.
pub open spec fn range_slot(key: Seq<char>, n: nat) -> nat {
    match parse_i64_magnitude(key) {
        Some(m) => (((m as u64) as usize) % (n as usize)) as nat,
        None => hash_slot(key, n),
    }
}

/// The shard that is selected for a key, among `n`, when the round-robin
/// counter stands at `next`.
pub open spec fn selected_slot(strategy: PartitionStrategy, key: Seq<char>, n: nat, next: nat) -> nat {
    match strategy {
        PartitionStrategy::Hash => hash_slot(key, n),
        PartitionStrategy::Range => range_slot(key, n),
        PartitionStrategy::RoundRobin => next,
    }
}

/// The round-robin counter after one selection.
pub open spec fn advanced(strategy: PartitionStrategy, n: nat, next: nat) -> nat {
    match strategy {
        PartitionStrategy::RoundRobin => (next + 1) % n,
        _ => next,
    }
}

/// The alias of the shard of index `i`.
pub fn alias_of(i: usize) -> (a: String)
    ensures
        a@ == shard_alias(i as nat),
{
    let mut a = "shard_".to_string();
    push_decimal(&mut a, i as u64);
    a
}

fn slot_of(strategy: PartitionStrategy, key: &str, n: usize, next: usize) -> (slot: usize)
    requires
        0 < n,
        next < n,
    ensures
        slot == selected_slot(strategy, key@, n as nat, next as nat),
        slot < n,
{
    match strategy {
        PartitionStrategy::Hash => {
            let h = hash_key(key);
            (#[verifier::truncate] (h as usize)) % n
        },
        PartitionStrategy::Range => {
            let c = chars_of(key);
            match parse_magnitude(c.as_slice()) {
                Some(m) => (#[verifier::truncate] (m as usize)) % n,
                None => {
                    let h = hash_key(key);
                    (#[verifier::truncate] (h as usize)) % n
                },
            }
        },
        PartitionStrategy::RoundRobin => next,
    }
}

// ---------------------------------------------------------------------------
// The manager
// ---------------------------------------------------------------------------
/// The number of recognised statements that the manager remembers at most.
pub const PARSE_CACHE_CAPACITY: usize = 1000;

/// One statement to run, and the shard it is meant for.
#[derive(Debug, PartialEq)]
pub struct ShardStatement {
    pub alias: String,
    pub sql: String,
}

impl Clone for ShardStatement {
    fn clone(&self) -> (r: Self)
        ensures
            r@ == self@,
    {
        ShardStatement { alias: self.alias.clone(), sql: self.sql.clone() }
    }
}

/// A statement for a shard as mathematical data.
pub struct PlanView {
    pub alias: Seq<char>,
    pub sql: Seq<char>,
}

impl View for ShardStatement {
    type V = PlanView;

    open spec fn view(&self) -> PlanView {
        PlanView { alias: self.alias@, sql: self.sql@ }
    }
}

/// The views of a list of statements.
pub open spec fn plan_views(v: Seq<ShardStatement>) -> Seq<PlanView> {
    Seq::new(v.len(), |i: int| v[i]@)
}

/// The state of a manager as mathematical data.
pub struct ManagerView {
    pub config: ConfigView,
    /// The aliases of the shards attached so far, in the order of attachment.
    pub attached: Seq<Seq<char>>,
    /// The shard that the next round-robin selection gives.
    pub next: nat,
    /// The remembered statements, most recently used first.
    pub cached: Seq<(Seq<char>, StatementView)>,
    /// The number of statements that are remembered at most.
    pub capacity: nat,
}

/// Every remembered entry is what the recogniser finds in its statement.
pub open spec fn cache_consistent(cached: Seq<(Seq<char>, StatementView)>) -> bool {
    forall|i: int| 0 <= i < cached.len() ==> select_of(#[trigger] cached[i].0) == Some(cached[i].1)
}

/// What holds of every manager: a valid configuration, a counter within the
/// shards, the first shards attached under their aliases, and a bounded,
/// consistent cache.
pub open spec fn view_wf(m: ManagerView) -> bool {
    &&& valid_config(m.config)
    &&& m.next < m.config.shards.len()
    &&& m.attached.len() <= m.config.shards.len()
    &&& m.attached == shard_aliases(m.attached.len())
    &&& m.capacity == PARSE_CACHE_CAPACITY
    &&& m.cached.len() <= m.capacity
    &&& cache_consistent(m.cached)
}

/// The statement that attaches the file `path` under `alias`.
pub open spec fn attach_sql(alias: Seq<char>, path: Seq<char>) -> Seq<char> {
    "ATTACH DATABASE '"@ + path + "' AS "@ + alias
}

/// The statements that attach the shard files, in order.
pub open spec fn attach_plan(shards: Seq<Seq<char>>) -> Seq<PlanView> {
    Seq::new(
        shards.len(),
        |i: int| PlanView { alias: shard_alias(i as nat), sql: attach_sql(shard_alias(i as nat), shards[i]) },
    )
}

/// The cache after `statement` was looked up: a hit moves the entry to the
/// front; a miss stores what the recogniser finds, if it finds anything.
pub open spec fn looked_up(cached: Seq<(Seq<char>, StatementView)>, statement: Seq<char>) -> Seq<
    (Seq<char>, StatementView),
> {
    match entry_index(cached, statement) {
        Some(i) => touched(cached, i),
        None => match select_of(statement) {
            Some(v) => stored(cached, PARSE_CACHE_CAPACITY as nat, statement, v),
            None => cached,
        },
    }
}

/// The partition-key value by which a statement is routed, if the
/// configuration names a key column and the statement gives its value.
pub open spec fn routed_key(config: ConfigView, parsed: StatementView) -> Option<Seq<char>> {
    match config.key_column {
        Some(k) => partition_key_of(parsed, k),
        None => None,
    }
}

/// The alias that a selection for `key` gives in the state `m`.
pub open spec fn selected_alias(m: ManagerView, key: Seq<char>) -> Seq<char> {
    shard_alias(selected_slot(m.config.strategy, key, m.config.shards.len(), m.next))
}

/// The state after one selection.
pub open spec fn after_selection(m: ManagerView) -> ManagerView {
    ManagerView { next: advanced(m.config.strategy, m.config.shards.len(), m.next), ..m }
}

/// The shards that a recognised `SELECT` is sent to: the one shard of its
/// partition key where it gives one (none, if that shard is not attached),
/// every attached shard otherwise.
pub open spec fn query_targets(m: ManagerView, parsed: StatementView) -> Seq<Seq<char>> {
    match routed_key(m.config, parsed) {
        Some(key) => if m.attached.contains(selected_alias(m, key)) {
            seq![selected_alias(m, key)]
        } else {
            Seq::<Seq<char>>::empty()
        },
        None => m.attached,
    }
}

/// The statements that a recognised `SELECT` gives rise to.
pub open spec fn query_plan(m: ManagerView, sql: Seq<char>, parsed: StatementView) -> Seq<
    PlanView,
> {
    query_targets(m, parsed).map_values(
        |a: Seq<char>| PlanView { alias: a, sql: qualified_from(sql, a) },
    )
}

/// The state after a recognised `SELECT` was routed.
pub open spec fn after_query(m: ManagerView, sql: Seq<char>, parsed: StatementView) -> ManagerView {
    let looked = ManagerView { cached: looked_up(m.cached, trim(sql)), ..m };
    match routed_key(m.config, parsed) {
        Some(_) => after_selection(looked),
        None => looked,
    }
}

/// The upper-cased statement is an `INSERT`, an `UPDATE` or a `DELETE`.
pub open spec fn is_write(up: Seq<char>) -> bool {
    starts_with(up, "INSERT"@) || starts_with(up, "UPDATE"@) || starts_with(up, "DELETE"@)
}

/// What the recogniser finds in a write; `None` where it rejects.
pub open spec fn write_of(sql: Seq<char>) -> Option<StatementView> {
    let up = uppercase(trim(sql));
    if starts_with(up, "INSERT"@) {
        insert_of(sql)
    } else if starts_with(up, "UPDATE"@) {
        update_of(sql)
    } else if starts_with(up, "DELETE"@) {
        delete_of(sql)
    } else {
        None
    }
}

/// How a write is routed from the state `m`: `r` is what the caller gets and
/// `after` the state that is left.
///
/// A statement that the admission filter turns away is `InvalidSql`; an
/// admitted statement that is no write is refused as `Query`; a write that
/// the recogniser rejects is `InvalidSql`; without a configured key column
/// the write is refused as `Query`; without a value for the key column it is
/// `PartitionKeyNotFound`. Otherwise a shard is selected, and the write goes
/// to it if it is attached and is `ShardNotFound` if it is not.
pub open spec fn routed_write(
    m: ManagerView,
    sql: Seq<char>,
    r: Result<ShardStatement, Sqlite3xError>,
    after: ManagerView,
) -> bool {
    if !admissible(sql) {
        r matches Err(Sqlite3xError::InvalidSql(_)) && after == m
    } else if !is_write(uppercase(trim(sql))) {
        r matches Err(Sqlite3xError::Query(_)) && after == m
    } else {
        match write_of(sql) {
            None => r matches Err(Sqlite3xError::InvalidSql(_)) && after == m,
            Some(parsed) => match m.config.key_column {
                None => r matches Err(Sqlite3xError::Query(_)) && after == m,
                Some(k) => match partition_key_of(parsed, k) {
                    None => r matches Err(Sqlite3xError::PartitionKeyNotFound(_)) && after == m,
                    Some(key) => after == after_selection(m) && (if m.attached.contains(
                        selected_alias(m, key),
                    ) {
                        r matches Ok(st) && st@ == (PlanView {
                            alias: selected_alias(m, key),
                            sql: rewritten(parsed.statement_type, sql, selected_alias(m, key)),
                        })
                    } else {
                        r matches Err(Sqlite3xError::ShardNotFound(_))
                    }),
                },
            },
        }
    }
}

/// The entries of a cache are within the bound, and each is what the
/// recogniser finds in its statement.
pub open spec fn cache_ok(c: lru::LruCache<String, ParsedStatement>) -> bool {
    &&& cache_capacity(c) == PARSE_CACHE_CAPACITY
    &&& cache_entries(c).len() <= PARSE_CACHE_CAPACITY
    &&& cache_consistent(cache_entries(c))
}

/// The index that `entry_index_from` gives lies within the entries, from `i` on.
pub proof fn lemma_entry_index(entries: Seq<(Seq<char>, StatementView)>, key: Seq<char>, i: int)
    requires
        0 <= i,
    ensures
        match entry_index_from(entries, key, i) {
            Some(j) => i <= j < entries.len() && entries[j].0 == key,
            None => forall|k: int| i <= k < entries.len() ==> (#[trigger] entries[k]).0 != key,
        },
    decreases entries.len() - i,
{
    if i < entries.len() && entries[i].0 != key {
        lemma_entry_index(entries, key, i + 1);
    }
}

/// Looking a statement up keeps the cache within its bound and consistent.
pub proof fn lemma_looked_up(cached: Seq<(Seq<char>, StatementView)>, statement: Seq<char>)
    requires
        cached.len() <= PARSE_CACHE_CAPACITY,
        cache_consistent(cached),
    ensures
        looked_up(cached, statement).len() <= PARSE_CACHE_CAPACITY,
        cache_consistent(looked_up(cached, statement)),
{
    lemma_entry_index(cached, statement, 0);
    let after = looked_up(cached, statement);
    match entry_index(cached, statement) {
        Some(i) => {
            assert forall|k: int| 0 <= k < after.len() implies select_of(#[trigger] after[k].0)
                == Some(after[k].1) by {
                if k == 0 {
                    assert(after[k] == cached[i]);
                } else if k - 1 < i {
                    assert(after[k] == cached[k - 1]);
                } else {
                    assert(after[k] == cached[k]);
                }
            }
        },
        None => {
            match select_of(statement) {
                Some(v) => {
                    let kept = if cached.len() == PARSE_CACHE_CAPACITY {
                        cached.drop_last()
                    } else {
                        cached
                    };
                    assert(after == seq![(statement, v)] + kept);
                    assert forall|k: int| 0 <= k < after.len() implies select_of(
                        #[trigger] after[k].0,
                    ) == Some(after[k].1) by {
                        if k == 0 {
                        } else {
                            assert(after[k] == kept[k - 1]);
                            assert(kept[k - 1] == cached[k - 1]);
                        }
                    }
                },
                None => {},
            }
        },
    }
}

/// What is recognised in `statement`, from the cache where it is there.
fn lookup_or_parse(cache: &mut lru::LruCache<String, ParsedStatement>, statement: String) -> (r:
    Result<ParsedStatement, Sqlite3xError>)
    requires
        cache_ok(*old(cache)),
    ensures
        cache_ok(*final(cache)),
        cache_entries(*final(cache)) == looked_up(cache_entries(*old(cache)), statement@),
        match select_of(statement@) {
            Some(v) => r matches Ok(p) && p@ == v,
            None => r matches Err(Sqlite3xError::InvalidSql(_)),
        },
{
    proof {
        lemma_entry_index(cache_entries(*cache), statement@, 0);
        lemma_looked_up(cache_entries(*cache), statement@);
    }
    match cache_get(cache, statement.as_str()) {
        Some(p) => Ok(p),
        None => {
            let parser = SqlParser::new();
            match parser.parse_select(statement.as_str()) {
                Ok(p) => {
                    cache_put(cache, statement, p.clone());
                    Ok(p)
                },
                Err(e) => Err(e),
            }
        },
    }
}

/// The first `attached.len()` aliases, grown to the first `upto`.
fn extend_aliases(attached: &mut Vec<String>, upto: usize)
    requires
        views(old(attached)@) == shard_aliases(old(attached)@.len()),
    ensures
        views(final(attached)@) == shard_aliases(final(attached)@.len()),
        final(attached)@.len() == if old(attached)@.len() < upto {
            upto as nat
        } else {
            old(attached)@.len()
        },
{
    while attached.len() < upto
        invariant
            views(attached@) == shard_aliases(attached@.len()),
            old(attached)@.len() <= attached@.len(),
            old(attached)@.len() < upto ==> attached@.len() <= upto,
            old(attached)@.len() >= upto ==> attached@.len() == old(attached)@.len(),
        decreases upto - attached@.len(),
    {
        let ghost before = attached@;
        let a = alias_of(attached.len());
        attached.push(a);
        assert(views(attached@) =~= shard_aliases(attached@.len())) by {
            assert forall|k: int| 0 <= k < attached@.len() implies views(attached@)[k]
                == shard_aliases(attached@.len())[k] by {
                if k < before.len() {
                    assert(views(before)[k] == shard_aliases(before.len())[k]);
                }
            }
        }
    }
}

/// The index of `alias` among the attached aliases.
fn position_of(attached: &Vec<String>, alias: &str) -> (r: Option<usize>)
    ensures
        match r {
            Some(i) => i < attached@.len() && attached@[i as int]@ == alias@ && views(
                attached@,
            ).contains(alias@),
            None => !views(attached@).contains(alias@),
        },
{
    let mut i: usize = 0;
    while i < attached.len()
        invariant
            i <= attached@.len(),
            forall|k: int| 0 <= k < i ==> views(attached@)[k] != alias@,
        decreases attached@.len() - i,
    {
        if same_str(attached[i].as_str(), alias) {
            assert(views(attached@)[i as int] == alias@);
            return Some(i);
        }
        i += 1;
    }
    None
}

/// The query statements for every attached shard, in order.
fn fan_out(attached: &Vec<String>, sql: &str) -> (plan: Vec<ShardStatement>)
    ensures
        plan_views(plan@) == views(attached@).map_values(
            |a: Seq<char>| PlanView { alias: a, sql: qualified_from(sql@, a) },
        ),
{
    let mut plan: Vec<ShardStatement> = Vec::new();
    let mut i: usize = 0;
    while i < attached.len()
        invariant
            i <= attached@.len(),
            plan@.len() == i,
            forall|k: int|
                0 <= k < i ==> (#[trigger] plan@[k])@ == (PlanView {
                    alias: attached@[k]@,
                    sql: qualified_from(sql@, attached@[k]@),
                }),
        decreases attached@.len() - i,
    {
        plan.push(
            ShardStatement {
                alias: attached[i].clone(),
                sql: crate::rewrite::modify_sql_for_shard(sql, attached[i].as_str()),
            },
        );
        i += 1;
    }
    assert(plan_views(plan@) =~= views(attached@).map_values(
        |a: Seq<char>| PlanView { alias: a, sql: qualified_from(sql@, a) },
    ));
    plan
}

/// Adds a policy for a table that has none.
fn add_policy(config: &mut PartitionConfig, policy: PartitionPolicy)
    requires
        valid_config(old(config)@),
        !has_policy(old(config)@.policies, policy@.table_name),
    ensures
        valid_config(final(config)@),
        final(config)@ == (ConfigView {
            policies: old(config)@.policies.push(policy@),
            ..old(config)@
        }),
{
    let ghost before = config@.policies;
    config.policies.push(policy);
    assert(config@.policies =~= before.push(policy@));
    assert forall|i: int, j: int| 0 <= i < j < config@.policies.len() implies config@.policies[i].table_name
        != config@.policies[j].table_name by {
        if j == before.len() {
            assert(before[i].table_name != policy@.table_name);
        } else {
            assert(before[i].table_name != before[j].table_name);
        }
    }
}

/// Removes the policy at index `i`.
fn drop_policy(config: &mut PartitionConfig, i: usize)
    requires
        valid_config(old(config)@),
        i < old(config)@.policies.len(),
    ensures
        valid_config(final(config)@),
        final(config)@ == (ConfigView {
            policies: old(config)@.policies.remove(i as int),
            ..old(config)@
        }),
{
    let ghost before = config@.policies;
    config.policies.remove(i);
    assert(config@.policies =~= before.remove(i as int));
    assert forall|a: int, b: int| 0 <= a < b < config@.policies.len() implies config@.policies[a].table_name
        != config@.policies[b].table_name by {
        let x = if a < i { a } else { a + 1 };
        let y = if b < i { b } else { b + 1 };
        assert(before[x].table_name != before[y].table_name);
    }
}

/// The index of the policy for `table`.
pub open spec fn policy_index(p: Seq<PolicyView>, table: Seq<char>) -> int {
    choose|i: int| 0 <= i < p.len() && #[trigger] p[i].table_name == table
}

/// The state of a partitioned database: its configuration, the shards
/// attached so far, the round-robin counter and the cache of recognised
/// statements.
pub struct PartitionManager {
    config: PartitionConfig,
    attached: Vec<String>,
    round_robin_index: usize,
    parse_cache: lru::LruCache<String, ParsedStatement>,
}

impl View for PartitionManager {
    type V = ManagerView;

    closed spec fn view(&self) -> ManagerView {
        ManagerView {
            config: self.config@,
            attached: views(self.attached@),
            next: self.round_robin_index as nat,
            cached: cache_entries(self.parse_cache),
            capacity: cache_capacity(self.parse_cache),
        }
    }
}

impl PartitionManager {
    /// A manager for a valid configuration: no shard attached yet, the
    /// counter at the first shard, nothing remembered.
    pub fn new(config: PartitionConfig) -> (r: Result<Self, Sqlite3xError>)
        ensures
            valid_config(config@) ==> (r matches Ok(m) && view_wf(m@) && m@ == (ManagerView {
                config: config@,
                attached: Seq::<Seq<char>>::empty(),
                next: 0,
                cached: Seq::<(Seq<char>, StatementView)>::empty(),
                capacity: PARSE_CACHE_CAPACITY as nat,
            })),
            !valid_config(config@) ==> r matches Err(Sqlite3xError::ShardingPolicyViolation(_)),
    {
        match config.validate() {
            Err(e) => Err(e),
            Ok(()) => {
                let attached: Vec<String> = Vec::new();
                assert(views(attached@) =~= Seq::<Seq<char>>::empty());
                assert(views(attached@) =~= shard_aliases(0));
                let m = PartitionManager {
                    config,
                    attached,
                    round_robin_index: 0,
                    parse_cache: cache_new(PARSE_CACHE_CAPACITY),
                };
                Ok(m)
            },
        }
    }

    /// The configuration.
    pub fn get_config(&self) -> (c: &PartitionConfig)
        ensures
            c@ == self@.config,
    {
        &self.config
    }

    /// The statements that attach the shard files, each under its alias, in
    /// the order of the configuration.
    pub fn initialize_shards(&self) -> (plan: Vec<ShardStatement>)
        ensures
            plan_views(plan@) == attach_plan(self@.config.shards),
    {
        let mut plan: Vec<ShardStatement> = Vec::new();
        let mut i: usize = 0;
        while i < self.config.shards.len()
            invariant
                i <= self.config.shards@.len(),
                plan@.len() == i,
                forall|k: int|
                    0 <= k < i ==> (#[trigger] plan@[k])@ == (PlanView {
                        alias: shard_alias(k as nat),
                        sql: attach_sql(shard_alias(k as nat), self.config.shards@[k]@),
                    }),
            decreases self.config.shards@.len() - i,
        {
            let alias = alias_of(i);
            let mut sql = "ATTACH DATABASE '".to_string();
            sql.append(self.config.shards[i].as_str());
            sql.append("' AS ");
            sql.append(alias.as_str());
            plan.push(ShardStatement { alias, sql });
            i += 1;
        }
        assert(plan_views(plan@) =~= attach_plan(self@.config.shards));
        plan
    }

    /// Records that the first `count` attach statements have been run: those
    /// shards are attached from now on. Shards are never detached.
    pub fn confirm_attached(&mut self, count: usize)
        requires
            view_wf(old(self)@),
        ensures
            view_wf(final(self)@),
            final(self)@ == (ManagerView {
                attached: shard_aliases(
                    if old(self)@.attached.len() < count {
                        if count <= old(self)@.config.shards.len() {
                            count as nat
                        } else {
                            old(self)@.config.shards.len()
                        }
                    } else {
                        old(self)@.attached.len()
                    },
                ),
                ..old(self)@
            }),
    {
        let n = self.config.shards.len();
        let upto = if count <= n {
            count
        } else {
            n
        };
        extend_aliases(&mut self.attached, upto);
    }

    /// The alias of the shard for `partition_key`. Under the hash and range
    /// strategies it depends on the key alone; under round robin it is the
    /// shard at the counter, which then moves on by one.
    pub fn select_shard(&mut self, partition_key: &str) -> (r: Result<String, Sqlite3xError>)
        requires
            view_wf(old(self)@),
        ensures
            r matches Ok(alias) && alias@ == selected_alias(old(self)@, partition_key@),
            final(self)@ == after_selection(old(self)@),
            view_wf(final(self)@),
    {
        let n = self.config.shards.len();
        let slot = slot_of(self.config.strategy, partition_key, n, self.round_robin_index);
        proof {
            if self.round_robin_index + 1 == n {
                vstd::arithmetic::div_mod::lemma_mod_self_0(n as int);
            } else {
                vstd::arithmetic::div_mod::lemma_small_mod((self.round_robin_index + 1) as nat, n as nat);
            }
        }
        match self.config.strategy {
            PartitionStrategy::RoundRobin => {
                self.round_robin_index = if self.round_robin_index + 1 == n {
                    0
                } else {
                    self.round_robin_index + 1
                };
            },
            _ => {},
        }
        Ok(alias_of(slot))
    }

    /// The position of `alias` among the attached shards.
    pub fn get_shard(&self, alias: &str) -> (r: Option<usize>)
        ensures
            match r {
                Some(i) => i < self@.attached.len() && self@.attached[i as int] == alias@,
                None => !self@.attached.contains(alias@),
            },
    {
        position_of(&self.attached, alias)
    }

    /// Routes a `SELECT`: the statements to run, shard by shard, in the order
    /// in which their responses are to be merged. A statement that gives the
    /// value of the configured key column goes to the shard of that value;
    /// any other goes to every attached shard.
    pub fn query_partitioned(&mut self, sql: &str) -> (r: Result<
        Vec<ShardStatement>,
        Sqlite3xError,
    >)
        requires
            view_wf(old(self)@),
        ensures
            view_wf(final(self)@),
            match select_of(trim(sql@)) {
                Some(parsed) => r matches Ok(plan) && plan_views(plan@) == query_plan(
                    old(self)@,
                    sql@,
                    parsed,
                ) && final(self)@ == after_query(old(self)@, sql@, parsed),
                None => r matches Err(Sqlite3xError::InvalidSql(_)) && final(self)@ == old(self)@,
            },
    {
        proof {
            lemma_entry_index(self@.cached, trim(sql@), 0);
        }
        let c = chars_of(sql);
        let statement = string_of(trimmed(c.as_slice()));
        let parsed = match lookup_or_parse(&mut self.parse_cache, statement) {
            Ok(p) => p,
            Err(e) => {
                return Err(e);
            },
        };
        let parser = SqlParser::new();
        let routed = match &self.config.key_column {
            Some(k) => match parser.extract_partition_key_value(&parsed, k.as_str()) {
                Ok(v) => Some(v),
                Err(_) => None,
            },
            None => None,
        };
        match routed {
            Some(key) => {
                assert(routed_key(old(self)@.config, parsed@) == Some(key@));
                let alias = match self.select_shard(key.as_str()) {
                    Ok(a) => a,
                    Err(e) => {
                        return Err(e);
                    },
                };
                let mut plan: Vec<ShardStatement> = Vec::new();
                if position_of(&self.attached, alias.as_str()).is_some() {
                    let rewritten = crate::rewrite::modify_sql_for_shard(sql, alias.as_str());
                    plan.push(ShardStatement { alias, sql: rewritten });
                }
                proof {
                    let want = query_plan(old(self)@, sql@, parsed@);
                    assert(want.len() == query_targets(old(self)@, parsed@).len());
                    if old(self)@.attached.contains(alias@) {
                        assert(plan@.len() == 1);
                        assert(query_targets(old(self)@, parsed@)[0] == alias@);
                        assert(want[0] == (PlanView {
                            alias: alias@,
                            sql: qualified_from(sql@, alias@),
                        }));
                        assert(plan_views(plan@)[0] == want[0]);
                    } else {
                        assert(plan@.len() == 0);
                    }
                    assert(plan_views(plan@) =~= want);
                }
                Ok(plan)
            },
            None => {
                let plan = fan_out(&self.attached, sql);
                Ok(plan)
            },
        }
    }

    /// Routes a write: the one statement to run, and the shard to run it on.
    /// A write is pinned to the shard of its partition key and never fans out.
    pub fn execute_partitioned(&mut self, sql: &str) -> (r: Result<ShardStatement, Sqlite3xError>)
        requires
            view_wf(old(self)@),
        ensures
            view_wf(final(self)@),
            routed_write(old(self)@, sql@, r, final(self)@),
    {
        let parser = SqlParser::new();
        match parser.detect_sql_injection_patterns(sql) {
            Err(e) => {
                return Err(e);
            },
            Ok(()) => {},
        }
        let c = chars_of(sql);
        let up = uppercased(trimmed(c.as_slice()));
        let parsed = if begins_with(up.as_slice(), chars_of("INSERT").as_slice()) {
            parser.parse_insert(sql)
        } else if begins_with(up.as_slice(), chars_of("UPDATE").as_slice()) {
            parser.parse_update(sql)
        } else if begins_with(up.as_slice(), chars_of("DELETE").as_slice()) {
            parser.parse_delete(sql)
        } else {
            return Err(Sqlite3xError::Query("Only INSERT/UPDATE/DELETE supported".to_string()));
        };
        let parsed = match parsed {
            Ok(p) => p,
            Err(e) => {
                return Err(e);
            },
        };
        let key = match &self.config.key_column {
            None => {
                return Err(Sqlite3xError::Query("Key column not configured".to_string()));
            },
            Some(k) => match parser.extract_partition_key_value(&parsed, k.as_str()) {
                Ok(v) => v,
                Err(e) => {
                    return Err(e);
                },
            },
        };
        let alias = match self.select_shard(key.as_str()) {
            Ok(a) => a,
            Err(e) => {
                return Err(e);
            },
        };
        if position_of(&self.attached, alias.as_str()).is_none() {
            return Err(Sqlite3xError::ShardNotFound(alias));
        }
        let rewritten = rewrite_for_shard(parsed.statement_type, sql, alias.as_str());
        Ok(ShardStatement { alias, sql: rewritten })
    }

    /// Adds a policy. A table can have one policy only.
    pub fn create_partition_policy(&mut self, policy: PartitionPolicy) -> (r: Result<
        (),
        Sqlite3xError,
    >)
        requires
            view_wf(old(self)@),
        ensures
            view_wf(final(self)@),
            has_policy(old(self)@.config.policies, policy@.table_name) ==> (r matches Err(
                Sqlite3xError::Query(_),
            ) && final(self)@ == old(self)@),
            !has_policy(old(self)@.config.policies, policy@.table_name) ==> r is Ok && final(self)@ == (ManagerView {
                config: ConfigView {
                    policies: old(self)@.config.policies.push(policy@),
                    ..old(self)@.config
                },
                ..old(self)@
            }),
    {
        match policy_position(&self.config.policies, policy.table_name.as_str()) {
            Some(i) => {
                assert(policy_views(self.config.policies@)[i as int].table_name
                    == policy@.table_name);
                Err(
                Sqlite3xError::Query(
                    prefixed("Policy already exists for ", policy.table_name.as_str()),
                ),
            )
            },
            None => {
                add_policy(&mut self.config, policy);
                Ok(())
            },
        }
    }

    /// Removes the policy of a table. It is an error if the table has none.
    pub fn delete_partition_policy(&mut self, table_name: &str) -> (r: Result<(), Sqlite3xError>)
        requires
            view_wf(old(self)@),
        ensures
            view_wf(final(self)@),
            !has_policy(old(self)@.config.policies, table_name@) ==> (r matches Err(
                Sqlite3xError::Query(_),
            ) && final(self)@ == old(self)@),
            has_policy(old(self)@.config.policies, table_name@) ==> r is Ok && final(self)@ == (
            ManagerView {
                config: ConfigView {
                    policies: old(self)@.config.policies.remove(
                        policy_index(old(self)@.config.policies, table_name@),
                    ),
                    ..old(self)@.config
                },
                ..old(self)@
            }),
    {
        match policy_position(&self.config.policies, table_name) {
            None => Err(Sqlite3xError::Query(prefixed("Policy not found for ", table_name))),
            Some(i) => {
                proof {
                    let p = self@.config.policies;
                    assert(policy_views(self.config.policies@)[i as int].table_name
                        == table_name@);
                    let c = policy_index(p, table_name@);
                    assert(p[i as int].table_name == table_name@);
                    assert(0 <= c < p.len() && p[c].table_name == table_name@);
                    assert(c == i) by {
                        if c < i {
                            assert(p[c].table_name != p[i as int].table_name);
                        } else if i < c {
                            assert(p[i as int].table_name != p[c].table_name);
                        }
                    }
                }
                drop_policy(&mut self.config, i);
                Ok(())
            },
        }
    }
}

// ---------------------------------------------------------------------------
// Index coverage and maintenance
// ---------------------------------------------------------------------------
/// One step of a maintenance pass.
#[derive(Debug, Clone, PartialEq)]
pub struct MaintenanceStep {
    pub statement: ShardStatement,
    /// Whether the rows that the statement affects count as deleted rows.
    pub counted: bool,
}

/// A maintenance step as mathematical data.
pub struct StepView {
    pub plan: PlanView,
    pub counted: bool,
}

impl View for MaintenanceStep {
    type V = StepView;

    open spec fn view(&self) -> StepView {
        StepView { plan: self.statement@, counted: self.counted }
    }
}

/// The views of a list of steps.
pub open spec fn step_views(v: Seq<MaintenanceStep>) -> Seq<StepView> {
    Seq::new(v.len(), |i: int| v[i]@)
}

/// The statement that lists the indexes of a table of a shard.
#[derive(Debug, Clone, PartialEq)]
pub struct IndexProbe {
    pub alias: String,
    pub table: String,
    pub sql: String,
}

/// An index probe as mathematical data.
pub struct ProbeView {
    pub alias: Seq<char>,
    pub table: Seq<char>,
    pub sql: Seq<char>,
}

impl View for IndexProbe {
    type V = ProbeView;

    open spec fn view(&self) -> ProbeView {
        ProbeView { alias: self.alias@, table: self.table@, sql: self.sql@ }
    }
}

/// The views of a list of probes.
pub open spec fn probe_views(v: Seq<IndexProbe>) -> Seq<ProbeView> {
    Seq::new(v.len(), |i: int| v[i]@)
}

/// What was found for one table of one shard: whether some index of the
/// table holds the key column.
#[derive(Debug, Clone, PartialEq)]
pub struct IndexCoverage {
    pub alias: String,
    pub table: String,
    pub covered: bool,
}

/// A finding as mathematical data.
pub struct CoverageView {
    pub alias: Seq<char>,
    pub table: Seq<char>,
    pub covered: bool,
}

impl View for IndexCoverage {
    type V = CoverageView;

    open spec fn view(&self) -> CoverageView {
        CoverageView { alias: self.alias@, table: self.table@, covered: self.covered }
    }
}

/// The views of a list of findings.
pub open spec fn coverage_views(v: Seq<IndexCoverage>) -> Seq<CoverageView> {
    Seq::new(v.len(), |i: int| v[i]@)
}

/// The statement that prunes, on one shard, what a policy no longer retains.
pub open spec fn prune_sql(alias: Seq<char>, p: PolicyView) -> Seq<char> {
    "DELETE FROM "@ + alias + "."@ + p.table_name + " WHERE "@ + p.date_column
        + " < date('now', '-"@ + decimal(p.retention as nat) + " "@ + p.interval + "')"@
}

/// The statement that creates, on one shard, the index of a table on the key column.
pub open spec fn index_sql(alias: Seq<char>, table: Seq<char>, key: Seq<char>) -> Seq<char> {
    "CREATE INDEX IF NOT EXISTS "@ + alias + ".idx_"@ + table + "_"@ + key + "_shardkey ON "@
        + table + "("@ + key + ")"@
}

/// The statement that lists the indexes of a table of a shard.
pub open spec fn index_list_sql(alias: Seq<char>, table: Seq<char>) -> Seq<char> {
    "PRAGMA "@ + alias + ".index_list("@ + table + ")"@
}

/// The statement that lists the columns of an index of a shard.
pub open spec fn index_info_sql(alias: Seq<char>, index: Seq<char>) -> Seq<char> {
    "PRAGMA "@ + alias + ".index_info('"@ + index + "')"@
}

/// The index statements of one shard: one for the table of each policy.
pub open spec fn index_plan_for(alias: Seq<char>, policies: Seq<PolicyView>, key: Seq<char>) -> Seq<
    PlanView,
> {
    policies.map_values(
        |p: PolicyView| PlanView { alias: alias, sql: index_sql(alias, p.table_name, key) },
    )
}

/// The index statements of every attached shard, shard by shard. Without a
/// key column there is nothing to index.
pub open spec fn index_plan(m: ManagerView) -> Seq<PlanView> {
    match m.config.key_column {
        Some(k) => m.attached.map_values(
            |a: Seq<char>| index_plan_for(a, m.config.policies, k),
        ).flatten(),
        None => Seq::<PlanView>::empty(),
    }
}

/// The probes of one shard: one for the table of each policy.
pub open spec fn probes_for(alias: Seq<char>, policies: Seq<PolicyView>) -> Seq<ProbeView> {
    policies.map_values(
        |p: PolicyView|
            ProbeView {
                alias: alias,
                table: p.table_name,
                sql: index_list_sql(alias, p.table_name),
            },
    )
}

/// The probes of every attached shard, shard by shard. Without a key column
/// there is nothing to probe.
pub open spec fn probe_plan(m: ManagerView) -> Seq<ProbeView> {
    match m.config.key_column {
        Some(k) => m.attached.map_values(
            |a: Seq<char>| probes_for(a, m.config.policies),
        ).flatten(),
        None => Seq::<ProbeView>::empty(),
    }
}

/// The steps that one policy asks for: its pruning statement on every
/// attached shard, then, if it asks for indexes, every index statement.
pub open spec fn steps_for(m: ManagerView, p: PolicyView) -> Seq<StepView> {
    m.attached.map_values(
        |a: Seq<char>| StepView { plan: PlanView { alias: a, sql: prune_sql(a, p) }, counted: true },
    ) + (if p.auto_indexing {
        index_plan(m).map_values(|s: PlanView| StepView { plan: s, counted: false })
    } else {
        Seq::<StepView>::empty()
    })
}

/// The steps of a maintenance pass, policy by policy.
pub open spec fn maintenance_plan(m: ManagerView) -> Seq<StepView> {
    m.config.policies.map_values(|p: PolicyView| steps_for(m, p)).flatten()
}

/// The rows that the outcome of step `i` adds to the total: what a counted
/// step affected, if it succeeded.
pub open spec fn rows_of(steps: Seq<StepView>, outcomes: Seq<Option<usize>>, i: int) -> nat {
    if 0 <= i < steps.len() && i < outcomes.len() && steps[i].counted {
        match outcomes[i] {
            Some(n) => n as nat,
            None => 0,
        }
    } else {
        0
    }
}

/// The rows deleted by the first `n` steps.
pub open spec fn rows_in(steps: Seq<StepView>, outcomes: Seq<Option<usize>>, n: nat) -> nat
    decreases n,
{
    if n == 0 {
        0
    } else {
        rows_in(steps, outcomes, (n - 1) as nat) + rows_of(steps, outcomes, n - 1)
    }
}

/// The entries that are reported missing: `alias.table` for each finding
/// without coverage, in the order of the findings.
pub open spec fn missing_in(findings: Seq<CoverageView>) -> Seq<Seq<char>>
    decreases findings.len(),
{
    if findings.len() == 0 {
        Seq::<Seq<char>>::empty()
    } else {
        let f = findings.last();
        let before = missing_in(findings.drop_last());
        if f.covered {
            before
        } else {
            before.push(f.alias + "."@ + f.table)
        }
    }
}

fn index_statements_for(alias: &str, policies: &Vec<PartitionPolicy>, key: &str) -> (plan: Vec<
    ShardStatement,
>)
    ensures
        plan_views(plan@) == index_plan_for(alias@, policy_views(policies@), key@),
{
    let mut plan: Vec<ShardStatement> = Vec::new();
    let mut i: usize = 0;
    while i < policies.len()
        invariant
            i <= policies@.len(),
            plan@.len() == i,
            forall|k: int|
                0 <= k < i ==> (#[trigger] plan@[k])@ == (PlanView {
                    alias: alias@,
                    sql: index_sql(alias@, policies@[k]@.table_name, key@),
                }),
        decreases policies@.len() - i,
    {
        let table = policies[i].table_name.as_str();
        let mut sql = "CREATE INDEX IF NOT EXISTS ".to_string();
        sql.append(alias);
        sql.append(".idx_");
        sql.append(table);
        sql.append("_");
        sql.append(key);
        sql.append("_shardkey ON ");
        sql.append(table);
        sql.append("(");
        sql.append(key);
        sql.append(")");
        plan.push(ShardStatement { alias: alias.to_string(), sql });
        i += 1;
    }
    assert(plan_views(plan@) =~= index_plan_for(alias@, policy_views(policies@), key@));
    plan
}

fn probes_of(alias: &str, policies: &Vec<PartitionPolicy>) -> (plan: Vec<IndexProbe>)
    ensures
        probe_views(plan@) == probes_for(alias@, policy_views(policies@)),
{
    let mut plan: Vec<IndexProbe> = Vec::new();
    let mut i: usize = 0;
    while i < policies.len()
        invariant
            i <= policies@.len(),
            plan@.len() == i,
            forall|k: int|
                0 <= k < i ==> (#[trigger] plan@[k])@ == (ProbeView {
                    alias: alias@,
                    table: policies@[k]@.table_name,
                    sql: index_list_sql(alias@, policies@[k]@.table_name),
                }),
        decreases policies@.len() - i,
    {
        let table = policies[i].table_name.as_str();
        let mut sql = "PRAGMA ".to_string();
        sql.append(alias);
        sql.append(".index_list(");
        sql.append(table);
        sql.append(")");
        plan.push(IndexProbe { alias: alias.to_string(), table: table.to_string(), sql });
        i += 1;
    }
    assert(probe_views(plan@) =~= probes_for(alias@, policy_views(policies@)));
    plan
}

fn prune_statement(alias: &str, policy: &PartitionPolicy) -> (sql: String)
    ensures
        sql@ == prune_sql(alias@, policy@),
{
    let mut sql = "DELETE FROM ".to_string();
    sql.append(alias);
    sql.append(".");
    sql.append(policy.table_name.as_str());
    sql.append(" WHERE ");
    sql.append(policy.date_column.as_str());
    sql.append(" < date('now', '-");
    push_decimal(&mut sql, policy.retention as u64);
    sql.append(" ");
    sql.append(policy.interval.as_str());
    sql.append("')");
    sql
}

/// The statement that lists the columns of the index `index` of the shard `alias`.
pub fn index_info_statement(alias: &str, index: &str) -> (sql: String)
    ensures
        sql@ == index_info_sql(alias@, index@),
{
    let mut sql = "PRAGMA ".to_string();
    sql.append(alias);
    sql.append(".index_info('");
    sql.append(index);
    sql.append("')");
    sql
}

/// The first counted step at or after index `j`; the number of steps if
/// there is none.
pub open spec fn next_counted(steps: Seq<StepView>, j: int) -> int
    decreases steps.len() - j,
{
    if j < 0 || j >= steps.len() {
        steps.len() as int
    } else if steps[j].counted {
        j
    } else {
        next_counted(steps, j + 1)
    }
}

/// The step to run after step `i`. After a step that succeeded, and after a
/// pruning step in any case, it is the next step. After an index step that
/// failed, the index steps that follow it directly are left out: the pass
/// goes on with the next pruning step.
pub open spec fn next_step(steps: Seq<StepView>, i: int, succeeded: bool) -> int {
    if i < 0 || i >= steps.len() {
        steps.len() as int
    } else if succeeded || steps[i].counted {
        i + 1
    } else {
        next_counted(steps, i + 1)
    }
}

/// The index of the step to run after step `i`, given whether step `i`
/// succeeded; the number of steps when the pass is over.
pub fn step_after(steps: &Vec<MaintenanceStep>, i: usize, succeeded: bool) -> (next: usize)
    ensures
        next == next_step(step_views(steps@), i as int, succeeded),
        next <= steps@.len(),
        i < steps@.len() ==> i < next,
{
    if i >= steps.len() {
        return steps.len();
    }
    if succeeded || steps[i].counted {
        return i + 1;
    }
    let mut j: usize = i + 1;
    while j < steps.len() && !steps[j].counted
        invariant
            i < j <= steps@.len(),
            next_counted(step_views(steps@), j as int) == next_counted(
                step_views(steps@),
                i + 1,
            ),
        decreases steps@.len() - j,
    {
        j += 1;
    }
    j
}

/// The number of rows that a maintenance pass deleted: the sum of what its
/// counted steps affected, where they succeeded; `usize::MAX` if the sum is
/// larger than that. `outcomes[i]` is the outcome of `steps[i]`: the number of
/// affected rows, or `None` if the step failed or was not run.
pub fn rows_deleted(steps: &Vec<MaintenanceStep>, outcomes: &Vec<Option<usize>>) -> (total: usize)
    ensures
        total == if rows_in(step_views(steps@), outcomes@, steps@.len()) <= usize::MAX {
            rows_in(step_views(steps@), outcomes@, steps@.len())
        } else {
            usize::MAX as nat
        },
{
    let mut total: usize = 0;
    let mut i: usize = 0;
    while i < steps.len()
        invariant
            i <= steps@.len(),
            total == if rows_in(step_views(steps@), outcomes@, i as nat) <= usize::MAX {
                rows_in(step_views(steps@), outcomes@, i as nat)
            } else {
                usize::MAX as nat
            },
        decreases steps@.len() - i,
    {
        let add: usize = if i < outcomes.len() && steps[i].counted {
            match outcomes[i] {
                Some(n) => n,
                None => 0,
            }
        } else {
            0
        };
        assert(add == rows_of(step_views(steps@), outcomes@, i as int));
        total = if total > usize::MAX - add {
            usize::MAX
        } else {
            total + add
        };
        i += 1;
    }
    total
}

impl PartitionManager {
    /// The statements that create, on every attached shard, an index on the
    /// key column for the table of every policy.
    pub fn ensure_shard_key_indices(&self) -> (plan: Vec<ShardStatement>)
        ensures
            plan_views(plan@) == index_plan(self@),
    {
        let mut plan: Vec<ShardStatement> = Vec::new();
        let key = match &self.config.key_column {
            Some(k) => k,
            None => {
                assert(plan_views(plan@) =~= Seq::<PlanView>::empty());
                return plan;
            },
        };
        let ghost per_alias = |a: Seq<char>| index_plan_for(a, self@.config.policies, key@);
        let mut i: usize = 0;
        assert(self@.attached.take(0).map_values(per_alias) =~= Seq::<Seq<PlanView>>::empty());
        assert(plan_views(plan@) =~= self@.attached.take(0).map_values(per_alias).flatten());
        while i < self.attached.len()
            invariant
                i <= self.attached@.len(),
                per_alias == |a: Seq<char>| index_plan_for(a, self@.config.policies, key@),
                plan_views(plan@) == self@.attached.take(i as int).map_values(per_alias).flatten(),
            decreases self.attached@.len() - i,
        {
            let ghost before = plan_views(plan@);
            let mut part = index_statements_for(
                self.attached[i].as_str(),
                &self.config.policies,
                key.as_str(),
            );
            let ghost added = plan_views(part@);
            plan.append(&mut part);
            proof {
                broadcast use Seq::lemma_flatten_push;

                let done = self@.attached.take(i as int).map_values(per_alias);
                assert(self@.attached.take(i + 1).map_values(per_alias) =~= done.push(
                    per_alias(self@.attached[i as int]),
                ));
                assert(plan_views(plan@) =~= before + added);
            }
            i += 1;
        }
        assert(self@.attached.take(self@.attached.len() as int) =~= self@.attached);
        plan
    }

    /// The probes that list the indexes of the table of every policy on
    /// every attached shard.
    pub fn index_probes(&self) -> (plan: Vec<IndexProbe>)
        ensures
            probe_views(plan@) == probe_plan(self@),
    {
        let mut plan: Vec<IndexProbe> = Vec::new();
        if self.config.key_column.is_none() {
            assert(probe_views(plan@) =~= Seq::<ProbeView>::empty());
            return plan;
        }
        let ghost per_alias = |a: Seq<char>| probes_for(a, self@.config.policies);
        let mut i: usize = 0;
        assert(self@.attached.take(0).map_values(per_alias) =~= Seq::<Seq<ProbeView>>::empty());
        assert(probe_views(plan@) =~= self@.attached.take(0).map_values(per_alias).flatten());
        while i < self.attached.len()
            invariant
                i <= self.attached@.len(),
                self@.config.key_column is Some,
                per_alias == |a: Seq<char>| probes_for(a, self@.config.policies),
                probe_views(plan@) == self@.attached.take(i as int).map_values(per_alias).flatten(),
            decreases self.attached@.len() - i,
        {
            let ghost before = probe_views(plan@);
            let mut part = probes_of(self.attached[i].as_str(), &self.config.policies);
            let ghost added = probe_views(part@);
            plan.append(&mut part);
            proof {
                broadcast use Seq::lemma_flatten_push;

                let done = self@.attached.take(i as int).map_values(per_alias);
                assert(self@.attached.take(i + 1).map_values(per_alias) =~= done.push(
                    per_alias(self@.attached[i as int]),
                ));
                assert(probe_views(plan@) =~= before + added);
            }
            i += 1;
        }
        assert(self@.attached.take(self@.attached.len() as int) =~= self@.attached);
        plan
    }

    /// The tables without an index on the key column, as `alias.table`, from
    /// what the probes found. Without a key column nothing is missing.
    pub fn verify_shard_key_indices(&self, findings: &Vec<IndexCoverage>) -> (missing: Vec<String>)
        ensures
            views(missing@) == if self@.config.key_column is Some {
                missing_in(coverage_views(findings@))
            } else {
                Seq::<Seq<char>>::empty()
            },
    {
        let mut missing: Vec<String> = Vec::new();
        if self.config.key_column.is_none() {
            assert(views(missing@) =~= Seq::<Seq<char>>::empty());
            return missing;
        }
        let mut i: usize = 0;
        assert(coverage_views(findings@).take(0) =~= Seq::<CoverageView>::empty());
        assert(views(missing@) =~= missing_in(coverage_views(findings@).take(0)));
        while i < findings.len()
            invariant
                i <= findings@.len(),
                views(missing@) == missing_in(coverage_views(findings@).take(i as int)),
            decreases findings@.len() - i,
        {
            let ghost before = views(missing@);
            proof {
                let t = coverage_views(findings@).take(i + 1);
                assert(t.drop_last() =~= coverage_views(findings@).take(i as int));
                assert(t.last() == findings@[i as int]@);
            }
            if !findings[i].covered {
                let mut entry = findings[i].alias.clone();
                entry.append(".");
                entry.append(findings[i].table.as_str());
                missing.push(entry);
                assert(views(missing@) =~= before.push(
                    findings@[i as int]@.alias + "."@ + findings@[i as int]@.table,
                ));
            }
            i += 1;
        }
        assert(coverage_views(findings@).take(findings@.len() as int) =~= coverage_views(
            findings@,
        ));
        missing
    }

    /// The steps of a maintenance pass: for each policy, its pruning
    /// statement on every attached shard and then, if the policy asks for
    /// indexes, the index statements. A failure does not end the pass:
    /// `step_after` says with which step it goes on.
    pub fn run_partition_maintenance(&self) -> (steps: Vec<MaintenanceStep>)
        ensures
            step_views(steps@) == maintenance_plan(self@),
    {
        let mut steps: Vec<MaintenanceStep> = Vec::new();
        let ghost per_policy = |p: PolicyView| steps_for(self@, p);
        let mut i: usize = 0;
        assert(self@.config.policies.take(0).map_values(per_policy) =~= Seq::<
            Seq<StepView>,
        >::empty());
        assert(step_views(steps@) =~= self@.config.policies.take(0).map_values(
            per_policy,
        ).flatten());
        while i < self.config.policies.len()
            invariant
                i <= self.config.policies@.len(),
                per_policy == |p: PolicyView| steps_for(self@, p),
                step_views(steps@) == self@.config.policies.take(i as int).map_values(
                    per_policy,
                ).flatten(),
            decreases self.config.policies@.len() - i,
        {
            let ghost before = step_views(steps@);
            let policy = &self.config.policies[i];
            let mut part: Vec<MaintenanceStep> = Vec::new();
            let mut a: usize = 0;
            while a < self.attached.len()
                invariant
                    a <= self.attached@.len(),
                    part@.len() == a,
                    forall|k: int|
                        0 <= k < a ==> (#[trigger] part@[k])@ == (StepView {
                            plan: PlanView {
                                alias: self.attached@[k]@,
                                sql: prune_sql(self.attached@[k]@, policy@),
                            },
                            counted: true,
                        }),
                decreases self.attached@.len() - a,
            {
                let alias = self.attached[a].clone();
                let sql = prune_statement(alias.as_str(), policy);
                part.push(
                    MaintenanceStep { statement: ShardStatement { alias, sql }, counted: true },
                );
                a += 1;
            }
            let ghost pruning = step_views(part@);
            assert(pruning =~= self@.attached.map_values(
                |a: Seq<char>|
                    StepView { plan: PlanView { alias: a, sql: prune_sql(a, policy@) }, counted: true },
            ));
            if policy.auto_indexing {
                let indexes = self.ensure_shard_key_indices();
                let mut j: usize = 0;
                while j < indexes.len()
                    invariant
                        j <= indexes@.len(),
                        part@.len() == pruning.len() + j,
                        forall|k: int| 0 <= k < pruning.len() ==> (#[trigger] part@[k])@ == pruning[k],
                        forall|k: int|
                            pruning.len() <= k < pruning.len() + j ==> (#[trigger] part@[k])@ == (
                            StepView { plan: indexes@[k - pruning.len()]@, counted: false }),
                    decreases indexes@.len() - j,
                {
                    part.push(MaintenanceStep { statement: indexes[j].clone(), counted: false });
                    j += 1;
                }
                assert(step_views(part@) =~= pruning + plan_views(indexes@).map_values(
                    |s: PlanView| StepView { plan: s, counted: false },
                ));
            } else {
                assert(step_views(part@) =~= pruning + Seq::<StepView>::empty());
            }
            assert(step_views(part@) == steps_for(self@, policy@));
            let ghost added = step_views(part@);
            steps.append(&mut part);
            proof {
                broadcast use Seq::lemma_flatten_push;

                let done = self@.config.policies.take(i as int).map_values(per_policy);
                assert(self@.config.policies.take(i + 1).map_values(per_policy) =~= done.push(
                    per_policy(self@.config.policies[i as int]),
                ));
                assert(step_views(steps@) =~= before + added);
            }
            i += 1;
        }
        assert(self@.config.policies.take(self@.config.policies.len() as int)
            =~= self@.config.policies);
        steps
    }
}

// ---------------------------------------------------------------------------
// Laws of shard selection
// ---------------------------------------------------------------------------
/// Under the hash and range strategies the alias that is selected for a key
/// depends on the strategy, the key and the number of shards alone, and a
/// selection leaves the state as it was: two selections with the same inputs
/// give the same alias.
pub proof fn law_keyed_selection_repeats(m1: ManagerView, m2: ManagerView, key: Seq<char>)
    requires
        m1.config.strategy == m2.config.strategy,
        m1.config.strategy != PartitionStrategy::RoundRobin,
        m1.config.shards.len() == m2.config.shards.len(),
    ensures
        selected_alias(m1, key) == selected_alias(m2, key),
        after_selection(m1) == m1,
        selected_alias(after_selection(m1), key) == selected_alias(m1, key),
{
}

/// The state after `k` selections.
pub open spec fn after_selections(m: ManagerView, k: nat) -> ManagerView
    decreases k,
{
    if k == 0 {
        m
    } else {
        after_selection(after_selections(m, (k - 1) as nat))
    }
}

/// The shard of the turn that follows `j` earlier ones, when the counter
/// stood at `start` and there are `n` shards.
pub open spec fn turn(start: nat, j: nat, n: nat) -> nat {
    (start + j) % n
}

/// Two turns of one round of `n` never fall on the same shard.
pub proof fn lemma_turns_differ(start: nat, j1: nat, j2: nat, n: nat)
    requires
        n > 0,
        j1 < j2 < n,
    ensures
        (start + j1) % n != (start + j2) % n,
{
    let a = (start + j1) as int;
    let b = (start + j2) as int;
    let d = n as int;
    vstd::arithmetic::div_mod::lemma_fundamental_div_mod(a, d);
    vstd::arithmetic::div_mod::lemma_fundamental_div_mod(b, d);
    if a % d == b % d {
        let q = b / d - a / d;
        assert(b - a == d * q) by (nonlinear_arith)
            requires
                a == d * (a / d) + a % d,
                b == d * (b / d) + b % d,
                a % d == b % d,
                q == b / d - a / d,
        ;
        assert(false) by (nonlinear_arith)
            requires
                b - a == d * q,
                0 < b - a < d,
        ;
    }
}

/// Different shards are attached under different aliases.
pub proof fn law_aliases_differ(i: nat, j: nat)
    requires
        i != j,
    ensures
        shard_alias(i) != shard_alias(j),
{
    crate::text::lemma_decimal_differs(i, j);
    let p = "shard_"@;
    if shard_alias(i) == shard_alias(j) {
        assert((p + decimal(i)).skip(p.len() as int) =~= decimal(i));
        assert((p + decimal(j)).skip(p.len() as int) =~= decimal(j));
    }
}

/// Under round robin the selections visit the shards in order, whatever the
/// key: the selection that follows `k` earlier ones gives the shard `k` places
/// after the counter, counted round the shards. So `n` selections in a row
/// visit each of the `n` shards once, and a new manager starts at the first.
pub proof fn law_round_robin_visits_in_order(m: ManagerView, k: nat, key: Seq<char>)
    requires
        m.config.strategy == PartitionStrategy::RoundRobin,
        m.config.shards.len() > 0,
        m.next < m.config.shards.len(),
    ensures
        after_selections(m, k).next == (m.next + k) % m.config.shards.len(),
        after_selections(m, k).config == m.config,
        selected_alias(after_selections(m, k), key) == shard_alias(
            (m.next + k) % m.config.shards.len(),
        ),
        forall|j: nat|
            j < k && k < m.config.shards.len() ==> shard_alias(
                #[trigger] turn(m.next, j, m.config.shards.len()),
            ) != shard_alias(turn(m.next, k, m.config.shards.len())),
    decreases k,
{
    let n = m.config.shards.len();
    if k == 0 {
        vstd::arithmetic::div_mod::lemma_small_mod(m.next, n);
    } else {
        law_round_robin_visits_in_order(m, (k - 1) as nat, key);
        let before = (m.next + k - 1) as int;
        vstd::arithmetic::div_mod::lemma_add_mod_noop(before, 1, n as int);
        if n > 1 {
            vstd::arithmetic::div_mod::lemma_small_mod(1, n);
        }
        vstd::arithmetic::div_mod::lemma_mod_twice(before, n as int);
        assert(((before % (n as int)) + 1) % (n as int) == (before + 1) % (n as int)) by {
            if n == 1 {
                assert((before % 1) == 0);
            }
        }
    }
    assert forall|j: nat| j < k && k < n implies shard_alias(#[trigger] turn(m.next, j, n))
        != shard_alias(turn(m.next, k, n)) by {
        lemma_turns_differ(m.next, j, k, n);
        law_aliases_differ(turn(m.next, j, n), turn(m.next, k, n));
    }
}

/// Nothing is reported missing exactly when every finding shows coverage:
/// once every table of every shard has an index on the key column, the
/// report is empty.
pub proof fn law_nothing_missing_when_covered(findings: Seq<CoverageView>)
    ensures
        missing_in(findings).len() == 0 <==> (forall|i: int|
            0 <= i < findings.len() ==> (#[trigger] findings[i]).covered),
    decreases findings.len(),
{
    if findings.len() > 0 {
        let before = findings.drop_last();
        law_nothing_missing_when_covered(before);
        if forall|i: int| 0 <= i < findings.len() ==> (#[trigger] findings[i]).covered {
            assert forall|i: int| 0 <= i < before.len() implies (#[trigger] before[i]).covered by {
                assert(before[i] == findings[i]);
            }
            assert(findings[findings.len() - 1].covered);
        }
        if missing_in(findings).len() == 0 {
            assert forall|i: int| 0 <= i < findings.len() implies (#[trigger] findings[i]).covered by {
                if i < before.len() {
                    assert(before[i] == findings[i]);
                }
            }
        }
    }
}

/// A statement that was rewritten for a shard is left alone when it is
/// rewritten for that shard again.
pub proof fn law_rewrite_for_shard_is_idempotent(sql: Seq<char>, i: nat)
    ensures
        qualified_from(qualified_from(sql, shard_alias(i)), shard_alias(i)) == qualified_from(
            sql,
            shard_alias(i),
        ),
{
    let alias = shard_alias(i);
    let delims = crate::rewrite::from_delims();
    reveal_strlit("shard_");
    crate::text::lemma_decimal_digits(i);
    assert forall|k: int| 0 <= k < alias.len() implies !delims.contains(#[trigger] alias[k]) by {
        let c = alias[k];
        if k < 6 {
            assert(c == "shard_"@[k]);
        } else {
            assert(c == decimal(i)[k - 6]);
            assert(crate::text::is_digit(c));
        }
        assert forall|j: int| 0 <= j < delims.len() implies delims[j] != c by {}
    }
    crate::rewrite::law_rewrite_is_idempotent(sql, alias);
}

/// The name that a row of `PRAGMA index_list` gives: its second cell, if
/// that is text.
pub open spec fn listed_index(row: Seq<JsonView>) -> Option<Seq<char>> {
    if row.len() > 1 {
        match row[1] {
            JsonView::Text(name) => Some(name),
            _ => None,
        }
    } else {
        None
    }
}

/// The names that the first `n` rows of `PRAGMA index_list` give, in order.
pub open spec fn listed_indexes(rows: Seq<Seq<JsonView>>, n: nat) -> Seq<Seq<char>>
    decreases n,
{
    if n == 0 || n > rows.len() {
        Seq::<Seq<char>>::empty()
    } else {
        let before = listed_indexes(rows, (n - 1) as nat);
        match listed_index(rows[n - 1]) {
            Some(name) => before.push(name),
            None => before,
        }
    }
}

/// A row of `PRAGMA index_info` names the column `key`: its third cell is
/// that text.
pub open spec fn names_column(row: Seq<JsonView>, key: Seq<char>) -> bool {
    row.len() > 2 && row[2] == JsonView::Text(key)
}

/// Some row of `PRAGMA index_info` names the column `key`.
pub open spec fn holds_column(rows: Seq<Seq<JsonView>>, key: Seq<char>) -> bool {
    exists|i: int| 0 <= i < rows.len() && names_column(#[trigger] rows[i], key)
}

/// Some of the indexes, each given by its rows of `PRAGMA index_info`, holds
/// the column `key`.
pub open spec fn covered_by(infos: Seq<QueryResult>, key: Seq<char>) -> bool {
    exists|i: int| 0 <= i < infos.len() && holds_column((#[trigger] infos[i])@.rows, key)
}

/// The names of the indexes that `PRAGMA index_list` returned.
pub fn index_names(list: &QueryResult) -> (names: Vec<String>)
    ensures
        views(names@) == listed_indexes(list@.rows, list@.rows.len()),
{
    let mut names: Vec<String> = Vec::new();
    let mut i: usize = 0;
    assert(views(names@) =~= Seq::<Seq<char>>::empty());
    while i < list.rows.len()
        invariant
            i <= list.rows@.len(),
            views(names@) == listed_indexes(list@.rows, i as nat),
        decreases list.rows@.len() - i,
    {
        let ghost had = views(names@);
        let row = &list.rows[i];
        assert(list@.rows[i as int] == json_views(row@));
        if row.len() > 1 {
            match &row[1] {
                JsonValue::Text(name) => {
                    names.push(name.clone());
                    assert(views(names@) =~= had.push(name@));
                },
                _ => {},
            }
        }
        i += 1;
    }
    names
}

/// Whether an index, given by its rows of `PRAGMA index_info`, holds the
/// column `key`.
pub fn index_holds_key(info: &QueryResult, key: &str) -> (b: bool)
    ensures
        b == holds_column(info@.rows, key@),
{
    let mut i: usize = 0;
    while i < info.rows.len()
        invariant
            i <= info.rows@.len(),
            forall|k: int| 0 <= k < i ==> !names_column(#[trigger] info@.rows[k], key@),
        decreases info.rows@.len() - i,
    {
        let row = &info.rows[i];
        assert(info@.rows[i as int] == json_views(row@));
        if row.len() > 2 {
            match &row[2] {
                JsonValue::Text(column) => {
                    if same_str(column.as_str(), key) {
                        assert(names_column(info@.rows[i as int], key@));
                        return true;
                    }
                },
                _ => {},
            }
        }
        i += 1;
    }
    false
}

impl IndexCoverage {
    /// What a probe found: the table is covered if some of its indexes,
    /// each given by its rows of `PRAGMA index_info`, holds the key column.
    pub fn from_probe(probe: &IndexProbe, infos: &Vec<QueryResult>, key: &str) -> (c: IndexCoverage)
        ensures
            c@ == (CoverageView {
                alias: probe.alias@,
                table: probe.table@,
                covered: covered_by(infos@, key@),
            }),
    {
        let mut covered = false;
        let mut i: usize = 0;
        while i < infos.len() && !covered
            invariant
                i <= infos@.len(),
                covered ==> covered_by(infos@, key@),
                !covered ==> forall|k: int|
                    0 <= k < i ==> !holds_column((#[trigger] infos@[k])@.rows, key@),
            decreases infos@.len() - i + (if covered { 0int } else { 1int }),
        {
            if index_holds_key(&infos[i], key) {
                covered = true;
            } else {
                i += 1;
            }
        }
        IndexCoverage { alias: probe.alias.clone(), table: probe.table.clone(), covered }
    }
}

} // verus!
