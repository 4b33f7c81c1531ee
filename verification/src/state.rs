//! The registry of logical connections: their descriptors and handles, the
//! transactions that are open on them, and the statistics of their queries.
//!
//! The registry is a plain value. Whoever shares it between threads puts it
//! behind a lock.

use vstd::prelude::*;
use crate::errors::prefixed;
use crate::text::same_str;

verus! {

/// The descriptor of a connection.
#[derive(Debug, PartialEq)]
pub struct DatabaseConnection {
    pub id: String,
    pub path: String,
    pub name: String,
    pub is_connected: bool,
    pub created_at: String,
}

/// A descriptor as mathematical data.
pub struct ConnectionView {
    pub id: Seq<char>,
    pub path: Seq<char>,
    pub name: Seq<char>,
    pub is_connected: bool,
    pub created_at: Seq<char>,
}

impl View for DatabaseConnection {
    type V = ConnectionView;

    open spec fn view(&self) -> ConnectionView {
        ConnectionView {
            id: self.id@,
            path: self.path@,
            name: self.name@,
            is_connected: self.is_connected,
            created_at: self.created_at@,
        }
    }
}

impl Clone for DatabaseConnection {
    fn clone(&self) -> (r: Self)
        ensures
            r@ == self@,
    {
        DatabaseConnection {
            id: self.id.clone(),
            path: self.path.clone(),
            name: self.name.clone(),
            is_connected: self.is_connected,
            created_at: self.created_at.clone(),
        }
    }
}

/// A transaction that is open on a connection.
#[derive(Debug, PartialEq)]
pub struct TransactionInfo {
    pub id: String,
    pub connection_id: String,
    /// Milliseconds since the Unix epoch.
    pub started_at: i64,
}

/// A transaction as mathematical data.
pub struct TransactionView {
    pub id: Seq<char>,
    pub connection_id: Seq<char>,
    pub started_at: i64,
}

impl View for TransactionInfo {
    type V = TransactionView;

    open spec fn view(&self) -> TransactionView {
        TransactionView {
            id: self.id@,
            connection_id: self.connection_id@,
            started_at: self.started_at,
        }
    }
}

impl Clone for TransactionInfo {
    fn clone(&self) -> (r: Self)
        ensures
            r@ == self@,
    {
        TransactionInfo {
            id: self.id.clone(),
            connection_id: self.connection_id.clone(),
            started_at: self.started_at,
        }
    }
}

/// The counters of the queries of one connection. Times are whole
/// milliseconds. The mean time and the hit rate are quotients of these
/// counters and are formed where they are shown.
#[derive(Debug, Clone, Copy, PartialEq, Eq, Structural)]
pub struct QueryStats {
    pub total_queries: u64,
    pub total_time_ms: u64,
    pub max_query_time_ms: u64,
    /// Zero as long as no query, or only queries of no measurable length, were recorded.
    pub min_query_time_ms: u64,
    pub cache_hits: u64,
    pub cache_misses: u64,
}

/// `a + b`, or the largest `u64` if that is smaller.
pub open spec fn capped_sum(a: u64, b: u64) -> u64 {
    if a + b <= u64::MAX {
        (a + b) as u64
    } else {
        u64::MAX
    }
}

/// The counters after one more query of `elapsed_ms` milliseconds. A minimum
/// of zero counts as not yet set, so the first query sets it.
pub open spec fn recorded(s: QueryStats, elapsed_ms: u64, cache_hit: bool) -> QueryStats {
    QueryStats {
        total_queries: capped_sum(s.total_queries, 1),
        total_time_ms: capped_sum(s.total_time_ms, elapsed_ms),
        max_query_time_ms: if elapsed_ms > s.max_query_time_ms {
            elapsed_ms
        } else {
            s.max_query_time_ms
        },
        min_query_time_ms: if s.min_query_time_ms == 0 || elapsed_ms < s.min_query_time_ms {
            elapsed_ms
        } else {
            s.min_query_time_ms
        },
        cache_hits: if cache_hit {
            capped_sum(s.cache_hits, 1)
        } else {
            s.cache_hits
        },
        cache_misses: if cache_hit {
            s.cache_misses
        } else {
            capped_sum(s.cache_misses, 1)
        },
    }
}

/// The counters of a connection on which nothing was recorded.
pub open spec fn no_stats() -> QueryStats {
    QueryStats {
        total_queries: 0,
        total_time_ms: 0,
        max_query_time_ms: 0,
        min_query_time_ms: 0,
        cache_hits: 0,
        cache_misses: 0,
    }
}

fn add_capped(a: u64, b: u64) -> (r: u64)
    ensures
        r == capped_sum(a, b),
{
    if a > u64::MAX - b {
        u64::MAX
    } else {
        a + b
    }
}

impl QueryStats {
    /// The mean time of a query as a fraction: the total time over the
    /// number of queries. Without queries there is no mean.
    pub fn mean_time(&self) -> (r: Option<(u64, u64)>)
        ensures
            r == if self.total_queries > 0 {
                Some((self.total_time_ms, self.total_queries))
            } else {
                None::<(u64, u64)>
            },
    {
        if self.total_queries > 0 {
            Some((self.total_time_ms, self.total_queries))
        } else {
            None
        }
    }

    /// The share of cache hits as a fraction: the hits over the hits and
    /// misses together. Without either there is no share.
    pub fn hit_share(&self) -> (r: Option<(u64, u64)>)
        ensures
            r == if self.cache_hits + self.cache_misses > 0 {
                Some((self.cache_hits, capped_sum(self.cache_hits, self.cache_misses)))
            } else {
                None::<(u64, u64)>
            },
    {
        if self.cache_hits > 0 || self.cache_misses > 0 {
            Some((self.cache_hits, add_capped(self.cache_hits, self.cache_misses)))
        } else {
            None
        }
    }

    /// Takes one more query in.
    pub fn record(&mut self, elapsed_ms: u64, cache_hit: bool)
        ensures
            *final(self) == recorded(*old(self), elapsed_ms, cache_hit),
    {
        self.total_queries = add_capped(self.total_queries, 1);
        self.total_time_ms = add_capped(self.total_time_ms, elapsed_ms);
        if cache_hit {
            self.cache_hits = add_capped(self.cache_hits, 1);
        } else {
            self.cache_misses = add_capped(self.cache_misses, 1);
        }
        if elapsed_ms > self.max_query_time_ms {
            self.max_query_time_ms = elapsed_ms;
        }
        if self.min_query_time_ms == 0 || elapsed_ms < self.min_query_time_ms {
            self.min_query_time_ms = elapsed_ms;
        }
    }
}

impl Default for QueryStats {
    fn default() -> (r: Self)
        ensures
            r == no_stats(),
    {
        QueryStats {
            total_queries: 0,
            total_time_ms: 0,
            max_query_time_ms: 0,
            min_query_time_ms: 0,
            cache_hits: 0,
            cache_misses: 0,
        }
    }
}

/// The first query on a connection leaves its length as the minimum.
pub proof fn law_first_query_sets_minimum(elapsed_ms: u64, cache_hit: bool)
    ensures
        recorded(no_stats(), elapsed_ms, cache_hit).min_query_time_ms == elapsed_ms,
        recorded(no_stats(), elapsed_ms, cache_hit).max_query_time_ms == elapsed_ms,
        recorded(no_stats(), elapsed_ms, cache_hit).total_queries == 1,
        recorded(no_stats(), elapsed_ms, cache_hit).total_time_ms == elapsed_ms,
{
}

/// The limits of a connection pool.
#[derive(Debug, Clone, Copy, PartialEq, Eq, Structural)]
pub struct PoolConfig {
    pub min_connections: u32,
    pub max_connections: u32,
    pub connection_timeout_ms: u64,
    pub idle_timeout_ms: u64,
}

impl Default for PoolConfig {
    fn default() -> (r: Self)
        ensures
            r == (PoolConfig {
                min_connections: 1,
                max_connections: 10,
                connection_timeout_ms: 5000,
                idle_timeout_ms: 60000,
            }),
    {
        PoolConfig {
            min_connections: 1,
            max_connections: 10,
            connection_timeout_ms: 5000,
            idle_timeout_ms: 60000,
        }
    }
}

// ---------------------------------------------------------------------------
// The registry
// ---------------------------------------------------------------------------
/// What the registry keeps of one connection.
pub struct ConnectionEntry<H> {
    pub connection: DatabaseConnection,
    pub handle: H,
    pub stats: QueryStats,
}

/// An entry as mathematical data.
pub struct EntryView<H> {
    pub connection: ConnectionView,
    pub handle: H,
    pub stats: QueryStats,
}

/// The views of the entries.
pub open spec fn entry_views<H>(v: Seq<ConnectionEntry<H>>) -> Seq<EntryView<H>> {
    Seq::new(
        v.len(),
        |i: int| EntryView { connection: v[i].connection@, handle: v[i].handle, stats: v[i].stats },
    )
}

/// The views of the transactions.
pub open spec fn transaction_views(v: Seq<TransactionInfo>) -> Seq<TransactionView> {
    Seq::new(v.len(), |i: int| v[i]@)
}

/// The registry as mathematical data: the connections in the order in which
/// they were added, and the open transactions in the order in which they began.
pub struct RegistryView<H> {
    pub entries: Seq<EntryView<H>>,
    pub transactions: Seq<TransactionView>,
}

/// The index of the connection `id`, if the registry holds it.
pub open spec fn connection_index<H>(entries: Seq<EntryView<H>>, id: Seq<char>) -> Option<int> {
    if exists|i: int| 0 <= i < entries.len() && (#[trigger] entries[i]).connection.id == id {
        Some(choose|i: int| 0 <= i < entries.len() && (#[trigger] entries[i]).connection.id == id)
    } else {
        None
    }
}

/// The index of the transaction `id`, if it is open.
pub open spec fn transaction_index(txs: Seq<TransactionView>, id: Seq<char>) -> Option<int> {
    if exists|i: int| 0 <= i < txs.len() && (#[trigger] txs[i]).id == id {
        Some(choose|i: int| 0 <= i < txs.len() && (#[trigger] txs[i]).id == id)
    } else {
        None
    }
}

/// The transactions that are not on the connection `id`, in their order.
pub open spec fn transactions_elsewhere(txs: Seq<TransactionView>, id: Seq<char>) -> Seq<
    TransactionView,
>
    decreases txs.len(),
{
    if txs.len() == 0 {
        Seq::<TransactionView>::empty()
    } else if txs.last().connection_id == id {
        transactions_elsewhere(txs.drop_last(), id)
    } else {
        transactions_elsewhere(txs.drop_last(), id).push(txs.last())
    }
}

/// The transactions that are on the connection `id`, in their order.
pub open spec fn transactions_on(txs: Seq<TransactionView>, id: Seq<char>) -> Seq<TransactionView>
    decreases txs.len(),
{
    if txs.len() == 0 {
        Seq::<TransactionView>::empty()
    } else if txs.last().connection_id == id {
        transactions_on(txs.drop_last(), id).push(txs.last())
    } else {
        transactions_on(txs.drop_last(), id)
    }
}

/// No two connections share an identifier, and no two transactions do.
pub open spec fn registry_wf<H>(r: RegistryView<H>) -> bool {
    &&& forall|i: int, j: int|
        0 <= i < j < r.entries.len() ==> r.entries[i].connection.id != r.entries[j].connection.id
    &&& forall|i: int, j: int|
        0 <= i < j < r.transactions.len() ==> r.transactions[i].id != r.transactions[j].id
}

/// What is left of the transactions elsewhere is a part of the transactions.
pub proof fn lemma_transactions_elsewhere(txs: Seq<TransactionView>, id: Seq<char>)
    ensures
        forall|k: int|
            0 <= k < transactions_elsewhere(txs, id).len() ==> exists|j: int|
                0 <= j < txs.len() && txs[j] == #[trigger] transactions_elsewhere(txs, id)[k],
        forall|a: int, b: int|
            0 <= a < b < transactions_elsewhere(txs, id).len() && (forall|i: int, j: int|
                0 <= i < j < txs.len() ==> txs[i].id != txs[j].id) ==> transactions_elsewhere(
                txs,
                id,
            )[a].id != transactions_elsewhere(txs, id)[b].id,
    decreases txs.len(),
{
    if txs.len() > 0 {
        let before = txs.drop_last();
        lemma_transactions_elsewhere(before, id);
        let e = transactions_elsewhere(txs, id);
        let eb = transactions_elsewhere(before, id);
        assert forall|k: int| 0 <= k < e.len() implies exists|j: int|
            0 <= j < txs.len() && txs[j] == #[trigger] e[k] by {
            if k < eb.len() {
                let j = choose|j: int| 0 <= j < before.len() && before[j] == eb[k];
                assert(txs[j] == e[k]);
            } else {
                assert(txs[txs.len() - 1] == e[k]);
            }
        }
        assert forall|a: int, b: int|
            0 <= a < b < e.len() && (forall|i: int, j: int|
                0 <= i < j < txs.len() ==> txs[i].id != txs[j].id) implies e[a].id != e[b].id by {
            assert forall|i: int, j: int| 0 <= i < j < before.len() implies before[i].id
                != before[j].id by {
                assert(txs[i].id != txs[j].id);
            }
            if b < eb.len() {
                assert(eb[a].id != eb[b].id);
            } else {
                let j = choose|j: int| 0 <= j < before.len() && before[j] == eb[a];
                assert(txs[j].id != txs[txs.len() - 1].id);
            }
        }
    }
}

/// The registry of logical connections. `H` is the handle that stands for
/// the open database of a connection.
pub struct AppState<H> {
    entries: Vec<ConnectionEntry<H>>,
    transactions: Vec<TransactionInfo>,
}

impl<H> View for AppState<H> {
    type V = RegistryView<H>;

    closed spec fn view(&self) -> RegistryView<H> {
        RegistryView {
            entries: entry_views(self.entries@),
            transactions: transaction_views(self.transactions@),
        }
    }
}

impl<H> AppState<H> {
    /// The position of the connection `id`.
    fn position(&self, id: &str) -> (r: Option<usize>)
        requires
            registry_wf(self@),
        ensures
            match r {
                Some(i) => i < self.entries@.len() && connection_index(self@.entries, id@) == Some(
                    i as int,
                ),
                None => connection_index(self@.entries, id@) is None,
            },
    {
        let mut i: usize = 0;
        while i < self.entries.len()
            invariant
                i <= self.entries@.len(),
                registry_wf(self@),
                forall|k: int| 0 <= k < i ==> (#[trigger] self@.entries[k]).connection.id != id@,
            decreases self.entries@.len() - i,
        {
            if same_str(self.entries[i].connection.id.as_str(), id) {
                proof {
                    assert(self@.entries[i as int].connection.id == id@);
                    let c = connection_index(self@.entries, id@)->0;
                    if c < i {
                        assert(self@.entries[c].connection.id != self@.entries[i as int].connection.id);
                    } else if i < c {
                        assert(self@.entries[i as int].connection.id != self@.entries[c].connection.id);
                    }
                }
                return Some(i);
            }
            i += 1;
        }
        None
    }

    /// The position of the transaction `id`.
    fn transaction_position(&self, id: &str) -> (r: Option<usize>)
        requires
            registry_wf(self@),
        ensures
            match r {
                Some(i) => i < self.transactions@.len() && transaction_index(
                    self@.transactions,
                    id@,
                ) == Some(i as int),
                None => transaction_index(self@.transactions, id@) is None,
            },
    {
        let mut i: usize = 0;
        while i < self.transactions.len()
            invariant
                i <= self.transactions@.len(),
                registry_wf(self@),
                forall|k: int| 0 <= k < i ==> (#[trigger] self@.transactions[k]).id != id@,
            decreases self.transactions@.len() - i,
        {
            if same_str(self.transactions[i].id.as_str(), id) {
                proof {
                    assert(self@.transactions[i as int].id == id@);
                    let c = transaction_index(self@.transactions, id@)->0;
                    if c < i {
                        assert(self@.transactions[c].id != self@.transactions[i as int].id);
                    } else if i < c {
                        assert(self@.transactions[i as int].id != self@.transactions[c].id);
                    }
                }
                return Some(i);
            }
            i += 1;
        }
        None
    }

    /// A registry without connections.
    pub fn new() -> (r: Self)
        ensures
            registry_wf(r@),
            r@.entries.len() == 0,
            r@.transactions.len() == 0,
    {
        AppState { entries: Vec::new(), transactions: Vec::new() }
    }

    /// Adds a connection with its handle and with fresh statistics. A
    /// connection whose identifier is taken is refused.
    pub fn add_connection(&mut self, connection: DatabaseConnection, db_handle: H) -> (r: Result<
        (),
        String,
    >)
        requires
            registry_wf(old(self)@),
        ensures
            registry_wf(final(self)@),
            connection_index(old(self)@.entries, connection@.id) is Some ==> (r is Err && final(self)@ == old(self)@),
            connection_index(old(self)@.entries, connection@.id) is None ==> (r is Ok && final(self)@ == (RegistryView {
                entries: old(self)@.entries.push(
                    EntryView { connection: connection@, handle: db_handle, stats: no_stats() },
                ),
                ..old(self)@
            })),
    {
        match self.position(connection.id.as_str()) {
            Some(_) => Err(prefixed("Connection already exists: ", connection.id.as_str())),
            None => {
                let ghost before = self@.entries;
                let ghost added = EntryView {
                    connection: connection@,
                    handle: db_handle,
                    stats: no_stats(),
                };
                self.entries.push(
                    ConnectionEntry { connection, handle: db_handle, stats: QueryStats::default() },
                );
                proof {
                    assert(self@.entries =~= before.push(added));
                    assert forall|i: int, j: int| 0 <= i < j < self@.entries.len() implies self@.entries[i].connection.id
                        != self@.entries[j].connection.id by {
                        if j == before.len() {
                            assert(before[i].connection.id != added.connection.id);
                        } else {
                            assert(before[i].connection.id != before[j].connection.id);
                        }
                    }
                }
                Ok(())
            },
        }
    }

    /// Removes a connection: its handle is dropped, its statistics are
    /// erased, and the transactions that were open on it are forgotten.
    pub fn remove_connection(&mut self, connection_id: &str) -> (r: Result<(), String>)
        requires
            registry_wf(old(self)@),
        ensures
            registry_wf(final(self)@),
            match connection_index(old(self)@.entries, connection_id@) {
                None => r is Err && final(self)@ == old(self)@,
                Some(i) => r is Ok && final(self)@ == (RegistryView {
                    entries: old(self)@.entries.remove(i),
                    transactions: transactions_elsewhere(old(self)@.transactions, connection_id@),
                }),
            },
    {
        match self.position(connection_id) {
            None => Err(prefixed("Connection not found: ", connection_id)),
            Some(i) => {
                let ghost before = self@.entries;
                let ghost txs = self@.transactions;
                self.entries.remove(i);
                proof {
                    assert(self@.entries =~= before.remove(i as int));
                    assert forall|a: int, b: int| 0 <= a < b < self@.entries.len() implies self@.entries[a].connection.id
                        != self@.entries[b].connection.id by {
                        let x = if a < i { a } else { a + 1 };
                        let y = if b < i { b } else { b + 1 };
                        assert(before[x].connection.id != before[y].connection.id);
                    }
                }
                let mut kept: Vec<TransactionInfo> = Vec::new();
                let mut k: usize = 0;
                assert(txs.take(0) =~= Seq::<TransactionView>::empty());
                while k < self.transactions.len()
                    invariant
                        k <= self.transactions@.len(),
                        transaction_views(self.transactions@) == txs,
                        transaction_views(kept@) == transactions_elsewhere(
                            txs.take(k as int),
                            connection_id@,
                        ),
                    decreases self.transactions@.len() - k,
                {
                    let ghost had = transaction_views(kept@);
                    proof {
                        let t = txs.take(k + 1);
                        assert(t.drop_last() =~= txs.take(k as int));
                        assert(t.last() == self.transactions@[k as int]@);
                    }
                    if !same_str(self.transactions[k].connection_id.as_str(), connection_id) {
                        kept.push(self.transactions[k].clone());
                        assert(transaction_views(kept@) =~= had.push(
                            self.transactions@[k as int]@,
                        ));
                    }
                    k += 1;
                }
                assert(txs.take(txs.len() as int) =~= txs);
                proof {
                    lemma_transactions_elsewhere(txs, connection_id@);
                }
                self.transactions = kept;
                Ok(())
            },
        }
    }

    /// The handle of a connection.
    pub fn get_db_handle(&self, connection_id: &str) -> (r: Option<&H>)
        requires
            registry_wf(self@),
        ensures
            match connection_index(self@.entries, connection_id@) {
                Some(i) => r matches Some(h) && *h == self@.entries[i].handle,
                None => r is None,
            },
    {
        match self.position(connection_id) {
            Some(i) => Some(&self.entries[i].handle),
            None => None,
        }
    }

    /// Whether the registry holds the connection.
    pub fn has_connection(&self, connection_id: &str) -> (b: bool)
        requires
            registry_wf(self@),
        ensures
            b == connection_index(self@.entries, connection_id@) is Some,
    {
        self.position(connection_id).is_some()
    }

    /// The descriptors of all connections, in the order in which they were added.
    pub fn get_connections(&self) -> (r: Vec<DatabaseConnection>)
        ensures
            r@.len() == self@.entries.len(),
            forall|i: int| 0 <= i < r@.len() ==> (#[trigger] r@[i])@ == self@.entries[i].connection,
    {
        let mut r: Vec<DatabaseConnection> = Vec::new();
        let mut i: usize = 0;
        while i < self.entries.len()
            invariant
                i <= self.entries@.len(),
                r@.len() == i,
                forall|k: int| 0 <= k < i ==> (#[trigger] r@[k])@ == self@.entries[k].connection,
            decreases self.entries@.len() - i,
        {
            r.push(self.entries[i].connection.clone());
            i += 1;
        }
        r
    }

    /// The descriptor of a connection.
    pub fn get_connection(&self, connection_id: &str) -> (r: Option<DatabaseConnection>)
        requires
            registry_wf(self@),
        ensures
            match connection_index(self@.entries, connection_id@) {
                Some(i) => r matches Some(c) && c@ == self@.entries[i].connection,
                None => r is None,
            },
    {
        match self.position(connection_id) {
            Some(i) => Some(self.entries[i].connection.clone()),
            None => None,
        }
    }

    /// Records that a transaction began on a connection at `started_at`
    /// (milliseconds since the Unix epoch). The connection must be known and
    /// the identifier of the transaction must be new.
    pub fn add_transaction(&mut self, connection_id: &str, transaction_id: &str, started_at: i64) -> (r:
        Result<(), String>)
        requires
            registry_wf(old(self)@),
        ensures
            registry_wf(final(self)@),
            connection_index(old(self)@.entries, connection_id@) is None || transaction_index(
                old(self)@.transactions,
                transaction_id@,
            ) is Some ==> (r is Err && final(self)@ == old(self)@),
            connection_index(old(self)@.entries, connection_id@) is Some && transaction_index(
                old(self)@.transactions,
                transaction_id@,
            ) is None ==> (r is Ok && final(self)@ == (RegistryView {
                transactions: old(self)@.transactions.push(
                    TransactionView {
                        id: transaction_id@,
                        connection_id: connection_id@,
                        started_at: started_at,
                    },
                ),
                ..old(self)@
            })),
    {
        if self.position(connection_id).is_none() {
            return Err(prefixed("Connection not found: ", connection_id));
        }
        if self.transaction_position(transaction_id).is_some() {
            return Err(prefixed("Transaction already exists: ", transaction_id));
        }
        let ghost before = self@.transactions;
        let t = TransactionInfo {
            id: transaction_id.to_string(),
            connection_id: connection_id.to_string(),
            started_at,
        };
        let ghost added = t@;
        self.transactions.push(t);
        proof {
            assert(self@.transactions =~= before.push(added));
            assert forall|i: int, j: int| 0 <= i < j < self@.transactions.len() implies self@.transactions[i].id
                != self@.transactions[j].id by {
                if j == before.len() {
                    assert(before[i].id != added.id);
                } else {
                    assert(before[i].id != before[j].id);
                }
            }
        }
        Ok(())
    }

    /// Forgets a transaction. It is an error if it is not open.
    pub fn remove_transaction(&mut self, transaction_id: &str) -> (r: Result<(), String>)
        requires
            registry_wf(old(self)@),
        ensures
            registry_wf(final(self)@),
            match transaction_index(old(self)@.transactions, transaction_id@) {
                None => r is Err && final(self)@ == old(self)@,
                Some(i) => r is Ok && final(self)@ == (RegistryView {
                    transactions: old(self)@.transactions.remove(i),
                    ..old(self)@
                }),
            },
    {
        match self.transaction_position(transaction_id) {
            None => Err(prefixed("Transaction not found: ", transaction_id)),
            Some(i) => {
                let ghost before = self@.transactions;
                self.transactions.remove(i);
                proof {
                    assert(self@.transactions =~= before.remove(i as int));
                    assert(self@.entries == old(self)@.entries);
                    assert forall|a: int, b: int| 0 <= a < b < self@.transactions.len() implies self@.transactions[a].id
                        != self@.transactions[b].id by {
                        let x = if a < i { a } else { a + 1 };
                        let y = if b < i { b } else { b + 1 };
                        assert(before[x].id != before[y].id);
                    }
                }
                Ok(())
            },
        }
    }

    /// An open transaction.
    pub fn get_transaction(&self, transaction_id: &str) -> (r: Option<TransactionInfo>)
        requires
            registry_wf(self@),
        ensures
            match transaction_index(self@.transactions, transaction_id@) {
                Some(i) => r matches Some(t) && t@ == self@.transactions[i],
                None => r is None,
            },
    {
        match self.transaction_position(transaction_id) {
            Some(i) => Some(self.transactions[i].clone()),
            None => None,
        }
    }

    /// The transactions that are open on a connection, in the order in which they began.
    pub fn get_transactions(&self, connection_id: &str) -> (r: Vec<TransactionInfo>)
        ensures
            transaction_views(r@) == transactions_on(self@.transactions, connection_id@),
    {
        let ghost txs = self@.transactions;
        let mut r: Vec<TransactionInfo> = Vec::new();
        let mut k: usize = 0;
        assert(txs.take(0) =~= Seq::<TransactionView>::empty());
        while k < self.transactions.len()
            invariant
                k <= self.transactions@.len(),
                transaction_views(self.transactions@) == txs,
                transaction_views(r@) == transactions_on(txs.take(k as int), connection_id@),
            decreases self.transactions@.len() - k,
        {
            let ghost had = transaction_views(r@);
            proof {
                let t = txs.take(k + 1);
                assert(t.drop_last() =~= txs.take(k as int));
                assert(t.last() == self.transactions@[k as int]@);
            }
            if same_str(self.transactions[k].connection_id.as_str(), connection_id) {
                r.push(self.transactions[k].clone());
                assert(transaction_views(r@) =~= had.push(self.transactions@[k as int]@));
            }
            k += 1;
        }
        assert(txs.take(txs.len() as int) =~= txs);
        r
    }

    /// The statistics of a connection; of an unknown connection, those of a
    /// connection on which nothing was recorded.
    pub fn get_query_stats(&self, connection_id: &str) -> (r: QueryStats)
        requires
            registry_wf(self@),
        ensures
            r == match connection_index(self@.entries, connection_id@) {
                Some(i) => self@.entries[i].stats,
                None => no_stats(),
            },
    {
        match self.position(connection_id) {
            Some(i) => self.entries[i].stats,
            None => QueryStats::default(),
        }
    }

    /// Takes one more query of a connection into its statistics. Nothing
    /// happens for an unknown connection.
    pub fn record_query(&mut self, connection_id: &str, execution_time_ms: u64, cache_hit: bool)
        requires
            registry_wf(old(self)@),
        ensures
            registry_wf(final(self)@),
            final(self)@ == match connection_index(old(self)@.entries, connection_id@) {
                Some(i) => RegistryView {
                    entries: old(self)@.entries.update(
                        i,
                        EntryView {
                            stats: recorded(
                                old(self)@.entries[i].stats,
                                execution_time_ms,
                                cache_hit,
                            ),
                            ..old(self)@.entries[i]
                        },
                    ),
                    ..old(self)@
                },
                None => old(self)@,
            },
    {
        match self.position(connection_id) {
            Some(i) => {
                let ghost before = self@.entries;
                let mut stats = self.entries[i].stats;
                stats.record(execution_time_ms, cache_hit);
                self.entries[i].stats = stats;
                proof {
                    assert(self@.entries =~= before.update(
                        i as int,
                        EntryView { stats: stats, ..before[i as int] },
                    ));
                    assert(self@.transactions == old(self)@.transactions);
                    assert forall|a: int, b: int| 0 <= a < b < self@.entries.len() implies self@.entries[a].connection.id
                        != self@.entries[b].connection.id by {
                        assert(before[a].connection.id != before[b].connection.id);
                    }
                }
            },
            None => {},
        }
    }

    /// Sets the statistics of a connection back to nothing recorded.
    pub fn reset_query_stats(&mut self, connection_id: &str)
        requires
            registry_wf(old(self)@),
        ensures
            registry_wf(final(self)@),
            final(self)@ == match connection_index(old(self)@.entries, connection_id@) {
                Some(i) => RegistryView {
                    entries: old(self)@.entries.update(
                        i,
                        EntryView { stats: no_stats(), ..old(self)@.entries[i] },
                    ),
                    ..old(self)@
                },
                None => old(self)@,
            },
    {
        match self.position(connection_id) {
            Some(i) => {
                let ghost before = self@.entries;
                self.entries[i].stats = QueryStats::default();
                proof {
                    assert(self@.entries =~= before.update(
                        i as int,
                        EntryView { stats: no_stats(), ..before[i as int] },
                    ));
                    assert(self@.transactions == old(self)@.transactions);
                    assert forall|a: int, b: int| 0 <= a < b < self@.entries.len() implies self@.entries[a].connection.id
                        != self@.entries[b].connection.id by {
                        assert(before[a].connection.id != before[b].connection.id);
                    }
                }
            },
            None => {},
        }
    }
}

} // verus!
