use dbstudiox::errors::Sqlite3xError;
use dbstudiox::index_strategy::GlobalIndexManager;
use dbstudiox::manager::{
    index_info_statement, index_names, rows_deleted, IndexCoverage, PartitionConfig,
    PartitionManager, PartitionPolicy, PartitionStrategy, ShardStatement,
};
use dbstudiox::state::{AppState, DatabaseConnection};
use dbstudiox::values::{merge_results, JsonValue, QueryResult, SqlValue};
use dbstudiox::wrapper::Database;
use std::hash::{Hash, Hasher};

fn query(conn: &rusqlite::Connection, sql: &str) -> Result<QueryResult, String> {
    let mut stmt = conn.prepare(sql).map_err(|e| e.to_string())?;
    let n = stmt.column_count();
    let columns: Vec<String> = (0..n).map(|i| stmt.column_name(i).unwrap_or("?").to_string()).collect();
    let mut raw: Vec<Vec<SqlValue>> = Vec::new();
    let mut rows = stmt.query([]).map_err(|e| e.to_string())?;
    while let Some(row) = rows.next().map_err(|e| e.to_string())? {
        let mut cells = Vec::new();
        for i in 0..n {
            cells.push(match row.get_ref(i).map_err(|e| e.to_string())? {
                rusqlite::types::ValueRef::Null => SqlValue::Null,
                rusqlite::types::ValueRef::Integer(v) => SqlValue::Integer(v),
                rusqlite::types::ValueRef::Real(v) => SqlValue::Real(v.to_bits()),
                rusqlite::types::ValueRef::Text(v) => SqlValue::Text(String::from_utf8_lossy(v).to_string()),
                rusqlite::types::ValueRef::Blob(v) => SqlValue::Blob(v.to_vec()),
            });
        }
        raw.push(cells);
    }
    Ok(QueryResult::from_rows(columns, raw))
}

fn run_query(conn: &rusqlite::Connection, plan: &[ShardStatement]) -> QueryResult {
    merge_results(plan.iter().map(|s| query(conn, &s.sql).unwrap()).collect())
}

fn setup(strategy: PartitionStrategy, n: usize, key: Option<&str>, schema: &str) -> (rusqlite::Connection, PartitionManager) {
    let conn = rusqlite::Connection::open_in_memory().unwrap();
    let mut config = PartitionConfig::new(strategy, (0..n).map(|_| ":memory:".to_string()).collect());
    config.key_column = key.map(|k| k.to_string());
    let mut m = PartitionManager::new(config).unwrap();
    let mut done = 0;
    for st in m.initialize_shards() {
        conn.execute(&st.sql, []).unwrap();
        conn.execute_batch(&schema.replace("{}", &st.alias)).unwrap();
        done += 1;
    }
    m.confirm_attached(done);
    (conn, m)
}

fn count(conn: &rusqlite::Connection, table: &str) -> i64 {
    conn.query_row(&format!("SELECT COUNT(*) FROM {}", table), [], |r| r.get(0)).unwrap()
}

#[test]
fn round_robin_read_fans_out() {
    let (conn, mut m) = setup(PartitionStrategy::RoundRobin, 3, None, "CREATE TABLE {}.t(id INT, name TEXT)");
    conn.execute_batch(
        "INSERT INTO shard_0.t VALUES (1,'a'); INSERT INTO shard_1.t VALUES (2,'b'); INSERT INTO shard_2.t VALUES (3,'c');",
    )
    .unwrap();
    let plan = m.query_partitioned("SELECT * FROM t").unwrap();
    let r = run_query(&conn, &plan);
    assert_eq!(r.columns, vec!["id", "name"]);
    assert_eq!(r.column_types, vec!["TEXT", "TEXT"]);
    assert_eq!(
        r.rows,
        vec![
            vec![JsonValue::Integer(1), JsonValue::Text("a".to_string())],
            vec![JsonValue::Integer(2), JsonValue::Text("b".to_string())],
            vec![JsonValue::Integer(3), JsonValue::Text("c".to_string())],
        ]
    );
}

#[test]
fn hash_routed_write_lands_on_one_shard() {
    let (conn, mut m) = setup(PartitionStrategy::Hash, 2, Some("user_id"), "CREATE TABLE {}.events(user_id INT, kind TEXT)");
    let st = m.execute_partitioned("INSERT INTO events (user_id, kind) VALUES (42, 'click')").unwrap();
    assert_eq!(conn.execute(&st.sql, []).unwrap(), 1);
    let mut h = std::collections::hash_map::DefaultHasher::new();
    "42".hash(&mut h);
    let slot = (h.finish() as usize) % 2;
    assert_eq!(st.alias, format!("shard_{}", slot));
    assert_eq!(count(&conn, &format!("shard_{}.events", slot)), 1);
    assert_eq!(count(&conn, &format!("shard_{}.events", 1 - slot)), 0);
    let plan = m.query_partitioned("SELECT kind FROM events WHERE user_id = 42").unwrap();
    assert_eq!(run_query(&conn, &plan).rows, vec![vec![JsonValue::Text("click".to_string())]]);
}

#[test]
fn duplicate_value_is_refused_across_shards() {
    let (conn, m) = setup(PartitionStrategy::Range, 2, Some("id"), "CREATE TABLE {}.users(id INT, email TEXT)");
    conn.execute("INSERT INTO shard_0.users VALUES (2, 'x@y')", []).unwrap();
    let mut g = GlobalIndexManager::new(m);
    let plan = g.check_global_uniqueness("users", "email", "x@y").unwrap();
    let counts = run_query(&conn, &plan);
    let sql = "INSERT INTO users (id,email) VALUES (7,'x@y')";
    assert!(matches!(
        g.unique_insert_partitioned(sql, "email", "x@y", &counts),
        Err(Sqlite3xError::GlobalUniquenessViolation(_))
    ));
    assert_eq!(count(&conn, "shard_0.users"), 1);
    assert_eq!(count(&conn, "shard_1.users"), 0);
    let plan = g.check_global_uniqueness("users", "email", "new@y").unwrap();
    let counts = run_query(&conn, &plan);
    let st = g
        .unique_insert_partitioned("INSERT INTO users (id,email) VALUES (7,'new@y')", "email", "new@y", &counts)
        .unwrap();
    conn.execute(&st.sql, []).unwrap();
    assert_eq!(count(&conn, "shard_1.users"), 1);
}

#[test]
fn retention_prunes_old_rows_on_every_shard() {
    let (conn, mut m) = setup(PartitionStrategy::Hash, 2, Some("k"), "CREATE TABLE {}.logs(k INT, ts TEXT)");
    for alias in ["shard_0", "shard_1"] {
        for d in 1..=10 {
            conn.execute(&format!("INSERT INTO {}.logs VALUES ({}, date('now', '-{} days'))", alias, d, d), []).unwrap();
        }
    }
    m.create_partition_policy(PartitionPolicy {
        table_name: "logs".to_string(),
        date_column: "ts".to_string(),
        interval: "days".to_string(),
        retention: 7,
        auto_indexing: true,
    })
    .unwrap();
    let steps = m.run_partition_maintenance();
    let outcomes: Vec<Option<usize>> = steps.iter().map(|s| conn.execute(&s.statement.sql, []).ok()).collect();
    assert_eq!(rows_deleted(&steps, &outcomes), 6);
    assert_eq!(count(&conn, "shard_0.logs"), 7);
    assert_eq!(count(&conn, "shard_1.logs"), 7);
}

fn coverage(conn: &rusqlite::Connection, m: &PartitionManager, key: &str) -> Vec<IndexCoverage> {
    m.index_probes()
        .into_iter()
        .map(|p| {
            let list = query(conn, &p.sql).unwrap();
            let infos: Vec<QueryResult> = index_names(&list)
                .iter()
                .map(|name| query(conn, &index_info_statement(&p.alias, name)).unwrap())
                .collect();
            IndexCoverage::from_probe(&p, &infos, key)
        })
        .collect()
}

#[test]
fn indexes_that_were_ensured_are_found() {
    let (conn, mut m) = setup(PartitionStrategy::Hash, 2, Some("k"), "CREATE TABLE {}.logs(k INT, ts TEXT)");
    m.create_partition_policy(PartitionPolicy {
        table_name: "logs".to_string(),
        date_column: "ts".to_string(),
        interval: "daily".to_string(),
        retention: 7,
        auto_indexing: false,
    })
    .unwrap();
    assert_eq!(m.verify_shard_key_indices(&coverage(&conn, &m, "k")), vec!["shard_0.logs", "shard_1.logs"]);
    for st in m.ensure_shard_key_indices() {
        conn.execute(&st.sql, []).unwrap();
    }
    assert!(m.verify_shard_key_indices(&coverage(&conn, &m, "k")).is_empty());
}

#[test]
fn rejected_statement_reaches_no_shard() {
    let (conn, mut m) = setup(PartitionStrategy::Hash, 1, Some("id"), "CREATE TABLE {}.users(id INT)");
    assert!(matches!(m.execute_partitioned("DROP TABLE users; --"), Err(Sqlite3xError::InvalidSql(_))));
    assert_eq!(count(&conn, "shard_0.users"), 0);
}

fn descriptor(id: &str) -> DatabaseConnection {
    DatabaseConnection {
        id: id.to_string(),
        path: ":memory:".to_string(),
        name: "Memory DB".to_string(),
        is_connected: true,
        created_at: "2024-01-01T00:00:00Z".to_string(),
    }
}

#[test]
fn rollback_leaves_no_trace() {
    let mut state: AppState<rusqlite::Connection> = AppState::new();
    state.add_connection(descriptor("test-conn"), rusqlite::Connection::open_in_memory().unwrap()).unwrap();
    {
        let db = state.get_db_handle("test-conn").unwrap();
        db.execute("BEGIN", []).unwrap();
        db.execute("CREATE TABLE test (id INTEGER PRIMARY KEY, name TEXT)", []).unwrap();
        db.execute("INSERT INTO test (name) VALUES ('test_val')", []).unwrap();
    }
    state.add_transaction("test-conn", "test-tx", 0).unwrap();
    let tx = state.get_transaction("test-tx").unwrap();
    state.get_db_handle(&tx.connection_id).unwrap().execute("ROLLBACK", []).unwrap();
    state.remove_transaction("test-tx").unwrap();
    assert!(state.get_transaction("test-tx").is_none());
    assert!(state.get_db_handle("test-conn").unwrap().prepare("SELECT * FROM test").is_err());
}

#[test]
fn commit_is_seen_by_a_new_connection() {
    let path = "file:dbstudiox_commit_visibility?mode=memory&cache=shared";
    let mut state: AppState<rusqlite::Connection> = AppState::new();
    let conn = rusqlite::Connection::open(path).unwrap();
    conn.execute("CREATE TABLE test (id INTEGER PRIMARY KEY, name TEXT)", []).unwrap();
    state.add_connection(descriptor("c"), conn).unwrap();
    state.get_db_handle("c").unwrap().execute("BEGIN TRANSACTION", []).unwrap();
    state.add_transaction("c", "t", 5).unwrap();
    assert!(state.get_transaction("t").is_some());
    state.get_db_handle("c").unwrap().execute("INSERT INTO test (name) VALUES ('foo')", []).unwrap();
    state.get_db_handle("c").unwrap().execute("COMMIT", []).unwrap();
    state.remove_transaction("t").unwrap();
    assert!(state.get_transaction("t").is_none());
    let other = rusqlite::Connection::open(path).unwrap();
    assert_eq!(count(&other, "test"), 1);
    drop(other);
    state.remove_connection("c").unwrap();
}

#[test]
fn attach_statement_runs() {
    let conn = rusqlite::Connection::open_in_memory().unwrap();
    let db = Database::open(":memory:");
    let sql = db.attach_database_for_partition("shard_0", ":memory:").unwrap();
    assert_eq!(sql, "ATTACH DATABASE ':memory:' AS shard_0");
    conn.execute(&sql, []).unwrap();
    let list = query(&conn, dbstudiox::wrapper::DATABASE_LIST).unwrap();
    assert_eq!(list.rows.len(), 2);
    assert_eq!(list.rows[1][1], JsonValue::Text("shard_0".to_string()));
    assert!(matches!(
        db.attach_database_for_partition("bad alias", ":memory:"),
        Err(Sqlite3xError::InvalidSql(_))
    ));
    conn.execute_batch(dbstudiox::wrapper::OPEN_PRAGMAS).unwrap();
}
