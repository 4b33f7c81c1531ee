use dbstudiox::commands::partition::{
    parse_strategy, partition_base, reported_policy, requested_config, requested_policy,
    CreatePartitionPolicyRequest, InitializePartitioningRequest,
};
use dbstudiox::commands::query::{explain_statement, result_columns, returns_rows};
use dbstudiox::commands::schema::{column_from_row, row_count};
use dbstudiox::commands::udf::{expression_probe, UdfInfo};
use dbstudiox::errors::AppError;
use dbstudiox::events::{ChangeAction, DataChangeEvent};
use dbstudiox::manager::{PartitionConfig, PartitionManager, PartitionStrategy};
use dbstudiox::state::{AppState, DatabaseConnection, PoolConfig, QueryStats};
use dbstudiox::values::{JsonValue, QueryResult};
use dbstudiox::wrapper::{
    foreign_key_list_statement, scalar_function_flags, table_info_statement, ColumnInfo, Database,
    ForeignKeyInfo, ForeignKeyRow, IndexInfo, TableInfoRow,
};

fn descriptor(id: &str) -> DatabaseConnection {
    DatabaseConnection {
        id: id.to_string(),
        path: format!("/tmp/{}.db", id),
        name: id.to_string(),
        is_connected: true,
        created_at: "now".to_string(),
    }
}

#[test]
fn connections_are_added_once() {
    let mut s: AppState<u32> = AppState::new();
    assert!(!s.has_connection("a"));
    assert!(s.add_connection(descriptor("a"), 1).is_ok());
    assert_eq!(s.add_connection(descriptor("a"), 2), Err("Connection already exists: a".to_string()));
    assert!(s.add_connection(descriptor("b"), 3).is_ok());
    assert!(s.has_connection("a"));
    assert_eq!(s.get_db_handle("a"), Some(&1));
    assert_eq!(s.get_db_handle("b"), Some(&3));
    assert_eq!(s.get_db_handle("c"), None);
    assert_eq!(s.get_connection("b"), Some(descriptor("b")));
    assert_eq!(s.get_connection("c"), None);
    assert_eq!(s.get_connections(), vec![descriptor("a"), descriptor("b")]);
    assert_eq!(s.get_query_stats("a"), QueryStats::default());
}

#[test]
fn removing_a_connection_forgets_what_belongs_to_it() {
    let mut s: AppState<u32> = AppState::new();
    s.add_connection(descriptor("a"), 1).unwrap();
    s.add_connection(descriptor("b"), 2).unwrap();
    s.add_transaction("a", "t1", 10).unwrap();
    s.add_transaction("b", "t2", 20).unwrap();
    s.add_transaction("a", "t3", 30).unwrap();
    s.record_query("a", 5, true);
    assert_eq!(s.remove_connection("zz"), Err("Connection not found: zz".to_string()));
    assert!(s.remove_connection("a").is_ok());
    assert!(!s.has_connection("a"));
    assert_eq!(s.get_db_handle("a"), None);
    assert!(s.get_transaction("t1").is_none());
    assert!(s.get_transaction("t3").is_none());
    assert_eq!(s.get_transaction("t2").unwrap().connection_id, "b");
    assert_eq!(s.get_query_stats("a"), QueryStats::default());
    assert_eq!(s.get_connections(), vec![descriptor("b")]);
}

#[test]
fn transactions_need_a_connection_and_a_new_id() {
    let mut s: AppState<()> = AppState::new();
    assert_eq!(s.add_transaction("a", "t", 0), Err("Connection not found: a".to_string()));
    s.add_connection(descriptor("a"), ()).unwrap();
    assert!(s.add_transaction("a", "t", 42).is_ok());
    assert_eq!(s.add_transaction("a", "t", 43), Err("Transaction already exists: t".to_string()));
    let t = s.get_transaction("t").unwrap();
    assert_eq!((t.id.as_str(), t.connection_id.as_str(), t.started_at), ("t", "a", 42));
    s.add_transaction("a", "u", 44).unwrap();
    let ids: Vec<String> = s.get_transactions("a").into_iter().map(|t| t.id).collect();
    assert_eq!(ids, vec!["t", "u"]);
    assert!(s.get_transactions("b").is_empty());
    assert_eq!(s.remove_transaction("x"), Err("Transaction not found: x".to_string()));
    assert!(s.remove_transaction("t").is_ok());
    assert!(s.get_transaction("t").is_none());
    assert!(s.get_transaction("u").is_some());
}

#[test]
fn first_query_sets_the_minimum() {
    let mut s: AppState<()> = AppState::new();
    s.add_connection(descriptor("a"), ()).unwrap();
    s.record_query("a", 12, false);
    let q = s.get_query_stats("a");
    assert_eq!(q.min_query_time_ms, 12);
    assert_eq!(q.max_query_time_ms, 12);
    assert_eq!(q.total_queries, 1);
    assert_eq!(q.total_time_ms, 12);
    assert_eq!((q.cache_hits, q.cache_misses), (0, 1));
}

#[test]
fn statistics_follow_the_queries() {
    let mut s: AppState<()> = AppState::new();
    s.add_connection(descriptor("a"), ()).unwrap();
    s.record_query("a", 10, true);
    s.record_query("a", 4, false);
    s.record_query("a", 30, true);
    s.record_query("missing", 1, true);
    let q = s.get_query_stats("a");
    assert_eq!(
        q,
        QueryStats {
            total_queries: 3,
            total_time_ms: 44,
            max_query_time_ms: 30,
            min_query_time_ms: 4,
            cache_hits: 2,
            cache_misses: 1
        }
    );
    s.record_query("a", 0, true);
    assert_eq!(s.get_query_stats("a").min_query_time_ms, 0);
    s.record_query("a", 9, true);
    assert_eq!(s.get_query_stats("a").min_query_time_ms, 9);
    assert_eq!(q.mean_time(), Some((44, 3)));
    assert_eq!(q.hit_share(), Some((2, 3)));
    assert_eq!(QueryStats::default().mean_time(), None);
    assert_eq!(QueryStats::default().hit_share(), None);
    s.reset_query_stats("a");
    assert_eq!(s.get_query_stats("a"), QueryStats::default());
    let mut big = QueryStats { total_time_ms: u64::MAX - 1, ..QueryStats::default() };
    big.record(5, true);
    assert_eq!(big.total_time_ms, u64::MAX);
    let p = PoolConfig::default();
    assert_eq!((p.min_connections, p.max_connections, p.connection_timeout_ms, p.idle_timeout_ms), (1, 10, 5000, 60000));
}

#[test]
fn database_state_is_remembered() {
    let mut db = Database::open("/tmp/x.db");
    assert_eq!(db.get_path(), "/tmp/x.db");
    assert!(db.get_partition_manager().is_none());
    assert!(db.get_registered_functions().is_empty());
    db.create_scalar_function("studio_version");
    db.create_scalar_function("studio_echo");
    db.create_scalar_function("studio_version");
    assert_eq!(db.get_registered_functions(), vec!["studio_version", "studio_echo"]);
    let m = PartitionManager::new(PartitionConfig::new(PartitionStrategy::RoundRobin, vec!["main".to_string()])).unwrap();
    db.set_partition_manager(m);
    assert_eq!(db.get_partition_manager().unwrap().get_config().shards, vec!["main"]);
    let taken = db.take_partition_manager();
    assert!(taken.is_some());
    assert!(db.get_partition_manager().is_none());
    assert_eq!(scalar_function_flags(true), 0x801);
    assert_eq!(scalar_function_flags(false), 0x1);
}

#[test]
fn schema_rows_are_put_together() {
    assert_eq!(table_info_statement("users"), "PRAGMA table_info(users)");
    assert_eq!(foreign_key_list_statement("users"), "PRAGMA foreign_key_list(users)");
    let fks = vec![
        ForeignKeyRow { table: "teams".to_string(), from: "team_id".to_string(), to: "id".to_string() },
        ForeignKeyRow { table: "other".to_string(), from: "team_id".to_string(), to: "x".to_string() },
    ];
    let row = |name: &str, nn: i64, pk: i64| TableInfoRow {
        name: name.to_string(),
        data_type: "INTEGER".to_string(),
        not_null: nn,
        default_value: None,
        primary_key: pk,
    };
    assert_eq!(
        ColumnInfo::from_row(row("team_id", 1, 0), &fks),
        ColumnInfo {
            name: "team_id".to_string(),
            data_type: "INTEGER".to_string(),
            not_null: true,
            primary_key: false,
            default_value: None,
            foreign_key: Some(ForeignKeyInfo { table: "teams".to_string(), column: "id".to_string() }),
        }
    );
    let plain = ColumnInfo::from_row(row("id", 0, 2), &fks);
    assert_eq!((plain.not_null, plain.primary_key, plain.foreign_key), (false, true, None));
    let t = dbstudiox::wrapper::TableInfo::from_rows(
        "users".to_string(),
        Some("CREATE TABLE users(id, team_id)".to_string()),
        vec![row("id", 1, 1), row("team_id", 0, 0)],
        &fks,
    );
    assert_eq!(t.name, "users");
    assert_eq!(t.columns.len(), 2);
    assert_eq!((t.columns[0].name.as_str(), t.columns[0].primary_key, t.columns[0].foreign_key.is_none()), ("id", true, true));
    assert_eq!(t.columns[1].foreign_key.as_ref().map(|f| f.table.as_str()), Some("teams"));
    let idx = IndexInfo::from_row("i".to_string(), "t".to_string(), Some("CREATE UNIQUE INDEX i ON t(a)".to_string()));
    assert!(idx.unique && idx.columns.is_empty());
    assert!(!IndexInfo::from_row("i".to_string(), "t".to_string(), Some("CREATE INDEX i ON t(a)".to_string())).unique);
    assert!(!IndexInfo::from_row("i".to_string(), "t".to_string(), None).unique);
}

#[test]
fn partition_requests_are_converted() {
    assert_eq!(parse_strategy("hash"), Some(PartitionStrategy::Hash));
    assert_eq!(parse_strategy("range"), Some(PartitionStrategy::Range));
    assert_eq!(parse_strategy("round_robin"), Some(PartitionStrategy::RoundRobin));
    assert_eq!(parse_strategy("Hash"), None);
    let request = InitializePartitioningRequest {
        strategy: "hash".to_string(),
        shards: vec!["a".to_string()],
        key_column: Some("id".to_string()),
    };
    let c = requested_config(request).unwrap();
    assert_eq!((c.strategy, c.shards.len(), c.key_column.as_deref()), (PartitionStrategy::Hash, 1, Some("id")));
    let bad = InitializePartitioningRequest { strategy: "x".to_string(), shards: Vec::new(), key_column: None };
    assert!(matches!(requested_config(bad), Err(AppError::CommandError(_))));
    let p = requested_policy(&CreatePartitionPolicyRequest {
        table_name: "logs".to_string(),
        date_column: "ts".to_string(),
        partition_interval: "daily".to_string(),
        retention_days: 7,
    });
    assert_eq!((p.table_name.as_str(), p.interval.as_str(), p.retention, p.auto_indexing), ("logs", "daily", 7, true));
    let r = reported_policy(&p);
    assert_eq!((r.id.as_str(), r.retention_days, r.created_at.as_str()), ("logs", 7, ""));
    assert_eq!(partition_base("users_p0"), Some("users".to_string()));
    assert_eq!(partition_base("a_p1_p23"), Some("a_p1".to_string()));
    assert_eq!(partition_base("users_px"), None);
    assert_eq!(partition_base("users"), None);
    assert_eq!(partition_base("users_p"), Some("users".to_string()));
}

#[test]
fn statements_are_classified() {
    for sql in ["SELECT 1", "  select 1", "PRAGMA x", "explain query plan select 1"] {
        assert!(returns_rows(sql), "{}", sql);
    }
    for sql in ["INSERT INTO t VALUES (1)", "", "WITH x AS (SELECT 1) SELECT * FROM x"] {
        assert!(!returns_rows(sql), "{}", sql);
    }
    assert_eq!(explain_statement("SELECT 1"), "EXPLAIN QUERY PLAN SELECT 1");
    assert_eq!(expression_probe("$1 + 1"), "SELECT $1 + 1");
    let u = UdfInfo::from_name("f".to_string());
    assert_eq!((u.name.as_str(), u.arg_count, u.deterministic, u.description), ("f", -1, true, None));
    let r = QueryResult {
        columns: vec!["a".to_string(), "b".to_string()],
        column_types: vec!["TEXT".to_string(), "INT".to_string()],
        rows: vec![vec![JsonValue::Integer(7)]],
    };
    let cols = result_columns(&r);
    assert_eq!(cols.len(), 2);
    assert_eq!((cols[1].name.as_str(), cols[1].data_type.as_str()), ("b", "INT"));
    assert_eq!(row_count(&r), 7);
    assert_eq!(row_count(&QueryResult::empty()), 0);
}

#[test]
fn reported_columns_come_from_table_info() {
    let t = |s: &str| JsonValue::Text(s.to_string());
    let row = vec![JsonValue::Integer(0), t("id"), t("INTEGER"), JsonValue::Integer(1), JsonValue::Null, JsonValue::Integer(1)];
    let c = column_from_row(&row).unwrap();
    assert_eq!((c.name.as_str(), c.column_type.as_str(), c.nullable, c.primary_key, c.default_value), ("id", "INTEGER", false, true, None));
    let row = vec![JsonValue::Integer(1), t("n"), JsonValue::Null, JsonValue::Integer(0), t("'x'"), JsonValue::Integer(0)];
    let c = column_from_row(&row).unwrap();
    assert_eq!((c.column_type.as_str(), c.nullable, c.primary_key, c.default_value.as_deref()), ("TEXT", true, false, Some("'x'")));
    assert!(column_from_row(&vec![JsonValue::Null; 5]).is_none());
    assert!(column_from_row(&vec![JsonValue::Null; 6]).is_none());
}

#[test]
fn change_events_name_the_operation() {
    let e = DataChangeEvent::new(ChangeAction::Update, "users", 9, "t".to_string());
    assert_eq!((e.table.as_str(), e.operation.as_str(), e.rowid, e.timestamp.as_str()), ("users", "UPDATE", 9, "t"));
    assert_eq!(DataChangeEvent::new(ChangeAction::Insert, "u", 1, String::new()).operation, "INSERT");
    assert_eq!(DataChangeEvent::new(ChangeAction::Delete, "u", 1, String::new()).operation, "DELETE");
    assert_eq!(DataChangeEvent::new(ChangeAction::Unknown, "u", 1, String::new()).operation, "UNKNOWN");
}
