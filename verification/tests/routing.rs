use dbstudiox::errors::Sqlite3xError;
use dbstudiox::manager::{
    alias_of, index_holds_key, index_names, rows_deleted, step_after, IndexCoverage, IndexProbe,
    MaintenanceStep, PartitionConfig, PartitionManager, PartitionPolicy, PartitionStrategy,
    ShardStatement,
};
use dbstudiox::values::{JsonValue, QueryResult};
use dbstudiox::rewrite::{
    modify_insert_for_shard, modify_sql_for_shard, modify_update_for_shard, rewrite_for_shard,
};
use dbstudiox::sql_parser::StatementType;
use std::hash::{Hash, Hasher};

fn shards(n: usize) -> Vec<String> {
    (0..n).map(|i| format!("/tmp/shard_{}.db", i)).collect()
}

fn manager(strategy: PartitionStrategy, n: usize, key: Option<&str>) -> PartitionManager {
    let mut config = PartitionConfig::new(strategy, shards(n));
    config.key_column = key.map(|k| k.to_string());
    let mut m = PartitionManager::new(config).unwrap();
    m.confirm_attached(n);
    m
}

fn std_hash(key: &str) -> u64 {
    let mut h = std::collections::hash_map::DefaultHasher::new();
    key.hash(&mut h);
    h.finish()
}

#[test]
fn empty_shard_list_is_refused() {
    let config = PartitionConfig::new(PartitionStrategy::RoundRobin, Vec::new());
    assert!(matches!(config.validate(), Err(Sqlite3xError::ShardingPolicyViolation(_))));
    assert!(matches!(
        PartitionManager::new(config),
        Err(Sqlite3xError::ShardingPolicyViolation(_))
    ));
}

#[test]
fn keyed_strategy_needs_a_key_column() {
    for strategy in [PartitionStrategy::Hash, PartitionStrategy::Range] {
        let config = PartitionConfig::new(strategy, shards(2));
        assert!(matches!(config.validate(), Err(Sqlite3xError::ShardingPolicyViolation(_))));
        assert!(matches!(
            PartitionManager::new(config),
            Err(Sqlite3xError::ShardingPolicyViolation(_))
        ));
        let mut config = PartitionConfig::new(strategy, shards(2));
        config.key_column = Some("id".to_string());
        assert!(config.validate().is_ok());
    }
    assert!(PartitionConfig::new(PartitionStrategy::RoundRobin, shards(1)).validate().is_ok());
}

#[test]
fn two_policies_for_one_table_are_refused() {
    let mut config = PartitionConfig::new(PartitionStrategy::RoundRobin, shards(1));
    for _ in 0..2 {
        config.policies.push(PartitionPolicy {
            table_name: "logs".to_string(),
            date_column: "ts".to_string(),
            interval: "daily".to_string(),
            retention: 7,
            auto_indexing: false,
        });
    }
    assert!(matches!(config.validate(), Err(Sqlite3xError::ShardingPolicyViolation(_))));
}

#[test]
fn new_config_has_no_key_and_no_policy() {
    let c = PartitionConfig::new(PartitionStrategy::Hash, shards(3));
    assert_eq!(c.strategy, PartitionStrategy::Hash);
    assert_eq!(c.shards, shards(3));
    assert_eq!(c.key_column, None);
    assert!(c.policies.is_empty());
    let d = c.clone();
    assert_eq!(c, d);
}

#[test]
fn aliases_are_numbered() {
    assert_eq!(alias_of(0), "shard_0");
    assert_eq!(alias_of(7), "shard_7");
    assert_eq!(alias_of(10), "shard_10");
    assert_eq!(alias_of(1234567890), "shard_1234567890");
}

#[test]
fn hash_selection_follows_the_default_hasher() {
    for n in [1usize, 2, 3, 7] {
        let mut m = manager(PartitionStrategy::Hash, n, Some("user_id"));
        for key in ["42", "", "abc", "x@y", "héllo"] {
            let want = format!("shard_{}", (std_hash(key) as usize) % n);
            assert_eq!(m.select_shard(key).unwrap(), want);
            assert_eq!(m.select_shard(key).unwrap(), want);
        }
    }
}

#[test]
fn range_selection_goes_by_magnitude() {
    let mut m = manager(PartitionStrategy::Range, 4, Some("id"));
    assert_eq!(m.select_shard("0").unwrap(), "shard_0");
    assert_eq!(m.select_shard("5").unwrap(), "shard_1");
    assert_eq!(m.select_shard("-6").unwrap(), "shard_2");
    assert_eq!(m.select_shard("+7").unwrap(), "shard_3");
    assert_eq!(m.select_shard("0042").unwrap(), "shard_2");
    assert_eq!(m.select_shard("9223372036854775807").unwrap(), "shard_3");
    assert_eq!(m.select_shard("-9223372036854775808").unwrap(), "shard_0");
}

#[test]
fn range_selection_falls_back_to_the_hash() {
    let mut m = manager(PartitionStrategy::Range, 5, Some("id"));
    for key in ["abc", "", "-", "+", "1.5", "9223372036854775808", "-9223372036854775809", "1 "] {
        let want = format!("shard_{}", (std_hash(key) as usize) % 5);
        assert_eq!(m.select_shard(key).unwrap(), want, "{:?}", key);
    }
}

#[test]
fn round_robin_visits_every_shard_in_order() {
    let mut m = manager(PartitionStrategy::RoundRobin, 3, None);
    let mut seen = Vec::new();
    for _ in 0..7 {
        seen.push(m.select_shard("whatever").unwrap());
    }
    assert_eq!(
        seen,
        vec!["shard_0", "shard_1", "shard_2", "shard_0", "shard_1", "shard_2", "shard_0"]
    );
}

#[test]
fn from_is_qualified() {
    assert_eq!(modify_sql_for_shard("SELECT * FROM t", "shard_1"), "SELECT * FROM shard_1.t");
    assert_eq!(
        modify_sql_for_shard("select a from users where id = 1", "shard_0"),
        "select a from shard_0.users where id = 1"
    );
    assert_eq!(
        modify_sql_for_shard("DELETE FROM logs;", "shard_2"),
        "DELETE FROM shard_2.logs;"
    );
    assert_eq!(
        modify_sql_for_shard("SELECT * FROM a, b", "s"),
        "SELECT * FROM s.a, b"
    );
}

#[test]
fn qualified_reference_is_left_alone() {
    for sql in ["SELECT * FROM shard_1.t", "SELECT * FROM main.t WHERE a = 1", "SELECT 1"] {
        assert_eq!(modify_sql_for_shard(sql, "shard_0"), sql);
    }
    let once = modify_sql_for_shard("SELECT * FROM t WHERE a = 1", "shard_0");
    assert_eq!(modify_sql_for_shard(&once, "shard_0"), once);
    assert_eq!(modify_sql_for_shard("SELECT * FROM  t", "shard_0"), "SELECT * FROM  t");
}

#[test]
fn insert_and_update_are_qualified() {
    assert_eq!(
        modify_insert_for_shard("INSERT INTO events (a) VALUES (1)", "shard_1"),
        "INSERT INTO shard_1.events (a) VALUES (1)"
    );
    assert_eq!(
        modify_insert_for_shard("insert into t(a) values (1)", "shard_0"),
        "insert into shard_0.t(a) values (1)"
    );
    assert_eq!(
        modify_update_for_shard("  UPDATE users SET a = 1 WHERE id = 2", "shard_3"),
        "  UPDATE shard_3.users SET a = 1 WHERE id = 2"
    );
    assert_eq!(modify_update_for_shard("SELECT 1", "shard_3"), "SELECT 1");
    assert_eq!(
        rewrite_for_shard(StatementType::Delete, "DELETE FROM t WHERE a = 1", "shard_0"),
        "DELETE FROM shard_0.t WHERE a = 1"
    );
    assert_eq!(
        rewrite_for_shard(StatementType::Insert, "INSERT INTO t VALUES (1)", "shard_0"),
        "INSERT INTO shard_0.t VALUES (1)"
    );
    assert_eq!(
        rewrite_for_shard(StatementType::Update, "UPDATE t SET a = 1", "shard_0"),
        "UPDATE shard_0.t SET a = 1"
    );
    assert_eq!(
        rewrite_for_shard(StatementType::Select, "SELECT * FROM t", "shard_0"),
        "SELECT * FROM shard_0.t"
    );
}

#[test]
fn shards_are_attached_in_order() {
    let config = PartitionConfig::new(PartitionStrategy::RoundRobin, shards(2));
    let mut m = PartitionManager::new(config).unwrap();
    let plan = m.initialize_shards();
    assert_eq!(
        plan,
        vec![
            ShardStatement {
                alias: "shard_0".to_string(),
                sql: "ATTACH DATABASE '/tmp/shard_0.db' AS shard_0".to_string()
            },
            ShardStatement {
                alias: "shard_1".to_string(),
                sql: "ATTACH DATABASE '/tmp/shard_1.db' AS shard_1".to_string()
            },
        ]
    );
    assert_eq!(m.get_shard("shard_0"), None);
    m.confirm_attached(1);
    assert_eq!(m.get_shard("shard_0"), Some(0));
    assert_eq!(m.get_shard("shard_1"), None);
    m.confirm_attached(5);
    assert_eq!(m.get_shard("shard_1"), Some(1));
    assert_eq!(m.get_shard("shard_2"), None);
    m.confirm_attached(0);
    assert_eq!(m.get_shard("shard_1"), Some(1));
}

#[test]
fn select_without_key_fans_out() {
    let mut m = manager(PartitionStrategy::RoundRobin, 3, None);
    let plan = m.query_partitioned("SELECT * FROM t").unwrap();
    let want: Vec<ShardStatement> = (0..3)
        .map(|i| ShardStatement {
            alias: format!("shard_{}", i),
            sql: format!("SELECT * FROM shard_{}.t", i),
        })
        .collect();
    assert_eq!(plan, want);
    let again = m.query_partitioned("  SELECT * FROM t  ").unwrap();
    assert_eq!(again.len(), 3);
    assert_eq!(again[0].sql, "  SELECT * FROM shard_0.t  ");
}

#[test]
fn select_with_key_goes_to_one_shard() {
    let mut m = manager(PartitionStrategy::Hash, 2, Some("user_id"));
    let plan = m.query_partitioned("SELECT * FROM events WHERE user_id = 42").unwrap();
    let slot = (std_hash("42") as usize) % 2;
    assert_eq!(
        plan,
        vec![ShardStatement {
            alias: format!("shard_{}", slot),
            sql: format!("SELECT * FROM shard_{}.events WHERE user_id = 42", slot),
        }]
    );
    let all = m.query_partitioned("SELECT * FROM events WHERE kind = 'x'").unwrap();
    assert_eq!(all.len(), 2);
}

#[test]
fn select_for_a_shard_that_is_not_attached_goes_nowhere() {
    let mut config = PartitionConfig::new(PartitionStrategy::Range, shards(3));
    config.key_column = Some("id".to_string());
    let mut m = PartitionManager::new(config).unwrap();
    m.confirm_attached(1);
    assert!(m.query_partitioned("SELECT * FROM t WHERE id = 2").unwrap().is_empty());
    assert_eq!(m.query_partitioned("SELECT * FROM t WHERE id = 3").unwrap().len(), 1);
}

#[test]
fn query_rejects_what_is_not_a_select() {
    let mut m = manager(PartitionStrategy::RoundRobin, 2, None);
    for sql in ["DROP TABLE users; --", "INSERT INTO t VALUES (1)", "SELECT 1", ""] {
        assert!(matches!(m.query_partitioned(sql), Err(Sqlite3xError::InvalidSql(_))), "{}", sql);
    }
}

#[test]
fn many_statements_pass_through_the_cache() {
    let mut m = manager(PartitionStrategy::RoundRobin, 1, None);
    for i in 0..1200 {
        let sql = format!("SELECT * FROM t WHERE a = {}", i);
        assert_eq!(m.query_partitioned(&sql).unwrap()[0].sql, format!("SELECT * FROM shard_0.t WHERE a = {}", i));
    }
    for i in [0, 5, 1199, 600] {
        let sql = format!("SELECT * FROM t WHERE a = {}", i);
        assert_eq!(m.query_partitioned(&sql).unwrap().len(), 1);
        assert_eq!(m.query_partitioned(&sql).unwrap().len(), 1);
    }
}

#[test]
fn write_is_pinned_to_the_shard_of_its_key() {
    let mut m = manager(PartitionStrategy::Hash, 2, Some("user_id"));
    let st = m
        .execute_partitioned("INSERT INTO events (user_id, kind) VALUES (42, 'click')")
        .unwrap();
    let slot = (std_hash("42") as usize) % 2;
    assert_eq!(st.alias, format!("shard_{}", slot));
    assert_eq!(
        st.sql,
        format!("INSERT INTO shard_{}.events (user_id, kind) VALUES (42, 'click')", slot)
    );
    let st = m.execute_partitioned("UPDATE events SET kind = 'x' WHERE user_id = 42").unwrap();
    assert_eq!(st.sql, format!("UPDATE shard_{}.events SET kind = 'x' WHERE user_id = 42", slot));
    let st = m.execute_partitioned("DELETE FROM events WHERE user_id = 42").unwrap();
    assert_eq!(st.sql, format!("DELETE FROM shard_{}.events WHERE user_id = 42", slot));
}

#[test]
fn write_errors_are_told_apart() {
    let mut m = manager(PartitionStrategy::Range, 2, Some("id"));
    assert!(matches!(
        m.execute_partitioned("DROP TABLE users; --"),
        Err(Sqlite3xError::InvalidSql(_))
    ));
    assert!(matches!(
        m.execute_partitioned("SELECT * FROM t WHERE id = 1"),
        Err(Sqlite3xError::Query(_))
    ));
    assert!(matches!(
        m.execute_partitioned("INSERT INTO t (id) VALUE (1)"),
        Err(Sqlite3xError::InvalidSql(_))
    ));
    assert!(matches!(
        m.execute_partitioned("INSERT INTO t (other) VALUES (1)"),
        Err(Sqlite3xError::PartitionKeyNotFound(_))
    ));
    assert!(matches!(
        m.execute_partitioned("DELETE FROM t"),
        Err(Sqlite3xError::PartitionKeyNotFound(_))
    ));
    let mut plain = manager(PartitionStrategy::RoundRobin, 2, None);
    assert!(matches!(
        plain.execute_partitioned("INSERT INTO t (id) VALUES (1)"),
        Err(Sqlite3xError::Query(_))
    ));
    let mut config = PartitionConfig::new(PartitionStrategy::Range, shards(3));
    config.key_column = Some("id".to_string());
    let mut partly = PartitionManager::new(config).unwrap();
    partly.confirm_attached(1);
    assert!(matches!(
        partly.execute_partitioned("INSERT INTO t (id) VALUES (2)"),
        Err(Sqlite3xError::ShardNotFound(_))
    ));
    assert_eq!(partly.execute_partitioned("INSERT INTO t (id) VALUES (3)").unwrap().alias, "shard_0");
}

fn policy(table: &str, auto_indexing: bool) -> PartitionPolicy {
    PartitionPolicy {
        table_name: table.to_string(),
        date_column: "ts".to_string(),
        interval: "daily".to_string(),
        retention: 7,
        auto_indexing,
    }
}

#[test]
fn policies_are_created_and_deleted() {
    let mut m = manager(PartitionStrategy::RoundRobin, 1, None);
    assert!(m.create_partition_policy(policy("logs", false)).is_ok());
    assert!(matches!(
        m.create_partition_policy(policy("logs", true)),
        Err(Sqlite3xError::Query(_))
    ));
    assert!(m.create_partition_policy(policy("events", true)).is_ok());
    assert_eq!(m.get_config().policies.len(), 2);
    assert_eq!(m.get_config().policies[0], policy("logs", false));
    assert!(matches!(m.delete_partition_policy("missing"), Err(Sqlite3xError::Query(_))));
    assert!(m.delete_partition_policy("logs").is_ok());
    assert_eq!(m.get_config().policies, vec![policy("events", true)]);
    assert!(matches!(m.delete_partition_policy("logs"), Err(Sqlite3xError::Query(_))));
}

#[test]
fn index_statements_cover_every_shard_and_policy() {
    let mut m = manager(PartitionStrategy::Hash, 2, Some("user_id"));
    m.create_partition_policy(policy("logs", false)).unwrap();
    m.create_partition_policy(policy("events", false)).unwrap();
    let plan = m.ensure_shard_key_indices();
    let sqls: Vec<&str> = plan.iter().map(|s| s.sql.as_str()).collect();
    assert_eq!(
        sqls,
        vec![
            "CREATE INDEX IF NOT EXISTS shard_0.idx_logs_user_id_shardkey ON logs(user_id)",
            "CREATE INDEX IF NOT EXISTS shard_0.idx_events_user_id_shardkey ON events(user_id)",
            "CREATE INDEX IF NOT EXISTS shard_1.idx_logs_user_id_shardkey ON logs(user_id)",
            "CREATE INDEX IF NOT EXISTS shard_1.idx_events_user_id_shardkey ON events(user_id)",
        ]
    );
    assert_eq!(plan[2].alias, "shard_1");
    let probes = m.index_probes();
    assert_eq!(probes.len(), 4);
    assert_eq!(probes[1].sql, "PRAGMA shard_0.index_list(events)");
    assert_eq!(probes[1].table, "events");
    assert_eq!(probes[3].alias, "shard_1");
    let mut plain = manager(PartitionStrategy::RoundRobin, 2, None);
    plain.create_partition_policy(policy("logs", false)).unwrap();
    assert!(plain.ensure_shard_key_indices().is_empty());
    assert!(plain.index_probes().is_empty());
}

#[test]
fn missing_indexes_are_reported() {
    let m = manager(PartitionStrategy::Hash, 2, Some("user_id"));
    let findings = vec![
        IndexCoverage { alias: "shard_0".to_string(), table: "logs".to_string(), covered: true },
        IndexCoverage { alias: "shard_1".to_string(), table: "logs".to_string(), covered: false },
        IndexCoverage { alias: "shard_1".to_string(), table: "ev".to_string(), covered: false },
    ];
    assert_eq!(m.verify_shard_key_indices(&findings), vec!["shard_1.logs", "shard_1.ev"]);
    let plain = manager(PartitionStrategy::RoundRobin, 2, None);
    assert!(plain.verify_shard_key_indices(&findings).is_empty());
    assert!(m.verify_shard_key_indices(&Vec::new()).is_empty());
}

#[test]
fn maintenance_prunes_then_indexes() {
    let mut m = manager(PartitionStrategy::Hash, 2, Some("k"));
    m.create_partition_policy(policy("logs", true)).unwrap();
    m.create_partition_policy(policy("ev", false)).unwrap();
    let steps = m.run_partition_maintenance();
    let got: Vec<(String, bool)> = steps.iter().map(|s| (s.statement.sql.clone(), s.counted)).collect();
    let want: Vec<(String, bool)> = vec![
        ("DELETE FROM shard_0.logs WHERE ts < date('now', '-7 daily')".to_string(), true),
        ("DELETE FROM shard_1.logs WHERE ts < date('now', '-7 daily')".to_string(), true),
        ("CREATE INDEX IF NOT EXISTS shard_0.idx_logs_k_shardkey ON logs(k)".to_string(), false),
        ("CREATE INDEX IF NOT EXISTS shard_0.idx_ev_k_shardkey ON ev(k)".to_string(), false),
        ("CREATE INDEX IF NOT EXISTS shard_1.idx_logs_k_shardkey ON logs(k)".to_string(), false),
        ("CREATE INDEX IF NOT EXISTS shard_1.idx_ev_k_shardkey ON ev(k)".to_string(), false),
        ("DELETE FROM shard_0.ev WHERE ts < date('now', '-7 daily')".to_string(), true),
        ("DELETE FROM shard_1.ev WHERE ts < date('now', '-7 daily')".to_string(), true),
    ];
    assert_eq!(got, want);
}

#[test]
fn deleted_rows_are_summed_over_counted_steps() {
    let step = |counted: bool| MaintenanceStep {
        statement: ShardStatement { alias: "shard_0".to_string(), sql: "x".to_string() },
        counted,
    };
    let steps = vec![step(true), step(false), step(true), step(true), step(true)];
    assert_eq!(rows_deleted(&steps, &vec![Some(3), Some(100), None, Some(4)]), 7);
    assert_eq!(rows_deleted(&steps, &Vec::new()), 0);
    assert_eq!(rows_deleted(&Vec::new(), &vec![Some(3)]), 0);
    assert_eq!(
        rows_deleted(&steps, &vec![Some(usize::MAX), None, Some(1), Some(2), Some(3)]),
        usize::MAX
    );
}

fn rows(rows: Vec<Vec<JsonValue>>) -> QueryResult {
    QueryResult { columns: Vec::new(), column_types: Vec::new(), rows }
}

#[test]
fn coverage_is_read_from_the_index_rows() {
    let t = |s: &str| JsonValue::Text(s.to_string());
    let list = rows(vec![
        vec![JsonValue::Integer(0), t("idx_a"), JsonValue::Integer(0)],
        vec![JsonValue::Integer(1), JsonValue::Null],
        vec![JsonValue::Integer(2)],
        vec![JsonValue::Integer(3), t("idx_b")],
    ]);
    assert_eq!(index_names(&list), vec!["idx_a", "idx_b"]);
    let on_k = rows(vec![vec![JsonValue::Integer(0), JsonValue::Integer(1), t("other")], vec![JsonValue::Integer(1), JsonValue::Integer(0), t("k")]]);
    let on_other = rows(vec![vec![JsonValue::Integer(0), JsonValue::Integer(1), t("other")], vec![t("k"), t("k")]]);
    assert!(index_holds_key(&on_k, "k"));
    assert!(!index_holds_key(&on_other, "k"));
    assert!(!index_holds_key(&on_k, "K"));
    assert!(!index_holds_key(&rows(Vec::new()), "k"));
    let probe = IndexProbe { alias: "shard_0".to_string(), table: "logs".to_string(), sql: String::new() };
    let found = IndexCoverage::from_probe(&probe, &vec![on_other.clone(), on_k.clone()], "k");
    assert_eq!(found, IndexCoverage { alias: "shard_0".to_string(), table: "logs".to_string(), covered: true });
    assert!(!IndexCoverage::from_probe(&probe, &vec![on_other], "k").covered);
    assert!(!IndexCoverage::from_probe(&probe, &Vec::new(), "k").covered);
}

#[test]
fn a_failed_index_step_ends_its_group() {
    let step = |counted: bool| MaintenanceStep {
        statement: ShardStatement { alias: "shard_0".to_string(), sql: "x".to_string() },
        counted,
    };
    let steps = vec![step(true), step(false), step(false), step(false), step(true), step(false)];
    assert_eq!(step_after(&steps, 0, true), 1);
    assert_eq!(step_after(&steps, 0, false), 1);
    assert_eq!(step_after(&steps, 1, true), 2);
    assert_eq!(step_after(&steps, 1, false), 4);
    assert_eq!(step_after(&steps, 3, false), 4);
    assert_eq!(step_after(&steps, 4, false), 5);
    assert_eq!(step_after(&steps, 5, false), 6);
    assert_eq!(step_after(&steps, 5, true), 6);
    assert_eq!(step_after(&steps, 9, true), 6);
    assert_eq!(step_after(&Vec::new(), 0, true), 0);
}
