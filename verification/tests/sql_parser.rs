use dbstudiox::errors::Sqlite3xError;
use dbstudiox::sql_parser::{SqlParser, StatementType};

#[test]
fn insert_with_columns_is_recognised() {
    let p = SqlParser::new();
    let st = p
        .parse_insert("INSERT INTO events (user_id, kind) VALUES (42, 'click')")
        .unwrap();
    assert_eq!(st.statement_type, StatementType::Insert);
    assert_eq!(st.table_name, "events");
    assert_eq!(st.columns, vec!["user_id".to_string(), "kind".to_string()]);
    assert_eq!(st.values, vec!["42".to_string(), "'click'".to_string()]);
    assert_eq!(st.where_clause, None);
    assert_eq!(st.set_clause, None);
}

#[test]
fn insert_without_columns_is_recognised() {
    let p = SqlParser::new();
    let st = p.parse_insert("  insert into t values ( 1 , 'a' ) ").unwrap();
    assert_eq!(st.table_name, "t");
    assert!(st.columns.is_empty());
    assert_eq!(st.values, vec!["1".to_string(), "'a'".to_string()]);
}

#[test]
fn insert_table_name_may_touch_the_parenthesis() {
    let p = SqlParser::new();
    let st = p.parse_insert("INSERT INTO t(a,b) VALUES(1,2)").unwrap();
    assert_eq!(st.table_name, "t");
    assert_eq!(st.columns, vec!["a".to_string(), "b".to_string()]);
    assert_eq!(st.values, vec!["1".to_string(), "2".to_string()]);
}

#[test]
fn insert_rejects_missing_values() {
    let p = SqlParser::new();
    assert!(matches!(
        p.parse_insert("INSERT INTO t (a) VALUE (1)"),
        Err(Sqlite3xError::InvalidSql(_))
    ));
    assert!(matches!(
        p.parse_insert("INSERT INTO t (a VALUES 1"),
        Err(Sqlite3xError::InvalidSql(_))
    ));
    assert!(matches!(p.parse_insert("INSERT INTO t"), Err(Sqlite3xError::InvalidSql(_))));
}

#[test]
fn insert_rejects_invalid_identifiers() {
    let p = SqlParser::new();
    assert!(matches!(
        p.parse_insert("INSERT INTO 1t (a) VALUES (1)"),
        Err(Sqlite3xError::InvalidSql(_))
    ));
    assert!(matches!(
        p.parse_insert("INSERT INTO t (a b) VALUES (1)"),
        Err(Sqlite3xError::InvalidSql(_))
    ));
}

#[test]
fn update_with_where_is_recognised() {
    let p = SqlParser::new();
    let st = p.parse_update("UPDATE users SET name = 'x', age = 3 WHERE id = 7").unwrap();
    assert_eq!(st.statement_type, StatementType::Update);
    assert_eq!(st.table_name, "users");
    assert_eq!(st.set_clause.as_deref(), Some("name = 'x', age = 3"));
    assert_eq!(st.where_clause.as_deref(), Some("id = 7"));
}

#[test]
fn update_without_where_is_recognised() {
    let p = SqlParser::new();
    let st = p.parse_update("update users set name = 'x'").unwrap();
    assert_eq!(st.set_clause.as_deref(), Some("name = 'x'"));
    assert_eq!(st.where_clause, None);
}

#[test]
fn update_rejects_missing_set() {
    let p = SqlParser::new();
    assert!(matches!(
        p.parse_update("UPDATE users name = 'x'"),
        Err(Sqlite3xError::InvalidSql(_))
    ));
}

#[test]
fn delete_is_recognised() {
    let p = SqlParser::new();
    let st = p.parse_delete("DELETE FROM logs WHERE ts < 5").unwrap();
    assert_eq!(st.statement_type, StatementType::Delete);
    assert_eq!(st.table_name, "logs");
    assert_eq!(st.where_clause.as_deref(), Some("ts < 5"));
    let st = p.parse_delete("DELETE FROM logs").unwrap();
    assert_eq!(st.table_name, "logs");
    assert_eq!(st.where_clause, None);
    let st = p.parse_delete("DELETE FROM logs;").unwrap();
    assert_eq!(st.table_name, "logs");
    assert_eq!(st.where_clause, None);
}

#[test]
fn select_is_recognised() {
    let p = SqlParser::new();
    let st = p.parse_select("SELECT * FROM t").unwrap();
    assert_eq!(st.statement_type, StatementType::Select);
    assert_eq!(st.table_name, "t");
    assert_eq!(st.where_clause, None);
    let st = p.parse_select("SELECT * FROM test_table;").unwrap();
    assert_eq!(st.table_name, "test_table");
    let st = p
        .parse_select("select a, b from t where user_id = 42 and b > 1 order by a limit 3")
        .unwrap();
    assert_eq!(st.table_name, "t");
    assert_eq!(st.where_clause.as_deref(), Some("user_id = 42 and b > 1"));
}

#[test]
fn select_predicate_ends_at_the_nearest_clause() {
    let p = SqlParser::new();
    let st = p.parse_select("SELECT a FROM t WHERE x = 1 GROUP BY a ORDER BY a").unwrap();
    assert_eq!(st.where_clause.as_deref(), Some("x = 1"));
    let st = p.parse_select("SELECT a FROM t WHERE x = 1 LIMIT 5").unwrap();
    assert_eq!(st.where_clause.as_deref(), Some("x = 1"));
    let st = p.parse_select("SELECT a FROM t WHERE x = 1 ORDER BY a GROUP BY b").unwrap();
    assert_eq!(st.where_clause.as_deref(), Some("x = 1"));
}

#[test]
fn select_rejects_missing_from() {
    let p = SqlParser::new();
    assert!(matches!(p.parse_select("SELECT 1"), Err(Sqlite3xError::InvalidSql(_))));
}

#[test]
fn admission_rejects_other_statements() {
    let p = SqlParser::new();
    assert!(matches!(
        p.detect_sql_injection_patterns("DROP TABLE users; --"),
        Err(Sqlite3xError::InvalidSql(_))
    ));
    assert!(matches!(
        p.detect_sql_injection_patterns("PRAGMA table_info(t)"),
        Err(Sqlite3xError::InvalidSql(_))
    ));
    assert!(matches!(p.detect_sql_injection_patterns(""), Err(Sqlite3xError::InvalidSql(_))));
}

#[test]
fn admission_rejects_ddl_keywords() {
    let p = SqlParser::new();
    for sql in [
        "SELECT 1; DROP TABLE t",
        "select 1; alter table t add c",
        "SELECT 1; CREATE TABLE t(a)",
        "DELETE FROM t; truncate t",
    ] {
        assert!(matches!(
            p.detect_sql_injection_patterns(sql),
            Err(Sqlite3xError::InvalidSql(_))
        ));
    }
}

#[test]
fn admission_rejects_comments() {
    let p = SqlParser::new();
    for sql in ["SELECT 1 -- x", "SELECT /* x", "SELECT x */ FROM t"] {
        assert!(matches!(
            p.detect_sql_injection_patterns(sql),
            Err(Sqlite3xError::InvalidSql(_))
        ));
    }
}

#[test]
fn admission_rejects_a_second_select() {
    let p = SqlParser::new();
    assert!(matches!(
        p.detect_sql_injection_patterns("SELECT * FROM t WHERE a IN (select b FROM u)"),
        Err(Sqlite3xError::InvalidSql(_))
    ));
    assert!(p.detect_sql_injection_patterns("SELECT * FROM t WHERE a = 1").is_ok());
    assert!(p.detect_sql_injection_patterns("  insert into t values (1)").is_ok());
}

#[test]
fn identifiers_are_validated() {
    let p = SqlParser::new();
    for good in ["a", "_", "_a1", "users", "Table_2", "été"] {
        assert!(p.validate_identifier(good).is_ok(), "{}", good);
    }
    for bad in ["", "1a", "a b", "a-b", "a;", "a.b", " a"] {
        assert!(
            matches!(p.validate_identifier(bad), Err(Sqlite3xError::InvalidSql(_))),
            "{}",
            bad
        );
    }
}

#[test]
fn insert_key_is_the_value_at_the_column_position() {
    let p = SqlParser::new();
    let st = p
        .parse_insert("INSERT INTO events (kind, User_Id) VALUES ('click', 42)")
        .unwrap();
    assert_eq!(p.extract_partition_key_value(&st, "user_id").unwrap(), "42");
    assert_eq!(p.extract_partition_key_value(&st, "KIND").unwrap(), "'click'");
    assert!(matches!(
        p.extract_partition_key_value(&st, "missing"),
        Err(Sqlite3xError::PartitionKeyNotFound(_))
    ));
}

#[test]
fn insert_key_needs_a_value() {
    let p = SqlParser::new();
    let st = p.parse_insert("INSERT INTO events (kind, user_id) VALUES ('click')").unwrap();
    assert!(matches!(
        p.extract_partition_key_value(&st, "user_id"),
        Err(Sqlite3xError::PartitionKeyNotFound(_))
    ));
    let st = p.parse_insert("INSERT INTO events VALUES ('click', 1)").unwrap();
    assert!(matches!(
        p.extract_partition_key_value(&st, "user_id"),
        Err(Sqlite3xError::PartitionKeyNotFound(_))
    ));
}

#[test]
fn predicate_key_is_unquoted() {
    let p = SqlParser::new();
    let st = p.parse_select("SELECT * FROM t WHERE user_id = 'abc' AND x = 1").unwrap();
    assert_eq!(p.extract_partition_key_value(&st, "user_id").unwrap(), "abc");
    let st = p.parse_delete("DELETE FROM t WHERE USER_ID =   \"k\";").unwrap();
    assert_eq!(p.extract_partition_key_value(&st, "user_id").unwrap(), "k");
    let st = p.parse_update("UPDATE t SET a = 1 WHERE user_id = `7`").unwrap();
    assert_eq!(p.extract_partition_key_value(&st, "user_id").unwrap(), "7");
    let st = p.parse_update("UPDATE t SET a = 1 WHERE user_id = 42").unwrap();
    assert_eq!(p.extract_partition_key_value(&st, "user_id").unwrap(), "42");
}

#[test]
fn predicate_key_needs_the_column() {
    let p = SqlParser::new();
    let st = p.parse_select("SELECT * FROM t WHERE other = 1").unwrap();
    assert!(matches!(
        p.extract_partition_key_value(&st, "user_id"),
        Err(Sqlite3xError::PartitionKeyNotFound(_))
    ));
    let st = p.parse_select("SELECT * FROM t").unwrap();
    assert!(matches!(
        p.extract_partition_key_value(&st, "user_id"),
        Err(Sqlite3xError::PartitionKeyNotFound(_))
    ));
    let st = p.parse_select("SELECT * FROM t WHERE user_id=1").unwrap();
    assert!(matches!(
        p.extract_partition_key_value(&st, "user_id"),
        Err(Sqlite3xError::PartitionKeyNotFound(_))
    ));
}

#[test]
fn parsed_statement_can_be_cloned() {
    let p = SqlParser::new();
    let st = p.parse_update("UPDATE users SET name = 'x' WHERE id = 7").unwrap();
    let c = st.clone();
    assert_eq!(c.table_name, st.table_name);
    assert_eq!(c.set_clause, st.set_clause);
    assert_eq!(c.where_clause, st.where_clause);
    assert_eq!(c.statement_type, st.statement_type);
}

fn filter_by_the_standard_library(sql: &str) -> bool {
    let up = sql.trim().to_uppercase();
    let begins = ["INSERT", "UPDATE", "DELETE", "SELECT"].iter().any(|k| up.starts_with(k));
    let ddl = [" DROP ", " ALTER ", " CREATE ", " TRUNCATE "].iter().any(|k| up.contains(k));
    let comment = sql.contains("--") || sql.contains("/*") || sql.contains("*/");
    begins && !ddl && !comment && up.matches("SELECT").count() <= 1
}

#[test]
fn admission_goes_by_the_upper_case_of_the_whole_text() {
    let p = SqlParser::new();
    let samples = [
        "SELECT 1",
        "  select * from t  ",
        "SELECT \u{17f}elect",
        "\u{17f}elect 1",
        "SELECT * FROM t WHERE a = '\u{17f}ELECT'",
        "in\u{17f}ert into t values (1)",
        "select 1; \u{131}nsert",
        "SELECT 'stra\u{df}e' FROM t",
        "SELECT a FROM t; drop table t",
        "SELECT a FROM t; ALTER x",
        "select \u{e9} from t; truncate t",
        "UPDATE t SET a = '\u{fb01}'",
        "delete from t",
        "\u{a0}SELECT 1",
        "pragma x",
        "",
        "SELECT select",
        "selectselect",
        "SELECT 1 -- x",
        "SELECT /* x */ 1",
    ];
    for sql in samples {
        assert_eq!(
            p.detect_sql_injection_patterns(sql).is_ok(),
            filter_by_the_standard_library(sql),
            "{:?}",
            sql
        );
    }
    assert!(matches!(
        p.detect_sql_injection_patterns("SELECT \u{17f}elect"),
        Err(Sqlite3xError::InvalidSql(_))
    ));
    assert!(p.detect_sql_injection_patterns("\u{17f}elect 1").is_ok());
    assert!(matches!(
        p.parse_select("SELECT * FROM t WHERE a = '\u{17f}elect'"),
        Err(Sqlite3xError::InvalidSql(_))
    ));
}
