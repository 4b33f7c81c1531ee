use dbstudiox::errors::{AppError, Sqlite3xError};
use dbstudiox::index_strategy::{escape_quotes, is_unique, uniqueness_query, GlobalIndexManager};
use dbstudiox::manager::{PartitionConfig, PartitionManager, PartitionStrategy};
use dbstudiox::metadata::PartitionMetadata;
use dbstudiox::serialization::{bytes_to_hex, format_bytes};
use dbstudiox::types::{ColumnType, OpenFlags, ResultCode};
use dbstudiox::values::{
    decode_cell, decode_row, encode_param, json_params_to_sqlite, merge_results, JsonValue,
    QueryResult, SqlValue,
};

fn text(s: &str) -> JsonValue {
    JsonValue::Text(s.to_string())
}

#[test]
fn cells_are_decoded() {
    assert_eq!(decode_cell(SqlValue::Null), JsonValue::Null);
    assert_eq!(decode_cell(SqlValue::Integer(-5)), JsonValue::Integer(-5));
    assert_eq!(decode_cell(SqlValue::Text("a".to_string())), text("a"));
    assert_eq!(decode_cell(SqlValue::Blob(vec![1, 2, 3])), text("<BLOB 3 bytes>"));
    assert_eq!(decode_cell(SqlValue::Blob(Vec::new())), text("<BLOB 0 bytes>"));
    let x = 1.5f64.to_bits();
    assert_eq!(decode_cell(SqlValue::Real(x)), JsonValue::Real(x));
    assert_eq!(decode_cell(SqlValue::Real(0f64.to_bits())), JsonValue::Real(0));
    assert_eq!(decode_cell(SqlValue::Real(f64::MAX.to_bits())), JsonValue::Real(f64::MAX.to_bits()));
    assert_eq!(decode_cell(SqlValue::Real(f64::MIN_POSITIVE.to_bits())), JsonValue::Real(f64::MIN_POSITIVE.to_bits()));
}

#[test]
fn reals_that_are_not_finite_decode_to_null() {
    for f in [f64::NAN, f64::INFINITY, f64::NEG_INFINITY, -f64::NAN] {
        assert_eq!(decode_cell(SqlValue::Real(f.to_bits())), JsonValue::Null);
        assert_eq!(encode_param(JsonValue::Real(f.to_bits())), SqlValue::Null);
    }
}

#[test]
fn parameters_are_encoded() {
    assert_eq!(encode_param(JsonValue::Null), SqlValue::Null);
    assert_eq!(encode_param(JsonValue::Bool(true)), SqlValue::Integer(1));
    assert_eq!(encode_param(JsonValue::Bool(false)), SqlValue::Integer(0));
    assert_eq!(encode_param(JsonValue::Integer(9)), SqlValue::Integer(9));
    assert_eq!(encode_param(JsonValue::Real((-2.5f64).to_bits())), SqlValue::Real((-2.5f64).to_bits()));
    assert_eq!(encode_param(text("x")), SqlValue::Text("x".to_string()));
    assert_eq!(
        encode_param(JsonValue::Structured("[1,2]".to_string())),
        SqlValue::Text("[1,2]".to_string())
    );
    assert_eq!(
        json_params_to_sqlite(vec![JsonValue::Bool(true), text("a"), JsonValue::Null]),
        vec![SqlValue::Integer(1), SqlValue::Text("a".to_string()), SqlValue::Null]
    );
    assert!(json_params_to_sqlite(Vec::new()).is_empty());
    assert_eq!(
        decode_row(vec![SqlValue::Integer(1), SqlValue::Blob(vec![0; 12]), SqlValue::Null]),
        vec![JsonValue::Integer(1), text("<BLOB 12 bytes>"), JsonValue::Null]
    );
}

fn result(columns: &[&str], rows: Vec<Vec<JsonValue>>) -> QueryResult {
    QueryResult {
        columns: columns.iter().map(|c| c.to_string()).collect(),
        column_types: columns.iter().map(|_| "TEXT".to_string()).collect(),
        rows,
    }
}

#[test]
fn results_are_built_from_rows() {
    let r = QueryResult::from_rows(
        vec!["id".to_string(), "name".to_string()],
        vec![
            vec![SqlValue::Integer(1), SqlValue::Text("a".to_string())],
            vec![SqlValue::Integer(2), SqlValue::Null],
        ],
    );
    assert_eq!(
        r,
        result(
            &["id", "name"],
            vec![
                vec![JsonValue::Integer(1), text("a")],
                vec![JsonValue::Integer(2), JsonValue::Null]
            ]
        )
    );
}

#[test]
fn responses_are_merged_in_order() {
    let merged = merge_results(vec![
        result(&[], Vec::new()),
        result(&["id", "name"], vec![vec![JsonValue::Integer(1), text("a")]]),
        result(&["x"], vec![vec![JsonValue::Integer(2), text("b")]]),
        result(&["id", "name"], vec![vec![JsonValue::Integer(3), text("c")]]),
    ]);
    assert_eq!(
        merged,
        result(
            &["id", "name"],
            vec![
                vec![JsonValue::Integer(1), text("a")],
                vec![JsonValue::Integer(2), text("b")],
                vec![JsonValue::Integer(3), text("c")],
            ]
        )
    );
    assert_eq!(merge_results(Vec::new()), QueryResult::empty());
    let mut acc = QueryResult::empty();
    acc.absorb(result(&["a"], vec![vec![JsonValue::Null]]));
    acc.absorb(result(&["b"], vec![vec![JsonValue::Integer(1)]]));
    assert_eq!(acc, result(&["a"], vec![vec![JsonValue::Null], vec![JsonValue::Integer(1)]]));
}

#[test]
fn quotes_are_doubled() {
    assert_eq!(escape_quotes("x@y"), "x@y");
    assert_eq!(escape_quotes("O'Brien"), "O''Brien");
    assert_eq!(escape_quotes("''"), "''''");
    assert_eq!(escape_quotes(""), "");
    assert_eq!(
        uniqueness_query("users", "email", "a'b"),
        "SELECT COUNT(*) FROM users WHERE email = 'a''b'"
    );
}

#[test]
fn uniqueness_is_read_from_the_counts() {
    assert!(is_unique(&result(&["c"], Vec::new())));
    assert!(is_unique(&result(&["c"], vec![vec![JsonValue::Integer(0)], vec![JsonValue::Integer(0)]])));
    assert!(!is_unique(&result(&["c"], vec![vec![JsonValue::Integer(0)], vec![JsonValue::Integer(1)]])));
    assert!(is_unique(&result(&["c"], vec![vec![JsonValue::Integer(-1)], vec![text("3")], Vec::new()])));
}

fn index_manager() -> GlobalIndexManager {
    let mut config = PartitionConfig::new(PartitionStrategy::Range, vec!["a".to_string(), "b".to_string()]);
    config.key_column = Some("id".to_string());
    let mut m = PartitionManager::new(config).unwrap();
    m.confirm_attached(2);
    GlobalIndexManager::new(m)
}

#[test]
fn uniqueness_check_fans_out() {
    let mut g = index_manager();
    let plan = g.check_global_uniqueness("users", "email", "x@y").unwrap();
    assert_eq!(plan.len(), 2);
    assert_eq!(plan[0].sql, "SELECT COUNT(*) FROM shard_0.users WHERE email = 'x@y'");
    assert_eq!(plan[1].sql, "SELECT COUNT(*) FROM shard_1.users WHERE email = 'x@y'");
    let one = g.check_global_uniqueness("users", "id", "7").unwrap();
    assert_eq!(one.len(), 1);
    assert_eq!(one[0].alias, "shard_1");
    assert!(matches!(
        g.check_global_uniqueness("users", "email", "a--b"),
        Err(Sqlite3xError::InvalidSql(_))
    ));
    assert_eq!(g.partition_manager().get_config().shards.len(), 2);
}

#[test]
fn insert_of_a_value_that_is_present_is_refused() {
    let mut g = index_manager();
    let sql = "INSERT INTO users (id,email) VALUES (7,'x@y')";
    let taken = result(&["c"], vec![vec![JsonValue::Integer(1)], vec![JsonValue::Integer(0)]]);
    assert!(matches!(
        g.unique_insert_partitioned(sql, "email", "x@y", &taken),
        Err(Sqlite3xError::GlobalUniquenessViolation(_))
    ));
    let free = result(&["c"], vec![vec![JsonValue::Integer(0)], vec![JsonValue::Integer(0)]]);
    let st = g.unique_insert_partitioned(sql, "email", "x@y", &free).unwrap();
    assert_eq!(st.alias, "shard_1");
    assert_eq!(st.sql, "INSERT INTO shard_1.users (id,email) VALUES (7,'x@y')");
    let m = g.into_partition_manager();
    assert_eq!(m.get_shard("shard_1"), Some(1));
}

#[test]
fn metadata_is_versioned() {
    let config = PartitionConfig::new(PartitionStrategy::RoundRobin, vec!["a".to_string()]);
    let m = PartitionMetadata::new(config.clone(), 1700000000);
    assert_eq!(m.version, 1);
    assert_eq!(m.created_at, 1700000000);
    assert_eq!(m.updated_at, 1700000000);
    assert_eq!(m.config, config);
    let copy = m.clone();
    assert_eq!(PartitionMetadata::load(m).unwrap(), copy);
    let mut newer = copy.clone();
    newer.version = 2;
    assert!(matches!(PartitionMetadata::load(newer), Err(Sqlite3xError::Query(_))));
    let mut older = copy;
    older.version = 0;
    assert!(PartitionMetadata::load(older).is_ok());
    assert_eq!(
        PartitionMetadata::get_default_path("/data/main.db"),
        "/data/main.db.partition_metadata.json"
    );
}

#[test]
fn errors_have_a_textual_form() {
    assert_eq!(Sqlite3xError::Connection("x".to_string()).to_string(), "Connection error: x");
    assert_eq!(Sqlite3xError::Query("x".to_string()).to_string(), "Query error: x");
    assert_eq!(Sqlite3xError::Transaction("x".to_string()).to_string(), "Transaction error: x");
    assert_eq!(Sqlite3xError::Schema("x".to_string()).to_string(), "Schema error: x");
    assert_eq!(Sqlite3xError::Ffi("x".to_string()).to_string(), "FFI error: x");
    assert_eq!(Sqlite3xError::InvalidHandle("x".to_string()).to_string(), "Invalid handle: x");
    assert_eq!(Sqlite3xError::TypeConversion("x".to_string()).to_string(), "Type conversion error: x");
    assert_eq!(Sqlite3xError::Io("x".to_string()).to_string(), "IO error: x");
    assert_eq!(Sqlite3xError::Utf8("x".to_string()).to_string(), "UTF-8 error: x");
    assert_eq!(Sqlite3xError::PartitionKeyNotFound("x".to_string()).to_string(), "Partition key not found: x");
    assert_eq!(Sqlite3xError::InvalidSql("x".to_string()).to_string(), "Invalid SQL: x");
    assert_eq!(Sqlite3xError::ShardNotFound("x".to_string()).to_string(), "Shard not found: x");
    assert_eq!(Sqlite3xError::ShardingPolicyViolation("x".to_string()).to_string(), "Sharding policy violation: x");
    assert_eq!(Sqlite3xError::GlobalUniquenessViolation("x".to_string()).to_string(), "Global uniqueness violation: x");
    assert_eq!(AppError::ConnectionError("x".to_string()).to_string(), "Database connection error: x");
    assert_eq!(AppError::QueryError("x".to_string()).to_string(), "Query execution error: x");
    assert_eq!(AppError::CommandError("x".to_string()).to_string(), "Command execution error: x");
    assert_eq!(AppError::SerializationError("x".to_string()).to_string(), "Serialization error: x");
    assert_eq!(AppError::FsError("x".to_string()).to_string(), "File system error: x");
    assert_eq!(AppError::IoError("x".to_string()).to_string(), "I/O error: x");
    assert_eq!(AppError::BadRequest("x".to_string()).to_string(), "Bad request: x");
    assert_eq!(AppError::InternalError("x".to_string()).to_string(), "Internal error: x");
    assert_eq!(AppError::NotFound("x".to_string()).to_string(), "Not found: x");
}

#[test]
fn result_codes_are_classified() {
    assert!(ResultCode::Okay.is_ok());
    assert!(ResultCode::Row.is_ok());
    assert!(ResultCode::Done.is_ok());
    assert!(ResultCode::Busy.is_error());
    assert!(!ResultCode::Error.is_ok());
    assert_eq!(ResultCode::from(0), ResultCode::Okay);
    assert_eq!(ResultCode::from(1), ResultCode::Error);
    assert_eq!(ResultCode::from(100), ResultCode::Row);
    assert_eq!(ResultCode::from(101), ResultCode::Done);
    assert_eq!(ResultCode::from(5), ResultCode::Error);
    assert_eq!(ResultCode::from(-1), ResultCode::Error);
    assert_eq!(ResultCode::Busy.number(), 5);
    assert_eq!(ResultCode::Done.number(), 101);
    assert_eq!(ColumnType::from(1), ColumnType::Integer);
    assert_eq!(ColumnType::from(2), ColumnType::Float);
    assert_eq!(ColumnType::from(3), ColumnType::Text);
    assert_eq!(ColumnType::from(4), ColumnType::Blob);
    assert_eq!(ColumnType::from(5), ColumnType::Null);
    assert_eq!(ColumnType::from(0), ColumnType::Null);
    let f = OpenFlags::default();
    assert!(!f.read_only && f.read_write && f.create && f.wal_mode);
}

#[test]
fn bytes_are_shown_in_hex() {
    assert_eq!(bytes_to_hex(&[]), "");
    assert_eq!(bytes_to_hex(&[0, 1, 10, 15, 16, 255, 0xab]), "00010a0f10ffab");
}

#[test]
fn sizes_are_shown_in_their_unit() {
    assert_eq!(format_bytes(0), "0 bytes");
    assert_eq!(format_bytes(1023), "1023 bytes");
    assert_eq!(format_bytes(-5), "-5 bytes");
    assert_eq!(format_bytes(1024), "1.00 KB");
    assert_eq!(format_bytes(1536), "1.50 KB");
    assert_eq!(format_bytes(1152), format!("{:.2} KB", 1152f64 / 1024f64));
    assert_eq!(format_bytes(1048576), "1.00 MB");
    assert_eq!(format_bytes(5 * 1024 * 1024 + 1), "5.00 MB");
    assert_eq!(format_bytes(1073741824), "1.00 GB");
    for b in [1025i64, 2047, 99999, 1234567, 987654321, 1 << 40, 123456789012] {
        let unit = if b >= 1 << 30 { ("GB", 1i64 << 30) } else if b >= 1 << 20 { ("MB", 1 << 20) } else { ("KB", 1 << 10) };
        assert_eq!(format_bytes(b), format!("{:.2} {}", b as f64 / unit.1 as f64, unit.0));
    }
}
