use dbstudiox::commands::file::{export_to_csv, export_to_sql, parse_format, ExportCell, ExportFormat};
use dbstudiox::commands::schema::{columns_from_rows, count_statement};
use dbstudiox::commands::udf::{render_argument, substitute_arguments, ArgumentValue};
use dbstudiox::errors::AppError;
use dbstudiox::schema_diff::{compare_columns, compare_schemas, SchemaDiffResult};
use dbstudiox::values::{JsonValue, QueryResult};
use dbstudiox::wrapper::{ColumnInfo, IndexInfo, SchemaInfo, TableInfo};

fn column(name: &str, not_null: bool, default: Option<&str>) -> ColumnInfo {
    ColumnInfo {
        name: name.to_string(),
        data_type: "TEXT".to_string(),
        not_null,
        primary_key: false,
        default_value: default.map(|d| d.to_string()),
        foreign_key: None,
    }
}

fn table(name: &str, sql: Option<&str>, columns: Vec<ColumnInfo>) -> TableInfo {
    TableInfo { name: name.to_string(), sql: sql.map(|s| s.to_string()), columns }
}

fn index(name: &str, sql: Option<&str>) -> IndexInfo {
    IndexInfo::from_row(name.to_string(), "t".to_string(), sql.map(|s| s.to_string()))
}

fn schema(tables: Vec<TableInfo>, indexes: Vec<IndexInfo>) -> SchemaInfo {
    SchemaInfo { tables, views: Vec::new(), indexes, triggers: Vec::new() }
}

#[test]
fn schemas_are_compared() {
    let source = schema(
        vec![
            table("a", Some("CREATE TABLE a(x)"), vec![column("x", false, None)]),
            table("b", Some("CREATE TABLE b(x, y, z)"), vec![column("x", false, None), column("y", true, Some("'d'")), column("z", false, None)]),
            table("nosql", None, Vec::new()),
        ],
        vec![index("i1", Some("CREATE INDEX i1 ON a(x)")), index("i2", Some("CREATE INDEX i2 ON b(x)")), index("i3", None)],
    );
    let target = schema(
        vec![
            table("b", Some("CREATE TABLE b(x, old)"), vec![column("x", false, None), column("old", false, None)]),
            table("gone", Some("CREATE TABLE gone(x)"), Vec::new()),
        ],
        vec![index("i2", None), index("stale", None)],
    );
    let diff = compare_schemas(&source, &target);
    assert_eq!(diff.tables_to_create, vec!["CREATE TABLE a(x);"]);
    assert_eq!(diff.tables_to_drop, vec!["DROP TABLE IF EXISTS gone;"]);
    assert_eq!(
        diff.columns_to_add,
        vec!["ALTER TABLE b ADD COLUMN y TEXT NOT NULL DEFAULT 'd';", "ALTER TABLE b ADD COLUMN z TEXT;"]
    );
    assert_eq!(diff.columns_to_drop, vec!["-- SQLite 3.35.0+ supports: ALTER TABLE b DROP COLUMN old;"]);
    assert_eq!(diff.indexes_to_create, vec!["CREATE INDEX i1 ON a(x);"]);
    assert_eq!(diff.indexes_to_drop, vec!["DROP INDEX IF EXISTS stale;"]);
    assert_eq!(diff.summary, "Found 1 tables to create, 1 tables to drop, 1 indexes to create.");
    let same = compare_schemas(&source, &source);
    assert!(same.tables_to_create.is_empty() && same.tables_to_drop.is_empty() && same.columns_to_add.is_empty());
    assert_eq!(same.summary, "Found 0 tables to create, 0 tables to drop, 0 indexes to create.");
}

#[test]
fn columns_are_compared_into_a_running_difference() {
    let mut diff = SchemaDiffResult {
        tables_to_create: vec!["x".to_string()],
        tables_to_drop: Vec::new(),
        columns_to_add: vec!["first".to_string()],
        columns_to_drop: Vec::new(),
        indexes_to_create: Vec::new(),
        indexes_to_drop: Vec::new(),
        summary: "s".to_string(),
    };
    let source = table("t", None, vec![column("a", false, None), column("b", false, Some("0"))]);
    let target = table("t", None, vec![column("a", false, None), column("c", false, None)]);
    compare_columns(&source, &target, &mut diff);
    assert_eq!(diff.columns_to_add, vec!["first", "ALTER TABLE t ADD COLUMN b TEXT DEFAULT 0;"]);
    assert_eq!(diff.columns_to_drop, vec!["-- SQLite 3.35.0+ supports: ALTER TABLE t DROP COLUMN c;"]);
    assert_eq!(diff.tables_to_create, vec!["x"]);
    assert_eq!(diff.summary, "s");
}

fn cells() -> Vec<Vec<ExportCell>> {
    vec![
        vec![ExportCell::Literal("1".to_string()), ExportCell::Text("a \"b\" c".to_string()), ExportCell::Null],
        vec![ExportCell::Literal("2.5".to_string()), ExportCell::Text("O'Brien".to_string()), ExportCell::Literal("true".to_string())],
        Vec::new(),
    ]
}

#[test]
fn results_are_exported_as_csv() {
    let columns = vec!["id".to_string(), "name".to_string(), "flag".to_string()];
    assert_eq!(
        export_to_csv(&columns, &cells()),
        "id,name,flag\n1,\"a \"\"b\"\" c\",\n2.5,\"O'Brien\",true\n\n"
    );
    assert_eq!(export_to_csv(&Vec::new(), &Vec::new()), "\n");
}

#[test]
fn results_are_exported_as_sql() {
    let columns = vec!["id".to_string(), "name".to_string(), "flag".to_string()];
    assert_eq!(
        export_to_sql(&columns, &cells()),
        "INSERT INTO exported_data (id, name, flag) VALUES (1, 'a \"b\" c', NULL);\n\
         INSERT INTO exported_data (id, name, flag) VALUES (2.5, 'O''Brien', true);\n\
         INSERT INTO exported_data (id, name, flag) VALUES ();\n"
    );
    assert_eq!(export_to_sql(&columns, &Vec::new()), "");
}

#[test]
fn export_formats_are_named() {
    assert_eq!(parse_format("csv").unwrap(), ExportFormat::Csv);
    assert_eq!(parse_format("json").unwrap(), ExportFormat::Json);
    assert_eq!(parse_format("sql").unwrap(), ExportFormat::Sql);
    assert!(matches!(parse_format("xml"), Err(AppError::CommandError(_))));
    assert!(matches!(parse_format("CSV"), Err(AppError::CommandError(_))));
}

#[test]
fn arguments_are_written_as_literals() {
    assert_eq!(render_argument(&ArgumentValue::Null), "NULL");
    assert_eq!(render_argument(&ArgumentValue::Integer(0)), "0");
    assert_eq!(render_argument(&ArgumentValue::Integer(-42)), "-42");
    assert_eq!(render_argument(&ArgumentValue::Integer(i64::MIN)), "-9223372036854775808");
    assert_eq!(render_argument(&ArgumentValue::Integer(i64::MAX)), "9223372036854775807");
    assert_eq!(render_argument(&ArgumentValue::Real("1.5".to_string())), "1.5");
    assert_eq!(render_argument(&ArgumentValue::Text("it's".to_string())), "'it''s'");
    assert_eq!(render_argument(&ArgumentValue::Blob(vec![0, 255, 16])), "X'00ff10'");
}

#[test]
fn placeholders_are_replaced_in_turn() {
    let args = vec![ArgumentValue::Integer(2), ArgumentValue::Text("x".to_string())];
    assert_eq!(substitute_arguments("$1 + $1 || $2", &args), "2 + 2 || 'x'");
    assert_eq!(substitute_arguments("no marks", &args), "no marks");
    assert_eq!(substitute_arguments("$3 $2", &args), "$3 'x'");
    assert_eq!(substitute_arguments("$10", &args), "20");
    assert_eq!(substitute_arguments("$1", &vec![ArgumentValue::Text("$2".to_string()), ArgumentValue::Null]), "'NULL'");
    assert_eq!(substitute_arguments("$1$", &Vec::new()), "$1$");
}

#[test]
fn table_info_rows_are_reported_in_order() {
    let t = |s: &str| JsonValue::Text(s.to_string());
    let r = QueryResult {
        columns: Vec::new(),
        column_types: Vec::new(),
        rows: vec![
            vec![JsonValue::Integer(0), t("id"), t("INTEGER"), JsonValue::Integer(1), JsonValue::Null, JsonValue::Integer(1)],
            vec![JsonValue::Integer(1), JsonValue::Null, t("X"), JsonValue::Integer(1), JsonValue::Null, JsonValue::Integer(1)],
            vec![JsonValue::Integer(2), t("n"), t("TEXT"), JsonValue::Integer(0), JsonValue::Null, JsonValue::Integer(0)],
        ],
    };
    let names: Vec<String> = columns_from_rows(&r).into_iter().map(|c| c.name).collect();
    assert_eq!(names, vec!["id", "n"]);
    assert_eq!(count_statement("my table"), "SELECT COUNT(*) FROM \"my table\"");
}

#[test]
fn a_schema_equals_itself_whatever_names_repeat() {
    let s = schema(
        vec![
            table("x", Some("CREATE TABLE x(a)"), vec![column("a", false, None)]),
            table("x", Some("CREATE TABLE x(b)"), vec![column("b", false, None), column("b", true, None)]),
            table("y", None, vec![column("c", false, None)]),
        ],
        vec![index("i", Some("CREATE INDEX i ON x(a)")), index("i", None)],
    );
    let diff = compare_schemas(&s, &s);
    assert!(diff.tables_to_create.is_empty());
    assert!(diff.tables_to_drop.is_empty());
    assert!(diff.columns_to_add.is_empty());
    assert!(diff.columns_to_drop.is_empty());
    assert!(diff.indexes_to_create.is_empty());
    assert!(diff.indexes_to_drop.is_empty());
    assert_eq!(diff.summary, "Found 0 tables to create, 0 tables to drop, 0 indexes to create.");
}

#[test]
fn a_repeated_name_is_compared_once_by_its_last_occurrence() {
    let source = schema(
        vec![
            table("x", Some("CREATE TABLE x(a)"), vec![column("a", false, None)]),
            table("x", Some("CREATE TABLE x(b, c)"), vec![column("b", false, None), column("c", false, None)]),
            table("new", Some("first"), Vec::new()),
            table("new", Some("second"), Vec::new()),
        ],
        vec![index("i", Some("one")), index("i", Some("two"))],
    );
    let target = schema(
        vec![
            table("x", None, vec![column("b", false, None)]),
            table("gone", None, Vec::new()),
            table("x", None, vec![column("a", false, None), column("old", false, None), column("old", false, None)]),
            table("gone", None, Vec::new()),
        ],
        vec![index("stale", None), index("stale", None)],
    );
    let diff = compare_schemas(&source, &target);
    assert_eq!(diff.tables_to_create, vec!["second;"]);
    assert_eq!(diff.tables_to_drop, vec!["DROP TABLE IF EXISTS gone;"]);
    assert_eq!(
        diff.columns_to_add,
        vec!["ALTER TABLE x ADD COLUMN b TEXT;", "ALTER TABLE x ADD COLUMN c TEXT;"]
    );
    assert_eq!(
        diff.columns_to_drop,
        vec![
            "-- SQLite 3.35.0+ supports: ALTER TABLE x DROP COLUMN a;",
            "-- SQLite 3.35.0+ supports: ALTER TABLE x DROP COLUMN old;"
        ]
    );
    assert_eq!(diff.indexes_to_create, vec!["two;"]);
    assert_eq!(diff.indexes_to_drop, vec!["DROP INDEX IF EXISTS stale;"]);
}
