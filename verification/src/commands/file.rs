//! Entries of a directory listing.

use vstd::prelude::*;
use crate::errors::AppError;
use crate::index_strategy::{escape_quotes, escaped};
use crate::text::{chars_of, replace_all, replaced, same_str, string_of, views};

verus! {

/// An entry of a directory listing.
#[derive(Debug, Clone, PartialEq)]
pub struct FileEntry {
    pub name: String,
    pub path: String,
    pub is_dir: bool,
    pub size: u64,
    /// Seconds since the Unix epoch.
    pub modified: Option<u64>,
    pub extension: Option<String>,
}

/// A drive of the system.
#[derive(Debug, Clone, PartialEq)]
pub struct DriveInfo {
    pub name: String,
    pub path: String,
    pub is_removable: bool,
}

/// A cell of a result that is exported. A number, a boolean, an array or an
/// object comes as the text that shows it.
#[derive(Debug, Clone, PartialEq)]
pub enum ExportCell {
    Null,
    Text(String),
    Literal(String),
}

/// The format of an export.
#[derive(Debug, Clone, Copy, PartialEq, Eq, Structural)]
pub enum ExportFormat {
    Csv,
    Json,
    Sql,
}

/// The format that a name stands for.
pub open spec fn format_named(name: Seq<char>) -> Option<ExportFormat> {
    if name == "csv"@ {
        Some(ExportFormat::Csv)
    } else if name == "json"@ {
        Some(ExportFormat::Json)
    } else if name == "sql"@ {
        Some(ExportFormat::Sql)
    } else {
        None
    }
}

/// The format that a name stands for: `csv`, `json` or `sql`. Any other
/// name is refused.
pub fn parse_format(name: &str) -> (r: Result<ExportFormat, AppError>)
    ensures
        match format_named(name@) {
            Some(f) => r == Ok::<ExportFormat, AppError>(f),
            None => r matches Err(AppError::CommandError(_)),
        },
{
    if same_str(name, "csv") {
        Ok(ExportFormat::Csv)
    } else if same_str(name, "json") {
        Ok(ExportFormat::Json)
    } else if same_str(name, "sql") {
        Ok(ExportFormat::Sql)
    } else {
        Err(AppError::CommandError(crate::errors::prefixed("Unsupported export format: ", name)))
    }
}

/// The texts of a list joined, `sep` between each two.
pub open spec fn joined(items: Seq<Seq<char>>, sep: Seq<char>) -> Seq<char>
    decreases items.len(),
{
    if items.len() == 0 {
        Seq::<char>::empty()
    } else if items.len() == 1 {
        items[0]
    } else {
        joined(items.drop_last(), sep) + sep + items.last()
    }
}

/// A cell as a field of a CSV line: nothing for null; text between double
/// quotes, its double quotes doubled; anything else as it is shown.
pub open spec fn csv_field(c: ExportCell) -> Seq<char> {
    match c {
        ExportCell::Null => Seq::<char>::empty(),
        ExportCell::Text(t) => seq!['"'] + replaced(t@, seq!['"'], seq!['"', '"']) + seq!['"'],
        ExportCell::Literal(t) => t@,
    }
}

/// A cell as a value of an SQL statement: `NULL` for null; text between
/// single quotes, its single quotes doubled; anything else as it is shown.
pub open spec fn sql_value(c: ExportCell) -> Seq<char> {
    match c {
        ExportCell::Null => "NULL"@,
        ExportCell::Text(t) => seq!['\''] + escaped(t@) + seq!['\''],
        ExportCell::Literal(t) => t@,
    }
}

/// The fields of a row, each through `f`.
pub open spec fn fields(row: Seq<ExportCell>, f: spec_fn(ExportCell) -> Seq<char>) -> Seq<
    Seq<char>,
> {
    Seq::new(row.len(), |i: int| f(row[i]))
}

/// The first `n` rows as CSV lines.
pub open spec fn csv_lines(rows: Seq<Vec<ExportCell>>, n: nat) -> Seq<char>
    decreases n,
{
    if n == 0 || n > rows.len() {
        Seq::<char>::empty()
    } else {
        csv_lines(rows, (n - 1) as nat) + joined(
            fields(rows[n - 1]@, |c: ExportCell| csv_field(c)),
            ","@,
        ) + "\n"@
    }
}

/// The first `n` rows as `INSERT` statements into `exported_data`.
pub open spec fn sql_lines(columns: Seq<Seq<char>>, rows: Seq<Vec<ExportCell>>, n: nat) -> Seq<char>
    decreases n,
{
    if n == 0 || n > rows.len() {
        Seq::<char>::empty()
    } else {
        sql_lines(columns, rows, (n - 1) as nat) + "INSERT INTO exported_data ("@ + joined(
            columns,
            ", "@,
        ) + ") VALUES ("@ + joined(fields(rows[n - 1]@, |c: ExportCell| sql_value(c)), ", "@)
            + ");\n"@
    }
}

fn join(items: &Vec<String>, sep: &str) -> (r: String)
    ensures
        r@ == joined(views(items@), sep@),
{
    let mut r = String::new();
    let mut i: usize = 0;
    assert(views(items@).take(0) =~= Seq::<Seq<char>>::empty());
    while i < items.len()
        invariant
            i <= items@.len(),
            r@ == joined(views(items@).take(i as int), sep@),
        decreases items@.len() - i,
    {
        proof {
            let t = views(items@).take(i + 1);
            assert(t.drop_last() =~= views(items@).take(i as int));
            assert(t.last() == items@[i as int]@);
            if i == 0 {
                assert(t[0] == items@[0]@);
            }
        }
        if i > 0 {
            r.append(sep);
        }
        r.append(items[i].as_str());
        assert(r@ =~= joined(views(items@).take(i + 1), sep@));
        i += 1;
    }
    assert(views(items@).take(items@.len() as int) =~= views(items@));
    r
}

fn csv_field_of(c: &ExportCell) -> (r: String)
    ensures
        r@ == csv_field(*c),
{
    match c {
        ExportCell::Null => String::new(),
        ExportCell::Text(t) => {
            let quote = crate::text::single('"');
            let two = crate::text::pair('"', '"');
            let body = replace_all(chars_of(t.as_str()).as_slice(), quote.as_slice(), two.as_slice());
            let mut r = String::new();
            r.push('"');
            crate::text::push_chars(&mut r, body.as_slice());
            r.push('"');
            assert(r@ =~= csv_field(*c));
            r
        },
        ExportCell::Literal(t) => t.clone(),
    }
}

fn sql_value_of(c: &ExportCell) -> (r: String)
    ensures
        r@ == sql_value(*c),
{
    match c {
        ExportCell::Null => "NULL".to_string(),
        ExportCell::Text(t) => {
            let mut r = String::new();
            r.push('\'');
            r.append(escape_quotes(t.as_str()).as_str());
            r.push('\'');
            assert(r@ =~= sql_value(*c));
            r
        },
        ExportCell::Literal(t) => t.clone(),
    }
}

/// A result as CSV: a line of column names, then a line for each row.
pub fn export_to_csv(columns: &Vec<String>, rows: &Vec<Vec<ExportCell>>) -> (csv: String)
    ensures
        csv@ == joined(views(columns@), ","@) + "\n"@ + csv_lines(rows@, rows@.len()),
{
    let mut csv = join(columns, ",");
    csv.append("\n");
    let ghost head = csv@;
    let mut i: usize = 0;
    assert(csv@ =~= head + csv_lines(rows@, 0));
    while i < rows.len()
        invariant
            i <= rows@.len(),
            csv@ == head + csv_lines(rows@, i as nat),
        decreases rows@.len() - i,
    {
        let row = &rows[i];
        let mut texts: Vec<String> = Vec::new();
        let mut k: usize = 0;
        while k < row.len()
            invariant
                k <= row@.len(),
                texts@.len() == k,
                forall|j: int| 0 <= j < k ==> (#[trigger] texts@[j])@ == csv_field(row@[j]),
            decreases row@.len() - k,
        {
            texts.push(csv_field_of(&row[k]));
            k += 1;
        }
        assert(views(texts@) =~= fields(row@, |c: ExportCell| csv_field(c)));
        let ghost had = csv@;
        csv.append(join(&texts, ",").as_str());
        csv.append("\n");
        assert(csv@ =~= head + csv_lines(rows@, (i + 1) as nat));
        i += 1;
    }
    csv
}

/// A result as SQL: an `INSERT` into `exported_data` for each row.
pub fn export_to_sql(columns: &Vec<String>, rows: &Vec<Vec<ExportCell>>) -> (sql: String)
    ensures
        sql@ == sql_lines(views(columns@), rows@, rows@.len()),
{
    let names = join(columns, ", ");
    let mut sql = String::new();
    let mut i: usize = 0;
    while i < rows.len()
        invariant
            i <= rows@.len(),
            names@ == joined(views(columns@), ", "@),
            sql@ == sql_lines(views(columns@), rows@, i as nat),
        decreases rows@.len() - i,
    {
        let row = &rows[i];
        let mut texts: Vec<String> = Vec::new();
        let mut k: usize = 0;
        while k < row.len()
            invariant
                k <= row@.len(),
                texts@.len() == k,
                forall|j: int| 0 <= j < k ==> (#[trigger] texts@[j])@ == sql_value(row@[j]),
            decreases row@.len() - k,
        {
            texts.push(sql_value_of(&row[k]));
            k += 1;
        }
        assert(views(texts@) =~= fields(row@, |c: ExportCell| sql_value(c)));
        sql.append("INSERT INTO exported_data (");
        sql.append(names.as_str());
        sql.append(") VALUES (");
        sql.append(join(&texts, ", ").as_str());
        sql.append(");\n");
        assert(sql@ =~= sql_lines(views(columns@), rows@, (i + 1) as nat));
        i += 1;
    }
    sql
}

} // verus!
