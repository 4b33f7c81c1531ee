//! User-defined functions as the command layer reports them.

use vstd::prelude::*;
use crate::serialization::hex_of;
use crate::text::{
    chars_of, decimal, push_decimal, push_signed, replace_all, replaced, signed_decimal, string_of,
};

verus! {

/// A registered function.
#[derive(Debug, PartialEq)]
pub struct UdfInfo {
    pub name: String,
    /// The number of arguments; -1 where it is not known.
    pub arg_count: i32,
    pub deterministic: bool,
    pub description: Option<String>,
}

/// A request to create a function from an SQL expression.
#[derive(Debug, Clone, PartialEq)]
pub struct CreateUdfRequest {
    pub name: String,
    pub arg_count: i32,
    pub deterministic: bool,
    pub expression: String,
    pub description: Option<String>,
}

impl UdfInfo {
    /// What is reported of a function of which only the name is remembered.
    pub fn from_name(name: String) -> (r: UdfInfo)
        ensures
            r.name == name,
            r.arg_count == -1,
            r.deterministic,
            r.description is None,
    {
        UdfInfo { name, arg_count: -1, deterministic: true, description: None }
    }
}

/// The statement that checks whether `expression` compiles.
pub fn expression_probe(expression: &str) -> (sql: String)
    ensures
        sql@ == "SELECT "@ + expression@,
{
    crate::errors::prefixed("SELECT ", expression)
}

/// An argument of a call, as it is written into an expression. A real
/// number comes as the text that shows it.
#[derive(Debug, Clone, PartialEq)]
pub enum ArgumentValue {
    Null,
    Integer(i64),
    Real(String),
    Text(String),
    Blob(Vec<u8>),
}

/// The SQL literal that stands for an argument: `NULL`; the number as it is
/// written; the text between single quotes, its single quotes doubled; the
/// blob as `X'..'` with its bytes in hexadecimal notation.
pub open spec fn argument_literal(v: ArgumentValue) -> Seq<char> {
    match v {
        ArgumentValue::Null => "NULL"@,
        ArgumentValue::Integer(n) => signed_decimal(n),
        ArgumentValue::Real(t) => t@,
        ArgumentValue::Text(t) => seq!['\''] + crate::index_strategy::escaped(t@) + seq!['\''],
        ArgumentValue::Blob(b) => "X'"@ + hex_of(b@) + "'"@,
    }
}

/// The SQL literal that stands for an argument.
pub fn render_argument(v: &ArgumentValue) -> (r: String)
    ensures
        r@ == argument_literal(*v),
{
    match v {
        ArgumentValue::Null => "NULL".to_string(),
        ArgumentValue::Integer(n) => {
            let mut s = String::new();
            push_signed(&mut s, *n);
            assert(s@ =~= signed_decimal(*n));
            s
        },
        ArgumentValue::Real(t) => t.clone(),
        ArgumentValue::Text(t) => {
            let mut s = String::new();
            s.push('\'');
            s.append(crate::index_strategy::escape_quotes(t.as_str()).as_str());
            s.push('\'');
            assert(s@ =~= argument_literal(*v));
            s
        },
        ArgumentValue::Blob(b) => {
            let mut s = "X'".to_string();
            s.append(crate::serialization::bytes_to_hex(b.as_slice()).as_str());
            s.append("'");
            s
        },
    }
}

/// The placeholder of the argument of index `i`: `$1` for the first.
pub open spec fn placeholder(i: nat) -> Seq<char> {
    seq!['$'] + decimal(i + 1)
}

/// The expression with the placeholders of the first `n` arguments replaced,
/// one argument after the other, each by its literal.
pub open spec fn substituted(expression: Seq<char>, args: Seq<ArgumentValue>, n: nat) -> Seq<char>
    decreases n,
{
    if n == 0 || n > args.len() {
        expression
    } else {
        replaced(
            substituted(expression, args, (n - 1) as nat),
            placeholder((n - 1) as nat),
            argument_literal(args[n - 1]),
        )
    }
}

/// The expression with the placeholders `$1`, `$2`, … replaced by the
/// literals of the arguments, one argument after the other.
pub fn substitute_arguments(expression: &str, args: &Vec<ArgumentValue>) -> (r: String)
    requires
        args@.len() < u64::MAX,
    ensures
        r@ == substituted(expression@, args@, args@.len()),
{
    let mut text = chars_of(expression);
    let mut i: usize = 0;
    while i < args.len()
        invariant
            i <= args@.len() < u64::MAX,
            text@ == substituted(expression@, args@, i as nat),
        decreases args@.len() - i,
    {
        let mut mark = String::new();
        mark.push('$');
        push_decimal(&mut mark, i as u64 + 1);
        assert(mark@ =~= placeholder(i as nat));
        let literal = render_argument(&args[i]);
        text = replace_all(
            text.as_slice(),
            chars_of(mark.as_str()).as_slice(),
            chars_of(literal.as_str()).as_slice(),
        );
        i += 1;
    }
    string_of(text.as_slice())
}

} // verus!
