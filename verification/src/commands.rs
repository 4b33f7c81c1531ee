//! What the command layer decides before and after it talks to a database:
//! the shapes of its requests and answers, and the conversions between them
//! and the router's own types.

pub mod file;
pub mod partition;
pub mod query;
pub mod schema;
pub mod udf;
