//! Requests and answers of the partition commands.

use vstd::prelude::*;
use vstd::slice::slice_subrange;
use crate::errors::AppError;
use crate::manager::{ConfigView, PartitionConfig, PartitionStrategy, PolicyView};
use crate::sql_parser::opt_view;
use crate::text::{
    all_digits, chars_of, only_digits, rfind, rfind_in, same_str, string_of, views,
};

verus! {

/// The tables that together hold one logical table.
#[derive(Debug, Clone, PartialEq)]
pub struct TablePartitionInfo {
    pub base_table: String,
    pub partitions: Vec<String>,
    pub total_rows: i64,
}

/// An attached shard.
#[derive(Debug, Clone, PartialEq)]
pub struct ShardInfo {
    pub name: String,
    pub file: Option<String>,
}

/// A partition policy as callers see it.
#[derive(Debug, Clone, PartialEq)]
pub struct PartitionPolicy {
    pub id: String,
    pub table_name: String,
    pub date_column: String,
    pub partition_interval: String,
    pub retention_days: i32,
    pub created_at: String,
}

/// A request to create a partition policy.
#[derive(Debug, Clone, PartialEq)]
pub struct CreatePartitionPolicyRequest {
    pub table_name: String,
    pub date_column: String,
    pub partition_interval: String,
    pub retention_days: i32,
}

/// A request to partition a connection.
#[derive(Debug, Clone, PartialEq)]
pub struct InitializePartitioningRequest {
    pub strategy: String,
    pub shards: Vec<String>,
    pub key_column: Option<String>,
}

/// The outcome of a maintenance pass.
#[derive(Debug, Clone, PartialEq)]
pub struct MaintenanceResult {
    pub policies_processed: i32,
    pub partitions_deleted: i32,
    pub rows_deleted: i64,
    pub details: Vec<String>,
}

/// The strategy that a name stands for.
pub open spec fn strategy_named(name: Seq<char>) -> Option<PartitionStrategy> {
    if name == "hash"@ {
        Some(PartitionStrategy::Hash)
    } else if name == "range"@ {
        Some(PartitionStrategy::Range)
    } else if name == "round_robin"@ {
        Some(PartitionStrategy::RoundRobin)
    } else {
        None
    }
}

/// The strategy that a name stands for: `hash`, `range` or `round_robin`.
pub fn parse_strategy(name: &str) -> (r: Option<PartitionStrategy>)
    ensures
        r == strategy_named(name@),
{
    if same_str(name, "hash") {
        Some(PartitionStrategy::Hash)
    } else if same_str(name, "range") {
        Some(PartitionStrategy::Range)
    } else if same_str(name, "round_robin") {
        Some(PartitionStrategy::RoundRobin)
    } else {
        None
    }
}

/// The configuration that a request asks for. A strategy of an unknown name
/// is refused.
pub fn requested_config(request: InitializePartitioningRequest) -> (r: Result<
    PartitionConfig,
    AppError,
>)
    ensures
        match strategy_named(request.strategy@) {
            Some(strategy) => r matches Ok(c) && c@ == (ConfigView {
                strategy: strategy,
                shards: views(request.shards@),
                key_column: opt_view(request.key_column),
                policies: Seq::<PolicyView>::empty(),
            }),
            None => r matches Err(AppError::CommandError(_)),
        },
{
    match parse_strategy(request.strategy.as_str()) {
        None => Err(AppError::CommandError("Invalid strategy".to_string())),
        Some(strategy) => {
            let mut config = PartitionConfig::new(strategy, request.shards);
            config.key_column = request.key_column;
            Ok(config)
        },
    }
}

/// The policy that a request asks for. It always asks for indexes.
pub fn requested_policy(request: &CreatePartitionPolicyRequest) -> (p:
    crate::manager::PartitionPolicy)
    ensures
        p@ == (PolicyView {
            table_name: request.table_name@,
            date_column: request.date_column@,
            interval: request.partition_interval@,
            retention: request.retention_days as u32,
            auto_indexing: true,
        }),
{
    crate::manager::PartitionPolicy {
        table_name: request.table_name.clone(),
        date_column: request.date_column.clone(),
        interval: request.partition_interval.clone(),
        retention: #[verifier::truncate]
        (request.retention_days as u32),
        auto_indexing: true,
    }
}

/// A policy of the router as callers see it: it is identified by its table;
/// when it was created is not kept.
pub fn reported_policy(p: &crate::manager::PartitionPolicy) -> (r: PartitionPolicy)
    ensures
        r.id@ == p.table_name@,
        r.table_name@ == p.table_name@,
        r.date_column@ == p.date_column@,
        r.partition_interval@ == p.interval@,
        r.retention_days == p.retention as i32,
        r.created_at@ == Seq::<char>::empty(),
{
    PartitionPolicy {
        id: p.table_name.clone(),
        table_name: p.table_name.clone(),
        date_column: p.date_column.clone(),
        partition_interval: p.interval.clone(),
        retention_days: #[verifier::truncate]
        (p.retention as i32),
        created_at: String::new(),
    }
}

/// The logical table that a table named `<base>_p<digits>` is a part of.
pub open spec fn partition_base_of(name: Seq<char>) -> Option<Seq<char>> {
    match rfind(name, "_p"@) {
        Some(pos) => if all_digits(name.skip(pos + "_p"@.len())) {
            Some(name.take(pos))
        } else {
            None
        },
        None => None,
    }
}

/// The logical table that `name` is a part of, if it is named like a part.
pub fn partition_base(name: &str) -> (r: Option<String>)
    ensures
        match partition_base_of(name@) {
            Some(b) => r matches Some(s) && s@ == b,
            None => r is None,
        },
{
    let c = chars_of(name);
    let mark = chars_of("_p");
    match rfind_in(c.as_slice(), mark.as_slice()) {
        Some(pos) => {
            let len = c.len();
            if only_digits(slice_subrange(c.as_slice(), pos + mark.len(), len)) {
                Some(string_of(slice_subrange(c.as_slice(), 0, pos)))
            } else {
                None
            }
        },
        None => None,
    }
}

} // verus!
