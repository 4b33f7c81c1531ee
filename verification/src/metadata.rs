//! The versioned snapshot of a partition configuration that is kept next to
//! the main database file.

use vstd::prelude::*;
use crate::errors::Sqlite3xError;
use crate::manager::{ConfigView, PartitionConfig};

verus! {

/// The version of the snapshot format that is written, and the newest that is read.
pub const METADATA_VERSION: u32 = 1;

/// A snapshot of a partition configuration.
#[derive(Debug, PartialEq)]
pub struct PartitionMetadata {
    pub version: u32,
    pub config: PartitionConfig,
    /// Seconds since the Unix epoch.
    pub created_at: u64,
    /// Seconds since the Unix epoch.
    pub updated_at: u64,
}

/// A snapshot as mathematical data.
pub struct MetadataView {
    pub version: u32,
    pub config: ConfigView,
    pub created_at: u64,
    pub updated_at: u64,
}

impl View for PartitionMetadata {
    type V = MetadataView;

    open spec fn view(&self) -> MetadataView {
        MetadataView {
            version: self.version,
            config: self.config@,
            created_at: self.created_at,
            updated_at: self.updated_at,
        }
    }
}

impl Clone for PartitionMetadata {
    fn clone(&self) -> (r: Self)
        ensures
            r@ == self@,
    {
        PartitionMetadata {
            version: self.version,
            config: self.config.clone(),
            created_at: self.created_at,
            updated_at: self.updated_at,
        }
    }
}

/// The path of the snapshot of the database at `main_db_path`.
pub open spec fn default_path(main_db_path: Seq<char>) -> Seq<char> {
    main_db_path + ".partition_metadata.json"@
}

impl PartitionMetadata {
    /// A snapshot of `config` in the current format, taken at `now` (seconds
    /// since the Unix epoch).
    pub fn new(config: PartitionConfig, now: u64) -> (m: Self)
        ensures
            m@ == (MetadataView {
                version: METADATA_VERSION,
                config: config@,
                created_at: now,
                updated_at: now,
            }),
    {
        PartitionMetadata { version: METADATA_VERSION, config, created_at: now, updated_at: now }
    }

    /// Accepts a snapshot that was read back: one of a version newer than
    /// this library writes is refused, any other is handed on unchanged.
    pub fn load(decoded: PartitionMetadata) -> (r: Result<PartitionMetadata, Sqlite3xError>)
        ensures
            decoded.version <= METADATA_VERSION ==> r == Ok::<PartitionMetadata, Sqlite3xError>(
                decoded,
            ),
            decoded.version > METADATA_VERSION ==> r matches Err(Sqlite3xError::Query(_)),
    {
        if decoded.version > METADATA_VERSION {
            let mut detail = "Unsupported metadata version: ".to_string();
            crate::text::push_decimal(&mut detail, decoded.version as u64);
            Err(Sqlite3xError::Query(detail))
        } else {
            Ok(decoded)
        }
    }

    /// The path of the snapshot of the database at `main_db_path`.
    pub fn get_default_path(main_db_path: &str) -> (p: String)
        ensures
            p@ == default_path(main_db_path@),
    {
        crate::errors::prefixed(main_db_path, ".partition_metadata.json")
    }
}

} // verus!
