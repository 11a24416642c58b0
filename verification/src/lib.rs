//! Loads declarative test fixtures from record files into a relational test
//! database: record files are compiled into parameterized DELETE and INSERT
//! statements, a change detector skips tables whose contents have not moved
//! since the previous load, and a transactional session protocol applies the
//! statements atomically behind a safety check against non-test databases.

mod checksum;
mod datetime;
mod error;
mod fixture_file;
mod loader;
mod mysql;
mod postgresql;
mod record_source;
mod text;
mod value;

pub use checksum::{is_table_modified, ChecksumMap};
pub use error::FixtureError;
pub use loader::{
    ensure_test_database, FixtureSource, Loader, LoaderConfig, LoadRequest, LoadSession,
    LoadState, Location, PlanStep,
};
pub use mysql::MySql;
pub use postgresql::{PgConstraint, PostgreSql};
pub use record_source::spec_records_of;
pub use datetime::{try_str_to_date, Datetime};
pub use fixture_file::{compile_record, FixtureEntry, FixtureFile, FixtureRecord, InsertSql};
pub use text::{base_name, file_stem, i64_to_string, join_comma, u64_to_string};
pub use value::{coerce, FixtureValue, SqlParam};
