//! Project document rules: validation, schema versions and migration.

/// Validation, schema dispatch and migration of stored projects.
pub mod storage;
