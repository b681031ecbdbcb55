//! Backup helper: incremental one-way backup and verified two-way sync planning.
pub mod backup;
pub mod config;
pub mod engine;
pub mod logger;
pub mod path_map;
pub mod status;
pub mod sync;
pub mod text;
pub mod v2;
