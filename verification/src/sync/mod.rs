//! Two-way sync engine logic: indexes, three-way diff, and the decisions of
//! apply, reconcile and undo.
pub mod apply;
pub mod cloud;
pub mod db;
pub mod diff;
pub mod laws;
pub mod ops;
pub mod scan;
pub mod store;
pub mod types;
