//! Lifecycle of an embedded database: the path configuration guarded until
//! the first open, the append-only migration ledger and its reconciliation
//! against a declared migration list, and the SQL statement text generated
//! for each managed entity.

pub mod migrations;
pub mod db_path;
pub mod render;
pub mod sql_render;
