//! Verified core of a database client's schema tooling: SQL identifier quoting, schema
//! migration scripts, metadata diffs, the comparison and designer dialogs, table-designer
//! SQL, and the state of the result panel and the schema diagram.

pub mod text;
pub mod domain;
pub mod sql_text;
pub mod metadata;
pub mod migration;
pub mod schema_diff;
pub mod designer;
pub mod result_panel;
pub mod result_ops;
pub mod approval;
pub mod migration_review;
pub mod schema_diagram;
pub mod schema_diff_dialog;
pub mod table_properties;
pub mod result_export;
pub mod designer_view;
