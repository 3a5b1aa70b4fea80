//! Running SQL statements against a data source and rendering what comes back:
//! splitting a script into statements, binding parameters to placeholders,
//! deciding what the driver is asked to do next, and rendering result sets as
//! schema listing, debug text, vertical text or JSON lines.

pub mod avro;
pub mod error;
pub mod executor;
pub mod json;
pub mod mode;
pub mod query;
pub mod render;
pub mod split;
pub mod text;
