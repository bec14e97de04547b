//! Google Cloud structured logging: the formatting of tracing events as
//! simplified structured log entries, and the rendering of structured log
//! entries as readable lines.

pub mod formatter;
pub mod viewer;

pub mod external;
pub mod text;
