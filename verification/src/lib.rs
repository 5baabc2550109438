//! A personalised line formatter for a dual-sink (console and file) logging
//! pipeline.
//!
//! The core is a stateful formatter that, per log record, suppresses a
//! timestamp repeated within the same second, overwrites the previous console
//! line when a record carries a leading carriage-return marker, indents
//! continuation lines of multi-line messages, and colourizes the severity for
//! the console while keeping file output free of escape sequences.

pub mod clock;
pub mod formatter;
pub mod graphemes;
pub mod level;
pub mod render;

pub use formatter::Formatter;
pub use formatter::Rendered;
pub use level::Level;
pub use level::Output;
