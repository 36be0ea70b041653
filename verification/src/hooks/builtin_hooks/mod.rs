//! The hooks that come with the library.

pub mod appendices;
pub mod backtrace;
pub mod location;
pub mod report_formatter;
