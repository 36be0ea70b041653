//! A structured error-reporting library: reports form a tree whose nodes carry
//! a context, attachments and child reports, and the tree is rendered with a
//! configurable layout.

pub mod __private;
pub mod compat;
pub mod handlers;
pub mod hooks;
pub mod into_report;
pub mod iterator_ext;
pub mod markers;
pub mod object;
pub mod option_ext;
pub mod preformatted;
pub mod report;
pub mod result_ext;
pub mod text;
