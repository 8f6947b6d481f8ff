//! The editor used to open matches, as the interface names it.
pub use crate::editor::Editor;
