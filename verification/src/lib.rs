//! Interactive grep: the result list of a search and how the user moves
//! through it, the key handling, the application's state, the choice of the
//! text editor that opens a match, and the reading of ripgrep's configuration
//! file.
pub mod args;
pub mod editor;
pub mod entries;
pub mod grep_match;
pub mod ig;
pub mod result_list;
pub mod text;
pub mod ui;
pub mod util;
