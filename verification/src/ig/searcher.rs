//! What the background search reports.
use vstd::prelude::*;

use super::file_entry::FileEntry;

verus! {

pub enum Event {
    /// The matches of one more file.
    NewEntry(FileEntry),
    /// Every path has been searched.
    SearchingFinished,
    /// A search thread failed.
    Error,
}

} // verus!
