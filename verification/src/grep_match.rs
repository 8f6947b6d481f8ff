//! One match reported by the searcher: a line, its text and where in the text
//! the pattern matched.
use vstd::prelude::*;

verus! {

pub struct GrepMatch {
    pub line_number: u64,
    pub text: String,
    /// Byte ranges `(start, end)` of the matches within `text`.
    pub match_offsets: Vec<(usize, usize)>,
}

impl GrepMatch {
    pub fn new(line_number: u64, text: String, match_offsets: Vec<(usize, usize)>) -> (m: Self)
        ensures
            m.line_number == line_number,
            m.text == text,
            m.match_offsets == match_offsets,
    {
        Self { line_number, text, match_offsets }
    }
}

} // verus!
