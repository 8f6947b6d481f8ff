//! Search results of one file, with the byte ranges that matched on each line.
use vstd::prelude::*;

verus! {

/// A matching line: its number, its text and the byte ranges that matched.
pub struct Match {
    pub line_number: u64,
    pub text: String,
    pub match_offsets: Vec<(usize, usize)>,
}

impl Match {
    pub fn new(line_number: u64, text: &str, match_offsets: Vec<(usize, usize)>) -> (m: Self)
        ensures
            m.line_number == line_number,
            m.text@ == text@,
            m.match_offsets == match_offsets,
    {
        Match { line_number, text: text.to_owned(), match_offsets }
    }
}

/// One row of the result list: a file header or a matching line.
pub enum EntryType {
    Header(String),
    Match(u64, String, Vec<(usize, usize)>),
}

/// The rows of one file: its header, then one row per match.
pub struct FileEntry(pub Vec<EntryType>);

impl FileEntry {
    pub fn new(name: &str, matches: Vec<Match>) -> (e: Self)
        ensures
            e.0@.len() == matches@.len() + 1,
            e.0@[0] matches EntryType::Header(h) && h@ == name@,
            forall|i: int|
                0 <= i < matches@.len() ==> (#[trigger] e.0@[i + 1] matches EntryType::Match(
                    n,
                    t,
                    o,
                ) && n == matches@[i].line_number && t == matches@[i].text && o
                    == matches@[i].match_offsets),
    {
        let mut rows: Vec<EntryType> = Vec::new();
        rows.push(EntryType::Header(name.to_owned()));
        let ghost all = matches@;
        for m in it: matches
            invariant
                it.seq() == all,
                rows@.len() == it.index() + 1,
                rows@[0] matches EntryType::Header(h) && h@ == name@,
                forall|i: int|
                    0 <= i < it.index() ==> (#[trigger] rows@[i + 1] matches EntryType::Match(
                        n,
                        t,
                        o,
                    ) && n == all[i].line_number && t == all[i].text && o == all[i].match_offsets),
        {
            rows.push(EntryType::Match(m.line_number, m.text, m.match_offsets));
        }
        FileEntry(rows)
    }
}

} // verus!
