//! Search results of one file: a header naming the file, then its matching lines.
use vstd::prelude::*;

verus! {

/// A matching line: its number and its text.
pub struct Match {
    pub line_number: u64,
    pub text: String,
}

impl Match {
    pub fn new(line_number: u64, text: &str) -> (m: Self)
        ensures
            m.line_number == line_number,
            m.text@ == text@,
    {
        Match { line_number, text: text.to_owned() }
    }
}

/// One row of the result list: a file header or a matching line.
pub enum EntryType {
    Header(String),
    Match(u64, String),
}

/// The rows of one file: its header, then one row per match.
pub struct FileEntry(pub Vec<EntryType>);

impl FileEntry {
    /// Rows of a file that has at least one match: a header first, then
    /// matching lines only.
    pub open spec fn wf(&self) -> bool {
        &&& self.0@.len() >= 2
        &&& self.0@[0] is Header
        &&& forall|i: int| 1 <= i < self.0@.len() ==> #[trigger] self.0@[i] is Match
    }

    pub fn new(name: &str, matches: Vec<Match>) -> (e: Self)
        ensures
            e.0@.len() == matches@.len() + 1,
            e.0@[0] matches EntryType::Header(h) && h@ == name@,
            forall|i: int|
                0 <= i < matches@.len() ==> (#[trigger] e.0@[i + 1] matches EntryType::Match(
                    n,
                    t,
                ) && n == matches@[i].line_number && t == matches@[i].text),
            matches@.len() > 0 ==> e.wf(),
    {
        let mut rows: Vec<EntryType> = Vec::new();
        rows.push(EntryType::Header(name.to_owned()));
        let ghost all = matches@;
        for m in it: matches
            invariant
                it.seq() == all,
                rows@.len() == it.index() + 1,
                rows@[0] matches EntryType::Header(h) && h@ == name@,
                forall|i: int|
                    0 <= i < it.index() ==> (#[trigger] rows@[i + 1] matches EntryType::Match(
                        n,
                        t,
                    ) && n == all[i].line_number && t == all[i].text),
        {
            rows.push(EntryType::Match(m.line_number, m.text));
        }
        let e = FileEntry(rows);
        assert(matches@.len() > 0 ==> e.wf()) by {
            assert forall|i: int| 1 <= i < e.0@.len() implies #[trigger] e.0@[i] is Match by {
                assert(e.0@[(i - 1) + 1] is Match);
            }
        }
        e
    }
}

} // verus!
