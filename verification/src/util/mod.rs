//! A list of files with their matching lines, and a selection that moves
//! through its rows.
use vstd::prelude::*;

use crate::result_list::ListState;

verus! {

pub struct Match(String);

impl Match {
    pub fn new(text: &str) -> (m: Self)
        ensures
            m.text() == text@,
    {
        Match(text.to_owned())
    }

    pub closed spec fn text(&self) -> Seq<char> {
        self.0@
    }
}

pub struct FileEntry {
    name: String,
    matches: Vec<Match>,
}

impl FileEntry {
    pub closed spec fn name(&self) -> Seq<char> {
        self.name@
    }

    pub closed spec fn match_texts(&self) -> Seq<Seq<char>> {
        self.matches@.map_values(|m: Match| m.0@)
    }

    /// The number of rows the file takes: its name and one per match.
    pub closed spec fn rows(&self) -> nat {
        self.matches@.len() + 1
    }

    pub fn new(name: &str, matches: Vec<Match>) -> (e: Self)
        ensures
            e.name() == name@,
            e.match_texts() == matches@.map_values(|m: Match| m.text()),
            e.rows() == matches@.len() + 1,
    {
        let e = FileEntry { name: name.to_owned(), matches };
        assert(e.match_texts() =~= matches@.map_values(|m: Match| m.text()));
        e
    }

    /// The rows: the file's name, then the text of each match.
    pub fn list(&self) -> (v: Vec<&str>)
        ensures
            v@.len() == self.rows(),
            v@[0]@ == self.name(),
            forall|i: int| 0 <= i < self.match_texts().len() ==> (#[trigger] v@[i + 1])@ == self.match_texts()[i],
    {
        let mut v: Vec<&str> = Vec::new();
        v.push(self.name.as_str());
        let mut i: usize = 0;
        while i < self.matches.len()
            invariant
                i <= self.matches@.len(),
                v@.len() == i + 1,
                v@[0]@ == self.name@,
                forall|k: int| 0 <= k < i ==> (#[trigger] v@[k + 1])@ == self.matches@[k].0@,
            decreases self.matches@.len() - i,
        {
            v.push(self.matches[i].0.as_str());
            i = i + 1;
        }
        v
    }
}

/// The number of rows the files `entries` take together.
pub open spec fn total_rows(entries: Seq<FileEntry>) -> nat
    decreases entries.len(),
{
    if entries.len() == 0 {
        0
    } else {
        total_rows(entries.drop_last()) + entries.last().rows()
    }
}

/// Row `k` is the name row of one of the files `entries`.
pub open spec fn is_name_row(entries: Seq<FileEntry>, k: int) -> bool {
    exists|j: int| 0 <= j < entries.len() && #[trigger] total_rows(entries.take(j)) == k
}

/// Files with their matches, shown one row per name and per match.
pub struct StatefulList {
    pub state: ListState,
    pub entries: Vec<FileEntry>,
    headers: Vec<usize>,
}

impl StatefulList {
    pub closed spec fn selection(&self) -> Option<usize> {
        self.state@
    }

    pub closed spec fn files(&self) -> Seq<FileEntry> {
        self.entries@
    }

    /// The name rows are recorded where the files start, and the rows can be
    /// counted in a `usize`.
    pub closed spec fn wf(&self) -> bool {
        &&& self.headers@.len() == self.entries@.len()
        &&& forall|j: int|
            0 <= j < self.headers@.len() ==> #[trigger] self.headers@[j] == total_rows(
                self.entries@.take(j),
            )
        &&& total_rows(self.entries@) <= usize::MAX
    }

    pub fn new() -> (l: StatefulList)
        ensures
            l.wf(),
            l.selection() is None,
            l.files().len() == 0,
    {
        StatefulList { state: ListState::default(), entries: Vec::new(), headers: Vec::new() }
    }

    /// Appends a file.
    pub fn add_entry(&mut self, entry: FileEntry)
        requires
            old(self).wf(),
            total_rows(old(self).files()) + entry.rows() <= usize::MAX,
        ensures
            final(self).wf(),
            final(self).files() == old(self).files().push(entry),
            final(self).selection() == old(self).selection(),
    {
        let ghost es = self.entries@;
        match self.entries.last() {
            Some(e) => {
                let last_header_index = self.headers[self.headers.len() - 1];
                proof {
                    assert(es.take(es.len() - 1) == es.drop_last());
                    assert(es.drop_last().push(es.last()) == es);
                }
                self.headers.push(last_header_index + e.matches.len() + 1);
            },
            None => self.headers.push(0),
        }
        self.entries.push(entry);
        proof {
            let ns = self.entries@;
            assert(ns.drop_last() == es);
            assert forall|j: int|
                0 <= j < self.headers@.len() implies #[trigger] self.headers@[j] == total_rows(
                ns.take(j),
            ) by {
                assert(ns.take(j) == es.take(j) || j == es.len());
                if j < es.len() {
                    assert(ns.take(j) == es.take(j));
                } else {
                    assert(ns.take(j) == es);
                    if es.len() > 0 {
                        assert(es.take(es.len() - 1) == es.drop_last());
                    }
                }
            }
        }
    }

    fn is_header(&self, index: usize) -> (b: bool)
        requires
            self.wf(),
        ensures
            b == is_name_row(self.entries@, index as int),
    {
        let mut j: usize = 0;
        while j < self.headers.len()
            invariant
                self.wf(),
                j <= self.headers@.len(),
                forall|k: int| 0 <= k < j ==> total_rows(self.entries@.take(k)) != index,
            decreases self.headers@.len() - j,
        {
            if self.headers[j] == index {
                assert(total_rows(self.entries@.take(j as int)) == index);
                return true;
            }
            j = j + 1;
        }
        false
    }

    fn row_count(&self) -> (n: usize)
        requires
            self.wf(),
        ensures
            n == total_rows(self.entries@),
    {
        let mut n: usize = 0;
        let mut j: usize = 0;
        while j < self.entries.len()
            invariant
                self.wf(),
                j <= self.entries@.len(),
                n == total_rows(self.entries@.take(j as int)),
            decreases self.entries@.len() - j,
        {
            proof {
                assert(self.entries@.take(j + 1).drop_last() == self.entries@.take(j as int));
                lemma_total_rows_prefix(self.entries@, j + 1);
            }
            n = n + self.entries[j].matches.len() + 1;
            j = j + 1;
        }
        assert(self.entries@.take(j as int) == self.entries@);
        n
    }

    /// Selects the next row, skipping name rows; stays on the last row.
    pub fn next(&mut self)
        requires
            old(self).wf(),
            old(self).selection() matches Some(i) ==> i + 2 <= usize::MAX,
        ensures
            final(self).wf(),
            final(self).files() == old(self).files(),
            old(self).files().len() == 0 ==> final(self).selection() is None,
            old(self).files().len() > 0 ==> final(self).selection() == Some(
                match old(self).selection() {
                    None => 1usize,
                    Some(i) => {
                        let n = if is_name_row(old(self).files(), i + 1) {
                            i + 2
                        } else {
                            i + 1
                        };
                        if n >= total_rows(old(self).files()) {
                            i
                        } else {
                            n as usize
                        }
                    },
                },
            ),
    {
        if self.entries.len() == 0 {
            self.state.select(None);
            return;
        }

        let index = match self.state.selected() {
            Some(i) => {
                let next_index = if self.is_header(i + 1) {
                    i + 2
                } else {
                    i + 1
                };

                if next_index >= self.row_count() {
                    i
                } else {
                    next_index
                }
            },
            None => 1,
        };

        self.state.select(Some(index));
    }

    /// Selects the previous row; from the first row, the row whose index is
    /// the number of files less one.
    pub fn previous(&mut self)
        requires
            old(self).selection() == Some(0usize) ==> old(self).files().len() > 0,
        ensures
            final(self).files() == old(self).files(),
            old(self).wf() ==> final(self).wf(),
            final(self).selection() == Some(
                match old(self).selection() {
                    Some(i) => if i == 0 {
                        (old(self).files().len() - 1) as usize
                    } else {
                        (i - 1) as usize
                    },
                    None => 0usize,
                },
            ),
    {
        let i = match self.state.selected() {
            Some(i) => {
                if i == 0 {
                    self.entries.len() - 1
                } else {
                    i - 1
                }
            },
            None => 0,
        };
        self.state.select(Some(i));
    }

    pub fn unselect(&mut self)
        ensures
            final(self).selection() is None,
            final(self).files() == old(self).files(),
            old(self).wf() ==> final(self).wf(),
    {
        self.state.select(None);
    }
}

proof fn lemma_total_rows_prefix(entries: Seq<FileEntry>, j: int)
    requires
        0 <= j <= entries.len(),
    ensures
        total_rows(entries.take(j)) <= total_rows(entries),
    decreases entries.len() - j,
{
    if j < entries.len() {
        lemma_total_rows_prefix(entries, j + 1);
        assert(entries.take(j + 1).drop_last() == entries.take(j));
    } else {
        assert(entries.take(j) == entries);
    }
}

} // verus!
