//! The list of search results shown to the user, and the selection that moves
//! through it.
use vstd::prelude::*;

use vstd::std_specs::iter::IteratorSpec;

use crate::entries;
use crate::ig::file_entry::{EntryType, FileEntry as FoundFile};

verus! {

/// Which row of the result list is selected, if any.
#[derive(Copy, Clone)]
pub struct ListState(Option<usize>);

impl View for ListState {
    type V = Option<usize>;

    closed spec fn view(&self) -> Option<usize> {
        self.0
    }
}

impl Default for ListState {
    fn default() -> (s: Self)
        ensures
            s@ is None,
    {
        ListState(None)
    }
}

impl ListState {
    pub fn select(&mut self, index: Option<usize>)
        ensures
            final(self)@ == index,
    {
        self.0 = index;
    }

    pub fn selected(&self) -> (r: Option<usize>)
        ensures
            r == self@,
    {
        self.0
    }
}

/// Row `i` of `s` is a file header.
pub open spec fn is_header_at(s: Seq<EntryType>, i: int) -> bool {
    s[i] is Header
}

/// Rows as the search produces them: each file contributes its header
/// followed by at least one matching line.
pub open spec fn entries_wf(s: Seq<EntryType>) -> bool {
    s.len() == 0 || {
        &&& s[0] is Header
        &&& s.last() is Match
        &&& forall|i: int|
            0 <= i < s.len() - 1 && #[trigger] is_header_at(s, i) ==> s[i + 1] is Match
    }
}

/// `j` is the first match after row `i`, or `i` itself when no match follows.
pub open spec fn next_match_of(s: Seq<EntryType>, i: int, j: int) -> bool {
    ||| (i < j < s.len() && s[j] is Match && forall|k: int|
        i < k < j ==> !(#[trigger] s[k] is Match))
    ||| (j == i && forall|k: int| i < k < s.len() ==> !(#[trigger] s[k] is Match))
}

/// `j` is the last match before row `i`, or `i` itself when no match precedes.
pub open spec fn previous_match_of(s: Seq<EntryType>, i: int, j: int) -> bool {
    ||| (0 <= j < i && s[j] is Match && forall|k: int| j < k < i ==> !(#[trigger] s[k] is Match))
    ||| (j == i && forall|k: int| 0 <= k < i ==> !(#[trigger] s[k] is Match))
}

/// `j` is the row right after the first header that follows row `i` (the
/// first match of the next file), or `i` itself when no file follows.
pub open spec fn next_file_of(s: Seq<EntryType>, i: int, j: int) -> bool {
    ||| (i < j - 1 && j - 1 < s.len() && s[j - 1] is Header && forall|k: int|
        i < k < j - 1 ==> !(#[trigger] s[k] is Header))
    ||| (j == i && forall|k: int| i < k < s.len() ==> !(#[trigger] s[k] is Header))
}

/// Row `h` is the header of the file that row `i` belongs to.
pub open spec fn header_of(s: Seq<EntryType>, i: int, h: int) -> bool {
    &&& 0 <= h <= i < s.len()
    &&& s[h] is Header
    &&& forall|k: int| h < k <= i ==> !(#[trigger] s[k] is Header)
}

/// `j` is the row right after the header of the file before the one of row
/// `i` (the first match of the previous file); in the first file, the row
/// right after its own header.
pub open spec fn previous_file_of(s: Seq<EntryType>, i: int, j: int) -> bool {
    exists|h: int|
        #[trigger] header_of(s, i, h) && {
            ||| (0 < j <= h && s[j - 1] is Header && forall|k: int|
                j - 1 < k < h ==> !(#[trigger] s[k] is Header))
            ||| (j == h + 1 && forall|k: int| 0 <= k < h ==> !(#[trigger] s[k] is Header))
        }
}

/// The file name a header row carries.
pub open spec fn header_name(e: EntryType) -> Seq<char> {
    match e {
        EntryType::Header(n) => n@,
        EntryType::Match(_, _, _) => Seq::empty(),
    }
}

/// The line number a match row carries.
pub open spec fn line_of(e: EntryType) -> u64 {
    match e {
        EntryType::Header(_) => 0,
        EntryType::Match(n, _, _) => n,
    }
}

/// Match row `i` of `s` is line `line_number` of the file named `name`.
pub open spec fn entry_at(s: Seq<EntryType>, i: int, name: Seq<char>, line_number: u64) -> bool {
    &&& s[i] is Match
    &&& line_of(s[i]) == line_number
    &&& exists|h: int| #[trigger] header_of(s, i, h) && header_name(s[h]) == name
}

/// `a + b`, capped at `usize::MAX`.
pub open spec fn saturating_add(a: int, b: int) -> usize {
    if a + b <= usize::MAX {
        (a + b) as usize
    } else {
        usize::MAX
    }
}

/// The number of matching lines in `s`.
pub open spec fn count_matches(s: Seq<EntryType>) -> nat
    decreases s.len(),
{
    if s.len() == 0 {
        0
    } else {
        count_matches(s.drop_last()) + if s.last() is Match {
            1nat
        } else {
            0nat
        }
    }
}

/// The number of file headers in `s`.
pub open spec fn count_headers(s: Seq<EntryType>) -> nat
    decreases s.len(),
{
    if s.len() == 0 {
        0
    } else {
        count_headers(s.drop_last()) + if s.last() is Header {
            1nat
        } else {
            0nat
        }
    }
}

proof fn lemma_header_precedes_match(s: Seq<EntryType>, i: int)
    requires
        entries_wf(s),
        1 <= i < s.len(),
        s[i] is Header,
    ensures
        s[i - 1] is Match,
{
    if s[i - 1] is Header {
        assert(is_header_at(s, i - 1));
    }
}

proof fn lemma_append_wf(a: Seq<EntryType>, b: Seq<EntryType>)
    requires
        entries_wf(a),
        b.len() >= 2,
        b[0] is Header,
        forall|i: int| 1 <= i < b.len() ==> #[trigger] b[i] is Match,
    ensures
        entries_wf(a + b),
{
    let s = a + b;
    assert(s.last() == b[b.len() - 1]);
    assert forall|i: int| 0 <= i < s.len() - 1 && #[trigger] is_header_at(s, i) implies s[i
        + 1] is Match by {
        if i < a.len() - 1 {
            assert(is_header_at(a, i));
        } else if i == a.len() - 1 {
            assert(s[i] == a.last());
        } else {
            assert(s[i] == b[i - a.len()]);
            assert(s[i + 1] == b[i + 1 - a.len()]);
        }
    }
}

/// Moving to the next match and then back to the previous one returns to the
/// match one started from, whenever the first move went anywhere.
pub proof fn law_previous_match_undoes_next_match(s: Seq<EntryType>, i: int, j: int, k: int)
    requires
        0 <= i < s.len(),
        s[i] is Match,
        next_match_of(s, i, j),
        j != i,
        previous_match_of(s, j, k),
    ensures
        k == i,
{
    if k < i {
        assert(!(s[i] is Match));
    } else if i < k {
        assert(!(s[k] is Match));
    }
}

/// Moving to the previous match and then to the next one returns to the
/// match one started from, whenever the first move went anywhere.
pub proof fn law_next_match_undoes_previous_match(s: Seq<EntryType>, i: int, j: int, k: int)
    requires
        0 <= i < s.len(),
        s[i] is Match,
        previous_match_of(s, i, j),
        j != i,
        next_match_of(s, j, k),
    ensures
        k == i,
{
    if k < i {
        assert(!(s[k] is Match));
    } else if i < k {
        assert(!(s[i] is Match));
    }
}

/// Moving to the next match or file never goes back, and moving to the
/// previous match or file never goes forward.
pub proof fn law_moves_keep_direction(s: Seq<EntryType>, i: int, j: int)
    ensures
        next_match_of(s, i, j) ==> i <= j,
        next_file_of(s, i, j) ==> i <= j,
        previous_match_of(s, i, j) ==> j <= i,
        previous_file_of(s, i, j) && s[i] is Match ==> j <= i,
{
    if previous_file_of(s, i, j) {
        let h = choose|h: int| #[trigger] header_of(s, i, h) && {
            ||| (0 < j <= h && s[j - 1] is Header && forall|k: int|
                j - 1 < k < h ==> !(#[trigger] s[k] is Header))
            ||| (j == h + 1 && forall|k: int| 0 <= k < h ==> !(#[trigger] s[k] is Header))
        };
    }
}

proof fn lemma_headers_within_matches(s: Seq<EntryType>, n: int)
    requires
        entries_wf(s),
        0 <= n <= s.len(),
    ensures
        count_headers(s.take(n)) <= count_matches(s.take(n)) + if n > 0 && s[n - 1] is Header {
            1int
        } else {
            0int
        },
    decreases n,
{
    if n > 0 {
        lemma_headers_within_matches(s, n - 1);
        assert(s.take(n).drop_last() == s.take(n - 1));
        if s[n - 1] is Header && n > 1 {
            lemma_header_precedes_match(s, n - 1);
        }
    }
}

/// Every file in the list has at least one matching line: there are never
/// more files than matches.
pub proof fn law_files_at_most_matches(s: Seq<EntryType>)
    requires
        entries_wf(s),
    ensures
        count_headers(s) <= count_matches(s),
{
    lemma_headers_within_matches(s, s.len() as int);
    assert(s.take(s.len() as int) == s);
}

/// Every row is either a file or a match.
pub proof fn law_rows_are_files_and_matches(s: Seq<EntryType>)
    ensures
        count_headers(s) + count_matches(s) == s.len(),
    decreases s.len(),
{
    if s.len() > 0 {
        law_rows_are_files_and_matches(s.drop_last());
    }
}

/// Adding the rows of a file adds its matches and its header to the counts.
pub proof fn law_counts_add_up(a: Seq<EntryType>, b: Seq<EntryType>)
    ensures
        count_matches(a + b) == count_matches(a) + count_matches(b),
        count_headers(a + b) == count_headers(a) + count_headers(b),
    decreases b.len(),
{
    if b.len() == 0 {
        assert(a + b == a);
    } else {
        law_counts_add_up(a, b.drop_last());
        assert((a + b).drop_last() == a + b.drop_last());
    }
}

/// The first match of a list is match number 1, and its last row is the
/// match numbered as many as there are matches.
pub proof fn law_first_and_last_match_numbers(s: Seq<EntryType>)
    requires
        entries_wf(s),
        s.len() > 0,
    ensures
        count_matches(s.take(2)) == 1,
        count_matches(s.take(s.len() as int)) == count_matches(s),
{
    assert(s.len() >= 2);
    assert(is_header_at(s, 0));
    assert(s.take(2).last() == s[1]);
    assert(s.take(1).last() == s[0]);
    assert(s.take(2).drop_last() == s.take(1));
    assert(s.take(1).drop_last() == s.take(0));
    assert(s[1] is Match);
    assert(count_matches(s.take(0)) == 0);
    assert(count_matches(s.take(1)) == 0);
    assert(count_matches(s.take(2)) == 1);
    assert(s.take(s.len() as int) == s);
}

/// Row `n` is where the file of row `i` ends: the first header after `i`, or
/// the end of the list.
pub open spec fn file_end_of(s: Seq<EntryType>, i: int, n: int) -> bool {
    &&& i < n <= s.len()
    &&& (n == s.len() || s[n] is Header)
    &&& forall|k: int| i < k < n ==> !(#[trigger] s[k] is Header)
}

/// Match row `i` is the only match of its file.
pub open spec fn only_match_in_file(s: Seq<EntryType>, i: int) -> bool {
    &&& s[i - 1] is Header
    &&& (i == s.len() - 1 || s[i + 1] is Header)
}

/// `t` and `selected` are what removing the file of the selected row `i`
/// leaves of `s`: its header and its matches are gone; the first match of the
/// next file is selected, or, when the last file went, the last match of the
/// file before; nothing when no file is left.
pub open spec fn file_removed(s: Seq<EntryType>, i: int, t: Seq<EntryType>, selected: Option<usize>) -> bool {
    exists|h: int, n: int|
        #[trigger] header_of(s, i, h) && #[trigger] file_end_of(s, i, n) && {
            &&& t == s.subrange(0, h) + s.subrange(n, s.len() as int)
            &&& selected == if t.len() == 0 {
                None::<usize>
            } else if h < t.len() {
                Some((h + 1) as usize)
            } else {
                Some((h - 1) as usize)
            }
        }
}

/// `t` and `selected` are what removing the selected match row `i` leaves
/// of `s`: a file's only match goes with its file; any other match goes
/// alone, and the selection stays on the row that now holds the next match
/// of the same file, or moves to the match before it.
pub open spec fn entry_removed(s: Seq<EntryType>, i: int, t: Seq<EntryType>, selected: Option<usize>) -> bool {
    if only_match_in_file(s, i) {
        file_removed(s, i, t, selected)
    } else {
        &&& t == s.remove(i)
        &&& selected == if i + 1 < s.len() && s[i + 1] is Match {
            Some(i as usize)
        } else {
            Some((i - 1) as usize)
        }
    }
}

proof fn lemma_remove_file_wf(s: Seq<EntryType>, h: int, n: int)
    requires
        entries_wf(s),
        0 <= h < n <= s.len(),
        s[h] is Header,
        n == s.len() || s[n] is Header,
    ensures
        entries_wf(s.subrange(0, h) + s.subrange(n, s.len() as int)),
{
    let a = s.subrange(0, h);
    let b = s.subrange(n, s.len() as int);
    let t = a + b;
    if h > 0 {
        lemma_header_precedes_match(s, h);
    }
    if t.len() > 0 {
        if h > 0 {
            assert(t[0] == s[0]);
        } else {
            assert(t[0] == s[n]);
        }
        if n < s.len() {
            assert(t.last() == s.last());
        } else {
            assert(t.last() == s[h - 1]);
        }
        assert forall|k: int| 0 <= k < t.len() - 1 && #[trigger] is_header_at(t, k) implies t[k
            + 1] is Match by {
            if k < h - 1 {
                assert(t[k] == s[k]);
                assert(t[k + 1] == s[k + 1]);
                assert(is_header_at(s, k));
            } else if k == h - 1 {
                assert(t[k] == s[h - 1]);
            } else {
                assert(t[k] == s[k - h + n]);
                assert(t[k + 1] == s[k + 1 - h + n]);
                assert(is_header_at(s, k - h + n));
            }
        }
    }
}

proof fn lemma_remove_row_wf(s: Seq<EntryType>, i: int)
    requires
        entries_wf(s),
        0 < i < s.len(),
        s[i] is Match,
        !only_match_in_file(s, i),
    ensures
        entries_wf(s.remove(i)),
{
    let t = s.remove(i);
    assert(t[0] == s[0]);
    if s[i - 1] is Header {
        assert(is_header_at(s, i - 1));
        assert(i + 1 < s.len());
    }
    if i == s.len() - 1 {
        assert(t.last() == s[i - 1]);
    } else {
        assert(t.last() == s.last());
    }
    assert forall|k: int| 0 <= k < t.len() - 1 && #[trigger] is_header_at(t, k) implies t[k
        + 1] is Match by {
        if k < i - 1 {
            assert(is_header_at(s, k));
        } else if k == i - 1 {
            assert(t[k + 1] == s[i + 1]);
            if s[i + 1] is Header {
                assert(is_header_at(s, i - 1));
            }
        } else {
            assert(is_header_at(s, k + 1));
        }
    }
}

proof fn lemma_count_headers_of_one_file(s: Seq<EntryType>, h: int, m: int)
    requires
        0 <= h < m <= s.len(),
        s[h] is Header,
        forall|k: int| h < k < m ==> !(#[trigger] s[k] is Header),
    ensures
        count_headers(s.subrange(h, m)) == 1,
    decreases m - h,
{
    let x = s.subrange(h, m);
    assert(x.drop_last() == s.subrange(h, m - 1));
    assert(x.last() == s[m - 1]);
    if m - 1 > h {
        lemma_count_headers_of_one_file(s, h, m - 1);
        assert(!(s[m - 1] is Header));
    } else {
        assert(count_headers(s.subrange(h, m - 1)) == 0);
    }
    assert(count_headers(x) == count_headers(x.drop_last()) + if x.last() is Header {
        1nat
    } else {
        0nat
    });
}

proof fn lemma_split_counts(s: Seq<EntryType>, a: int, b: int)
    requires
        0 <= a <= b <= s.len(),
    ensures
        count_matches(s) == count_matches(s.subrange(0, a)) + count_matches(s.subrange(a, b))
            + count_matches(s.subrange(b, s.len() as int)),
        count_headers(s) == count_headers(s.subrange(0, a)) + count_headers(s.subrange(a, b))
            + count_headers(s.subrange(b, s.len() as int)),
        count_matches(s.subrange(0, a) + s.subrange(b, s.len() as int)) == count_matches(
            s.subrange(0, a),
        ) + count_matches(s.subrange(b, s.len() as int)),
        count_headers(s.subrange(0, a) + s.subrange(b, s.len() as int)) == count_headers(
            s.subrange(0, a),
        ) + count_headers(s.subrange(b, s.len() as int)),
{
    let x = s.subrange(0, a);
    let y = s.subrange(a, b);
    let z = s.subrange(b, s.len() as int);
    assert(s == x + y + z);
    law_counts_add_up(x + y, z);
    law_counts_add_up(x, y);
    law_counts_add_up(x, z);
}

/// Filtering out a file removes exactly one file from the list.
pub proof fn law_filtering_a_file_removes_one_file(
    s: Seq<EntryType>,
    i: int,
    t: Seq<EntryType>,
    selected: Option<usize>,
)
    requires
        entries_wf(s),
        0 <= i < s.len(),
        s[i] is Match,
        file_removed(s, i, t, selected),
    ensures
        count_headers(t) == count_headers(s) - 1,
{
    let (h, n) = choose|h: int, n: int|
        #[trigger] header_of(s, i, h) && #[trigger] file_end_of(s, i, n) && {
            &&& t == s.subrange(0, h) + s.subrange(n, s.len() as int)
            &&& selected == if t.len() == 0 {
                None::<usize>
            } else if h < t.len() {
                Some((h + 1) as usize)
            } else {
                Some((h - 1) as usize)
            }
        };
    lemma_split_counts(s, h, n);
    lemma_count_headers_of_one_file(s, h, n);
}

/// Filtering out a match removes exactly one match from the list.
pub proof fn law_filtering_a_match_removes_one_match(
    s: Seq<EntryType>,
    i: int,
    t: Seq<EntryType>,
    selected: Option<usize>,
)
    requires
        entries_wf(s),
        0 <= i < s.len(),
        s[i] is Match,
        entry_removed(s, i, t, selected),
    ensures
        count_matches(t) == count_matches(s) - 1,
{
    if only_match_in_file(s, i) {
        let (h, n) = choose|h: int, n: int|
            #[trigger] header_of(s, i, h) && #[trigger] file_end_of(s, i, n) && {
                &&& t == s.subrange(0, h) + s.subrange(n, s.len() as int)
                &&& selected == if t.len() == 0 {
                    None::<usize>
                } else if h < t.len() {
                    Some((h + 1) as usize)
                } else {
                    Some((h - 1) as usize)
                }
            };
        assert(h == i - 1);
        if i + 1 < s.len() {
            assert(s[i + 1] is Header);
        }
        assert(n == i + 1);
        lemma_split_counts(s, h, n);
        let y = s.subrange(h, n);
        assert(y.drop_last().drop_last().len() == 0);
        assert(count_matches(y.drop_last().drop_last()) == 0);
        assert(y.last() == s[i]);
        assert(y.drop_last().last() == s[i - 1]);
        assert(count_matches(y.drop_last()) == 0);
        assert(count_matches(y) == 1);
    } else {
        lemma_split_counts(s, i, i + 1);
        assert(t == s.subrange(0, i) + s.subrange(i + 1, s.len() as int));
        let y = s.subrange(i, i + 1);
        assert(y.drop_last().len() == 0);
        assert(count_matches(y.drop_last()) == 0);
        assert(y.last() == s[i]);
        assert(count_matches(y) == 1);
    }
}

/// `row` shows what the row `old_row` of a file shows: the same header, or
/// the same line, with no match to highlight in it.
pub open spec fn shown_as(old_row: entries::EntryType, row: EntryType) -> bool {
    match old_row {
        entries::EntryType::Header(h) => row == EntryType::Header(h),
        entries::EntryType::Match(n, t) => row matches EntryType::Match(m, u, o) && m == n && u == t
            && o@.len() == 0,
    }
}

/// `b` are the rows of one file: its header, then matching lines only (none
/// at all for a file without matches).
pub open spec fn header_then_matches(b: Seq<EntryType>) -> bool {
    &&& b.len() >= 1
    &&& b[0] is Header
    &&& forall|i: int| 1 <= i < b.len() ==> #[trigger] b[i] is Match
}

/// `b` are the rows of one file with at least one match.
pub open spec fn file_rows(b: Seq<EntryType>) -> bool {
    &&& header_then_matches(b)
    &&& b.len() >= 2
}

/// Adding the rows of one file adds one file, and one match per row after
/// its header.
pub proof fn law_adding_a_file_adds_one_file(a: Seq<EntryType>, b: Seq<EntryType>)
    requires
        header_then_matches(b),
    ensures
        count_headers(a + b) == count_headers(a) + 1,
        count_matches(a + b) == count_matches(a) + b.len() - 1,
{
    law_counts_add_up(a, b);
    lemma_count_headers_of_one_file(b, 0, b.len() as int);
    assert(b.subrange(0, b.len() as int) == b);
    law_rows_are_files_and_matches(b);
}

/// The search results: file headers and matching lines in one list.
pub struct ResultList {
    entries: Vec<EntryType>,
    state: ListState,
    /// How many matches were filtered out.
    filtered: usize,
}

impl Default for ResultList {
    fn default() -> (r: Self)
        ensures
            r.wf(),
            r.entries().len() == 0,
            r.selected() is None,
            r.filtered() == 0,
    {
        ResultList { entries: Vec::new(), state: ListState(None), filtered: 0 }
    }
}

impl ResultList {
    /// The rows of the list.
    pub closed spec fn entries(&self) -> Seq<EntryType> {
        self.entries@
    }

    /// The selected row.
    pub closed spec fn selected(&self) -> Option<usize> {
        self.state@
    }

    /// How many matches were filtered out, up to `usize::MAX`.
    pub closed spec fn filtered(&self) -> usize {
        self.filtered
    }

    /// The rows are well formed, and a match is selected exactly when the list
    /// is not empty.
    pub open spec fn wf(&self) -> bool {
        &&& entries_wf(self.entries())
        &&& (self.selected() is None <==> self.entries().len() == 0)
        &&& (self.selected() matches Some(i) ==> i < self.entries().len() && self.entries()[i as int] is Match)
    }

    /// Appends the rows of one file; when nothing was selected, selects the
    /// first match if the list now has rows.
    pub fn add_entry(&mut self, entry: entries::FileEntry)
        ensures
            final(self).entries().len() == old(self).entries().len() + entry.0@.len(),
            final(self).entries().subrange(0, old(self).entries().len() as int) == old(
                self,
            ).entries(),
            forall|i: int|
                0 <= i < entry.0@.len() ==> shown_as(
                    entry.0@[i],
                    #[trigger] final(self).entries()[old(self).entries().len() + i],
                ),
            count_headers(final(self).entries()) == count_headers(old(self).entries())
                + count_headers(
                final(self).entries().subrange(
                    old(self).entries().len() as int,
                    final(self).entries().len() as int,
                ),
            ),
            count_matches(final(self).entries()) == count_matches(old(self).entries())
                + count_matches(
                final(self).entries().subrange(
                    old(self).entries().len() as int,
                    final(self).entries().len() as int,
                ),
            ),
            entry.0@.len() >= 1 && entry.0@[0] is Header && (forall|i: int|
                1 <= i < entry.0@.len() ==> #[trigger] entry.0@[i] is Match) ==> {
                &&& count_headers(final(self).entries()) == count_headers(old(self).entries()) + 1
                &&& count_matches(final(self).entries()) == count_matches(old(self).entries())
                    + entry.0@.len() - 1
            },
            final(self).filtered() == old(self).filtered(),
            final(self).selected() == if old(self).selected() is None {
                if final(self).entries().len() > 0 {
                    Some(1usize)
                } else {
                    None
                }
            } else {
                old(self).selected()
            },
            old(self).wf() && (entry.wf() || entry.0@.len() == 0) ==> final(self).wf(),
    {
        let ghost given = entry.0@;
        let mut rows: Vec<EntryType> = Vec::new();
        for e in it: entry.0
            invariant
                it.seq() == given,
                rows@.len() == it.index(),
                forall|k: int| 0 <= k < it.index() ==> shown_as(given[k], #[trigger] rows@[k]),
        {
            let row = match e {
                entries::EntryType::Header(h) => EntryType::Header(h),
                entries::EntryType::Match(n, t) => EntryType::Match(n, t, Vec::new()),
            };
            rows.push(row);
        }
        let ghost before = self.entries@;
        let ghost added = rows@;
        proof {
            law_counts_add_up(before, added);
            if given.len() >= 1 && given[0] is Header && (forall|i: int|
                1 <= i < given.len() ==> #[trigger] given[i] is Match) {
                assert(shown_as(given[0], added[0]));
                assert forall|i: int| 1 <= i < added.len() implies #[trigger] added[i] is Match by {
                    assert(given[i] is Match);
                    assert(shown_as(given[i], added[i]));
                }
                law_adding_a_file_adds_one_file(before, added);
            }
            if old(self).wf() && entry.wf() {
                assert(shown_as(given[0], added[0]));
                assert forall|i: int| 1 <= i < added.len() implies #[trigger] added[i] is Match by {
                    assert(given[i] is Match);
                    assert(shown_as(given[i], added[i]));
                }
                lemma_append_wf(before, added);
            }
        }
        self.entries.append(&mut rows);
        proof {
            assert(self.entries@ == before + added);
            assert(self.entries@.subrange(0, before.len() as int) == before);
            assert(self.entries@.subrange(before.len() as int, self.entries@.len() as int)
                == added);
            if added.len() == 0 {
                assert(self.entries@ == before);
            }
        }
        if self.state.selected().is_none() && !self.entries.is_empty() {
            proof {
                if old(self).wf() && entry.wf() {
                    assert(is_header_at(self.entries@, 0));
                }
            }
            self.state.select(Some(1));
        }
    }

    /// Appends the rows of a searched file that has at least one match, as
    /// they are (with the offsets of its matches); a file without matches is
    /// not added. Selects the first match when nothing was selected yet.
    pub fn add_file_entry(&mut self, entry: FoundFile) -> (added: bool)
        requires
            old(self).wf(),
        ensures
            final(self).wf(),
            added == file_rows(entry.entries()),
            added ==> final(self).entries() == old(self).entries() + entry.entries(),
            added ==> count_headers(final(self).entries()) == count_headers(old(self).entries())
                + 1,
            !added ==> final(self).entries() == old(self).entries(),
            final(self).filtered() == old(self).filtered(),
            added && old(self).selected() is None ==> final(self).selected() == Some(1usize),
            !added || old(self).selected() is Some ==> final(self).selected() == old(
                self,
            ).selected(),
    {
        let rows = entry.get_entries();
        if rows.len() < 2 {
            return false;
        }
        match rows[0] {
            EntryType::Header(_) => {},
            EntryType::Match(_, _, _) => return false,
        }
        let mut i: usize = 1;
        while i < rows.len()
            invariant
                1 <= i <= rows@.len(),
                rows@ == entry.entries(),
                *self == *old(self),
                old(self).wf(),
                forall|k: int| 1 <= k < i ==> #[trigger] rows@[k] is Match,
            decreases rows@.len() - i,
        {
            match rows[i] {
                EntryType::Header(_) => {
                    assert(!(rows@[i as int] is Match));
                    return false;
                },
                EntryType::Match(_, _, _) => {},
            }
            i += 1;
        }
        self.append_file_rows(rows);
        true
    }

    fn append_file_rows(&mut self, rows: Vec<EntryType>)
        requires
            old(self).wf(),
            file_rows(rows@),
        ensures
            final(self).wf(),
            final(self).entries() == old(self).entries() + rows@,
            count_headers(final(self).entries()) == count_headers(old(self).entries()) + 1,
            count_matches(final(self).entries()) == count_matches(old(self).entries()) + rows@.len()
                - 1,
            final(self).filtered() == old(self).filtered(),
            old(self).selected() is None ==> final(self).selected() == Some(1usize),
            old(self).selected() is Some ==> final(self).selected() == old(self).selected(),
    {
        let mut rows = rows;
        proof {
            lemma_append_wf(self.entries@, rows@);
            law_adding_a_file_adds_one_file(self.entries@, rows@);
        }
        self.entries.append(&mut rows);

        if self.state.selected().is_none() {
            self.state.select(Some(1));
        }
    }

    pub fn iter(&self) -> (it: std::slice::Iter<'_, EntryType>)
        ensures
            IteratorSpec::remaining(&it) == self.entries().as_ref(),
    {
        self.entries.iter()
    }

    pub fn is_empty(&self) -> (b: bool)
        ensures
            b == (self.entries().len() == 0),
    {
        self.entries.is_empty()
    }

    /// Selects the next match, staying put on the last one.
    pub fn next_match(&mut self)
        requires
            old(self).wf(),
        ensures
            final(self).wf(),
            final(self).entries() == old(self).entries(),
            final(self).filtered() == old(self).filtered(),
            old(self).entries().len() == 0 ==> final(self).selected() is None,
            old(self).entries().len() > 0 ==> (final(self).selected() matches Some(j)
                && next_match_of(old(self).entries(), old(self).selected()->0 as int, j as int)),
    {
        if self.is_empty() {
            return;
        }
        let ghost s = self.entries@;

        let index = match self.state.selected() {
            Some(i) => {
                if i == self.entries.len() - 1 {
                    i
                } else {
                    match self.entries[i + 1] {
                        EntryType::Header(_) => {
                            assert(is_header_at(s, i + 1));
                            i + 2
                        },
                        EntryType::Match(_, _, _) => i + 1,
                    }
                }
            },
            None => 1,
        };

        self.state.select(Some(index));
    }

    /// Selects the previous match, staying put on the first one.
    pub fn previous_match(&mut self)
        requires
            old(self).wf(),
        ensures
            final(self).wf(),
            final(self).entries() == old(self).entries(),
            final(self).filtered() == old(self).filtered(),
            old(self).entries().len() == 0 ==> final(self).selected() is None,
            old(self).entries().len() > 0 ==> (final(self).selected() matches Some(j)
                && previous_match_of(old(self).entries(), old(self).selected()->0 as int, j as int)),
    {
        if self.is_empty() {
            return;
        }
        let ghost s = self.entries@;

        let index = match self.state.selected() {
            Some(i) => {
                if i == 1 {
                    1
                } else {
                    match self.entries[i - 1] {
                        EntryType::Header(_) => {
                            proof {
                                lemma_header_precedes_match(s, i - 1);
                            }
                            i - 2
                        },
                        EntryType::Match(_, _, _) => i - 1,
                    }
                }
            },
            None => 1,
        };

        self.state.select(Some(index));
    }

    /// Selects the first match of the next file, staying put in the last file.
    pub fn next_file(&mut self)
        requires
            old(self).wf(),
        ensures
            final(self).wf(),
            final(self).entries() == old(self).entries(),
            final(self).filtered() == old(self).filtered(),
            old(self).entries().len() == 0 ==> final(self).selected() is None,
            old(self).entries().len() > 0 ==> (final(self).selected() matches Some(j)
                && next_file_of(old(self).entries(), old(self).selected()->0 as int, j as int)),
    {
        if self.is_empty() {
            return;
        }
        let ghost s = self.entries@;
        let len = self.entries.len();

        let index = match self.state.selected() {
            Some(i) => {
                let mut next_index = i;
                loop
                    invariant_except_break
                        i <= next_index < len,
                        forall|k: int| i < k <= next_index ==> !(#[trigger] s[k] is Header),
                    invariant
                        len == s.len(),
                        s == self.entries@,
                        entries_wf(s),
                        i < len,
                        s[i as int] is Match,
                    ensures
                        next_index < len,
                        s[next_index as int] is Match,
                        next_file_of(s, i as int, next_index as int),
                    decreases len - next_index,
                {
                    if next_index == len - 1 {
                        next_index = i;
                        break;
                    }
                    next_index += 1;
                    match self.entries[next_index] {
                        EntryType::Header(_) => {
                            assert(is_header_at(s, next_index as int));
                            next_index += 1;
                            break;
                        },
                        EntryType::Match(_, _, _) => continue,
                    }
                }
                next_index
            },
            None => 1,
        };

        self.state.select(Some(index));
    }

    /// Selects the first match of the previous file; in the first file, its
    /// first match.
    pub fn previous_file(&mut self)
        requires
            old(self).wf(),
        ensures
            final(self).wf(),
            final(self).entries() == old(self).entries(),
            final(self).filtered() == old(self).filtered(),
            old(self).entries().len() == 0 ==> final(self).selected() is None,
            old(self).entries().len() > 0 ==> (final(self).selected() matches Some(j)
                && previous_file_of(old(self).entries(), old(self).selected()->0 as int, j as int)),
    {
        if self.is_empty() {
            return;
        }
        let ghost s = self.entries@;
        let len = self.entries.len();

        let index = match self.state.selected() {
            Some(i) => {
                let mut next_index = i;
                let mut first_header_visited = false;
                let ghost mut h1: int = 0;
                loop
                    invariant_except_break
                        1 <= next_index <= i,
                        !first_header_visited ==> forall|k: int|
                            next_index <= k <= i ==> !(#[trigger] s[k] is Header),
                        first_header_visited ==> {
                            &&& next_index < h1 <= i
                            &&& header_of(s, i as int, h1)
                            &&& s[next_index as int] is Match
                            &&& forall|k: int| next_index <= k < h1 ==> !(#[trigger] s[k] is Header)
                        },
                    invariant
                        len == s.len(),
                        s == self.entries@,
                        entries_wf(s),
                        i < len,
                        s[i as int] is Match,
                    ensures
                        1 <= next_index < len,
                        s[next_index as int] is Match,
                        previous_file_of(s, i as int, next_index as int),
                    decreases next_index,
                {
                    if next_index == 1 {
                        proof {
                            if first_header_visited {
                                assert(header_of(s, i as int, h1));
                            } else {
                                assert(header_of(s, i as int, 0));
                            }
                        }
                        break;
                    }
                    next_index -= 1;
                    match self.entries[next_index] {
                        EntryType::Header(_) => {
                            if !first_header_visited {
                                proof {
                                    h1 = next_index as int;
                                    lemma_header_precedes_match(s, h1);
                                }
                                first_header_visited = true;
                                next_index -= 1;
                            } else {
                                assert(is_header_at(s, next_index as int));
                                assert(header_of(s, i as int, h1));
                                next_index += 1;
                                break;
                            }
                        },
                        EntryType::Match(_, _, _) => continue,
                    }
                }
                next_index
            },
            None => 1,
        };

        self.state.select(Some(index));
    }

    /// The file name and line number of the selected match.
    pub fn get_selected_entry(&self) -> (r: Option<(&str, u64)>)
        requires
            self.wf(),
        ensures
            self.selected() is None ==> r is None,
            self.selected() matches Some(i) ==> (r matches Some((name, line_number))
                && entry_at(self.entries(), i as int, name@, line_number)),
    {
        match self.state.selected() {
            Some(i) => {
                let ghost s = self.entries@;
                let mut line_number: Option<u64> = None;
                let mut index = i;
                loop
                    invariant
                        s == self.entries@,
                        self.state@ == Some(i),
                        entries_wf(s),
                        i < s.len(),
                        s[i as int] is Match,
                        index <= i,
                        forall|k: int| index < k <= i ==> !(#[trigger] s[k] is Header),
                        index == i ==> line_number is None,
                        index < i ==> line_number == Some(line_of(s[i as int])),
                    decreases index,
                {
                    match &self.entries[index] {
                        EntryType::Header(name) => {
                            assert(header_of(s, i as int, index as int));
                            return Some((name.as_str(), line_number.unwrap()));
                        },
                        EntryType::Match(number, _, _) => {
                            if line_number.is_none() {
                                line_number = Some(*number);
                            }
                        },
                    }
                    index -= 1;
                }
            },
            None => None,
        }
    }

    pub fn get_state(&self) -> (s: ListState)
        ensures
            s@ == self.selected(),
    {
        self.state
    }

    pub fn get_number_of_matches(&self) -> (n: usize)
        ensures
            n == count_matches(self.entries()),
    {
        let mut n: usize = 0;
        let mut i: usize = 0;
        while i < self.entries.len()
            invariant
                i <= self.entries@.len(),
                n == count_matches(self.entries@.take(i as int)),
                n <= i,
            decreases self.entries@.len() - i,
        {
            assert(self.entries@.take(i + 1).drop_last() == self.entries@.take(i as int));
            match &self.entries[i] {
                EntryType::Match(_, _, _) => n += 1,
                _ => {},
            }
            i += 1;
        }
        assert(self.entries@.take(i as int) == self.entries@);
        n
    }

    pub fn get_number_of_file_entries(&self) -> (n: usize)
        ensures
            n == count_headers(self.entries()),
    {
        let mut n: usize = 0;
        let mut i: usize = 0;
        while i < self.entries.len()
            invariant
                i <= self.entries@.len(),
                n == count_headers(self.entries@.take(i as int)),
                n <= i,
            decreases self.entries@.len() - i,
        {
            assert(self.entries@.take(i + 1).drop_last() == self.entries@.take(i as int));
            match &self.entries[i] {
                EntryType::Header(_) => n += 1,
                _ => {},
            }
            i += 1;
        }
        assert(self.entries@.take(i as int) == self.entries@);
        n
    }

    /// How many matches were filtered out since the list was made.
    pub fn get_filtered_matches_count(&self) -> (n: usize)
        ensures
            n == self.filtered(),
    {
        self.filtered
    }

    /// The matches in the list and those filtered out, up to `usize::MAX`.
    pub fn get_total_number_of_matches(&self) -> (n: usize)
        ensures
            n == saturating_add(count_matches(self.entries()) as int, self.filtered() as int),
    {
        self.get_number_of_matches().saturating_add(self.filtered)
    }

    /// Selects the first match.
    pub fn top(&mut self)
        requires
            old(self).wf(),
        ensures
            final(self).wf(),
            final(self).entries() == old(self).entries(),
            final(self).filtered() == old(self).filtered(),
            old(self).entries().len() == 0 ==> final(self).selected() is None,
            old(self).entries().len() > 0 ==> final(self).selected() == Some(1usize),
    {
        if self.is_empty() {
            return;
        }
        proof {
            assert(is_header_at(self.entries@, 0));
        }
        self.state.select(Some(1));
    }

    /// Selects the last match.
    pub fn bottom(&mut self)
        requires
            old(self).wf(),
        ensures
            final(self).wf(),
            final(self).entries() == old(self).entries(),
            final(self).filtered() == old(self).filtered(),
            old(self).entries().len() == 0 ==> final(self).selected() is None,
            old(self).entries().len() > 0 ==> final(self).selected() == Some(
                (old(self).entries().len() - 1) as usize,
            ),
    {
        if self.is_empty() {
            return;
        }
        self.state.select(Some(self.entries.len() - 1));
    }

    /// Filters out the file of the selected match: its header and all its
    /// matches.
    pub fn remove_current_file(&mut self)
        requires
            old(self).wf(),
        ensures
            final(self).wf(),
            old(self).entries().len() == 0 ==> final(self).entries().len() == 0
                && final(self).selected() is None,
            old(self).entries().len() > 0 ==> file_removed(
                old(self).entries(),
                old(self).selected()->0 as int,
                final(self).entries(),
                final(self).selected(),
            ),
            final(self).filtered() == saturating_add(
                old(self).filtered() as int,
                count_matches(old(self).entries()) - count_matches(final(self).entries()),
            ),
    {
        let i = match self.state.selected() {
            Some(i) => i,
            None => return ,
        };
        let ghost s = self.entries@;
        let len = self.entries.len();
        let mut h = i;
        loop
            invariant
                s == self.entries@,
                len == s.len(),
                entries_wf(s),
                i < len,
                s[i as int] is Match,
                h <= i,
                forall|k: int| h < k <= i ==> !(#[trigger] s[k] is Header),
            ensures
                header_of(s, i as int, h as int),
            decreases h,
        {
            match self.entries[h] {
                EntryType::Header(_) => break,
                EntryType::Match(_, _, _) => {
                    assert(h > 0);
                    h -= 1;
                },
            }
        }
        let mut n = i + 1;
        while n < len
            invariant
                s == self.entries@,
                len == s.len(),
                i < n <= len,
                forall|k: int| i < k < n ==> !(#[trigger] s[k] is Header),
            ensures
                file_end_of(s, i as int, n as int),
            decreases len - n,
        {
            match self.entries[n] {
                EntryType::Header(_) => break,
                EntryType::Match(_, _, _) => {
                    n += 1;
                },
            }
        }
        proof {
            lemma_remove_file_wf(s, h as int, n as int);
        }
        let mut rest = self.entries.split_off(n);
        self.entries.truncate(h);
        self.entries.append(&mut rest);
        let ghost t = self.entries@;
        assert(t == s.subrange(0, h as int) + s.subrange(n as int, s.len() as int));
        if self.entries.len() == 0 {
            self.state.select(None);
        } else if h < self.entries.len() {
            proof {
                assert(t[h as int] == s[n as int]);
                assert(is_header_at(t, h as int));
            }
            self.state.select(Some(h + 1));
        } else {
            proof {
                lemma_header_precedes_match(s, h as int);
                assert(t[h - 1] == s[h - 1]);
            }
            self.state.select(Some(h - 1));
        }
        assert(header_of(s, i as int, h as int) && file_end_of(s, i as int, n as int));
        proof {
            lemma_split_counts(s, h as int, n as int);
            lemma_count_headers_of_one_file(s, h as int, n as int);
            law_rows_are_files_and_matches(s.subrange(h as int, n as int));
        }
        self.filtered = self.filtered.saturating_add(n - h - 1);
    }

    /// Filters out the selected match; a file whose only match it was goes
    /// with it.
    pub fn remove_current_entry(&mut self)
        requires
            old(self).wf(),
        ensures
            final(self).wf(),
            old(self).entries().len() == 0 ==> final(self).entries().len() == 0
                && final(self).selected() is None,
            old(self).entries().len() > 0 ==> entry_removed(
                old(self).entries(),
                old(self).selected()->0 as int,
                final(self).entries(),
                final(self).selected(),
            ),
            final(self).filtered() == saturating_add(
                old(self).filtered() as int,
                count_matches(old(self).entries()) - count_matches(final(self).entries()),
            ),
    {
        let i = match self.state.selected() {
            Some(i) => i,
            None => return ,
        };
        let ghost s = self.entries@;
        let len = self.entries.len();
        proof {
            assert(is_header_at(s, 0));
        }
        let header_before = match self.entries[i - 1] {
            EntryType::Header(_) => true,
            EntryType::Match(_, _, _) => false,
        };
        let match_after = i + 1 < len && match self.entries[i + 1] {
            EntryType::Header(_) => false,
            EntryType::Match(_, _, _) => true,
        };
        if header_before && !match_after {
            self.remove_current_file();
            return ;
        }
        proof {
            lemma_remove_row_wf(s, i as int);
        }
        self.entries.remove(i);
        proof {
            let ghost t = self.entries@;
            lemma_split_counts(s, i as int, i + 1);
            assert(t == s.subrange(0, i as int) + s.subrange(i + 1, s.len() as int));
            let y = s.subrange(i as int, i + 1);
            assert(y.drop_last().len() == 0);
            assert(count_matches(y.drop_last()) == 0);
            assert(y.last() == s[i as int]);
        }
        self.filtered = self.filtered.saturating_add(1);
        if match_after {
            assert(self.entries@[i as int] == s[i + 1]);
        } else {
            assert(self.entries@[i - 1] == s[i - 1]);
            self.state.select(Some(i - 1));
        }
    }

    /// The position of the selected match among all matches, counted from 1;
    /// 0 when nothing is selected.
    pub fn get_current_match_index(&self) -> (n: usize)
        requires
            self.wf(),
        ensures
            self.selected() is None ==> n == 0,
            self.selected() matches Some(i) ==> n == count_matches(self.entries().take(i + 1)),
    {
        match self.state.selected() {
            None => 0,
            Some(sel) => {
                let len = self.entries.len();
                let mut n: usize = 0;
                let mut i: usize = 0;
                while i <= sel
                    invariant
                        len == self.entries@.len(),
                        sel < self.entries@.len(),
                        i <= sel + 1,
                        n == count_matches(self.entries@.take(i as int)),
                        n <= i,
                    decreases sel + 1 - i,
                {
                    assert(self.entries@.take(i + 1).drop_last() == self.entries@.take(i as int));
                    match &self.entries[i] {
                        EntryType::Match(_, _, _) => n += 1,
                        _ => {},
                    }
                    i += 1;
                }
                n
            },
        }
    }
}

} // verus!
