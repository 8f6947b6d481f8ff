//! The rows one file contributes to the result list, with tabs widened.
use vstd::prelude::*;

use crate::grep_match::GrepMatch;
use crate::text::{chars_of, push_char};

verus! {

pub enum EntryType {
    Header(String),
    Match(u64, String, Vec<(usize, usize)>),
}

/// `t` with each tab replaced by two spaces.
pub open spec fn expand_tabs(t: Seq<char>) -> Seq<char>
    decreases t.len(),
{
    if t.len() == 0 {
        Seq::empty()
    } else {
        expand_tabs(t.drop_last()) + if t.last() == '\t' {
            seq![' ', ' ']
        } else {
            seq![t.last()]
        }
    }
}

/// The number of tabs in `t`.
pub open spec fn count_tabs(t: Seq<char>) -> nat
    decreases t.len(),
{
    if t.len() == 0 {
        0
    } else {
        count_tabs(t.drop_last()) + if t.last() == '\t' {
            1nat
        } else {
            0nat
        }
    }
}

/// The offset pair `p` once the first `n` characters of `t` are read: at the
/// tab in (1-based) character position `k`, a pair whose start is at least `k`
/// moves one to the right.
pub open spec fn shift_through(t: Seq<char>, n: int, p: (int, int)) -> (int, int)
    decreases n,
{
    if n <= 0 {
        p
    } else {
        let q = shift_through(t, n - 1, p);
        if t[n - 1] == '\t' && q.0 >= n {
            (q.0 + 1, q.1 + 1)
        } else {
            q
        }
    }
}

/// The offset pair `p` of a line with text `t`, once the tabs of `t` are widened.
pub open spec fn shifted_offsets(t: Seq<char>, p: (usize, usize)) -> (int, int) {
    shift_through(t, t.len() as int, (p.0 as int, p.1 as int))
}

proof fn lemma_shift_through_bounds(t: Seq<char>, n: int, p: (int, int))
    requires
        0 <= n <= t.len(),
    ensures
        p.0 <= shift_through(t, n, p).0 <= p.0 + count_tabs(t.take(n)),
        p.1 <= shift_through(t, n, p).1 <= p.1 + count_tabs(t.take(n)),
    decreases n,
{
    if n > 0 {
        lemma_shift_through_bounds(t, n - 1, p);
        assert(t.take(n).drop_last() == t.take(n - 1));
    }
}

proof fn lemma_count_tabs_prefix(t: Seq<char>, n: int)
    requires
        0 <= n <= t.len(),
    ensures
        count_tabs(t.take(n)) <= count_tabs(t),
    decreases t.len() - n,
{
    if n < t.len() {
        lemma_count_tabs_prefix(t, n + 1);
        assert(t.take(n + 1).drop_last() == t.take(n));
    } else {
        assert(t.take(n) == t);
    }
}

/// Offsets of a line stay within `usize` while its tabs are widened.
pub open spec fn offsets_fit(m: GrepMatch) -> bool {
    forall|j: int|
        0 <= j < m.match_offsets@.len() ==> #[trigger] m.match_offsets@[j].0 + count_tabs(m.text@)
            <= usize::MAX && m.match_offsets@[j].1 + count_tabs(m.text@) <= usize::MAX
}

/// The row for match `m`: tabs widened to two spaces and the offsets moved
/// along with the text.
pub open spec fn row_of(m: GrepMatch, row: EntryType) -> bool {
    row matches EntryType::Match(n, t, o) && n == m.line_number && t@ == expand_tabs(m.text@)
        && o@.len() == m.match_offsets@.len() && forall|j: int|
        0 <= j < o@.len() ==> (#[trigger] o@[j]).0 == shifted_offsets(m.text@, m.match_offsets@[j]).0
            && o@[j].1 == shifted_offsets(m.text@, m.match_offsets@[j]).1
}

/// Widens the tabs of one match (see [`row_of`]).
fn widen_tabs(m: GrepMatch) -> (row: EntryType)
    requires
        offsets_fit(m),
    ensures
        row_of(m, row),
{
    let ghost orig = m.match_offsets@;
    let chars = chars_of(m.text.as_str());
    let mut text = String::new();
    let mut ofs = m.match_offsets;
    let mut pos: usize = 0;
    let mut ci: usize = 0;
    while ci < chars.len()
        invariant
            chars@ == m.text@,
            ci <= chars.len(),
            pos == ci,
            text@ == expand_tabs(chars@.take(ci as int)),
            ofs@.len() == orig.len(),
            orig == m.match_offsets@,
            offsets_fit(m),
            forall|j: int|
                0 <= j < ofs@.len() ==> (#[trigger] ofs@[j]).0 == shift_through(
                    chars@,
                    ci as int,
                    (orig[j].0 as int, orig[j].1 as int),
                ).0 && ofs@[j].1 == shift_through(
                    chars@,
                    ci as int,
                    (orig[j].0 as int, orig[j].1 as int),
                ).1,
        decreases chars.len() - ci,
    {
        let c = chars[ci];
        pos += 1;
        assert(chars@.take(ci + 1).drop_last() == chars@.take(ci as int));
        if c != '\t' {
            push_char(&mut text, c);
        } else {
            push_char(&mut text, ' ');
            push_char(&mut text, ' ');
            let mut j: usize = 0;
            while j < ofs.len()
                invariant
                    chars@ == m.text@,
                    ci < chars.len(),
                    pos == ci + 1,
                    chars@[ci as int] == '\t',
                    j <= ofs@.len(),
                    ofs@.len() == orig.len(),
                    orig == m.match_offsets@,
                    offsets_fit(m),
                    forall|k: int|
                        0 <= k < j ==> (#[trigger] ofs@[k]).0 == shift_through(
                            chars@,
                            ci + 1,
                            (orig[k].0 as int, orig[k].1 as int),
                        ).0 && ofs@[k].1 == shift_through(
                            chars@,
                            ci + 1,
                            (orig[k].0 as int, orig[k].1 as int),
                        ).1,
                    forall|k: int|
                        j <= k < ofs@.len() ==> (#[trigger] ofs@[k]).0 == shift_through(
                            chars@,
                            ci as int,
                            (orig[k].0 as int, orig[k].1 as int),
                        ).0 && ofs@[k].1 == shift_through(
                            chars@,
                            ci as int,
                            (orig[k].0 as int, orig[k].1 as int),
                        ).1,
                decreases ofs.len() - j,
            {
                let p = ofs[j];
                if p.0 >= pos {
                    proof {
                        let q = (orig[j as int].0 as int, orig[j as int].1 as int);
                        lemma_shift_through_bounds(chars@, ci as int, q);
                        lemma_count_tabs_prefix(chars@, ci + 1);
                        assert(chars@.take(ci + 1).drop_last() == chars@.take(ci as int));
                        assert(m.match_offsets@[j as int].0 + count_tabs(m.text@) <= usize::MAX);
                    }
                    ofs.set(j, (p.0 + 1, p.1 + 1));
                }
                j += 1;
            }
        }
        ci += 1;
    }
    assert(chars@.take(chars@.len() as int) == chars@);
    EntryType::Match(m.line_number, text, ofs)
}

/// `rows` are the header `name`, then the row of each of `matches` in order.
pub open spec fn made_from(rows: Seq<EntryType>, name: String, matches: Seq<GrepMatch>) -> bool {
    &&& rows.len() == matches.len() + 1
    &&& rows[0] == EntryType::Header(name)
    &&& forall|i: int| 0 <= i < matches.len() ==> row_of(matches[i], #[trigger] rows[i + 1])
}

proof fn lemma_match_rows_prefix(rows: Seq<EntryType>, name: String, matches: Seq<GrepMatch>, k: int)
    requires
        made_from(rows, name, matches),
        1 <= k <= rows.len(),
    ensures
        count_match_rows(rows.take(k)) == k - 1,
    decreases k,
{
    let t = rows.take(k);
    if k == 1 {
        assert(t.drop_last().len() == 0);
        assert(count_match_rows(t.drop_last()) == 0);
        assert(t.last() == rows[0]);
    } else {
        lemma_match_rows_prefix(rows, name, matches, k - 1);
        assert(t.drop_last() == rows.take(k - 1));
        assert(t.last() == rows[k - 1]);
        assert(row_of(matches[k - 2], rows[(k - 2) + 1]));
        assert(rows[k - 1] is Match);
    }
    assert(count_match_rows(t) == count_match_rows(t.drop_last()) + if t.last() is Match {
        1nat
    } else {
        0nat
    });
}

/// A file made from its matches counts exactly one match row per match, and
/// every row but its header is a match.
pub proof fn law_match_rows_are_the_matches(rows: Seq<EntryType>, name: String, matches: Seq<GrepMatch>)
    requires
        made_from(rows, name, matches),
    ensures
        count_match_rows(rows) == matches.len(),
        count_match_rows(rows) == rows.len() - 1,
{
    lemma_match_rows_prefix(rows, name, matches, rows.len() as int);
    assert(rows.take(rows.len() as int) == rows);
}

/// Whether the offsets of `m` can be moved past all its tabs without
/// overflowing (see [`offsets_fit`]).
pub fn offsets_fit_exec(m: &GrepMatch) -> (b: bool)
    ensures
        b == offsets_fit(*m),
{
    let chars = chars_of(m.text.as_str());
    let mut tabs: usize = 0;
    let mut i: usize = 0;
    while i < chars.len()
        invariant
            chars@ == m.text@,
            i <= chars@.len(),
            tabs == count_tabs(chars@.take(i as int)),
            tabs <= i,
        decreases chars@.len() - i,
    {
        assert(chars@.take(i + 1).drop_last() == chars@.take(i as int));
        if chars[i] == '\t' {
            tabs += 1;
        }
        i += 1;
    }
    assert(chars@.take(i as int) == chars@);
    let mut j: usize = 0;
    while j < m.match_offsets.len()
        invariant
            tabs == count_tabs(m.text@),
            j <= m.match_offsets@.len(),
            forall|k: int|
                0 <= k < j ==> #[trigger] m.match_offsets@[k].0 + count_tabs(m.text@) <= usize::MAX
                    && m.match_offsets@[k].1 + count_tabs(m.text@) <= usize::MAX,
        decreases m.match_offsets@.len() - j,
    {
        let (a, b) = m.match_offsets[j];
        if a > usize::MAX - tabs || b > usize::MAX - tabs {
            return false;
        }
        j += 1;
    }
    true
}

/// The rows of one file: its header, then one row per match.
pub struct FileEntry(Vec<EntryType>);

impl FileEntry {
    /// The rows.
    pub closed spec fn entries(&self) -> Seq<EntryType> {
        self.0@
    }

    pub fn new(name: String, matches: Vec<GrepMatch>) -> (e: Self)
        requires
            forall|i: int| 0 <= i < matches@.len() ==> offsets_fit(#[trigger] matches@[i]),
        ensures
            made_from(e.entries(), name, matches@),
    {
        let mut rows: Vec<EntryType> = Vec::new();
        rows.push(EntryType::Header(name));
        let ghost all = matches@;
        for m in it: matches
            invariant
                it.seq() == all,
                forall|i: int| 0 <= i < all.len() ==> offsets_fit(#[trigger] all[i]),
                rows@.len() == it.index() + 1,
                rows@[0] == EntryType::Header(name),
                forall|i: int| 0 <= i < it.index() ==> row_of(all[i], #[trigger] rows@[i + 1]),
        {
            let row = widen_tabs(m);
            rows.push(row);
        }
        FileEntry(rows)
    }

    pub fn get_matches_count(&self) -> (n: usize)
        ensures
            n == count_match_rows(self.entries()),
    {
        let mut n: usize = 0;
        let mut i: usize = 0;
        while i < self.0.len()
            invariant
                i <= self.0@.len(),
                n == count_match_rows(self.0@.take(i as int)),
                n <= i,
            decreases self.0@.len() - i,
        {
            assert(self.0@.take(i + 1).drop_last() == self.0@.take(i as int));
            match &self.0[i] {
                EntryType::Match(_, _, _) => n += 1,
                _ => {},
            }
            i += 1;
        }
        assert(self.0@.take(i as int) == self.0@);
        n
    }

    pub fn get_entries(self) -> (v: Vec<EntryType>)
        ensures
            v@ == self.entries(),
    {
        self.0
    }
}

/// The number of match rows in `s`.
pub open spec fn count_match_rows(s: Seq<EntryType>) -> nat
    decreases s.len(),
{
    if s.len() == 0 {
        0
    } else {
        count_match_rows(s.drop_last()) + if s.last() is Match {
            1nat
        } else {
            0nat
        }
    }
}

} // verus!
