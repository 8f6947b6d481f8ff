//! Turning the text that matched into the matches shown per line.
use vstd::prelude::*;
use vstd::utf8::encode_utf8;

use crate::grep_match::GrepMatch;
use crate::text::{chars_of, is_whitespace, is_ws, lines, split_lines, string_from_chars};

verus! {

/// Once trimmed of surrounding whitespace, `t` still holds a line feed: the
/// match spans several lines.
pub open spec fn has_inner_line_feed(t: Seq<char>) -> bool {
    exists|k: int|
        0 <= k < t.len() && #[trigger] t[k] == '\n' && (exists|a: int| 0 <= a < k && !is_ws(t[a]))
            && (exists|b: int| k < b < t.len() && !is_ws(t[b]))
}

/// The byte length of the UTF-8 encoding of `l`, as `str::len` reports it.
pub open spec fn byte_len(l: Seq<char>) -> usize {
    encode_utf8(l).len() as usize
}

/// `a - b`, or 0 when `b` exceeds `a`.
pub open spec fn saturating_sub(a: int, b: int) -> int {
    if a >= b {
        a - b
    } else {
        0
    }
}

/// `a + 1`, or `usize::MAX` when that overflows.
pub open spec fn saturating_inc(a: usize) -> int {
    if a < usize::MAX {
        a + 1
    } else {
        usize::MAX as int
    }
}

/// What is left of the end offset `end` of a match spanning `ls`, once the
/// first `idx` lines and their line feeds are taken off.
pub open spec fn end_after_lines(ls: Seq<Seq<char>>, end: int, idx: int) -> int
    decreases idx,
{
    if idx <= 0 {
        end
    } else {
        saturating_sub(end_after_lines(ls, end, idx - 1), saturating_inc(byte_len(ls[idx - 1])))
    }
}

/// The offsets of line `idx` of a match spanning the lines `ls`, which starts
/// at `start` in the first line and ends at `end` counted from the start of
/// the first line.
pub open spec fn line_offsets(ls: Seq<Seq<char>>, start: usize, end: usize, idx: int) -> (usize, usize) {
    let e = end_after_lines(ls, end as int, idx);
    (
        if idx == 0 {
            start
        } else {
            0usize
        },
        if (byte_len(ls[idx]) as int) < e {
            byte_len(ls[idx])
        } else {
            e as usize
        },
    )
}

/// Whether the whitespace-trimmed `t` holds a line feed.
fn trimmed_contains_line_feed(t: &[char]) -> (b: bool)
    ensures
        b == has_inner_line_feed(t@),
{
    let mut lo: usize = 0;
    while lo < t.len() && is_whitespace(t[lo])
        invariant
            lo <= t.len(),
            forall|k: int| 0 <= k < lo ==> is_ws(t@[k]),
        decreases t.len() - lo,
    {
        lo = lo + 1;
    }
    if lo == t.len() {
        return false;
    }
    let mut hi: usize = t.len() - 1;
    while is_whitespace(t[hi])
        invariant
            lo <= hi < t.len(),
            !is_ws(t@[lo as int]),
            forall|k: int| hi < k < t.len() ==> is_ws(t@[k]),
        decreases hi,
    {
        hi = hi - 1;
    }
    let mut k: usize = lo + 1;
    while k < hi
        invariant
            lo < k,
            lo < t.len(),
            hi < t.len(),
            !is_ws(t@[lo as int]),
            !is_ws(t@[hi as int]),
            forall|j: int| 0 <= j < lo ==> is_ws(t@[j]),
            forall|j: int| hi < j < t.len() ==> is_ws(t@[j]),
            forall|j: int| lo < j < k ==> t@[j] != '\n',
        decreases hi - k,
    {
        if t[k] == '\n' {
            assert(t@[k as int] == '\n' && 0 <= lo < k && !is_ws(t@[lo as int]) && k < hi && !is_ws(
                t@[hi as int],
            ));
            return true;
        }
        k = k + 1;
    }
    assert forall|j: int|
        0 <= j < t@.len() && #[trigger] t@[j] == '\n' implies !((exists|a: int|
        0 <= a < j && !is_ws(t@[a])) && (exists|c: int| j < c < t@.len() && !is_ws(t@[c]))) by {
        if (exists|a: int| 0 <= a < j && !is_ws(t@[a])) && (exists|c: int|
            j < c < t@.len() && !is_ws(t@[c])) {
            let a = choose|a: int| 0 <= a < j && !is_ws(t@[a]);
            let c = choose|c: int| j < c < t@.len() && !is_ws(t@[c]);
            assert(lo <= a);
            assert(c <= hi);
            assert(is_ws(t@[j]));
        }
    }
    false
}

/// Splits the text of one search hit into one match per line. A hit that
/// spans several lines (the trimmed text holds a line feed) yields one match
/// per line, each carrying the part of the first match's start and the last
/// match's end that falls on it; a hit on a single line is kept whole.
pub fn split_by_lines(line_number: u64, text: &str, offsets: Vec<(usize, usize)>) -> (r: Vec<
    GrepMatch,
>)
    requires
        has_inner_line_feed(text@) ==> line_number + lines(text@).len() <= u64::MAX + 1,
    ensures
        !has_inner_line_feed(text@) ==> {
            &&& r@.len() == 1
            &&& r@[0].line_number == line_number
            &&& r@[0].text@ == text@
            &&& r@[0].match_offsets@ == offsets@
        },
        has_inner_line_feed(text@) && offsets@.len() == 0 ==> r@.len() == 0,
        has_inner_line_feed(text@) && offsets@.len() > 0 ==> {
            &&& r@.len() == lines(text@).len()
            &&& forall|i: int|
                0 <= i < r@.len() ==> {
                    &&& (#[trigger] r@[i]).line_number == line_number + i
                    &&& r@[i].text@ == lines(text@)[i]
                    &&& r@[i].match_offsets@ == seq![
                        line_offsets(
                            lines(text@),
                            offsets@[0].0,
                            offsets@.last().1,
                            i,
                        ),
                    ]
                }
        },
{
    let chars = chars_of(text);
    let mut matches: Vec<GrepMatch> = Vec::new();
    if !trimmed_contains_line_feed(chars.as_slice()) {
        matches.push(GrepMatch::new(line_number, text.to_owned(), offsets));
    } else {
        // handles multiline searches
        if offsets.len() == 0 {
            return Vec::new();
        }
        let first_offset_start = offsets[0].0;
        let mut last_offset_end = offsets[offsets.len() - 1].1;
        let ghost end0 = last_offset_end;
        let ls = split_lines(chars.as_slice());
        let ghost spec_lines = lines(text@);
        let mut idx: usize = 0;
        while idx < ls.len()
            invariant
                chars@ == text@,
                spec_lines == lines(text@),
                ls@.len() == spec_lines.len(),
                forall|i: int| 0 <= i < ls@.len() ==> #[trigger] ls@[i]@ == spec_lines[i],
                line_number + spec_lines.len() <= u64::MAX + 1,
                idx <= ls.len(),
                matches@.len() == idx,
                last_offset_end == end_after_lines(spec_lines, end0 as int, idx as int),
                first_offset_start == offsets@[0].0,
                end0 == offsets@.last().1,
                forall|i: int|
                    0 <= i < idx ==> {
                        &&& (#[trigger] matches@[i]).line_number == line_number + i
                        &&& matches@[i].text@ == spec_lines[i]
                        &&& matches@[i].match_offsets@ == seq![
                            line_offsets(spec_lines, first_offset_start, end0, i),
                        ]
                    },
            decreases ls.len() - idx,
        {
            let el = string_from_chars(ls[idx].as_slice());
            let el_len = el.as_str().len();
            let start = if idx == 0 {
                first_offset_start
            } else {
                0
            };
            let end = if el_len < last_offset_end {
                el_len
            } else {
                last_offset_end
            };
            let mut ofs: Vec<(usize, usize)> = Vec::new();
            ofs.push((start, end));
            matches.push(GrepMatch::new(line_number + idx as u64, el, ofs));
            last_offset_end = last_offset_end.saturating_sub(el_len.saturating_add(1));
            idx = idx + 1;
        }
    }

    matches
}

} // verus!
