//! How the rows of the result list are shown: the text of a file header, the
//! prefix of a matching line, and the cutting of a matching line into plain
//! pieces and the pieces its matches cover. Match offsets are byte offsets
//! into the line's UTF-8 encoding, as grep reports them.
use vstd::prelude::*;

use crate::text::{chars_of, decimal, decimal_string, push_all, string_from_range};

use vstd::string::StringSliceAdditionalSpecFns;
use vstd::utf8::{
    encode_utf8, encode_utf8_valid_utf8, is_char_boundary, is_char_boundary_iff_not_is_continuation_byte,
    is_char_boundary_start_end_of_seq, valid_utf8, valid_utf8_split,
};

verus! {

/// The offsets (byte positions, end excluded) are each a range, come in
/// order without overlapping, lie within the bytes `bytes` of a line, and
/// fall on character boundaries.
pub open spec fn spans_fit(bytes: Seq<u8>, offsets: Seq<(usize, usize)>) -> bool {
    &&& forall|k: int| 0 <= k < offsets.len() ==> #[trigger] offsets[k].0 <= offsets[k].1
    &&& forall|k: int| 0 < k < offsets.len() ==> offsets[k - 1].1 <= #[trigger] offsets[k].0
    &&& offsets.len() > 0 ==> offsets.last().1 <= bytes.len()
    &&& forall|k: int|
        0 <= k < offsets.len() ==> is_char_boundary(bytes, #[trigger] offsets[k].0 as int)
            && is_char_boundary(bytes, offsets[k].1 as int)
}

/// Where the plain piece before match `k` (or, for `k` the number of
/// matches, the rest of the line) starts: where the match before it ends, or
/// at the start of the line.
pub open spec fn piece_start(offsets: Seq<(usize, usize)>, k: int) -> int {
    if k == 0 {
        0
    } else {
        offsets[k - 1].1 as int
    }
}

/// The UTF-8 bytes of `pieces`, one after the other.
pub open spec fn joined_bytes(pieces: Seq<(String, bool)>) -> Seq<u8>
    decreases pieces.len(),
{
    if pieces.len() == 0 {
        Seq::empty()
    } else {
        joined_bytes(pieces.drop_last()) + encode_utf8(pieces.last().0@)
    }
}

/// The two pieces of match `k` of a line with the bytes `bytes`: the plain
/// text before it and the match.
pub open spec fn pieces_of_match(
    v: Seq<(String, bool)>,
    bytes: Seq<u8>,
    offsets: Seq<(usize, usize)>,
    k: int,
) -> bool {
    &&& encode_utf8(v[2 * k].0@) == bytes.subrange(piece_start(offsets, k), offsets[k].0 as int)
    &&& !v[2 * k].1
    &&& encode_utf8(v[2 * k + 1].0@) == bytes.subrange(offsets[k].0 as int, offsets[k].1 as int)
    &&& v[2 * k + 1].1
}

/// Whether `offsets` fit `text` (see [`spans_fit`]).
pub fn spans_fit_text(text: &str, offsets: &[(usize, usize)]) -> (b: bool)
    ensures
        b == spans_fit(text.spec_bytes(), offsets@),
{
    let ghost bytes = text.spec_bytes();
    proof {
        encode_utf8_valid_utf8(text@);
    }
    let mut k: usize = 0;
    while k < offsets.len()
        invariant
            bytes == text.spec_bytes(),
            valid_utf8(bytes),
            k <= offsets@.len(),
            forall|j: int| 0 <= j < k ==> #[trigger] offsets@[j].0 <= offsets@[j].1,
            forall|j: int| 0 < j < k ==> offsets@[j - 1].1 <= #[trigger] offsets@[j].0,
            k > 0 ==> offsets@[k - 1].1 <= bytes.len(),
            forall|j: int|
                0 <= j < k ==> is_char_boundary(bytes, #[trigger] offsets@[j].0 as int)
                    && is_char_boundary(bytes, offsets@[j].1 as int),
        decreases offsets@.len() - k,
    {
        let (start, end) = offsets[k];
        assert(offsets@[k as int] == (start, end));
        if start > end {
            return false;
        }
        if k > 0 && offsets[k - 1].1 > start {
            return false;
        }
        let start_ok = text.is_char_boundary(start);
        let end_ok = text.is_char_boundary(end);
        if !start_ok || !end_ok {
            return false;
        }
        assert(is_char_boundary(bytes, start as int));
        assert(is_char_boundary(bytes, end as int));
        proof {
            lemma_boundary_within(bytes, end as int);
        }
        let ghost old_k = k;
        k += 1;
        assert forall|j: int| 0 <= j < k implies is_char_boundary(
            bytes,
            #[trigger] offsets@[j].0 as int,
        ) && is_char_boundary(bytes, offsets@[j].1 as int) by {
            if j == old_k {
                assert(offsets@[j] == (start, end));
                assert(is_char_boundary(bytes, offsets@[j].0 as int));
                assert(is_char_boundary(bytes, offsets@[j].1 as int));
            } else {
                assert(0 <= j < old_k);
                assert(is_char_boundary(bytes, offsets@[j].0 as int));
                assert(is_char_boundary(bytes, offsets@[j].1 as int));
            }
        }
    }
    true
}

/// A character boundary lies within the bytes.
proof fn lemma_boundary_within(bytes: Seq<u8>, i: int)
    requires
        valid_utf8(bytes),
        is_char_boundary(bytes, i),
    ensures
        0 <= i <= bytes.len(),
{
    reveal_with_fuel(is_char_boundary, 1);
}

proof fn lemma_end_within(offsets: Seq<(usize, usize)>, bytes: Seq<u8>, k: int)
    requires
        spans_fit(bytes, offsets),
        0 <= k < offsets.len(),
    ensures
        offsets[k].1 <= bytes.len(),
    decreases offsets.len() - k,
{
    if k + 1 < offsets.len() {
        assert(offsets[k].1 <= offsets[k + 1].0);
        assert(offsets[k + 1].0 <= offsets[k + 1].1);
        lemma_end_within(offsets, bytes, k + 1);
    }
}

/// A character boundary of `bytes` at or after the boundary `cur` is one of
/// the bytes from `cur` on too.
proof fn lemma_boundary_shift(bytes: Seq<u8>, cur: int, i: int)
    requires
        valid_utf8(bytes),
        0 <= cur <= i <= bytes.len(),
        is_char_boundary(bytes, cur),
        is_char_boundary(bytes, i),
    ensures
        valid_utf8(bytes.subrange(cur, bytes.len() as int)),
        is_char_boundary(bytes.subrange(cur, bytes.len() as int), i - cur),
{
    valid_utf8_split(bytes, cur);
    let rest = bytes.subrange(cur, bytes.len() as int);
    if i == bytes.len() {
        is_char_boundary_start_end_of_seq(rest);
        assert(rest.len() == i - cur);
    } else {
        is_char_boundary_iff_not_is_continuation_byte(bytes, i);
        is_char_boundary_iff_not_is_continuation_byte(rest, i - cur);
        assert(rest[i - cur] == bytes[i]);
    }
}

proof fn lemma_joined_push(p: Seq<(String, bool)>, x: (String, bool))
    ensures
        joined_bytes(p.push(x)) == joined_bytes(p) + encode_utf8(x.0@),
{
    assert(p.push(x).drop_last() == p);
}

proof fn lemma_subrange_split(s: Seq<u8>, a: int, b: int, c: int)
    requires
        0 <= a <= b <= c <= s.len(),
    ensures
        s.subrange(a, c) == s.subrange(a, b) + s.subrange(b, c),
{
    assert(s.subrange(a, c) =~= s.subrange(a, b) + s.subrange(b, c));
}

/// Cuts `text` at its match offsets: for each match the plain piece before
/// it, then the match itself (marked `true`), and last the rest of the line.
/// Each piece is the slice of the line's bytes between its offsets.
#[verifier::rlimit(60)]
pub fn match_spans(text: &str, offsets: &[(usize, usize)]) -> (v: Vec<(String, bool)>)
    requires
        spans_fit(text.spec_bytes(), offsets@),
    ensures
        v@.len() == 2 * offsets@.len() + 1,
        forall|k: int|
            0 <= k < offsets@.len() ==> #[trigger] pieces_of_match(
                v@,
                text.spec_bytes(),
                offsets@,
                k,
            ),
        encode_utf8(v@[2 * offsets@.len() as int].0@) == text.spec_bytes().subrange(
            piece_start(offsets@, offsets@.len() as int),
            text.spec_bytes().len() as int,
        ),
        !v@[2 * offsets@.len() as int].1,
        joined_bytes(v@) == text.spec_bytes(),
{
    let ghost bytes = text.spec_bytes();
    proof {
        encode_utf8_valid_utf8(text@);
        is_char_boundary_start_end_of_seq(bytes);
        assert(bytes.subrange(0, bytes.len() as int) == bytes);
    }
    let mut v: Vec<(String, bool)> = Vec::new();
    let mut rest: &str = text;
    let mut current: usize = 0;
    let mut k: usize = 0;
    while k < offsets.len()
        invariant
            bytes == text.spec_bytes(),
            valid_utf8(bytes),
            spans_fit(bytes, offsets@),
            k <= offsets@.len(),
            current == piece_start(offsets@, k as int),
            current <= bytes.len(),
            is_char_boundary(bytes, current as int),
            rest.spec_bytes() == bytes.subrange(current as int, bytes.len() as int),
            k < offsets@.len() ==> current <= offsets@[k as int].0,
            v@.len() == 2 * k,
            forall|j: int| 0 <= j < k ==> #[trigger] pieces_of_match(v@, bytes, offsets@, j),
            joined_bytes(v@) == bytes.subrange(0, current as int),
        decreases offsets@.len() - k,
    {
        let (start, end) = offsets[k];
        proof {
            assert(offsets@[k as int].0 <= offsets@[k as int].1);
            lemma_end_within(offsets@, bytes, k as int);
            lemma_boundary_shift(bytes, current as int, start as int);
            assert(rest.spec_bytes().subrange(0, start - current) == bytes.subrange(
                current as int,
                start as int,
            ));
        }
        let (plain, after_plain) = rest.split_at(start - current);
        proof {
            assert(after_plain.spec_bytes() =~= bytes.subrange(start as int, bytes.len() as int));
            lemma_boundary_shift(bytes, start as int, end as int);
        }
        let (matched, after_match) = after_plain.split_at(end - start);
        proof {
            assert(matched.spec_bytes() =~= bytes.subrange(start as int, end as int));
            assert(after_match.spec_bytes() =~= bytes.subrange(end as int, bytes.len() as int));
            assert(plain.spec_bytes() =~= bytes.subrange(current as int, start as int));
        }
        let ghost before = v@;
        let plain_text = plain.to_owned();
        let matched_text = matched.to_owned();
        v.push((plain_text, false));
        v.push((matched_text, true));
        proof {
            let mid = before.push((plain_text, false));
            assert(v@ == mid.push((matched_text, true)));
            lemma_joined_push(before, (plain_text, false));
            lemma_joined_push(mid, (matched_text, true));
            lemma_subrange_split(bytes, 0, current as int, start as int);
            lemma_subrange_split(bytes, 0, start as int, end as int);
            assert forall|j: int| 0 <= j < k + 1 implies #[trigger] pieces_of_match(
                v@,
                bytes,
                offsets@,
                j,
            ) by {
                if j < k {
                    assert(pieces_of_match(before, bytes, offsets@, j));
                    assert(v@[2 * j] == before[2 * j]);
                    assert(v@[2 * j + 1] == before[2 * j + 1]);
                }
            }
            if k + 1 < offsets@.len() {
                assert(offsets@[k as int].1 <= offsets@[k + 1].0);
            }
        }
        rest = after_match;
        current = end;
        k += 1;
    }
    let ghost before = v@;
    let rest_text = rest.to_owned();
    v.push((rest_text, false));
    proof {
        lemma_joined_push(before, (rest_text, false));
        lemma_subrange_split(bytes, 0, current as int, bytes.len() as int);
        assert forall|j: int| 0 <= j < offsets@.len() implies #[trigger] pieces_of_match(
            v@,
            bytes,
            offsets@,
            j,
        ) by {
            assert(pieces_of_match(before, bytes, offsets@, j));
            assert(v@[2 * j] == before[2 * j]);
            assert(v@[2 * j + 1] == before[2 * j + 1]);
        }
    }
    v
}

/// `s` without the `./` prefixes it starts with, however many.
pub open spec fn without_dot_slashes(s: Seq<char>) -> Seq<char>
    decreases s.len(),
{
    if s.len() >= 2 && s[0] == '.' && s[1] == '/' {
        without_dot_slashes(s.skip(2))
    } else {
        s
    }
}

/// `k` copies of `./`.
pub open spec fn dot_slashes(k: nat) -> Seq<char>
    decreases k,
{
    if k == 0 {
        Seq::empty()
    } else {
        seq!['.', '/'] + dot_slashes((k - 1) as nat)
    }
}

proof fn lemma_dot_slash_count(s: Seq<char>) -> (k: nat)
    ensures
        s == dot_slashes(k) + without_dot_slashes(s),
    decreases s.len(),
{
    if s.len() >= 2 && s[0] == '.' && s[1] == '/' {
        let k0 = lemma_dot_slash_count(s.skip(2));
        assert(s =~= seq!['.', '/'] + s.skip(2));
        assert(dot_slashes(k0 + 1) == seq!['.', '/'] + dot_slashes(k0));
        assert(s =~= dot_slashes(k0 + 1) + without_dot_slashes(s));
        k0 + 1
    } else {
        assert(s =~= dot_slashes(0) + s);
        0
    }
}

/// A header drops from a file name only leading `./`, as many as there
/// are: the name is some copies of `./` followed by the header, and the
/// header itself does not start with `./`.
pub proof fn law_header_drops_only_dot_slashes(name: Seq<char>)
    ensures
        exists|k: nat| name == dot_slashes(k) + without_dot_slashes(name),
        !(without_dot_slashes(name).len() >= 2 && without_dot_slashes(name)[0] == '.'
            && without_dot_slashes(name)[1] == '/'),
    decreases name.len(),
{
    let k = lemma_dot_slash_count(name);
    assert(name == dot_slashes(k) + without_dot_slashes(name));
    if name.len() >= 2 && name[0] == '.' && name[1] == '/' {
        law_header_drops_only_dot_slashes(name.skip(2));
    }
}

/// The text shown for a file's header row: its name without leading `./`.
pub fn header_text(name: &str) -> (s: String)
    ensures
        s@ == without_dot_slashes(name@),
{
    let c = chars_of(name);
    let mut i: usize = 0;
    proof {
        assert(name@.skip(0) == name@);
    }
    while i < c.len() && i + 1 < c.len() && c[i] == '.' && c[i + 1] == '/'
        invariant
            c@ == name@,
            i <= c@.len(),
            without_dot_slashes(name@) == without_dot_slashes(name@.skip(i as int)),
        decreases c@.len() - i,
    {
        proof {
            let t = name@.skip(i as int);
            assert(t[0] == '.' && t[1] == '/');
            assert(t.skip(2) == name@.skip(i + 2));
        }
        i = i + 2;
    }
    proof {
        let t = name@.skip(i as int);
        if t.len() >= 2 {
            assert(t[0] == c@[i as int] && t[1] == c@[i + 1]);
        }
        assert(c@.subrange(i as int, c@.len() as int) == t);
    }
    string_from_range(c.as_slice(), i, c.len())
}

/// The text shown before a matching line: a space, its line number, a colon
/// and a space.
pub fn line_prefix(line_number: u64) -> (s: String)
    ensures
        s@ == " "@ + decimal(line_number as nat) + ": "@,
{
    let mut s = " ".to_owned();
    push_all(&mut s, decimal_string(line_number).as_str());
    push_all(&mut s, ": ");
    s
}

} // verus!
