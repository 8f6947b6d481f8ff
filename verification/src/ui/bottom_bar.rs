//! The texts of the bar at the bottom of the screen: the application's
//! status, a summary of the search, the keys typed and the selected match.
use vstd::prelude::*;

use super::input_handler::InputState;
use crate::text::{decimal, decimal_string, law_decimal_reads_back, push_all, push_char};

verus! {

#[derive(Copy, Clone, Debug, PartialEq, Eq, Structural)]
pub enum AppStatus {
    Searching,
    Error,
    Finished,
}

/// The status shown: searching, else failed, else finished.
pub fn app_status(is_searching: bool, has_error: bool) -> (s: AppStatus)
    ensures
        s == if is_searching {
            AppStatus::Searching
        } else if has_error {
            AppStatus::Error
        } else {
            AppStatus::Finished
        },
{
    if is_searching {
        AppStatus::Searching
    } else if has_error {
        AppStatus::Error
    } else {
        AppStatus::Finished
    }
}

impl AppStatus {
    pub fn text(self) -> (t: &'static str)
        ensures
            t@ == match self {
                AppStatus::Searching => "SEARCHING"@,
                AppStatus::Error => "ERROR"@,
                AppStatus::Finished => "FINISHED"@,
            },
    {
        match self {
            AppStatus::Searching => "SEARCHING",
            AppStatus::Error => "ERROR",
            AppStatus::Finished => "FINISHED",
        }
    }
}

/// The summary of a search: nothing while searching; the error when the
/// search failed; else how many matches were found in how many files, and
/// how many were filtered out.
pub open spec fn summary_text(
    is_searching: bool,
    last_error: Option<&str>,
    total: usize,
    files: usize,
    filtered: usize,
) -> Seq<char> {
    if is_searching {
        Seq::empty()
    } else if last_error is Some {
        seq![' '] + last_error->0@
    } else if total == 0 {
        " No matches found."@
    } else {
        " Found "@ + decimal(total as nat) + (if total == 1 {
            " match"@
        } else {
            " matches"@
        }) + " in "@ + decimal(files as nat) + (if files == 1 {
            " file"@
        } else {
            " files"@
        }) + (if filtered != 0 {
            " ("@ + decimal(filtered as nat) + " filtered out)"@
        } else {
            Seq::empty()
        }) + "."@
    }
}

/// The summary counts the matches: with none it reads ` No matches found.`;
/// else it opens with ` Found `, their number in decimal and ` match`,
/// followed by `es` exactly when the number is not one.
pub proof fn law_summary_counts_matches(total: usize, files: usize, filtered: usize)
    ensures
        total == 0 ==> summary_text(false, None, total, files, filtered) == " No matches found."@,
        total > 0 ==> ({
            let t = summary_text(false, None, total, files, filtered);
            let p = " Found "@ + decimal(total as nat) + " match"@;
            &&& t.len() > p.len() + 2
            &&& t.subrange(0, p.len() as int) == p
            &&& (total == 1 <==> t[p.len() as int] == ' ')
            &&& (total != 1 ==> t.subrange(p.len() as int, p.len() + 2int) == "es"@)
        }),
{
    reveal_strlit(" Found ");
    reveal_strlit(" match");
    reveal_strlit(" matches");
    reveal_strlit(" in ");
    reveal_strlit("es");
    reveal_strlit(".");
    if total > 0 {
        let t = summary_text(false, None, total, files, filtered);
        let p = " Found "@ + decimal(total as nat) + " match"@;
        let rest = " in "@ + decimal(files as nat) + (if files == 1 {
            " file"@
        } else {
            " files"@
        }) + (if filtered != 0 {
            " ("@ + decimal(filtered as nat) + " filtered out)"@
        } else {
            Seq::empty()
        }) + "."@;
        if total == 1 {
            assert(t =~= p + rest);
            assert(t[p.len() as int] == rest[0]);
        } else {
            assert(" matches"@ =~= " match"@ + "es"@);
            assert(t =~= p + "es"@ + rest);
            assert(t.subrange(p.len() as int, p.len() + 2int) =~= "es"@);
            assert(t[p.len() as int] == 'e');
        }
        assert(t.subrange(0, p.len() as int) =~= p);
    }
}

/// Once matches were found, the summary reports the matches filtered out
/// exactly when there are any: it then ends with ` (n filtered out).`, `n`
/// the count in decimal; with none filtered out the sentence closes right
/// after the word "file" or "files".
pub proof fn law_summary_reports_filtered(total: usize, files: usize, filtered: usize)
    requires
        total > 0,
    ensures
        ({
            let t = summary_text(false, None, total, files, filtered);
            let tail = " ("@ + decimal(filtered as nat) + " filtered out)."@;
            &&& t.len() >= 2
            &&& t.last() == '.'
            &&& (filtered != 0 <==> t[t.len() - 2] == ')')
            &&& (filtered != 0 ==> t.len() >= tail.len() && t.subrange(
                t.len() - tail.len(),
                t.len() as int,
            ) == tail)
            &&& (filtered == 0 && files == 1 ==> t.subrange(t.len() - 6, t.len() as int)
                == " file."@)
            &&& (filtered == 0 && files != 1 ==> t.subrange(t.len() - 7, t.len() as int)
                == " files."@)
        }),
{
    reveal_strlit(" Found ");
    reveal_strlit(" match");
    reveal_strlit(" matches");
    reveal_strlit(" in ");
    reveal_strlit(" file");
    reveal_strlit(" files");
    reveal_strlit(" (");
    reveal_strlit(" filtered out)");
    reveal_strlit(" filtered out).");
    reveal_strlit(".");
    reveal_strlit(" file.");
    reveal_strlit(" files.");
    let t = summary_text(false, None, total, files, filtered);
    let word: Seq<char> = if files == 1 {
        " file"@
    } else {
        " files"@
    };
    let front = " Found "@ + decimal(total as nat) + (if total == 1 {
        " match"@
    } else {
        " matches"@
    }) + " in "@ + decimal(files as nat);
    let head = front + word;
    let d = decimal(filtered as nat);
    if filtered != 0 {
        let tail = " ("@ + d + " filtered out)."@;
        assert(" filtered out)."@ =~= " filtered out)"@ + "."@);
        assert(t =~= head + tail);
        assert(t.subrange(t.len() - tail.len(), t.len() as int) =~= tail);
        assert(tail[tail.len() - 2] == ')');
        assert(t[t.len() - 2] == tail[tail.len() - 2]);
    } else {
        assert(t =~= head + "."@);
        if files == 1 {
            assert(t.subrange(t.len() - 6, t.len() as int) =~= " file."@);
        } else {
            assert(t.subrange(t.len() - 7, t.len() as int) =~= " files."@);
        }
        assert(t[t.len() - 2] == word.last());
    }
}

pub fn search_result_summary(
    is_searching: bool,
    last_error: Option<&str>,
    total_no_of_matches: usize,
    no_of_files: usize,
    filtered_count: usize,
) -> (s: String)
    ensures
        s@ == summary_text(
            is_searching,
            last_error,
            total_no_of_matches,
            no_of_files,
            filtered_count,
        ),
{
    let mut s = String::new();
    if is_searching {
        return s;
    }
    if let Some(err) = last_error {
        push_char(&mut s, ' ');
        push_all(&mut s, err);
        return s;
    }
    if total_no_of_matches == 0 {
        push_all(&mut s, " No matches found.");
        return s;
    }
    push_all(&mut s, " Found ");
    push_all(&mut s, decimal_string(total_no_of_matches as u64).as_str());
    push_all(
        &mut s,
        if total_no_of_matches == 1 {
            " match"
        } else {
            " matches"
        },
    );
    push_all(&mut s, " in ");
    push_all(&mut s, decimal_string(no_of_files as u64).as_str());
    push_all(
        &mut s,
        if no_of_files == 1 {
            " file"
        } else {
            " files"
        },
    );
    if filtered_count != 0 {
        push_all(&mut s, " (");
        push_all(&mut s, decimal_string(filtered_count as u64).as_str());
        push_all(&mut s, " filtered out)");
    }
    push_all(&mut s, ".");
    s
}

/// The keys typed towards a command, and whether they form no command.
pub fn current_input(state: &InputState) -> (r: (String, bool))
    ensures
        match *state {
            InputState::Valid => r.0@.len() == 0 && !r.1,
            InputState::Incomplete(t) => r.0@ == t@ && !r.1,
            InputState::Invalid(t) => r.0@ == t@ && r.1,
        },
{
    match state {
        InputState::Valid => (String::new(), false),
        InputState::Incomplete(input) => (input.clone(), false),
        InputState::Invalid(input) => (input.clone(), true),
    }
}

/// `n` spaces.
pub open spec fn spaces(n: int) -> Seq<char> {
    Seq::new(if n > 0 {
        n as nat
    } else {
        0
    }, |i: int| ' ')
}

/// ` | i/n `, with `i` right-aligned to the width of `n`.
pub open spec fn selected_info(current_match_index: usize, current_no_of_matches: usize) -> Seq<
    char,
> {
    let i = decimal(current_match_index as nat);
    let n = decimal(current_no_of_matches as nat);
    " | "@ + spaces(n.len() - i.len()) + i + "/"@ + n + " "@
}

/// A smaller number has no more decimal digits than a larger one.
proof fn lemma_decimal_len_grows(a: nat, b: nat)
    requires
        a <= b,
    ensures
        decimal(a).len() <= decimal(b).len(),
    decreases b,
{
    law_decimal_reads_back(a);
    law_decimal_reads_back(b);
    if a >= 10 {
        lemma_decimal_len_grows(a / 10, b / 10);
    }
}

/// The counter of the selected match keeps one width while the index stays
/// within the count: the index is right-aligned to the width of the count,
/// so the `/` stands at the same place whatever the index, with the index's
/// digits just before it.
pub proof fn law_selected_info_keeps_its_width(i: usize, j: usize, n: usize)
    requires
        i <= n,
        j <= n,
    ensures
        ({
            let w = decimal(n as nat).len() as int;
            let s = selected_info(i, n);
            let di = decimal(i as nat);
            &&& s.len() == selected_info(j, n).len()
            &&& s.len() == 2 * w + 5
            &&& s[3 + w] == '/'
            &&& s.subrange(3 + w - di.len(), 3 + w) == di
            &&& forall|k: int| 3 <= k < 3 + w - di.len() ==> s[k] == ' '
        }),
{
    reveal_strlit(" | ");
    reveal_strlit("/");
    reveal_strlit(" ");
    lemma_decimal_len_grows(i as nat, n as nat);
    lemma_decimal_len_grows(j as nat, n as nat);
    let w = decimal(n as nat).len() as int;
    let di = decimal(i as nat);
    let s = selected_info(i, n);
    let pad = spaces(w - di.len());
    assert(pad.len() == w - di.len());
    assert(s =~= " | "@ + pad + di + "/"@ + decimal(n as nat) + " "@);
    assert(s.subrange(3 + w - di.len(), 3 + w) =~= di);
    assert forall|k: int| 3 <= k < 3 + w - di.len() implies s[k] == ' ' by {
        assert(s[k] == pad[k - 3]);
    }
}

pub fn render_selected_info_text(current_match_index: usize, current_no_of_matches: usize) -> (s:
    String)
    ensures
        s@ == selected_info(current_match_index, current_no_of_matches),
{
    let i = decimal_string(current_match_index as u64);
    let n = decimal_string(current_no_of_matches as u64);
    let i_len = crate::text::chars_of(i.as_str()).len();
    let width = crate::text::chars_of(n.as_str()).len();
    let mut s = " | ".to_owned();
    let ghost start = s@;
    let mut k: usize = i_len;
    while k < width
        invariant
            i_len <= k,
            k <= width || k == i_len,
            s@ == start + spaces(k - i_len),
        decreases width - k,
    {
        push_char(&mut s, ' ');
        assert(spaces(k + 1 - i_len) =~= spaces(k - i_len).push(' '));
        k = k + 1;
    }
    assert(spaces(k - i_len) =~= spaces(width - i_len));
    push_all(&mut s, i.as_str());
    push_all(&mut s, "/");
    push_all(&mut s, n.as_str());
    push_all(&mut s, " ");
    s
}

} // verus!
