//! The pane that shows the file around the selected match.
use vstd::prelude::*;

use std::path::Path;

use syntect::easy::HighlightLines;
use syntect::highlighting::ThemeSet;
use syntect::parsing::SyntaxSet;
use syntect::util::LinesWithEndings;

use crate::text::{
    chars_of, index_of, index_of_from, replace, replace_all, string_from_chars, string_from_range,
};

verus! {

/// Where the context viewer is shown at startup.
#[derive(Copy, Clone, Debug, PartialEq, Eq, Structural)]
pub enum ContextViewerPosition {
    Hidden,
    Vertical,
    Horizontal,
}

/// A piece of a highlighted line: its foreground colour and its text.
pub type StyledText = ((u8, u8, u8), String);

/// The highlighted lines of the file around the selected match.
pub struct ContextViewer {
    file_path: String,
    file_highlighted: Vec<Vec<StyledText>>,
}

impl Default for ContextViewer {
    fn default() -> (cv: Self)
        ensures
            cv.path().len() == 0,
            cv.lines().len() == 0,
    {
        ContextViewer { file_path: String::new(), file_highlighted: Vec::new() }
    }
}

/// A line's pieces with each tab widened to four spaces.
pub open spec fn widened_line(line: Seq<StyledText>, out: Seq<StyledText>) -> bool {
    &&& out.len() == line.len()
    &&& forall|k: int|
        0 <= k < line.len() ==> (#[trigger] out[k]).0 == line[k].0 && out[k].1@ == replace(
            line[k].1@,
            seq!['\t'],
            seq![' ', ' ', ' ', ' '],
        )
}

/// Highlighted lines as colours and plain texts.
pub open spec fn pieces_of(lines: Seq<Seq<StyledText>>) -> Seq<Seq<((u8, u8, u8), Seq<char>)>> {
    lines.map_values(|l: Seq<StyledText>| l.map_values(|p: StyledText| (p.0, p.1@)))
}

/// The name of the syntax that syntect's default syntaxes give a file named
/// `file_name` whose first line is `first_line`.
pub uninterp spec fn syntax_for(file_name: Seq<char>, first_line: Seq<char>) -> Seq<char>;

/// The lines of `text`, as syntect highlights them with the default syntax
/// named `syntax_name` and the default theme named `theme_name`.
pub uninterp spec fn highlighted(syntax_name: Seq<char>, text: Seq<char>, theme_name: Seq<char>) -> Seq<
    Seq<((u8, u8, u8), Seq<char>)>,
>;

/// The first line of `t`, with its line feed when it has one.
pub open spec fn first_line(t: Seq<char>) -> Seq<char> {
    let k = index_of_from(t, '\n', 0);
    t.take(
        if k < t.len() {
            k + 1
        } else {
            k
        },
    )
}

/// The name of the default syntax of syntect for the file `file_name` whose
/// first line is `first_line`: the syntax whose extensions hold the file name,
/// else its extension (`SyntaxSet::find_syntax_by_extension`), else the one
/// whose first-line pattern matches (`find_syntax_by_first_line`), else plain
/// text (`find_syntax_plain_text`). The result is named, not stated.
#[verifier::external_body]
fn syntax_name(file_name: &str, first_line: &str) -> (n: String)
    ensures
        n@ == syntax_for(file_name@, first_line@),
{
    let ss = SyntaxSet::load_defaults_newlines();
    let path = Path::new(file_name);
    let by_extension = |p: Option<&str>| ss.find_syntax_by_extension(p?);
    let syntax = by_extension(path.file_name().and_then(|n| n.to_str()))
        .or_else(|| by_extension(path.extension().and_then(|x| x.to_str())))
        .or_else(|| ss.find_syntax_by_first_line(first_line));
    syntax.unwrap_or_else(|| ss.find_syntax_plain_text()).name.clone()
}

/// Highlights `text` with `HighlightLines::highlight_line`, line by line
/// (each with its line ending), using the default syntax named `syntax_name`
/// and the default theme named `theme_name`, keeping the foreground colour
/// and text of each piece. The result is named, not stated: no lines when
/// either name is unknown, and only the lines before the first that syntect
/// fails to parse.
#[verifier::external_body]
fn highlight_with(syntax_name: &str, text: &str, theme_name: &str) -> (r: Vec<Vec<StyledText>>)
    ensures
        pieces_of(r@.map_values(|l: Vec<StyledText>| l@)) == highlighted(
            syntax_name@,
            text@,
            theme_name@,
        ),
{
    let (ss, ts) = (SyntaxSet::load_defaults_newlines(), ThemeSet::load_defaults());
    let (Some(syntax), Some(theme)) = (ss.find_syntax_by_name(syntax_name), ts.themes.get(theme_name)) else {
        return Vec::new();
    };
    let mut h = HighlightLines::new(syntax, theme);
    let lines = LinesWithEndings::from(text).map_while(|l| h.highlight_line(l, &ss).ok());
    lines.map(|r| r.into_iter().map(|(s, t)| ((s.foreground.r, s.foreground.g, s.foreground.b), t.to_owned())).collect()).collect()
}

/// The lines of `text`, the contents of the file `file_name`, highlighted
/// with the syntax syntect picks for the file and the theme named
/// `theme_name`.
pub fn highlight_text(file_name: &str, text: &str, theme_name: &str) -> (r: Vec<Vec<StyledText>>)
    ensures
        pieces_of(r@.map_values(|l: Vec<StyledText>| l@)) == highlighted(
            syntax_for(file_name@, first_line(text@)),
            text@,
            theme_name@,
        ),
{
    let c = chars_of(text);
    let k = index_of(c.as_slice(), '\n');
    let end = if k < c.len() {
        k + 1
    } else {
        k
    };
    let first = string_from_range(c.as_slice(), 0, end);
    assert(first@ == first_line(text@));
    let syntax = syntax_name(file_name, first.as_str());
    highlight_with(syntax.as_str(), text, theme_name)
}

impl ContextViewer {
    /// The file that is highlighted.
    pub closed spec fn path(&self) -> Seq<char> {
        self.file_path@
    }

    /// Its highlighted lines.
    pub closed spec fn lines(&self) -> Seq<Seq<StyledText>> {
        self.file_highlighted@.map_values(|l: Vec<StyledText>| l@)
    }

    /// Switches to the file `file_path`: when it is another file than the one
    /// shown, its lines are dropped and `true` says that they have to be
    /// highlighted anew.
    pub fn start_highlighting(&mut self, file_path: &str) -> (changed: bool)
        ensures
            changed == (old(self).path() != file_path@),
            changed ==> final(self).path() == file_path@ && final(self).lines().len() == 0,
            !changed ==> final(self).path() == old(self).path() && final(self).lines() == old(
                self,
            ).lines(),
    {
        let p = chars_of(file_path);
        let current = chars_of(self.file_path.as_str());
        let same = crate::text::eq_str(current.as_slice(), file_path);
        if !same {
            self.file_path = string_from_chars(p.as_slice());
            self.file_highlighted = Vec::new();
            assert(self.lines() =~= Seq::<Seq<StyledText>>::empty());
        }
        !same
    }

    /// Whether the viewer shows the file `file_path`.
    pub fn shows(&self, file_path: &str) -> (b: bool)
        ensures
            b == (self.path() == file_path@),
    {
        let current = chars_of(self.file_path.as_str());
        crate::text::eq_str(current.as_slice(), file_path)
    }

    /// Shows the file `file_path`, whose contents are `text`, highlighted with
    /// the theme named `theme_name`, unless it is the file already shown.
    pub fn highlight_file_if_needed(&mut self, file_path: &str, text: &str, theme_name: &str)
        ensures
            old(self).path() != file_path@ ==> final(self).path() == file_path@
                && pieces_of(final(self).lines()) == highlighted(
                syntax_for(file_path@, first_line(text@)),
                text@,
                theme_name@,
            ),
            old(self).path() == file_path@ ==> final(self).path() == old(self).path()
                && final(self).lines() == old(self).lines(),
    {
        if self.start_highlighting(file_path) {
            self.file_highlighted = highlight_text(file_path, text, theme_name);
        }
    }

    /// Appends one highlighted line.
    pub fn push_line(&mut self, line: Vec<StyledText>)
        ensures
            final(self).path() == old(self).path(),
            final(self).lines() == old(self).lines().push(line@),
    {
        self.file_highlighted.push(line);
        assert(self.lines() =~= old(self).lines().push(line@));
    }

    /// The lines from line `first_line_index` (counted from 1; 0 counts as 1)
    /// on, at most `height` of them, with tabs widened to four spaces.
    pub fn visible_lines(&self, first_line_index: usize, height: usize) -> (v: Vec<Vec<StyledText>>)
        ensures
            ({
                let start = if first_line_index > 0 {
                    first_line_index - 1
                } else {
                    0
                };
                let shown = if start >= self.lines().len() {
                    Seq::<Seq<StyledText>>::empty()
                } else {
                    self.lines().subrange(start as int, self.lines().len() as int)
                };
                &&& v@.len() == if shown.len() < height {
                    shown.len()
                } else {
                    height as nat
                }
                &&& forall|k: int| 0 <= k < v@.len() ==> widened_line(shown[k], #[trigger] v@[k]@)
            }),
    {
        let start = if first_line_index > 0 {
            first_line_index - 1
        } else {
            0
        };
        let tab = chars_of("\t");
        let spaces = chars_of("    ");
        proof {
            reveal_strlit("\t");
            reveal_strlit("    ");
            assert(tab@ =~= seq!['\t']);
            assert(spaces@ =~= seq![' ', ' ', ' ', ' ']);
        }
        let ghost all = self.lines();
        let mut v: Vec<Vec<StyledText>> = Vec::new();
        let mut i = start;
        while i < self.file_highlighted.len() && v.len() < height
            invariant
                start <= i,
                i <= all.len() || i == start,
                all == self.lines(),
                all.len() == self.file_highlighted@.len(),
                tab@ == seq!['\t'],
                spaces@ == seq![' ', ' ', ' ', ' '],
                v@.len() == i - start,
                v@.len() <= height,
                forall|k: int|
                    0 <= k < v@.len() ==> widened_line(all[start + k], #[trigger] v@[k]@),
            decreases self.file_highlighted@.len() - i,
        {
            let line = &self.file_highlighted[i];
            assert(all[i as int] == line@);
            let mut out: Vec<StyledText> = Vec::new();
            let mut k: usize = 0;
            while k < line.len()
                invariant
                    k <= line@.len(),
                    tab@ == seq!['\t'],
                    spaces@ == seq![' ', ' ', ' ', ' '],
                    out@.len() == k,
                    forall|j: int|
                        0 <= j < k ==> (#[trigger] out@[j]).0 == line@[j].0 && out@[j].1@ == replace(
                            line@[j].1@,
                            seq!['\t'],
                            seq![' ', ' ', ' ', ' '],
                        ),
                decreases line@.len() - k,
            {
                let piece = &line[k];
                let text = chars_of(piece.1.as_str());
                let widened = replace_all(text.as_slice(), tab.as_slice(), spaces.as_slice());
                out.push((piece.0, string_from_chars(widened.as_slice())));
                k = k + 1;
            }
            v.push(out);
            i = i + 1;
        }
        proof {
            let shown = if start >= all.len() {
                Seq::<Seq<StyledText>>::empty()
            } else {
                all.subrange(start as int, all.len() as int)
            };
            assert forall|k: int| 0 <= k < v@.len() implies widened_line(shown[k], #[trigger] v@[k]@) by {
                assert(shown[k] == all[start + k]);
            }
        }
        v
    }
}

/// The first line (counted from 1) to show in a viewer `height` lines high so
/// that line `match_line` sits in its middle, or line 1 near the top of the
/// file.
pub fn first_visible_line(match_line: usize, height: usize) -> (f: usize)
    ensures
        f == if match_line > height / 2 {
            (match_line - height / 2) as usize
        } else {
            1usize
        },
        f >= 1,
{
    if match_line > height / 2 {
        match_line - height / 2
    } else {
        1
    }
}

/// Whether, and how, the context viewer is shown.
pub enum ContextViewerState {
    Hidden,
    Vertical(ContextViewer),
    Horizontal(ContextViewer),
}

/// `after` is `before` with the side viewer toggled: a hidden viewer opens
/// empty on the side, one on the side closes, one below moves to the side
/// with its content.
pub open spec fn toggled_vertical(before: ContextViewerState, after: ContextViewerState) -> bool {
    match before {
        ContextViewerState::Hidden => (after matches ContextViewerState::Vertical(cv)
            && cv.path().len() == 0 && cv.lines().len() == 0),
        ContextViewerState::Vertical(_) => after is Hidden,
        ContextViewerState::Horizontal(cv) => after == ContextViewerState::Vertical(cv),
    }
}

/// `after` is `before` with the viewer below toggled: a hidden viewer opens
/// empty below, one below closes, one on the side moves below with its
/// content.
pub open spec fn toggled_horizontal(before: ContextViewerState, after: ContextViewerState) -> bool {
    match before {
        ContextViewerState::Hidden => (after matches ContextViewerState::Horizontal(cv)
            && cv.path().len() == 0 && cv.lines().len() == 0),
        ContextViewerState::Vertical(cv) => after == ContextViewerState::Horizontal(cv),
        ContextViewerState::Horizontal(_) => after is Hidden,
    }
}

/// Toggling the viewer the same way twice from hidden hides it again.
pub proof fn law_toggling_twice_hides(
    middle_v: ContextViewerState,
    after_v: ContextViewerState,
    middle_h: ContextViewerState,
    after_h: ContextViewerState,
)
    requires
        toggled_vertical(ContextViewerState::Hidden, middle_v),
        toggled_vertical(middle_v, after_v),
        toggled_horizontal(ContextViewerState::Hidden, middle_h),
        toggled_horizontal(middle_h, after_h),
    ensures
        after_v is Hidden,
        after_h is Hidden,
{
}

/// Moving a shown viewer to the other side and back gives it back unchanged,
/// content included.
pub proof fn law_switching_sides_keeps_the_viewer(
    cv: ContextViewer,
    middle_v: ContextViewerState,
    after_v: ContextViewerState,
    middle_h: ContextViewerState,
    after_h: ContextViewerState,
)
    requires
        toggled_horizontal(ContextViewerState::Vertical(cv), middle_v),
        toggled_vertical(middle_v, after_v),
        toggled_vertical(ContextViewerState::Horizontal(cv), middle_h),
        toggled_horizontal(middle_h, after_h),
    ensures
        after_v == ContextViewerState::Vertical(cv),
        after_h == ContextViewerState::Horizontal(cv),
{
}

impl Default for ContextViewerState {
    fn default() -> (s: Self)
        ensures
            s is Hidden,
    {
        ContextViewerState::Hidden
    }
}

impl ContextViewerState {
    /// Shows the viewer on the side, keeping its content when it was shown
    /// below; hides it when it was on the side.
    pub fn toggle_vertical(&mut self)
        ensures
            toggled_vertical(*old(self), *final(self)),
    {
        let mut previous = ContextViewerState::Hidden;
        std::mem::swap(self, &mut previous);
        *self = match previous {
            ContextViewerState::Hidden => ContextViewerState::Vertical(ContextViewer::default()),
            ContextViewerState::Vertical(_) => ContextViewerState::Hidden,
            ContextViewerState::Horizontal(cv) => ContextViewerState::Vertical(cv),
        };
    }

    /// Shows the viewer below, keeping its content when it was shown on the
    /// side; hides it when it was below.
    pub fn toggle_horizontal(&mut self)
        ensures
            toggled_horizontal(*old(self), *final(self)),
    {
        let mut previous = ContextViewerState::Hidden;
        std::mem::swap(self, &mut previous);
        *self = match previous {
            ContextViewerState::Hidden => ContextViewerState::Horizontal(ContextViewer::default()),
            ContextViewerState::Vertical(cv) => ContextViewerState::Horizontal(cv),
            ContextViewerState::Horizontal(_) => ContextViewerState::Hidden,
        };
    }

    /// The viewer, when it is shown.
    pub fn viewer(&self) -> (v: Option<&ContextViewer>)
        ensures
            match *self {
                ContextViewerState::Hidden => v is None,
                ContextViewerState::Vertical(cv) => v == Some(&cv),
                ContextViewerState::Horizontal(cv) => v == Some(&cv),
            },
    {
        match self {
            ContextViewerState::Hidden => None,
            ContextViewerState::Vertical(cv) => Some(cv),
            ContextViewerState::Horizontal(cv) => Some(cv),
        }
    }

    /// The viewer, when it is shown, for updating.
    pub fn viewer_mut(&mut self) -> (v: Option<&mut ContextViewer>)
        ensures
            match *old(self) {
                ContextViewerState::Hidden => v is None && *final(self) is Hidden,
                ContextViewerState::Vertical(cv) => v matches Some(r) && *r == cv
                    && *final(self) == ContextViewerState::Vertical(*final(r)),
                ContextViewerState::Horizontal(cv) => v matches Some(r) && *r == cv
                    && *final(self) == ContextViewerState::Horizontal(*final(r)),
            },
    {
        match self {
            ContextViewerState::Hidden => None,
            ContextViewerState::Vertical(cv) => Some(cv),
            ContextViewerState::Horizontal(cv) => Some(cv),
        }
    }
}

} // verus!
