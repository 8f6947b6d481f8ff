//! Command-line options, and the options read from ripgrep's configuration
//! file.
use vstd::prelude::*;

use crate::editor::Editor;
use crate::text::{
    chars_of, index_of, index_of_from, lines, push_all, split_lines, string_from_chars, trim,
    trim_chars,
};
use crate::ui::{context_viewer::ContextViewerPosition, theme::ThemeVariant};

verus! {

pub const IGREP_CUSTOM_EDITOR_ENV: &'static str = "IGREP_CUSTOM_EDITOR";

pub const IGREP_EDITOR_ENV: &'static str = "IGREP_EDITOR";

pub const EDITOR_ENV: &'static str = "EDITOR";

pub const RIPGREP_CONFIG_PATH_ENV: &'static str = "RIPGREP_CONFIG_PATH";

pub const VISUAL_ENV: &'static str = "VISUAL";

pub struct Args {
    /// Regular expression used for searching.
    pub pattern: Option<String>,
    /// Files or directories to search.
    pub paths: Vec<String>,
    pub editor: EditorOpt,
    pub theme: ThemeVariant,
    pub ignore_case: bool,
    pub smart_case: bool,
    pub search_hidden: bool,
    pub follow_links: bool,
    pub word_regexp: bool,
    pub fixed_strings: bool,
    pub multi_line: bool,
    pub glob: Vec<String>,
    pub type_list: bool,
    pub type_matching: Vec<String>,
    pub type_not: Vec<String>,
    pub context_viewer: ContextViewerPosition,
    pub sort_by: Option<SortKeyArg>,
    pub sort_by_reverse: Option<SortKeyArg>,
}

pub struct EditorOpt {
    /// Text editor used to open the selected match.
    pub editor: Option<Editor>,
    /// Custom command used to open the selected match; holds `{file_name}`
    /// and `{line_number}`.
    pub custom_command: Option<String>,
}

#[derive(Copy, Clone, Debug, PartialEq, Eq, Structural)]
pub enum SortKeyArg {
    Path,
    Modified,
    Created,
    Accessed,
}

/// An option's long and short names, as supported on the command line.
pub type OptionNames = (Option<String>, Option<String>);

/// The option `arg` is named `name` (long or short).
pub open spec fn names_option(arg: OptionNames, name: Seq<char>) -> bool {
    (arg.0 matches Some(l) && l@ == name) || (arg.1 matches Some(s) && s@ == name)
}

/// The names of an option that are present.
pub open spec fn present_names(arg: OptionNames) -> Seq<Seq<char>> {
    (match arg.0 {
        Some(l) => seq![l@],
        None => Seq::empty(),
    }) + (match arg.1 {
        Some(s) => seq![s@],
        None => Seq::empty(),
    })
}

/// Both names of the first supported option named `name`, or nothing when no
/// supported option has that name.
pub open spec fn paired_names(supported: Seq<OptionNames>, name: Seq<char>) -> Seq<Seq<char>>
    decreases supported.len(),
{
    if supported.len() == 0 {
        Seq::empty()
    } else if names_option(supported[0], name) {
        present_names(supported[0])
    } else {
        paired_names(supported.skip(1), name)
    }
}

/// The names in `to_ignore`, each replaced by both names of the supported
/// option it names; names of no supported option are dropped.
pub open spec fn all_paired_names(to_ignore: Seq<String>, supported: Seq<OptionNames>) -> Seq<
    Seq<char>,
>
    decreases to_ignore.len(),
{
    if to_ignore.len() == 0 {
        Seq::empty()
    } else {
        all_paired_names(to_ignore.drop_last(), supported) + paired_names(
            supported,
            to_ignore.last()@,
        )
    }
}

/// The options given on a command line: each argument that starts with `-`,
/// without its leading dashes.
pub open spec fn options_of(args: Seq<String>) -> Seq<Seq<char>>
    decreases args.len(),
{
    if args.len() == 0 {
        Seq::empty()
    } else {
        let a = args.last()@;
        options_of(args.drop_last()) + if a.len() > 0 && a[0] == '-' {
            seq![strip_dashes(a)]
        } else {
            Seq::empty()
        }
    }
}

/// `s` without its leading dashes.
pub open spec fn strip_dashes(s: Seq<char>) -> Seq<char>
    decreases s.len(),
{
    if s.len() > 0 && s[0] == '-' {
        strip_dashes(s.skip(1))
    } else {
        s
    }
}

proof fn lemma_strip_dashes(s: Seq<char>, i: int)
    requires
        0 <= i <= s.len(),
        forall|k: int| 0 <= k < i ==> s[k] == '-',
        i == s.len() || s[i] != '-',
    ensures
        strip_dashes(s) == s.skip(i),
    decreases i,
{
    if i > 0 {
        lemma_strip_dashes(s.skip(1), i - 1);
        assert(s.skip(1).skip(i - 1) == s.skip(i));
    } else {
        assert(s.skip(0) == s);
    }
}

fn paired_names_exec(supported: &[OptionNames], name: &String) -> (r: Vec<String>)
    ensures
        r@.len() == paired_names(supported@, name@).len(),
        forall|k: int| 0 <= k < r@.len() ==> #[trigger] r@[k]@ == paired_names(supported@, name@)[k],
{
    let mut j: usize = 0;
    assert(supported@.skip(0) == supported@);
    while j < supported.len()
        invariant
            j <= supported@.len(),
            paired_names(supported@, name@) == paired_names(supported@.skip(j as int), name@),
        decreases supported@.len() - j,
    {
        let ghost rest = supported@.skip(j as int);
        let arg = &supported[j];
        let long_matches = match &arg.0 {
            Some(l) => *l == *name,
            None => false,
        };
        let short_matches = match &arg.1 {
            Some(s) => *s == *name,
            None => false,
        };
        if long_matches || short_matches {
            assert(rest[0] == supported@[j as int]);
            let mut r: Vec<String> = Vec::new();
            match &arg.0 {
                Some(l) => r.push(l.clone()),
                None => {},
            }
            match &arg.1 {
                Some(s) => r.push(s.clone()),
                None => {},
            }
            return r;
        }
        assert(rest.skip(1) == supported@.skip(j + 1));
        j = j + 1;
    }
    Vec::new()
}

impl Args {
    /// The options of `to_ignore` widened to both names of each supported
    /// option, so that an option given on the command line by one name is
    /// ignored in the configuration file by either.
    pub fn pair_ignored(to_ignore: Vec<String>, supported_arguments: &[OptionNames]) -> (r: Vec<
        String,
    >)
        ensures
            r@.len() == all_paired_names(to_ignore@, supported_arguments@).len(),
            forall|k: int|
                0 <= k < r@.len() ==> #[trigger] r@[k]@ == all_paired_names(
                    to_ignore@,
                    supported_arguments@,
                )[k],
    {
        let mut r: Vec<String> = Vec::new();
        let mut i: usize = 0;
        while i < to_ignore.len()
            invariant
                i <= to_ignore@.len(),
                r@.len() == all_paired_names(to_ignore@.take(i as int), supported_arguments@).len(),
                forall|k: int|
                    0 <= k < r@.len() ==> #[trigger] r@[k]@ == all_paired_names(
                        to_ignore@.take(i as int),
                        supported_arguments@,
                    )[k],
            decreases to_ignore@.len() - i,
        {
            let names = paired_names_exec(supported_arguments, &to_ignore[i]);
            let ghost before = r@;
            let mut k: usize = 0;
            while k < names.len()
                invariant
                    k <= names@.len(),
                    r@.len() == before.len() + k,
                    forall|m: int| 0 <= m < before.len() ==> #[trigger] r@[m] == before[m],
                    forall|m: int| 0 <= m < k ==> #[trigger] r@[before.len() + m] == names@[m],
                decreases names@.len() - k,
            {
                r.push(names[k].clone());
                k = k + 1;
            }
            proof {
                let t1 = to_ignore@.take(i + 1);
                assert(t1.drop_last() == to_ignore@.take(i as int));
                assert(t1.last() == to_ignore@[i as int]);
                let full = all_paired_names(t1, supported_arguments@);
                assert(full == all_paired_names(to_ignore@.take(i as int), supported_arguments@)
                    + paired_names(supported_arguments@, to_ignore@[i as int]@));
                assert forall|k: int| 0 <= k < r@.len() implies #[trigger] r@[k]@ == full[k] by {
                    if k >= before.len() {
                        assert(r@[before.len() + (k - before.len())] == names@[k - before.len()]);
                    }
                }
            }
            i = i + 1;
        }
        assert(to_ignore@.take(i as int) == to_ignore@);
        r
    }

    /// The supported options: the long and short names of each declared
    /// argument that has at least one of them.
    pub fn collect_supported_arguments(arguments: Vec<(Option<String>, Option<char>)>) -> (r: Vec<
        OptionNames,
    >)
        ensures
            r@.len() == declared_options(arguments@).len(),
            forall|k: int|
                0 <= k < r@.len() ==> option_names_are(#[trigger] r@[k], declared_options(arguments@)[k]),
    {
        let mut r: Vec<OptionNames> = Vec::new();
        let ghost all = arguments@;
        for arg in it: arguments
            invariant
                it.seq() == all,
                r@.len() == declared_options(all.take(it.index() as int)).len(),
                forall|k: int|
                    0 <= k < r@.len() ==> option_names_are(
                        #[trigger] r@[k],
                        declared_options(all.take(it.index() as int))[k],
                    ),
        {
            assert(all.take(it.index() + 1).drop_last() == all.take(it.index() as int));
            match arg {
                (None, None) => {},
                (long, short) => {
                    let short = match short {
                        Some(c) => {
                            let mut s = String::new();
                            crate::text::push_char(&mut s, c);
                            Some(s)
                        },
                        None => None,
                    };
                    r.push((long, short));
                },
            }
        }
        assert(all.take(all.len() as int) == all);
        r
    }

    /// The options given on the command line `args`, without their leading
    /// dashes.
    pub fn options_given(args: &[String]) -> (r: Vec<String>)
        ensures
            r@.len() == options_of(args@).len(),
            forall|k: int| 0 <= k < r@.len() ==> #[trigger] r@[k]@ == options_of(args@)[k],
    {
        let mut r: Vec<String> = Vec::new();
        let mut i: usize = 0;
        while i < args.len()
            invariant
                i <= args@.len(),
                r@.len() == options_of(args@.take(i as int)).len(),
                forall|k: int|
                    0 <= k < r@.len() ==> #[trigger] r@[k]@ == options_of(args@.take(i as int))[k],
            decreases args@.len() - i,
        {
            assert(args@.take(i + 1).drop_last() == args@.take(i as int));
            let a = chars_of(args[i].as_str());
            if a.len() > 0 && a[0] == '-' {
                let mut start: usize = 0;
                while start < a.len() && a[start] == '-'
                    invariant
                        start <= a@.len(),
                        forall|k: int| 0 <= k < start ==> a@[k] == '-',
                    decreases a@.len() - start,
                {
                    start = start + 1;
                }
                proof {
                    lemma_strip_dashes(a@, start as int);
                }
                r.push(crate::text::string_from_range(a.as_slice(), start, a.len()));
            }
            i = i + 1;
        }
        assert(args@.take(i as int) == args@);
        r
    }
}

/// The declared arguments that have a long or a short name.
pub open spec fn declared_options(arguments: Seq<(Option<String>, Option<char>)>) -> Seq<
    (Option<String>, Option<char>),
>
    decreases arguments.len(),
{
    if arguments.len() == 0 {
        Seq::empty()
    } else {
        declared_options(arguments.drop_last()) + if arguments.last().0 is None
            && arguments.last().1 is None {
            Seq::empty()
        } else {
            seq![arguments.last()]
        }
    }
}

/// `names` holds the long name of `arg` and its short name as a string.
pub open spec fn option_names_are(names: OptionNames, arg: (Option<String>, Option<char>)) -> bool {
    &&& names.0 == arg.0
    &&& match (names.1, arg.1) {
        (Some(s), Some(c)) => s@ == seq![c],
        (None, None) => true,
        _ => false,
    }
}

/// Some supported option has the long name (`long`) or short name (`!long`)
/// `name`.
pub open spec fn option_supported(supported: Seq<OptionNames>, name: Seq<char>, long: bool) -> bool {
    exists|j: int| 0 <= j < supported.len() && #[trigger] has_name(supported[j], name, long)
}

/// The long (`long`) or short (`!long`) name of `arg` is `name`.
pub open spec fn has_name(arg: OptionNames, name: Seq<char>, long: bool) -> bool {
    match (if long {
        arg.0
    } else {
        arg.1
    }) {
        Some(n) => n@ == name,
        None => false,
    }
}

/// `name` is one of `to_ignore`.
pub open spec fn listed(to_ignore: Seq<String>, name: Seq<char>) -> bool {
    exists|j: int| 0 <= j < to_ignore.len() && #[trigger] to_ignore[j]@ == name
}

/// The name an option line gives: what follows its dashes, up to the first `=`.
pub open spec fn option_name(rest: Seq<char>) -> Seq<char> {
    rest.take(index_of_from(rest, '=', 0))
}

/// A trimmed configuration line that is only dashes with no name after them
/// (`-` or `--`).
pub open spec fn nameless_option(l: Seq<char>) -> bool {
    (l.len() == 1 && l[0] == '-') || (l.len() == 2 && l[0] == '-' && l[1] == '-')
}

/// What the trimmed configuration line `l` contributes, and whether the line
/// after it is skipped; `skip` says whether `l` itself is skipped as the value
/// of an option left out. An option line is kept when its option is supported
/// and not given on the command line; otherwise, without an inline `=` value,
/// the line after it (its value) is skipped. Empty lines and comments change
/// nothing.
pub open spec fn config_step(
    l: Seq<char>,
    skip: bool,
    supported: Seq<OptionNames>,
    to_ignore: Seq<String>,
) -> (Option<Seq<char>>, bool) {
    if l.len() == 0 || l[0] == '#' {
        (None, skip)
    } else if l[0] == '-' {
        let long = l.len() >= 2 && l[1] == '-';
        let name = option_name(
            if long {
                l.skip(2)
            } else {
                l.skip(1)
            },
        );
        if option_supported(supported, name, long) && !listed(to_ignore, name) {
            (Some(l), false)
        } else {
            (None, index_of_from(l, '=', 0) == l.len())
        }
    } else if skip {
        (None, false)
    } else {
        (Some(l), false)
    }
}

/// The arguments taken from the configuration lines `ls` (see
/// [`config_step`]), and whether the line after them would be skipped.
pub open spec fn config_arguments(
    ls: Seq<Seq<char>>,
    supported: Seq<OptionNames>,
    to_ignore: Seq<String>,
) -> (Seq<Seq<char>>, bool)
    decreases ls.len(),
{
    if ls.len() == 0 {
        (Seq::empty(), false)
    } else {
        let before = config_arguments(ls.drop_last(), supported, to_ignore);
        let step = config_step(trim(ls.last()), before.1, supported, to_ignore);
        (
            before.0 + match step.0 {
                Some(a) => seq![a],
                None => Seq::empty(),
            },
            step.1,
        )
    }
}

fn option_supported_exec(supported: &[OptionNames], name: &String, long: bool) -> (r: bool)
    ensures
        r == option_supported(supported@, name@, long),
{
    let mut j: usize = 0;
    while j < supported.len()
        invariant
            j <= supported@.len(),
            forall|k: int| 0 <= k < j ==> !has_name(#[trigger] supported@[k], name@, long),
        decreases supported@.len() - j,
    {
        let candidate = if long {
            &supported[j].0
        } else {
            &supported[j].1
        };
        let found = match candidate {
            Some(n) => *n == *name,
            None => false,
        };
        if found {
            assert(has_name(supported@[j as int], name@, long));
            return true;
        }
        j = j + 1;
    }
    false
}

fn listed_exec(to_ignore: &[String], name: &String) -> (r: bool)
    ensures
        r == listed(to_ignore@, name@),
{
    let mut j: usize = 0;
    while j < to_ignore.len()
        invariant
            j <= to_ignore@.len(),
            forall|k: int| 0 <= k < j ==> to_ignore@[k]@ != name@,
        decreases to_ignore@.len() - j,
    {
        if to_ignore[j] == *name {
            assert(to_ignore@[j as int]@ == name@);
            return true;
        }
        j = j + 1;
    }
    false
}

/// Whether a line of the configuration text `reader` is an option with no
/// name (`-` or `--`, once trimmed), on which reading the file fails.
pub fn has_nameless_option(reader: &str) -> (b: bool)
    ensures
        b == exists|i: int|
            0 <= i < lines(reader@).len() && nameless_option(trim(#[trigger] lines(reader@)[i])),
{
    let text = chars_of(reader);
    let ls = split_lines(text.as_slice());
    let ghost all = lines(reader@);
    let mut i: usize = 0;
    while i < ls.len()
        invariant
            all == lines(reader@),
            ls@.len() == all.len(),
            forall|k: int| 0 <= k < ls@.len() ==> #[trigger] ls@[k]@ == all[k],
            i <= ls@.len(),
            forall|k: int| 0 <= k < i ==> !nameless_option(trim(#[trigger] all[k])),
        decreases ls@.len() - i,
    {
        let line = trim_chars(ls[i].as_slice());
        assert(line@ == trim(all[i as int]));
        if (line.len() == 1 && line[0] == '-') || (line.len() == 2 && line[0] == '-' && line[1]
            == '-') {
            return true;
        }
        i = i + 1;
    }
    false
}

impl Args {
    /// The arguments that ripgrep's configuration file `reader` adds: the
    /// lines (trimmed) that are supported options not given on the command
    /// line, their values, and free-standing values (see
    /// [`config_arguments`]).
    pub fn parse_from_reader(reader: &str, supported: Vec<OptionNames>, to_ignore: Vec<String>) -> (r:
        Vec<String>)
        requires
            forall|i: int|
                0 <= i < lines(reader@).len() ==> !nameless_option(trim(#[trigger] lines(reader@)[i])),
        ensures
            r@.len() == config_arguments(lines(reader@), supported@, to_ignore@).0.len(),
            forall|k: int|
                0 <= k < r@.len() ==> #[trigger] r@[k]@ == config_arguments(
                    lines(reader@),
                    supported@,
                    to_ignore@,
                ).0[k],
    {
        let text = chars_of(reader);
        let ls = split_lines(text.as_slice());
        let ghost all = lines(reader@);
        let mut ignore_next_line = false;
        let mut r: Vec<String> = Vec::new();
        let mut i: usize = 0;
        while i < ls.len()
            invariant
                text@ == reader@,
                all == lines(reader@),
                ls@.len() == all.len(),
                forall|k: int| 0 <= k < ls@.len() ==> #[trigger] ls@[k]@ == all[k],
                forall|k: int| 0 <= k < all.len() ==> !nameless_option(trim(#[trigger] all[k])),
                i <= ls@.len(),
                r@.len() == config_arguments(all.take(i as int), supported@, to_ignore@).0.len(),
                forall|k: int|
                    0 <= k < r@.len() ==> #[trigger] r@[k]@ == config_arguments(
                        all.take(i as int),
                        supported@,
                        to_ignore@,
                    ).0[k],
                ignore_next_line == config_arguments(all.take(i as int), supported@, to_ignore@).1,
            decreases ls@.len() - i,
        {
            let ghost taken = all.take(i + 1);
            assert(taken.drop_last() == all.take(i as int));
            assert(taken.last() == all[i as int]);
            let line = trim_chars(ls[i].as_slice());
            assert(line@ == trim(all[i as int]));
            let ghost step = config_step(line@, ignore_next_line, supported@, to_ignore@);
            let ghost before = r@;
            let mut emitted = false;
            if line.len() == 0 || line[0] == '#' {
            } else if line[0] == '-' {
                let long = line.len() >= 2 && line[1] == '-';
                let skip = if long {
                    2
                } else {
                    1
                };
                let rest = crate::text::string_from_range(line.as_slice(), skip, line.len());
                let rest_chars = chars_of(rest.as_str());
                let end = index_of(rest_chars.as_slice(), '=');
                let name = crate::text::string_from_range(rest_chars.as_slice(), 0, end);
                assert(name@ == option_name(
                    if long {
                        line@.skip(2)
                    } else {
                        line@.skip(1)
                    },
                ));
                if option_supported_exec(supported.as_slice(), &name, long) && !listed_exec(
                    to_ignore.as_slice(),
                    &name,
                ) {
                    ignore_next_line = false;
                    r.push(string_from_chars(line.as_slice()));
                    emitted = true;
                } else {
                    let eq = index_of(line.as_slice(), '=');
                    ignore_next_line = eq == line.len();
                }
            } else {
                if ignore_next_line {
                    ignore_next_line = false;
                } else {
                    r.push(string_from_chars(line.as_slice()));
                    emitted = true;
                }
            }
            proof {
                assert(ignore_next_line == step.1);
                assert(emitted == step.0 is Some);
                if emitted {
                    assert(r@[before.len() as int]@ == step.0->0);
                }
            }
            i = i + 1;
        }
        assert(all.take(ls@.len() as int) == all);
        r
    }
}

/// The globs `globs`, separated by a comma and a space.
pub open spec fn joined_globs(globs: Seq<String>) -> Seq<char>
    decreases globs.len(),
{
    if globs.len() == 0 {
        Seq::empty()
    } else if globs.len() == 1 {
        globs[0]@
    } else {
        joined_globs(globs.drop_last()) + ", "@ + globs.last()@
    }
}

/// The line that `--type-list` prints for the file type `name`.
pub open spec fn type_line(name: Seq<char>, globs: Seq<String>) -> Seq<char> {
    name + ": "@ + joined_globs(globs)
}

/// The line that `--type-list` prints for the file type `name` with the
/// globs `globs`.
pub fn type_list_line(name: &str, globs: &[String]) -> (s: String)
    ensures
        s@ == type_line(name@, globs@),
{
    let mut s = name.to_owned();
    push_all(&mut s, ": ");
    let ghost start = s@;
    let mut i: usize = 0;
    while i < globs.len()
        invariant
            i <= globs@.len(),
            start == name@ + ": "@,
            s@ == start + joined_globs(globs@.take(i as int)),
        decreases globs@.len() - i,
    {
        proof {
            let t = globs@.take(i + 1);
            assert(t.drop_last() == globs@.take(i as int));
            assert(t.last() == globs@[i as int]);
        }
        if i > 0 {
            push_all(&mut s, ", ");
        }
        push_all(&mut s, globs[i].as_str());
        proof {
            if i == 0 {
                assert(globs@.take(1)[0] == globs@[0]);
                assert(globs@.take(0).len() == 0);
            }
        }
        i = i + 1;
    }
    assert(globs@.take(i as int) == globs@);
    s
}

/// ignore's default file types, each with its globs, as
/// `TypesBuilder::definitions` lists them once `add_defaults` has run.
/// Nothing is stated of them.
#[verifier::external_body]
fn default_type_definitions() -> Vec<(String, Vec<String>)> {
    let mut builder = ignore::types::TypesBuilder::new();
    builder.add_defaults();
    builder.definitions().into_iter().map(|d| (d.name().to_owned(), d.globs().to_vec())).collect()
}

/// The lines that `--type-list` prints: one per default file type, its name
/// then its globs.
pub fn type_list() -> (r: Vec<String>)
    ensures
        exists|d: Seq<(String, Vec<String>)>|
            #![trigger d.len()]
            r@.len() == d.len() && forall|i: int|
                0 <= i < d.len() ==> #[trigger] r@[i]@ == type_line(d[i].0@, d[i].1@),
{
    let definitions = default_type_definitions();
    let mut r: Vec<String> = Vec::new();
    let mut i: usize = 0;
    while i < definitions.len()
        invariant
            i <= definitions@.len(),
            r@.len() == i,
            forall|k: int|
                0 <= k < i ==> #[trigger] r@[k]@ == type_line(
                    definitions@[k].0@,
                    definitions@[k].1@,
                ),
        decreases definitions@.len() - i,
    {
        r.push(type_list_line(definitions[i].0.as_str(), definitions[i].1.as_slice()));
        i = i + 1;
    }
    assert(r@.len() == definitions@.len());
    r
}

} // verus!
