//! The text editor that opens a selected match, and the command line that
//! launches it.
use vstd::prelude::*;

use crate::text::{
    after_last_slash, after_last_slash_exec, chars_of, count_all, count_occurrences, decimal,
    decimal_string, eq_str, index_of, index_of_from, push_all, replace, replace_all,
    split_whitespace, string_from_range, words,
};

verus! {

/// The editors that igrep knows how to launch.
#[derive(Copy, Clone, Debug, PartialEq, Eq, Structural)]
pub enum Editor {
    Vim,
    Neovim,
    Nvim,
    Nano,
    Code,
    Vscode,
    CodeInsiders,
    Emacs,
    Emacsclient,
    Hx,
    Helix,
    Subl,
    SublimeText,
    Micro,
    Intellij,
    Goland,
    Pycharm,
    Less,
}

impl Default for Editor {
    fn default() -> (e: Self)
        ensures
            e == Editor::Vim,
    {
        Editor::Vim
    }
}

/// The editor that the command-line value `s` names (variant names in
/// kebab case, matched exactly), if any.
pub open spec fn editor_named(s: Seq<char>) -> Option<Editor> {
    if s == "vim"@ {
        Some(Editor::Vim)
    } else if s == "neovim"@ {
        Some(Editor::Neovim)
    } else if s == "nvim"@ {
        Some(Editor::Nvim)
    } else if s == "nano"@ {
        Some(Editor::Nano)
    } else if s == "code"@ {
        Some(Editor::Code)
    } else if s == "vscode"@ {
        Some(Editor::Vscode)
    } else if s == "code-insiders"@ {
        Some(Editor::CodeInsiders)
    } else if s == "emacs"@ {
        Some(Editor::Emacs)
    } else if s == "emacsclient"@ {
        Some(Editor::Emacsclient)
    } else if s == "hx"@ {
        Some(Editor::Hx)
    } else if s == "helix"@ {
        Some(Editor::Helix)
    } else if s == "subl"@ {
        Some(Editor::Subl)
    } else if s == "sublime-text"@ {
        Some(Editor::SublimeText)
    } else if s == "micro"@ {
        Some(Editor::Micro)
    } else if s == "intellij"@ {
        Some(Editor::Intellij)
    } else if s == "goland"@ {
        Some(Editor::Goland)
    } else if s == "pycharm"@ {
        Some(Editor::Pycharm)
    } else if s == "less"@ {
        Some(Editor::Less)
    } else {
        None
    }
}

/// The name by which editor `e` is given on the command line and in the
/// editor variables: its variant's name in kebab case.
pub open spec fn editor_name(e: Editor) -> Seq<char> {
    match e {
        Editor::Vim => "vim"@,
        Editor::Neovim => "neovim"@,
        Editor::Nvim => "nvim"@,
        Editor::Nano => "nano"@,
        Editor::Code => "code"@,
        Editor::Vscode => "vscode"@,
        Editor::CodeInsiders => "code-insiders"@,
        Editor::Emacs => "emacs"@,
        Editor::Emacsclient => "emacsclient"@,
        Editor::Hx => "hx"@,
        Editor::Helix => "helix"@,
        Editor::Subl => "subl"@,
        Editor::SublimeText => "sublime-text"@,
        Editor::Micro => "micro"@,
        Editor::Intellij => "intellij"@,
        Editor::Goland => "goland"@,
        Editor::Pycharm => "pycharm"@,
        Editor::Less => "less"@,
    }
}

/// Editor names are read back exactly: each editor's name gives that
/// editor, and a text that names an editor is that editor's name.
pub proof fn law_editor_names_round_trip(e: Editor, s: Seq<char>)
    ensures
        editor_named(editor_name(e)) == Some(e),
        editor_named(s) matches Some(f) ==> s == editor_name(f),
{
    reveal_strlit("vim");
    reveal_strlit("neovim");
    reveal_strlit("nvim");
    reveal_strlit("nano");
    reveal_strlit("code");
    reveal_strlit("vscode");
    reveal_strlit("code-insiders");
    reveal_strlit("emacs");
    reveal_strlit("emacsclient");
    reveal_strlit("hx");
    reveal_strlit("helix");
    reveal_strlit("subl");
    reveal_strlit("sublime-text");
    reveal_strlit("micro");
    reveal_strlit("intellij");
    reveal_strlit("goland");
    reveal_strlit("pycharm");
    reveal_strlit("less");
    assert("vim"@.len() == 3 && "vim"@[0] == 'v' && "vim"@[1] == 'i');
    assert("neovim"@.len() == 6 && "neovim"@[0] == 'n' && "neovim"@[1] == 'e');
    assert("nvim"@.len() == 4 && "nvim"@[0] == 'n' && "nvim"@[1] == 'v');
    assert("nano"@.len() == 4 && "nano"@[0] == 'n' && "nano"@[1] == 'a');
    assert("code"@.len() == 4 && "code"@[0] == 'c' && "code"@[1] == 'o');
    assert("vscode"@.len() == 6 && "vscode"@[0] == 'v' && "vscode"@[1] == 's');
    assert("code-insiders"@.len() == 13 && "code-insiders"@[0] == 'c' && "code-insiders"@[1] == 'o');
    assert("emacs"@.len() == 5 && "emacs"@[0] == 'e' && "emacs"@[1] == 'm');
    assert("emacsclient"@.len() == 11 && "emacsclient"@[0] == 'e' && "emacsclient"@[1] == 'm');
    assert("hx"@.len() == 2 && "hx"@[0] == 'h' && "hx"@[1] == 'x');
    assert("helix"@.len() == 5 && "helix"@[0] == 'h' && "helix"@[1] == 'e');
    assert("subl"@.len() == 4 && "subl"@[0] == 's' && "subl"@[1] == 'u');
    assert("sublime-text"@.len() == 12 && "sublime-text"@[0] == 's' && "sublime-text"@[1] == 'u');
    assert("micro"@.len() == 5 && "micro"@[0] == 'm' && "micro"@[1] == 'i');
    assert("intellij"@.len() == 8 && "intellij"@[0] == 'i' && "intellij"@[1] == 'n');
    assert("goland"@.len() == 6 && "goland"@[0] == 'g' && "goland"@[1] == 'o');
    assert("pycharm"@.len() == 7 && "pycharm"@[0] == 'p' && "pycharm"@[1] == 'y');
    assert("less"@.len() == 4 && "less"@[0] == 'l' && "less"@[1] == 'e');
    match e {
        Editor::Vim => assert(editor_named("vim"@) == Some(Editor::Vim)),
        Editor::Neovim => assert(editor_named("neovim"@) == Some(Editor::Neovim)),
        Editor::Nvim => assert(editor_named("nvim"@) == Some(Editor::Nvim)),
        Editor::Nano => assert(editor_named("nano"@) == Some(Editor::Nano)),
        Editor::Code => assert(editor_named("code"@) == Some(Editor::Code)),
        Editor::Vscode => assert(editor_named("vscode"@) == Some(Editor::Vscode)),
        Editor::CodeInsiders => assert(editor_named("code-insiders"@) == Some(Editor::CodeInsiders)),
        Editor::Emacs => assert(editor_named("emacs"@) == Some(Editor::Emacs)),
        Editor::Emacsclient => assert(editor_named("emacsclient"@) == Some(Editor::Emacsclient)),
        Editor::Hx => assert(editor_named("hx"@) == Some(Editor::Hx)),
        Editor::Helix => assert(editor_named("helix"@) == Some(Editor::Helix)),
        Editor::Subl => assert(editor_named("subl"@) == Some(Editor::Subl)),
        Editor::SublimeText => assert(editor_named("sublime-text"@) == Some(Editor::SublimeText)),
        Editor::Micro => assert(editor_named("micro"@) == Some(Editor::Micro)),
        Editor::Intellij => assert(editor_named("intellij"@) == Some(Editor::Intellij)),
        Editor::Goland => assert(editor_named("goland"@) == Some(Editor::Goland)),
        Editor::Pycharm => assert(editor_named("pycharm"@) == Some(Editor::Pycharm)),
        Editor::Less => assert(editor_named("less"@) == Some(Editor::Less)),
    }
}

/// The program that launches editor `e`.
pub open spec fn builtin_program(e: Editor) -> Seq<char> {
    match e {
        Editor::Vim => "vim"@,
        Editor::Neovim | Editor::Nvim => "nvim"@,
        Editor::Nano => "nano"@,
        Editor::Code | Editor::Vscode => "code"@,
        Editor::CodeInsiders => "code-insiders"@,
        Editor::Emacs => "emacs"@,
        Editor::Emacsclient => "emacsclient"@,
        Editor::Hx => "hx"@,
        Editor::Helix => "helix"@,
        Editor::Subl | Editor::SublimeText => "subl"@,
        Editor::Micro => "micro"@,
        Editor::Intellij => "idea"@,
        Editor::Goland => "goland"@,
        Editor::Pycharm => "pycharm"@,
        Editor::Less => "less"@,
    }
}

/// Each editor is launched by the program of its own name, but for four:
/// neovim runs as nvim, vscode as code, sublime-text as subl, and intellij
/// as idea.
pub proof fn law_editor_program_is_its_name(e: Editor)
    ensures
        e != Editor::Neovim && e != Editor::Vscode && e != Editor::SublimeText && e
            != Editor::Intellij ==> builtin_program(e) == editor_name(e),
        builtin_program(Editor::Neovim) == editor_name(Editor::Nvim),
        builtin_program(Editor::Vscode) == editor_name(Editor::Code),
        builtin_program(Editor::SublimeText) == editor_name(Editor::Subl),
        builtin_program(Editor::Intellij) == "idea"@,
{
}

/// The arguments that make editor `e` open `file` at line `line_number`.
pub open spec fn builtin_args(e: Editor, file: Seq<char>, line_number: u64) -> Seq<Seq<char>> {
    let n = decimal(line_number as nat);
    match e {
        Editor::Vim | Editor::Neovim | Editor::Nvim | Editor::Nano | Editor::Micro
        | Editor::Less => seq!["+"@ + n, file],
        Editor::Code | Editor::Vscode | Editor::CodeInsiders => seq!["-g"@, file + ":"@ + n],
        Editor::Emacs | Editor::Emacsclient => seq!["-nw"@, "+"@ + n, file],
        Editor::Hx | Editor::Helix | Editor::Subl | Editor::SublimeText => seq![file + ":"@ + n],
        Editor::Intellij | Editor::Goland | Editor::Pycharm => seq!["--line"@, n, file],
    }
}

/// Every editor is handed the file last, either alone, after the line
/// number, or with `:` and the line number appended; the line number is
/// always given in decimal.
pub proof fn law_editor_args_carry_file_and_line(e: Editor, file: Seq<char>, line_number: u64)
    ensures
        ({
            let a = builtin_args(e, file, line_number);
            let d = decimal(line_number as nat);
            &&& a.len() >= 1
            &&& a.last() == file || a.last() == file + ":"@ + d
            &&& a.last() == file ==> exists|k: int|
                0 <= k < a.len() - 1 && (#[trigger] a[k] == "+"@ + d || a[k] == d)
        }),
{
    let a = builtin_args(e, file, line_number);
    let d = decimal(line_number as nat);
    match e {
        Editor::Vim | Editor::Neovim | Editor::Nvim | Editor::Nano | Editor::Micro
        | Editor::Less => {
            assert(a[0] == "+"@ + d);
        },
        Editor::Emacs | Editor::Emacsclient => {
            assert(a[1] == "+"@ + d);
        },
        Editor::Intellij | Editor::Goland | Editor::Pycharm => {
            assert(a[1] == d);
        },
        _ => {},
    }
}

/// The editor named by the value of an editor variable: the last component
/// of a path names it.
pub open spec fn editor_of_variable(value: Seq<char>) -> Option<Editor> {
    editor_named(after_last_slash(value))
}

impl Editor {
    /// The editor named `name` (as on the command line), if any.
    pub fn from_name(name: &str) -> (r: Option<Editor>)
        ensures
            r == editor_named(name@),
    {
        let s = chars_of(name);
        let s = s.as_slice();
        if eq_str(s, "vim") {
            Some(Editor::Vim)
        } else if eq_str(s, "neovim") {
            Some(Editor::Neovim)
        } else if eq_str(s, "nvim") {
            Some(Editor::Nvim)
        } else if eq_str(s, "nano") {
            Some(Editor::Nano)
        } else if eq_str(s, "code") {
            Some(Editor::Code)
        } else if eq_str(s, "vscode") {
            Some(Editor::Vscode)
        } else if eq_str(s, "code-insiders") {
            Some(Editor::CodeInsiders)
        } else if eq_str(s, "emacs") {
            Some(Editor::Emacs)
        } else if eq_str(s, "emacsclient") {
            Some(Editor::Emacsclient)
        } else if eq_str(s, "hx") {
            Some(Editor::Hx)
        } else if eq_str(s, "helix") {
            Some(Editor::Helix)
        } else if eq_str(s, "subl") {
            Some(Editor::Subl)
        } else if eq_str(s, "sublime-text") {
            Some(Editor::SublimeText)
        } else if eq_str(s, "micro") {
            Some(Editor::Micro)
        } else if eq_str(s, "intellij") {
            Some(Editor::Intellij)
        } else if eq_str(s, "goland") {
            Some(Editor::Goland)
        } else if eq_str(s, "pycharm") {
            Some(Editor::Pycharm)
        } else if eq_str(s, "less") {
            Some(Editor::Less)
        } else {
            None
        }
    }

    /// The program that launches this editor.
    pub fn program(self) -> (p: &'static str)
        ensures
            p@ == builtin_program(self),
    {
        match self {
            Editor::Vim => "vim",
            Editor::Neovim | Editor::Nvim => "nvim",
            Editor::Nano => "nano",
            Editor::Code | Editor::Vscode => "code",
            Editor::CodeInsiders => "code-insiders",
            Editor::Emacs => "emacs",
            Editor::Emacsclient => "emacsclient",
            Editor::Hx => "hx",
            Editor::Helix => "helix",
            Editor::Subl | Editor::SublimeText => "subl",
            Editor::Micro => "micro",
            Editor::Intellij => "idea",
            Editor::Goland => "goland",
            Editor::Pycharm => "pycharm",
            Editor::Less => "less",
        }
    }

    /// The arguments that make this editor open `file_name` at `line_number`.
    pub fn args(self, file_name: &str, line_number: u64) -> (v: Vec<String>)
        ensures
            v@.len() == builtin_args(self, file_name@, line_number).len(),
            forall|i: int|
                0 <= i < v@.len() ==> #[trigger] v@[i]@ == builtin_args(
                    self,
                    file_name@,
                    line_number,
                )[i],
    {
        let n = decimal_string(line_number);
        let mut plus_line = "+".to_owned();
        push_all(&mut plus_line, n.as_str());
        let mut file_at_line = file_name.to_owned();
        push_all(&mut file_at_line, ":");
        push_all(&mut file_at_line, n.as_str());
        let mut v: Vec<String> = Vec::new();
        match self {
            Editor::Vim | Editor::Neovim | Editor::Nvim | Editor::Nano | Editor::Micro
            | Editor::Less => {
                v.push(plus_line);
                v.push(file_name.to_owned());
            },
            Editor::Code | Editor::Vscode | Editor::CodeInsiders => {
                v.push("-g".to_owned());
                v.push(file_at_line);
            },
            Editor::Emacs | Editor::Emacsclient => {
                v.push("-nw".to_owned());
                v.push(plus_line);
                v.push(file_name.to_owned());
            },
            Editor::Hx | Editor::Helix | Editor::Subl | Editor::SublimeText => {
                v.push(file_at_line);
            },
            Editor::Intellij | Editor::Goland | Editor::Pycharm => {
                v.push("--line".to_owned());
                v.push(n);
                v.push(file_name.to_owned());
            },
        }
        v
    }
}

/// The environment variables consulted for the editor, in this order.
#[derive(Copy, Clone, Debug, PartialEq, Eq, Structural)]
pub enum EditorVariable {
    IgrepEditor,
    Visual,
    Editor,
}

impl EditorVariable {
    /// The variable's name.
    pub fn name(self) -> (s: &'static str)
        ensures
            s@ == match self {
                EditorVariable::IgrepEditor => "IGREP_EDITOR"@,
                EditorVariable::Visual => "VISUAL"@,
                EditorVariable::Editor => "EDITOR"@,
            },
    {
        match self {
            EditorVariable::IgrepEditor => "IGREP_EDITOR",
            EditorVariable::Visual => "VISUAL",
            EditorVariable::Editor => "EDITOR",
        }
    }
}

/// Why no editor command could be made.
#[derive(Debug)]
pub enum EditorError {
    /// The custom command has no space between the program and its
    /// arguments; carries the command.
    MissingArguments(String),
    /// The arguments of the custom command hold `{file_name}` other than
    /// exactly once; carries the command.
    FileNameCount(String),
    /// The arguments of the custom command hold `{line_number}` other than
    /// exactly once; carries the command.
    LineNumberCount(String),
    /// An editor variable names no known editor; carries the variable's
    /// value and the name that was looked up (its last path component).
    InvalidEditor { value: String, name: String, variable: EditorVariable },
}

/// What the editor variable `variable`, set to `value`, decides.
pub open spec fn decided_by_variable(
    r: Result<Editor, EditorError>,
    value: Seq<char>,
    variable: EditorVariable,
) -> bool {
    match editor_of_variable(value) {
        Some(e) => r == Ok::<Editor, EditorError>(e),
        None => r matches Err(EditorError::InvalidEditor { value: v, name: n, variable: w })
            && v@ == value && n@ == after_last_slash(value) && w == variable,
    }
}

/// `r` is the editor choice (see [`Editor::determine`]) for a command-line
/// editor `editor_cli` and the values of the editor variables.
pub open spec fn determined(
    r: Result<Editor, EditorError>,
    editor_cli: Option<Editor>,
    igrep_editor_env: Option<&str>,
    visual_env: Option<&str>,
    editor_env: Option<&str>,
) -> bool {
    match (editor_cli, igrep_editor_env, visual_env, editor_env) {
        (Some(e), _, _, _) => r == Ok::<Editor, EditorError>(e),
        (None, Some(v), _, _) => decided_by_variable(r, v@, EditorVariable::IgrepEditor),
        (None, None, Some(v), _) => decided_by_variable(r, v@, EditorVariable::Visual),
        (None, None, None, Some(v)) => decided_by_variable(r, v@, EditorVariable::Editor),
        (None, None, None, None) => r == Ok::<Editor, EditorError>(Editor::Vim),
    }
}

/// The editor given on the command line wins over every variable; otherwise
/// the first of `$IGREP_EDITOR`, `$VISUAL` and `$EDITOR` that is set decides,
/// whatever the ones after it hold; with none of them, vim is used.
pub proof fn law_editor_precedence(
    r: Result<Editor, EditorError>,
    e: Editor,
    value: &str,
    a: Option<&str>,
    b: Option<&str>,
    c: Option<&str>,
)
    ensures
        determined(r, Some(e), a, b, c) ==> r == Ok::<Editor, EditorError>(e),
        determined(r, None, Some(value), b, c) ==> decided_by_variable(
            r,
            value@,
            EditorVariable::IgrepEditor,
        ),
        determined(r, None, None, Some(value), c) ==> decided_by_variable(
            r,
            value@,
            EditorVariable::Visual,
        ),
        determined(r, None, None, None, Some(value)) ==> decided_by_variable(
            r,
            value@,
            EditorVariable::Editor,
        ),
        determined(r, None, None, None, None) ==> r == Ok::<Editor, EditorError>(Editor::Vim),
{
}

impl Editor {
    /// The editor to use: the one given on the command line, else the one
    /// named by the first of `$IGREP_EDITOR`, `$VISUAL` and `$EDITOR` that is
    /// set (an unknown name there is an error), else vim.
    pub fn determine(
        editor_cli: Option<Editor>,
        igrep_editor_env: Option<&str>,
        visual_env: Option<&str>,
        editor_env: Option<&str>,
    ) -> (r: Result<Editor, EditorError>)
        ensures
            determined(r, editor_cli, igrep_editor_env, visual_env, editor_env),
    {
        if let Some(e) = editor_cli {
            return Ok(e);
        }
        if let Some(value) = igrep_editor_env {
            return Self::read_variable(value, EditorVariable::IgrepEditor);
        }
        if let Some(value) = visual_env {
            return Self::read_variable(value, EditorVariable::Visual);
        }
        if let Some(value) = editor_env {
            return Self::read_variable(value, EditorVariable::Editor);
        }
        Ok(Editor::default())
    }

    fn read_variable(value: &str, variable: EditorVariable) -> (r: Result<Editor, EditorError>)
        ensures
            decided_by_variable(r, value@, variable),
    {
        let name = Self::extract_editor_name(value);
        match Editor::from_name(name.as_str()) {
            Some(e) => Ok(e),
            None => Err(EditorError::InvalidEditor { value: value.to_owned(), name, variable }),
        }
    }

    /// The last component of a path to the editor's program.
    pub fn extract_editor_name(input: &str) -> (s: String)
        ensures
            s@ == after_last_slash(input@),
    {
        extract_editor_name(input)
    }
}

/// The last component of a path to an editor's program.
pub fn extract_editor_name(input: &str) -> (s: String)
    ensures
        s@ == after_last_slash(input@),
{
    let v = chars_of(input);
    let name = after_last_slash_exec(v.as_slice());
    crate::text::string_from_chars(name.as_slice())
}

/// How a selected match is opened: a known editor, or a custom program with
/// argument text holding `{file_name}` and `{line_number}`.
#[derive(Debug)]
pub enum EditorCommand {
    Builtin(Editor),
    Custom(String, String),
}

/// The arguments of `command` for opening `file` at `line_number`.
pub open spec fn command_args(command: EditorCommand, file: Seq<char>, line_number: u64) -> Seq<
    Seq<char>,
> {
    match command {
        EditorCommand::Builtin(e) => builtin_args(e, file, line_number),
        EditorCommand::Custom(_, args) => words(
            replace(
                replace(args@, "{file_name}"@, file),
                "{line_number}"@,
                decimal(line_number as nat),
            ),
        ),
    }
}

/// The program that `command` launches.
pub open spec fn command_program(command: EditorCommand) -> Seq<char> {
    match command {
        EditorCommand::Builtin(e) => builtin_program(e),
        EditorCommand::Custom(program, _) => program@,
    }
}

/// What a custom command `c` gives: the program before its first space and
/// the arguments after it, when the arguments hold each token once.
pub open spec fn custom_command_result(c: Seq<char>, r: Result<EditorCommand, EditorError>) -> bool {
    let k = index_of_from(c, ' ', 0);
    let args = c.subrange(k + 1, c.len() as int);
    if k == c.len() {
        r matches Err(EditorError::MissingArguments(s)) && s@ == c
    } else if count_occurrences(args, "{file_name}"@) != 1 {
        r matches Err(EditorError::FileNameCount(s)) && s@ == c
    } else if count_occurrences(args, "{line_number}"@) != 1 {
        r matches Err(EditorError::LineNumberCount(s)) && s@ == c
    } else {
        r matches Ok(EditorCommand::Custom(p, a)) && p@ == c.subrange(0, k) && a@ == args
    }
}

impl EditorCommand {
    /// The command to open matches with: the custom command when one is
    /// given, else the editor that [`Editor::determine`] picks.
    pub fn new(
        custom_command: Option<String>,
        editor_cli: Option<Editor>,
        igrep_editor_env: Option<&str>,
        visual_env: Option<&str>,
        editor_env: Option<&str>,
    ) -> (r: Result<EditorCommand, EditorError>)
        ensures
            custom_command matches Some(c) ==> custom_command_result(c@, r),
            custom_command is None ==> match r {
                Ok(EditorCommand::Builtin(e)) => determined(
                    Ok(e),
                    editor_cli,
                    igrep_editor_env,
                    visual_env,
                    editor_env,
                ),
                Ok(EditorCommand::Custom(_, _)) => false,
                Err(err) => determined(
                    Err(err),
                    editor_cli,
                    igrep_editor_env,
                    visual_env,
                    editor_env,
                ),
            },
    {
        if let Some(custom_command) = custom_command {
            let c = chars_of(custom_command.as_str());
            let k = index_of(c.as_slice(), ' ');
            if k == c.len() {
                return Err(EditorError::MissingArguments(custom_command));
            }
            let program = string_from_range(c.as_slice(), 0, k);
            let args_chars = crate::text::chars_of(string_from_range(c.as_slice(), k + 1, c.len()).as_str());
            let file_token = chars_of("{file_name}");
            let line_token = chars_of("{line_number}");
            proof {
                reveal_strlit("{file_name}");
                reveal_strlit("{line_number}");
            }
            if count_all(args_chars.as_slice(), file_token.as_slice()) != 1 {
                return Err(EditorError::FileNameCount(custom_command));
            }
            if count_all(args_chars.as_slice(), line_token.as_slice()) != 1 {
                return Err(EditorError::LineNumberCount(custom_command));
            }
            let args = crate::text::string_from_chars(args_chars.as_slice());
            return Ok(EditorCommand::Custom(program, args));
        }
        match Editor::determine(editor_cli, igrep_editor_env, visual_env, editor_env) {
            Ok(e) => Ok(EditorCommand::Builtin(e)),
            Err(err) => Err(err),
        }
    }

    /// The program to launch.
    pub fn program(&self) -> (p: &str)
        ensures
            p@ == command_program(*self),
    {
        match self {
            EditorCommand::Builtin(editor) => editor.program(),
            EditorCommand::Custom(program, _) => program.as_str(),
        }
    }

    /// The arguments that open `file_name` at `line_number`.
    pub fn args(&self, file_name: &str, line_number: u64) -> (v: Vec<String>)
        ensures
            v@.len() == command_args(*self, file_name@, line_number).len(),
            forall|i: int|
                0 <= i < v@.len() ==> #[trigger] v@[i]@ == command_args(
                    *self,
                    file_name@,
                    line_number,
                )[i],
    {
        match self {
            EditorCommand::Builtin(editor) => editor.args(file_name, line_number),
            EditorCommand::Custom(_, args) => {
                let a = chars_of(args.as_str());
                let file_token = chars_of("{file_name}");
                let line_token = chars_of("{line_number}");
                proof {
                    reveal_strlit("{file_name}");
                    reveal_strlit("{line_number}");
                }
                let file = chars_of(file_name);
                let with_file = replace_all(a.as_slice(), file_token.as_slice(), file.as_slice());
                let n = chars_of(decimal_string(line_number).as_str());
                let with_line = replace_all(
                    with_file.as_slice(),
                    line_token.as_slice(),
                    n.as_slice(),
                );
                split_whitespace(with_line.as_slice())
            },
        }
    }
}

} // verus!
