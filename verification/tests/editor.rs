use igrep::editor::{Editor, EditorCommand, EditorError, EditorVariable};

const FILE_NAME: &str = "file_name";
const LINE_NUMBER: u64 = 123;

fn custom(command: &str) -> Result<EditorCommand, EditorError> {
    EditorCommand::new(Some(command.into()), None, None, None, None)
}

#[test]
fn custom_command() {
    let editor_command = custom("non_builtin_editor -@{file_name} {line_number}").unwrap();

    assert_eq!(editor_command.program(), "non_builtin_editor");
    assert_eq!(
        editor_command.args(FILE_NAME, LINE_NUMBER),
        vec![format!("-@{FILE_NAME}"), LINE_NUMBER.to_string()]
    )
}

#[test]
fn parsing_custom_command() {
    assert!(matches!(custom("non_builtin_editor"), Err(EditorError::MissingArguments(_))));
    assert!(matches!(
        custom("non_builtin_editor {file_name}"),
        Err(EditorError::LineNumberCount(_))
    ));
    assert!(matches!(
        custom("non_builtin_editor {line_number}"),
        Err(EditorError::FileNameCount(_))
    ));
    assert!(matches!(
        custom("non_builtin_editor {file_name} {file_name} {line_number}"),
        Err(EditorError::FileNameCount(_))
    ));
    assert!(matches!(
        custom("non_builtin_editor {file_name} {line_number} {line_number}"),
        Err(EditorError::LineNumberCount(_))
    ));
    assert!(matches!(
        custom("non_builtin_editor{file_name} {line_number}"),
        Err(EditorError::FileNameCount(_))
    ));
    assert!(custom("non_builtin_editor {file_name}:{line_number}").is_ok());
    assert!(custom("non_builtin_editor {file_name} {line_number}").is_ok());
}

#[test]
fn custom_command_error_carries_the_command() {
    match custom("vi") {
        Err(EditorError::MissingArguments(c)) => assert_eq!(c, "vi"),
        _ => panic!("expected an error"),
    }
}

fn determine(
    cli: Option<&str>,
    igrep: Option<&str>,
    visual: Option<&str>,
    editor: Option<&str>,
) -> Result<Editor, EditorError> {
    let cli = cli.map(|name| Editor::from_name(name).expect("known editor"));
    Editor::determine(cli, igrep, visual, editor)
}

#[test]
fn editor_options_precedence() {
    assert!(matches!(determine(Some("nano"), Some("vim"), None, Some("neovim")), Ok(Editor::Nano)));
    assert!(matches!(determine(None, Some("nano"), None, Some("neovim")), Ok(Editor::Nano)));
    assert!(matches!(determine(None, None, Some("nano"), Some("helix")), Ok(Editor::Nano)));
    assert!(matches!(determine(None, None, None, Some("nano")), Ok(Editor::Nano)));
    assert!(Editor::from_name("unsupported-editor").is_none());
    assert!(matches!(
        determine(None, Some("unsupported-editor"), None, None),
        Err(EditorError::InvalidEditor { variable: EditorVariable::IgrepEditor, .. })
    ));
    assert!(matches!(
        determine(None, None, None, Some("unsupported-editor")),
        Err(EditorError::InvalidEditor { variable: EditorVariable::Editor, .. })
    ));
    assert!(matches!(determine(None, None, None, None), Ok(Editor::Vim)));
    assert!(matches!(determine(None, Some("/usr/bin/nano"), None, None), Ok(Editor::Nano)));
    assert!(matches!(determine(None, None, None, Some("/usr/bin/nano")), Ok(Editor::Nano)));
}

#[test]
fn invalid_editor_error_names_value_and_variable() {
    match determine(None, None, Some("/opt/bin/ed"), None) {
        Err(EditorError::InvalidEditor { value, name, variable }) => {
            assert_eq!(value, "/opt/bin/ed");
            assert_eq!(name, "ed");
            assert_eq!(variable, EditorVariable::Visual);
            assert_eq!(variable.name(), "VISUAL");
        }
        _ => panic!("expected an error"),
    }
}

#[test]
fn builtin_editor_command() {
    let cases = [
        (Editor::Vim, format!("vim +{LINE_NUMBER} {FILE_NAME}")),
        (Editor::Neovim, format!("nvim +{LINE_NUMBER} {FILE_NAME}")),
        (Editor::Nvim, format!("nvim +{LINE_NUMBER} {FILE_NAME}")),
        (Editor::Nano, format!("nano +{LINE_NUMBER} {FILE_NAME}")),
        (Editor::Code, format!("code -g {FILE_NAME}:{LINE_NUMBER}")),
        (Editor::Vscode, format!("code -g {FILE_NAME}:{LINE_NUMBER}")),
        (Editor::CodeInsiders, format!("code-insiders -g {FILE_NAME}:{LINE_NUMBER}")),
        (Editor::Emacs, format!("emacs -nw +{LINE_NUMBER} {FILE_NAME}")),
        (Editor::Emacsclient, format!("emacsclient -nw +{LINE_NUMBER} {FILE_NAME}")),
        (Editor::Hx, format!("hx {FILE_NAME}:{LINE_NUMBER}")),
        (Editor::Helix, format!("helix {FILE_NAME}:{LINE_NUMBER}")),
        (Editor::Subl, format!("subl {FILE_NAME}:{LINE_NUMBER}")),
        (Editor::SublimeText, format!("subl {FILE_NAME}:{LINE_NUMBER}")),
        (Editor::Micro, format!("micro +{LINE_NUMBER} {FILE_NAME}")),
        (Editor::Intellij, format!("idea --line {LINE_NUMBER} {FILE_NAME}")),
        (Editor::Goland, format!("goland --line {LINE_NUMBER} {FILE_NAME}")),
        (Editor::Pycharm, format!("pycharm --line {LINE_NUMBER} {FILE_NAME}")),
        (Editor::Less, format!("less +{LINE_NUMBER} {FILE_NAME}")),
    ];
    for (editor, expected) in cases {
        let editor_command =
            EditorCommand::new(None, Some(editor), None, None, None).unwrap();
        let line = format!(
            "{} {}",
            editor_command.program(),
            editor_command.args(FILE_NAME, LINE_NUMBER).join(" ")
        );
        assert_eq!(line, expected);
    }
}

#[test]
fn editor_names_are_kebab_case() {
    assert_eq!(Editor::from_name("code-insiders"), Some(Editor::CodeInsiders));
    assert_eq!(Editor::from_name("sublime-text"), Some(Editor::SublimeText));
    assert_eq!(Editor::from_name("Vim"), None);
    assert_eq!(Editor::from_name("codeinsiders"), None);
}

#[test]
fn extract_editor_name_takes_last_component() {
    assert_eq!(igrep::editor::extract_editor_name("/usr/bin/nvim"), "nvim");
    assert_eq!(igrep::editor::extract_editor_name("nano"), "nano");
    assert_eq!(igrep::editor::extract_editor_name("dir/"), "");
    assert_eq!(Editor::extract_editor_name("a/b/c"), "c");
}

#[test]
fn custom_arguments_are_substituted_and_split() {
    let c = custom("ed  -x {file_name}@{line_number}   tail").unwrap();
    assert_eq!(c.program(), "ed");
    assert_eq!(c.args("f g", 0), ["-x", "f", "g@0", "tail"]);
    assert_eq!(c.args("{line_number}", 42), ["-x", "42@42", "tail"]);
}
