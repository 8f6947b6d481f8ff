use igrep::ui::app::{perform, perform_all, Application};
use igrep::ui::input_handler::{
    Action, InputHandler, InputMode, InputState, KeyCode, KeyEvent, CONTROL, SHIFT,
};

#[derive(Default, Clone)]
struct Recorder {
    calls: Vec<&'static str>,
}

/// The name the recorder logs for the operation of `action`.
fn call_name(action: Action) -> &'static str {
    match action {
        Action::NextMatch => "next_match",
        Action::PreviousMatch => "previous_match",
        Action::NextFile => "next_file",
        Action::PreviousFile => "previous_file",
        Action::Top => "top",
        Action::Bottom => "bottom",
        Action::RemoveCurrentEntry => "remove_current_entry",
        Action::RemoveCurrentFile => "remove_current_file",
        Action::ToggleContextViewerVertical => "toggle_context_viewer_vertical",
        Action::ToggleContextViewerHorizontal => "toggle_context_viewer_horizontal",
        Action::IncreaseContextViewerSize => "increase_context_viewer_size",
        Action::DecreaseContextViewerSize => "decrease_context_viewer_size",
        Action::OpenFile => "open_file",
        Action::Search => "search",
        Action::Exit => "exit",
        Action::TogglePopup => "toggle_popup",
        Action::CharInserted(_) => "char_inserted",
        Action::CharRemoved => "char_removed",
        Action::CharDeleted => "char_deleted",
        Action::CharLeft => "char_left",
        Action::CharRight => "char_right",
        Action::ToggleKeymap => "toggle_keymap",
        Action::KeymapUp => "keymap_up",
        Action::KeymapDown => "keymap_down",
        Action::KeymapLeft => "keymap_left",
        Action::KeymapRight => "keymap_right",
    }
}

impl Application for Recorder {
    /// The log grows by the name of the operation.
    fn operation_done(before: Self, after: Self, action: Action) -> bool {
        let mut expected = before.calls;
        expected.push(call_name(action));
        after.calls == expected
    }

    fn is_searching(&self) -> bool {
        false
    }
    fn on_next_match(&mut self) {
        self.calls.push("next_match")
    }
    fn on_previous_match(&mut self) {
        self.calls.push("previous_match")
    }
    fn on_next_file(&mut self) {
        self.calls.push("next_file")
    }
    fn on_previous_file(&mut self) {
        self.calls.push("previous_file")
    }
    fn on_top(&mut self) {
        self.calls.push("top")
    }
    fn on_bottom(&mut self) {
        self.calls.push("bottom")
    }
    fn on_remove_current_entry(&mut self) {
        self.calls.push("remove_current_entry")
    }
    fn on_remove_current_file(&mut self) {
        self.calls.push("remove_current_file")
    }
    fn on_toggle_context_viewer_vertical(&mut self) {
        self.calls.push("toggle_context_viewer_vertical")
    }
    fn on_toggle_context_viewer_horizontal(&mut self) {
        self.calls.push("toggle_context_viewer_horizontal")
    }
    fn on_increase_context_viewer_size(&mut self) {
        self.calls.push("increase_context_viewer_size")
    }
    fn on_decrease_context_viewer_size(&mut self) {
        self.calls.push("decrease_context_viewer_size")
    }
    fn on_open_file(&mut self) {
        self.calls.push("open_file")
    }
    fn on_search(&mut self) {
        self.calls.push("search")
    }
    fn on_exit(&mut self) {
        self.calls.push("exit")
    }
    fn on_toggle_popup(&mut self) {
        self.calls.push("toggle_popup")
    }
    fn on_char_inserted(&mut self, _c: char) {
        self.calls.push("char_inserted")
    }
    fn on_char_removed(&mut self) {
        self.calls.push("char_removed")
    }
    fn on_char_deleted(&mut self) {
        self.calls.push("char_deleted")
    }
    fn on_char_left(&mut self) {
        self.calls.push("char_left")
    }
    fn on_char_right(&mut self) {
        self.calls.push("char_right")
    }
    fn on_toggle_keymap(&mut self) {
        self.calls.push("toggle_keymap")
    }
    fn on_keymap_up(&mut self) {
        self.calls.push("keymap_up")
    }
    fn on_keymap_down(&mut self) {
        self.calls.push("keymap_down")
    }
    fn on_keymap_left(&mut self) {
        self.calls.push("keymap_left")
    }
    fn on_keymap_right(&mut self) {
        self.calls.push("keymap_right")
    }
}

fn handle(input_handler: &mut InputHandler, key_code: KeyCode, app: &mut Recorder) {
    let actions = match key_code {
        KeyCode::Char(character) => input_handler.handle_char_input(character),
        _ => input_handler.handle_non_char_input(key_code),
    };
    perform_all(app, &actions);
}

fn calls_of_series(key_codes: &[KeyCode]) -> Vec<&'static str> {
    let mut app = Recorder::default();
    let mut input_handler = InputHandler::default();
    for key_code in key_codes {
        handle(&mut input_handler, *key_code, &mut app);
    }
    app.calls
}

fn calls_of(key_code: KeyCode) -> Vec<&'static str> {
    calls_of_series(&[key_code])
}

fn calls_in_keymap_mode(event: KeyEvent) -> Vec<&'static str> {
    let mut app = Recorder::default();
    let mut input_handler = InputHandler::with_mode(InputMode::Keymap);
    let actions = input_handler.handle_key_in_keymap_mode(event);
    perform_all(&mut app, &actions);
    app.calls
}

fn key(code: KeyCode) -> KeyEvent {
    KeyEvent { code, modifiers: 0 }
}

#[test]
fn toggle_vertical_context_viewer() {
    assert_eq!(calls_of(KeyCode::Char('v')), ["toggle_context_viewer_vertical"]);
}

#[test]
fn toggle_horizontal_context_viewer() {
    assert_eq!(calls_of(KeyCode::Char('s')), ["toggle_context_viewer_horizontal"]);
}

#[test]
fn open_file() {
    assert_eq!(calls_of(KeyCode::Enter), ["open_file"]);
}

#[test]
fn next_and_previous_match() {
    assert_eq!(calls_of(KeyCode::Down), ["next_match"]);
    assert_eq!(calls_of(KeyCode::Char('j')), ["next_match"]);
    assert_eq!(calls_of(KeyCode::Up), ["previous_match"]);
    assert_eq!(calls_of(KeyCode::Char('k')), ["previous_match"]);
}

#[test]
fn next_and_previous_file() {
    assert_eq!(calls_of(KeyCode::Right), ["next_file"]);
    assert_eq!(calls_of(KeyCode::PageDown), ["next_file"]);
    assert_eq!(calls_of(KeyCode::Char('l')), ["next_file"]);
    assert_eq!(calls_of(KeyCode::Left), ["previous_file"]);
    assert_eq!(calls_of(KeyCode::PageUp), ["previous_file"]);
    assert_eq!(calls_of(KeyCode::Char('h')), ["previous_file"]);
}

#[test]
fn top_and_bottom() {
    assert_eq!(calls_of(KeyCode::Home), ["top"]);
    assert_eq!(calls_of_series(&[KeyCode::Char('g'), KeyCode::Char('g')]), ["top"]);
    assert_eq!(calls_of(KeyCode::End), ["bottom"]);
    assert_eq!(calls_of(KeyCode::Char('G')), ["bottom"]);
}

#[test]
fn remove_current_entry() {
    assert_eq!(calls_of(KeyCode::Delete), ["remove_current_entry"]);
    assert_eq!(calls_of_series(&[KeyCode::Char('d'), KeyCode::Char('d')]), ["remove_current_entry"]);
    assert_eq!(
        calls_of_series(&[KeyCode::Char('g'), KeyCode::Char('d'), KeyCode::Char('w'), KeyCode::Char('d'), KeyCode::Char('d')]),
        ["remove_current_entry"]
    );
}

#[test]
fn remove_current_file() {
    assert_eq!(calls_of_series(&[KeyCode::Char('d'), KeyCode::Char('w')]), ["remove_current_file"]);
    assert_eq!(calls_of_series(&[KeyCode::Char('w'), KeyCode::Char('d'), KeyCode::Char('w')]), ["remove_current_file"]);
}

#[test]
fn search_and_keymap_open() {
    assert_eq!(calls_of(KeyCode::F(5)), ["toggle_popup"]);
    assert_eq!(calls_of(KeyCode::Char('/')), ["toggle_popup"]);
    assert_eq!(calls_of(KeyCode::F(1)), ["toggle_keymap"]);
    assert_eq!(calls_of(KeyCode::Char('?')), ["toggle_keymap"]);
}

#[test]
fn keymap_mode_keys() {
    assert_eq!(calls_in_keymap_mode(key(KeyCode::F(1))), ["toggle_keymap"]);
    assert_eq!(calls_in_keymap_mode(key(KeyCode::Char('?'))), ["toggle_keymap"]);
    assert_eq!(calls_in_keymap_mode(key(KeyCode::Esc)), ["toggle_keymap"]);
    assert_eq!(calls_in_keymap_mode(key(KeyCode::Enter)), ["toggle_keymap"]);
    assert_eq!(
        calls_in_keymap_mode(KeyEvent { code: KeyCode::Char('c'), modifiers: CONTROL }),
        ["toggle_keymap"]
    );
    assert_eq!(calls_in_keymap_mode(key(KeyCode::Up)), ["keymap_up"]);
    assert_eq!(calls_in_keymap_mode(key(KeyCode::Char('k'))), ["keymap_up"]);
    assert_eq!(calls_in_keymap_mode(key(KeyCode::Down)), ["keymap_down"]);
    assert_eq!(calls_in_keymap_mode(key(KeyCode::Char('j'))), ["keymap_down"]);
    assert_eq!(calls_in_keymap_mode(key(KeyCode::Left)), ["keymap_left"]);
    assert_eq!(calls_in_keymap_mode(key(KeyCode::Char('h'))), ["keymap_left"]);
    assert_eq!(calls_in_keymap_mode(key(KeyCode::Right)), ["keymap_right"]);
    assert_eq!(calls_in_keymap_mode(key(KeyCode::Char('l'))), ["keymap_right"]);
}

#[test]
fn exit() {
    assert_eq!(calls_of_series(&[KeyCode::Char('q')]), ["exit"]);
    assert_eq!(calls_of_series(&[KeyCode::Esc]), ["exit"]);
    assert_eq!(calls_of_series(&[KeyCode::Char('a'), KeyCode::Char('b'), KeyCode::Esc]), ["exit"]);
    assert_eq!(calls_of_series(&[KeyCode::Char('x'), KeyCode::Char('y'), KeyCode::Esc]), ["exit"]);
    assert_eq!(calls_of_series(&[KeyCode::Char('d'), KeyCode::Esc, KeyCode::Esc]), ["exit"]);
}

#[test]
fn input_state_reports_incomplete_and_invalid_keys() {
    let mut h = InputHandler::default();
    assert!(h.handle_char_input('g').is_empty());
    assert!(matches!(h.get_state(), InputState::Incomplete(s) if s == "g…"));
    assert!(h.handle_char_input('x').is_empty());
    assert!(matches!(h.get_state(), InputState::Invalid(s) if s == "gx"));
    assert_eq!(h.handle_char_input('j'), [Action::NextMatch]);
    assert!(matches!(h.get_state(), InputState::Valid));
}

#[test]
fn ctrl_c_exits_in_normal_mode() {
    let mut h = InputHandler::default();
    let actions = h.handle_key(KeyEvent { code: KeyCode::Char('c'), modifiers: CONTROL });
    assert_eq!(actions, [Action::Exit]);
}

#[test]
fn typing_a_pattern() {
    let mut h = InputHandler::default();
    assert_eq!(h.handle_key(key(KeyCode::Char('/'))), [Action::TogglePopup]);
    assert_eq!(h.get_mode(), InputMode::TextInsertion);
    assert_eq!(h.handle_key(key(KeyCode::Char('q'))), [Action::CharInserted('q')]);
    assert_eq!(
        h.handle_key(KeyEvent { code: KeyCode::Char('x'), modifiers: SHIFT }),
        [Action::CharInserted('X')]
    );
    assert!(h.handle_key(KeyEvent { code: KeyCode::Char('x'), modifiers: CONTROL }).is_empty());
    assert_eq!(h.handle_key(key(KeyCode::Backspace)), [Action::CharRemoved]);
    assert_eq!(h.handle_key(key(KeyCode::Enter)), [Action::Search, Action::TogglePopup]);
    assert_eq!(h.get_mode(), InputMode::Normal);
    assert_eq!(h.handle_key(key(KeyCode::F(5))), [Action::TogglePopup]);
    assert_eq!(h.handle_key(key(KeyCode::Esc)), [Action::TogglePopup]);
    assert_eq!(h.get_mode(), InputMode::Normal);
}

#[test]
fn only_the_start_of_a_two_key_command_stays_pending() {
    let keys = [
        KeyCode::Char('g'),
        KeyCode::Char('x'),
        KeyCode::Char('d'),
        KeyCode::Char('d'),
        KeyCode::Char('g'),
        KeyCode::Esc,
        KeyCode::Char('d'),
        KeyCode::Char('w'),
        KeyCode::Char('z'),
        KeyCode::Char('g'),
        KeyCode::Down,
    ];
    let mut handler = InputHandler::default();
    for code in keys {
        handler.handle_key(KeyEvent { code, modifiers: 0 });
        match handler.get_state() {
            InputState::Incomplete(shown) => {
                assert!(shown == "g…" || shown == "d…");
            }
            _ => {}
        }
        assert_eq!(handler.get_mode(), InputMode::Normal);
    }
    assert!(matches!(handler.get_state(), InputState::Valid));
}

#[test]
fn perform_runs_the_named_operation() {
    let actions = [
        Action::NextMatch,
        Action::RemoveCurrentFile,
        Action::CharInserted('x'),
        Action::KeymapRight,
        Action::Search,
    ];
    let mut app = Recorder::default();
    for action in actions {
        let before = app.clone();
        perform(&mut app, action);
        assert!(Recorder::operation_done(before, app.clone(), action));
    }
    let mut all = Recorder::default();
    perform_all(&mut all, &actions);
    assert_eq!(
        all.calls,
        ["next_match", "remove_current_file", "char_inserted", "keymap_right", "search"]
    );
}

#[test]
fn keys_without_a_command_are_rejected() {
    for c in ['a', 'b', 'c', 'm', 'n', 'w'] {
        let mut handler = InputHandler::default();
        let actions = handler.handle_key(key(KeyCode::Char(c)));
        assert!(actions.is_empty());
        match handler.get_state() {
            InputState::Invalid(shown) => assert_eq!(shown, &c.to_string()),
            _ => panic!("expected an invalid input"),
        }
    }
}
