//! Turning key presses into commands for the application.
use vstd::prelude::*;

use crate::text::{chars_of, push_char};

verus! {

/// A key, as the terminal reports it.
#[derive(Copy, Clone, Debug, PartialEq, Eq, Structural)]
pub enum KeyCode {
    Backspace,
    Enter,
    Left,
    Right,
    Up,
    Down,
    Home,
    End,
    PageUp,
    PageDown,
    Tab,
    BackTab,
    Delete,
    Insert,
    F(u8),
    Char(char),
    Esc,
    /// Any other key.
    Other,
}

/// Modifier bits of a key press.
pub const SHIFT: u8 = 0b0000_0001;

pub const CONTROL: u8 = 0b0000_0010;

pub const ALT: u8 = 0b0000_0100;

pub const SUPER: u8 = 0b0000_1000;

pub const HYPER: u8 = 0b0001_0000;

pub const META: u8 = 0b0010_0000;

/// A key press: the key and the exact set of modifiers held.
#[derive(Copy, Clone, Debug, PartialEq, Eq, Structural)]
pub struct KeyEvent {
    pub code: KeyCode,
    pub modifiers: u8,
}

/// What the application is asked to do.
#[derive(Copy, Clone, Debug, PartialEq, Eq, Structural)]
pub enum Action {
    NextMatch,
    PreviousMatch,
    NextFile,
    PreviousFile,
    Top,
    Bottom,
    RemoveCurrentEntry,
    RemoveCurrentFile,
    ToggleContextViewerVertical,
    ToggleContextViewerHorizontal,
    IncreaseContextViewerSize,
    DecreaseContextViewerSize,
    OpenFile,
    Search,
    Exit,
    TogglePopup,
    CharInserted(char),
    CharRemoved,
    CharDeleted,
    CharLeft,
    CharRight,
    ToggleKeymap,
    KeymapUp,
    KeymapDown,
    KeymapLeft,
    KeymapRight,
}

/// Whether the keys typed so far form a command.
pub enum InputState {
    Valid,
    /// The start of a command of several keys; carries the text shown.
    Incomplete(String),
    /// Keys that form no command; carries them.
    Invalid(String),
}

impl Default for InputState {
    fn default() -> (s: Self)
        ensures
            s is Valid,
    {
        InputState::Valid
    }
}

#[derive(Copy, Clone, Debug, PartialEq, Eq, Structural)]
pub enum InputMode {
    Normal,
    /// Typing a search pattern.
    TextInsertion,
    /// Scrolling the list of key bindings.
    Keymap,
}

impl Default for InputMode {
    fn default() -> (m: Self)
        ensures
            m == InputMode::Normal,
    {
        InputMode::Normal
    }
}

/// The command that the keys `b` typed in normal mode complete, if any.
pub open spec fn char_command(b: Seq<char>) -> Option<Action> {
    if b == seq!['j'] {
        Some(Action::NextMatch)
    } else if b == seq!['k'] {
        Some(Action::PreviousMatch)
    } else if b == seq!['l'] {
        Some(Action::NextFile)
    } else if b == seq!['h'] {
        Some(Action::PreviousFile)
    } else if b == seq!['g', 'g'] {
        Some(Action::Top)
    } else if b == seq!['G'] {
        Some(Action::Bottom)
    } else if b == seq!['d', 'd'] {
        Some(Action::RemoveCurrentEntry)
    } else if b == seq!['d', 'w'] {
        Some(Action::RemoveCurrentFile)
    } else if b == seq!['v'] {
        Some(Action::ToggleContextViewerVertical)
    } else if b == seq!['s'] {
        Some(Action::ToggleContextViewerHorizontal)
    } else if b == seq!['+'] {
        Some(Action::IncreaseContextViewerSize)
    } else if b == seq!['-'] {
        Some(Action::DecreaseContextViewerSize)
    } else if b == seq!['q'] {
        Some(Action::Exit)
    } else if b == seq!['?'] {
        Some(Action::ToggleKeymap)
    } else if b == seq!['/'] {
        Some(Action::TogglePopup)
    } else {
        None
    }
}

/// The key bindings of normal mode that are typed as characters: each key
/// sequence with the command it gives.
pub open spec fn normal_mode_keys() -> Seq<(Seq<char>, Action)> {
    seq![
        (seq!['j'], Action::NextMatch),
        (seq!['k'], Action::PreviousMatch),
        (seq!['l'], Action::NextFile),
        (seq!['h'], Action::PreviousFile),
        (seq!['g', 'g'], Action::Top),
        (seq!['G'], Action::Bottom),
        (seq!['d', 'd'], Action::RemoveCurrentEntry),
        (seq!['d', 'w'], Action::RemoveCurrentFile),
        (seq!['v'], Action::ToggleContextViewerVertical),
        (seq!['s'], Action::ToggleContextViewerHorizontal),
        (seq!['+'], Action::IncreaseContextViewerSize),
        (seq!['-'], Action::DecreaseContextViewerSize),
        (seq!['q'], Action::Exit),
        (seq!['?'], Action::ToggleKeymap),
        (seq!['/'], Action::TogglePopup),
    ]
}

/// Typed keys give exactly the commands of the key table: each bound key
/// sequence gives its command, and nothing else gives a command.
pub proof fn law_typed_keys_follow_the_key_table(b: Seq<char>)
    ensures
        forall|i: int|
            0 <= i < normal_mode_keys().len() ==> char_command(#[trigger] normal_mode_keys()[i].0)
                == Some(normal_mode_keys()[i].1),
        char_command(b) is Some ==> exists|i: int|
            0 <= i < normal_mode_keys().len() && #[trigger] normal_mode_keys()[i].0 == b
                && char_command(b) == Some(normal_mode_keys()[i].1),
{
    let t = normal_mode_keys();
    assert(t.len() == 15);
    assert forall|a: char, c: char| a != c implies seq![a] != seq![c] by {
        assert(seq![a][0] == a);
        assert(seq![c][0] == c);
    }
    assert(seq!['d', 'd'] != seq!['g', 'g']) by {
        assert(seq!['d', 'd'][0] == 'd');
    }
    assert(seq!['d', 'w'] != seq!['g', 'g'] && seq!['d', 'w'] != seq!['d', 'd']) by {
        assert(seq!['d', 'w'][0] == 'd');
        assert(seq!['d', 'w'][1] == 'w');
        assert(seq!['d', 'd'][1] == 'd');
    }
    assert forall|i: int| 0 <= i < t.len() implies char_command(#[trigger] t[i].0) == Some(
        t[i].1,
    ) by {
        if i == 0 {
            assert(t[0] == (seq!['j'], Action::NextMatch));
        } else if i == 1 {
            assert(t[1] == (seq!['k'], Action::PreviousMatch));
        } else if i == 2 {
            assert(t[2] == (seq!['l'], Action::NextFile));
        } else if i == 3 {
            assert(t[3] == (seq!['h'], Action::PreviousFile));
        } else if i == 4 {
            assert(t[4] == (seq!['g', 'g'], Action::Top));
        } else if i == 5 {
            assert(t[5] == (seq!['G'], Action::Bottom));
        } else if i == 6 {
            assert(t[6] == (seq!['d', 'd'], Action::RemoveCurrentEntry));
        } else if i == 7 {
            assert(t[7] == (seq!['d', 'w'], Action::RemoveCurrentFile));
        } else if i == 8 {
            assert(t[8] == (seq!['v'], Action::ToggleContextViewerVertical));
        } else if i == 9 {
            assert(t[9] == (seq!['s'], Action::ToggleContextViewerHorizontal));
        } else if i == 10 {
            assert(t[10] == (seq!['+'], Action::IncreaseContextViewerSize));
        } else if i == 11 {
            assert(t[11] == (seq!['-'], Action::DecreaseContextViewerSize));
        } else if i == 12 {
            assert(t[12] == (seq!['q'], Action::Exit));
        } else if i == 13 {
            assert(t[13] == (seq!['?'], Action::ToggleKeymap));
        } else if i == 14 {
            assert(t[14] == (seq!['/'], Action::TogglePopup));
        }
    }
    if char_command(b) is Some {
        if b == seq!['j'] {
            assert(t[0].0 == b);
        } else if b == seq!['k'] {
            assert(t[1].0 == b);
        } else if b == seq!['l'] {
            assert(t[2].0 == b);
        } else if b == seq!['h'] {
            assert(t[3].0 == b);
        } else if b == seq!['g', 'g'] {
            assert(t[4].0 == b);
        } else if b == seq!['G'] {
            assert(t[5].0 == b);
        } else if b == seq!['d', 'd'] {
            assert(t[6].0 == b);
        } else if b == seq!['d', 'w'] {
            assert(t[7].0 == b);
        } else if b == seq!['v'] {
            assert(t[8].0 == b);
        } else if b == seq!['s'] {
            assert(t[9].0 == b);
        } else if b == seq!['+'] {
            assert(t[10].0 == b);
        } else if b == seq!['-'] {
            assert(t[11].0 == b);
        } else if b == seq!['q'] {
            assert(t[12].0 == b);
        } else if b == seq!['?'] {
            assert(t[13].0 == b);
        } else if b == seq!['/'] {
            assert(t[14].0 == b);
        }
    }
}

/// The keys `b` start a command of two keys.
pub open spec fn is_command_prefix(b: Seq<char>) -> bool {
    b == seq!['g'] || b == seq!['d']
}

/// The command a key other than a character gives in normal mode.
pub open spec fn key_command(code: KeyCode) -> Option<Action> {
    match code {
        KeyCode::Down => Some(Action::NextMatch),
        KeyCode::Up => Some(Action::PreviousMatch),
        KeyCode::Right | KeyCode::PageDown => Some(Action::NextFile),
        KeyCode::Left | KeyCode::PageUp => Some(Action::PreviousFile),
        KeyCode::Home => Some(Action::Top),
        KeyCode::End => Some(Action::Bottom),
        KeyCode::Delete => Some(Action::RemoveCurrentEntry),
        KeyCode::Enter => Some(Action::OpenFile),
        KeyCode::F(1) => Some(Action::ToggleKeymap),
        KeyCode::F(5) => Some(Action::TogglePopup),
        _ => None,
    }
}

/// The key bindings of normal mode for keys other than characters: each key
/// with the command it gives.
pub open spec fn normal_mode_special_keys() -> Seq<(KeyCode, Action)> {
    seq![
        (KeyCode::Down, Action::NextMatch),
        (KeyCode::Up, Action::PreviousMatch),
        (KeyCode::Right, Action::NextFile),
        (KeyCode::PageDown, Action::NextFile),
        (KeyCode::Left, Action::PreviousFile),
        (KeyCode::PageUp, Action::PreviousFile),
        (KeyCode::Home, Action::Top),
        (KeyCode::End, Action::Bottom),
        (KeyCode::Delete, Action::RemoveCurrentEntry),
        (KeyCode::Enter, Action::OpenFile),
        (KeyCode::F(1), Action::ToggleKeymap),
        (KeyCode::F(5), Action::TogglePopup),
    ]
}

/// Keys other than characters give exactly the commands of their key
/// table: each bound key gives its command, and no other key gives one.
pub proof fn law_special_keys_follow_the_key_table(code: KeyCode)
    ensures
        forall|i: int|
            0 <= i < normal_mode_special_keys().len() ==> key_command(
                #[trigger] normal_mode_special_keys()[i].0,
            ) == Some(normal_mode_special_keys()[i].1),
        key_command(code) is Some ==> exists|i: int|
            0 <= i < normal_mode_special_keys().len() && #[trigger] normal_mode_special_keys()[i].0
                == code && key_command(code) == Some(normal_mode_special_keys()[i].1),
{
    let t = normal_mode_special_keys();
    assert(t.len() == 12);
    assert forall|i: int| 0 <= i < t.len() implies key_command(#[trigger] t[i].0) == Some(
        t[i].1,
    ) by {
        if i == 0 {
            assert(t[0] == (KeyCode::Down, Action::NextMatch));
        } else if i == 1 {
            assert(t[1] == (KeyCode::Up, Action::PreviousMatch));
        } else if i == 2 {
            assert(t[2] == (KeyCode::Right, Action::NextFile));
        } else if i == 3 {
            assert(t[3] == (KeyCode::PageDown, Action::NextFile));
        } else if i == 4 {
            assert(t[4] == (KeyCode::Left, Action::PreviousFile));
        } else if i == 5 {
            assert(t[5] == (KeyCode::PageUp, Action::PreviousFile));
        } else if i == 6 {
            assert(t[6] == (KeyCode::Home, Action::Top));
        } else if i == 7 {
            assert(t[7] == (KeyCode::End, Action::Bottom));
        } else if i == 8 {
            assert(t[8] == (KeyCode::Delete, Action::RemoveCurrentEntry));
        } else if i == 9 {
            assert(t[9] == (KeyCode::Enter, Action::OpenFile));
        } else if i == 10 {
            assert(t[10] == (KeyCode::F(1), Action::ToggleKeymap));
        } else if i == 11 {
            assert(t[11] == (KeyCode::F(5), Action::TogglePopup));
        }
    }
    if key_command(code) is Some {
        match code {
            KeyCode::Down => assert(t[0].0 == code),
            KeyCode::Up => assert(t[1].0 == code),
            KeyCode::Right => assert(t[2].0 == code),
            KeyCode::PageDown => assert(t[3].0 == code),
            KeyCode::Left => assert(t[4].0 == code),
            KeyCode::PageUp => assert(t[5].0 == code),
            KeyCode::Home => assert(t[6].0 == code),
            KeyCode::End => assert(t[7].0 == code),
            KeyCode::Delete => assert(t[8].0 == code),
            KeyCode::Enter => assert(t[9].0 == code),
            KeyCode::F(n) => {
                if n == 1 {
                    assert(t[10].0 == code);
                } else {
                    assert(t[11].0 == code);
                }
            },
            _ => {},
        }
    }
}

/// `c` in upper case when it is an ASCII letter.
pub open spec fn ascii_upper(c: char) -> char {
    if 'a' <= c && c <= 'z' {
        ((c as u32) - 32) as char
    } else {
        c
    }
}

/// Upper-cases ASCII letters (`char::to_ascii_uppercase`).
pub fn to_ascii_uppercase(c: char) -> (u: char)
    ensures
        u == ascii_upper(c),
{
    if 'a' <= c && c <= 'z' {
        ((c as u8) - 32) as char
    } else {
        c
    }
}

/// The actions a key gives while a search pattern is typed, and whether it
/// ends typing.
pub open spec fn text_insertion_command(key: KeyEvent) -> (Seq<Action>, bool) {
    match key.code {
        KeyCode::Esc | KeyCode::F(5) => (seq![Action::TogglePopup], true),
        KeyCode::Char(c) => if c == 'c' && key.modifiers == CONTROL {
            (seq![Action::TogglePopup], true)
        } else if key.modifiers == SHIFT {
            (seq![Action::CharInserted(ascii_upper(c))], false)
        } else if key.modifiers == 0 {
            (seq![Action::CharInserted(c)], false)
        } else {
            (Seq::empty(), false)
        },
        KeyCode::Backspace => (seq![Action::CharRemoved], false),
        KeyCode::Delete => (seq![Action::CharDeleted], false),
        KeyCode::Left => (seq![Action::CharLeft], false),
        KeyCode::Right => (seq![Action::CharRight], false),
        KeyCode::Enter => (seq![Action::Search, Action::TogglePopup], true),
        _ => (Seq::empty(), false),
    }
}

/// The action a key gives while the key bindings are shown, if it scrolls
/// them; any other key closes them.
pub open spec fn keymap_command(code: KeyCode) -> Option<Action> {
    match code {
        KeyCode::Up | KeyCode::Char('k') => Some(Action::KeymapUp),
        KeyCode::Down | KeyCode::Char('j') => Some(Action::KeymapDown),
        KeyCode::Left | KeyCode::Char('h') => Some(Action::KeymapLeft),
        KeyCode::Right | KeyCode::Char('l') => Some(Action::KeymapRight),
        _ => None,
    }
}

/// Reads key presses into actions: single keys and two-key commands in
/// normal mode, pattern editing while typing, scrolling in the key bindings.
pub struct InputHandler {
    input_buffer: String,
    input_state: InputState,
    input_mode: InputMode,
}

impl Default for InputHandler {
    fn default() -> (h: Self)
        ensures
            h.buffer().len() == 0,
            h.state() is Valid,
            h.mode() == InputMode::Normal,
    {
        InputHandler {
            input_buffer: String::new(),
            input_state: InputState::Valid,
            input_mode: InputMode::Normal,
        }
    }
}

fn single(a: Action) -> (v: Vec<Action>)
    ensures
        v@ == seq![a],
{
    let mut v: Vec<Action> = Vec::new();
    v.push(a);
    v
}

impl InputHandler {
    /// The keys typed so far towards a command.
    pub closed spec fn buffer(&self) -> Seq<char> {
        self.input_buffer@
    }

    pub closed spec fn state(&self) -> InputState {
        self.input_state
    }

    pub closed spec fn mode(&self) -> InputMode {
        self.input_mode
    }

    /// A handler in the given mode, with nothing typed.
    pub fn with_mode(mode: InputMode) -> (h: Self)
        ensures
            h.buffer().len() == 0,
            h.state() is Valid,
            h.mode() == mode,
    {
        InputHandler {
            input_buffer: String::new(),
            input_state: InputState::Valid,
            input_mode: mode,
        }
    }

    /// The actions one key press gives, in the handler's current mode.
    pub fn handle_key(&mut self, key_event: KeyEvent) -> (actions: Vec<Action>)
        ensures
            key_step(*old(self), *final(self), key_event, actions@),
    {
        match self.input_mode {
            InputMode::Normal => self.handle_key_in_normal_mode(key_event),
            InputMode::TextInsertion => self.handle_key_in_text_insertion_mode(key_event),
            InputMode::Keymap => self.handle_key_in_keymap_mode(key_event),
        }
    }

    pub fn handle_key_in_normal_mode(&mut self, key_event: KeyEvent) -> (actions: Vec<Action>)
        ensures
            normal_mode_step(*old(self), *final(self), key_event, actions@),
    {
        match key_event.code {
            KeyCode::Char(c) => {
                if c == 'c' && key_event.modifiers == CONTROL {
                    single(Action::Exit)
                } else {
                    self.handle_char_input(c)
                }
            },
            code => self.handle_non_char_input(code),
        }
    }

    pub fn handle_key_in_text_insertion_mode(&mut self, key_event: KeyEvent) -> (actions: Vec<
        Action,
    >)
        ensures
            text_step(*old(self), *final(self), key_event, actions@),
    {
        match key_event.code {
            KeyCode::Esc | KeyCode::F(5) => {
                self.input_mode = InputMode::Normal;
                single(Action::TogglePopup)
            },
            KeyCode::Char(c) => {
                if c == 'c' && key_event.modifiers == CONTROL {
                    self.input_mode = InputMode::Normal;
                    single(Action::TogglePopup)
                } else if key_event.modifiers == SHIFT {
                    single(Action::CharInserted(to_ascii_uppercase(c)))
                } else if key_event.modifiers == 0 {
                    single(Action::CharInserted(c))
                } else {
                    Vec::new()
                }
            },
            KeyCode::Backspace => single(Action::CharRemoved),
            KeyCode::Delete => single(Action::CharDeleted),
            KeyCode::Left => single(Action::CharLeft),
            KeyCode::Right => single(Action::CharRight),
            KeyCode::Enter => {
                self.input_mode = InputMode::Normal;
                let mut v = single(Action::Search);
                v.push(Action::TogglePopup);
                v
            },
            _ => Vec::new(),
        }
    }

    pub fn handle_key_in_keymap_mode(&mut self, key_event: KeyEvent) -> (actions: Vec<Action>)
        ensures
            keymap_step(*old(self), *final(self), key_event.code, actions@),
    {
        match key_event.code {
            KeyCode::Up | KeyCode::Char('k') => single(Action::KeymapUp),
            KeyCode::Down | KeyCode::Char('j') => single(Action::KeymapDown),
            KeyCode::Left | KeyCode::Char('h') => single(Action::KeymapLeft),
            KeyCode::Right | KeyCode::Char('l') => single(Action::KeymapRight),
            _ => {
                self.input_mode = InputMode::Normal;
                single(Action::ToggleKeymap)
            },
        }
    }

    /// Adds a typed character to the command buffer and runs the command it
    /// completes; the start of a two-key command waits for the next key; keys
    /// that form no command are dropped and reported as invalid.
    pub fn handle_char_input(&mut self, character: char) -> (actions: Vec<Action>)
        ensures
            char_step(*old(self), *final(self), character, actions@),
    {
        push_char(&mut self.input_buffer, character);
        self.input_state = InputState::Valid;
        let b = chars_of(self.input_buffer.as_str());
        let b = b.as_slice();
        let command = if b.len() == 1 {
            match b[0] {
                'j' => Some(Action::NextMatch),
                'k' => Some(Action::PreviousMatch),
                'l' => Some(Action::NextFile),
                'h' => Some(Action::PreviousFile),
                'G' => Some(Action::Bottom),
                'v' => Some(Action::ToggleContextViewerVertical),
                's' => Some(Action::ToggleContextViewerHorizontal),
                '+' => Some(Action::IncreaseContextViewerSize),
                '-' => Some(Action::DecreaseContextViewerSize),
                'q' => Some(Action::Exit),
                '?' => Some(Action::ToggleKeymap),
                '/' => Some(Action::TogglePopup),
                _ => None,
            }
        } else if b.len() == 2 && b[0] == 'g' && b[1] == 'g' {
            Some(Action::Top)
        } else if b.len() == 2 && b[0] == 'd' && b[1] == 'd' {
            Some(Action::RemoveCurrentEntry)
        } else if b.len() == 2 && b[0] == 'd' && b[1] == 'w' {
            Some(Action::RemoveCurrentFile)
        } else {
            None
        };
        proof {
            if b@.len() == 1 {
                assert(b@ =~= seq![b@[0]]);
            }
            if b@.len() == 2 {
                assert(b@ =~= seq![b@[0], b@[1]]);
            }
        }
        assert(command == char_command(b@));
        match command {
            Some(action) => {
                if b.len() == 1 && b[0] == '/' {
                    self.input_mode = InputMode::TextInsertion;
                }
                self.input_buffer = String::new();
                single(action)
            },
            None => {
                if b.len() == 1 && (b[0] == 'g' || b[0] == 'd') {
                    let mut shown = String::new();
                    push_char(&mut shown, b[0]);
                    push_char(&mut shown, '…');
                    assert(shown@ =~= seq![b@[0], '…']);
                    self.input_state = InputState::Incomplete(shown);
                } else {
                    let invalid = self.input_buffer.clone();
                    self.input_state = InputState::Invalid(invalid);
                    self.input_buffer = String::new();
                }
                Vec::new()
            },
        }
    }

    /// Runs the command of a key other than a character; clears the command
    /// buffer. Esc exits unless it cancels a started two-key command.
    pub fn handle_non_char_input(&mut self, key_code: KeyCode) -> (actions: Vec<Action>)
        ensures
            non_char_step(*old(self), *final(self), key_code, actions@),
    {
        self.input_buffer = String::new();
        let actions = match key_code {
            KeyCode::Down => single(Action::NextMatch),
            KeyCode::Up => single(Action::PreviousMatch),
            KeyCode::Right | KeyCode::PageDown => single(Action::NextFile),
            KeyCode::Left | KeyCode::PageUp => single(Action::PreviousFile),
            KeyCode::Home => single(Action::Top),
            KeyCode::End => single(Action::Bottom),
            KeyCode::Delete => single(Action::RemoveCurrentEntry),
            KeyCode::Enter => single(Action::OpenFile),
            KeyCode::F(1) => {
                self.input_mode = InputMode::Keymap;
                single(Action::ToggleKeymap)
            },
            KeyCode::F(5) => {
                self.input_mode = InputMode::TextInsertion;
                single(Action::TogglePopup)
            },
            KeyCode::Esc => {
                match self.input_state {
                    InputState::Valid | InputState::Invalid(_) => single(Action::Exit),
                    InputState::Incomplete(_) => Vec::new(),
                }
            },
            _ => Vec::new(),
        };
        self.input_state = InputState::Valid;
        actions
    }

    pub fn get_state(&self) -> (s: &InputState)
        ensures
            *s == self.state(),
    {
        &self.input_state
    }

    pub fn get_mode(&self) -> (m: InputMode)
        ensures
            m == self.mode(),
    {
        self.input_mode
    }
}

/// `after` and `actions` are what key `key_event` gives in normal mode from
/// `before`: Ctrl+C exits; a character goes to the command buffer; any
/// other key acts at once.
pub open spec fn normal_mode_step(
    before: InputHandler,
    after: InputHandler,
    key_event: KeyEvent,
    actions: Seq<Action>,
) -> bool {
    match key_event.code {
        KeyCode::Char(c) => if c == 'c' && key_event.modifiers == CONTROL {
            actions == seq![Action::Exit] && after == before
        } else {
            char_step(before, after, c, actions)
        },
        code => non_char_step(before, after, code, actions),
    }
}

/// `after` and `actions` are what typing `c` gives in normal mode from
/// `before` (see [`InputHandler::handle_char_input`]).
pub open spec fn char_step(before: InputHandler, after: InputHandler, c: char, actions: Seq<Action>) -> bool {
    let b = before.buffer().push(c);
    match char_command(b) {
        Some(a) => {
            &&& actions == seq![a]
            &&& after.buffer().len() == 0
            &&& after.state() is Valid
            &&& after.mode() == if b == seq!['/'] {
                InputMode::TextInsertion
            } else {
                before.mode()
            }
        },
        None => {
            &&& actions.len() == 0
            &&& after.mode() == before.mode()
            &&& if is_command_prefix(b) {
                after.buffer() == b && (after.state() matches InputState::Incomplete(t) && t@ == seq![
                    b[0],
                    '…',
                ])
            } else {
                after.buffer().len() == 0 && (after.state() matches InputState::Invalid(t) && t@ == b)
            }
        },
    }
}

/// `after` and `actions` are what the key `code` (not a character) gives in
/// normal mode from `before` (see [`InputHandler::handle_non_char_input`]).
pub open spec fn non_char_step(
    before: InputHandler,
    after: InputHandler,
    code: KeyCode,
    actions: Seq<Action>,
) -> bool {
    &&& after.buffer().len() == 0
    &&& after.state() is Valid
    &&& actions == match key_command(code) {
        Some(a) => seq![a],
        None => if code == KeyCode::Esc && !(before.state() is Incomplete) {
            seq![Action::Exit]
        } else {
            Seq::empty()
        },
    }
    &&& after.mode() == match code {
        KeyCode::F(1) => InputMode::Keymap,
        KeyCode::F(5) => InputMode::TextInsertion,
        _ => before.mode(),
    }
}

/// `after` and `actions` are what the key `key_event` gives while a search
/// pattern is typed (see [`InputHandler::handle_key_in_text_insertion_mode`]).
pub open spec fn text_step(
    before: InputHandler,
    after: InputHandler,
    key_event: KeyEvent,
    actions: Seq<Action>,
) -> bool {
    &&& actions =~= text_insertion_command(key_event).0
    &&& after.buffer() == before.buffer()
    &&& after.state() == before.state()
    &&& after.mode() == if text_insertion_command(key_event).1 {
        InputMode::Normal
    } else {
        before.mode()
    }
}

/// `after` and `actions` are what the key `key_event` gives from `before`, in
/// the mode `before` is in.
pub open spec fn key_step(
    before: InputHandler,
    after: InputHandler,
    key_event: KeyEvent,
    actions: Seq<Action>,
) -> bool {
    match before.mode() {
        InputMode::Normal => normal_mode_step(before, after, key_event, actions),
        InputMode::TextInsertion => text_step(before, after, key_event, actions),
        InputMode::Keymap => keymap_step(before, after, key_event.code, actions),
    }
}

/// Nothing or the first key of a two-key command is pending, and the handler
/// reports a command as incomplete exactly when a key is pending.
pub open spec fn pending_keys_ok(h: InputHandler) -> bool {
    &&& (h.buffer().len() == 0 || is_command_prefix(h.buffer()))
    &&& (h.state() is Incomplete <==> h.buffer().len() > 0)
}

/// Whatever key is pressed, at most the first key of a two-key command stays
/// pending, and the input is shown as incomplete exactly while one does.
pub proof fn law_pending_keys_stay_a_command_start(
    before: InputHandler,
    after: InputHandler,
    key_event: KeyEvent,
    actions: Seq<Action>,
)
    requires
        pending_keys_ok(before),
        key_step(before, after, key_event, actions),
    ensures
        pending_keys_ok(after),
{
    if before.mode() == InputMode::Normal {
        if let KeyCode::Char(c) = key_event.code {
            let b = before.buffer().push(c);
            if b.len() == 1 && is_command_prefix(b) {
                assert(b == seq![b[0]]);
            }
        }
    }
}

/// `after` and `actions` are what the key `code` gives while the key bindings
/// are shown (see [`InputHandler::handle_key_in_keymap_mode`]).
pub open spec fn keymap_step(
    before: InputHandler,
    after: InputHandler,
    code: KeyCode,
    actions: Seq<Action>,
) -> bool {
    &&& after.buffer() == before.buffer()
    &&& after.state() == before.state()
    &&& match keymap_command(code) {
        Some(a) => actions == seq![a] && after.mode() == before.mode(),
        None => actions == seq![Action::ToggleKeymap] && after.mode() == InputMode::Normal,
    }
}

} // verus!
