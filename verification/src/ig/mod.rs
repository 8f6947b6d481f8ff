//! The application's state: searching, idle, opening a file, failed, or
//! exiting.
pub mod entries;
pub mod file_entry;
pub mod search_config;
pub mod searcher;
pub mod sink;

use vstd::prelude::*;

use crate::editor::{command_program, EditorCommand};
use crate::result_list::ResultList;
use crate::text::push_all;
use file_entry::FileEntry;
pub use search_config::SearchConfig;
use searcher::Event;

verus! {

pub enum State {
    Idle,
    Searching,
    /// A file is to be opened; remembers whether the application was idle.
    OpenFile(bool),
    Error(String),
    Exit,
}

/// The state a request to open a file leads to from `s`.
pub open spec fn opening(s: State) -> State {
    State::OpenFile(s is Idle)
}

/// The state the application returns to once the editor for a file it was
/// asked to open has run.
pub open spec fn resumed(s: State) -> State {
    match s {
        State::OpenFile(true) => State::Idle,
        State::OpenFile(false) => State::Searching,
        _ => s,
    }
}

/// Opening a file while idle or searching and running the editor brings the
/// application back to where it was.
pub proof fn law_opening_a_file_resumes(s: State)
    requires
        s is Idle || s is Searching,
    ensures
        resumed(opening(s)) == s,
{
}

/// The message shown when the editor launched by `program` could not be run.
pub open spec fn editor_failure_message(program: Seq<char>) -> Seq<char> {
    "Failed to open editor '"@ + program + "'. Is it installed?"@
}

impl State {
    /// Starts a search when idle: the results of the previous search are
    /// cleared (the list is as a new one, with nothing filtered out), the state becomes `Searching` and `true` is returned; in any
    /// other state nothing changes and `false` is returned.
    pub fn search(&mut self, result_list: &mut ResultList) -> (started: bool)
        requires
            old(result_list).wf(),
        ensures
            started == (*old(self) is Idle),
            started ==> *final(self) is Searching,
            !started ==> *final(self) == *old(self),
            final(result_list).wf(),
            started ==> final(result_list).entries().len() == 0 && final(result_list).selected() is None
                && final(result_list).filtered() == 0,
            !started ==> *final(result_list) == *old(result_list),
    {
        if let State::Idle = self {
            *result_list = ResultList::default();
            *self = State::Searching;
            true
        } else {
            false
        }
    }

    /// Takes in one event of the searcher: a new file entry is handed back;
    /// the end of the search makes the state `Idle`; a failure makes it `Exit`.
    pub fn handle_searcher_event(&mut self, event: Event) -> (entry: Option<FileEntry>)
        ensures
            match event {
                Event::NewEntry(e) => entry == Some(e) && *final(self) == *old(self),
                Event::SearchingFinished => entry is None && *final(self) is Idle,
                Event::Error => entry is None && *final(self) is Exit,
            },
    {
        match event {
            Event::NewEntry(e) => Some(e),
            Event::SearchingFinished => {
                *self = State::Idle;
                None
            },
            Event::Error => {
                *self = State::Exit;
                None
            },
        }
    }

    /// Requests opening the selected file, remembering whether the
    /// application was idle.
    pub fn open_file(&mut self)
        ensures
            *final(self) == opening(*old(self)),
    {
        let idle = self.is_idle();
        *self = State::OpenFile(idle);
    }

    /// Whether a file is to be opened, and if so whether the application was
    /// idle before.
    pub fn file_to_open(&self) -> (r: Option<bool>)
        ensures
            match *self {
                State::OpenFile(idle) => r == Some(idle),
                _ => r is None,
            },
    {
        match self {
            State::OpenFile(idle) => Some(*idle),
            _ => None,
        }
    }

    /// Takes in how launching the editor for a requested file went: on
    /// success the state before the request comes back (`Idle` or
    /// `Searching`); on failure the state is an error naming the program.
    pub fn editor_finished(&mut self, opened: bool, editor: &EditorCommand)
        requires
            *old(self) is OpenFile,
        ensures
            opened ==> *final(self) == resumed(*old(self)),
            !opened ==> (*final(self) matches State::Error(m) && m@ == editor_failure_message(
                command_program(*editor),
            )),
    {
        if opened {
            if let State::OpenFile(idle) = self {
                *self = if *idle {
                    State::Idle
                } else {
                    State::Searching
                };
            }
        } else {
            let mut message = "Failed to open editor '".to_owned();
            push_all(&mut message, editor.program());
            push_all(&mut message, "'. Is it installed?");
            *self = State::Error(message);
        }
    }

    pub fn error(&mut self, err: String)
        ensures
            *final(self) == State::Error(err),
    {
        *self = State::Error(err);
    }

    pub fn exit(&mut self)
        ensures
            *final(self) is Exit,
    {
        *self = State::Exit;
    }

    pub fn is_idle(&self) -> (b: bool)
        ensures
            b == (*self is Idle),
    {
        matches!(self, State::Idle)
    }

    pub fn is_searching(&self) -> (b: bool)
        ensures
            b == (*self is Searching),
    {
        matches!(self, State::Searching)
    }

    pub fn last_error(&self) -> (r: Option<&str>)
        ensures
            match *self {
                State::Error(e) => (r matches Some(s) && s@ == e@),
                _ => r is None,
            },
    {
        if let State::Error(err) = self {
            Some(err.as_str())
        } else {
            None
        }
    }

    pub fn exit_requested(&self) -> (b: bool)
        ensures
            b == (*self is Exit),
    {
        matches!(self, State::Exit)
    }
}

} // verus!
