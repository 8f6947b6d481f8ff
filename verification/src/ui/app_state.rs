//! What the interface holds and what each command does to it: the
//! application's state, the result list, the context viewer, the search
//! popup, the key bindings popup and the current search pattern.
use vstd::prelude::*;

use crate::editor::EditorCommand;
use crate::ig::file_entry::FileEntry;
use crate::ig::searcher::Event;
use crate::ig::{opening, State};
use crate::result_list::{
    file_removed, entry_removed, next_file_of, next_match_of, previous_file_of, previous_match_of,
    saturating_add, count_matches, ResultList,
};
use crate::ui::app::Application;
use crate::ui::context_viewer::{
    toggled_horizontal, toggled_vertical, first_line, highlighted, pieces_of, syntax_for, ContextViewer, ContextViewerPosition,
    ContextViewerState,
};
use crate::ui::input_handler::Action;
use crate::ui::keymap_popup::{step_down, step_up, KeymapPopup};
use crate::ui::search_popup::{without_last, SearchPopup};

verus! {

/// What the operation of `action` makes of the result list `b`; the list is
/// untouched by the actions that do not move through it or filter it.
pub open spec fn list_operation_done(b: ResultList, a: ResultList, action: Action) -> bool {
    let moved = a.wf() && a.entries() == b.entries() && a.filtered() == b.filtered() && (
    b.entries().len() == 0 ==> a.selected() is None);
    let from = b.selected()->0 as int;
    match action {
        Action::NextMatch => moved && (b.entries().len() > 0 ==> (a.selected() matches Some(j)
            && next_match_of(b.entries(), from, j as int))),
        Action::PreviousMatch => moved && (b.entries().len() > 0 ==> (a.selected() matches Some(j)
            && previous_match_of(b.entries(), from, j as int))),
        Action::NextFile => moved && (b.entries().len() > 0 ==> (a.selected() matches Some(j)
            && next_file_of(b.entries(), from, j as int))),
        Action::PreviousFile => moved && (b.entries().len() > 0 ==> (a.selected() matches Some(j)
            && previous_file_of(b.entries(), from, j as int))),
        Action::Top => moved && (b.entries().len() > 0 ==> a.selected() == Some(1usize)),
        Action::Bottom => moved && (b.entries().len() > 0 ==> a.selected() == Some(
            (b.entries().len() - 1) as usize,
        )),
        Action::RemoveCurrentEntry => {
            &&& a.wf()
            &&& b.entries().len() == 0 ==> a.entries().len() == 0 && a.selected() is None
            &&& b.entries().len() > 0 ==> entry_removed(b.entries(), from, a.entries(), a.selected())
            &&& a.filtered() == saturating_add(
                b.filtered() as int,
                count_matches(b.entries()) - count_matches(a.entries()),
            )
        },
        Action::RemoveCurrentFile => {
            &&& a.wf()
            &&& b.entries().len() == 0 ==> a.entries().len() == 0 && a.selected() is None
            &&& b.entries().len() > 0 ==> file_removed(b.entries(), from, a.entries(), a.selected())
            &&& a.filtered() == saturating_add(
                b.filtered() as int,
                count_matches(b.entries()) - count_matches(a.entries()),
            )
        },
        _ => a == b,
    }
}

/// What the operation of `action` makes of the application's state `b`.
pub open spec fn state_operation_done(b: State, a: State, action: Action) -> bool {
    match action {
        Action::OpenFile => a == opening(b),
        Action::Exit => a is Exit,
        _ => a == b,
    }
}

/// What the operation of `action` makes of the context viewer `b`.
pub open spec fn viewer_operation_done(
    b: ContextViewerState,
    a: ContextViewerState,
    action: Action,
) -> bool {
    match action {
        Action::ToggleContextViewerVertical => toggled_vertical(b, a),
        Action::ToggleContextViewerHorizontal => toggled_horizontal(b, a),
        _ => a == b,
    }
}

/// What the operation of `action` makes of the search popup `b`, the search
/// pattern being `pattern`: opening or closing it shows the pattern; typing
/// edits it at its end.
pub open spec fn popup_operation_done(
    b: SearchPopup,
    a: SearchPopup,
    pattern: Seq<char>,
    action: Action,
) -> bool {
    match action {
        Action::TogglePopup => a.pattern() == pattern && a.is_visible() == !b.is_visible(),
        Action::CharInserted(c) => a.pattern() == b.pattern().push(c) && a.is_visible()
            == b.is_visible(),
        Action::CharRemoved => a.pattern() == without_last(b.pattern()) && a.is_visible()
            == b.is_visible(),
        _ => a == b,
    }
}

/// What the operation of `action` makes of the key bindings popup `b`.
pub open spec fn keymap_operation_done(b: KeymapPopup, a: KeymapPopup, action: Action) -> bool {
    let rows = b.table_size().0;
    let width = b.table_size().1;
    let (y, x) = b.scroll();
    &&& a.table_size() == b.table_size()
    &&& match action {
        Action::ToggleKeymap => a.is_visible() == !b.is_visible() && a.scroll() == if a.is_visible() {
            (0u16, 0u16)
        } else {
            b.scroll()
        },
        Action::KeymapDown => a.is_visible() == b.is_visible() && a.scroll() == (step_up(y, rows), x),
        Action::KeymapUp => a.is_visible() == b.is_visible() && a.scroll() == (step_down(y), x),
        Action::KeymapRight => a.is_visible() == b.is_visible() && a.scroll() == (
            y,
            step_up(x, width),
        ),
        Action::KeymapLeft => a.is_visible() == b.is_visible() && a.scroll() == (y, step_down(x)),
        _ => a == b,
    }
}

/// A result list that is always well formed.
pub struct Results {
    list: ResultList,
}

impl Results {
    #[verifier::type_invariant]
    spec fn well_formed(self) -> bool {
        self.list.wf()
    }

    pub closed spec fn list(&self) -> ResultList {
        self.list
    }

    /// An empty list.
    pub fn new() -> (r: Self)
        ensures
            r.list().entries().len() == 0,
            r.list().selected() is None,
            r.list().filtered() == 0,
    {
        Results { list: ResultList::default() }
    }

    /// The list.
    pub fn get(&self) -> (l: &ResultList)
        ensures
            *l == self.list(),
            l.wf(),
    {
        proof {
            use_type_invariant(self);
        }
        &self.list
    }

    /// Runs the list's operation of `action`, if it has one.
    pub fn apply(&mut self, action: Action)
        ensures
            list_operation_done(old(self).list(), final(self).list(), action),
    {
        proof {
            use_type_invariant(&*self);
        }
        let mut list = ResultList::default();
        std::mem::swap(&mut list, &mut self.list);
        match action {
            Action::NextMatch => list.next_match(),
            Action::PreviousMatch => list.previous_match(),
            Action::NextFile => list.next_file(),
            Action::PreviousFile => list.previous_file(),
            Action::Top => list.top(),
            Action::Bottom => list.bottom(),
            Action::RemoveCurrentEntry => list.remove_current_entry(),
            Action::RemoveCurrentFile => list.remove_current_file(),
            _ => {},
        }
        self.list = list;
    }

    /// Starts a search when `state` is idle (see [`State::search`]).
    pub fn search(&mut self, state: &mut State) -> (started: bool)
        ensures
            started == (*old(state) is Idle),
            started ==> *final(state) is Searching && final(self).list().entries().len() == 0
                && final(self).list().selected() is None && final(self).list().filtered() == 0
                && final(self).list().wf(),
            !started ==> *final(state) == *old(state) && final(self).list() == old(self).list(),
    {
        proof {
            use_type_invariant(&*self);
        }
        let mut list = ResultList::default();
        std::mem::swap(&mut list, &mut self.list);
        let started = state.search(&mut list);
        self.list = list;
        started
    }

    /// Adds a searched file (see [`ResultList::add_file_entry`]).
    pub fn add_file_entry(&mut self, entry: FileEntry) -> (added: bool)
        ensures
            added == crate::result_list::file_rows(entry.entries()),
            added ==> final(self).list().entries() == old(self).list().entries()
                + entry.entries(),
            !added ==> final(self).list().entries() == old(self).list().entries(),
            !added || old(self).list().selected() is Some ==> final(self).list().selected() == old(
                self,
            ).list().selected(),
            added && old(self).list().selected() is None ==> final(self).list().selected() == Some(
                1usize,
            ),
            final(self).list().filtered() == old(self).list().filtered(),
    {
        proof {
            use_type_invariant(&*self);
        }
        let mut list = ResultList::default();
        std::mem::swap(&mut list, &mut self.list);
        let added = list.add_file_entry(entry);
        self.list = list;
        added
    }
}

/// The interface's state.
pub struct AppState {
    state: State,
    result_list: Results,
    context_viewer: ContextViewerState,
    search_popup: SearchPopup,
    keymap_popup: KeymapPopup,
    pattern: String,
    search_requested: bool,
}

impl AppState {
    pub closed spec fn app_state(&self) -> State {
        self.state
    }

    pub closed spec fn list(&self) -> ResultList {
        self.result_list.list()
    }

    pub closed spec fn viewer(&self) -> ContextViewerState {
        self.context_viewer
    }

    pub closed spec fn popup(&self) -> SearchPopup {
        self.search_popup
    }

    pub closed spec fn keymap(&self) -> KeymapPopup {
        self.keymap_popup
    }

    /// The pattern of the current search.
    pub closed spec fn pattern(&self) -> Seq<char> {
        self.pattern@
    }

    /// A search was started that the searcher has not been told of yet.
    pub closed spec fn search_requested(&self) -> bool {
        self.search_requested
    }

    /// An idle interface for the search `pattern`, with the context viewer
    /// where `position` puts it and a key bindings table of `lines` lines at
    /// most `line_len` wide.
    pub fn new(pattern: String, position: ContextViewerPosition, lines: u16, line_len: u16) -> (s:
        Self)
        ensures
            s.app_state() is Idle,
            s.list().entries().len() == 0,
            s.list().selected() is None,
            s.list().filtered() == 0,
            position == ContextViewerPosition::Hidden ==> s.viewer() is Hidden,
            position == ContextViewerPosition::Vertical ==> s.viewer() is Vertical,
            position == ContextViewerPosition::Horizontal ==> s.viewer() is Horizontal,
            !s.popup().is_visible(),
            s.popup().pattern().len() == 0,
            !s.keymap().is_visible(),
            s.keymap().scroll() == (0u16, 0u16),
            s.keymap().table_size() == (lines, line_len),
            s.pattern() == pattern@,
            !s.search_requested(),
    {
        let mut context_viewer = ContextViewerState::default();
        match position {
            ContextViewerPosition::Hidden => {},
            ContextViewerPosition::Vertical => context_viewer.toggle_vertical(),
            ContextViewerPosition::Horizontal => context_viewer.toggle_horizontal(),
        }
        AppState {
            state: State::Idle,
            result_list: Results::new(),
            context_viewer,
            search_popup: SearchPopup::default(),
            keymap_popup: KeymapPopup::new(lines, line_len),
            pattern,
            search_requested: false,
        }
    }

    /// Starts a search for the current pattern when idle (see
    /// [`State::search`]); the searcher is then to be told of it.
    pub fn start_search(&mut self) -> (started: bool)
        ensures
            started == old(self).app_state() is Idle,
            started ==> final(self).app_state() is Searching && final(self).list().entries().len()
                == 0 && final(self).list().selected() is None && final(self).list().filtered() == 0
                && final(self).search_requested(),
            !started ==> *final(self) == *old(self),
            final(self).pattern() == old(self).pattern(),
            final(self).viewer() == old(self).viewer(),
            final(self).popup() == old(self).popup(),
            final(self).keymap() == old(self).keymap(),
    {
        let started = self.result_list.search(&mut self.state);
        if started {
            self.search_requested = true;
        }
        started
    }

    /// Whether a search was started that the searcher has not been told of;
    /// it counts as told from now on.
    pub fn take_search_request(&mut self) -> (requested: bool)
        ensures
            requested == old(self).search_requested(),
            !final(self).search_requested(),
            final(self).app_state() == old(self).app_state(),
            final(self).list() == old(self).list(),
            final(self).viewer() == old(self).viewer(),
            final(self).popup() == old(self).popup(),
            final(self).keymap() == old(self).keymap(),
            final(self).pattern() == old(self).pattern(),
    {
        let requested = self.search_requested;
        self.search_requested = false;
        requested
    }

    /// Takes in one event of the searcher (see [`State::handle_searcher_event`]).
    pub fn handle_searcher_event(&mut self, event: Event) -> (entry: Option<FileEntry>)
        ensures
            match event {
                Event::NewEntry(e) => entry == Some(e) && final(self).app_state() == old(
                    self,
                ).app_state(),
                Event::SearchingFinished => entry is None && final(self).app_state() is Idle,
                Event::Error => entry is None && final(self).app_state() is Exit,
            },
            final(self).list() == old(self).list(),
            final(self).viewer() == old(self).viewer(),
            final(self).popup() == old(self).popup(),
            final(self).keymap() == old(self).keymap(),
            final(self).pattern() == old(self).pattern(),
            final(self).search_requested() == old(self).search_requested(),
    {
        self.state.handle_searcher_event(event)
    }

    /// Adds a searched file to the result list (see
    /// [`ResultList::add_file_entry`]).
    pub fn add_file_entry(&mut self, entry: FileEntry) -> (added: bool)
        ensures
            added == crate::result_list::file_rows(entry.entries()),
            added ==> final(self).list().entries() == old(self).list().entries()
                + entry.entries(),
            !added ==> final(self).list().entries() == old(self).list().entries(),
            !added || old(self).list().selected() is Some ==> final(self).list().selected() == old(
                self,
            ).list().selected(),
            added && old(self).list().selected() is None ==> final(self).list().selected() == Some(
                1usize,
            ),
            final(self).list().filtered() == old(self).list().filtered(),
            final(self).app_state() == old(self).app_state(),
            final(self).viewer() == old(self).viewer(),
            final(self).popup() == old(self).popup(),
            final(self).keymap() == old(self).keymap(),
            final(self).pattern() == old(self).pattern(),
            final(self).search_requested() == old(self).search_requested(),
    {
        self.result_list.add_file_entry(entry)
    }

    /// Takes in how launching the editor went (see [`State::editor_finished`]).
    pub fn editor_finished(&mut self, opened: bool, editor: &EditorCommand)
        requires
            old(self).app_state() is OpenFile,
        ensures
            opened ==> final(self).app_state() == crate::ig::resumed(old(self).app_state()),
            !opened ==> (final(self).app_state() matches State::Error(m) && m@
                == crate::ig::editor_failure_message(crate::editor::command_program(*editor))),
            final(self).list() == old(self).list(),
            final(self).viewer() == old(self).viewer(),
            final(self).popup() == old(self).popup(),
            final(self).keymap() == old(self).keymap(),
            final(self).pattern() == old(self).pattern(),
            final(self).search_requested() == old(self).search_requested(),
    {
        self.state.editor_finished(opened, editor);
    }

    /// Whether a context viewer is shown and shows another file than
    /// `file_path`.
    pub fn needs_highlighting(&self, file_path: &str) -> (b: bool)
        ensures
            b == match self.viewer() {
                ContextViewerState::Hidden => false,
                ContextViewerState::Vertical(cv) => cv.path() != file_path@,
                ContextViewerState::Horizontal(cv) => cv.path() != file_path@,
            },
    {
        match self.context_viewer.viewer() {
            Some(viewer) => !viewer.shows(file_path),
            None => false,
        }
    }

    /// Shows the file `file_path`, whose contents are `text`, in the shown
    /// context viewer (see [`ContextViewer::highlight_file_if_needed`]).
    pub fn highlight_file_if_needed(&mut self, file_path: &str, text: &str, theme_name: &str)
        ensures
            old(self).viewer() is Hidden ==> final(self).viewer() is Hidden,
            old(self).viewer() matches ContextViewerState::Vertical(cv) ==> (final(self).viewer() matches ContextViewerState::Vertical(n)
                && shown_file(cv, n, file_path@, text@, theme_name@)),
            old(self).viewer() matches ContextViewerState::Horizontal(cv) ==> (final(self).viewer() matches ContextViewerState::Horizontal(n)
                && shown_file(cv, n, file_path@, text@, theme_name@)),
            final(self).app_state() == old(self).app_state(),
            final(self).list() == old(self).list(),
            final(self).popup() == old(self).popup(),
            final(self).keymap() == old(self).keymap(),
            final(self).pattern() == old(self).pattern(),
            final(self).search_requested() == old(self).search_requested(),
    {
        if let Some(viewer) = self.context_viewer.viewer_mut() {
            viewer.highlight_file_if_needed(file_path, text, theme_name);
        }
    }

    pub fn get_state(&self) -> (s: &State)
        ensures
            *s == self.app_state(),
    {
        &self.state
    }

    pub fn get_result_list(&self) -> (l: &ResultList)
        ensures
            *l == self.list(),
            l.wf(),
    {
        self.result_list.get()
    }

    pub fn get_context_viewer(&self) -> (v: &ContextViewerState)
        ensures
            *v == self.viewer(),
    {
        &self.context_viewer
    }

    pub fn get_search_popup(&self) -> (p: &SearchPopup)
        ensures
            *p == self.popup(),
    {
        &self.search_popup
    }

    pub fn get_keymap_popup(&self) -> (k: &KeymapPopup)
        ensures
            *k == self.keymap(),
    {
        &self.keymap_popup
    }

    pub fn get_pattern(&self) -> (p: &str)
        ensures
            p@ == self.pattern(),
    {
        self.pattern.as_str()
    }
}

/// `after` is the viewer `before` once asked to show the file `file_path`
/// with contents `text` (see [`ContextViewer::highlight_file_if_needed`]).
pub open spec fn shown_file(
    before: ContextViewer,
    after: ContextViewer,
    file_path: Seq<char>,
    text: Seq<char>,
    theme_name: Seq<char>,
) -> bool {
    &&& before.path() != file_path ==> after.path() == file_path && pieces_of(after.lines())
        == highlighted(syntax_for(file_path, first_line(text)), text, theme_name)
    &&& before.path() == file_path ==> after.path() == before.path() && after.lines()
        == before.lines()
}

/// The parts of the interface that the operation of `action` leaves as they
/// are stay so.
pub open spec fn others_unchanged(b: AppState, a: AppState) -> bool {
    &&& a.pattern() == b.pattern()
    &&& a.search_requested() == b.search_requested()
}

impl Application for AppState {
    /// Searching takes the pattern typed in the popup and starts a search
    /// when idle (clearing the results, see [`State::search`]); every other
    /// operation changes only the part it names.
    open spec fn operation_done(b: Self, a: Self, action: Action) -> bool {
        if action == Action::Search {
            let started = b.app_state() is Idle;
            &&& a.pattern() == b.popup().pattern()
            &&& a.viewer() == b.viewer()
            &&& a.popup() == b.popup()
            &&& a.keymap() == b.keymap()
            &&& started ==> a.app_state() is Searching && a.list().wf() && a.list().entries().len()
                == 0 && a.list().selected() is None && a.list().filtered() == 0
                && a.search_requested()
            &&& !started ==> a.app_state() == b.app_state() && a.list() == b.list()
                && a.search_requested() == b.search_requested()
        } else {
            &&& list_operation_done(b.list(), a.list(), action)
            &&& state_operation_done(b.app_state(), a.app_state(), action)
            &&& viewer_operation_done(b.viewer(), a.viewer(), action)
            &&& popup_operation_done(b.popup(), a.popup(), b.pattern(), action)
            &&& keymap_operation_done(b.keymap(), a.keymap(), action)
            &&& others_unchanged(b, a)
        }
    }

    fn is_searching(&self) -> bool {
        self.state.is_searching()
    }

    fn on_next_match(&mut self) {
        self.result_list.apply(Action::NextMatch);
    }

    fn on_previous_match(&mut self) {
        self.result_list.apply(Action::PreviousMatch);
    }

    fn on_next_file(&mut self) {
        self.result_list.apply(Action::NextFile);
    }

    fn on_previous_file(&mut self) {
        self.result_list.apply(Action::PreviousFile);
    }

    fn on_top(&mut self) {
        self.result_list.apply(Action::Top);
    }

    fn on_bottom(&mut self) {
        self.result_list.apply(Action::Bottom);
    }

    fn on_remove_current_entry(&mut self) {
        self.result_list.apply(Action::RemoveCurrentEntry);
    }

    fn on_remove_current_file(&mut self) {
        self.result_list.apply(Action::RemoveCurrentFile);
    }

    fn on_toggle_context_viewer_vertical(&mut self) {
        self.context_viewer.toggle_vertical();
    }

    fn on_toggle_context_viewer_horizontal(&mut self) {
        self.context_viewer.toggle_horizontal();
    }

    /// The context viewer always takes half of the view.
    fn on_increase_context_viewer_size(&mut self) {
    }

    fn on_decrease_context_viewer_size(&mut self) {
    }

    fn on_open_file(&mut self) {
        self.state.open_file();
    }

    fn on_search(&mut self) {
        self.pattern = self.search_popup.get_pattern();
        let started = self.result_list.search(&mut self.state);
        if started {
            self.search_requested = true;
        }
    }

    fn on_exit(&mut self) {
        self.state.exit();
    }

    fn on_toggle_popup(&mut self) {
        self.search_popup.set_pattern(self.pattern.clone());
        self.search_popup.toggle();
    }

    fn on_char_inserted(&mut self, c: char) {
        self.search_popup.insert_char(c);
    }

    fn on_char_removed(&mut self) {
        self.search_popup.remove_char();
    }

    /// The pattern is edited at its end only.
    fn on_char_deleted(&mut self) {
    }

    fn on_char_left(&mut self) {
    }

    fn on_char_right(&mut self) {
    }

    fn on_toggle_keymap(&mut self) {
        self.keymap_popup.toggle();
    }

    fn on_keymap_up(&mut self) {
        self.keymap_popup.go_up();
    }

    fn on_keymap_down(&mut self) {
        self.keymap_popup.go_down();
    }

    fn on_keymap_left(&mut self) {
        self.keymap_popup.go_left();
    }

    fn on_keymap_right(&mut self) {
        self.keymap_popup.go_right();
    }
}

} // verus!
