use igrep::editor::{Editor, EditorCommand};
use igrep::grep_match::GrepMatch;
use igrep::ig::file_entry::{EntryType, FileEntry};
use igrep::ig::searcher::Event;
use igrep::ig::entries::{EntryType as Row, FileEntry as Rows, Match};
use igrep::ig::{SearchConfig, State};
use igrep::result_list::ResultList;
use igrep::ig::file_entry::offsets_fit_exec;

#[test]
fn search_starts_only_when_idle() {
    let mut state = State::Idle;
    let mut list = ResultList::default();
    list.add_entry(igrep::entries::FileEntry::new(
        "a",
        vec![igrep::entries::Match::new(1, "x")],
    ));
    list.remove_current_entry();
    assert_eq!(list.get_filtered_matches_count(), 1);
    assert!(state.search(&mut list));
    assert!(state.is_searching());
    assert!(list.is_empty());
    assert_eq!(list.get_filtered_matches_count(), 0);
    assert_eq!(list.get_state().selected(), None);
    list.add_entry(igrep::entries::FileEntry::new(
        "b",
        vec![igrep::entries::Match::new(2, "y")],
    ));
    assert!(!state.search(&mut list));
    assert!(state.is_searching());
    assert_eq!(list.get_number_of_matches(), 1);
}

#[test]
fn searcher_events_change_the_state() {
    let mut state = State::Searching;
    let entry = FileEntry::new("f".to_owned(), vec![GrepMatch::new(1, "x".to_owned(), vec![])]);
    assert!(state.handle_searcher_event(Event::NewEntry(entry)).is_some());
    assert!(state.is_searching());
    assert!(state.handle_searcher_event(Event::SearchingFinished).is_none());
    assert!(state.is_idle());
    assert!(state.handle_searcher_event(Event::Error).is_none());
    assert!(state.exit_requested());
}

#[test]
fn opening_a_file_returns_to_the_previous_state() {
    let editor = EditorCommand::Builtin(Editor::Vim);
    let mut state = State::Idle;
    state.open_file();
    assert_eq!(state.file_to_open(), Some(true));
    state.editor_finished(true, &editor);
    assert!(state.is_idle());

    let mut state = State::Searching;
    state.open_file();
    assert_eq!(state.file_to_open(), Some(false));
    state.editor_finished(true, &editor);
    assert!(state.is_searching());
}

#[test]
fn failing_editor_is_reported() {
    let mut state = State::Idle;
    state.open_file();
    state.editor_finished(false, &EditorCommand::Builtin(Editor::Helix));
    assert_eq!(state.last_error(), Some("Failed to open editor 'helix'. Is it installed?"));
    assert!(!state.is_idle());
    state.error("other".to_owned());
    assert_eq!(state.last_error(), Some("other"));
    state.exit();
    assert!(state.exit_requested());
    assert_eq!(state.last_error(), None);
    assert_eq!(state.file_to_open(), None);
}

#[test]
fn tabs_are_widened_and_offsets_follow() {
    let entry = FileEntry::new(
        "file".to_owned(),
        vec![
            GrepMatch::new(3, "\tab\tcd".to_owned(), vec![(0, 1), (2, 4), (5, 6)]),
            GrepMatch::new(4, "plain".to_owned(), vec![(1, 2)]),
        ],
    );
    assert_eq!(entry.get_matches_count(), 2);
    let rows = entry.get_entries();
    assert!(matches!(&rows[0], EntryType::Header(h) if h == "file"));
    match &rows[1] {
        EntryType::Match(n, t, o) => {
            assert_eq!(*n, 3);
            assert_eq!(t, "  ab  cd");
            assert_eq!(o, &[(0, 1), (3, 5), (7, 8)]);
        }
        _ => panic!("expected a match"),
    }
    match &rows[2] {
        EntryType::Match(n, t, o) => {
            assert_eq!(*n, 4);
            assert_eq!(t, "plain");
            assert_eq!(o, &[(1, 2)]);
        }
        _ => panic!("expected a match"),
    }
}

#[test]
fn search_config_builders() {
    let c = SearchConfig::from("pat", "dir").case_insensitive(true).case_smart(true);
    assert_eq!(c.pattern, "pat");
    assert_eq!(c.path, "dir");
    assert!(c.case_insensitive);
    assert!(c.case_smart);
    let d = SearchConfig::from("p", ".");
    assert!(!d.case_insensitive && !d.case_smart);
}

#[test]
fn ig_entries_keep_offsets() {
    let rows = Rows::new("n", vec![Match::new(2, "t", vec![(0, 1)])]);
    assert_eq!(rows.0.len(), 2);
    assert!(matches!(&rows.0[0], Row::Header(h) if h == "n"));
    assert!(matches!(&rows.0[1], Row::Match(2, t, o) if t == "t" && o == &[(0, 1)]));
}

#[test]
fn match_count_is_the_number_of_matches() {
    let entry = FileEntry::new(
        "f".to_owned(),
        vec![
            GrepMatch::new(1, "\ta".to_owned(), vec![(1, 2)]),
            GrepMatch::new(2, "b".to_owned(), vec![]),
            GrepMatch::new(3, "c\t\t".to_owned(), vec![(0, 1)]),
        ],
    );
    assert_eq!(entry.get_matches_count(), 3);
    assert_eq!(entry.get_entries().len(), 4);
}

#[test]
fn offsets_that_cannot_move_past_tabs_are_found() {
    assert!(offsets_fit_exec(&GrepMatch::new(1, "\ta".to_owned(), vec![(1, 2)])));
    assert!(!offsets_fit_exec(&GrepMatch::new(1, "\ta".to_owned(), vec![(usize::MAX, usize::MAX)])));
    assert!(offsets_fit_exec(&GrepMatch::new(1, "a".to_owned(), vec![(usize::MAX, usize::MAX)])));
}
