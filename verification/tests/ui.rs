use igrep::grep_match::GrepMatch;
use igrep::ig::file_entry::FileEntry as Found;
use igrep::ui::app::perform_all;
use igrep::ui::app_state::AppState;
use igrep::ui::context_viewer::ContextViewerPosition;
use igrep::ui::input_handler::Action;
use igrep::ui::bottom_bar::{
    app_status, current_input, render_selected_info_text, search_result_summary, AppStatus,
};
use igrep::ui::context_viewer::{first_visible_line, ContextViewer, ContextViewerState};
use igrep::ui::input_handler::InputState;
use igrep::ui::keymap_popup::KeymapPopup;
use igrep::ui::search_popup::SearchPopup;
use igrep::ui::theme::{Dark, Light, Theme};
use igrep::ui::list_line::{header_text, line_prefix, match_spans, spans_fit_text};

#[test]
fn search_popup_edits_pattern() {
    let mut p = SearchPopup::default();
    assert!(!p.is_shown());
    p.toggle();
    assert!(p.is_shown());
    p.set_pattern("ab".to_owned());
    p.insert_char('c');
    assert_eq!(p.get_pattern(), "abc");
    p.remove_char();
    p.remove_char();
    p.remove_char();
    p.remove_char();
    assert_eq!(p.get_pattern(), "");
}

#[test]
fn keymap_popup_scrolls_within_table() {
    let mut k = KeymapPopup::new(2, 1);
    k.go_down();
    k.go_down();
    k.go_down();
    k.go_right();
    k.go_right();
    k.toggle();
    assert!(k.is_shown());
    assert_eq!(k.visible_scroll(10, 10), (0, 0));
    k.go_down();
    k.go_down();
    k.go_down();
    k.go_right();
    assert_eq!(k.visible_scroll(4, 4), (2, 1));
    assert_eq!(k.visible_scroll(5, 4), (1, 1));
    k.go_up();
    k.go_up();
    k.go_up();
    k.go_left();
    assert_eq!(k.visible_scroll(4, 4), (0, 0));
}

#[test]
fn context_viewer_toggles() {
    let mut s = ContextViewerState::default();
    assert!(s.viewer().is_none());
    s.toggle_vertical();
    assert!(matches!(s, ContextViewerState::Vertical(_)));
    s.viewer_mut().unwrap().start_highlighting("path");
    s.toggle_horizontal();
    assert!(matches!(s, ContextViewerState::Horizontal(_)));
    assert!(!s.viewer_mut().unwrap().start_highlighting("path"));
    s.toggle_horizontal();
    assert!(matches!(s, ContextViewerState::Hidden));
    s.toggle_horizontal();
    s.toggle_vertical();
    assert!(matches!(s, ContextViewerState::Vertical(_)));
    s.toggle_vertical();
    assert!(matches!(s, ContextViewerState::Hidden));
}

#[test]
fn context_viewer_visible_lines() {
    let mut cv = ContextViewer::default();
    assert!(cv.start_highlighting("f"));
    cv.push_line(vec![((1, 2, 3), "a\tb".to_owned())]);
    cv.push_line(vec![((4, 5, 6), "c".to_owned()), ((7, 8, 9), "d".to_owned())]);
    cv.push_line(vec![]);
    let v = cv.visible_lines(2, 5);
    assert_eq!(v.len(), 2);
    assert_eq!(v[0], vec![((4, 5, 6), "c".to_owned()), ((7, 8, 9), "d".to_owned())]);
    let v = cv.visible_lines(0, 1);
    assert_eq!(v, vec![vec![((1, 2, 3), "a    b".to_owned())]]);
    assert!(cv.visible_lines(9, 3).is_empty());
    assert!(!cv.start_highlighting("f"));
    assert!(cv.start_highlighting("g"));
    assert!(cv.visible_lines(1, 3).is_empty());
}

#[test]
fn bottom_bar_texts() {
    assert_eq!(app_status(true, true), AppStatus::Searching);
    assert_eq!(app_status(false, true).text(), "ERROR");
    assert_eq!(app_status(false, false).text(), "FINISHED");
    assert_eq!(search_result_summary(true, None, 3, 1, 0), "");
    assert_eq!(search_result_summary(false, Some("boom"), 3, 1, 0), " boom");
    assert_eq!(search_result_summary(false, None, 0, 0, 0), " No matches found.");
    assert_eq!(search_result_summary(false, None, 1, 1, 0), " Found 1 match in 1 file.");
    assert_eq!(
        search_result_summary(false, None, 12, 3, 2),
        " Found 12 matches in 3 files (2 filtered out)."
    );
    assert_eq!(render_selected_info_text(7, 120), " |   7/120 ");
    assert_eq!(render_selected_info_text(120, 7), " | 120/7 ");
    assert_eq!(render_selected_info_text(0, 0), " | 0/0 ");
    assert_eq!(current_input(&InputState::Valid), (String::new(), false));
    assert_eq!(current_input(&InputState::Invalid("x".into())), ("x".to_owned(), true));
    assert_eq!(current_input(&InputState::Incomplete("g…".into())), ("g…".to_owned(), false));
}

#[test]
fn removing_a_typed_character_restores_the_pattern() {
    let mut p = SearchPopup::default();
    p.set_pattern("needle".to_owned());
    p.insert_char('x');
    p.remove_char();
    assert_eq!(p.get_pattern(), "needle");
}

#[test]
fn scrolling_back_undoes_scrolling_forward() {
    let mut k = KeymapPopup::new(3, 5);
    k.toggle();
    k.go_down();
    k.go_right();
    k.go_up();
    k.go_left();
    assert_eq!(k.visible_scroll(100, 100), (0, 0));
    for _ in 0..10 {
        k.go_down();
        k.go_right();
    }
    assert_eq!(k.visible_scroll(4, 4), (3, 5));
}

#[test]
fn switching_sides_keeps_the_viewer_content() {
    let mut s = ContextViewerState::default();
    s.toggle_horizontal();
    let cv = s.viewer_mut().unwrap();
    assert!(cv.start_highlighting("f"));
    cv.push_line(vec![((1, 1, 1), "line".to_owned())]);
    s.toggle_vertical();
    s.toggle_horizontal();
    assert!(matches!(s, ContextViewerState::Horizontal(_)));
    let v = s.viewer().unwrap().visible_lines(0, 1);
    assert_eq!(v, vec![vec![((1, 1, 1), "line".to_owned())]]);
}

#[test]
fn theme_colours() {
    assert_eq!(Dark.highlight_color(), (58, 58, 58));
    assert_eq!(Dark.bottom_bar_color(), Some((58, 58, 58)));
    assert_eq!(Dark.bottom_bar_font_color(), Some((147, 147, 147)));
    assert_eq!(Light.highlight_color(), (220, 220, 220));
    assert_eq!(Light.context_viewer_theme(), "base16-ocean.light");
    assert_eq!(Light.bottom_bar_color(), None);
}

#[test]
fn context_viewer_centres_the_match() {
    assert_eq!(first_visible_line(50, 10), 45);
    assert_eq!(first_visible_line(5, 10), 1);
    assert_eq!(first_visible_line(6, 10), 1);
    assert_eq!(first_visible_line(7, 11), 2);
    assert_eq!(first_visible_line(0, 0), 1);
}

#[test]
fn matching_lines_are_cut_at_their_matches() {
    let pieces = match_spans("lorem ipsum dolor", &[(0, 5), (12, 17)]);
    assert_eq!(
        pieces,
        vec![
            (String::new(), false),
            ("lorem".to_owned(), true),
            (" ipsum ".to_owned(), false),
            ("dolor".to_owned(), true),
            (String::new(), false),
        ]
    );
    assert_eq!(match_spans("abc", &[]), vec![("abc".to_owned(), false)]);
    assert!(spans_fit_text("abc", &[(0, 1), (1, 3)]));
    assert!(!spans_fit_text("abc", &[(1, 2), (0, 1)]));
    assert!(!spans_fit_text("abc", &[(2, 4)]));
    assert!(!spans_fit_text("abc", &[(2, 1)]));
}

#[test]
fn match_offsets_are_bytes_of_the_line() {
    assert!(spans_fit_text("éab", &[(2, 3)]));
    assert!(!spans_fit_text("éab", &[(1, 3)]));
    assert_eq!(
        match_spans("éab", &[(2, 3)]),
        vec![
            ("é".to_owned(), false),
            ("a".to_owned(), true),
            ("b".to_owned(), false),
        ]
    );
}

#[test]
fn app_state_runs_the_commands() {
    let mut core = AppState::new("old".to_owned(), ContextViewerPosition::Hidden, 17, 59);
    assert!(core.start_search());
    assert!(core.take_search_request());
    assert!(!core.take_search_request());
    let found = Found::new(
        "f".to_owned(),
        vec![
            GrepMatch::new(1, "a".to_owned(), vec![(0, 1)]),
            GrepMatch::new(2, "b".to_owned(), vec![(0, 1)]),
        ],
    );
    assert!(core.add_file_entry(found));
    perform_all(&mut core, &[Action::NextMatch, Action::ToggleContextViewerVertical]);
    assert_eq!(core.get_result_list().get_state().selected(), Some(2));
    assert!(matches!(core.get_context_viewer(), ContextViewerState::Vertical(_)));
    perform_all(&mut core, &[Action::TogglePopup, Action::CharInserted('x')]);
    assert!(core.get_search_popup().is_shown());
    assert_eq!(core.get_search_popup().get_pattern(), "oldx");
    perform_all(&mut core, &[Action::ToggleKeymap, Action::KeymapDown]);
    assert!(core.get_keymap_popup().is_shown());
    perform_all(&mut core, &[Action::RemoveCurrentEntry]);
    assert_eq!(core.get_result_list().get_filtered_matches_count(), 1);
    perform_all(&mut core, &[Action::Search]);
    assert_eq!(core.get_pattern(), "oldx");
    assert!(!core.take_search_request());
    assert!(core.get_state().is_searching());
    perform_all(&mut core, &[Action::OpenFile]);
    assert_eq!(core.get_state().file_to_open(), Some(false));
    perform_all(&mut core, &[Action::Exit]);
    assert!(core.get_state().exit_requested());
}

#[test]
fn viewer_highlights_the_file_it_is_given() {
    let mut cv = ContextViewer::default();
    cv.highlight_file_if_needed("main.rs", "fn main() {}\nlet x = 1;\n", "base16-ocean.dark");
    let lines = cv.visible_lines(1, 10);
    assert_eq!(lines.len(), 2);
    let first: String = lines[0].iter().map(|(_, t)| t.as_str()).collect();
    assert_eq!(first, "fn main() {}\n");
    assert!(lines[0].len() > 1);
    cv.highlight_file_if_needed("main.rs", "other text\n", "base16-ocean.dark");
    assert_eq!(cv.visible_lines(1, 10).len(), 2);
    cv.highlight_file_if_needed("notes.txt", "one line", "base16-ocean.light");
    let lines = cv.visible_lines(1, 10);
    assert_eq!(lines.len(), 1);
    assert_eq!(lines[0].iter().map(|(_, t)| t.as_str()).collect::<String>(), "one line");
}

#[test]
fn app_state_highlights_only_a_shown_viewer() {
    let mut core = AppState::new("p".to_owned(), ContextViewerPosition::Hidden, 17, 59);
    assert!(!core.needs_highlighting("a.rs"));
    perform_all(&mut core, &[Action::ToggleContextViewerHorizontal]);
    assert!(core.needs_highlighting("a.rs"));
    core.highlight_file_if_needed("a.rs", "x\ny\n", "base16-ocean.dark");
    assert!(!core.needs_highlighting("a.rs"));
    assert!(core.needs_highlighting("b.rs"));
    assert_eq!(core.get_context_viewer().viewer().unwrap().visible_lines(1, 5).len(), 2);
}

#[test]
fn list_rows_texts() {
    assert_eq!(header_text("./././src/main.rs"), "src/main.rs");
    assert_eq!(header_text("src/./a"), "src/./a");
    assert_eq!(header_text("."), ".");
    assert_eq!(line_prefix(42), " 42: ");
    assert_eq!(line_prefix(0), " 0: ");
}
