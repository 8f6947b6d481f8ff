use igrep::entries::{FileEntry, Match};
use igrep::result_list::ResultList;
use igrep::grep_match::GrepMatch;
use igrep::ig::file_entry::{EntryType, FileEntry as Found};

#[test]
fn result_list_test_empty_list() {
    let mut list = ResultList::default();
    assert_eq!(list.get_state().selected(), None);
    list.next_match();
    assert_eq!(list.get_state().selected(), None);
    list.previous_match();
    assert_eq!(list.get_state().selected(), None);
}

#[test]
fn test_add_entry() {
    let mut list = ResultList::default();
    list.add_entry(FileEntry::new("entry1", vec![Match::new(0, "e1m1")]));
    assert_eq!(list.iter().len(), 2);
    assert_eq!(list.get_state().selected(), Some(1));

    list.add_entry(FileEntry::new(
        "entry2",
        vec![Match::new(0, "e1m2"), Match::new(0, "e2m2")],
    ));
    assert_eq!(list.iter().len(), 5);
    assert_eq!(list.get_state().selected(), Some(1));
}

fn three_files() -> ResultList {
    let mut list = ResultList::default();
    // rows: 0 a, 1 a:1, 2 a:2, 3 b, 4 b:3, 5 c, 6 c:4, 7 c:5
    list.add_entry(FileEntry::new("a", vec![Match::new(1, "x"), Match::new(2, "y")]));
    list.add_entry(FileEntry::new("b", vec![Match::new(3, "z")]));
    list.add_entry(FileEntry::new("c", vec![Match::new(4, "u"), Match::new(5, "v")]));
    list
}

#[test]
fn next_match_skips_headers_and_stops_at_last() {
    let mut list = three_files();
    let mut seen = vec![];
    for _ in 0..7 {
        list.next_match();
        seen.push(list.get_state().selected().unwrap());
    }
    assert_eq!(seen, [2, 4, 6, 7, 7, 7, 7]);
}

#[test]
fn previous_match_skips_headers_and_stops_at_first() {
    let mut list = three_files();
    list.bottom();
    assert_eq!(list.get_state().selected(), Some(7));
    let mut seen = vec![];
    for _ in 0..6 {
        list.previous_match();
        seen.push(list.get_state().selected().unwrap());
    }
    assert_eq!(seen, [6, 4, 2, 1, 1, 1]);
}

#[test]
fn next_file_goes_to_first_match_of_next_file() {
    let mut list = three_files();
    list.next_file();
    assert_eq!(list.get_state().selected(), Some(4));
    list.next_file();
    assert_eq!(list.get_state().selected(), Some(6));
    list.next_match();
    list.next_file();
    assert_eq!(list.get_state().selected(), Some(7));
}

#[test]
fn previous_file_goes_to_first_match_of_previous_file() {
    let mut list = three_files();
    list.bottom();
    list.previous_file();
    assert_eq!(list.get_state().selected(), Some(4));
    list.previous_file();
    assert_eq!(list.get_state().selected(), Some(1));
    list.next_match();
    list.previous_file();
    assert_eq!(list.get_state().selected(), Some(1));
}

#[test]
fn selected_entry_names_file_and_line() {
    let mut list = three_files();
    assert_eq!(list.get_selected_entry(), Some(("a", 1)));
    list.next_file();
    assert_eq!(list.get_selected_entry(), Some(("b", 3)));
    list.bottom();
    assert_eq!(list.get_selected_entry(), Some(("c", 5)));
    assert_eq!(ResultList::default().get_selected_entry(), None);
}

#[test]
fn counts_and_current_index() {
    let mut list = three_files();
    assert_eq!(list.get_number_of_matches(), 5);
    assert_eq!(list.get_number_of_file_entries(), 3);
    assert_eq!(list.get_current_match_index(), 1);
    list.next_file();
    assert_eq!(list.get_current_match_index(), 3);
    list.bottom();
    assert_eq!(list.get_current_match_index(), 5);
    list.top();
    assert_eq!(list.get_state().selected(), Some(1));
    assert_eq!(ResultList::default().get_current_match_index(), 0);
    assert!(ResultList::default().is_empty());
}

fn rows(list: &ResultList) -> Vec<String> {
    list.iter()
        .map(|e| match e {
            igrep::ig::file_entry::EntryType::Header(h) => h.clone(),
            igrep::ig::file_entry::EntryType::Match(n, _, _) => n.to_string(),
        })
        .collect()
}

#[test]
fn removing_a_match_keeps_the_selection_on_the_next_one() {
    let mut list = three_files();
    list.remove_current_entry();
    assert_eq!(rows(&list), ["a", "2", "b", "3", "c", "4", "5"]);
    assert_eq!(list.get_state().selected(), Some(1));
    assert_eq!(list.get_number_of_matches(), 4);
}

#[test]
fn removing_the_last_match_of_a_file_selects_the_one_before() {
    let mut list = three_files();
    list.next_match();
    list.remove_current_entry();
    assert_eq!(rows(&list), ["a", "1", "b", "3", "c", "4", "5"]);
    assert_eq!(list.get_state().selected(), Some(1));
}

#[test]
fn removing_the_only_match_removes_its_file() {
    let mut list = three_files();
    list.next_file();
    assert_eq!(list.get_state().selected(), Some(4));
    list.remove_current_entry();
    assert_eq!(rows(&list), ["a", "1", "2", "c", "4", "5"]);
    assert_eq!(list.get_state().selected(), Some(4));
    assert_eq!(list.get_number_of_file_entries(), 2);
}

#[test]
fn removing_a_file_selects_the_next_file() {
    let mut list = three_files();
    list.remove_current_file();
    assert_eq!(rows(&list), ["b", "3", "c", "4", "5"]);
    assert_eq!(list.get_state().selected(), Some(1));
    assert_eq!(list.get_selected_entry(), Some(("b", 3)));
}

#[test]
fn removing_the_last_file_selects_the_last_match_before_it() {
    let mut list = three_files();
    list.bottom();
    list.remove_current_file();
    assert_eq!(rows(&list), ["a", "1", "2", "b", "3"]);
    assert_eq!(list.get_state().selected(), Some(4));
    list.remove_current_file();
    list.remove_current_file();
    assert!(list.is_empty());
    assert_eq!(list.get_state().selected(), None);
    list.remove_current_file();
    list.remove_current_entry();
    assert!(list.is_empty());
}

#[test]
fn next_then_previous_match_comes_back() {
    let mut list = three_files();
    for start in 0..4 {
        let mut probe = three_files();
        for _ in 0..start {
            probe.next_match();
        }
        let before = probe.get_state().selected();
        probe.next_match();
        let moved = probe.get_state().selected() != before;
        probe.previous_match();
        if moved {
            assert_eq!(probe.get_state().selected(), before);
        }
    }
    list.bottom();
    list.previous_match();
    list.next_match();
    assert_eq!(list.get_state().selected(), Some(7));
}

#[test]
fn files_never_outnumber_matches() {
    let list = three_files();
    assert_eq!(list.get_number_of_file_entries(), 3);
    assert_eq!(list.get_number_of_matches(), 5);
    assert!(list.get_number_of_file_entries() <= list.get_number_of_matches());
    assert_eq!(
        list.get_number_of_file_entries() + list.get_number_of_matches(),
        list.iter().len()
    );
}

#[test]
fn top_is_match_one_and_bottom_is_the_last() {
    let mut list = three_files();
    list.bottom();
    assert_eq!(list.get_current_match_index(), 5);
    list.top();
    assert_eq!(list.get_current_match_index(), 1);
}

#[test]
fn filtered_matches_are_counted() {
    let mut list = three_files();
    assert_eq!(list.get_filtered_matches_count(), 0);
    list.remove_current_entry();
    assert_eq!(list.get_filtered_matches_count(), 1);
    list.next_file();
    list.next_file();
    list.remove_current_file();
    assert_eq!(list.get_filtered_matches_count(), 3);
    assert_eq!(list.get_number_of_matches(), 2);
    assert_eq!(list.get_total_number_of_matches(), 5);
}

#[test]
fn searched_files_keep_their_offsets() {
    let mut list = ResultList::default();
    let found = Found::new(
        "f".to_owned(),
        vec![GrepMatch::new(3, "a\tbc".to_owned(), vec![(2, 3)])],
    );
    assert!(list.add_file_entry(found));
    assert_eq!(list.get_state().selected(), Some(1));
    assert_eq!(list.get_number_of_file_entries(), 1);
    let rows: Vec<&EntryType> = list.iter().collect();
    match rows[1] {
        EntryType::Match(n, t, o) => {
            assert_eq!(*n, 3);
            assert_eq!(t, "a  bc");
            assert_eq!(o, &[(3, 4)]);
        }
        _ => panic!("expected a match"),
    }
    assert!(!list.add_file_entry(Found::new("empty".to_owned(), vec![])));
    assert_eq!(list.iter().len(), 2);
}

#[test]
fn each_added_file_counts_once() {
    let mut list = ResultList::default();
    for k in 1..=4 {
        list.add_entry(FileEntry::new("f", vec![Match::new(k, "x"), Match::new(k + 1, "y")]));
        list.next_match();
        assert_eq!(list.get_number_of_file_entries(), k as usize);
        assert_eq!(list.get_number_of_matches(), 2 * k as usize);
    }
}

#[test]
fn files_without_matches_are_added_and_counted() {
    let mut list = ResultList::default();
    list.add_entry(FileEntry(vec![]));
    assert!(list.is_empty());
    assert_eq!(list.get_state().selected(), None);
    list.add_entry(FileEntry::new("header only", vec![]));
    assert_eq!(list.iter().len(), 1);
    assert_eq!(list.get_state().selected(), Some(1));
    assert_eq!(list.get_number_of_file_entries(), 1);
    assert_eq!(list.get_number_of_matches(), 0);
    list.add_entry(FileEntry::new("two", vec![Match::new(1, "x"), Match::new(2, "y")]));
    assert_eq!(list.get_number_of_file_entries(), 2);
    assert_eq!(list.get_number_of_matches(), 2);
    assert_eq!(list.get_state().selected(), Some(1));
}
