use igrep::util::{FileEntry, Match, StatefulList};

#[test]
fn mod_test_empty_list() {
    let mut list = StatefulList::new();
    assert_eq!(list.state.selected(), None);
    list.next();
    assert_eq!(list.state.selected(), None);
}

#[test]
fn next_skips_name_rows_and_stops_at_last_row() {
    let mut list = StatefulList::new();
    list.add_entry(FileEntry::new("a", vec![Match::new("x"), Match::new("y")]));
    list.add_entry(FileEntry::new("b", vec![Match::new("z")]));
    // rows: 0 a, 1 x, 2 y, 3 b, 4 z
    let mut seen = vec![];
    for _ in 0..5 {
        list.next();
        seen.push(list.state.selected().unwrap());
    }
    assert_eq!(seen, [1, 2, 4, 4, 4]);
    list.previous();
    assert_eq!(list.state.selected(), Some(3));
    list.unselect();
    assert_eq!(list.state.selected(), None);
    list.previous();
    assert_eq!(list.state.selected(), Some(0));
    list.previous();
    assert_eq!(list.state.selected(), Some(1));
}

#[test]
fn file_entry_lists_name_then_matches() {
    let e = FileEntry::new("name", vec![Match::new("m1"), Match::new("m2")]);
    assert_eq!(e.list(), ["name", "m1", "m2"]);
}
