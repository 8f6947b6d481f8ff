use igrep::ig::sink::split_by_lines;

#[test]
fn single_line_single_match() {
    let text = "lorem ipsum dolor sit amet\n";
    let matches = split_by_lines(0, text, vec![(5, 9)]);

    assert_eq!(matches.len(), 1);
    assert_eq!(matches[0].text, text);
    assert_eq!(matches[0].match_offsets, &[(5, 9)]);
}

#[test]
fn single_line_multiple_matches() {
    let text = "lorem ipsum dolor sit amet\n";
    let matches = split_by_lines(0, text, vec![(0, 4), (8, 12)]);

    assert_eq!(matches.len(), 1);
    assert_eq!(matches[0].text, text);
    assert_eq!(matches[0].match_offsets, &[(0, 4), (8, 12)]);
}

#[test]
fn multi_line() {
    let text = "lorem\nipsum dolor\nsit amet\n";
    let matches = split_by_lines(0, text, vec![(0, 21)]);

    assert_eq!(matches.len(), 3);
    let (m1, m2, m3) = (&matches[0], &matches[1], &matches[2]);
    assert_eq!(m1.line_number, 0);
    assert_eq!(m1.match_offsets, &[(0, 5)]);
    assert_eq!(m1.text, "lorem");

    assert_eq!(m2.line_number, 1);
    assert_eq!(m2.match_offsets, &[(0, 11)]);
    assert_eq!(m2.text, "ipsum dolor");

    assert_eq!(m3.line_number, 2);
    assert_eq!(m3.match_offsets, &[(0, 3)]);
    assert_eq!(m3.text, "sit amet");
}

#[test]
fn multi_line_without_offsets_gives_nothing() {
    let matches = split_by_lines(7, "first\nsecond\n", vec![]);
    assert!(matches.is_empty());
}

#[test]
fn line_feed_only_in_surrounding_whitespace_keeps_one_match() {
    let text = "\n  lorem ipsum  \n\n";
    let matches = split_by_lines(3, text, vec![(3, 8)]);
    assert_eq!(matches.len(), 1);
    assert_eq!(matches[0].line_number, 3);
    assert_eq!(matches[0].text, text);
    assert_eq!(matches[0].match_offsets, &[(3, 8)]);
}

#[test]
fn multi_line_takes_first_start_and_last_end() {
    // second line is three bytes long ("né" is "n", then two bytes)
    let text = "ab\r\nné\ncd";
    let matches = split_by_lines(10, text, vec![(1, 2), (4, 9)]);
    assert_eq!(matches.len(), 3);
    assert_eq!(matches[0].text, "ab");
    assert_eq!(matches[0].line_number, 10);
    assert_eq!(matches[0].match_offsets, &[(1, 2)]);
    assert_eq!(matches[1].text, "né");
    assert_eq!(matches[1].line_number, 11);
    assert_eq!(matches[1].match_offsets, &[(0, 3)]);
    assert_eq!(matches[2].text, "cd");
    assert_eq!(matches[2].line_number, 12);
    assert_eq!(matches[2].match_offsets, &[(0, 2)]);
}
