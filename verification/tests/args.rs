use std::collections::HashSet;

use igrep::args::Args;

#[test]
fn ripgrep_example_config() {
    let supported_args = vec![
        (Some("glob".to_owned()), Some("g".to_owned())),
        (Some("smart-case".to_owned()), None),
    ];
    let input = "\
            # Don't let ripgrep vomit really long lines to my terminal, and show a preview.
            --max-columns=150
            --max-columns-preview

            # Add my 'web' type.
            --type-add
            web:*.{html,css,js}*

            # Using glob patterns to include/exclude files or folders
            -g=!git/*

            # or
            --glob
            !git/*

            # Set the colors.
            --colors=line:none
            --colors=line:style:bold

            # Because who cares about case!?
            --smart-case";

    let args = Args::parse_from_reader(input, supported_args, vec![]);
    assert_eq!(args, ["-g=!git/*", "--glob", "!git/*", "--smart-case"]);
}

#[test]
fn trim_whitespaces() {
    let supported_args = vec![(Some("sup".to_owned()), Some("s".to_owned()))];

    let input = "\
    # comment
    --sup=value\n\r\
    -s  \n\
    value
    --unsup

        # --comment
        value
            -s";
    let args = Args::parse_from_reader(input, supported_args, vec![]);
    assert_eq!(args, ["--sup=value", "-s", "value", "-s"]);
}

#[test]
fn skip_line_after_ignored_option() {
    let supported_args = vec![
        (Some("aaa".to_owned()), Some("a".to_owned())),
        (Some("bbb".to_owned()), Some("b".to_owned())),
    ];

    let input = "\
        --aaa
        value
        --bbb
        value
        ";
    let args = Args::parse_from_reader(input, supported_args.clone(), vec!["aaa".to_owned()]);
    assert_eq!(args, ["--bbb", "value"]);

    let input = "\
        -a
        value
        -b
        value
        ";
    let args = Args::parse_from_reader(input, supported_args, vec!["a".to_owned()]);
    assert_eq!(args, ["-b", "value"]);
}

#[test]
fn do_not_skip_line_after_ignored_option_if_value_inline() {
    let supported_args = vec![
        (Some("aaa".to_owned()), Some("a".to_owned())),
        (Some("bbb".to_owned()), Some("b".to_owned())),
    ];

    let input = "\
        --aaa=value
        --bbb
        value
        ";
    let args = Args::parse_from_reader(input, supported_args.clone(), vec!["aaa".to_owned()]);
    assert_eq!(args, ["--bbb", "value"]);

    let input = "\
        -a=value
        -b
        value
        ";
    let args = Args::parse_from_reader(input, supported_args, vec!["a".to_owned()]);
    assert_eq!(args, ["-b", "value"]);
}

#[test]
fn do_not_skip_line_after_ignored_flag() {
    let supported_args = vec![
        (Some("aaa".to_owned()), Some("a".to_owned())),
        (Some("bbb".to_owned()), Some("b".to_owned())),
    ];

    let input = "\
        --aaa
        --bbb
        value
        ";
    let args = Args::parse_from_reader(input, supported_args.clone(), vec!["aaa".to_owned()]);
    assert_eq!(args, ["--bbb", "value"]);

    let input = "\
        -a
        -b
        value
        ";
    let args = Args::parse_from_reader(input, supported_args, vec!["a".to_owned()]);
    assert_eq!(args, ["-b", "value"]);
}

#[test]
fn pair_ignored() {
    let to_ignore = Args::pair_ignored(
        vec![
            "a".to_owned(),
            "bbb".to_owned(),
            "ddd".to_owned(),
            "e".to_owned(),
        ],
        &[
            (Some("aaa".to_owned()), Some("a".to_owned())),
            (Some("bbb".to_owned()), Some("b".to_owned())),
            (Some("ccc".to_owned()), Some("c".to_owned())),
            (Some("ddd".to_owned()), None),
            (None, Some("e".to_owned())),
        ],
    );

    let extended: HashSet<String> = HashSet::from_iter(to_ignore);
    let expected: HashSet<String> = HashSet::from([
        "aaa".to_owned(),
        "a".to_owned(),
        "bbb".to_owned(),
        "b".to_owned(),
        "ddd".to_owned(),
        "e".to_owned(),
    ]);

    assert_eq!(extended, expected);
}

#[test]
fn pair_ignored_keeps_order_and_drops_unknown_options() {
    let to_ignore = Args::pair_ignored(
        vec!["zzz".to_owned(), "b".to_owned(), "aaa".to_owned()],
        &[
            (Some("aaa".to_owned()), Some("a".to_owned())),
            (Some("bbb".to_owned()), Some("b".to_owned())),
        ],
    );
    assert_eq!(to_ignore, ["bbb", "b", "aaa", "a"]);
}

#[test]
fn collect_supported_arguments_drops_positional_arguments() {
    let supported = Args::collect_supported_arguments(vec![
        (None, None),
        (Some("glob".to_owned()), Some('g')),
        (Some("theme".to_owned()), None),
        (None, Some('i')),
    ]);
    assert_eq!(
        supported,
        vec![
            (Some("glob".to_owned()), Some("g".to_owned())),
            (Some("theme".to_owned()), None),
            (None, Some("i".to_owned())),
        ]
    );
}

#[test]
fn options_given_strips_dashes() {
    let args = vec![
        "ig".to_owned(),
        "--glob".to_owned(),
        "*.rs".to_owned(),
        "-i".to_owned(),
        "pattern".to_owned(),
        "---x".to_owned(),
    ];
    assert_eq!(Args::options_given(&args), ["glob", "i", "x"]);
}

#[test]
fn comments_and_blank_lines_do_not_end_skipping() {
    let supported = vec![(Some("aaa".to_owned()), None)];
    let input = "--unknown\n\n# note\nskipped\nkept\r\n";
    let args = Args::parse_from_reader(input, supported, vec![]);
    assert_eq!(args, ["kept"]);
}

#[test]
fn nameless_options_are_found() {
    assert!(igrep::args::has_nameless_option("--glob\n  --  \nx"));
    assert!(igrep::args::has_nameless_option("-"));
    assert!(!igrep::args::has_nameless_option("--glob\n---\n-g=x\n# -"));
    assert!(!igrep::args::has_nameless_option(""));
}

#[test]
fn type_list_lines() {
    assert_eq!(
        igrep::args::type_list_line("rust", &["*.rs".to_owned(), "*.rs.in".to_owned()]),
        "rust: *.rs, *.rs.in"
    );
    assert_eq!(igrep::args::type_list_line("none", &[]), "none: ");
    let lines = igrep::args::type_list();
    assert!(lines.iter().any(|l| l == "rust: *.rs"));
    assert!(lines.len() > 50);
}
