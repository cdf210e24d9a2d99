use linegrep::cli::parse_args;
use linegrep::lines::parse_file;
use linegrep::lines::truncate;
use linegrep::report::dec_string;
use linegrep::report::header_line;
use linegrep::report::highlight_tokens;
use linegrep::report::render_line;
use linegrep::search::contains_pattern;
use linegrep::search::find_pattern;
use linegrep::words::splice;
use linegrep::words::split_words;
use linegrep::words::strip_word;
use linegrep::run_grep;
use linegrep::run_search;

#[test]
fn short_line_unchanged() {
    let mut line = String::from("hello world");
    truncate(&mut line);
    assert_eq!(line, "hello world");

    let mut exact = "a".repeat(32);
    truncate(&mut exact);
    assert_eq!(exact, "a".repeat(32));
}

#[test]
fn truncation_cuts_at_first_space() {
    let mut line = format!("{} and more text", "a".repeat(40));
    truncate(&mut line);
    assert_eq!(line, "a".repeat(40));
    assert!(line.len() >= 32);
    assert!(!line.ends_with(' '));
}

#[test]
fn truncation_space_exactly_at_32() {
    let mut line = format!("{} tail", "a".repeat(32));
    truncate(&mut line);
    assert_eq!(line, "a".repeat(32));
}

#[test]
fn truncation_only_first_space_counts() {
    let mut line = format!("{} two words", "a".repeat(35));
    truncate(&mut line);
    assert_eq!(line, "a".repeat(35));
}

#[test]
fn no_space_after_32_leaves_line_whole() {
    let mut line = "a".repeat(50);
    truncate(&mut line);
    assert_eq!(line, "a".repeat(50));

    let mut early_space = format!("ab cd{}", "x".repeat(40));
    truncate(&mut early_space);
    assert_eq!(early_space, format!("ab cd{}", "x".repeat(40)));
}

#[test]
fn parse_file_truncates_every_line() {
    let raw = vec![
        String::from("short"),
        format!("{} cut here", "b".repeat(33)),
    ];
    let out = parse_file(&raw);
    assert_eq!(out.len(), 2);
    assert_eq!(out[0], "short");
    assert_eq!(out[1], "b".repeat(33));
}

#[test]
fn find_pattern_three_lines() {
    let lines = vec![
        String::from("cat dog"),
        String::from("dog cat"),
        String::from("bird"),
    ];
    let (matches, nums, count) = find_pattern(lines, "dog");
    assert_eq!(count, 2);
    assert_eq!(nums, vec![1, 2]);
    assert_eq!(matches, vec![String::from("cat dog"), String::from("dog cat")]);
}

#[test]
fn repeated_pattern_counts_once() {
    let lines = vec![String::from("dog dog")];
    let (matches, nums, count) = find_pattern(lines, "dog");
    assert_eq!(count, 1);
    assert_eq!(nums, vec![1]);
    assert_eq!(matches, vec![String::from("dog dog")]);
}

#[test]
fn line_numbers_skip_non_matches() {
    let lines = vec![
        String::from("bird"),
        String::from("dog"),
        String::from("fish"),
        String::from("hot dog stand"),
    ];
    let (_, nums, count) = find_pattern(lines, "dog");
    assert_eq!(count, 2);
    assert_eq!(nums, vec![2, 4]);
}

#[test]
fn contains_is_raw_substring() {
    assert!(contains_pattern("dogs bark", "dog"));
    assert!(contains_pattern("abc", ""));
    assert!(!contains_pattern("", "x"));
    assert!(!contains_pattern("Dog", "dog"));
}

#[test]
fn splice_finds_stripped_word() {
    let line = String::from("the [dog] barks.");
    assert_eq!(splice(&line, "dog"), Some(String::from("[dog]")));
}

#[test]
fn splice_first_qualifying_word() {
    let line = String::from("dog! dog?");
    assert_eq!(splice(&line, "dog"), Some(String::from("dog!")));
}

#[test]
fn splice_none_without_exact_word() {
    let line = String::from("dogs bark");
    assert_eq!(splice(&line, "dog"), None);
    assert!(contains_pattern(line.as_str(), "dog"));
}

#[test]
fn split_words_on_any_whitespace() {
    let ws = split_words("dog\tcat  bird ");
    assert_eq!(
        ws,
        vec![String::from("dog"), String::from("cat"), String::from("bird")]
    );
}

#[test]
fn strip_word_removes_punctuation() {
    assert_eq!(strip_word("[dog]!"), "dog");
    assert_eq!(strip_word("dog"), "dog");
    assert_eq!(strip_word("..."), "");
    assert_eq!(strip_word("a-b"), "a-b");
}

#[test]
fn decimal_rendering_exact() {
    assert_eq!(dec_string(0), "0");
    assert_eq!(dec_string(7), "7");
    assert_eq!(dec_string(907), "907");
    assert_eq!(header_line(12), "Pattern found on 12 line(s)");
}

#[test]
fn render_line_format() {
    let tokens = vec![String::from("cat"), String::from("dog")];
    assert_eq!(render_line(123, &tokens), "123: cat dog ");
}

#[test]
fn highlight_marks_every_equal_word() {
    colored::control::set_override(true);
    let tokens = highlight_tokens("dog dog", "dog");
    assert_eq!(tokens.len(), 2);
    for t in &tokens {
        assert_ne!(t, "dog");
        assert!(t.contains("dog"));
        assert!(t.starts_with('\u{1b}'));
    }
}

#[test]
fn highlight_leaves_other_words_alone() {
    colored::control::set_override(true);
    let tokens = highlight_tokens("cat dog cathedral", "dog");
    assert_eq!(tokens.len(), 3);
    assert_eq!(tokens[0], "cat");
    assert_ne!(tokens[1], "dog");
    assert!(tokens[1].contains("dog"));
    assert_eq!(tokens[2], "cathedral");
}

#[test]
fn parse_args_requires_two_arguments() {
    let none: Vec<String> = vec![String::from("grep")];
    assert_eq!(parse_args(&none), None);

    let one = vec![String::from("grep"), String::from("dog")];
    assert_eq!(parse_args(&one), None);

    let two = vec![
        String::from("grep"),
        String::from("dog"),
        String::from("pets.txt"),
    ];
    assert_eq!(
        parse_args(&two),
        Some((String::from("dog"), String::from("pets.txt")))
    );
}

#[test]
fn empty_input_reports_zero_lines() {
    let raw: Vec<String> = Vec::new();
    let report = run_grep(&raw, "dog");
    assert_eq!(report, vec![String::from("Pattern found on 0 line(s)")]);
}

#[test]
fn report_format_exact_when_plain() {
    colored::control::set_override(false);
    let raw = vec![
        String::from("cat dog"),
        String::from("dog cat"),
        String::from("bird"),
    ];
    let report = run_grep(&raw, "dog");
    assert_eq!(
        report,
        vec![
            String::from("Pattern found on 2 line(s)"),
            String::from("1: cat dog "),
            String::from("2: dog cat "),
        ]
    );
}

#[test]
fn searching_truncated_lines() {
    // The pattern sits after the cut, so the truncated line cannot match.
    let raw = vec![format!("{} then a dog appears", "a".repeat(40))];
    let (matches, nums, count) = run_search(&raw, "dog");
    assert_eq!(count, 0);
    assert!(matches.is_empty());
    assert!(nums.is_empty());
}

#[test]
fn pipeline_runs_are_identical() {
    colored::control::set_override(true);
    let raw = vec![
        String::from("cat dog"),
        String::from("dog cat"),
        String::from("bird"),
    ];
    let first = run_grep(&raw, "dog");
    let second = run_grep(&raw, "dog");
    assert_eq!(first, second);

    let (m1, n1, c1) = run_search(&raw, "dog");
    let (m2, n2, c2) = run_search(&raw, "dog");
    assert_eq!(m1, m2);
    assert_eq!(n1, n2);
    assert_eq!(c1, c2);
}
