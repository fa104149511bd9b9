use dscode::search::{
    apply_replacements, file_quota, group_results_by_file, is_excluded, line_result, max_results_or_default,
    prepare_search, search_pattern, secret_username, take_line, SearchOptions, SearchResult,
};
use dscode::text::replace_str;

fn options(query: &str, use_regex: bool, whole_word: bool) -> SearchOptions {
    SearchOptions {
        query: query.to_string(),
        case_sensitive: false,
        use_regex,
        whole_word,
        include_pattern: None,
        exclude_pattern: None,
        max_results: None,
    }
}

fn hit(path: &str, line: usize, column: usize, m: &str) -> SearchResult {
    SearchResult { path: path.to_string(), line, column, text: String::new(), match_text: m.to_string() }
}

#[test]
fn patterns_escape_literal_queries() {
    assert_eq!(search_pattern(&options("a.b*c", false, false)), r"a\.b\*c");
    assert_eq!(search_pattern(&options("a.b", true, false)), "a.b");
    assert_eq!(search_pattern(&options("x-y", true, true)), r"\bx\-y\b");
    assert_eq!(search_pattern(&options("plain", false, false)), regex::escape("plain"));
}

#[test]
fn exclusion_needs_a_non_empty_pattern() {
    assert!(is_excluded("src/gen/a.rs", &Some("gen".to_string())));
    assert!(!is_excluded("src/a.rs", &Some("gen".to_string())));
    assert!(!is_excluded("src/a.rs", &Some(String::new())));
    assert!(!is_excluded("src/a.rs", &None));
    assert_eq!(max_results_or_default(None), 1000);
    assert_eq!(max_results_or_default(Some(5)), 5);
}

#[test]
fn results_group_by_file_in_order() {
    let groups = group_results_by_file(vec![hit("a", 1, 1, "x"), hit("b", 2, 1, "x"), hit("a", 3, 2, "y")]);
    assert_eq!(groups.len(), 2);
    assert_eq!(groups[0].0, "a");
    assert_eq!(groups[0].1.len(), 2);
    assert_eq!(groups[1].1[0].line, 2);
}

#[test]
fn replacements_run_last_match_first() {
    let content = "foo bar foo\nbar";
    let out = apply_replacements(content, &vec![hit("a", 1, 1, "foo"), hit("a", 2, 1, "bar")], "X");
    assert_eq!(out, "X X X\nX");
    let chained = apply_replacements("ab", &vec![hit("a", 1, 1, "a"), hit("a", 1, 2, "Xb")], "X");
    assert_eq!(chained, "ab".replace("Xb", "X").replace("a", "X"));
}

#[test]
fn replacing_matches_std_including_the_empty_pattern() {
    assert_eq!(replace_str("abc", "", "-"), "abc".replace("", "-"));
    assert_eq!(replace_str("aaa", "aa", "b"), "aaa".replace("aa", "b"));
    assert_eq!(replace_str("", "", "x"), "".replace("", "x"));
}

#[test]
fn secrets_are_stored_under_extension_and_key() {
    assert_eq!(secret_username("ext.id", "token"), "ext.id:token");
}

#[test]
fn an_invalid_regex_is_refused() {
    let err = prepare_search(&options("(", true, false)).err().unwrap();
    assert!(err.starts_with("Invalid regex: "));
    assert!(err.len() > "Invalid regex: ".len());
    let ok = prepare_search(&options("a.b", false, false)).ok().unwrap();
    assert_eq!(ok.pattern, "a\\.b");
    assert!(ok.case_insensitive);
}

#[test]
fn a_line_gives_its_first_match() {
    let search = prepare_search(&options("FOO", false, false)).ok().unwrap();
    let mut results = Vec::new();
    assert_eq!(take_line(&mut results, 10, &search, "src/a.rs", 7, "x foo foo\n"), Ok(true));
    assert_eq!(results.len(), 1);
    assert_eq!(results[0].path, "src/a.rs");
    assert_eq!(results[0].line, 7);
    assert_eq!(results[0].column, 3);
    assert_eq!(results[0].text, "x foo foo");
    assert_eq!(results[0].match_text, "foo");
    assert_eq!(take_line(&mut results, 10, &search, "src/a.rs", 8, "nothing here\n"), Ok(true));
    assert_eq!(results.len(), 1);
}

#[test]
fn columns_count_bytes() {
    let search = prepare_search(&options("foo", false, false)).ok().unwrap();
    let mut results = Vec::new();
    assert_eq!(take_line(&mut results, 10, &search, "b.txt", 1, "\u{e9}\u{e9} foo\n\n"), Ok(true));
    assert_eq!(results[0].column, 6);
    assert_eq!(results[0].text, "\u{e9}\u{e9} foo");
    assert_eq!(results[0].match_text, "foo");
}

#[test]
fn a_full_file_stops_taking_lines() {
    let search = prepare_search(&options("a", false, false)).ok().unwrap();
    let mut results = Vec::new();
    assert_eq!(take_line(&mut results, 1, &search, "c", 1, "a\n"), Ok(true));
    assert_eq!(take_line(&mut results, 1, &search, "c", 2, "a\n"), Ok(false));
    assert_eq!(results.len(), 1);
    assert_eq!(file_quota(1000, 990), Some(10));
    assert_eq!(file_quota(1000, 1000), None);
    assert_eq!(file_quota(5, 9), None);
}

#[test]
fn line_results_from_a_given_match() {
    assert!(line_result("p", 3, "abc", None).is_none());
    let r = line_result("p", 3, "abcdef\n", Some((2, 4))).unwrap();
    assert_eq!(r.column, 3);
    assert_eq!(r.match_text, "cd");
    assert_eq!(r.text, "abcdef");
}

#[test]
fn a_match_inside_a_char_is_an_error() {
    let mut opts = options("(?-u:\\xA9)", true, false);
    opts.case_sensitive = true;
    if let Ok(search) = prepare_search(&opts) {
        let mut results = Vec::new();
        let r = take_line(&mut results, 10, &search, "d", 1, "\u{e9}\n");
        assert_eq!(r, Err("Match does not fall on character boundaries".to_string()));
        assert!(results.is_empty());
    }
}
