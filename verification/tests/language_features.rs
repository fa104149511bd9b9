use dscode::language::{simple_glob_match, DocumentFilter, DocumentSelector};

#[test]
fn test_document_selector_matches() {
    let selector = DocumentSelector {
        filters: vec![DocumentFilter {
            language: Some("rust".to_string()),
            scheme: Some("file".to_string()),
            pattern: Some("*.rs".to_string()),
        }],
    };

    assert!(selector.matches("rust", "file:///path/to/file.rs"));
    assert!(!selector.matches("python", "file:///path/to/file.rs"));
    assert!(!selector.matches("rust", "http://example.com/file.rs"));
}

#[test]
fn test_simple_glob_match() {
    assert!(simple_glob_match("test.rs", "*.rs"));
    assert!(simple_glob_match("file.rs", "file.rs"));
    assert!(simple_glob_match("anything", "*"));
    assert!(!simple_glob_match("test.py", "*.rs"));
}

#[test]
fn glob_with_star_in_the_middle_matches_prefix_and_suffix() {
    assert!(simple_glob_match("src/main.rs", "src/*.rs"));
    assert!(!simple_glob_match("lib/main.rs", "src/*.rs"));
    assert!(!simple_glob_match("a.rs", "*.rs.bak"));
}

#[test]
fn empty_selector_matches_nothing() {
    let selector = DocumentSelector { filters: vec![] };
    assert!(!selector.matches("rust", "file:///a.rs"));
}

#[test]
fn filter_without_conditions_matches_everything() {
    let selector = DocumentSelector {
        filters: vec![DocumentFilter { language: None, scheme: None, pattern: None }],
    };
    assert!(selector.matches("python", "untitled:1"));
}
