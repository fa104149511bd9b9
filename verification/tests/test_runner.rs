use dscode::test_runner::{
    validate_api_usage, APIValidation, Severity, TestCase, TestResult, TestResultStatus, TestRunnerRegistry, TestStatus,
    TestSuite,
};

fn suite(id: &str, ext: &str, n: usize) -> TestSuite {
    TestSuite {
        id: id.to_string(),
        extension_id: ext.to_string(),
        name: id.to_string(),
        description: None,
        tests: (0..n)
            .map(|i| TestCase { id: format!("t{}", i), name: format!("t{}", i), description: None, timeout_ms: None, tags: vec![] })
            .collect(),
    }
}

fn result(id: &str, status: TestResultStatus) -> TestResult {
    TestResult { test_id: id.to_string(), name: id.to_string(), status, duration_ms: 3, error: None }
}

#[test]
fn runs_count_results_and_settle_their_status() {
    let mut reg = TestRunnerRegistry::new();
    reg.register_test_suite(suite("s", "ext", 3)).unwrap();
    let run = reg.start_test_run_at("s", "r1".to_string(), "t0".to_string()).unwrap();
    assert_eq!(run.status, TestStatus::Running);
    assert_eq!(run.summary.total, 3);
    reg.update_test_result("r1", result("t0", TestResultStatus::Passed)).unwrap();
    reg.update_test_result("r1", result("t1", TestResultStatus::Skipped)).unwrap();
    reg.complete_test_run_at("r1", 40, "t1".to_string()).unwrap();
    let done = reg.get_test_run_result("r1").unwrap();
    assert_eq!(done.status, TestStatus::Passed);
    assert_eq!((done.summary.passed, done.summary.skipped, done.summary.failed), (1, 1, 0));
    assert_eq!(done.summary.duration_ms, 40);
    assert_eq!(done.completed_at.as_deref(), Some("t1"));

    reg.start_test_run("s", "r2".to_string()).unwrap();
    reg.update_test_result("r2", result("t0", TestResultStatus::Failed)).unwrap();
    reg.complete_test_run("r2", 5).unwrap();
    let r2 = reg.get_test_run_result("r2").unwrap();
    assert_eq!(r2.status, TestStatus::Failed);
    assert!(r2.started_at.ends_with("+00:00"));
    assert_eq!(r2.started_at.chars().nth(10), Some('T'));
    assert!(r2.completed_at.unwrap().ends_with("+00:00"));
    assert_eq!(reg.get_test_results_by_suite("s").len(), 2);
}

#[test]
fn unknown_suites_and_runs_are_refused() {
    let mut reg = TestRunnerRegistry::new();
    assert_eq!(
        reg.start_test_run_at("nope", "r".to_string(), "t".to_string()).err().unwrap(),
        "Test suite 'nope' not found"
    );
    assert_eq!(
        reg.update_test_result("r", result("x", TestResultStatus::Passed)).err().unwrap(),
        "Test run 'r' not found"
    );
    reg.register_test_suite(suite("a", "e1", 1)).unwrap();
    reg.register_test_suite(suite("b", "e2", 1)).unwrap();
    assert_eq!(reg.get_test_suites_by_extension("e1").len(), 1);
    reg.clear_test_data("e1");
    assert_eq!(reg.get_all_test_suites().len(), 1);
}

#[test]
fn api_usage_reports_deprecated_and_missing_apis() {
    let v = APIValidation {
        extension_id: "x".to_string(),
        extension_type: "language".to_string(),
        apis_used: vec!["workspace.rootPath".to_string(), "languages.registerHoverProvider".to_string()],
    };
    let r = validate_api_usage(&v);
    assert!(!r.valid);
    assert_eq!(r.issues.len(), 2);
    assert_eq!(r.issues[0].severity, Severity::Warning);
    assert_eq!(r.issues[0].message, "Deprecated API used: workspace.rootPath");
    assert_eq!(r.issues[0].suggestion.as_deref(), Some("workspace.workspaceFolders"));
    assert_eq!(r.issues[1].severity, Severity::Error);
    assert_eq!(r.issues[1].message, "Required API not implemented: languages.registerCompletionItemProvider");
    let ok = validate_api_usage(&APIValidation { extension_id: "y".to_string(), extension_type: "theme".to_string(), apis_used: vec![] });
    assert!(ok.valid);
    assert!(ok.issues.is_empty());
}
