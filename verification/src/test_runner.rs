//! Test suites contributed by extensions, the results of their runs, and the
//! checking of the editor API an extension uses.
use vstd::prelude::*;
use crate::store::{Duplicate, Store, views, duplicate_all, lookup, store_insert, distinct_keys, values_of};
use crate::text::{clone_opt, clone_strings, concat, opt_view, owned, str_eq};

verus! {

/// Tests an extension contributed.
pub struct TestSuite {
    pub id: String,
    pub extension_id: String,
    pub name: String,
    pub description: Option<String>,
    pub tests: Vec<TestCase>,
}

/// Mathematical form of a [`TestSuite`].
pub struct TestSuiteView {
    pub id: Seq<char>,
    pub extension_id: Seq<char>,
    pub name: Seq<char>,
    pub description: Option<Seq<char>>,
    pub tests: Seq<TestCaseView>,
}

pub struct TestCase {
    pub id: String,
    pub name: String,
    pub description: Option<String>,
    pub timeout_ms: Option<u64>,
    pub tags: Vec<String>,
}

/// Mathematical form of a [`TestCase`].
pub struct TestCaseView {
    pub id: Seq<char>,
    pub name: Seq<char>,
    pub description: Option<Seq<char>>,
    pub timeout_ms: Option<u64>,
    pub tags: Seq<String>,
}

/// The results of one run of a suite.
pub struct TestRunResult {
    pub run_id: String,
    pub suite_id: String,
    pub status: TestStatus,
    pub tests: Vec<TestResult>,
    pub summary: TestSummary,
    pub started_at: String,
    pub completed_at: Option<String>,
}

/// Mathematical form of a [`TestRunResult`].
pub struct TestRunView {
    pub run_id: Seq<char>,
    pub suite_id: Seq<char>,
    pub status: TestStatus,
    pub tests: Seq<TestResult>,
    pub summary: TestSummary,
    pub started_at: Seq<char>,
    pub completed_at: Option<Seq<char>>,
}

#[derive(Clone, Copy, Debug, PartialEq, Eq, Structural)]
pub enum TestStatus {
    Running,
    Passed,
    Failed,
}

/// The outcome of one test.
pub struct TestResult {
    pub test_id: String,
    pub name: String,
    pub status: TestResultStatus,
    pub duration_ms: u64,
    pub error: Option<TestError>,
}

#[derive(Clone, Copy, Debug, PartialEq, Eq, Structural)]
pub enum TestResultStatus {
    Passed,
    Failed,
    Skipped,
}

pub struct TestError {
    pub message: String,
    pub stack_trace: Option<String>,
    pub expected: Option<String>,
    pub actual: Option<String>,
}

/// Counts of a run's outcomes.
#[derive(Clone, Copy, Debug, PartialEq, Eq, Structural)]
pub struct TestSummary {
    pub total: usize,
    pub passed: usize,
    pub failed: usize,
    pub skipped: usize,
    pub duration_ms: u64,
}

/// Lines `start..=end` of a file.
#[derive(Clone, Copy, Debug, PartialEq, Eq, Structural)]
pub struct LineRange {
    pub start: usize,
    pub end: usize,
}

/// What an extension declares it uses of the editor API.
pub struct APIValidation {
    pub extension_id: String,
    pub extension_type: String,
    pub apis_used: Vec<String>,
}

/// Whether an extension's API use is acceptable, and what was found.
pub struct ValidationResult {
    pub valid: bool,
    pub issues: Vec<ValidationIssue>,
}

pub struct ValidationIssue {
    pub severity: Severity,
    pub message: String,
    pub suggestion: Option<String>,
}

#[derive(Clone, Copy, Debug, PartialEq, Eq, Structural)]
pub enum Severity {
    Error,
    Warning,
    Info,
}

impl View for TestCase {
    type V = TestCaseView;

    open spec fn view(&self) -> TestCaseView {
        TestCaseView {
            id: self.id@,
            name: self.name@,
            description: opt_view(self.description),
            timeout_ms: self.timeout_ms,
            tags: self.tags@,
        }
    }
}

impl Duplicate for TestCase {
    fn duplicate(&self) -> (r: Self) {
        TestCase {
            id: self.id.clone(),
            name: self.name.clone(),
            description: clone_opt(&self.description),
            timeout_ms: self.timeout_ms,
            tags: clone_strings(&self.tags),
        }
    }
}

impl View for TestSuite {
    type V = TestSuiteView;

    open spec fn view(&self) -> TestSuiteView {
        TestSuiteView {
            id: self.id@,
            extension_id: self.extension_id@,
            name: self.name@,
            description: opt_view(self.description),
            tests: views(self.tests@),
        }
    }
}

impl Duplicate for TestSuite {
    fn duplicate(&self) -> (r: Self) {
        let tests = duplicate_all(&self.tests);
        assert(views(tests@) =~= views(self.tests@));
        TestSuite {
            id: self.id.clone(),
            extension_id: self.extension_id.clone(),
            name: self.name.clone(),
            description: clone_opt(&self.description),
            tests,
        }
    }
}

impl View for TestError {
    type V = TestError;

    open spec fn view(&self) -> TestError {
        *self
    }
}

impl Duplicate for TestError {
    fn duplicate(&self) -> (r: Self) {
        TestError {
            message: self.message.clone(),
            stack_trace: clone_opt(&self.stack_trace),
            expected: clone_opt(&self.expected),
            actual: clone_opt(&self.actual),
        }
    }
}

impl View for TestResult {
    type V = TestResult;

    open spec fn view(&self) -> TestResult {
        *self
    }
}

impl Duplicate for TestResult {
    fn duplicate(&self) -> (r: Self) {
        TestResult {
            test_id: self.test_id.clone(),
            name: self.name.clone(),
            status: self.status,
            duration_ms: self.duration_ms,
            error: match &self.error {
                Some(e) => Some(e.duplicate()),
                None => None,
            },
        }
    }
}

impl View for TestRunResult {
    type V = TestRunView;

    open spec fn view(&self) -> TestRunView {
        TestRunView {
            run_id: self.run_id@,
            suite_id: self.suite_id@,
            status: self.status,
            tests: self.tests@,
            summary: self.summary,
            started_at: self.started_at@,
            completed_at: opt_view(self.completed_at),
        }
    }
}

impl Duplicate for TestRunResult {
    fn duplicate(&self) -> (r: Self) {
        let tests = duplicate_all(&self.tests);
        assert(tests@ =~= self.tests@);
        TestRunResult {
            run_id: self.run_id.clone(),
            suite_id: self.suite_id.clone(),
            status: self.status,
            tests,
            summary: self.summary,
            started_at: self.started_at.clone(),
            completed_at: clone_opt(&self.completed_at),
        }
    }
}

/// Every char of `s` is a decimal digit.
pub open spec fn all_digits(s: Seq<char>) -> bool {
    forall|i: int| 0 <= i < s.len() ==> '0' <= #[trigger] s[i] && s[i] <= '9'
}

/// The shape `chrono` writes a UTC time in with `to_rfc3339`: the year (four
/// digits, or a sign and at least four digits), `-MM-DDTHH:MM:SS` in digits,
/// a fraction of three, six or nine digits or none, and `+00:00`.
pub open spec fn utc_rfc3339_shape(s: Seq<char>) -> bool {
    exists|f: int|
        #![trigger s.subrange(0, s.len() - 6 - f)]
        (f == 0 || f == 4 || f == 7 || f == 10) && s.len() >= 25 + f && {
            let n = s.len() as int;
            let frac = s.subrange(n - 6 - f, n - 6);
            let body = s.subrange(0, n - 6 - f);
            let b = body.len() as int;
            let year = body.subrange(0, b - 15);
            &&& s.subrange(n - 6, n) == "+00:00"@
            &&& (f == 0 || (frac[0] == '.' && all_digits(frac.subrange(1, f))))
            &&& body[b - 15] == '-' && body[b - 12] == '-' && body[b - 9] == 'T'
            &&& body[b - 6] == ':' && body[b - 3] == ':'
            &&& all_digits(body.subrange(b - 14, b - 12)) && all_digits(body.subrange(b - 11, b - 9))
            &&& all_digits(body.subrange(b - 8, b - 6)) && all_digits(body.subrange(b - 5, b - 3))
            &&& all_digits(body.subrange(b - 2, b))
            &&& ((year.len() == 4 && all_digits(year)) || (year.len() >= 5 && (year[0] == '+' || year[0]
                == '-') && all_digits(year.subrange(1, year.len() as int))))
        }
}

/// The current time, as `chrono::Utc::now().to_rfc3339()` writes it: its
/// value depends on the clock; its shape is the one `write_rfc3339` gives a
/// zero offset (`+00:00`, seconds with an automatic fraction).
#[verifier::external_body]
fn now_rfc3339() -> (r: String)
    ensures
        utc_rfc3339_shape(r@),
{
    chrono::Utc::now().to_rfc3339()
}

pub open spec fn suite_missing_message(id: Seq<char>) -> Seq<char> {
    "Test suite '"@ + id + "' not found"@
}

pub open spec fn run_missing_message(id: Seq<char>) -> Seq<char> {
    "Test run '"@ + id + "' not found"@
}

fn quoted(head: &str, id: &str, tail: &str) -> (r: String)
    ensures
        r@ == head@ + id@ + tail@,
{
    let a = concat(head, id);
    concat(a.as_str(), tail)
}

/// A run's counts match the results recorded so far.
pub open spec fn run_counts_consistent(r: TestRunView) -> bool {
    r.summary.passed + r.summary.failed + r.summary.skipped == r.tests.len()
}

/// A run after one more result is recorded.
pub open spec fn with_result(r: TestRunView, t: TestResult) -> TestRunView {
    TestRunView {
        tests: r.tests.push(t),
        summary: match t.status {
            TestResultStatus::Passed => TestSummary { passed: (r.summary.passed + 1) as usize, ..r.summary },
            TestResultStatus::Failed => TestSummary { failed: (r.summary.failed + 1) as usize, ..r.summary },
            TestResultStatus::Skipped => TestSummary { skipped: (r.summary.skipped + 1) as usize, ..r.summary },
        },
        ..r
    }
}

/// A run once completed: failed when any test failed, passed otherwise.
pub open spec fn completed(r: TestRunView, duration_ms: u64, completed_at: Seq<char>) -> TestRunView {
    TestRunView {
        status: if r.summary.failed > 0 {
            TestStatus::Failed
        } else {
            TestStatus::Passed
        },
        summary: TestSummary { duration_ms, ..r.summary },
        completed_at: Some(completed_at),
        ..r
    }
}

/// A fresh run of a suite with `total` tests.
pub open spec fn fresh_run(run_id: Seq<char>, suite_id: Seq<char>, total: nat, started_at: Seq<char>) -> TestRunView {
    TestRunView {
        run_id,
        suite_id,
        status: TestStatus::Running,
        tests: Seq::empty(),
        summary: TestSummary { total: total as usize, passed: 0, failed: 0, skipped: 0, duration_ms: 0 },
        started_at,
        completed_at: None,
    }
}

/// Test suites by id and test runs by run id.
pub struct TestRunnerRegistry {
    test_suites: Store<TestSuite>,
    test_results: Store<TestRunResult>,
}

impl TestRunnerRegistry {
    pub closed spec fn suites(&self) -> Seq<(Seq<char>, TestSuiteView)> {
        self.test_suites.entries()
    }

    pub closed spec fn runs(&self) -> Seq<(Seq<char>, TestRunView)> {
        self.test_results.entries()
    }

    pub open spec fn wf(&self) -> bool {
        &&& distinct_keys(self.suites())
        &&& distinct_keys(self.runs())
        &&& forall|i: int| 0 <= i < self.runs().len() ==> run_counts_consistent(#[trigger] self.runs()[i].1)
    }

    pub fn new() -> (r: Self)
        ensures
            r.wf(),
            r.suites().len() == 0,
            r.runs().len() == 0,
    {
        TestRunnerRegistry { test_suites: Store::new(), test_results: Store::new() }
    }

    /// Records a suite under its id, replacing one with the same id.
    pub fn register_test_suite(&mut self, suite: TestSuite) -> (r: Result<String, String>)
        requires
            old(self).wf(),
        ensures
            final(self).wf(),
            final(self).suites() == store_insert(old(self).suites(), suite@.id, suite@),
            final(self).runs() == old(self).runs(),
            r matches Ok(id) && id@ == suite@.id,
    {
        let id = suite.id.clone();
        let key = suite.id.clone();
        self.test_suites.insert(key, suite);
        Ok(id)
    }

    /// A copy of the suite with `suite_id`.
    pub fn get_test_suite(&self, suite_id: &str) -> (r: Result<TestSuite, String>)
        ensures
            match lookup(self.suites(), suite_id@) {
                Some(s) => r matches Ok(got) && got@ == s,
                None => r matches Err(m) && m@ == suite_missing_message(suite_id@),
            },
    {
        match self.test_suites.get(suite_id) {
            Some(s) => Ok(s),
            None => Err(quoted("Test suite '", suite_id, "' not found")),
        }
    }

    /// Copies of all suites.
    pub fn get_all_test_suites(&self) -> (r: Vec<TestSuite>)
        ensures
            views(r@) == values_of(self.suites()),
    {
        self.test_suites.values()
    }

    /// Copies of the suites of one extension.
    pub fn get_test_suites_by_extension(&self, extension_id: &str) -> (r: Vec<TestSuite>)
        ensures
            views(r@) == values_of(self.suites()).filter(
                |s: TestSuiteView| s.extension_id == extension_id@,
            ),
    {
        let all = self.test_suites.values();
        let ghost s = views(all@);
        let ghost p = |v: TestSuiteView| v.extension_id == extension_id@;
        let mut out: Vec<TestSuite> = Vec::new();
        let mut i: usize = 0;
        assert(s.take(0).filter(p) =~= Seq::<TestSuiteView>::empty()) by {
            reveal(Seq::filter);
        }
        while i < all.len()
            invariant
                i <= all@.len(),
                s == views(all@),
                p == (|v: TestSuiteView| v.extension_id == extension_id@),
                views(out@) == s.take(i as int).filter(p),
            decreases all@.len() - i,
        {
            proof {
                assert(s.take(i + 1) =~= s.take(i as int).push(s[i as int]));
                s.take(i as int).lemma_filter_push(s[i as int], p);
            }
            if str_eq(all[i].extension_id.as_str(), extension_id) {
                let c = all[i].duplicate();
                out.push(c);
                assert(views(out@) =~= s.take(i as int).filter(p).push(s[i as int]));
            }
            i = i + 1;
        }
        assert(s.take(i as int) =~= s);
        out
    }

    /// Starts a run of a suite at the time `started_at`, replacing a run with
    /// the same id; gives back the run to announce.
    pub fn start_test_run_at(&mut self, suite_id: &str, run_id: String, started_at: String) -> (r:
        Result<TestRunResult, String>)
        requires
            old(self).wf(),
        ensures
            final(self).wf(),
            final(self).suites() == old(self).suites(),
            match lookup(old(self).suites(), suite_id@) {
                Some(s) => {
                    let run = fresh_run(run_id@, suite_id@, s.tests.len(), started_at@);
                    &&& r matches Ok(got) && got@ == run
                    &&& final(self).runs() == store_insert(old(self).runs(), run_id@, run)
                },
                None => {
                    &&& r matches Err(m) && m@ == suite_missing_message(suite_id@)
                    &&& final(self).runs() == old(self).runs()
                },
            },
    {
        let suite = match self.test_suites.get_ref(suite_id) {
            Some(s) => s,
            None => {
                return Err(quoted("Test suite '", suite_id, "' not found"));
            },
        };
        let total = suite.tests.len();
        let result = TestRunResult {
            run_id: run_id.clone(),
            suite_id: owned(suite_id),
            status: TestStatus::Running,
            tests: Vec::new(),
            summary: TestSummary { total, passed: 0, failed: 0, skipped: 0, duration_ms: 0 },
            started_at,
            completed_at: None,
        };
        assert(result@.tests =~= Seq::<TestResult>::empty());
        let copy = result.duplicate();
        let ghost before = self.runs();
        let ghost rv = result@;
        self.test_results.insert(run_id, result);
        proof {
            lemma_runs_consistent_insert(before, rv.run_id, rv);
        }
        Ok(copy)
    }

    /// Starts a run of a suite now; as [`Self::start_test_run_at`], with the
    /// current time as its start.
    pub fn start_test_run(&mut self, suite_id: &str, run_id: String) -> (r: Result<(), String>)
        requires
            old(self).wf(),
        ensures
            final(self).wf(),
            final(self).suites() == old(self).suites(),
            match lookup(old(self).suites(), suite_id@) {
                Some(s) => r is Ok && exists|t: Seq<char>|
                    utc_rfc3339_shape(t) && final(self).runs() == store_insert(
                        old(self).runs(),
                        run_id@,
                        #[trigger] fresh_run(run_id@, suite_id@, s.tests.len(), t),
                    ),
                None => {
                    &&& r matches Err(m) && m@ == suite_missing_message(suite_id@)
                    &&& final(self).runs() == old(self).runs()
                },
            },
    {
        let now = now_rfc3339();
        let ghost t = now@;
        match self.start_test_run_at(suite_id, run_id, now) {
            Ok(_) => Ok(()),
            Err(e) => Err(e),
        }
    }

    /// Records one more test result in a run and counts it.
    pub fn update_test_result(&mut self, run_id: &str, test_result: TestResult) -> (r: Result<
        (),
        String,
    >)
        requires
            old(self).wf(),
        ensures
            final(self).wf(),
            final(self).suites() == old(self).suites(),
            match lookup(old(self).runs(), run_id@) {
                Some(run) => r is Ok && final(self).runs() == store_insert(
                    old(self).runs(),
                    run_id@,
                    with_result(run, test_result),
                ),
                None => {
                    &&& r matches Err(m) && m@ == run_missing_message(run_id@)
                    &&& final(self).runs() == old(self).runs()
                },
            },
    {
        let ghost before = self.runs();
        match self.test_results.get(run_id) {
            Some(run) => {
                proof {
                    crate::store::lemma_key_index_bounds(before, run_id@);
                    assert(run_counts_consistent(before[crate::store::key_index(before, run_id@)].1));
                }
                let mut run = run;
                let status = test_result.status;
                run.tests.push(test_result);
                let count = run.tests.len();
                assert(run.summary.passed + run.summary.failed + run.summary.skipped < count);
                match status {
                    TestResultStatus::Passed => {
                        run.summary.passed = run.summary.passed + 1;
                    },
                    TestResultStatus::Failed => {
                        run.summary.failed = run.summary.failed + 1;
                    },
                    TestResultStatus::Skipped => {
                        run.summary.skipped = run.summary.skipped + 1;
                    },
                }
                let ghost rv = run@;
                let key = owned(run_id);
                self.test_results.insert(key, run);
                proof {
                    lemma_runs_consistent_insert(before, run_id@, rv);
                }
                Ok(())
            },
            None => Err(quoted("Test run '", run_id, "' not found")),
        }
    }

    /// Completes a run at the time `completed_at`: failed when any test
    /// failed, passed otherwise.
    pub fn complete_test_run_at(&mut self, run_id: &str, duration_ms: u64, completed_at: String) -> (r:
        Result<(), String>)
        requires
            old(self).wf(),
        ensures
            final(self).wf(),
            final(self).suites() == old(self).suites(),
            match lookup(old(self).runs(), run_id@) {
                Some(run) => r is Ok && final(self).runs() == store_insert(
                    old(self).runs(),
                    run_id@,
                    completed(run, duration_ms, completed_at@),
                ),
                None => {
                    &&& r matches Err(m) && m@ == run_missing_message(run_id@)
                    &&& final(self).runs() == old(self).runs()
                },
            },
    {
        let ghost before = self.runs();
        match self.test_results.get(run_id) {
            Some(run) => {
                proof {
                    crate::store::lemma_key_index_bounds(before, run_id@);
                    assert(run_counts_consistent(before[crate::store::key_index(before, run_id@)].1));
                }
                let mut run = run;
                run.status = if run.summary.failed > 0 {
                    TestStatus::Failed
                } else {
                    TestStatus::Passed
                };
                run.summary.duration_ms = duration_ms;
                run.completed_at = Some(completed_at);
                let ghost rv = run@;
                let key = owned(run_id);
                self.test_results.insert(key, run);
                proof {
                    lemma_runs_consistent_insert(before, run_id@, rv);
                }
                Ok(())
            },
            None => Err(quoted("Test run '", run_id, "' not found")),
        }
    }

    /// Completes a run now; as [`Self::complete_test_run_at`], with the
    /// current time as its end.
    pub fn complete_test_run(&mut self, run_id: &str, duration_ms: u64) -> (r: Result<(), String>)
        requires
            old(self).wf(),
        ensures
            final(self).wf(),
            final(self).suites() == old(self).suites(),
            match lookup(old(self).runs(), run_id@) {
                Some(run) => r is Ok && exists|t: Seq<char>|
                    utc_rfc3339_shape(t) && final(self).runs() == store_insert(
                        old(self).runs(),
                        run_id@,
                        #[trigger] completed(run, duration_ms, t),
                    ),
                None => {
                    &&& r matches Err(m) && m@ == run_missing_message(run_id@)
                    &&& final(self).runs() == old(self).runs()
                },
            },
    {
        let now = now_rfc3339();
        let ghost t = now@;
        self.complete_test_run_at(run_id, duration_ms, now)
    }

    /// A copy of the run with `run_id`.
    pub fn get_test_run_result(&self, run_id: &str) -> (r: Result<TestRunResult, String>)
        ensures
            match lookup(self.runs(), run_id@) {
                Some(run) => r matches Ok(got) && got@ == run,
                None => r matches Err(m) && m@ == run_missing_message(run_id@),
            },
    {
        match self.test_results.get(run_id) {
            Some(run) => Ok(run),
            None => Err(quoted("Test run '", run_id, "' not found")),
        }
    }

    /// Copies of all runs.
    pub fn get_all_test_results(&self) -> (r: Vec<TestRunResult>)
        ensures
            views(r@) == values_of(self.runs()),
    {
        self.test_results.values()
    }

    /// Copies of the runs of one suite.
    pub fn get_test_results_by_suite(&self, suite_id: &str) -> (r: Vec<TestRunResult>)
        ensures
            views(r@) == values_of(self.runs()).filter(|v: TestRunView| v.suite_id == suite_id@),
    {
        let all = self.test_results.values();
        let ghost s = views(all@);
        let ghost p = |v: TestRunView| v.suite_id == suite_id@;
        let mut out: Vec<TestRunResult> = Vec::new();
        let mut i: usize = 0;
        assert(s.take(0).filter(p) =~= Seq::<TestRunView>::empty()) by {
            reveal(Seq::filter);
        }
        while i < all.len()
            invariant
                i <= all@.len(),
                s == views(all@),
                p == (|v: TestRunView| v.suite_id == suite_id@),
                views(out@) == s.take(i as int).filter(p),
            decreases all@.len() - i,
        {
            proof {
                assert(s.take(i + 1) =~= s.take(i as int).push(s[i as int]));
                s.take(i as int).lemma_filter_push(s[i as int], p);
            }
            if str_eq(all[i].suite_id.as_str(), suite_id) {
                let c = all[i].duplicate();
                out.push(c);
                assert(views(out@) =~= s.take(i as int).filter(p).push(s[i as int]));
            }
            i = i + 1;
        }
        assert(s.take(i as int) =~= s);
        out
    }

    /// Removes the suites of one extension.
    pub fn clear_test_data(&mut self, extension_id: &str)
        requires
            old(self).wf(),
        ensures
            final(self).wf(),
            final(self).runs() == old(self).runs(),
            final(self).suites() == old(self).suites().filter(
                |e: (Seq<char>, TestSuiteView)| e.1.extension_id != extension_id@,
            ),
    {
        let ghost before = self.suites();
        let ghost pred = |e: (Seq<char>, TestSuiteView)| e.1.extension_id != extension_id@;
        let n = self.test_suites.len();
        let mut keep: Vec<bool> = Vec::new();
        let mut i: usize = 0;
        while i < n
            invariant
                n == before.len(),
                before == self.suites(),
                i <= n,
                keep@.len() == i,
                pred == (|e: (Seq<char>, TestSuiteView)| e.1.extension_id != extension_id@),
                forall|k: int| 0 <= k < i ==> keep@[k] == pred(#[trigger] before[k]),
            decreases n - i,
        {
            let (_, s) = self.test_suites.entry_at(i);
            keep.push(!str_eq(s.extension_id.as_str(), extension_id));
            i = i + 1;
        }
        self.test_suites.retain_mask(&keep);
        proof {
            crate::store::lemma_filter_mask_is_filter(before, keep@, pred);
        }
    }

    /// Forgets every run.
    pub fn clear_all_results(&mut self)
        requires
            old(self).wf(),
        ensures
            final(self).wf(),
            final(self).suites() == old(self).suites(),
            final(self).runs().len() == 0,
    {
        self.test_results = Store::new();
    }
}

proof fn lemma_runs_consistent_insert(runs: Seq<(Seq<char>, TestRunView)>, key: Seq<char>, r: TestRunView)
    requires
        forall|i: int| 0 <= i < runs.len() ==> run_counts_consistent(#[trigger] runs[i].1),
        run_counts_consistent(r),
    ensures
        forall|i: int|
            0 <= i < store_insert(runs, key, r).len() ==> run_counts_consistent(
                #[trigger] store_insert(runs, key, r)[i].1,
            ),
{
    crate::store::lemma_key_index_bounds(runs, key);
    let after = store_insert(runs, key, r);
    assert forall|i: int| 0 <= i < after.len() implies run_counts_consistent(#[trigger] after[i].1) by {
        if i < runs.len() && i != crate::store::key_index(runs, key) {
            assert(after[i] == runs[i]);
        }
    }
}

/// Mathematical form of a [`ValidationIssue`].
pub struct IssueView {
    pub severity: Severity,
    pub message: Seq<char>,
    pub suggestion: Option<Seq<char>>,
}

impl View for ValidationIssue {
    type V = IssueView;

    open spec fn view(&self) -> IssueView {
        IssueView { severity: self.severity, message: self.message@, suggestion: opt_view(self.suggestion) }
    }
}

/// The deprecated APIs.
pub open spec fn is_deprecated_api_spec(api: Seq<char>) -> bool {
    api == "workspace.rootPath"@ || api == "window.onDidChangeActiveEditor"@
}

/// What replaces a deprecated API.
pub open spec fn api_replacement(api: Seq<char>) -> Option<Seq<char>> {
    if api == "workspace.rootPath"@ {
        Some("workspace.workspaceFolders"@)
    } else if api == "window.onDidChangeActiveEditor"@ {
        Some("window.onDidChangeActiveTextEditor"@)
    } else {
        None
    }
}

/// The APIs an extension of a type must use.
pub open spec fn required_apis(extension_type: Seq<char>) -> Seq<Seq<char>> {
    if extension_type == "language"@ {
        seq!["languages.registerHoverProvider"@, "languages.registerCompletionItemProvider"@]
    } else if extension_type == "debugger"@ {
        seq!["debug.registerDebugConfigurationProvider"@, "debug.registerDebugAdapterDescriptorFactory"@]
    } else {
        Seq::empty()
    }
}

/// A warning for each deprecated API used, in order of use.
pub open spec fn deprecation_issues(apis: Seq<String>) -> Seq<IssueView>
    decreases apis.len(),
{
    if apis.len() == 0 {
        Seq::empty()
    } else {
        let rest = deprecation_issues(apis.drop_last());
        let api = apis.last()@;
        if is_deprecated_api_spec(api) {
            rest.push(
                IssueView {
                    severity: Severity::Warning,
                    message: "Deprecated API used: "@ + api,
                    suggestion: api_replacement(api),
                },
            )
        } else {
            rest
        }
    }
}

/// `apis` holds a string equal to `api`.
pub open spec fn uses_api(apis: Seq<String>, api: Seq<char>) -> bool {
    exists|i: int| 0 <= i < apis.len() && (#[trigger] apis[i])@ == api
}

/// An error for each required API not used, in the order they are required.
pub open spec fn missing_issues(required: Seq<Seq<char>>, apis: Seq<String>, extension_type: Seq<char>) -> Seq<
    IssueView,
>
    decreases required.len(),
{
    if required.len() == 0 {
        Seq::empty()
    } else {
        let rest = missing_issues(required.drop_last(), apis, extension_type);
        let api = required.last();
        if uses_api(apis, api) {
            rest
        } else {
            rest.push(
                IssueView {
                    severity: Severity::Error,
                    message: "Required API not implemented: "@ + api,
                    suggestion: Some("Implement "@ + api + " for "@ + extension_type + " extensions"@),
                },
            )
        }
    }
}

fn is_deprecated_api(api: &str) -> (r: bool)
    ensures
        r == is_deprecated_api_spec(api@),
{
    str_eq(api, "workspace.rootPath") || str_eq(api, "window.onDidChangeActiveEditor")
}

fn get_api_replacement(api: &str) -> (r: Option<String>)
    ensures
        opt_view(r) == api_replacement(api@),
{
    if str_eq(api, "workspace.rootPath") {
        Some(owned("workspace.workspaceFolders"))
    } else if str_eq(api, "window.onDidChangeActiveEditor") {
        Some(owned("window.onDidChangeActiveTextEditor"))
    } else {
        None
    }
}

fn get_required_apis(extension_type: &str) -> (r: Vec<String>)
    ensures
        r@.map_values(|s: String| s@) == required_apis(extension_type@),
{
    let r = if str_eq(extension_type, "language") {
        vec![owned("languages.registerHoverProvider"), owned("languages.registerCompletionItemProvider")]
    } else if str_eq(extension_type, "debugger") {
        vec![
            owned("debug.registerDebugConfigurationProvider"),
            owned("debug.registerDebugAdapterDescriptorFactory"),
        ]
    } else {
        Vec::new()
    };
    assert(r@.map_values(|s: String| s@) =~= required_apis(extension_type@));
    r
}

fn contains_api(apis: &Vec<String>, api: &str) -> (r: bool)
    ensures
        r == uses_api(apis@, api@),
{
    let mut i: usize = 0;
    while i < apis.len()
        invariant
            i <= apis@.len(),
            forall|k: int| 0 <= k < i ==> (#[trigger] apis@[k])@ != api@,
        decreases apis@.len() - i,
    {
        if str_eq(apis[i].as_str(), api) {
            return true;
        }
        i = i + 1;
    }
    false
}

/// Checks an extension's API use: a warning for each deprecated API it
/// uses, an error for each API its type requires that it does not use; valid
/// when there is no error.
pub fn validate_api_usage(validation: &APIValidation) -> (r: ValidationResult)
    ensures
        r.issues@.map_values(|i: ValidationIssue| i@) == deprecation_issues(validation.apis_used@)
            + missing_issues(
            required_apis(validation.extension_type@),
            validation.apis_used@,
            validation.extension_type@,
        ),
        r.valid == (missing_issues(
            required_apis(validation.extension_type@),
            validation.apis_used@,
            validation.extension_type@,
        ).len() == 0),
{
    let apis = &validation.apis_used;
    let mut issues: Vec<ValidationIssue> = Vec::new();
    let mut i: usize = 0;
    while i < apis.len()
        invariant
            i <= apis@.len(),
            issues@.map_values(|x: ValidationIssue| x@) == deprecation_issues(apis@.take(i as int)),
        decreases apis@.len() - i,
    {
        assert(apis@.take(i + 1).drop_last() =~= apis@.take(i as int));
        let api = apis[i].as_str();
        if is_deprecated_api(api) {
            let issue = ValidationIssue {
                severity: Severity::Warning,
                message: concat("Deprecated API used: ", api),
                suggestion: get_api_replacement(api),
            };
            let ghost iv = issue@;
            issues.push(issue);
            assert(issues@.map_values(|x: ValidationIssue| x@) =~= deprecation_issues(apis@.take(i as int)).push(iv));
        }
        i = i + 1;
    }
    assert(apis@.take(i as int) =~= apis@);
    let ghost dep = deprecation_issues(apis@);
    let required = get_required_apis(validation.extension_type.as_str());
    let ghost req = required@.map_values(|s: String| s@);
    let ghost t = validation.extension_type@;
    let mut j: usize = 0;
    let mut errors: usize = 0;
    while j < required.len()
        invariant
            j <= required@.len(),
            req == required@.map_values(|s: String| s@),
            t == validation.extension_type@,
            apis == &validation.apis_used,
            issues@.map_values(|x: ValidationIssue| x@) == dep + missing_issues(req.take(j as int), apis@, t),
            errors == missing_issues(req.take(j as int), apis@, t).len(),
            errors <= j,
        decreases required@.len() - j,
    {
        assert(req.take(j + 1).drop_last() =~= req.take(j as int));
        assert(req.take(j + 1).last() == required@[j as int]@);
        let r = required[j].as_str();
        if !contains_api(apis, r) {
            let a = concat("Implement ", r);
            let b = concat(a.as_str(), " for ");
            let c = concat(b.as_str(), validation.extension_type.as_str());
            let issue = ValidationIssue {
                severity: Severity::Error,
                message: concat("Required API not implemented: ", r),
                suggestion: Some(concat(c.as_str(), " extensions")),
            };
            let ghost iv = issue@;
            let ghost m = missing_issues(req.take(j as int), apis@, t);
            let ghost prior = issues@.map_values(|x: ValidationIssue| x@);
            issues.push(issue);
            assert(issues@.map_values(|x: ValidationIssue| x@) =~= prior.push(iv));
            assert((dep + m).push(iv) =~= dep + m.push(iv));
            errors = errors + 1;
        }
        j = j + 1;
    }
    assert(req.take(j as int) =~= req);
    ValidationResult { valid: errors == 0, issues }
}

} // verus!
