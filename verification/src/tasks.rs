//! Task providers and the executions of their tasks.
use vstd::prelude::*;
use crate::store::{Duplicate, Store, views, duplicate_all, lookup, store_insert, store_remove, distinct_keys, values_of};
use crate::text::{clone_opt, clone_strings, concat, opt_view, str_eq};

verus! {

/// A source of tasks of one type, contributed by an extension.
pub struct TaskProvider {
    pub id: String,
    pub owner: String,
    pub task_type: String,
    pub tasks: Vec<TaskDefinition>,
}

/// Mathematical form of a [`TaskProvider`].
pub struct TaskProviderView {
    pub id: Seq<char>,
    pub owner: Seq<char>,
    pub task_type: Seq<char>,
    pub tasks: Seq<TaskDefinitionView>,
}

/// A task: a command with its arguments and how to run and present it.
pub struct TaskDefinition {
    pub name: String,
    pub task_type: String,
    pub command: String,
    pub args: Vec<String>,
    pub options: TaskOptions,
    pub problem_matchers: Vec<ProblemMatcher>,
    pub group: Option<TaskGroup>,
    pub presentation: TaskPresentation,
    pub run_options: RunOptions,
}

/// Mathematical form of a [`TaskDefinition`].
pub struct TaskDefinitionView {
    pub name: Seq<char>,
    pub task_type: Seq<char>,
    pub command: Seq<char>,
    pub args: Seq<String>,
    pub options: TaskOptionsView,
    pub problem_matchers: Seq<ProblemMatcher>,
    pub group: Option<TaskGroup>,
    pub presentation: TaskPresentation,
    pub run_options: RunOptions,
}

/// Where and with what environment a task runs.
pub struct TaskOptions {
    pub cwd: Option<String>,
    /// Environment variables, each name with its value.
    pub env: Vec<(String, String)>,
    pub shell: Option<ShellConfiguration>,
}

/// Mathematical form of [`TaskOptions`].
pub struct TaskOptionsView {
    pub cwd: Option<String>,
    pub env: Seq<(String, String)>,
    pub shell: Option<(String, Seq<String>)>,
}

/// The shell a task runs in.
pub struct ShellConfiguration {
    pub executable: String,
    pub args: Vec<String>,
}

/// How a task's output is scanned for problems.
pub struct ProblemMatcher {
    pub owner: String,
    pub pattern: ProblemPattern,
    pub severity: Option<String>,
    pub source: Option<String>,
    pub file_location: FileLocationKind,
    pub background: Option<BackgroundPattern>,
}

/// A regular expression and the groups holding each part of a problem.
pub struct ProblemPattern {
    pub regexp: String,
    pub file: Option<usize>,
    pub location: Option<usize>,
    pub line: Option<usize>,
    pub column: Option<usize>,
    pub end_line: Option<usize>,
    pub end_column: Option<usize>,
    pub message: usize,
    pub code: Option<usize>,
    pub severity: Option<usize>,
    /// Whether the pattern repeats over following lines.
    pub is_loop: bool,
}

/// How reported file names are resolved.
#[derive(Clone, Copy, Debug, PartialEq, Eq, Structural)]
pub enum FileLocationKind {
    Auto,
    Relative,
    Absolute,
}

/// Patterns marking the start and end of a background task's work.
pub struct BackgroundPattern {
    pub active_on_start: bool,
    pub begins_pattern: String,
    pub ends_pattern: String,
}

/// The group a task belongs to.
#[derive(Clone, Copy, Debug, PartialEq, Eq, Structural)]
pub struct TaskGroup {
    pub kind: TaskGroupKind,
    pub is_default: bool,
}

#[derive(Clone, Copy, Debug, PartialEq, Eq, Structural)]
pub enum TaskGroupKind {
    Build,
    Test,
    Clean,
}

/// How a task's terminal is shown.
pub struct TaskPresentation {
    pub reveal: RevealKind,
    pub echo: bool,
    pub focus: bool,
    pub panel: PanelKind,
    pub show_reuse_message: bool,
    pub clear: bool,
    pub group: Option<String>,
}

#[derive(Clone, Copy, Debug, PartialEq, Eq, Structural)]
pub enum RevealKind {
    Always,
    Silent,
    Never,
}

#[derive(Clone, Copy, Debug, PartialEq, Eq, Structural)]
pub enum PanelKind {
    Shared,
    Dedicated,
    New,
}

/// When and how often a task runs.
#[derive(Clone, Copy, Debug, PartialEq, Eq, Structural)]
pub struct RunOptions {
    pub run_on: RunOnKind,
    pub instance_limit: usize,
    pub reevaluate_on_rerun: bool,
}

#[derive(Clone, Copy, Debug, PartialEq, Eq, Structural)]
pub enum RunOnKind {
    Default,
    FolderOpen,
}

/// One run of a task.
pub struct TaskExecution {
    pub id: String,
    pub task: TaskDefinition,
    pub terminal_id: Option<String>,
    pub state: TaskExecutionState,
    pub exit_code: Option<i32>,
    pub started_at: String,
}

/// Mathematical form of a [`TaskExecution`].
pub struct TaskExecutionView {
    pub id: Seq<char>,
    pub task: TaskDefinitionView,
    pub terminal_id: Option<Seq<char>>,
    pub state: TaskExecutionState,
    pub exit_code: Option<i32>,
    pub started_at: Seq<char>,
}

#[derive(Clone, Copy, Debug, PartialEq, Eq, Structural)]
pub enum TaskExecutionState {
    Running,
    Completed,
    Failed,
    Cancelled,
}

impl View for ProblemPattern {
    type V = ProblemPattern;

    open spec fn view(&self) -> ProblemPattern {
        *self
    }
}

impl Duplicate for ProblemPattern {
    fn duplicate(&self) -> (r: Self) {
        ProblemPattern {
            regexp: self.regexp.clone(),
            file: self.file,
            location: self.location,
            line: self.line,
            column: self.column,
            end_line: self.end_line,
            end_column: self.end_column,
            message: self.message,
            code: self.code,
            severity: self.severity,
            is_loop: self.is_loop,
        }
    }
}

impl View for BackgroundPattern {
    type V = BackgroundPattern;

    open spec fn view(&self) -> BackgroundPattern {
        *self
    }
}

impl Duplicate for BackgroundPattern {
    fn duplicate(&self) -> (r: Self) {
        BackgroundPattern {
            active_on_start: self.active_on_start,
            begins_pattern: self.begins_pattern.clone(),
            ends_pattern: self.ends_pattern.clone(),
        }
    }
}

impl View for ProblemMatcher {
    type V = ProblemMatcher;

    open spec fn view(&self) -> ProblemMatcher {
        *self
    }
}

impl Duplicate for ProblemMatcher {
    fn duplicate(&self) -> (r: Self) {
        ProblemMatcher {
            owner: self.owner.clone(),
            pattern: self.pattern.duplicate(),
            severity: clone_opt(&self.severity),
            source: clone_opt(&self.source),
            file_location: self.file_location,
            background: match &self.background {
                Some(b) => Some(b.duplicate()),
                None => None,
            },
        }
    }
}

impl View for TaskPresentation {
    type V = TaskPresentation;

    open spec fn view(&self) -> TaskPresentation {
        *self
    }
}

impl Duplicate for TaskPresentation {
    fn duplicate(&self) -> (r: Self) {
        TaskPresentation {
            reveal: self.reveal,
            echo: self.echo,
            focus: self.focus,
            panel: self.panel,
            show_reuse_message: self.show_reuse_message,
            clear: self.clear,
            group: clone_opt(&self.group),
        }
    }
}

/// Copies of string pairs.
pub fn clone_pairs(v: &Vec<(String, String)>) -> (r: Vec<(String, String)>)
    ensures
        r@ == v@,
{
    let mut r: Vec<(String, String)> = Vec::new();
    let mut i: usize = 0;
    while i < v.len()
        invariant
            i <= v@.len(),
            r@ == v@.take(i as int),
        decreases v@.len() - i,
    {
        r.push((v[i].0.clone(), v[i].1.clone()));
        assert(v@.take(i as int).push(v@[i as int]) =~= v@.take(i + 1));
        i = i + 1;
    }
    assert(v@.take(v@.len() as int) =~= v@);
    r
}

impl View for TaskOptions {
    type V = TaskOptionsView;

    open spec fn view(&self) -> TaskOptionsView {
        TaskOptionsView {
            cwd: self.cwd,
            env: self.env@,
            shell: match self.shell {
                Some(s) => Some((s.executable, s.args@)),
                None => None,
            },
        }
    }
}

impl Duplicate for TaskOptions {
    fn duplicate(&self) -> (r: Self) {
        TaskOptions {
            cwd: clone_opt(&self.cwd),
            env: clone_pairs(&self.env),
            shell: match &self.shell {
                Some(s) => Some(
                    ShellConfiguration { executable: s.executable.clone(), args: clone_strings(&s.args) },
                ),
                None => None,
            },
        }
    }
}

impl View for TaskDefinition {
    type V = TaskDefinitionView;

    open spec fn view(&self) -> TaskDefinitionView {
        TaskDefinitionView {
            name: self.name@,
            task_type: self.task_type@,
            command: self.command@,
            args: self.args@,
            options: self.options@,
            problem_matchers: self.problem_matchers@,
            group: self.group,
            presentation: self.presentation,
            run_options: self.run_options,
        }
    }
}

impl Duplicate for TaskDefinition {
    fn duplicate(&self) -> (r: Self) {
        let matchers = duplicate_all(&self.problem_matchers);
        assert(matchers@ =~= self.problem_matchers@);
        TaskDefinition {
            name: self.name.clone(),
            task_type: self.task_type.clone(),
            command: self.command.clone(),
            args: clone_strings(&self.args),
            options: self.options.duplicate(),
            problem_matchers: matchers,
            group: self.group,
            presentation: self.presentation.duplicate(),
            run_options: self.run_options,
        }
    }
}

impl View for TaskProvider {
    type V = TaskProviderView;

    open spec fn view(&self) -> TaskProviderView {
        TaskProviderView {
            id: self.id@,
            owner: self.owner@,
            task_type: self.task_type@,
            tasks: views(self.tasks@),
        }
    }
}

impl Duplicate for TaskProvider {
    fn duplicate(&self) -> (r: Self) {
        let tasks = duplicate_all(&self.tasks);
        assert(views(tasks@) =~= views(self.tasks@));
        TaskProvider {
            id: self.id.clone(),
            owner: self.owner.clone(),
            task_type: self.task_type.clone(),
            tasks,
        }
    }
}

impl View for TaskExecution {
    type V = TaskExecutionView;

    open spec fn view(&self) -> TaskExecutionView {
        TaskExecutionView {
            id: self.id@,
            task: self.task@,
            terminal_id: opt_view(self.terminal_id),
            state: self.state,
            exit_code: self.exit_code,
            started_at: self.started_at@,
        }
    }
}

impl Duplicate for TaskExecution {
    fn duplicate(&self) -> (r: Self) {
        TaskExecution {
            id: self.id.clone(),
            task: self.task.duplicate(),
            terminal_id: clone_opt(&self.terminal_id),
            state: self.state,
            exit_code: self.exit_code,
            started_at: self.started_at.clone(),
        }
    }
}

} // verus!

verus! {

pub open spec fn provider_exists_message(id: Seq<char>) -> Seq<char> {
    "Task provider '"@ + id + "' already registered"@
}

pub open spec fn provider_missing_message(id: Seq<char>) -> Seq<char> {
    "Task provider '"@ + id + "' not found"@
}

pub open spec fn execution_missing_message(id: Seq<char>) -> Seq<char> {
    "Task execution '"@ + id + "' not found"@
}

fn quoted_message(head: &str, id: &str, tail: &str) -> (r: String)
    ensures
        r@ == head@ + id@ + tail@,
{
    let a = concat(head, id);
    concat(a.as_str(), tail)
}

/// Every entry is stored under its value's id.
pub open spec fn providers_keyed(p: Seq<(Seq<char>, TaskProviderView)>) -> bool {
    forall|i: int| 0 <= i < p.len() ==> (#[trigger] p[i]).0 == p[i].1.id
}

pub open spec fn executions_keyed(e: Seq<(Seq<char>, TaskExecutionView)>) -> bool {
    forall|i: int| 0 <= i < e.len() ==> (#[trigger] e[i]).0 == e[i].1.id
}

/// The condition "of type `t`".
pub open spec fn of_type(t: Seq<char>) -> spec_fn(TaskProviderView) -> bool {
    |p: TaskProviderView| p.task_type == t
}

/// An execution after an update of its state and exit code.
pub open spec fn updated(
    e: TaskExecutionView,
    state: TaskExecutionState,
    exit_code: Option<i32>,
) -> TaskExecutionView {
    TaskExecutionView { state, exit_code, ..e }
}

/// The state an execution ends in: completed on a zero exit code, failed otherwise.
pub open spec fn end_state(exit_code: i32) -> TaskExecutionState {
    if exit_code == 0 {
        TaskExecutionState::Completed
    } else {
        TaskExecutionState::Failed
    }
}

/// Task providers, each under a distinct id, and task executions by id.
pub struct TaskRegistry {
    providers: Store<TaskProvider>,
    task_executions: Store<TaskExecution>,
}

impl TaskRegistry {
    /// The providers, each under its id, in registration order.
    pub closed spec fn providers(&self) -> Seq<(Seq<char>, TaskProviderView)> {
        self.providers.entries()
    }

    /// The executions, each under its id, in the order they were started.
    pub closed spec fn executions(&self) -> Seq<(Seq<char>, TaskExecutionView)> {
        self.task_executions.entries()
    }

    pub open spec fn wf(&self) -> bool {
        &&& distinct_keys(self.providers())
        &&& providers_keyed(self.providers())
        &&& distinct_keys(self.executions())
        &&& executions_keyed(self.executions())
    }

    pub fn new() -> (r: Self)
        ensures
            r.wf(),
            r.providers().len() == 0,
            r.executions().len() == 0,
    {
        TaskRegistry { providers: Store::new(), task_executions: Store::new() }
    }

    /// Adds a provider under its id; refused when the id is taken.
    pub fn register_task_provider(&mut self, provider: TaskProvider) -> (r: Result<String, String>)
        requires
            old(self).wf(),
        ensures
            final(self).wf(),
            final(self).executions() == old(self).executions(),
            lookup(old(self).providers(), provider@.id) is Some ==> {
                &&& r matches Err(m) && m@ == provider_exists_message(provider@.id)
                &&& final(self).providers() == old(self).providers()
            },
            lookup(old(self).providers(), provider@.id) is None ==> {
                &&& r matches Ok(id) && id@ == provider@.id
                &&& final(self).providers() == old(self).providers().push((provider@.id, provider@))
            },
    {
        let ghost before = self.providers();
        let ghost pv = provider@;
        if self.providers.contains_key(provider.id.as_str()) {
            return Err(quoted_message("Task provider '", provider.id.as_str(), "' already registered"));
        }
        let id = provider.id.clone();
        let key = provider.id.clone();
        self.providers.insert(key, provider);
        proof {
            crate::store::lemma_key_index_bounds(before, pv.id);
            let after = self.providers();
            assert(after =~= before.push((pv.id, pv)));
            assert forall|i: int| 0 <= i < after.len() implies (#[trigger] after[i]).0 == after[i].1.id by {
                if i < before.len() {
                    assert(after[i] == before[i]);
                }
            }
        }
        Ok(id)
    }

    /// Removes the provider with `provider_id`.
    pub fn unregister_task_provider(&mut self, provider_id: &str) -> (r: Result<(), String>)
        requires
            old(self).wf(),
        ensures
            final(self).wf(),
            final(self).executions() == old(self).executions(),
            final(self).providers() == store_remove(old(self).providers(), provider_id@),
            lookup(old(self).providers(), provider_id@) is Some <==> r is Ok,
            r matches Err(m) ==> m@ == provider_missing_message(provider_id@),
    {
        let ghost before = self.providers();
        match self.providers.remove(provider_id) {
            Some(_) => {
                proof {
                    let after = self.providers();
                    let i = crate::store::key_index(before, provider_id@);
                    crate::store::lemma_key_index_bounds(before, provider_id@);
                    assert(i < before.len());
                    assert(after == before.remove(i));
                    assert forall|k: int| 0 <= k < after.len() implies (#[trigger] after[k]).0
                        == after[k].1.id by {
                        if k < i {
                            assert(after[k] == before[k]);
                        } else {
                            assert(after[k] == before[k + 1]);
                        }
                    }
                }
                Ok(())
            },
            None => Err(quoted_message("Task provider '", provider_id, "' not found")),
        }
    }

    /// Copies of all providers, in registration order.
    pub fn get_task_providers(&self) -> (r: Vec<TaskProvider>)
        ensures
            views(r@) == values_of(self.providers()),
    {
        self.providers.values()
    }

    /// Copies of the providers of `task_type`, in registration order.
    pub fn get_task_providers_by_type(&self, task_type: &str) -> (r: Vec<TaskProvider>)
        ensures
            views(r@) == values_of(self.providers()).filter(of_type(task_type@)),
    {
        let all = self.providers.values();
        let ghost s = views(all@);
        let ghost p = of_type(task_type@);
        let mut out: Vec<TaskProvider> = Vec::new();
        let mut i: usize = 0;
        assert(s.take(0).filter(p) =~= Seq::<TaskProviderView>::empty()) by {
            reveal(Seq::filter);
        }
        while i < all.len()
            invariant
                i <= all@.len(),
                s == views(all@),
                p == of_type(task_type@),
                views(out@) == s.take(i as int).filter(p),
            decreases all@.len() - i,
        {
            proof {
                assert(s.take(i + 1) =~= s.take(i as int).push(s[i as int]));
                s.take(i as int).lemma_filter_push(s[i as int], p);
            }
            if str_eq(all[i].task_type.as_str(), task_type) {
                let c = all[i].duplicate();
                out.push(c);
                assert(views(out@) =~= s.take(i as int).filter(p).push(s[i as int]));
            }
            i = i + 1;
        }
        assert(s.take(i as int) =~= s);
        out
    }

    /// A copy of the provider with `provider_id`.
    pub fn get_task_provider(&self, provider_id: &str) -> (r: Result<TaskProvider, String>)
        ensures
            match lookup(self.providers(), provider_id@) {
                Some(p) => r matches Ok(got) && got@ == p,
                None => r matches Err(m) && m@ == provider_missing_message(provider_id@),
            },
    {
        match self.providers.get(provider_id) {
            Some(p) => Ok(p),
            None => Err(quoted_message("Task provider '", provider_id, "' not found")),
        }
    }

    /// Records an execution under its id, replacing one with the same id.
    pub fn start_task_execution(&mut self, execution: TaskExecution) -> (r: Result<String, String>)
        requires
            old(self).wf(),
        ensures
            final(self).wf(),
            final(self).providers() == old(self).providers(),
            final(self).executions() == store_insert(
                old(self).executions(),
                execution@.id,
                execution@,
            ),
            r matches Ok(id) && id@ == execution@.id,
    {
        let ghost before = self.executions();
        let ghost ev = execution@;
        let id = execution.id.clone();
        let key = execution.id.clone();
        self.task_executions.insert(key, execution);
        proof {
            lemma_executions_keyed_insert(before, ev);
        }
        Ok(id)
    }

    fn set_execution(&mut self, execution_id: &str, state: TaskExecutionState, exit_code: Option<i32>) -> (r: Result<(), String>)
        requires
            old(self).wf(),
        ensures
            final(self).wf(),
            final(self).providers() == old(self).providers(),
            match lookup(old(self).executions(), execution_id@) {
                Some(e) => r is Ok && final(self).executions() == store_insert(
                    old(self).executions(),
                    execution_id@,
                    updated(e, state, exit_code),
                ),
                None => r matches Err(m) && m@ == execution_missing_message(execution_id@)
                    && final(self).executions() == old(self).executions(),
            },
    {
        let ghost before = self.executions();
        match self.task_executions.get(execution_id) {
            Some(e) => {
                let mut e = e;
                e.state = state;
                e.exit_code = exit_code;
                let ghost ev = e@;
                let key = e.id.clone();
                proof {
                    crate::store::lemma_key_index_bounds(before, execution_id@);
                }
                self.task_executions.insert(key, e);
                proof {
                    lemma_executions_keyed_insert(before, ev);
                }
                Ok(())
            },
            None => Err(quoted_message("Task execution '", execution_id, "' not found")),
        }
    }

    /// Sets the state and exit code of an execution.
    pub fn update_task_execution(
        &mut self,
        execution_id: &str,
        state: TaskExecutionState,
        exit_code: Option<i32>,
    ) -> (r: Result<(), String>)
        requires
            old(self).wf(),
        ensures
            final(self).wf(),
            final(self).providers() == old(self).providers(),
            match lookup(old(self).executions(), execution_id@) {
                Some(e) => r is Ok && final(self).executions() == store_insert(
                    old(self).executions(),
                    execution_id@,
                    updated(e, state, exit_code),
                ),
                None => r matches Err(m) && m@ == execution_missing_message(execution_id@)
                    && final(self).executions() == old(self).executions(),
            },
    {
        self.set_execution(execution_id, state, exit_code)
    }

    /// Ends an execution with `exit_code`: completed when it is zero, failed otherwise.
    pub fn end_task_execution(&mut self, execution_id: &str, exit_code: i32) -> (r: Result<
        (),
        String,
    >)
        requires
            old(self).wf(),
        ensures
            final(self).wf(),
            final(self).providers() == old(self).providers(),
            match lookup(old(self).executions(), execution_id@) {
                Some(e) => r is Ok && final(self).executions() == store_insert(
                    old(self).executions(),
                    execution_id@,
                    updated(e, end_state(exit_code), Some(exit_code)),
                ),
                None => r matches Err(m) && m@ == execution_missing_message(execution_id@)
                    && final(self).executions() == old(self).executions(),
            },
    {
        let state = if exit_code == 0 {
            TaskExecutionState::Completed
        } else {
            TaskExecutionState::Failed
        };
        self.set_execution(execution_id, state, Some(exit_code))
    }

    /// A copy of the execution with `execution_id`.
    pub fn get_task_execution(&self, execution_id: &str) -> (r: Result<TaskExecution, String>)
        ensures
            match lookup(self.executions(), execution_id@) {
                Some(e) => r matches Ok(got) && got@ == e,
                None => r matches Err(m) && m@ == execution_missing_message(execution_id@),
            },
    {
        match self.task_executions.get(execution_id) {
            Some(e) => Ok(e),
            None => Err(quoted_message("Task execution '", execution_id, "' not found")),
        }
    }

    /// Copies of all executions.
    pub fn get_all_task_executions(&self) -> (r: Vec<TaskExecution>)
        ensures
            views(r@) == values_of(self.executions()),
    {
        self.task_executions.values()
    }

    /// Forgets every execution.
    pub fn clear_task_executions(&mut self)
        requires
            old(self).wf(),
        ensures
            final(self).wf(),
            final(self).providers() == old(self).providers(),
            final(self).executions().len() == 0,
    {
        self.task_executions = Store::new();
    }

    /// Removes the providers contributed by `owner`.
    pub fn clear_task_data(&mut self, owner: &str)
        requires
            old(self).wf(),
        ensures
            final(self).wf(),
            final(self).executions() == old(self).executions(),
            final(self).providers() == old(self).providers().filter(
                |e: (Seq<char>, TaskProviderView)| e.1.owner != owner@,
            ),
    {
        let ghost before = self.providers();
        let ghost pred = |e: (Seq<char>, TaskProviderView)| e.1.owner != owner@;
        let n = self.providers.len();
        let mut keep: Vec<bool> = Vec::new();
        let mut i: usize = 0;
        while i < n
            invariant
                n == before.len(),
                before == self.providers(),
                i <= n,
                keep@.len() == i,
                pred == (|e: (Seq<char>, TaskProviderView)| e.1.owner != owner@),
                forall|k: int| 0 <= k < i ==> keep@[k] == pred(#[trigger] before[k]),
            decreases n - i,
        {
            let (_, p) = self.providers.entry_at(i);
            keep.push(!str_eq(p.owner.as_str(), owner));
            i = i + 1;
        }
        self.providers.retain_mask(&keep);
        proof {
            crate::store::lemma_filter_mask_is_filter(before, keep@, pred);
            let after = self.providers();
            broadcast use vstd::seq_lib::group_filter_ensures;
            assert forall|k: int| 0 <= k < after.len() implies (#[trigger] after[k]).0
                == after[k].1.id by {
                assert(before.filter(pred).contains(after[k]));
                before.lemma_filter_contains_rev(pred, after[k]);
            }
        }
    }
}

proof fn lemma_executions_keyed_insert(e: Seq<(Seq<char>, TaskExecutionView)>, x: TaskExecutionView)
    requires
        executions_keyed(e),
    ensures
        executions_keyed(store_insert(e, x.id, x)),
{
    crate::store::lemma_key_index_bounds(e, x.id);
    let after = store_insert(e, x.id, x);
    assert forall|i: int| 0 <= i < after.len() implies (#[trigger] after[i]).0 == after[i].1.id by {
        if i < e.len() && i != crate::store::key_index(e, x.id) {
            assert(after[i] == e[i]);
        }
    }
}

/// A provider can be fetched by its id once registered, and is gone once
/// unregistered.
pub proof fn lemma_provider_register_unregister(
    providers: Seq<(Seq<char>, TaskProviderView)>,
    p: TaskProviderView,
)
    requires
        distinct_keys(providers),
        lookup(providers, p.id) is None,
    ensures
        lookup(providers.push((p.id, p)), p.id) == Some(p),
        lookup(store_remove(providers.push((p.id, p)), p.id), p.id) is None,
{
    crate::store::lemma_key_index_bounds(providers, p.id);
    assert(store_insert(providers, p.id, p) == providers.push((p.id, p)));
    crate::store::lemma_lookup_insert(providers, p.id, p, p.id);
    let pushed = providers.push((p.id, p));
    assert(distinct_keys(pushed)) by {
        assert forall|i: int, j: int|
            0 <= i < pushed.len() && 0 <= j < pushed.len() && i != j implies pushed[i].0
            != pushed[j].0 by {
            if i < providers.len() && j < providers.len() {
            } else if i == providers.len() {
                assert(providers[j].0 != p.id);
            } else {
                assert(providers[i].0 != p.id);
            }
        }
    }
    crate::store::lemma_lookup_remove(pushed, p.id, p.id);
}

} // verus!
