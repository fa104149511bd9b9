//! Validation of the paths and branch names handed to git operations, and
//! the reading of git status flags.
use vstd::prelude::*;
use vstd::string::StrSliceExecFns;
use crate::text::{chars_of, concat, contains, contains_char, ends_with, owned, push_char, contains_spec, ends_with_spec};

verus! {

/// Git operation errors.
pub enum GitError {
    /// The repository could not be opened; holds the git library's message.
    NotARepository(String),
    InvalidPath { reason: String },
    IdentityNotConfigured,
    TaskFailed(String),
    OperationFailed(String),
}

impl GitError {
    /// The error's message, as shown to the user.
    pub fn message(&self) -> (r: String)
        ensures
            r@ == git_error_message(*self),
    {
        match self {
            GitError::NotARepository(m) => concat("Not a git repository: ", m.as_str()),
            GitError::InvalidPath { reason } => concat("Invalid file path: ", reason.as_str()),
            GitError::IdentityNotConfigured => owned(
                "Git identity not configured. Please run: git config --global user.name \"Your Name\" && git config --global user.email \"your@email.com\"",
            ),
            GitError::TaskFailed(m) => concat("Task execution failed: ", m.as_str()),
            GitError::OperationFailed(m) => concat("Operation failed: ", m.as_str()),
        }
    }
}

pub open spec fn git_error_message(e: GitError) -> Seq<char> {
    match e {
        GitError::NotARepository(m) => "Not a git repository: "@ + m@,
        GitError::InvalidPath { reason } => "Invalid file path: "@ + reason@,
        GitError::IdentityNotConfigured =>
            "Git identity not configured. Please run: git config --global user.name \"Your Name\" && git config --global user.email \"your@email.com\""@,
        GitError::TaskFailed(m) => "Task execution failed: "@ + m@,
        GitError::OperationFailed(m) => "Operation failed: "@ + m@,
    }
}

/// `s[i..j]` is a whole `/`-separated segment of `s`.
pub open spec fn is_segment(s: Seq<char>, i: int, j: int) -> bool {
    &&& 0 <= i <= j <= s.len()
    &&& (i == 0 || s[i - 1] == '/')
    &&& (j == s.len() || s[j] == '/')
    &&& forall|k: int| i <= k < j ==> s[k] != '/'
}

/// Some segment of the path is `..`.
pub open spec fn has_parent_segment(s: Seq<char>) -> bool {
    exists|i: int| #[trigger] is_segment(s, i, i + 2) && s[i] == '.' && s[i + 1] == '.'
}

/// Why a relative file path handed to git is refused, if it is.
pub open spec fn file_path_problem(s: Seq<char>) -> Option<Seq<char>> {
    if s.len() > 0 && s[0] == '/' {
        Some("Absolute paths are not allowed"@)
    } else if has_parent_segment(s) {
        Some("Path traversal (..) is not allowed"@)
    } else if s.len() == 0 {
        Some("Empty path is not allowed"@)
    } else {
        None
    }
}

/// Whether `p` is a `..` segment starting at `i`.
fn parent_segment_at(cs: &[char], i: usize) -> (r: bool)
    requires
        i < cs@.len(),
    ensures
        r == (is_segment(cs@, i as int, i + 2) && cs@[i as int] == '.' && cs@[i + 1] == '.'),
{
    if cs.len() - i < 2 {
        return false;
    }
    (i == 0 || cs[i - 1] == '/') && cs[i] == '.' && cs[i + 1] == '.' && (i + 2 == cs.len() || cs[i
        + 2] == '/')
}

/// Validates that a file path is safe: relative, without `..` segments, not empty.
pub fn validate_file_path(file_path: &str) -> (r: Result<(), GitError>)
    ensures
        match file_path_problem(file_path@) {
            None => r is Ok,
            Some(reason) => r matches Err(GitError::InvalidPath { reason: got }) && got@ == reason,
        },
{
    let cs = chars_of(file_path);
    if cs.len() > 0 && cs[0] == '/' {
        return Err(GitError::InvalidPath { reason: owned("Absolute paths are not allowed") });
    }
    let mut i: usize = 0;
    while i < cs.len()
        invariant
            cs@ == file_path@,
            !(cs@.len() > 0 && cs@[0] == '/'),
            i <= cs@.len(),
            forall|k: int|
                0 <= k < i ==> !(#[trigger] is_segment(cs@, k, k + 2) && cs@[k] == '.' && cs@[k
                    + 1] == '.'),
        decreases cs@.len() - i,
    {
        if parent_segment_at(&cs, i) {
            assert(is_segment(file_path@, i as int, i + 2));
            assert(has_parent_segment(file_path@));
            return Err(GitError::InvalidPath { reason: owned("Path traversal (..) is not allowed") });
        }
        i = i + 1;
    }
    assert(!has_parent_segment(file_path@)) by {
        assert forall|k: int| !(#[trigger] is_segment(cs@, k, k + 2) && cs@[k] == '.' && cs@[k + 1]
            == '.') by {
            if 0 <= k < cs@.len() {
            }
        }
    }
    if cs.len() == 0 {
        return Err(GitError::InvalidPath { reason: owned("Empty path is not allowed") });
    }
    Ok(())
}


/// A Unicode control character (general category Cc), as `char::is_control` decides.
pub open spec fn is_control_char(c: char) -> bool {
    (c as u32) <= 0x1f || (0x7f <= (c as u32) && (c as u32) <= 0x9f)
}

/// Characters git refuses in branch names, in the order they are checked.
pub open spec fn forbidden_branch_chars() -> Seq<char> {
    seq![' ', '~', '^', ':', '?', '*', '[', '\\', '\x7f']
}

/// The first forbidden character, from position `k` of the list on, that `s` holds.
pub open spec fn first_forbidden_from(s: Seq<char>, k: int) -> Option<char>
    decreases 9 - k,
{
    if k < 0 || k >= 9 {
        None
    } else if s.contains(forbidden_branch_chars()[k]) {
        Some(forbidden_branch_chars()[k])
    } else {
        first_forbidden_from(s, k + 1)
    }
}

/// Why a branch name is refused, if it is.
pub open spec fn branch_name_problem(s: Seq<char>) -> Option<Seq<char>> {
    if s.len() == 0 {
        Some("Branch name cannot be empty"@)
    } else if s[0] == '-' {
        Some("Branch name cannot start with '-'"@)
    } else if ends_with_spec(s, ".lock"@) {
        Some("Branch name cannot end with '.lock'"@)
    } else if contains_spec(s, ".."@) {
        Some("Branch name cannot contain '..'"@)
    } else if let Some(c) = first_forbidden_from(s, 0) {
        Some("Branch name cannot contain '"@.push(c) + "'"@)
    } else if exists|i: int| 0 <= i < s.len() && is_control_char(#[trigger] s[i]) {
        Some("Branch name cannot contain control characters"@)
    } else {
        None
    }
}

fn forbidden_char(k: usize) -> (c: char)
    requires
        k < 9,
    ensures
        c == forbidden_branch_chars()[k as int],
{
    let cs: [char; 9] = [' ', '~', '^', ':', '?', '*', '[', '\\', '\x7f'];
    assert(cs@ =~= forbidden_branch_chars());
    cs[k]
}

fn is_control(c: char) -> (r: bool)
    ensures
        r == is_control_char(c),
{
    let n = c as u32;
    n <= 0x1f || (0x7f <= n && n <= 0x9f)
}

fn invalid_branch(reason: String) -> (r: Result<(), GitError>)
    ensures
        r matches Err(GitError::InvalidPath { reason: got }) && got@ == reason@,
{
    Err(GitError::InvalidPath { reason })
}

/// Validates a branch name before it reaches git.
pub fn validate_branch_name(name: &str) -> (r: Result<(), GitError>)
    ensures
        match branch_name_problem(name@) {
            None => r is Ok,
            Some(reason) => r matches Err(GitError::InvalidPath { reason: got }) && got@ == reason,
        },
{
    let cs = chars_of(name);
    if cs.len() == 0 {
        return invalid_branch(owned("Branch name cannot be empty"));
    }
    if cs[0] == '-' {
        return invalid_branch(owned("Branch name cannot start with '-'"));
    }
    if ends_with(name, ".lock") {
        return invalid_branch(owned("Branch name cannot end with '.lock'"));
    }
    if contains(name, "..") {
        return invalid_branch(owned("Branch name cannot contain '..'"));
    }
    let mut k: usize = 0;
    while k < 9
        invariant
            k <= 9,
            name@.len() > 0 && name@[0] != '-' && !ends_with_spec(name@, ".lock"@) && !contains_spec(name@, ".."@),
            first_forbidden_from(name@, 0) == first_forbidden_from(name@, k as int),
        decreases 9 - k,
    {
        let ch = forbidden_char(k);
        if contains_char(name, ch) {
            let mut msg = owned("Branch name cannot contain '");
            push_char(&mut msg, ch);
            let full = concat(msg.as_str(), "'");
            return invalid_branch(full);
        }
        k = k + 1;
    }
    assert(first_forbidden_from(name@, 0) is None);
    let mut i: usize = 0;
    while i < cs.len()
        invariant
            cs@ == name@,
            name@.len() > 0 && name@[0] != '-' && !ends_with_spec(name@, ".lock"@) && !contains_spec(name@, ".."@),
            first_forbidden_from(name@, 0) is None,
            i <= cs@.len(),
            forall|j: int| 0 <= j < i ==> !is_control_char(#[trigger] cs@[j]),
        decreases cs@.len() - i,
    {
        if is_control(cs[i]) {
            return invalid_branch(owned("Branch name cannot contain control characters"));
        }
        i = i + 1;
    }
    Ok(())
}

} // verus!

verus! {

pub const STATUS_INDEX_NEW: u32 = 1;
pub const STATUS_INDEX_MODIFIED: u32 = 2;
pub const STATUS_INDEX_DELETED: u32 = 4;
pub const STATUS_INDEX_RENAMED: u32 = 8;
pub const STATUS_INDEX_TYPECHANGE: u32 = 16;
pub const STATUS_WT_NEW: u32 = 128;
pub const STATUS_WT_MODIFIED: u32 = 256;
pub const STATUS_WT_DELETED: u32 = 512;
pub const STATUS_WT_RENAMED: u32 = 2048;
pub const STATUS_CONFLICTED: u32 = 32768;

/// The status flags hold `flag`.
pub open spec fn has_flag(bits: u32, flag: u32) -> bool {
    bits & flag == flag
}

/// How a file's status is shown: the first kind of change its flags show.
pub open spec fn status_label(bits: u32) -> Seq<char> {
    if has_flag(bits, STATUS_INDEX_NEW) || has_flag(bits, STATUS_WT_NEW) {
        "added"@
    } else if has_flag(bits, STATUS_INDEX_MODIFIED) || has_flag(bits, STATUS_WT_MODIFIED) {
        "modified"@
    } else if has_flag(bits, STATUS_INDEX_DELETED) || has_flag(bits, STATUS_WT_DELETED) {
        "deleted"@
    } else if has_flag(bits, STATUS_INDEX_RENAMED) || has_flag(bits, STATUS_WT_RENAMED) {
        "renamed"@
    } else if has_flag(bits, STATUS_CONFLICTED) {
        "conflicted"@
    } else {
        Seq::empty()
    }
}

/// The label of a file's git status, from its raw status flags.
pub fn get_status_string(bits: u32) -> (r: String)
    ensures
        r@ == status_label(bits),
{
    if bits & STATUS_INDEX_NEW == STATUS_INDEX_NEW || bits & STATUS_WT_NEW == STATUS_WT_NEW {
        owned("added")
    } else if bits & STATUS_INDEX_MODIFIED == STATUS_INDEX_MODIFIED || bits & STATUS_WT_MODIFIED
        == STATUS_WT_MODIFIED {
        owned("modified")
    } else if bits & STATUS_INDEX_DELETED == STATUS_INDEX_DELETED || bits & STATUS_WT_DELETED
        == STATUS_WT_DELETED {
        owned("deleted")
    } else if bits & STATUS_INDEX_RENAMED == STATUS_INDEX_RENAMED || bits & STATUS_WT_RENAMED
        == STATUS_WT_RENAMED {
        owned("renamed")
    } else if bits & STATUS_CONFLICTED == STATUS_CONFLICTED {
        owned("conflicted")
    } else {
        String::new()
    }
}

/// Whether the flags show a change recorded in the index.
pub fn is_staged(bits: u32) -> (r: bool)
    ensures
        r == (has_flag(bits, STATUS_INDEX_NEW) || has_flag(bits, STATUS_INDEX_MODIFIED) || has_flag(
            bits,
            STATUS_INDEX_DELETED,
        ) || has_flag(bits, STATUS_INDEX_RENAMED) || has_flag(bits, STATUS_INDEX_TYPECHANGE)),
{
    bits & STATUS_INDEX_NEW == STATUS_INDEX_NEW || bits & STATUS_INDEX_MODIFIED
        == STATUS_INDEX_MODIFIED || bits & STATUS_INDEX_DELETED == STATUS_INDEX_DELETED || bits
        & STATUS_INDEX_RENAMED == STATUS_INDEX_RENAMED || bits & STATUS_INDEX_TYPECHANGE
        == STATUS_INDEX_TYPECHANGE
}

/// The state of a working tree: its branch, its changed files, and how far
/// it is ahead of and behind its upstream.
pub struct GitStatus {
    pub branch: String,
    pub changes: Vec<GitChange>,
    pub ahead: usize,
    pub behind: usize,
}

/// A changed file and the kind of its change.
pub struct GitChange {
    pub path: String,
    pub status: String,
    pub staged: bool,
}

/// The patch of one file and its line counts.
pub struct FileDiff {
    pub old_path: String,
    pub new_path: String,
    pub diff_text: String,
    pub additions: usize,
    pub deletions: usize,
}

pub struct GitBranch {
    pub name: String,
    pub is_head: bool,
    pub is_remote: bool,
}

pub struct GitStash {
    pub index: usize,
    pub message: String,
    pub oid: String,
}

pub struct GitCommit {
    pub id: String,
    pub author: String,
    pub email: String,
    pub message: String,
    pub timestamp: i64,
    pub parent_ids: Vec<String>,
}

/// The changes listed for files with raw status flags: each file whose flags
/// have a label, with that label and whether it is staged, in order.
pub open spec fn changes_spec(entries: Seq<(String, u32)>) -> Seq<(Seq<char>, Seq<char>, bool)>
    decreases entries.len(),
{
    if entries.len() == 0 {
        Seq::empty()
    } else {
        let rest = changes_spec(entries.drop_last());
        let (path, bits) = entries.last();
        if status_label(bits).len() > 0 {
            rest.push(
                (
                    path@,
                    status_label(bits),
                    has_flag(bits, STATUS_INDEX_NEW) || has_flag(bits, STATUS_INDEX_MODIFIED)
                        || has_flag(bits, STATUS_INDEX_DELETED) || has_flag(bits, STATUS_INDEX_RENAMED)
                        || has_flag(bits, STATUS_INDEX_TYPECHANGE),
                ),
            )
        } else {
            rest
        }
    }
}

/// The changes of a status listing: files with a label, in order.
pub fn collect_changes(entries: &Vec<(String, u32)>) -> (r: Vec<GitChange>)
    ensures
        r@.map_values(|c: GitChange| (c.path@, c.status@, c.staged)) == changes_spec(entries@),
{
    let mut out: Vec<GitChange> = Vec::new();
    let mut i: usize = 0;
    while i < entries.len()
        invariant
            i <= entries@.len(),
            out@.map_values(|c: GitChange| (c.path@, c.status@, c.staged)) == changes_spec(
                entries@.take(i as int),
            ),
        decreases entries@.len() - i,
    {
        assert(entries@.take(i + 1).drop_last() =~= entries@.take(i as int));
        let label = get_status_string(entries[i].1);
        if label.as_str().unicode_len() > 0 {
            let c = GitChange { path: entries[i].0.clone(), status: label, staged: is_staged(entries[i].1) };
            let ghost cv = (c.path@, c.status@, c.staged);
            let ghost prior = out@.map_values(|c: GitChange| (c.path@, c.status@, c.staged));
            out.push(c);
            assert(out@.map_values(|c: GitChange| (c.path@, c.status@, c.staged)) =~= prior.push(cv));
        }
        i = i + 1;
    }
    assert(entries@.take(i as int) =~= entries@);
    out
}

/// The reference a branch is pushed to.
pub fn head_refspec(branch_name: &str) -> (r: String)
    ensures
        r@ == "refs/heads/"@ + branch_name@,
{
    concat("refs/heads/", branch_name)
}

/// What a push reports.
pub fn push_message(branch_name: &str) -> (r: String)
    ensures
        r@ == "Pushed to origin/"@ + branch_name@,
{
    concat("Pushed to origin/", branch_name)
}


/// What a pull does once the fetched head has been compared with the local one.
pub enum PullAction {
    UpToDate,
    FastForward,
    MergeRequired,
}

/// The action for a merge analysis: nothing when the branch is up to date, a
/// fast-forward when one is possible, otherwise a merge.
pub fn pull_action(up_to_date: bool, fast_forward: bool) -> (r: PullAction)
    ensures
        r == (if up_to_date {
            PullAction::UpToDate
        } else if fast_forward {
            PullAction::FastForward
        } else {
            PullAction::MergeRequired
        }),
{
    if up_to_date {
        PullAction::UpToDate
    } else if fast_forward {
        PullAction::FastForward
    } else {
        PullAction::MergeRequired
    }
}

/// What a pull reports once its action is done; a merge is not carried out.
pub fn pull_report(action: &PullAction) -> (r: Result<String, GitError>)
    ensures
        match *action {
            PullAction::UpToDate => r matches Ok(m) && m@ == "Already up to date"@,
            PullAction::FastForward => r matches Ok(m) && m@ == "Fast-forwarded"@,
            PullAction::MergeRequired => r matches Err(GitError::OperationFailed(m)) && m@
                == "Merge required - not yet implemented"@,
        },
{
    match action {
        PullAction::UpToDate => Ok(owned("Already up to date")),
        PullAction::FastForward => Ok(owned("Fast-forwarded")),
        PullAction::MergeRequired => Err(
            GitError::OperationFailed(owned("Merge required - not yet implemented")),
        ),
    }
}

/// The local branch a fast-forward moves: the one HEAD names, `master` where
/// HEAD has no short name.
pub fn fast_forward_ref(head_shorthand: Option<&str>) -> (r: String)
    ensures
        r@ == "refs/heads/"@ + match head_shorthand {
            Some(s) => s@,
            None => "master"@,
        },
{
    match head_shorthand {
        Some(s) => concat("refs/heads/", s),
        None => concat("refs/heads/", "master"),
    }
}

/// The message a stash is saved under.
pub fn stash_message(message: Option<&str>) -> (r: String)
    ensures
        r@ == match message {
            Some(m) => m@,
            None => "WIP on stash"@,
        },
{
    match message {
        Some(m) => owned(m),
        None => owned("WIP on stash"),
    }
}

/// How many commits a log lists: the limit asked for, else one hundred.
pub fn log_limit(limit: Option<usize>) -> (r: usize)
    ensures
        r == match limit {
            Some(n) => n,
            None => 100,
        },
{
    match limit {
        Some(n) => n,
        None => 100,
    }
}

/// A commit of the log, with an unknown author and an empty email or message
/// where the commit has none that reads as text.
pub fn commit_entry(
    id: String,
    author: Option<&str>,
    email: Option<&str>,
    message: Option<&str>,
    timestamp: i64,
    parent_ids: Vec<String>,
) -> (r: GitCommit)
    ensures
        r.id@ == id@,
        r.author@ == match author {
            Some(a) => a@,
            None => "Unknown"@,
        },
        r.email@ == match email {
            Some(e) => e@,
            None => Seq::<char>::empty(),
        },
        r.message@ == match message {
            Some(m) => m@,
            None => Seq::<char>::empty(),
        },
        r.timestamp == timestamp,
        r.parent_ids@ == parent_ids@,
{
    let author = match author {
        Some(a) => owned(a),
        None => owned("Unknown"),
    };
    let email = match email {
        Some(e) => owned(e),
        None => String::new(),
    };
    let message = match message {
        Some(m) => owned(m),
        None => String::new(),
    };
    GitCommit { id, author, email, message, timestamp, parent_ids }
}

} // verus!
