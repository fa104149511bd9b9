//! Applying a workspace edit, one file operation after another: the
//! decisions, as a step from where the edit stands and what the last request
//! gave back to the next request. The caller does the file work.
use vstd::prelude::*;
use crate::filesystem::{
    edit_change_events, edit_changes, exists_message, not_found_message, plan_create_file, plan_delete_file,
    plan_rename_file, CreateFileOptions, DeleteFileOptions, FileChangeEvent, FileEdit, RenameFileOptions,
};

verus! {

/// What a create operation does, given whether its file exists: create it
/// (`true`), skip it (`false`), or refuse.
pub open spec fn create_plan(uri: Seq<char>, exists: bool, options: Option<CreateFileOptions>) -> Result<bool, Seq<char>> {
    if !exists {
        Ok(true)
    } else {
        match options {
            Some(o) => if o.ignore_if_exists {
                Ok(false)
            } else if o.overwrite {
                Ok(true)
            } else {
                Err(exists_message(uri))
            },
            None => Err(exists_message(uri)),
        }
    }
}

/// What a delete operation does, given whether its file exists: delete it
/// (recursively or not), skip it (`None`), or refuse.
pub open spec fn delete_plan(uri: Seq<char>, exists: bool, options: Option<DeleteFileOptions>) -> Result<Option<bool>, Seq<char>> {
    if exists {
        Ok(Some(match options {
            Some(o) => o.recursive,
            None => false,
        }))
    } else {
        match options {
            Some(o) => if o.ignore_if_not_exists {
                Ok(None)
            } else {
                Err(not_found_message(uri))
            },
            None => Err(not_found_message(uri)),
        }
    }
}

/// Whether a rename goes ahead, given whether its target exists.
pub open spec fn rename_plan(new_uri: Seq<char>, exists: bool, options: Option<RenameFileOptions>) -> Result<(), Seq<char>> {
    if !exists {
        Ok(())
    } else {
        match options {
            Some(o) => if o.overwrite {
                Ok(())
            } else {
                Err(exists_message(new_uri))
            },
            None => Err(exists_message(new_uri)),
        }
    }
}

#[derive(Clone, Copy, Debug, PartialEq, Eq, Structural)]
pub enum EditPhase {
    /// The operation at the index is next.
    Start,
    /// Waiting to hear whether the operation's file exists.
    Checking,
    /// Waiting for the operation's file work.
    Performing,
    /// Waiting for the operation's changes to be announced.
    Announcing,
    /// The edit is over.
    Finished,
}

/// Where the application of an edit stands: at which operation, in which phase.
#[derive(Clone, Copy, Debug, PartialEq, Eq, Structural)]
pub struct EditProgress {
    pub index: usize,
    pub phase: EditPhase,
}

/// What the caller is asked to do next.
pub enum EditAction {
    /// Say whether the file at this URI exists.
    CheckExists(String),
    /// Create the file (and its parent directories), empty.
    CreateFile(String),
    /// Delete the file or directory, a directory with its contents when `recursive`.
    DeleteFile { uri: String, recursive: bool },
    /// Move the file (creating the new parent directories).
    RenameFile { old_uri: String, new_uri: String },
    /// Announce these changes to the watchers.
    Announce(Vec<FileChangeEvent>),
    /// The edit is over, with this outcome.
    Finish(Result<(), String>),
}

/// What the caller reports back.
pub enum EditOutcome {
    /// Nothing yet: the edit begins.
    Begin,
    /// Whether the file asked about exists.
    Exists(bool),
    /// How the file work or the announcement went.
    Done(Result<(), String>),
}

/// The events of an announcement, as URIs and change types.
pub open spec fn announced(events: Seq<FileChangeEvent>) -> Seq<(Seq<char>, crate::filesystem::FileChangeType)> {
    events.map_values(|e: FileChangeEvent| (e.uri@, e.change_type))
}

/// What comes once the edit reaches operation `i`: the end when no
/// operation is left; the question whether the operation's file (a rename's
/// target) exists; or, for a text edit, which the editor applies, its
/// announcement.
pub open spec fn start_fits(edits: Seq<FileEdit>, i: int, p: EditProgress, a: EditAction) -> bool {
    if i >= edits.len() {
        p.phase == EditPhase::Finished && (a matches EditAction::Finish(Ok(_)))
    } else {
        p.index == i && match edits[i] {
            FileEdit::CreateFile { uri, .. } => p.phase == EditPhase::Checking && (a matches EditAction::CheckExists(
                u,
            ) && u@ == uri@),
            FileEdit::DeleteFile { uri, .. } => p.phase == EditPhase::Checking && (a matches EditAction::CheckExists(
                u,
            ) && u@ == uri@),
            FileEdit::RenameFile { new_uri, .. } => p.phase == EditPhase::Checking && (
            a matches EditAction::CheckExists(u) && u@ == new_uri@),
            FileEdit::TextEdit { .. } => p.phase == EditPhase::Announcing && (a matches EditAction::Announce(evs)
                && announced(evs@) == edit_changes(edits[i])),
        }
    }
}

/// The outcome fits the request the caller was given in phase `p`.
pub open spec fn step_allowed(edits: Seq<FileEdit>, p: EditProgress, o: EditOutcome) -> bool {
    match p.phase {
        EditPhase::Start => p.index <= edits.len() && o is Begin,
        EditPhase::Checking => p.index < edits.len() && o is Exists && !(edits[p.index as int] is TextEdit),
        EditPhase::Performing => p.index < edits.len() && o is Done,
        EditPhase::Announcing => p.index < edits.len() && o is Done,
        EditPhase::Finished => false,
    }
}

/// The edit ends with the error `m`.
pub open spec fn fails_with(p: EditProgress, a: EditAction, m: Seq<char>) -> bool {
    p.phase == EditPhase::Finished && (a matches EditAction::Finish(Err(e)) && e@ == m)
}

/// The next step: a refused or failed operation ends the edit with its
/// error; a skipped one moves on; a done one is announced, and then the next
/// operation comes.
pub open spec fn step_fits(edits: Seq<FileEdit>, p: EditProgress, o: EditOutcome, q: EditProgress, a: EditAction) -> bool {
    let i = p.index as int;
    match p.phase {
        EditPhase::Start => start_fits(edits, i, q, a),
        EditPhase::Checking => {
            let x = o->Exists_0;
            match edits[i] {
                FileEdit::CreateFile { uri, options } => match create_plan(uri@, x, options) {
                    Err(m) => fails_with(q, a, m),
                    Ok(go) => if go {
                        q == EditProgress { index: p.index, phase: EditPhase::Performing } && (
                        a matches EditAction::CreateFile(u) && u@ == uri@)
                    } else {
                        start_fits(edits, i + 1, q, a)
                    },
                },
                FileEdit::DeleteFile { uri, options } => match delete_plan(uri@, x, options) {
                    Err(m) => fails_with(q, a, m),
                    Ok(None) => start_fits(edits, i + 1, q, a),
                    Ok(Some(rec)) => q == EditProgress { index: p.index, phase: EditPhase::Performing } && (
                    a matches EditAction::DeleteFile { uri: u, recursive } && u@ == uri@ && recursive == rec),
                },
                FileEdit::RenameFile { old_uri, new_uri, options } => match rename_plan(new_uri@, x, options) {
                    Err(m) => fails_with(q, a, m),
                    Ok(_) => q == EditProgress { index: p.index, phase: EditPhase::Performing } && (
                    a matches EditAction::RenameFile { old_uri: ou, new_uri: nu } && ou@ == old_uri@ && nu@
                        == new_uri@),
                },
                FileEdit::TextEdit { .. } => false,
            }
        },
        EditPhase::Performing => match o->Done_0 {
            Err(m) => fails_with(q, a, m@),
            Ok(_) => q == EditProgress { index: p.index, phase: EditPhase::Announcing } && (
            a matches EditAction::Announce(evs) && announced(evs@) == edit_changes(edits[i])),
        },
        EditPhase::Announcing => match o->Done_0 {
            Err(m) => fails_with(q, a, m@),
            Ok(_) => start_fits(edits, i + 1, q, a),
        },
        EditPhase::Finished => false,
    }
}

fn finish_with(m: String) -> (r: (EditProgress, EditAction))
    ensures
        fails_with(r.0, r.1, m@),
{
    (EditProgress { index: 0, phase: EditPhase::Finished }, EditAction::Finish(Err(m)))
}

/// What comes once the edit reaches operation `i`.
fn start_at(edits: &Vec<FileEdit>, i: usize) -> (r: (EditProgress, EditAction))
    ensures
        start_fits(edits@, i as int, r.0, r.1),
{
    if i >= edits.len() {
        return (EditProgress { index: i, phase: EditPhase::Finished }, EditAction::Finish(Ok(())));
    }
    let a = match &edits[i] {
        FileEdit::CreateFile { uri, .. } => EditAction::CheckExists(uri.clone()),
        FileEdit::DeleteFile { uri, .. } => EditAction::CheckExists(uri.clone()),
        FileEdit::RenameFile { new_uri, .. } => EditAction::CheckExists(new_uri.clone()),
        FileEdit::TextEdit { .. } => {
            let evs = edit_change_events(&edits[i]);
            return (EditProgress { index: i, phase: EditPhase::Announcing }, EditAction::Announce(evs));
        },
    };
    (EditProgress { index: i, phase: EditPhase::Checking }, a)
}

/// The step from where an edit stands and what the last request gave back
/// to where it stands next and what to do.
pub fn edit_step(edits: &Vec<FileEdit>, progress: EditProgress, outcome: EditOutcome) -> (r: (EditProgress, EditAction))
    requires
        step_allowed(edits@, progress, outcome),
    ensures
        step_fits(edits@, progress, outcome, r.0, r.1),
{
    let i = progress.index;
    let n = edits.len();
    assert(progress.phase != EditPhase::Start ==> i < n);
    match progress.phase {
        EditPhase::Start => start_at(edits, i),
        EditPhase::Checking => {
            let x = match outcome {
                EditOutcome::Exists(x) => x,
                _ => false,
            };
            match &edits[i] {
                FileEdit::CreateFile { uri, options } => match plan_create_file(uri.as_str(), x, *options) {
                    Err(m) => finish_with(m),
                    Ok(go) => if go {
                        (EditProgress { index: i, phase: EditPhase::Performing }, EditAction::CreateFile(uri.clone()))
                    } else {
                        start_at(edits, i + 1)
                    },
                },
                FileEdit::DeleteFile { uri, options } => match plan_delete_file(uri.as_str(), x, *options) {
                    Err(m) => finish_with(m),
                    Ok(None) => start_at(edits, i + 1),
                    Ok(Some(recursive)) => (
                        EditProgress { index: i, phase: EditPhase::Performing },
                        EditAction::DeleteFile { uri: uri.clone(), recursive },
                    ),
                },
                FileEdit::RenameFile { old_uri, new_uri, options } => match plan_rename_file(
                    new_uri.as_str(),
                    x,
                    *options,
                ) {
                    Err(m) => finish_with(m),
                    Ok(_) => (
                        EditProgress { index: i, phase: EditPhase::Performing },
                        EditAction::RenameFile { old_uri: old_uri.clone(), new_uri: new_uri.clone() },
                    ),
                },
                FileEdit::TextEdit { .. } => finish_with(String::new()),
            }
        },
        EditPhase::Performing => match outcome {
            EditOutcome::Done(Err(m)) => finish_with(m),
            _ => {
                let evs = edit_change_events(&edits[i]);
                (EditProgress { index: i, phase: EditPhase::Announcing }, EditAction::Announce(evs))
            },
        },
        EditPhase::Announcing => match outcome {
            EditOutcome::Done(Err(m)) => finish_with(m),
            _ => start_at(edits, i + 1),
        },
        EditPhase::Finished => finish_with(String::new()),
    }
}

/// An operation's changes are announced only once its file work is done:
/// apart from a text edit, which the editor applies, an announcement follows
/// a report that the operation went through.
pub proof fn lemma_announce_after_work(
    edits: Seq<FileEdit>,
    p: EditProgress,
    o: EditOutcome,
    q: EditProgress,
    a: EditAction,
)
    requires
        step_allowed(edits, p, o),
        step_fits(edits, p, o, q, a),
        a is Announce,
        !(edits[q.index as int] is TextEdit),
    ensures
        p.phase == EditPhase::Performing,
        o matches EditOutcome::Done(Ok(_)),
        q.index == p.index,
{
}

/// A failure that the caller reports ends the edit with that error: no later
/// operation is asked for.
pub proof fn lemma_failure_ends_edit(
    edits: Seq<FileEdit>,
    p: EditProgress,
    o: EditOutcome,
    q: EditProgress,
    a: EditAction,
    m: String,
)
    requires
        step_allowed(edits, p, o),
        step_fits(edits, p, o, q, a),
        o == EditOutcome::Done(Err(m)),
    ensures
        fails_with(q, a, m@),
{
}

} // verus!
