use dscode::edit_run::{edit_step, EditAction, EditOutcome, EditPhase, EditProgress};
use dscode::filesystem::{CreateFileOptions, DeleteFileOptions, FileChangeType, FileEdit};

fn start() -> EditProgress {
    EditProgress { index: 0, phase: EditPhase::Start }
}

#[test]
fn an_edit_runs_operation_by_operation() {
    let edits = vec![
        FileEdit::CreateFile { uri: "file:///a".to_string(), options: None },
        FileEdit::DeleteFile {
            uri: "file:///gone".to_string(),
            options: Some(DeleteFileOptions { recursive: false, ignore_if_not_exists: true }),
        },
        FileEdit::TextEdit { uri: "file:///t".to_string(), edits: vec![] },
    ];
    let (p, a) = edit_step(&edits, start(), EditOutcome::Begin);
    assert!(matches!(a, EditAction::CheckExists(ref u) if u == "file:///a"));
    let (p, a) = edit_step(&edits, p, EditOutcome::Exists(false));
    assert!(matches!(a, EditAction::CreateFile(ref u) if u == "file:///a"));
    let (p, a) = edit_step(&edits, p, EditOutcome::Done(Ok(())));
    match a {
        EditAction::Announce(evs) => {
            assert_eq!(evs.len(), 1);
            assert_eq!(evs[0].uri, "file:///a");
            assert_eq!(evs[0].change_type, FileChangeType::Created);
        }
        _ => panic!("expected an announcement"),
    }
    let (p, a) = edit_step(&edits, p, EditOutcome::Done(Ok(())));
    assert!(matches!(a, EditAction::CheckExists(ref u) if u == "file:///gone"));
    // The missing file is skipped, so the text edit comes at once.
    let (p, a) = edit_step(&edits, p, EditOutcome::Exists(false));
    assert_eq!(p.index, 2);
    match a {
        EditAction::Announce(evs) => assert_eq!(evs[0].change_type, FileChangeType::Changed),
        _ => panic!("expected an announcement"),
    }
    let (p, a) = edit_step(&edits, p, EditOutcome::Done(Ok(())));
    assert_eq!(p.phase, EditPhase::Finished);
    assert!(matches!(a, EditAction::Finish(Ok(()))));
}

#[test]
fn a_refused_or_failed_operation_ends_the_edit() {
    let edits = vec![
        FileEdit::CreateFile {
            uri: "file:///a".to_string(),
            options: Some(CreateFileOptions { overwrite: false, ignore_if_exists: false }),
        },
        FileEdit::DeleteFile { uri: "file:///b".to_string(), options: None },
    ];
    let (p, _) = edit_step(&edits, start(), EditOutcome::Begin);
    let (p2, a) = edit_step(&edits, p, EditOutcome::Exists(true));
    assert_eq!(p2.phase, EditPhase::Finished);
    assert!(matches!(a, EditAction::Finish(Err(ref m)) if m == "File already exists: file:///a"));
    let (p3, _) = edit_step(&edits, p, EditOutcome::Exists(false));
    let (_, a) = edit_step(&edits, p3, EditOutcome::Done(Err("Failed to create file: denied".to_string())));
    assert!(matches!(a, EditAction::Finish(Err(ref m)) if m == "Failed to create file: denied"));
    let second = EditProgress { index: 1, phase: EditPhase::Checking };
    let (_, a) = edit_step(&edits, second, EditOutcome::Exists(false));
    assert!(matches!(a, EditAction::Finish(Err(ref m)) if m == "File not found: file:///b"));
}
