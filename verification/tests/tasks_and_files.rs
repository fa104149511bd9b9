use dscode::filesystem::{
    edit_change_events, file_type_of, matches_glob_pattern, plan_create_file, plan_delete_file, plan_rename_file,
    uri_to_path, uri_to_path_on, CreateFileOptions, DeleteFileOptions, FileChangeEvent, FileChangeType, FileEdit, FileSystemProvider,
    FileSystemRegistry, FileType, FileWatcher, RenameFileOptions,
};
use dscode::tasks::{
    PanelKind, RevealKind, RunOnKind, RunOptions, TaskDefinition, TaskExecution, TaskExecutionState, TaskOptions,
    TaskPresentation, TaskProvider, TaskRegistry,
};

fn task(name: &str, ty: &str) -> TaskDefinition {
    TaskDefinition {
        name: name.to_string(),
        task_type: ty.to_string(),
        command: "make".to_string(),
        args: vec![],
        options: TaskOptions { cwd: None, env: vec![], shell: None },
        problem_matchers: vec![],
        group: None,
        presentation: TaskPresentation {
            reveal: RevealKind::Always,
            echo: true,
            focus: false,
            panel: PanelKind::Shared,
            show_reuse_message: true,
            clear: false,
            group: None,
        },
        run_options: RunOptions { run_on: RunOnKind::Default, instance_limit: 1, reevaluate_on_rerun: true },
    }
}

fn provider(id: &str, owner: &str, ty: &str) -> TaskProvider {
    TaskProvider { id: id.to_string(), owner: owner.to_string(), task_type: ty.to_string(), tasks: vec![task("build", ty)] }
}

fn execution(id: &str) -> TaskExecution {
    TaskExecution {
        id: id.to_string(),
        task: task("build", "shell"),
        terminal_id: None,
        state: TaskExecutionState::Running,
        exit_code: None,
        started_at: "t0".to_string(),
    }
}

#[test]
fn task_providers_are_unique_by_id() {
    let mut reg = TaskRegistry::new();
    assert_eq!(reg.register_task_provider(provider("p", "a", "shell")), Ok("p".to_string()));
    assert_eq!(
        reg.register_task_provider(provider("p", "b", "npm")),
        Err("Task provider 'p' already registered".to_string())
    );
    reg.register_task_provider(provider("q", "b", "npm")).unwrap();
    assert_eq!(reg.get_task_providers_by_type("npm").len(), 1);
    assert_eq!(reg.get_task_provider("q").unwrap().owner, "b");
    assert_eq!(reg.unregister_task_provider("zz"), Err("Task provider 'zz' not found".to_string()));
    reg.clear_task_data("a");
    assert_eq!(reg.get_task_providers().len(), 1);
}

#[test]
fn executions_end_completed_or_failed() {
    let mut reg = TaskRegistry::new();
    assert_eq!(reg.start_task_execution(execution("e1")), Ok("e1".to_string()));
    reg.start_task_execution(execution("e2")).unwrap();
    reg.end_task_execution("e1", 0).unwrap();
    reg.end_task_execution("e2", 2).unwrap();
    assert_eq!(reg.get_task_execution("e1").unwrap().state, TaskExecutionState::Completed);
    let e2 = reg.get_task_execution("e2").unwrap();
    assert_eq!(e2.state, TaskExecutionState::Failed);
    assert_eq!(e2.exit_code, Some(2));
    assert_eq!(reg.end_task_execution("nope", 0), Err("Task execution 'nope' not found".to_string()));
    reg.update_task_execution("e1", TaskExecutionState::Cancelled, None).unwrap();
    assert_eq!(reg.get_task_execution("e1").unwrap().exit_code, None);
    reg.clear_task_executions();
    assert!(reg.get_all_task_executions().is_empty());
}

#[test]
fn uris_become_paths() {
    assert_eq!(uri_to_path("file:///home/a.txt"), Ok("/home/a.txt".to_string()));
    assert_eq!(uri_to_path("/plain"), Ok("/plain".to_string()));
}

#[test]
fn watchers_receive_the_events_they_match() {
    let mut reg = FileSystemRegistry::new();
    reg.create_file_watcher(FileWatcher {
        id: "w1".to_string(),
        owner: "ext".to_string(),
        glob_pattern: "*.rs".to_string(),
        ignore_create_events: false,
        ignore_change_events: true,
        ignore_delete_events: false,
    })
    .unwrap();
    let ev = FileChangeEvent { uri: "/src/main.rs".to_string(), change_type: FileChangeType::Created };
    assert_eq!(reg.emit_file_change_event(&ev), Ok(vec!["w1".to_string()]));
    let changed = FileChangeEvent { uri: "/src/main.rs".to_string(), change_type: FileChangeType::Changed };
    assert_eq!(reg.emit_file_change_event(&changed), Ok(Vec::<String>::new()));
    assert!(matches_glob_pattern("/a/b.rs", "*.rs"));
    assert!(!matches_glob_pattern("/a/b.py", "*.rs"));
    reg.clear_filesystem_data("ext");
    assert!(reg.get_all_file_watchers().is_empty());
}

#[test]
fn providers_are_kept_by_scheme() {
    let mut reg = FileSystemRegistry::new();
    let p = FileSystemProvider {
        id: "mem".to_string(),
        owner: "ext".to_string(),
        scheme: "memfs".to_string(),
        is_case_sensitive: true,
        is_readonly: false,
    };
    assert!(reg.register_file_system_provider(p).is_ok());
    assert_eq!(reg.get_file_system_provider("memfs").unwrap().id, "mem");
    assert!(reg.get_file_system_provider("ftp").is_err());
    assert!(reg.unregister_file_system_provider("memfs").is_ok());
    assert!(reg.unregister_file_system_provider("memfs").is_err());
}

#[test]
fn workspace_edits_are_planned_before_they_run() {
    assert_eq!(plan_create_file("file:///a", false, None), Ok(true));
    assert_eq!(
        plan_create_file("file:///a", true, Some(CreateFileOptions { overwrite: false, ignore_if_exists: true })),
        Ok(false)
    );
    assert_eq!(
        plan_create_file("file:///a", true, None),
        Err("File already exists: file:///a".to_string())
    );
    assert_eq!(
        plan_delete_file("file:///a", true, Some(DeleteFileOptions { recursive: true, ignore_if_not_exists: false })),
        Ok(Some(true))
    );
    assert!(plan_delete_file("file:///a", false, None).is_err());
    assert_eq!(
        plan_rename_file("file:///b", true, Some(RenameFileOptions { overwrite: true })),
        Ok(())
    );
    let events = edit_change_events(&FileEdit::RenameFile {
        old_uri: "a".to_string(),
        new_uri: "b".to_string(),
        options: None,
    });
    assert_eq!(events.len(), 2);
    assert_eq!(events[0].change_type, FileChangeType::Deleted);
    assert_eq!(events[1].change_type, FileChangeType::Created);
    assert_eq!(file_type_of(false, true, false), FileType::SymbolicLink);
    assert_eq!(file_type_of(false, false, false), FileType::Unknown);
}

#[test]
fn windows_uris_drop_the_slash_before_a_drive() {
    assert_eq!(uri_to_path_on("file:///C:/Users/a.txt", true), Ok("C:/Users/a.txt".to_string()));
    assert_eq!(uri_to_path_on("file:///C:/Users/a.txt", false), Ok("/C:/Users/a.txt".to_string()));
    assert_eq!(uri_to_path_on("file:///home/a.txt", true), Ok("/home/a.txt".to_string()));
}
