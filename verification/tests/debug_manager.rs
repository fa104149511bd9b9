use dscode::debug::{DebugManager, DebugState, SourceBreakpoint};

fn bp(line: i64) -> SourceBreakpoint {
    SourceBreakpoint { line, column: Some(2), condition: None, hit_condition: None, log_message: None }
}

#[test]
fn sessions_start_stopped_and_change_state() {
    let mut m = DebugManager::new();
    let id = m.create_session("Run".to_string(), "node".to_string()).unwrap();
    assert_eq!(id.len(), 36);
    for (i, c) in id.chars().enumerate() {
        if [8, 13, 18, 23].contains(&i) {
            assert_eq!(c, '-');
        } else {
            assert!(c.is_ascii_digit() || ('a'..='f').contains(&c));
        }
    }
    assert_eq!(id.chars().nth(14), Some('4'));
    assert!("89ab".contains(id.chars().nth(19).unwrap()));
    let s = m.get_session(&id).unwrap();
    assert_eq!(s.state, DebugState::Stopped);
    assert_eq!(s.adapter_type, "node");
    m.update_session_state(&id, DebugState::Running).unwrap();
    assert_eq!(m.get_session(&id).unwrap().state, DebugState::Running);
    assert!(m.update_session_state("missing", DebugState::Paused).is_err());
    m.create_session_with_id("fixed".to_string(), "Two".to_string(), "lldb".to_string()).unwrap();
    assert_eq!(m.list_sessions().unwrap().len(), 2);
    m.terminate_session("fixed").unwrap();
    assert!(m.get_session("fixed").is_err());
}

#[test]
fn breakpoints_are_kept_per_file() {
    let mut m = DebugManager::new();
    m.set_breakpoints("/a.js".to_string(), vec![bp(3), bp(9)]).unwrap();
    let set = m.get_breakpoints("/a.js").unwrap();
    assert_eq!(set.len(), 2);
    assert_eq!(set[1].line, Some(9));
    assert!(!set[0].verified);
    assert_eq!(m.get_breakpoints("/a.js").unwrap().len(), 2);
    assert!(m.get_breakpoints("/b.js").unwrap().is_empty());
    m.clear_breakpoints("/a.js").unwrap();
    assert!(m.get_all_breakpoints().unwrap().is_empty());
}
