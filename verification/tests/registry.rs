use pty_sessions::commands::close_terminal;
use pty_sessions::commands::effective_geometry;
use pty_sessions::commands::list_terminals;
use pty_sessions::commands::register_session;
use pty_sessions::commands::resize_terminal;
use pty_sessions::commands::spawn_terminal;
use pty_sessions::commands::write_to_terminal;
use pty_sessions::errors::SessionError;
use pty_sessions::home_directory;
use pty_sessions::registry::TerminalManager;
use pty_sessions::session::PtySession;

#[test]
fn new_manager_lists_nothing() {
    let m: TerminalManager<u32> = TerminalManager::new();
    assert!(m.list_terminals().is_empty());
}

#[test]
fn spawn_returns_resolvable_identifier() {
    let mut m: TerminalManager<u32> = TerminalManager::new();
    let id = spawn_terminal(&mut m, None, None, 1).expect("spawn should succeed");
    assert_eq!(id.len(), 36);
    let session = m.get_terminal(&id).expect("identifier must resolve");
    assert_eq!(session.id, id);
    assert_eq!(session.rows, 24);
    assert_eq!(session.cols, 80);
    let infos = list_terminals(&m);
    assert_eq!(infos.len(), 1);
    assert_eq!(infos[0].id, id);
    assert_eq!(infos[0].rows, 24);
    assert_eq!(infos[0].cols, 80);
}

#[test]
fn spawn_respects_requested_geometry() {
    let mut m: TerminalManager<u32> = TerminalManager::new();
    let id = spawn_terminal(&mut m, Some(50), Some(132), 1).expect("spawn should succeed");
    let session = m.get_terminal(&id).expect("identifier must resolve");
    assert_eq!(session.rows, 50);
    assert_eq!(session.cols, 132);
}

#[test]
fn spawned_identifiers_are_distinct() {
    let mut m: TerminalManager<u32> = TerminalManager::new();
    let mut ids: Vec<String> = Vec::new();
    for n in 0..8 {
        ids.push(spawn_terminal(&mut m, None, None, n).expect("spawn should succeed"));
    }
    for a in 0..ids.len() {
        for b in 0..ids.len() {
            if a != b {
                assert_ne!(ids[a], ids[b]);
            }
        }
    }
    assert_eq!(list_terminals(&m).len(), 8);
}

#[test]
fn identifier_of_closed_session_is_never_reused() {
    let mut m: TerminalManager<u32> = TerminalManager::new();
    let id1 = spawn_terminal(&mut m, None, None, 1).expect("spawn should succeed");
    close_terminal(&mut m, &id1).expect("close should succeed");
    let id2 = spawn_terminal(&mut m, None, None, 2).expect("spawn should succeed");
    assert_ne!(id1, id2);
    // An identifier already accepted once is refused outright.
    let dup = register_session(&mut m, id1.clone(), None, None, 3);
    assert!(matches!(dup, Err(SessionError::DuplicateId)));
    assert_eq!(list_terminals(&m).len(), 1);
}

#[test]
fn write_to_unknown_identifier_fails_not_found() {
    let mut m: TerminalManager<u32> = TerminalManager::new();
    let id = spawn_terminal(&mut m, None, None, 1).expect("spawn should succeed");
    let unknown = String::from("00000000-0000-0000-0000-000000000000");
    let r = write_to_terminal(&m, &unknown);
    assert!(matches!(r, Err(SessionError::NotFound)));
    // No side effect on the registry.
    let infos = list_terminals(&m);
    assert_eq!(infos.len(), 1);
    assert_eq!(infos[0].id, id);
}

#[test]
fn write_resolves_the_session_endpoints() {
    let mut m: TerminalManager<u32> = TerminalManager::new();
    let id_a = spawn_terminal(&mut m, None, None, 17).expect("spawn should succeed");
    let id_b = spawn_terminal(&mut m, None, None, 42).expect("spawn should succeed");
    assert_eq!(*write_to_terminal(&m, &id_a).expect("known id"), 17);
    assert_eq!(*write_to_terminal(&m, &id_b).expect("known id"), 42);
}

#[test]
fn resize_is_reflected_in_list_and_only_there() {
    let mut m: TerminalManager<u32> = TerminalManager::new();
    let id_a = spawn_terminal(&mut m, None, None, 1).expect("spawn should succeed");
    let id_b = spawn_terminal(&mut m, None, None, 2).expect("spawn should succeed");
    resize_terminal(&mut m, &id_a, 132, 50).expect("resize should succeed");
    let infos = list_terminals(&m);
    assert_eq!(infos.len(), 2);
    for info in &infos {
        if info.id == id_a {
            assert_eq!(info.rows, 50);
            assert_eq!(info.cols, 132);
        } else {
            assert_eq!(info.id, id_b);
            assert_eq!(info.rows, 24);
            assert_eq!(info.cols, 80);
        }
    }
}

#[test]
fn resize_unknown_identifier_fails_not_found() {
    let mut m: TerminalManager<u32> = TerminalManager::new();
    let unknown = String::from("not-a-session");
    let r = resize_terminal(&mut m, &unknown, 10, 10);
    assert!(matches!(r, Err(SessionError::NotFound)));
}

#[test]
fn closed_identifier_is_gone_for_every_operation() {
    let mut m: TerminalManager<u32> = TerminalManager::new();
    let id = spawn_terminal(&mut m, None, None, 1).expect("spawn should succeed");
    close_terminal(&mut m, &id).expect("close should succeed");
    assert!(matches!(write_to_terminal(&m, &id), Err(SessionError::NotFound)));
    assert!(matches!(resize_terminal(&mut m, &id, 10, 10), Err(SessionError::NotFound)));
    assert!(matches!(close_terminal(&mut m, &id), Err(SessionError::NotFound)));
    assert!(list_terminals(&m).iter().all(|info| info.id != id));
}

#[test]
fn close_unknown_identifier_preserves_entries() {
    let mut m: TerminalManager<u32> = TerminalManager::new();
    let id = spawn_terminal(&mut m, None, None, 1).expect("spawn should succeed");
    let unknown = String::from("ffffffff-ffff-ffff-ffff-ffffffffffff");
    assert!(matches!(close_terminal(&mut m, &unknown), Err(SessionError::NotFound)));
    let infos = list_terminals(&m);
    assert_eq!(infos.len(), 1);
    assert_eq!(infos[0].id, id);
}

#[test]
fn closing_one_session_leaves_the_others_alone() {
    let mut m: TerminalManager<u32> = TerminalManager::new();
    let id_a = spawn_terminal(&mut m, None, None, 1).expect("spawn should succeed");
    let id_b = spawn_terminal(&mut m, Some(30), Some(90), 2).expect("spawn should succeed");
    close_terminal(&mut m, &id_a).expect("close should succeed");
    let session = m.get_terminal(&id_b).expect("other session must survive");
    assert_eq!(session.rows, 30);
    assert_eq!(session.cols, 90);
    assert_eq!(*write_to_terminal(&m, &id_b).expect("other session writable"), 2);
}

#[test]
fn list_label_is_prefixed_truncated_identifier() {
    let mut m: TerminalManager<u32> = TerminalManager::new();
    let id = spawn_terminal(&mut m, None, None, 1).expect("spawn should succeed");
    let infos = list_terminals(&m);
    assert_eq!(infos[0].title, format!("Terminal {}", &id[..8]));
}

#[test]
fn add_terminal_refuses_live_duplicate() {
    let mut m: TerminalManager<u32> = TerminalManager::new();
    let first = PtySession::new(String::from("same-id"), 24, 80, 1);
    assert!(m.add_terminal(first).is_ok());
    let second = PtySession::new(String::from("same-id"), 24, 80, 2);
    assert!(matches!(m.add_terminal(second), Err(SessionError::DuplicateId)));
}

#[test]
fn remove_terminal_returns_the_session_once() {
    let mut m: TerminalManager<u32> = TerminalManager::new();
    let session = PtySession::new(String::from("gone-soon"), 24, 80, 9);
    m.add_terminal(session).expect("fresh identifier");
    let key = String::from("gone-soon");
    let removed = m.remove_terminal(&key).expect("present the first time");
    assert_eq!(removed.id, "gone-soon");
    assert_eq!(removed.handles, 9);
    assert!(m.remove_terminal(&key).is_none());
}

#[test]
fn error_messages_match_the_caller_boundary() {
    assert_eq!(SessionError::NotFound.message(), "Terminal session not found");
    assert_eq!(SessionError::Io(String::from("broken pipe")).message(), "broken pipe");
}

#[test]
fn effective_geometry_defaults_to_24_by_80() {
    assert_eq!(effective_geometry(None, None), (24, 80));
    assert_eq!(effective_geometry(Some(31), None), (31, 80));
    assert_eq!(effective_geometry(None, Some(100)), (24, 100));
    assert_eq!(effective_geometry(Some(1), Some(2)), (1, 2));
}

#[test]
fn home_directory_falls_back_to_root() {
    assert_eq!(home_directory(Some(String::from("/home/someone"))), "/home/someone");
    assert_eq!(home_directory(None), "/");
}
