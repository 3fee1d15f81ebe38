use fuse_storage::error::ErrorCode;
use fuse_storage::sessions::{shutdown_step, uuid_text, SessionManager, ShutdownStep};

#[test]
fn identifiers_are_written_like_uuids() {
    for id in [
        0u128,
        u128::MAX,
        0x0191114d_30fd_78b8_9fae_8e5c88327725,
        0x0123_4567_89ab_cdef_0f1e_2d3c_4b5a_6978,
    ] {
        assert_eq!(uuid_text(id), uuid::Uuid::from_u128(id).to_string());
    }
    assert_eq!(
        uuid_text(0x0191114d_30fd_78b8_9fae_8e5c88327725),
        "0191114d-30fd-78b8-9fae-8e5c88327725"
    );
}

#[test]
fn sessions_are_taken_up_to_the_limit() {
    let mut manager = SessionManager::from_conf(2);
    let a = manager.create_session("MySQL").unwrap();
    assert_eq!(a.typ, "MySQL");
    assert_eq!(a.id.len(), 36);
    let b = manager.create_session("HTTP").unwrap();
    assert_ne!(a.id, b.id);
    assert_eq!(manager.active_count(), 2);
    assert_eq!(
        manager.create_session("MySQL"),
        Err(ErrorCode::TooManyUserConnections(
            "The current accept connection has exceeded mysql_handler_thread_num config"
                .to_string()
        ))
    );
    assert_eq!(manager.get_session(&a.id), Some(&a));
    assert_eq!(manager.get_session("nobody"), None);
    manager.destroy_session(&a.id);
    assert_eq!(manager.get_session(&a.id), None);
    assert_eq!(manager.active_count(), 1);
    manager.destroy_session(&a.id);
    assert_eq!(manager.active_count(), 1);
    assert!(!manager.destroy_idle_sessions());
    manager.destroy_session(&b.id);
    assert!(manager.destroy_idle_sessions());
    assert!(manager.create_session("MySQL").is_ok());
}

#[test]
fn a_session_under_a_held_identifier_replaces_it() {
    let mut manager = SessionManager::from_conf(3);
    manager.create_session_with_id("s1".to_string(), "A").unwrap();
    manager.create_session_with_id("s2".to_string(), "B").unwrap();
    manager.create_session_with_id("s1".to_string(), "C").unwrap();
    assert_eq!(manager.active_count(), 2);
    assert_eq!(manager.get_session("s1").unwrap().typ, "C");
    assert_eq!(manager.get_session("s2").unwrap().typ, "B");
    // a manager that takes no session refuses at once
    assert!(SessionManager::from_conf(0).create_session("A").is_err());
}

#[test]
fn sessions_of_calls_from_other_nodes() {
    let mut manager = SessionManager::from_conf(1);
    let first = manager.create_rpc_session("q1".to_string(), false).unwrap();
    assert_eq!(first.typ, "RPCSession");
    // the session that is held is given again, also while shutting down
    assert_eq!(manager.create_rpc_session("q1".to_string(), true), Ok(first));
    assert_eq!(
        manager.create_rpc_session("q2".to_string(), true),
        Err(ErrorCode::AbortedSession("Aborting server.".to_string()))
    );
    // sessions of other nodes are not counted against the limit
    assert!(manager.create_rpc_session("q2".to_string(), false).is_ok());
    assert_eq!(manager.active_count(), 2);
}

#[test]
fn steps_of_a_shutdown() {
    assert_eq!(shutdown_step(false, false, 0, true), ShutdownStep::ForceKill);
    assert_eq!(shutdown_step(true, false, 0, true), ShutdownStep::Done);
    assert_eq!(shutdown_step(true, false, 0, false), ShutdownStep::Wait);
    assert_eq!(shutdown_step(true, false, 4, false), ShutdownStep::Wait);
    assert_eq!(shutdown_step(true, false, 5, false), ShutdownStep::ForceKill);
    assert_eq!(shutdown_step(true, true, 1, false), ShutdownStep::ForceKill);
}
