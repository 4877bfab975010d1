use httptunnel::error::TunnelError;
use httptunnel::exit::{
    upload_outcome_message, ExitSession, ExitSessionManager, Signal, UploadOutcome,
};
use httptunnel::id::encode_id_text;

#[test]
fn open_without_backend_registers_nothing() {
    let mut mgr = ExitSessionManager::new();
    assert_eq!(mgr.open(false), None);
    assert_eq!(mgr.len(), 0);
}

#[test]
fn open_then_close_leaves_no_session() {
    let mut mgr = ExitSessionManager::new();
    let id = mgr.open(true).unwrap();
    assert_eq!(mgr.len(), 1);
    let text = encode_id_text(id);
    assert_eq!(mgr.lookup_session(&text), Ok(id));
    let closed = mgr.close(&text).unwrap();
    assert_eq!(closed.up.stop_copy, Signal::Fired);
    assert_eq!(closed.down.stop_stream, Signal::Fired);
    assert_eq!(mgr.len(), 0);
    assert_eq!(mgr.lookup_session(&text), Err(TunnelError::SessionNotFound));
}

#[test]
fn rapid_open_close_cycles_leave_registry_empty() {
    let mut mgr = ExitSessionManager::new();
    for _ in 0..100 {
        let id = mgr.open(true).unwrap();
        let text = encode_id_text(id);
        mgr.close(&text).unwrap();
    }
    assert_eq!(mgr.len(), 0);
}

#[test]
fn sessions_are_independent() {
    let mut mgr = ExitSessionManager::new();
    let a = mgr.open(true).unwrap();
    let b = mgr.open(true).unwrap();
    assert_ne!(a, b);
    assert_eq!(mgr.len(), 2);
    mgr.close(&encode_id_text(a)).unwrap();
    assert_eq!(mgr.len(), 1);
    assert_eq!(mgr.lookup_session(&encode_id_text(b)), Ok(b));
    mgr.close(&encode_id_text(b)).unwrap();
    assert_eq!(mgr.len(), 0);
}

#[test]
fn fresh_ids_carry_the_random_version_bits() {
    let mut mgr = ExitSessionManager::new();
    let id = mgr.open(true).unwrap();
    assert_eq!((id >> 76) & 0xf, 4);
    mgr.close(&encode_id_text(id)).unwrap();
}

#[test]
fn bad_id_is_a_client_error_and_touches_no_session() {
    let mut mgr = ExitSessionManager::new();
    let id = mgr.open(true).unwrap();
    assert_eq!(
        mgr.lookup_session(b"not-a-uuid"),
        Err(TunnelError::MalformedId)
    );
    assert_eq!(mgr.close(b"not-a-uuid"), Err(TunnelError::MalformedId));
    assert_eq!(mgr.len(), 1);
    assert_eq!(mgr.lookup_session(&encode_id_text(id)), Ok(id));
}

#[test]
fn closing_a_missing_session_is_not_found() {
    let mut mgr = ExitSessionManager::new();
    let text = encode_id_text(12345);
    assert_eq!(mgr.close(&text), Err(TunnelError::SessionNotFound));
    assert_eq!(mgr.lookup_session(&text), Err(TunnelError::SessionNotFound));
}

#[test]
fn new_session_records_are_armed() {
    let s = ExitSession::new();
    assert_eq!(s.up.stop_copy, Signal::Armed);
    assert_eq!(s.down.stop_stream, Signal::Armed);
}

#[test]
fn upload_outcome_markers() {
    assert_eq!(upload_outcome_message(UploadOutcome::Finished), "finished");
    assert_eq!(
        upload_outcome_message(UploadOutcome::TargetDisconnect),
        "target disconnect"
    );
    assert_eq!(upload_outcome_message(UploadOutcome::Cancelled), "cancelled");
}

#[test]
fn error_messages_name_the_failure() {
    assert_eq!(TunnelError::MalformedId.message(), "malformed session id");
    assert_eq!(TunnelError::SessionNotFound.message(), "session not found");
    assert_eq!(TunnelError::OpenFailed.message(), "could not open session");
}
