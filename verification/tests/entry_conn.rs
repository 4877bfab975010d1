use httptunnel::connectionmanager::ConnectionManager;
use httptunnel::entry::{
    bind_error_message, parse_open_body, BindErrorKind, EntryAction, EntryConn, EntryEvent,
    EntryPhase,
};
use httptunnel::error::TunnelError;
use httptunnel::id::id_to_bytes;
use httptunnel::url::{close_url, download_url, join_url, open_url, upload_url};

#[test]
fn open_answer_starts_both_transfers() {
    let mut conn = EntryConn::new();
    assert_eq!(conn.phase, EntryPhase::Opening);
    let actions = conn.step(EntryEvent::OpenAnswered {
        body: id_to_bytes(42),
    });
    assert_eq!(actions, vec![EntryAction::StartTransfers { id: 42 }]);
    assert_eq!(
        conn.phase,
        EntryPhase::Transferring {
            id: 42,
            upload_done: false,
            download_done: false
        }
    );
}

#[test]
fn empty_open_answer_drops_the_client() {
    let mut conn = EntryConn::new();
    let actions = conn.step(EntryEvent::OpenAnswered { body: Vec::new() });
    assert_eq!(actions, vec![EntryAction::DropClient]);
    assert_eq!(conn.phase, EntryPhase::Failed);
}

#[test]
fn client_half_close_tears_the_tunnel_down() {
    let mut conn = EntryConn::new();
    conn.step(EntryEvent::OpenAnswered {
        body: id_to_bytes(7),
    });
    let actions = conn.step(EntryEvent::UploadFinished);
    assert_eq!(actions, vec![EntryAction::FireStopDownload]);
    let actions = conn.step(EntryEvent::DownloadFinished);
    assert_eq!(
        actions,
        vec![
            EntryAction::FireStopUpload,
            EntryAction::SendClose { id: 7 }
        ]
    );
    assert_eq!(conn.phase, EntryPhase::Closed { id: 7 });
}

#[test]
fn backend_half_close_tears_the_tunnel_down() {
    let mut conn = EntryConn::new();
    conn.step(EntryEvent::OpenAnswered {
        body: id_to_bytes(7),
    });
    let actions = conn.step(EntryEvent::DownloadFinished);
    assert_eq!(actions, vec![EntryAction::FireStopUpload]);
    let actions = conn.step(EntryEvent::UploadFinished);
    assert_eq!(
        actions,
        vec![
            EntryAction::FireStopDownload,
            EntryAction::SendClose { id: 7 }
        ]
    );
    assert_eq!(conn.phase, EntryPhase::Closed { id: 7 });
}

#[test]
fn open_body_parses_iff_sixteen_bytes() {
    assert_eq!(parse_open_body(&id_to_bytes(99)), Ok(99));
    assert_eq!(parse_open_body(&[]), Err(TunnelError::OpenFailed));
    assert_eq!(parse_open_body(&[1, 2, 3]), Err(TunnelError::OpenFailed));
}

#[test]
fn handler_count_returns_to_zero() {
    let mut mgr = ConnectionManager::new();
    assert_eq!(mgr.active(), 0);
    mgr.register(1);
    mgr.register(2);
    mgr.register(3);
    assert_eq!(mgr.active(), 3);
    mgr.unregister(2);
    mgr.unregister(1);
    mgr.unregister(3);
    assert_eq!(mgr.active(), 0);
}

#[test]
fn endpoint_urls_join_under_the_base() {
    let base = b"http://127.0.0.1:8080/".to_vec();
    assert_eq!(open_url(&base), b"http://127.0.0.1:8080/open".to_vec());
    let id = 0x0123_4567_89ab_cdef_0123_4567_89ab_cdef;
    assert_eq!(
        String::from_utf8(upload_url(&base, id)).unwrap(),
        "http://127.0.0.1:8080/upload/01234567-89ab-cdef-0123-456789abcdef"
    );
    assert_eq!(
        String::from_utf8(download_url(&base, id)).unwrap(),
        "http://127.0.0.1:8080/download/01234567-89ab-cdef-0123-456789abcdef"
    );
    assert_eq!(
        String::from_utf8(close_url(&base, id)).unwrap(),
        "http://127.0.0.1:8080/close/01234567-89ab-cdef-0123-456789abcdef"
    );
}

#[test]
fn join_url_concatenates_segments() {
    let base = b"http://host/".to_vec();
    let segments = vec![b"a/".to_vec(), b"b/".to_vec(), b"c".to_vec()];
    assert_eq!(join_url(&base, &segments), b"http://host/a/b/c".to_vec());
}

#[test]
fn bind_failures_are_classified_for_the_operator() {
    assert_eq!(
        bind_error_message(BindErrorKind::AddrInUse),
        "port is already in use"
    );
    assert_eq!(
        bind_error_message(BindErrorKind::AddrNotAvailable),
        "could not bind to that address: not found"
    );
    assert_eq!(
        bind_error_message(BindErrorKind::PermissionDenied),
        "permission denied: port too low for this user?"
    );
    assert_eq!(
        bind_error_message(BindErrorKind::Other),
        "could not listen on the requested address"
    );
}
