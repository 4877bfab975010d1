//! The entry node's per-connection protocol.
//!
//! For every accepted client socket the entry node opens one session against
//! the exit, drives one upload and one download transfer concurrently, and
//! closes the session when both are done.  The decisions of that handler -
//! what to do when the open answer arrives and when either transfer finishes
//! - are a state machine over plain values, stepped here; the shell performs
//! the I/O that the returned actions call for and feeds the next event back.
//!
//! Cross-cancellation is the heart of it: either transfer finishing (client
//! end-of-stream, backend end-of-stream, or a failed socket) means the other
//! direction is no longer useful, so the machine fires the opposite stop
//! signal at once, and sends the close once both transfers are done.

use crate::error::TunnelError;
use crate::id::bytes_val;
use vstd::prelude::*;

verus! {

/// Where one tunnelled client connection stands.
#[derive(Clone, Copy, Debug, PartialEq, Eq, Structural)]
pub enum EntryPhase {
    /// The `open` request is in flight.
    Opening,
    /// The session is established and the two transfers run.
    Transferring { id: u128, upload_done: bool, download_done: bool },
    /// Both transfers ended and the close was issued.
    Closed { id: u128 },
    /// The session could not be established; the client socket is dropped.
    Failed,
}

/// What the shell reports to the connection machine.
#[derive(Debug, PartialEq, Eq)]
pub enum EntryEvent {
    /// The body answering `GET open` arrived.
    OpenAnswered { body: Vec<u8> },
    /// The upload request completed, for whatever reason.
    UploadFinished,
    /// The download copy ended: end of stream, a write failure, or the stop
    /// signal.
    DownloadFinished,
}

/// What the shell must do next.
#[derive(Clone, Copy, Debug, PartialEq, Eq, Structural)]
pub enum EntryAction {
    /// Drop the client socket; no session was opened.
    DropClient,
    /// Split the client socket and start the upload and download transfers.
    StartTransfers { id: u128 },
    /// Fire the signal that ends the download copy.
    FireStopDownload,
    /// Fire the signal that ends the upload body stream.
    FireStopUpload,
    /// Issue the best-effort `GET close/{id}`.
    SendClose { id: u128 },
}

/// State of one per-connection handler.
pub struct EntryConn {
    pub phase: EntryPhase,
}

/// Whether the machine can take the event in its current phase: an open
/// answer is expected only while opening, and each transfer finishes once.
pub open spec fn event_enabled(phase: EntryPhase, event: EntryEvent) -> bool {
    match (phase, event) {
        (EntryPhase::Opening, EntryEvent::OpenAnswered { .. }) => true,
        (
            EntryPhase::Transferring { upload_done, .. },
            EntryEvent::UploadFinished,
        ) => !upload_done,
        (
            EntryPhase::Transferring { download_done, .. },
            EntryEvent::DownloadFinished,
        ) => !download_done,
        _ => false,
    }
}

/// The transition function: next phase and the actions the shell performs.
pub open spec fn spec_step(phase: EntryPhase, event: EntryEvent) -> (EntryPhase, Seq<
    EntryAction,
>) {
    match (phase, event) {
        (EntryPhase::Opening, EntryEvent::OpenAnswered { body }) => {
            if body@.len() == 16 {
                let id = bytes_val(body@) as u128;
                (
                    EntryPhase::Transferring { id, upload_done: false, download_done: false },
                    seq![EntryAction::StartTransfers { id }],
                )
            } else {
                (EntryPhase::Failed, seq![EntryAction::DropClient])
            }
        },
        (EntryPhase::Transferring { id, download_done, .. }, EntryEvent::UploadFinished) => {
            if download_done {
                (
                    EntryPhase::Closed { id },
                    seq![EntryAction::FireStopDownload, EntryAction::SendClose { id }],
                )
            } else {
                (
                    EntryPhase::Transferring { id, upload_done: true, download_done: false },
                    seq![EntryAction::FireStopDownload],
                )
            }
        },
        (EntryPhase::Transferring { id, upload_done, .. }, EntryEvent::DownloadFinished) => {
            if upload_done {
                (
                    EntryPhase::Closed { id },
                    seq![EntryAction::FireStopUpload, EntryAction::SendClose { id }],
                )
            } else {
                (
                    EntryPhase::Transferring { id, upload_done: false, download_done: true },
                    seq![EntryAction::FireStopUpload],
                )
            }
        },
        _ => (phase, Seq::empty()),
    }
}

impl EntryConn {
    /// A handler for a freshly accepted client connection.
    pub fn new() -> (c: Self)
        ensures
            c.phase == EntryPhase::Opening,
    {
        EntryConn { phase: EntryPhase::Opening }
    }

    /// Take one event and hand back the actions the shell must perform, in
    /// order.
    pub fn step(&mut self, event: EntryEvent) -> (actions: Vec<EntryAction>)
        requires
            event_enabled(old(self).phase, event),
        ensures
            final(self).phase == spec_step(old(self).phase, event).0,
            actions@ == spec_step(old(self).phase, event).1,
    {
        match (self.phase, event) {
            (EntryPhase::Opening, EntryEvent::OpenAnswered { body }) => {
                match crate::id::id_from_bytes(body.as_slice()) {
                    Some(id) => {
                        self.phase = EntryPhase::Transferring {
                            id,
                            upload_done: false,
                            download_done: false,
                        };
                        let actions = vec![EntryAction::StartTransfers { id }];
                        proof {
                            assert(actions@ =~= spec_step(old(self).phase, EntryEvent::OpenAnswered { body }).1);
                        }
                        actions
                    },
                    None => {
                        self.phase = EntryPhase::Failed;
                        let actions = vec![EntryAction::DropClient];
                        proof {
                            assert(actions@ =~= spec_step(old(self).phase, EntryEvent::OpenAnswered { body }).1);
                        }
                        actions
                    },
                }
            },
            (EntryPhase::Transferring { id, download_done, .. }, EntryEvent::UploadFinished) => {
                if download_done {
                    self.phase = EntryPhase::Closed { id };
                    let actions = vec![
                        EntryAction::FireStopDownload,
                        EntryAction::SendClose { id },
                    ];
                    proof {
                        assert(actions@ =~= spec_step(old(self).phase, EntryEvent::UploadFinished).1);
                    }
                    actions
                } else {
                    self.phase = EntryPhase::Transferring {
                        id,
                        upload_done: true,
                        download_done: false,
                    };
                    let actions = vec![EntryAction::FireStopDownload];
                    proof {
                        assert(actions@ =~= spec_step(old(self).phase, EntryEvent::UploadFinished).1);
                    }
                    actions
                }
            },
            (EntryPhase::Transferring { id, upload_done, .. }, EntryEvent::DownloadFinished) => {
                if upload_done {
                    self.phase = EntryPhase::Closed { id };
                    let actions = vec![
                        EntryAction::FireStopUpload,
                        EntryAction::SendClose { id },
                    ];
                    proof {
                        assert(actions@ =~= spec_step(old(self).phase, EntryEvent::DownloadFinished).1);
                    }
                    actions
                } else {
                    self.phase = EntryPhase::Transferring {
                        id,
                        upload_done: false,
                        download_done: true,
                    };
                    let actions = vec![EntryAction::FireStopUpload];
                    proof {
                        assert(actions@ =~= spec_step(old(self).phase, EntryEvent::DownloadFinished).1);
                    }
                    actions
                }
            },
            _ => {
                proof {
                    assert(false);
                }
                Vec::new()
            },
        }
    }
}

/// Parse the body answering `GET open`.  Exactly a 16-byte body establishes
/// a session; anything else - in particular the empty body that signals a
/// failed backend connect - is the open failure.
pub fn parse_open_body(body: &[u8]) -> (r: Result<u128, TunnelError>)
    ensures
        body@.len() == 16 ==> (r matches Ok(id) && id == bytes_val(body@)),
        body@.len() != 16 ==> r == Err::<u128, TunnelError>(TunnelError::OpenFailed),
{
    match crate::id::id_from_bytes(body) {
        Some(id) => Ok(id),
        None => Err(TunnelError::OpenFailed),
    }
}

/// Half-close propagation: from a session with both transfers running, one
/// direction finishing makes the machine fire the opposite stop signal at
/// once, and the other direction then finishing closes the session - in
/// either order, two events end the whole tunnel.  With zero-byte payloads
/// both finish events arrive immediately, so an idle session cannot get
/// stuck either.
pub proof fn lemma_half_close_propagation(id: u128)
    ensures
        ({
            let both = EntryPhase::Transferring {
                id,
                upload_done: false,
                download_done: false,
            };
            let after_up = spec_step(both, EntryEvent::UploadFinished);
            let after_down = spec_step(both, EntryEvent::DownloadFinished);
            &&& after_up.1 == seq![EntryAction::FireStopDownload]
            &&& spec_step(after_up.0, EntryEvent::DownloadFinished) == (
                EntryPhase::Closed { id },
                seq![EntryAction::FireStopUpload, EntryAction::SendClose { id }],
            )
            &&& after_down.1 == seq![EntryAction::FireStopUpload]
            &&& spec_step(after_down.0, EntryEvent::UploadFinished) == (
                EntryPhase::Closed { id },
                seq![EntryAction::FireStopDownload, EntryAction::SendClose { id }],
            )
        }),
{
    let both = EntryPhase::Transferring { id, upload_done: false, download_done: false };
    let after_up = spec_step(both, EntryEvent::UploadFinished);
    let after_down = spec_step(both, EntryEvent::DownloadFinished);
    assert(after_up.1 =~= seq![EntryAction::FireStopDownload]);
    assert(spec_step(after_up.0, EntryEvent::DownloadFinished).1 =~= seq![
        EntryAction::FireStopUpload,
        EntryAction::SendClose { id },
    ]);
    assert(after_down.1 =~= seq![EntryAction::FireStopUpload]);
    assert(spec_step(after_down.0, EntryEvent::UploadFinished).1 =~= seq![
        EntryAction::FireStopDownload,
        EntryAction::SendClose { id },
    ]);
}

/// Why a listening socket could not be bound, as reported to the operator.
#[derive(Clone, Copy, Debug, PartialEq, Eq, Structural)]
pub enum BindErrorKind {
    /// The port is already taken.
    AddrInUse,
    /// The address does not exist on this host.
    AddrNotAvailable,
    /// The port needs privileges this process lacks.
    PermissionDenied,
    /// Anything else the socket layer reported.
    Other,
}

/// The operator-facing message for a failed bind; the process then exits.
pub fn bind_error_message(kind: BindErrorKind) -> (m: &'static str)
    ensures
        kind == BindErrorKind::AddrInUse ==> m@ == "port is already in use"@,
        kind == BindErrorKind::AddrNotAvailable ==> m@ == "could not bind to that address: not found"@,
        kind == BindErrorKind::PermissionDenied ==> m@
            == "permission denied: port too low for this user?"@,
        kind == BindErrorKind::Other ==> m@ == "could not listen on the requested address"@,
{
    match kind {
        BindErrorKind::AddrInUse => "port is already in use",
        BindErrorKind::AddrNotAvailable => "could not bind to that address: not found",
        BindErrorKind::PermissionDenied => "permission denied: port too low for this user?",
        BindErrorKind::Other => "could not listen on the requested address",
    }
}

} // verus!
