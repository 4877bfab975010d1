//! The exit node: session records and the registry behind the four HTTP
//! endpoints.
//!
//! A session is created by `open` (one successful backend connect), served
//! by at most one upload and one download handler, and destroyed by `close`.
//! The registry maps each 128-bit id to its session record.  The socket
//! halves themselves, their mutexes and the HTTP plumbing live in the
//! unverified shell, keyed by the same id; what is decided here is what each
//! endpoint does to the registry and which signals it fires.

use crate::error::TunnelError;
use crate::id::{id_text_val, is_valid_id_text, parse_id_text};
use crate::registry::{insert_all, lemma_registry_conservation, remove_all};
use vstd::prelude::*;

verus! {

/// A one-shot cancellation signal: once fired it stays fired.
#[derive(Clone, Copy, Debug, PartialEq, Eq, Structural)]
pub enum Signal {
    Armed,
    Fired,
}

/// The upload side of a session: the state of the one-shot signal that
/// aborts the copy onto the backend's write half.  The write half itself and
/// the mutex serializing its use live in the shell under the session's id.
#[derive(Clone, Copy, Debug, PartialEq, Eq, Structural)]
pub struct UpExitSession {
    pub stop_copy: Signal,
}

/// The download side of a session: the state of the valve that ends the
/// outgoing body stream at a chunk boundary.  The read half lives in the
/// shell under the session's id.
#[derive(Clone, Copy, Debug, PartialEq, Eq, Structural)]
pub struct DownExitSession {
    pub stop_stream: Signal,
}

/// One tunnelled session as the exit node tracks it.
#[derive(Clone, Copy, Debug, PartialEq, Eq, Structural)]
pub struct ExitSession {
    pub up: UpExitSession,
    pub down: DownExitSession,
}

/// The record of a freshly opened session: both signals still armed.
pub open spec fn armed_session() -> ExitSession {
    ExitSession {
        up: UpExitSession { stop_copy: Signal::Armed },
        down: DownExitSession { stop_stream: Signal::Armed },
    }
}

impl ExitSession {
    /// A record for a session whose backend connection was just made.
    pub fn new() -> (s: Self)
        ensures
            s == armed_session(),
    {
        ExitSession {
            up: UpExitSession { stop_copy: Signal::Armed },
            down: DownExitSession { stop_stream: Signal::Armed },
        }
    }
}

#[verifier::external_type_specification]
#[verifier::external_body]
pub struct ExDefaultHashBuilder(halfbrown::DefaultHashBuilder);

#[verifier::external_type_specification]
#[verifier::external_body]
#[verifier::reject_recursive_types(K)]
#[verifier::reject_recursive_types(V)]
#[verifier::reject_recursive_types(S)]
pub struct ExSizedHashMap<K, V, S, const VEC_LIMIT_UPPER: usize>(
    halfbrown::SizedHashMap<K, V, S, VEC_LIMIT_UPPER>,
);

/// The table type that backs the registry.
pub type SessionTable = halfbrown::HashMap<u128, ExitSession>;

/// The bindings held by the registry's table.
pub uninterp spec fn session_table(m: SessionTable) -> Map<u128, ExitSession>;

/// The registry's contents before any session was opened.
pub open spec fn empty_table() -> Map<u128, ExitSession> {
    Map::empty()
}

/// Relies on halfbrown's `HashMap::new`: the new map is empty.
#[verifier::external_body]
fn table_new() -> (m: SessionTable)
    ensures
        session_table(m) == empty_table(),
{
    halfbrown::HashMap::new()
}

/// Relies on halfbrown's `HashMap::insert`: it binds `k` to `v`, replacing
/// any earlier binding, and touches nothing else.
#[verifier::external_body]
fn table_insert(m: &mut SessionTable, k: u128, v: ExitSession)
    ensures
        session_table(*final(m)) == session_table(*old(m)).insert(k, v),
{
    m.insert(k, v);
}

/// Relies on halfbrown's `HashMap::remove`: it takes out the binding of `k`
/// and returns it, touching nothing else.
#[verifier::external_body]
fn table_remove(m: &mut SessionTable, k: u128) -> (r: Option<ExitSession>)
    ensures
        session_table(*final(m)) == session_table(*old(m)).remove(k),
        r matches Some(s) ==> session_table(*old(m)).contains_key(k) && s == session_table(
            *old(m),
        )[k],
        r is None ==> !session_table(*old(m)).contains_key(k),
{
    m.remove(&k)
}

/// Relies on halfbrown's `HashMap::get`: it returns the binding of `k` if
/// there is one.
#[verifier::external_body]
fn table_get<'a>(m: &'a SessionTable, k: u128) -> (r: Option<&'a ExitSession>)
    ensures
        r matches Some(s) ==> session_table(*m).contains_key(k) && *s == session_table(*m)[k],
        r is None ==> !session_table(*m).contains_key(k),
{
    m.get(&k)
}

/// Relies on halfbrown's `HashMap::len`: the number of bindings.
#[verifier::external_body]
fn table_len(m: &SessionTable) -> (n: usize)
    ensures
        n == session_table(*m).len(),
{
    m.len()
}

/// Relies on uuid's `Uuid::new_v4`, which draws a session id from the
/// process's random source.  Nothing is promised of the value: every caller
/// must work for any id, and collisions simply replace the stale binding.
#[verifier::external_body]
fn fresh_session_id() -> u128 {
    uuid::Uuid::new_v4().as_u128()
}

/// The registry of live sessions, keyed by session id.  The shell wraps it
/// in its read/write lock; these methods are its single-threaded core.
pub struct ExitSessionManager {
    sessions: SessionTable,
}

impl ExitSessionManager {
    /// The sessions the registry currently holds.
    pub closed spec fn view(&self) -> Map<u128, ExitSession> {
        session_table(self.sessions)
    }

    /// Every live session has both of its signals still armed: signals fire
    /// only on the way out, after `close` has removed the record.
    pub open spec fn wf(&self) -> bool {
        &&& self@.dom().finite()
        &&& forall|id: u128| self@.contains_key(id) ==> #[trigger] self@.index(id)
            == armed_session()
    }

    /// An empty registry.
    pub fn new() -> (m: Self)
        ensures
            m@ == Map::<u128, ExitSession>::empty(),
            m.wf(),
    {
        let m = ExitSessionManager { sessions: table_new() };
        proof {
            assert(m@ =~= Map::<u128, ExitSession>::empty());
        }
        m
    }

    /// How many sessions are live.
    pub fn len(&self) -> (n: usize)
        ensures
            n == self@.len(),
    {
        table_len(&self.sessions)
    }

    /// The `open` endpoint's decision, after the shell has attempted one
    /// backend connect: on success mint a fresh id, register an armed
    /// session under it and hand the id back (its 16-byte form is the
    /// response body); on connect failure register nothing, and the response
    /// body stays empty.
    pub fn open(&mut self, backend_connected: bool) -> (r: Option<u128>)
        requires
            old(self).wf(),
        ensures
            final(self).wf(),
            r matches Some(id) ==> backend_connected && final(self)@ == old(self)@.insert(
                id,
                armed_session(),
            ),
            r is None ==> !backend_connected && final(self)@ == old(self)@,
            backend_connected ==> r is Some,
    {
        if !backend_connected {
            return None;
        }
        let id = fresh_session_id();
        table_insert(&mut self.sessions, id, ExitSession::new());
        Some(id)
    }

    /// Locate the session an `upload` or `download` request addresses: parse
    /// the id in the path, then look it up.  The handler then takes the
    /// mutex of its half and streams; a malformed id or a missing session is
    /// answered with a client error instead.
    pub fn lookup_session(&self, id_text: &[u8]) -> (r: Result<u128, TunnelError>)
        ensures
            !is_valid_id_text(id_text@) ==> r == Err::<u128, TunnelError>(TunnelError::MalformedId),
            is_valid_id_text(id_text@) && !self@.contains_key(
                id_text_val(id_text@) as u128,
            ) ==> r == Err::<u128, TunnelError>(TunnelError::SessionNotFound),
            is_valid_id_text(id_text@) && self@.contains_key(id_text_val(id_text@) as u128) ==> (
            r matches Ok(id) && id == id_text_val(id_text@) && self@.contains_key(id)),
    {
        let id = match parse_id_text(id_text) {
            Some(id) => id,
            None => {
                return Err(TunnelError::MalformedId);
            },
        };
        match table_get(&self.sessions, id) {
            Some(_) => Ok(id),
            None => Err(TunnelError::SessionNotFound),
        }
    }

    /// The `close` endpoint: parse the id, drop the session from the
    /// registry, and fire both signals of the removed record - the upload
    /// copy stops and the download stream ends cleanly.  Afterwards the
    /// registry no longer holds the id.  Closing an id that is not live is
    /// the not-found error, and changes nothing.
    pub fn close(&mut self, id_text: &[u8]) -> (r: Result<ExitSession, TunnelError>)
        requires
            old(self).wf(),
        ensures
            final(self).wf(),
            !is_valid_id_text(id_text@) ==> {
                &&& r == Err::<ExitSession, TunnelError>(TunnelError::MalformedId)
                &&& final(self)@ == old(self)@
            },
            is_valid_id_text(id_text@) && !old(self)@.contains_key(id_text_val(id_text@) as u128)
                ==> {
                &&& r == Err::<ExitSession, TunnelError>(TunnelError::SessionNotFound)
                &&& final(self)@ == old(self)@
            },
            is_valid_id_text(id_text@) && old(self)@.contains_key(id_text_val(id_text@) as u128)
                ==> {
                &&& r matches Ok(s)
                &&& final(self)@ == old(self)@.remove(id_text_val(id_text@) as u128)
                &&& !final(self)@.contains_key(id_text_val(id_text@) as u128)
                &&& (r matches Ok(s) ==> s.up.stop_copy == Signal::Fired && s.down.stop_stream
                    == Signal::Fired)
            },
    {
        let id = match parse_id_text(id_text) {
            Some(id) => id,
            None => {
                return Err(TunnelError::MalformedId);
            },
        };
        match table_remove(&mut self.sessions, id) {
            Some(mut session) => {
                session.up.stop_copy = Signal::Fired;
                session.down.stop_stream = Signal::Fired;
                Ok(session)
            },
            None => Err(TunnelError::SessionNotFound),
        }
    }
}

/// How an upload copy ended, mirrored in the response body for
/// observability: the body stream ran dry, the backend broke the socket, or
/// the session was closed underneath the copy.
#[derive(Clone, Copy, Debug, PartialEq, Eq, Structural)]
pub enum UploadOutcome {
    Finished,
    TargetDisconnect,
    Cancelled,
}

/// The marker answering an upload request.  Every outcome is a success on
/// the HTTP side; a broken backend is reported out of band by tearing the
/// session down.
pub fn upload_outcome_message(outcome: UploadOutcome) -> (m: &'static str)
    ensures
        outcome == UploadOutcome::Finished ==> m@ == "finished"@,
        outcome == UploadOutcome::TargetDisconnect ==> m@ == "target disconnect"@,
        outcome == UploadOutcome::Cancelled ==> m@ == "cancelled"@,
{
    match outcome {
        UploadOutcome::Finished => "finished",
        UploadOutcome::TargetDisconnect => "target disconnect",
        UploadOutcome::Cancelled => "cancelled",
    }
}

/// Session count conservation: a batch of sessions opened under fresh
/// distinct ids and then each closed leaves the registry exactly as it was;
/// started empty, it ends empty, whatever ids the opens drew.
pub proof fn lemma_session_conservation(m: Map<u128, ExitSession>, ids: Seq<u128>)
    requires
        ids.no_duplicates(),
        forall|i: int| 0 <= i < ids.len() ==> !m.contains_key(#[trigger] ids[i]),
    ensures
        remove_all(insert_all(m, ids, (|id: u128| armed_session())), ids) == m,
        remove_all(
            insert_all(Map::<u128, ExitSession>::empty(), ids, (|id: u128| armed_session())),
            ids,
        ) == Map::<u128, ExitSession>::empty(),
{
    lemma_registry_conservation(m, ids, (|id: u128| armed_session()));
    lemma_registry_conservation(Map::<u128, ExitSession>::empty(), ids, (|id: u128| armed_session()));
}

} // verus!
