//! The entry node's bookkeeping of live per-connection handlers.
//!
//! Each accepted client connection registers itself under its session id for
//! as long as its handler runs, and unregisters on the way out.  The law at
//! the bottom says that handlers do not leak: once every registered
//! connection has unregistered, the count of active handlers is zero again.

use crate::registry::{insert_all, lemma_registry_conservation, remove_all};
use std::collections::HashMap;
use vstd::prelude::*;

verus! {

/// One live per-connection handler.  What the handler works with - the
/// client socket's halves and the two stop signals - lives in the task
/// itself; the manager only accounts for its existence.
#[derive(Clone, Copy, Debug, PartialEq, Eq, Structural)]
pub struct Connection {}

/// The live handlers, keyed by the session id each one opened.
pub struct ConnectionManager {
    map: HashMap<u128, Connection>,
}

impl ConnectionManager {
    /// The handlers currently registered.
    pub closed spec fn view(&self) -> Map<u128, Connection> {
        self.map@
    }

    /// A manager with no connection yet.
    pub fn new() -> (m: Self)
        ensures
            m@ == Map::<u128, Connection>::empty(),
    {
        Self { map: HashMap::new() }
    }

    /// Account for a handler that just opened its session.
    pub fn register(&mut self, id: u128)
        ensures
            final(self)@ == old(self)@.insert(id, Connection {  }),
    {
        self.map.insert(id, Connection {  });
    }

    /// Account for a handler that finished, for whatever reason.
    pub fn unregister(&mut self, id: u128)
        ensures
            final(self)@ == old(self)@.remove(id),
    {
        self.map.remove(&id);
    }

    /// How many handlers are live.
    pub fn active(&self) -> (n: usize)
        ensures
            n == self@.len(),
    {
        self.map.len()
    }
}

/// No leaked handlers: a batch of connections that all register under fresh
/// distinct ids and all unregister leaves the manager exactly as it was;
/// started empty, the count of active handlers is zero again.
pub proof fn lemma_no_leaked_handlers(m: Map<u128, Connection>, ids: Seq<u128>)
    requires
        ids.no_duplicates(),
        forall|i: int| 0 <= i < ids.len() ==> !m.contains_key(#[trigger] ids[i]),
    ensures
        remove_all(insert_all(m, ids, (|id: u128| Connection {  })), ids) == m,
        remove_all(
            insert_all(Map::<u128, Connection>::empty(), ids, (|id: u128| Connection {  })),
            ids,
        ).len() == 0,
{
    lemma_registry_conservation(m, ids, (|id: u128| Connection {  }));
    lemma_registry_conservation(
        Map::<u128, Connection>::empty(),
        ids,
        (|id: u128| Connection {  }),
    );
}

} // verus!
