//! The directory of in-flight executions, keyed by execution id.

use std::collections::HashMap;
use vstd::prelude::*;

use crate::admission::Permit;
use crate::broadcast::Broadcaster;

verus! {

broadcast use vstd::std_specs::hash::group_hash_axioms;

/// The bookkeeping of one in-flight execution: its output channel and the
/// admission permit it holds until it ends.
pub struct Session {
    pub(crate) channel: Broadcaster,
    pub(crate) permit: Permit,
}

impl Session {
    pub fn new(channel: Broadcaster, permit: Permit) -> (s: Self)
        ensures
            s.channel() == channel,
    {
        Session { channel, permit }
    }

    pub closed spec fn channel(&self) -> Broadcaster {
        self.channel
    }

    /// Takes the session apart, for updating its channel or ending it.
    pub fn into_parts(self) -> (r: (Broadcaster, Permit))
        ensures
            r.0 == self.channel(),
    {
        (self.channel, self.permit)
    }
}

/// Execution id to session; at most one session per id.
pub struct SessionRegistry {
    sessions: HashMap<u128, Session>,
}

impl View for SessionRegistry {
    type V = Map<u128, Session>;

    closed spec fn view(&self) -> Map<u128, Session> {
        self.sessions@
    }
}

impl SessionRegistry {
    pub fn new() -> (r: Self)
        ensures
            r@ == Map::<u128, Session>::empty(),
    {
        SessionRegistry { sessions: HashMap::new() }
    }

    pub fn contains(&self, id: u128) -> (r: bool)
        ensures
            r == self@.contains_key(id),
    {
        self.sessions.contains_key(&id)
    }

    /// The output channel of a registered execution.
    pub fn lookup(&self, id: u128) -> (r: Option<&Broadcaster>)
        ensures
            match r {
                Some(b) => self@.contains_key(id) && *b == self@[id].channel(),
                None => !self@.contains_key(id),
            },
    {
        match self.sessions.get(&id) {
            Some(s) => Some(&s.channel),
            None => None,
        }
    }

    /// Registers a session under a free id. An id already in use is left
    /// alone and the session is handed back.
    pub fn create(&mut self, id: u128, session: Session) -> (r: Option<Session>)
        ensures
            old(self)@.contains_key(id) ==> final(self)@ == old(self)@ && r == Some(session),
            !old(self)@.contains_key(id) ==> final(self)@ == old(self)@.insert(id, session)
                && r is None,
    {
        if self.sessions.contains_key(&id) {
            Some(session)
        } else {
            self.sessions.insert(id, session);
            None
        }
    }

    /// Unregisters a session; removing an absent id changes nothing.
    pub fn remove(&mut self, id: u128) -> (r: Option<Session>)
        ensures
            final(self)@ == old(self)@.remove(id),
            match r {
                Some(s) => old(self)@.contains_key(id) && s == old(self)@[id],
                None => !old(self)@.contains_key(id),
            },
    {
        self.sessions.remove(&id)
    }

    pub fn len(&self) -> (r: usize)
        ensures
            r == self@.len(),
    {
        self.sessions.len()
    }
}

} // verus!
