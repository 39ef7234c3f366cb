//! The execution orchestrator: admission, session lifecycle, live output
//! and cancellation, as a state machine driven by the service around it.
//!
//! The service calls `start` for a new request and then runs the sandbox
//! in the background, feeding each output line to `publish` and calling
//! `finish` once the process has ended, whatever the outcome. `kill` only
//! confirms that the execution is running: the termination it asks for
//! ends the process, and the ordinary `finish` then tears the session down.

use std::collections::HashMap;
use vstd::prelude::*;

use crate::admission::{ContainerPool, Permit};
use crate::broadcast::{count_after_join, count_after_leave, Broadcaster, Cursor, Delivery};
use crate::ids::{parse_id, random_execution_id, uuid_parse};
use crate::registry::{Session, SessionRegistry};

verus! {

broadcast use vstd::std_specs::hash::group_hash_axioms;

/// Why a start request was turned away.
#[derive(Debug, Clone, Copy, PartialEq, Eq, Structural)]
pub enum StartError {
    /// Every execution slot is taken; retry later.
    Busy,
    /// The id is still in use by another execution or its stream.
    IdInUse,
}

/// No running execution has that id.
#[derive(Debug, Clone, Copy, PartialEq, Eq, Structural)]
pub struct SessionNotFound;

/// Why a kill request failed.
#[derive(Debug, Clone, Copy, PartialEq, Eq, Structural)]
pub enum KillError {
    /// No running execution has that id.
    SessionNotFound,
    /// The termination signal could not be delivered.
    TerminationFailed,
}

/// A live reader of one execution's output.
#[derive(Debug, Clone, Copy, PartialEq, Eq, Structural)]
pub struct Subscription {
    id: u128,
    cursor: Cursor,
}

impl Subscription {
    pub closed spec fn id_spec(&self) -> u128 {
        self.id
    }

    pub closed spec fn cursor_spec(&self) -> Cursor {
        self.cursor
    }

    pub fn id(&self) -> (r: u128)
        ensures
            r == self.id_spec(),
    {
        self.id
    }
}

/// The decision on a start request.
pub open spec fn start_decision(capacity: nat, outstanding: nat, taken: bool) -> Result<
    (),
    StartError,
> {
    if outstanding >= capacity {
        Err(StartError::Busy)
    } else if taken {
        Err(StartError::IdInUse)
    } else {
        Ok(())
    }
}

/// A fresh stream: nothing published, open, nobody listening.
pub open spec fn fresh_channel(b: Broadcaster, depth: nat) -> bool {
    &&& b.wf()
    &&& b.log() == Seq::<Seq<char>>::empty()
    &&& !b.is_closed()
    &&& b.subscriber_count() == 0
    &&& b.capacity_spec() == depth
}

/// The answer to a kill request.
pub open spec fn kill_decision(running: bool) -> Result<(), KillError> {
    if running {
        Ok(())
    } else {
        Err(KillError::SessionNotFound)
    }
}

/// Everything but the running streams is as before.
pub open spec fn unchanged_but_live(pre: Orchestrator, post: Orchestrator) -> bool {
    &&& post.capacity() == pre.capacity()
    &&& post.outstanding() == pre.outstanding()
    &&& post.history_depth() == pre.history_depth()
    &&& post.draining() == pre.draining()
}

/// `post` is `pre` after a start request under `id` answered with `r`.
pub open spec fn started(
    pre: Orchestrator,
    post: Orchestrator,
    id: u128,
    r: Result<(), StartError>,
) -> bool {
    &&& post.capacity() == pre.capacity()
    &&& post.history_depth() == pre.history_depth()
    &&& post.draining() == pre.draining()
    &&& r == start_decision(pre.capacity(), pre.outstanding(), pre.id_taken(id))
    &&& r is Ok ==> {
        &&& post.outstanding() == pre.outstanding() + 1
        &&& post.live() == pre.live().insert(id, post.live()[id])
        &&& fresh_channel(post.live()[id], pre.history_depth())
    }
    &&& r is Err ==> {
        &&& post.outstanding() == pre.outstanding()
        &&& post.live() == pre.live()
    }
}

/// `post` is `pre` after the execution `id` has ended.
pub open spec fn finished(pre: Orchestrator, post: Orchestrator, id: u128) -> bool {
    &&& post.capacity() == pre.capacity()
    &&& post.history_depth() == pre.history_depth()
    &&& post.live() == pre.live().remove(id)
    &&& if pre.is_live(id) {
        let b = pre.live()[id];
        &&& post.outstanding() == pre.outstanding() - 1
        &&& if b.subscriber_count() > 0 {
            &&& post.draining() == pre.draining().insert(id, post.draining()[id])
            &&& post.draining()[id].log() == b.log()
            &&& post.draining()[id].retained() == b.retained()
            &&& post.draining()[id].is_closed()
            &&& post.draining()[id].subscriber_count() == b.subscriber_count()
        } else {
            post.draining() == pre.draining()
        }
    } else {
        &&& post.outstanding() == pre.outstanding()
        &&& post.draining() == pre.draining()
    }
}

/// `post` is `pre` after a subscription request for `id` answered with `r`.
pub open spec fn subscribed(
    pre: Orchestrator,
    post: Orchestrator,
    id: u128,
    r: Result<Subscription, SessionNotFound>,
) -> bool {
    &&& unchanged_but_live(pre, post)
    &&& r is Ok <==> pre.is_live(id)
    &&& r is Err ==> post.live() == pre.live()
    &&& r matches Ok(sub) ==> {
        &&& sub.id_spec() == id
        &&& sub.cursor_spec().next_spec() == pre.live()[id].log().len()
        &&& post.live() == pre.live().insert(id, post.live()[id])
        &&& post.live()[id].same_stream(pre.live()[id])
        &&& post.live()[id].subscriber_count() == count_after_join(
            pre.live()[id].subscriber_count(),
        )
    }
}

/// `post` is `pre` after a reader of `id` has left.
pub open spec fn left(pre: Orchestrator, post: Orchestrator, id: u128) -> bool {
    &&& post.capacity() == pre.capacity()
    &&& post.outstanding() == pre.outstanding()
    &&& post.history_depth() == pre.history_depth()
    &&& if pre.is_live(id) {
        &&& post.draining() == pre.draining()
        &&& post.live() == pre.live().insert(id, post.live()[id])
        &&& post.live()[id].same_stream(pre.live()[id])
        &&& post.live()[id].subscriber_count() == count_after_leave(
            pre.live()[id].subscriber_count(),
        )
    } else if pre.draining().contains_key(id) {
        let b = pre.draining()[id];
        &&& post.live() == pre.live()
        &&& if b.subscriber_count() <= 1 {
            post.draining() == pre.draining().remove(id)
        } else {
            &&& post.draining() == pre.draining().insert(id, post.draining()[id])
            &&& post.draining()[id].same_stream(b)
            &&& post.draining()[id].subscriber_count() == b.subscriber_count() - 1
        }
    } else {
        &&& post.live() == pre.live()
        &&& post.draining() == pre.draining()
    }
}

/// The composed service state.
pub struct Orchestrator {
    pool: ContainerPool,
    registry: SessionRegistry,
    draining: HashMap<u128, Broadcaster>,
    history_depth: usize,
}

impl Orchestrator {
    /// Maximum number of executions running at once.
    pub closed spec fn capacity(&self) -> nat {
        self.pool.capacity_spec()
    }

    /// Permits currently held by executions.
    pub closed spec fn outstanding(&self) -> nat {
        self.pool.outstanding_spec()
    }

    /// Lines each stream keeps for readers that lag.
    pub closed spec fn history_depth(&self) -> nat {
        self.history_depth as nat
    }

    /// Running executions and their output streams.
    pub closed spec fn live(&self) -> Map<u128, Broadcaster> {
        self.registry@.map_values(|s: Session| s.channel())
    }

    /// Streams of finished executions that still have readers.
    pub closed spec fn draining(&self) -> Map<u128, Broadcaster> {
        self.draining@
    }

    pub open spec fn is_live(&self, id: u128) -> bool {
        self.live().contains_key(id)
    }

    pub open spec fn id_taken(&self, id: u128) -> bool {
        self.live().contains_key(id) || self.draining().contains_key(id)
    }

    /// The stream a reader of `id` reads from, if it still exists.
    pub open spec fn stream(&self, id: u128) -> Option<Broadcaster> {
        if self.live().contains_key(id) {
            Some(self.live()[id])
        } else if self.draining().contains_key(id) {
            Some(self.draining()[id])
        } else {
            None
        }
    }

    pub closed spec fn wf(&self) -> bool {
        &&& self.pool.wf()
        &&& self.history_depth > 0
        &&& self.pool.outstanding_spec() == self.registry@.len()
        &&& self.registry@.dom().finite()
        &&& forall|id: u128| #[trigger]
            self.registry@.contains_key(id) ==> {
                let b = self.registry@[id].channel();
                &&& b.wf()
                &&& !b.is_closed()
                &&& b.capacity_spec() == self.history_depth
            }
        &&& forall|id: u128| #[trigger]
            self.draining@.contains_key(id) ==> {
                &&& self.draining@[id].wf()
                &&& self.draining@[id].is_closed()
                &&& !self.registry@.contains_key(id)
            }
    }

    /// Facts every well-formed state offers its users.
    pub proof fn lemma_wf(&self)
        requires
            self.wf(),
        ensures
            self.outstanding() == self.live().len(),
            self.outstanding() <= self.capacity(),
            self.live().dom().finite(),
            self.history_depth() > 0,
            forall|id: u128| #[trigger]
                self.live().contains_key(id) ==> {
                    &&& self.live()[id].wf()
                    &&& !self.live()[id].is_closed()
                    &&& self.live()[id].capacity_spec() == self.history_depth()
                },
            forall|id: u128| #[trigger]
                self.draining().contains_key(id) ==> {
                    &&& self.draining()[id].wf()
                    &&& self.draining()[id].is_closed()
                    &&& !self.live().contains_key(id)
                },
    {
        self.pool.lemma_wf();
        assert(self.live().dom() =~= self.registry@.dom());
    }

    /// A service with `max_concurrent` execution slots whose streams keep
    /// `history_depth` lines.
    pub fn new(max_concurrent: usize, history_depth: usize) -> (o: Self)
        requires
            history_depth > 0,
        ensures
            o.wf(),
            o.capacity() == max_concurrent,
            o.outstanding() == 0,
            o.history_depth() == history_depth,
            o.live() == Map::<u128, Broadcaster>::empty(),
            o.draining() == Map::<u128, Broadcaster>::empty(),
    {
        let o = Orchestrator {
            pool: ContainerPool::new(max_concurrent),
            registry: SessionRegistry::new(),
            draining: HashMap::new(),
            history_depth,
        };
        assert(o.live() =~= Map::<u128, Broadcaster>::empty());
        o
    }

    /// Admits an execution under `id`: takes a permit, registers a fresh
    /// open stream for it. A full pool turns the request away before the
    /// id is looked at; an id still in use is refused too.
    pub fn start_with_id(&mut self, id: u128) -> (r: Result<(), StartError>)
        requires
            old(self).wf(),
        ensures
            final(self).wf(),
            started(*old(self), *final(self), id, r),
    {
        let permit = match self.pool.acquire() {
            Ok(p) => p,
            Err(_) => {
                return Err(StartError::Busy);
            },
        };
        if self.registry.contains(id) || self.draining.contains_key(&id) {
            self.pool.release(permit);
            proof {
                assert(old(self).live().dom() =~= old(self).registry@.dom());
            }
            return Err(StartError::IdInUse);
        }
        let channel = Broadcaster::new(self.history_depth);
        let session = Session::new(channel, permit);
        let _ = self.registry.create(id, session);
        proof {
            assert(self.live() =~= old(self).live().insert(id, channel));
            assert(old(self).live().dom() =~= old(self).registry@.dom());
        }
        Ok(())
    }

    /// Admits an execution under a fresh random id, returned on success.
    /// Whether a slot is free decides `Busy`; the drawn id is checked as in
    /// `start_with_id`.
    pub fn start(&mut self) -> (r: Result<u128, StartError>)
        requires
            old(self).wf(),
        ensures
            final(self).wf(),
            (r matches Err(StartError::Busy)) <==> old(self).outstanding() >= old(self).capacity(),
            match r {
                Ok(id) => started(*old(self), *final(self), id, Ok(())),
                Err(e) => exists|id: u128| started(*old(self), *final(self), id, Err(e)),
            },
    {
        let id = random_execution_id();
        match self.start_with_id(id) {
            Ok(()) => Ok(id),
            Err(e) => Err(e),
        }
    }

    /// Hands one output line of a running execution to its readers. Lines
    /// for an id that is not running are dropped.
    pub fn publish(&mut self, id: u128, line: String) -> (accepted: bool)
        requires
            old(self).wf(),
        ensures
            final(self).wf(),
            unchanged_but_live(*old(self), *final(self)),
            final(self).live().dom() == old(self).live().dom(),
            accepted == (old(self).is_live(id) && old(self).live()[id].log().len() < u64::MAX),
            accepted ==> final(self).live() == old(self).live().insert(id, final(self).live()[id]),
            accepted ==> final(self).live()[id].log() == old(self).live()[id].log().push(line@),
            accepted ==> final(self).live()[id].subscriber_count() == old(self).live()[
                id
            ].subscriber_count(),
            accepted ==> final(self).live()[id].capacity_spec() == old(self).live()[
                id
            ].capacity_spec(),
            accepted ==> final(self).live()[id].is_closed() == old(self).live()[id].is_closed(),
            accepted ==> final(self).live()[id].wf(),
            !accepted ==> final(self).live() == old(self).live(),
    {
        match self.registry.remove(id) {
            None => {
                proof {
                    assert(self.live() =~= old(self).live());
                }
                false
            },
            Some(session) => {
                let (mut channel, permit) = session.into_parts();
                let accepted = channel.publish(line);
                let ghost new_channel = channel;
                let _ = self.registry.create(id, Session::new(channel, permit));
                proof {
                    assert(self.registry@.dom() =~= old(self).registry@.dom());
                    assert(self.live() =~= old(self).live().insert(id, new_channel));
                    if !accepted {
                        assert(self.live() =~= old(self).live());
                    }
                }
                accepted
            },
        }
    }

    /// The background task of `id` has ended, whatever the outcome: the
    /// session leaves the registry, its stream is closed and its permit is
    /// released. Readers still attached keep draining the stream. Finishing
    /// an id that is not running changes nothing.
    pub fn finish(&mut self, id: u128)
        requires
            old(self).wf(),
        ensures
            final(self).wf(),
            finished(*old(self), *final(self), id),
    {
        match self.registry.remove(id) {
            None => {
                proof {
                    assert(self.live() =~= old(self).live().remove(id));
                }
            },
            Some(session) => {
                let (mut channel, permit) = session.into_parts();
                channel.close();
                self.pool.release(permit);
                proof {
                    assert(old(self).live().dom() =~= old(self).registry@.dom());
                    assert(self.live() =~= old(self).live().remove(id));
                }
                if channel.subscribers() > 0 {
                    let ghost closed = channel;
                    self.draining.insert(id, channel);
                    proof {
                        assert(self.draining@ == old(self).draining@.insert(id, closed));
                    }
                }
            },
        }
    }

    /// Attaches a reader to a running execution, positioned at "now": it
    /// will see only lines published from here on.
    pub fn subscribe(&mut self, id: u128) -> (r: Result<Subscription, SessionNotFound>)
        requires
            old(self).wf(),
        ensures
            final(self).wf(),
            subscribed(*old(self), *final(self), id, r),
    {
        match self.registry.remove(id) {
            None => {
                proof {
                    assert(self.live() =~= old(self).live());
                }
                Err(SessionNotFound)
            },
            Some(session) => {
                let (mut channel, permit) = session.into_parts();
                proof {
                    assert(old(self).registry@.contains_key(id));
                    assert(old(self).live()[id] == channel);
                }
                let cursor = channel.subscribe();
                let ghost new_channel = channel;
                let _ = self.registry.create(id, Session::new(channel, permit));
                proof {
                    assert(self.registry@.dom() =~= old(self).registry@.dom());
                    assert(self.live() =~= old(self).live().insert(id, new_channel));
                }
                Ok(Subscription { id, cursor })
            },
        }
    }

    /// One read for a reader: the next line, a report of skipped lines,
    /// nothing yet, or the end of the stream. A stream that no longer
    /// exists reads as ended.
    pub fn receive(&self, sub: &mut Subscription) -> (d: Delivery)
        requires
            self.wf(),
        ensures
            final(sub).id_spec() == old(sub).id_spec(),
            match self.stream(old(sub).id_spec()) {
                Some(b) => b.delivered(old(sub).cursor_spec(), final(sub).cursor_spec(), d),
                None => d is Closed && *final(sub) == *old(sub),
            },
    {
        proof {
            assert(self.live().dom() =~= self.registry@.dom());
        }
        match self.registry.lookup(sub.id) {
            Some(b) => b.receive(&mut sub.cursor),
            None => match self.draining.get(&sub.id) {
                Some(b) => b.receive(&mut sub.cursor),
                None => Delivery::Closed,
            },
        }
    }

    /// A reader leaves. The stream of a finished execution is dropped once
    /// its last reader has left.
    pub fn unsubscribe(&mut self, sub: Subscription)
        requires
            old(self).wf(),
        ensures
            final(self).wf(),
            left(*old(self), *final(self), sub.id_spec()),
    {
        let id = sub.id;
        match self.registry.remove(id) {
            Some(session) => {
                let (mut channel, permit) = session.into_parts();
                proof {
                    assert(old(self).registry@.contains_key(id));
                    assert(old(self).live()[id] == channel);
                }
                channel.unsubscribe();
                let ghost new_channel = channel;
                let _ = self.registry.create(id, Session::new(channel, permit));
                proof {
                    assert(self.registry@.dom() =~= old(self).registry@.dom());
                    assert(self.live() =~= old(self).live().insert(id, new_channel));
                }
            },
            None => {
                proof {
                    assert(self.live() =~= old(self).live());
                }
                match self.draining.remove(&id) {
                    None => {
                        proof {
                            assert(self.draining@ =~= old(self).draining@);
                        }
                    },
                    Some(mut channel) => {
                        channel.unsubscribe();
                        if channel.subscribers() > 0 {
                            let ghost kept = channel;
                            self.draining.insert(id, channel);
                            proof {
                                assert(self.draining@ =~= old(self).draining@.insert(id, kept));
                            }
                        }
                    },
                }
            },
        }
    }

    /// Confirms that `id` is running, so that its termination may be
    /// issued. Changes nothing.
    pub fn kill(&self, id: u128) -> (r: Result<(), KillError>)
        requires
            self.wf(),
        ensures
            r == kill_decision(self.is_live(id)),
    {
        proof {
            assert(self.live().dom() =~= self.registry@.dom());
        }
        if self.registry.contains(id) {
            Ok(())
        } else {
            Err(KillError::SessionNotFound)
        }
    }

    /// Whether `id` is running.
    pub fn is_running(&self, id: u128) -> (r: bool)
        requires
            self.wf(),
        ensures
            r == self.is_live(id),
    {
        proof {
            assert(self.live().dom() =~= self.registry@.dom());
        }
        self.registry.contains(id)
    }

    /// Number of running executions.
    pub fn running(&self) -> (r: usize)
        requires
            self.wf(),
        ensures
            r == self.live().len(),
    {
        proof {
            assert(self.live().dom() =~= self.registry@.dom());
        }
        self.registry.len()
    }

    /// Permits currently held.
    pub fn permits_in_use(&self) -> (r: usize)
        ensures
            r == self.outstanding(),
    {
        self.pool.outstanding()
    }

    /// Free execution slots.
    pub fn available(&self) -> (r: usize)
        requires
            self.wf(),
        ensures
            r == self.capacity() - self.outstanding(),
    {
        self.pool.available()
    }

    /// `subscribe` for an id given as text; text that is no UUID names no
    /// session.
    pub fn subscribe_text(&mut self, session_id: &str) -> (r: Result<Subscription, SessionNotFound>)
        requires
            old(self).wf(),
        ensures
            final(self).wf(),
            match uuid_parse(session_id@) {
                Some(id) => subscribed(*old(self), *final(self), id, r),
                None => r is Err && *final(self) == *old(self),
            },
    {
        match parse_id(session_id) {
            Some(id) => self.subscribe(id),
            None => Err(SessionNotFound),
        }
    }

    /// `kill` for an id given as text; on success, the id whose sandbox
    /// is to be terminated.
    pub fn kill_text(&self, session_id: &str) -> (r: Result<u128, KillError>)
        requires
            self.wf(),
        ensures
            match uuid_parse(session_id@) {
                Some(id) => r == match kill_decision(self.is_live(id)) {
                    Ok(()) => Ok(id),
                    Err(e) => Err(e),
                },
                None => r == Err::<u128, KillError>(KillError::SessionNotFound),
            },
    {
        match parse_id(session_id) {
            Some(id) => match self.kill(id) {
                Ok(()) => Ok(id),
                Err(e) => Err(e),
            },
            None => Err(KillError::SessionNotFound),
        }
    }

    /// Admission ceiling: starting from no running executions, `N + 1`
    /// start requests under distinct free ids, `N` being the capacity,
    /// admit the first `N` and turn the last away as busy.
    pub proof fn lemma_admission_ceiling(
        states: Seq<Orchestrator>,
        ids: Seq<u128>,
        results: Seq<Result<(), StartError>>,
    )
        requires
            ids.len() == states[0].capacity() + 1,
            states.len() == ids.len() + 1,
            results.len() == ids.len(),
            states[0].outstanding() == 0,
            forall|i: int, j: int| 0 <= i < j < ids.len() ==> ids[i] != ids[j],
            forall|i: int| 0 <= i < ids.len() ==> !states[0].id_taken(#[trigger] ids[i]),
            forall|i: int|
                0 <= i < ids.len() ==> started(
                    #[trigger] states[i],
                    states[i + 1],
                    ids[i],
                    results[i],
                ),
        ensures
            forall|i: int| 0 <= i < states[0].capacity() ==> #[trigger] results[i] is Ok,
            results[states[0].capacity() as int] == Err::<(), StartError>(StartError::Busy),
    {
        let n = states[0].capacity();
        Self::lemma_ceiling_prefix(states, ids, results, n);
        assert(started(states[n as int], states[(n + 1) as int], ids[n as int], results[n as int]));
    }

    proof fn lemma_ceiling_prefix(
        states: Seq<Orchestrator>,
        ids: Seq<u128>,
        results: Seq<Result<(), StartError>>,
        i: nat,
    )
        requires
            ids.len() == states[0].capacity() + 1,
            states.len() == ids.len() + 1,
            results.len() == ids.len(),
            states[0].outstanding() == 0,
            forall|i: int, j: int| 0 <= i < j < ids.len() ==> ids[i] != ids[j],
            forall|i: int| 0 <= i < ids.len() ==> !states[0].id_taken(#[trigger] ids[i]),
            forall|i: int|
                0 <= i < ids.len() ==> started(
                    #[trigger] states[i],
                    states[i + 1],
                    ids[i],
                    results[i],
                ),
            i <= states[0].capacity(),
        ensures
            states[i as int].outstanding() == i,
            states[i as int].capacity() == states[0].capacity(),
            forall|k: int| i <= k < ids.len() ==> !states[i as int].id_taken(#[trigger] ids[k]),
            forall|k: int| 0 <= k < i ==> #[trigger] results[k] is Ok,
        decreases i,
    {
        if i > 0 {
            let p = (i - 1) as nat;
            Self::lemma_ceiling_prefix(states, ids, results, p);
            assert(started(states[p as int], states[i as int], ids[p as int], results[p as int]));
            assert forall|k: int| i <= k < ids.len() implies !states[i as int].id_taken(
                #[trigger] ids[k],
            ) by {
                assert(ids[p as int] != ids[k]);
                assert(!states[p as int].id_taken(ids[k]));
            }
        }
    }

    /// Permits follow running executions: two well-formed states with the
    /// same running executions hold the same number of permits, so once
    /// every execution started since a given state has ended (by success,
    /// failure, timeout or kill, all of which end in `finish`), the permit
    /// count is back where it was.
    pub proof fn lemma_permits_restored(pre: Orchestrator, post: Orchestrator)
        requires
            pre.wf(),
            post.wf(),
            post.live().dom() == pre.live().dom(),
        ensures
            post.outstanding() == pre.outstanding(),
    {
        pre.lemma_wf();
        post.lemma_wf();
    }

    /// Once an execution has ended it is gone: subscribing to it and
    /// killing it both answer that no such session exists.
    pub proof fn lemma_finished_is_gone(
        pre: Orchestrator,
        post: Orchestrator,
        id: u128,
        later: Orchestrator,
        r: Result<Subscription, SessionNotFound>,
    )
        requires
            finished(pre, post, id),
            subscribed(post, later, id, r),
        ensures
            r is Err,
            later.live() == post.live(),
            kill_decision(post.is_live(id)) == Err::<(), KillError>(KillError::SessionNotFound),
    {
    }

    /// Two executions admitted one after the other get distinct ids.
    pub proof fn lemma_distinct_ids(
        s0: Orchestrator,
        s1: Orchestrator,
        s2: Orchestrator,
        first: u128,
        second: u128,
    )
        requires
            started(s0, s1, first, Ok(())),
            started(s1, s2, second, Ok(())),
        ensures
            first != second,
            s2.is_live(first),
            s2.is_live(second),
    {
    }

    /// Ending one execution leaves every other running execution and its
    /// stream exactly as it was.
    pub proof fn lemma_finish_isolated(pre: Orchestrator, post: Orchestrator, id: u128, other: u128)
        requires
            finished(pre, post, id),
            other != id,
            pre.is_live(other),
        ensures
            post.is_live(other),
            post.live()[other] == pre.live()[other],
    {
    }
}

} // verus!
