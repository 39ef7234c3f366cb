//! Single-producer, many-consumer line channel with bounded history that
//! drops lines for laggards instead of slowing the producer.

use vstd::prelude::*;

verus! {

/// A subscriber's read position: the sequence number of the next line it
/// wants.
#[derive(Debug, Clone, Copy, PartialEq, Eq, Structural)]
pub struct Cursor {
    next: u64,
}

impl Cursor {
    pub closed spec fn next_spec(&self) -> nat {
        self.next as nat
    }

    pub fn position(&self) -> (r: u64)
        ensures
            r == self.next_spec(),
    {
        self.next
    }
}

/// What a subscriber gets from one read.
#[derive(Debug, PartialEq, Eq)]
pub enum Delivery {
    /// The next line of the stream.
    Line(String),
    /// The subscriber fell behind the retained history; this many lines
    /// were skipped and the cursor moved to the oldest retained line.
    Lagged(u64),
    /// Nothing new yet; the stream is still open.
    Pending,
    /// Every line has been read and the producer has finished.
    Closed,
}

/// A reader count after one more reader joins (it saturates).
pub open spec fn count_after_join(n: nat) -> nat {
    if n < u64::MAX {
        n + 1
    } else {
        n
    }
}

/// A reader count after one reader leaves (it stops at zero).
pub open spec fn count_after_leave(n: nat) -> nat {
    if n > 0 {
        (n - 1) as nat
    } else {
        0
    }
}

/// What one read delivers, given the whole published log, the index of the
/// oldest retained line, whether the stream is closed, and the cursor.
pub open spec fn delivery_spec(
    log: Seq<Seq<char>>,
    first: nat,
    closed: bool,
    next: nat,
) -> (Option<Seq<char>>, nat, bool) {
    // (line delivered, cursor afterwards, end of stream)
    if next < first {
        (None, first, false)
    } else if next < log.len() {
        (Some(log[next as int]), next + 1, false)
    } else {
        (None, next, closed)
    }
}

/// The lossy fan-out channel of one execution.
pub struct Broadcaster {
    capacity: usize,
    published: u64,
    lines: Vec<String>,
    closed: bool,
    subscribers: u64,
    log: Ghost<Seq<Seq<char>>>,
}

impl Broadcaster {
    /// Every line ever published, oldest first.
    pub closed spec fn log(&self) -> Seq<Seq<char>> {
        self.log@
    }

    /// The history depth: how many lines are kept for lagging readers.
    pub closed spec fn capacity_spec(&self) -> nat {
        self.capacity as nat
    }

    pub closed spec fn is_closed(&self) -> bool {
        self.closed
    }

    pub closed spec fn subscriber_count(&self) -> nat {
        self.subscribers as nat
    }

    /// The lines still held for readers.
    pub closed spec fn retained(&self) -> Seq<Seq<char>> {
        self.lines@.map_values(|s: String| s@)
    }

    /// Index in `log()` of the oldest retained line.
    pub open spec fn first_retained(&self) -> nat {
        if self.log().len() < self.capacity_spec() {
            0
        } else {
            (self.log().len() - self.capacity_spec()) as nat
        }
    }

    pub closed spec fn wf(&self) -> bool {
        &&& self.capacity > 0
        &&& self.published as nat == self.log@.len()
        &&& self.lines@.len() <= self.capacity
        &&& self.lines@.len() == if self.log@.len() < self.capacity {
            self.log@.len()
        } else {
            self.capacity as nat
        }
        &&& self.retained() =~= self.log@.subrange(
            self.log@.len() - self.lines@.len(),
            self.log@.len() as int,
        )
    }

    /// `d` is what a read by the reader at `before` yields, leaving it at
    /// `after`.
    pub open spec fn delivered(&self, before: Cursor, after: Cursor, d: Delivery) -> bool {
        let (line, next, end) = delivery_spec(
            self.log(),
            self.first_retained(),
            self.is_closed(),
            before.next_spec(),
        );
        &&& after.next_spec() == next
        &&& match d {
            Delivery::Line(l) => line == Some(l@),
            Delivery::Lagged(n) => line is None && !end && n == next - before.next_spec() && n
                > 0,
            Delivery::Pending => line is None && !end && next == before.next_spec(),
            Delivery::Closed => line is None && end,
        }
    }

    /// Same stream contents and state; readers may differ.
    pub open spec fn same_stream(&self, other: Broadcaster) -> bool {
        &&& self.wf() == other.wf()
        &&& self.log() == other.log()
        &&& self.retained() == other.retained()
        &&& self.is_closed() == other.is_closed()
        &&& self.capacity_spec() == other.capacity_spec()
    }

    pub fn new(capacity: usize) -> (b: Self)
        requires
            capacity > 0,
        ensures
            b.wf(),
            b.capacity_spec() == capacity,
            b.log() == Seq::<Seq<char>>::empty(),
            !b.is_closed(),
            b.subscriber_count() == 0,
    {
        let b = Broadcaster {
            capacity,
            published: 0,
            lines: Vec::new(),
            closed: false,
            subscribers: 0,
            log: Ghost(Seq::empty()),
        };
        assert(b.retained() =~= Seq::<Seq<char>>::empty());
        b
    }

    /// Offers a line to every current subscriber without waiting for any of
    /// them. Refused once the stream is closed (and when the sequence
    /// counter is exhausted).
    pub fn publish(&mut self, line: String) -> (accepted: bool)
        requires
            old(self).wf(),
        ensures
            final(self).wf(),
            accepted == (!old(self).is_closed() && old(self).log().len() < u64::MAX),
            accepted ==> final(self).log() == old(self).log().push(line@),
            !accepted ==> *final(self) == *old(self),
            final(self).capacity_spec() == old(self).capacity_spec(),
            final(self).is_closed() == old(self).is_closed(),
            final(self).subscriber_count() == old(self).subscriber_count(),
    {
        if self.closed || self.published == u64::MAX {
            return false;
        }
        let ghost old_lines = self.lines@;
        let ghost old_log = self.log@;
        if self.lines.len() == self.capacity {
            self.lines.remove(0);
        }
        self.lines.push(line);
        self.published = self.published + 1;
        proof {
            self.log@ = old_log.push(self.lines@.last()@);
            assert(self.retained() =~= self.log@.subrange(
                self.log@.len() - self.lines@.len(),
                self.log@.len() as int,
            )) by {
                assert forall|i: int| 0 <= i < self.lines@.len() implies #[trigger] self.retained()[i]
                    == self.log@[self.log@.len() - self.lines@.len() + i] by {
                    if i < self.lines@.len() - 1 {
                        let k = if old_lines.len() == self.capacity { i + 1 } else { i };
                        assert(self.lines@[i] == old_lines[k]);
                        assert(old_lines.map_values(|s: String| s@)[k] == old_log[old_log.len()
                            - old_lines.len() + k]);
                    }
                }
            }
        }
        true
    }

    /// Ends the stream: readers drain what is retained and then see
    /// `Closed`.
    pub fn close(&mut self)
        requires
            old(self).wf(),
        ensures
            final(self).wf(),
            final(self).is_closed(),
            final(self).log() == old(self).log(),
            final(self).retained() == old(self).retained(),
            final(self).capacity_spec() == old(self).capacity_spec(),
            final(self).subscriber_count() == old(self).subscriber_count(),
    {
        self.closed = true;
    }

    /// A new reader positioned at "now": it will only see lines published
    /// after this call.
    pub fn subscribe(&mut self) -> (c: Cursor)
        requires
            old(self).wf(),
        ensures
            final(self).wf(),
            c.next_spec() == old(self).log().len(),
            final(self).log() == old(self).log(),
            final(self).retained() == old(self).retained(),
            final(self).is_closed() == old(self).is_closed(),
            final(self).capacity_spec() == old(self).capacity_spec(),
            final(self).subscriber_count() == count_after_join(old(self).subscriber_count()),
    {
        if self.subscribers < u64::MAX {
            self.subscribers = self.subscribers + 1;
        }
        Cursor { next: self.published }
    }

    /// A reader leaves.
    pub fn unsubscribe(&mut self)
        requires
            old(self).wf(),
        ensures
            final(self).wf(),
            final(self).log() == old(self).log(),
            final(self).retained() == old(self).retained(),
            final(self).is_closed() == old(self).is_closed(),
            final(self).capacity_spec() == old(self).capacity_spec(),
            final(self).subscriber_count() == count_after_leave(old(self).subscriber_count()),
    {
        if self.subscribers > 0 {
            self.subscribers = self.subscribers - 1;
        }
    }

    /// One read for the reader at `cursor`.
    pub fn receive(&self, cursor: &mut Cursor) -> (d: Delivery)
        requires
            self.wf(),
        ensures
            self.delivered(*old(cursor), *final(cursor), d),
    {
        let first: u64 = self.published - self.lines.len() as u64;
        if cursor.next < first {
            let skipped: u64 = first - cursor.next;
            cursor.next = first;
            Delivery::Lagged(skipped)
        } else if cursor.next < self.published {
            let k: usize = (cursor.next - first) as usize;
            let line = self.lines[k].clone();
            proof {
                assert(self.retained()[k as int] == self.lines@[k as int]@);
            }
            cursor.next = cursor.next + 1;
            Delivery::Line(line)
        } else if self.closed {
            Delivery::Closed
        } else {
            Delivery::Pending
        }
    }

    pub fn is_finished(&self) -> (r: bool)
        ensures
            r == self.is_closed(),
    {
        self.closed
    }

    pub fn subscribers(&self) -> (r: u64)
        ensures
            r == self.subscriber_count(),
    {
        self.subscribers
    }

    /// How many lines have been published so far.
    pub fn published(&self) -> (r: u64)
        requires
            self.wf(),
        ensures
            r == self.log().len(),
    {
        self.published
    }

    /// No replay: a reader whose cursor stands at or after `start` (as a
    /// new reader's does, at the length of the log when it subscribed)
    /// only ever gets lines published at or after `start`, and its cursor
    /// never moves back before it.
    pub proof fn lemma_no_replay(&self, start: nat, before: Cursor, after: Cursor, d: Delivery)
        requires
            self.wf(),
            start <= before.next_spec(),
            self.delivered(before, after, d),
        ensures
            start <= after.next_spec(),
            d matches Delivery::Line(l) ==> {
                &&& start <= before.next_spec() < self.log().len()
                &&& l@ == self.log()[before.next_spec() as int]
                &&& after.next_spec() == before.next_spec() + 1
            },
    {
    }
}

} // verus!
