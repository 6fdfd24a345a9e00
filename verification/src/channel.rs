//! One subscriber's bounded queue of build events.
//!
//! The producer never waits: when the queue is full the oldest event leaves
//! and the consumer later learns how many it has missed. A queue whose
//! consumer is gone refuses events.

use vstd::prelude::*;

verus! {

/// Events that a subscriber's channel holds before the oldest is dropped.
pub const CHANNEL_CAPACITY: usize = 100;

/// Why the bridge could not deliver.
#[derive(Clone, Copy, Debug, PartialEq, Eq)]
pub enum BridgeError {
    /// The other side of the channel is gone.
    ChannelClosed,
}

/// What a consumer finds when it looks into its channel.
#[derive(Clone, Copy, Debug, PartialEq, Eq)]
pub enum Received {
    /// The oldest event that is still held.
    Event(u64),
    /// This many events were dropped since the consumer last looked.
    Lagged(u64),
    /// Nothing is held.
    Empty,
}

/// A channel as a mathematical value.
pub struct ChannelState {
    /// How many events it holds at most.
    pub capacity: nat,
    /// The events it holds, oldest first.
    pub pending: Seq<u64>,
    /// How many events were dropped and not yet reported.
    pub dropped: nat,
    /// Whether the consumer is gone.
    pub closed: bool,
}

/// The last `capacity` items of `s`, or all of `s` if it has no more.
pub open spec fn keep_last(s: Seq<u64>, capacity: nat) -> Seq<u64> {
    if s.len() <= capacity {
        s
    } else {
        s.skip(s.len() - capacity)
    }
}

/// How many of `len` items do not fit into `capacity`.
pub open spec fn excess(len: nat, capacity: nat) -> nat {
    if len <= capacity {
        0
    } else {
        (len - capacity) as nat
    }
}

/// The sum of two counts, held at the largest `u64`.
pub open spec fn capped_sum(a: nat, b: nat) -> nat {
    if a + b <= u64::MAX {
        a + b
    } else {
        u64::MAX as nat
    }
}

impl ChannelState {
    /// A fresh channel: open, empty, nothing dropped.
    pub open spec fn fresh(capacity: nat) -> ChannelState {
        ChannelState { capacity, pending: Seq::empty(), dropped: 0, closed: false }
    }

    /// The channel holds no more than its capacity, which is at least 1, and
    /// its count of dropped events fits a `u64`.
    pub open spec fn wf(self) -> bool {
        &&& self.capacity >= 1
        &&& self.pending.len() <= self.capacity
        &&& self.dropped <= u64::MAX
    }

    /// The channel after an event was sent to it: a closed channel is
    /// unchanged; an open one holds the event last, and has dropped its oldest
    /// event if it was full.
    pub open spec fn sent(self, event: u64) -> ChannelState {
        self.sent_all(seq![event])
    }

    /// The channel after events were sent to it in order: a closed channel
    /// is unchanged; an open one holds the most recent events up to its
    /// capacity and counts the rest as dropped.
    pub open spec fn sent_all(self, events: Seq<u64>) -> ChannelState {
        if self.closed {
            self
        } else {
            ChannelState {
                pending: keep_last(self.pending + events, self.capacity),
                dropped: capped_sum(
                    self.dropped,
                    excess(self.pending.len() + events.len(), self.capacity),
                ),
                ..self
            }
        }
    }

    /// What the consumer finds: first the count of dropped events, if any,
    /// then the oldest event held.
    pub open spec fn front(self) -> Received {
        if self.dropped > 0 {
            Received::Lagged(self.dropped as u64)
        } else if self.pending.len() > 0 {
            Received::Event(self.pending[0])
        } else {
            Received::Empty
        }
    }

    /// The channel after the consumer took what `front` shows.
    pub open spec fn received(self) -> ChannelState {
        if self.dropped > 0 {
            ChannelState { dropped: 0, ..self }
        } else if self.pending.len() > 0 {
            ChannelState { pending: self.pending.skip(1), ..self }
        } else {
            self
        }
    }
}

/// One subscriber's channel.
#[derive(Debug)]
pub struct SubscriberChannel {
    capacity: usize,
    pending: Vec<u64>,
    dropped: u64,
    closed: bool,
}

impl View for SubscriberChannel {
    type V = ChannelState;

    closed spec fn view(&self) -> ChannelState {
        ChannelState {
            capacity: self.capacity as nat,
            pending: self.pending@,
            dropped: self.dropped as nat,
            closed: self.closed,
        }
    }
}

impl SubscriberChannel {
    /// A fresh channel of the given capacity.
    pub fn new(capacity: usize) -> (r: SubscriberChannel)
        requires
            capacity >= 1,
        ensures
            r@ == ChannelState::fresh(capacity as nat),
            r@.wf(),
    {
        SubscriberChannel { capacity, pending: Vec::new(), dropped: 0, closed: false }
    }

    /// How many events the channel holds at most.
    pub fn capacity(&self) -> (r: usize)
        ensures
            r == self@.capacity,
    {
        self.capacity
    }

    /// How many events the channel holds.
    pub fn len(&self) -> (r: usize)
        ensures
            r == self@.pending.len(),
    {
        self.pending.len()
    }

    /// How many events were dropped since the consumer last looked.
    pub fn dropped(&self) -> (r: u64)
        ensures
            r == self@.dropped,
    {
        self.dropped
    }

    /// Whether the consumer is gone.
    pub fn is_closed(&self) -> (r: bool)
        ensures
            r == self@.closed,
    {
        self.closed
    }

    /// The events that the channel holds, oldest first.
    pub fn pending(&self) -> (r: Vec<u64>)
        ensures
            r@ == self@.pending,
    {
        let mut out: Vec<u64> = Vec::new();
        let mut i: usize = 0;
        while i < self.pending.len()
            invariant
                i <= self.pending@.len(),
                out@ == self.pending@.take(i as int),
            decreases self.pending@.len() - i,
        {
            out.push(self.pending[i]);
            i = i + 1;
            proof {
                assert(out@ =~= self.pending@.take(i as int));
            }
        }
        proof {
            assert(self.pending@.take(self.pending@.len() as int) =~= self.pending@);
        }
        out
    }

    /// Sends an event. The producer never waits: a full channel drops its
    /// oldest event. Fails, and changes nothing, exactly when the consumer is
    /// gone.
    pub fn send(&mut self, event: u64) -> (r: Result<(), BridgeError>)
        requires
            old(self)@.wf(),
        ensures
            final(self)@ == old(self)@.sent(event),
            final(self)@.wf(),
            old(self)@.closed ==> r == Err::<(), BridgeError>(BridgeError::ChannelClosed),
            !old(self)@.closed ==> r == Ok::<(), BridgeError>(()),
    {
        if self.closed {
            return Err(BridgeError::ChannelClosed);
        }
        let ghost before = self.pending@;
        if self.pending.len() == self.capacity {
            let _ = self.pending.remove(0);
            self.dropped = self.dropped.saturating_add(1);
            proof {
                assert(self.pending@.push(event) =~= keep_last(
                    before + seq![event],
                    self.capacity as nat,
                ));
            }
        } else {
            proof {
                assert(before.push(event) =~= keep_last(before + seq![event], self.capacity as nat));
            }
        }
        self.pending.push(event);
        Ok(())
    }

    /// Takes what the consumer finds next: the count of dropped events if
    /// there is one to report, else the oldest event held, else nothing.
    pub fn recv(&mut self) -> (r: Received)
        requires
            old(self)@.wf(),
        ensures
            r == old(self)@.front(),
            final(self)@ == old(self)@.received(),
            final(self)@.wf(),
    {
        if self.dropped > 0 {
            let missed = self.dropped;
            self.dropped = 0;
            Received::Lagged(missed)
        } else if self.pending.len() > 0 {
            let event = self.pending.remove(0);
            proof {
                assert(self.pending@ =~= old(self).pending@.skip(1));
            }
            Received::Event(event)
        } else {
            Received::Empty
        }
    }

    /// The consumer goes away. What the channel holds stays.
    pub fn close(&mut self)
        ensures
            final(self)@ == (ChannelState { closed: true, ..old(self)@ }),
    {
        self.closed = true;
    }
}

/// Sending nothing changes nothing.
pub proof fn lemma_sent_none(c: ChannelState)
    requires
        c.wf(),
    ensures
        c.sent_all(Seq::empty()) == c,
{
    assert(c.pending + Seq::<u64>::empty() =~= c.pending);
}

/// Sending events one after another is sending them all: a channel keeps
/// the most recent events up to its capacity, in order, and counts exactly
/// the oldest excess as dropped.
pub proof fn lemma_sent_all_then_sent(c: ChannelState, events: Seq<u64>, event: u64)
    requires
        c.wf(),
    ensures
        c.sent_all(events).wf(),
        c.sent_all(events).sent(event) == c.sent_all(events.push(event)),
{
    if !c.closed {
        let all = c.pending + events;
        let mid = keep_last(all, c.capacity);
        assert(keep_last(mid + seq![event], c.capacity) =~= keep_last(
            c.pending + events.push(event),
            c.capacity,
        ));
    }
}

} // verus!
