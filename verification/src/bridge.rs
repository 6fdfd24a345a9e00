//! The payload bridge service as a state machine.
//!
//! The service owns the registry of subscribers and is its only writer. A
//! `Subscribe` command opens a fresh channel and keeps its producer side in
//! the registry; any other command is logged and changes nothing. A published
//! event goes to every registered subscriber; a subscriber whose consumer is
//! gone is found on the next send and leaves the registry. What a channel
//! already holds stays readable after it left the registry.

use crate::channel::{BridgeError, ChannelState, Received, SubscriberChannel, CHANNEL_CAPACITY};
use vstd::prelude::*;

verus! {

/// A command from the inbox of the service.
#[derive(Clone, Copy, Debug, PartialEq, Eq)]
pub enum Command {
    /// Asks for a stream of build events.
    Subscribe,
    /// Any other kind of command.
    Other,
}

/// What the service did with a command.
#[derive(Clone, Copy, Debug, PartialEq, Eq)]
pub enum Action {
    /// A channel was opened; the requester reads it under this handle.
    Subscribed { handle: usize },
    /// The command was logged and otherwise ignored.
    Logged,
}

/// One entry of the registry as a mathematical value.
pub struct SubscriptionState {
    /// The subscriber's channel.
    pub channel: ChannelState,
    /// Whether the service still delivers to it.
    pub registered: bool,
}

impl SubscriptionState {
    /// A fresh entry: registered, with an empty open channel.
    pub open spec fn fresh() -> SubscriptionState {
        SubscriptionState {
            channel: ChannelState::fresh(CHANNEL_CAPACITY as nat),
            registered: true,
        }
    }

    /// The entry's channel is well formed.
    pub open spec fn wf(self) -> bool {
        self.channel.wf()
    }

    /// Whether a published event reaches the channel.
    pub open spec fn live(self) -> bool {
        self.registered && !self.channel.closed
    }

    /// The entry after an event was published: an entry that left the
    /// registry is unchanged; one whose consumer is gone leaves the registry;
    /// any other receives the event.
    pub open spec fn published(self, event: u64) -> SubscriptionState {
        if !self.registered {
            self
        } else if self.channel.closed {
            SubscriptionState { registered: false, ..self }
        } else {
            SubscriptionState { channel: self.channel.sent(event), ..self }
        }
    }

    /// Whether the consumer can still get something: it is there, and the
    /// channel is fed or not yet drained.
    pub open spec fn readable(self) -> bool {
        !self.channel.closed && (self.registered || self.channel.front() != Received::Empty)
    }
}

/// Every entry of a registry is well formed.
pub open spec fn registry_wf(b: Seq<SubscriptionState>) -> bool {
    forall|i: int| 0 <= i < b.len() ==> (#[trigger] b[i]).wf()
}

/// The registry after a `Subscribe`: one fresh entry more, at the end.
pub open spec fn subscribed(b: Seq<SubscriptionState>) -> Seq<SubscriptionState> {
    b.push(SubscriptionState::fresh())
}

/// The registry after a command.
pub open spec fn handled(b: Seq<SubscriptionState>, command: Command) -> Seq<SubscriptionState> {
    match command {
        Command::Subscribe => subscribed(b),
        Command::Other => b,
    }
}

/// What the service answers to a command.
pub open spec fn answer(b: Seq<SubscriptionState>, command: Command) -> Action {
    match command {
        Command::Subscribe => Action::Subscribed { handle: b.len() as usize },
        Command::Other => Action::Logged,
    }
}

/// The registry after an event was published: each entry for itself.
pub open spec fn published(b: Seq<SubscriptionState>, event: u64) -> Seq<SubscriptionState> {
    Seq::new(b.len(), |i: int| b[i].published(event))
}

/// The registry after the service stopped: no entry is fed any more.
pub open spec fn stopped(b: Seq<SubscriptionState>) -> Seq<SubscriptionState> {
    Seq::new(b.len(), |i: int| SubscriptionState { registered: false, ..b[i] })
}

/// Whether the consumer with this handle can still get something.
pub open spec fn readable(b: Seq<SubscriptionState>, handle: usize) -> bool {
    handle < b.len() && b[handle as int].readable()
}

/// One entry of the registry.
#[derive(Debug)]
pub struct Subscription {
    channel: SubscriberChannel,
    registered: bool,
}

impl View for Subscription {
    type V = SubscriptionState;

    closed spec fn view(&self) -> SubscriptionState {
        SubscriptionState { channel: self.channel@, registered: self.registered }
    }
}

/// The payload bridge service: the registry of subscribers.
#[derive(Debug)]
pub struct PayloadBridge {
    subscribers: Vec<Subscription>,
}

impl View for PayloadBridge {
    type V = Seq<SubscriptionState>;

    closed spec fn view(&self) -> Seq<SubscriptionState> {
        self.subscribers@.map_values(|s: Subscription| s@)
    }
}

impl PayloadBridge {
    /// A service without subscribers.
    pub fn new() -> (r: PayloadBridge)
        ensures
            r@ == Seq::<SubscriptionState>::empty(),
            registry_wf(r@),
    {
        let r = PayloadBridge { subscribers: Vec::new() };
        proof {
            assert(r@ =~= Seq::<SubscriptionState>::empty());
        }
        r
    }

    /// How many entries the registry has, those that left it included.
    pub fn len(&self) -> (r: usize)
        ensures
            r == self@.len(),
    {
        self.subscribers.len()
    }

    /// Takes one command from the inbox. `Subscribe` opens a fresh channel of
    /// capacity 100 and answers with its handle; any other command is
    /// tolerated: it changes nothing and is answered with `Logged`.
    pub fn handle_command(&mut self, command: Command) -> (r: Action)
        requires
            registry_wf(old(self)@),
        ensures
            final(self)@ == handled(old(self)@, command),
            r == answer(old(self)@, command),
            registry_wf(final(self)@),
    {
        match command {
            Command::Subscribe => {
                let handle = self.subscribers.len();
                let channel = SubscriberChannel::new(CHANNEL_CAPACITY);
                self.subscribers.push(Subscription { channel, registered: true });
                proof {
                    assert(self@ =~= subscribed(old(self)@));
                }
                Action::Subscribed { handle }
            },
            Command::Other => Action::Logged,
        }
    }

    /// Publishes one event to every registered subscriber. The producer never
    /// waits: a full channel drops its oldest event. A subscriber whose
    /// consumer is gone leaves the registry; the others are not touched by
    /// that.
    pub fn publish(&mut self, event: u64)
        requires
            registry_wf(old(self)@),
        ensures
            final(self)@ == published(old(self)@, event),
            registry_wf(final(self)@),
    {
        let ghost before = self@;
        let n = self.subscribers.len();
        let mut i: usize = 0;
        while i < n
            invariant
                n == self.subscribers@.len(),
                self@.len() == before.len(),
                n == before.len(),
                i <= n,
                registry_wf(before),
                forall|j: int| 0 <= j < i ==> self@[j] == (#[trigger] before[j]).published(event),
                forall|j: int| i <= j < n ==> self@[j] == #[trigger] before[j],
            decreases n - i,
        {
            let ghost mid = self@;
            assert(mid[i as int] == before[i as int]);
            assert(before[i as int].wf());
            if self.subscribers[i].registered {
                match self.subscribers[i].channel.send(event) {
                    Ok(()) => {},
                    Err(_) => {
                        self.subscribers[i].registered = false;
                    },
                }
            }
            proof {
                assert(self@[i as int] == before[i as int].published(event));
                assert forall|j: int| 0 <= j < n && j != i implies self@[j] == mid[j] by {}
            }
            i = i + 1;
        }
        proof {
            assert(self@ =~= published(before, event));
            assert forall|j: int| 0 <= j < self@.len() implies (#[trigger] self@[j]).wf() by {
                assert(before[j].wf());
            }
        }
    }

    /// Takes what the consumer with this handle finds next in its channel.
    /// Fails with `ChannelClosed`, and changes nothing, exactly when there is
    /// no such consumer or its channel is drained and no longer fed.
    pub fn receive(&mut self, handle: usize) -> (r: Result<Received, BridgeError>)
        requires
            registry_wf(old(self)@),
        ensures
            readable(old(self)@, handle) ==> r == Ok::<Received, BridgeError>(
                old(self)@[handle as int].channel.front(),
            ) && final(self)@ == old(self)@.update(
                handle as int,
                SubscriptionState {
                    channel: old(self)@[handle as int].channel.received(),
                    ..old(self)@[handle as int]
                },
            ),
            !readable(old(self)@, handle) ==> r == Err::<Received, BridgeError>(
                BridgeError::ChannelClosed,
            ) && final(self)@ == old(self)@,
            registry_wf(final(self)@),
    {
        if handle >= self.subscribers.len() {
            return Err(BridgeError::ChannelClosed);
        }
        assert(self@[handle as int].wf());
        if self.subscribers[handle].channel.is_closed() {
            return Err(BridgeError::ChannelClosed);
        }
        if !self.subscribers[handle].registered && self.subscribers[handle].channel.len() == 0
            && self.subscribers[handle].channel.dropped() == 0 {
            return Err(BridgeError::ChannelClosed);
        }
        let got = self.subscribers[handle].channel.recv();
        proof {
            assert(self@ =~= old(self)@.update(
                handle as int,
                SubscriptionState {
                    channel: old(self)@[handle as int].channel.received(),
                    ..old(self)@[handle as int]
                },
            ));
            assert forall|j: int| 0 <= j < self@.len() implies (#[trigger] self@[j]).wf() by {
                assert(old(self)@[j].wf());
            }
        }
        Ok(got)
    }

    /// The consumer with this handle goes away. The service learns of it on
    /// the next publish. An unknown handle changes nothing.
    pub fn disconnect(&mut self, handle: usize)
        ensures
            handle < old(self)@.len() ==> final(self)@ == old(self)@.update(
                handle as int,
                SubscriptionState {
                    channel: ChannelState { closed: true, ..old(self)@[handle as int].channel },
                    ..old(self)@[handle as int]
                },
            ),
            handle >= old(self)@.len() ==> final(self)@ == old(self)@,
            registry_wf(old(self)@) ==> registry_wf(final(self)@),
    {
        if handle < self.subscribers.len() {
            self.subscribers[handle].channel.close();
            proof {
                assert(self@ =~= old(self)@.update(
                    handle as int,
                    SubscriptionState {
                        channel: ChannelState { closed: true, ..old(self)@[handle as int].channel },
                        ..old(self)@[handle as int]
                    },
                ));
                if registry_wf(old(self)@) {
                    assert forall|j: int| 0 <= j < self@.len() implies (#[trigger] self@[j]).wf() by {
                        assert(old(self)@[j].wf());
                    }
                }
            }
        }
    }

    /// The inbox was closed by all its producers: the service stops and
    /// feeds no channel any more. What the channels hold stays readable.
    pub fn shut_down(&mut self)
        ensures
            final(self)@ == stopped(old(self)@),
            registry_wf(old(self)@) ==> registry_wf(final(self)@),
    {
        let ghost before = self@;
        let n = self.subscribers.len();
        let mut i: usize = 0;
        while i < n
            invariant
                n == self.subscribers@.len(),
                n == before.len(),
                self@.len() == before.len(),
                i <= n,
                forall|j: int|
                    0 <= j < i ==> self@[j] == (SubscriptionState {
                        registered: false,
                        ..#[trigger] before[j]
                    }),
                forall|j: int| i <= j < n ==> self@[j] == #[trigger] before[j],
            decreases n - i,
        {
            let ghost mid = self@;
            assert(mid[i as int] == before[i as int]);
            self.subscribers[i].registered = false;
            proof {
                assert forall|j: int| 0 <= j < n && j != i implies self@[j] == mid[j] by {}
            }
            i = i + 1;
        }
        proof {
            assert(self@ =~= stopped(before));
            if registry_wf(before) {
                assert forall|j: int| 0 <= j < self@.len() implies (#[trigger] self@[j]).wf() by {
                    assert(before[j].wf());
                }
            }
        }
    }
}

/// The registry after `n` `Subscribe` commands.
pub open spec fn subscribed_times(b: Seq<SubscriptionState>, n: nat) -> Seq<SubscriptionState>
    decreases n,
{
    if n == 0 {
        b
    } else {
        subscribed(subscribed_times(b, (n - 1) as nat))
    }
}

/// The registry after events were published one after another.
pub open spec fn published_all(b: Seq<SubscriptionState>, events: Seq<u64>) -> Seq<
    SubscriptionState,
>
    decreases events.len(),
{
    if events.len() == 0 {
        b
    } else {
        published(published_all(b, events.drop_last()), events.last())
    }
}

/// `n` `Subscribe` commands add `n` fresh entries behind those that were
/// there, each under a handle of its own, and leave the others as they were.
pub proof fn lemma_subscribed_times(b: Seq<SubscriptionState>, n: nat)
    ensures
        subscribed_times(b, n).len() == b.len() + n,
        forall|i: int| 0 <= i < b.len() ==> #[trigger] subscribed_times(b, n)[i] == b[i],
        forall|i: int|
            b.len() <= i < b.len() + n ==> #[trigger] subscribed_times(b, n)[i]
                == SubscriptionState::fresh(),
    decreases n,
{
    if n > 0 {
        lemma_subscribed_times(b, (n - 1) as nat);
    }
}

/// Subscriber independence: after `n` `Subscribe` commands and one published
/// event there are `n` more channels, and each of them holds exactly that one
/// event, once, with nothing dropped. Each earlier entry got the event as if
/// the new ones were not there.
pub proof fn lemma_subscribers_independent(b: Seq<SubscriptionState>, n: nat, event: u64)
    ensures
        published(subscribed_times(b, n), event).len() == b.len() + n,
        forall|i: int|
            b.len() <= i < b.len() + n ==> {
                let entry = #[trigger] published(subscribed_times(b, n), event)[i];
                &&& entry.registered
                &&& entry.channel.pending == seq![event]
                &&& entry.channel.dropped == 0
            },
        forall|i: int|
            0 <= i < b.len() ==> #[trigger] published(subscribed_times(b, n), event)[i]
                == b[i].published(event),
{
    lemma_subscribed_times(b, n);
    let grown = subscribed_times(b, n);
    assert forall|i: int| b.len() <= i < b.len() + n implies {
        let entry = #[trigger] published(grown, event)[i];
        &&& entry.registered
        &&& entry.channel.pending == seq![event]
        &&& entry.channel.dropped == 0
    } by {
        assert(grown[i] == SubscriptionState::fresh());
        assert(Seq::<u64>::empty() + seq![event] =~= seq![event]);
    }
    assert forall|i: int| 0 <= i < b.len() implies #[trigger] published(grown, event)[i]
        == b[i].published(event) by {
        assert(grown[i] == b[i]);
    }
}

/// Backpressure: after any run of published events, a live subscriber holds
/// the most recent events up to its capacity, in order, and has counted
/// exactly the oldest excess as dropped, whatever the other subscribers did.
/// An entry that had left the registry is as it was.
pub proof fn lemma_published_all(b: Seq<SubscriptionState>, events: Seq<u64>, i: int)
    requires
        registry_wf(b),
        0 <= i < b.len(),
    ensures
        published_all(b, events).len() == b.len(),
        b[i].live() ==> published_all(b, events)[i] == (SubscriptionState {
            channel: b[i].channel.sent_all(events),
            ..b[i]
        }),
        !b[i].registered ==> published_all(b, events)[i] == b[i],
    decreases events.len(),
{
    if events.len() == 0 {
        crate::channel::lemma_sent_none(b[i].channel);
    } else {
        let front = events.drop_last();
        lemma_published_all(b, front, i);
        assert(b[i].wf());
        crate::channel::lemma_sent_all_then_sent(b[i].channel, front, events.last());
        assert(front.push(events.last()) =~= events);
    }
}

} // verus!
