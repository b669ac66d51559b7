//! The rendezvous channel of the send and receive instructions, with the
//! bounded pool of workers that transmit on it.
//!
//! A send hands its value to a worker, and the sender goes on. The channel
//! holds one message. A worker transmits at once where the channel is free;
//! otherwise it waits, and the workers that wait transmit in the order in
//! which they were spawned. The pool bounds the workers that wait.

use std::collections::VecDeque;
use vstd::prelude::*;
use crate::errors::RuntimeError;

verus! {

/// How many workers can wait to transmit at one time.
pub const WORKER_POOL_CAPACITY: usize = 4;

/// What the channel and the pool hold.
pub struct ChannelView {
    /// The message in the channel, if there is one.
    pub slot: Option<isize>,
    /// The values of the workers that wait to transmit, oldest first.
    pub waiting: Seq<isize>,
}

impl ChannelView {
    /// A free channel with no worker.
    pub open spec fn idle() -> ChannelView {
        ChannelView { slot: None, waiting: Seq::empty() }
    }

    /// Whether workers wait only while the channel is taken, and no more of
    /// them than the pool has.
    pub open spec fn well_formed(self) -> bool {
        &&& self.waiting.len() <= WORKER_POOL_CAPACITY
        &&& self.slot is None ==> self.waiting.len() == 0
    }

    /// Whether a worker can be spawned: the channel is free, or the pool has
    /// a place left for a worker that waits.
    pub open spec fn can_send(self) -> bool {
        self.slot is None || self.waiting.len() < WORKER_POOL_CAPACITY
    }

    /// The channel after a send of `value` that a worker could be spawned for.
    pub open spec fn with_sent(self, value: isize) -> ChannelView {
        if self.slot is None {
            ChannelView { slot: Some(value), ..self }
        } else {
            ChannelView { waiting: self.waiting.push(value), ..self }
        }
    }

    /// The channel after its message was received: the oldest waiting worker
    /// transmits into the channel that became free.
    pub open spec fn with_received(self) -> ChannelView {
        if self.waiting.len() > 0 {
            ChannelView { slot: Some(self.waiting[0]), waiting: self.waiting.drop_first() }
        } else {
            ChannelView { slot: None, ..self }
        }
    }
}

/// A send is refused exactly when the channel is taken and every worker of
/// the pool waits; a send that is accepted and a receive keep the channel
/// well formed.
pub proof fn lemma_channel_stays_well_formed(channel: ChannelView, value: isize)
    requires
        channel.well_formed(),
    ensures
        channel.can_send() ==> channel.with_sent(value).well_formed(),
        channel.with_received().well_formed(),
        ChannelView::idle().well_formed(),
        !channel.can_send() <==> channel.slot is Some && channel.waiting.len()
            == WORKER_POOL_CAPACITY,
{
}

/// The channel after `n` receives.
pub open spec fn after_receives(channel: ChannelView, n: nat) -> ChannelView
    decreases n,
{
    if n == 0 {
        channel
    } else {
        after_receives(channel.with_received(), (n - 1) as nat)
    }
}

/// How many messages are received before one that is sent now.
pub open spec fn ahead(channel: ChannelView) -> nat {
    if channel.slot is Some {
        1 + channel.waiting.len()
    } else {
        0
    }
}

proof fn lemma_message_comes_up(channel: ChannelView, k: nat)
    requires
        channel.slot is Some,
        k <= channel.waiting.len(),
    ensures
        after_receives(channel, k).slot == Some(
            if k == 0 {
                channel.slot->0
            } else {
                channel.waiting[k - 1]
            },
        ),
    decreases k,
{
    if k > 0 {
        lemma_message_comes_up(channel.with_received(), (k - 1) as nat);
    }
}

/// A value that is sent is exactly what a receive yields, once the messages
/// that were sent before it have been received.
pub proof fn lemma_sent_value_is_received(channel: ChannelView, value: isize)
    requires
        channel.well_formed(),
        channel.can_send(),
    ensures
        after_receives(channel.with_sent(value), ahead(channel)).slot == Some(value),
{
    if channel.slot is Some {
        lemma_message_comes_up(channel.with_sent(value), ahead(channel));
    }
}

/// The channel with its worker pool.
#[derive(Debug, PartialEq)]
pub struct Channel {
    slot: Option<isize>,
    waiting: VecDeque<isize>,
}

impl View for Channel {
    type V = ChannelView;

    closed spec fn view(&self) -> ChannelView {
        ChannelView { slot: self.slot, waiting: self.waiting@ }
    }
}

impl Channel {
    /// A free channel with no worker.
    pub fn new() -> (c: Channel)
        ensures
            c@ == ChannelView::idle(),
    {
        Channel { slot: None, waiting: VecDeque::new() }
    }

    /// Whether a send would be accepted.
    pub fn can_send(&self) -> (b: bool)
        ensures
            b == self@.can_send(),
    {
        self.slot.is_none() || self.waiting.len() < WORKER_POOL_CAPACITY
    }

    /// Spawns a worker for `value`. Where every worker of the pool waits
    /// already, the send is a fault and nothing changes.
    pub fn send(&mut self, value: isize) -> (r: Result<(), RuntimeError>)
        ensures
            old(self)@.can_send() ==> r == Ok::<(), RuntimeError>(()) && final(self)@ == old(
                self,
            )@.with_sent(value),
            !old(self)@.can_send() ==> r == Err::<(), RuntimeError>(
                RuntimeError::WorkerPoolExhausted,
            ) && final(self)@ == old(self)@,
    {
        if self.slot.is_none() {
            self.slot = Some(value);
            Ok(())
        } else if self.waiting.len() < WORKER_POOL_CAPACITY {
            self.waiting.push_back(value);
            Ok(())
        } else {
            Err(RuntimeError::WorkerPoolExhausted)
        }
    }

    /// Takes the message out of the channel, if there is one; the oldest
    /// waiting worker then transmits. With no message nothing changes.
    pub fn receive(&mut self) -> (r: Option<isize>)
        ensures
            r == old(self)@.slot,
            old(self)@.slot is Some ==> final(self)@ == old(self)@.with_received(),
            old(self)@.slot is None ==> final(self)@ == old(self)@,
    {
        match self.slot {
            Some(value) => {
                self.slot = self.waiting.pop_front();
                proof {
                    if old(self)@.waiting.len() > 0 {
                        assert(self@.waiting =~= old(self)@.waiting.drop_first());
                    }
                }
                Some(value)
            },
            None => None,
        }
    }

    /// How many workers wait to transmit.
    pub fn waiting(&self) -> (n: usize)
        ensures
            n == self@.waiting.len(),
    {
        self.waiting.len()
    }
}

} // verus!
