//! The ends of a channel between threads. An end keeps a record of all that it
//! was used for.

use crossbeam_channel::{Receiver, Sender};
use vstd::prelude::*;

verus! {

/// `crossbeam_channel::Receiver`, the receiving side of a channel.
#[verifier::external_type_specification]
#[verifier::external_body]
#[verifier::reject_recursive_types(T)]
pub struct ExReceiver<T>(crossbeam_channel::Receiver<T>);

/// `crossbeam_channel::Sender`, the sending side of a channel.
#[verifier::external_type_specification]
#[verifier::external_body]
#[verifier::reject_recursive_types(T)]
pub struct ExSender<T>(crossbeam_channel::Sender<T>);

/// What was found in a channel without waiting.
#[derive(Debug)]
pub enum Polled<T> {
    Message(T),
    Empty,
    /// Nothing is left and nobody sends any more.
    Closed,
}

/// What came of waiting for a message.
#[derive(Debug)]
pub enum Waited<T> {
    Message(T),
    TimedOut,
    /// Nothing is left and nobody sends any more.
    Closed,
}

/// What came of an attempt to send.
#[derive(Debug)]
pub enum SendOutcome<T> {
    Sent,
    /// The channel is full; the message comes back.
    Full(T),
    /// Nobody receives any more.
    Closed,
}

/// One use of a channel.
pub ghost enum ChannelUse<T> {
    /// A look for a message, and what it found.
    Look(Polled<T>),
    /// A wait of up to a time, and what came of it.
    Wait { timeout_ms: u64, waited: Waited<T> },
    /// An attempt to send a message, and what came of it.
    Send { message: T, outcome: SendOutcome<T> },
}

/// An end of a channel that receives, and that sends too where `S` is its
/// sending side. The view is the record of its uses, in their order.
#[verifier::reject_recursive_types(T)]
#[verifier::reject_recursive_types(S)]
pub struct ChannelEnd<T, S> {
    receiver: Receiver<T>,
    sender: S,
    record: Ghost<Seq<ChannelUse<T>>>,
}

/// An end that only receives.
pub type Inbox<T> = ChannelEnd<T, ()>;

/// An end that sends, and that can take out what was not received yet.
pub type Outbox<T> = ChannelEnd<T, Sender<T>>;

impl<T, S> View for ChannelEnd<T, S> {
    type V = Seq<ChannelUse<T>>;

    closed spec fn view(&self) -> Seq<ChannelUse<T>> {
        self.record@
    }
}

impl<T, S> ChannelEnd<T, S> {
    /// The receiving side.
    pub closed spec fn receiving(self) -> Receiver<T> {
        self.receiver
    }

    /// The sending side.
    pub closed spec fn sending(self) -> S {
        self.sender
    }

    /// The end that consists of these sides, which it was not used for yet.
    pub fn new(receiver: Receiver<T>, sender: S) -> (r: ChannelEnd<T, S>)
        ensures
            r.receiving() == receiver,
            r.sending() == sender,
            r@ == Seq::<ChannelUse<T>>::empty(),
    {
        ChannelEnd { receiver, sender, record: Ghost(Seq::empty()) }
    }

    /// It is the same end, used for these things since `before`, and for nothing
    /// else.
    pub open spec fn used_since(self, before: ChannelEnd<T, S>, uses: Seq<ChannelUse<T>>) -> bool {
        &&& self.receiving() == before.receiving()
        &&& self.sending() == before.sending()
        &&& self@ == before@ + uses
    }

    /// `Receiver::try_recv`: takes a message out of the channel if there is one,
    /// and does nothing else to it. What is found depends on the other threads.
    #[verifier::external_body]
    pub(crate) fn try_recv(&mut self) -> (r: Polled<T>)
        ensures
            final(self).used_since(*old(self), look(r)),
    {
        match self.receiver.try_recv() {
            Ok(message) => Polled::Message(message),
            Err(crossbeam_channel::TryRecvError::Empty) => Polled::Empty,
            Err(crossbeam_channel::TryRecvError::Disconnected) => Polled::Closed,
        }
    }

    /// `Receiver::recv_timeout`: waits for a message up to a time, takes it out
    /// of the channel, and does nothing else to it. What comes depends on the
    /// other threads.
    #[verifier::external_body]
    pub(crate) fn recv_timeout(&mut self, timeout_ms: u64) -> (r: Waited<T>)
        ensures
            final(self).used_since(*old(self), wait(timeout_ms, r)),
    {
        match self.receiver.recv_timeout(std::time::Duration::from_millis(timeout_ms)) {
            Ok(message) => Waited::Message(message),
            Err(crossbeam_channel::RecvTimeoutError::Timeout) => Waited::TimedOut,
            Err(crossbeam_channel::RecvTimeoutError::Disconnected) => Waited::Closed,
        }
    }
}

impl<T> ChannelEnd<T, Sender<T>> {
    /// `Sender::try_send`: puts a message into the channel unless that is full or
    /// closed, and does nothing else to it. Which of these holds depends on the
    /// other threads; a channel that is full hands the message back as it was.
    #[verifier::external_body]
    pub(crate) fn try_send(&mut self, message: T) -> (r: SendOutcome<T>)
        ensures
            final(self).used_since(
                *old(self),
                seq![ChannelUse::Send { message, outcome: r }],
            ),
            r matches SendOutcome::Full(returned) ==> returned == message,
    {
        match self.sender.try_send(message) {
            Ok(()) => SendOutcome::Sent,
            Err(crossbeam_channel::TrySendError::Full(returned)) => SendOutcome::Full(returned),
            Err(crossbeam_channel::TrySendError::Disconnected(_)) => SendOutcome::Closed,
        }
    }
}

/// One look.
pub open spec fn look<T>(polled: Polled<T>) -> Seq<ChannelUse<T>> {
    seq![ChannelUse::Look(polled)]
}

/// One look after the other.
pub open spec fn looks<T>(polled: Seq<Polled<T>>) -> Seq<ChannelUse<T>> {
    Seq::new(polled.len(), |i: int| ChannelUse::Look(polled[i]))
}

/// One wait.
pub open spec fn wait<T>(timeout_ms: u64, waited: Waited<T>) -> Seq<ChannelUse<T>> {
    seq![ChannelUse::Wait { timeout_ms, waited }]
}

/// The messages in a channel for `capacity` of them after it was used, if that
/// use is possible where it held `queue`, both its sides are in use, and no
/// other thread uses it.
pub open spec fn queue_after<T>(capacity: nat, queue: Seq<T>, used: ChannelUse<T>) -> Option<
    Seq<T>,
> {
    match used {
        ChannelUse::Look(Polled::Message(m)) => if queue.len() > 0 && queue[0] == m {
            Some(queue.skip(1))
        } else {
            None
        },
        ChannelUse::Look(Polled::Empty) => if queue.len() == 0 {
            Some(queue)
        } else {
            None
        },
        ChannelUse::Look(Polled::Closed) => None,
        ChannelUse::Wait { waited: Waited::Message(m), .. } => if queue.len() > 0 && queue[0]
            == m {
            Some(queue.skip(1))
        } else {
            None
        },
        ChannelUse::Wait { waited: Waited::TimedOut, .. } => if queue.len() == 0 {
            Some(queue)
        } else {
            None
        },
        ChannelUse::Wait { waited: Waited::Closed, .. } => None,
        ChannelUse::Send { message, outcome: SendOutcome::Sent } => if queue.len() < capacity {
            Some(queue.push(message))
        } else {
            None
        },
        ChannelUse::Send { outcome: SendOutcome::Full(_), .. } => if queue.len() >= capacity {
            Some(queue)
        } else {
            None
        },
        ChannelUse::Send { outcome: SendOutcome::Closed, .. } => None,
    }
}

/// A channel for `capacity` messages was used so while no other thread used it:
/// it held `queues[i]` before the `i`-th use, and the last of them at the end.
pub open spec fn is_sole_use<T>(
    capacity: nat,
    queues: Seq<Seq<T>>,
    uses: Seq<ChannelUse<T>>,
) -> bool {
    &&& queues.len() == uses.len() + 1
    &&& queues[0].len() <= capacity
    &&& forall|i: int|
        0 <= i < uses.len() ==> queue_after(capacity, #[trigger] queues[i], uses[i]) == Some(
            queues[i + 1],
        )
}

} // verus!
