//! The shared state of a channel and the steps that endpoints take on it.

use crate::error::Error;
use crate::ring_buffer::RingBuffer;
use crate::ring_buffer::UNBOUNDED;
use crate::signal::Signal;
use crate::signal::SignalState;
use crate::signal::WakeToken;
use crate::wait_queue::all_parked_receivers;
use crate::wait_queue::all_parked_senders;
use crate::wait_queue::all_settled_receivers;
use crate::wait_queue::all_settled_senders;
use crate::wait_queue::lemma_position;
use crate::wait_queue::position;
use crate::wait_queue::terminated_all;
use crate::wait_queue::tokens;
use crate::wait_queue::WaitQueue;
use vstd::prelude::*;

verus! {

/// What a send step did with the payload.
#[derive(Debug, PartialEq, Eq)]
pub enum SendOutcome<T> {
    /// The payload entered the channel: a parked receiver got it, or the
    /// buffer took it.
    Sent,
    /// The sender was put on the send-wait queue, with the payload in its
    /// signal.
    Parked,
    /// No sender is left alive; the payload comes back.
    Closed(T),
    /// The buffer is full and no receiver is left alive; the payload comes
    /// back.
    ReceiveClosed(T),
    /// The step would have had to park, and was told not to; the payload
    /// comes back.
    Full(T),
}

/// What a receive step obtained.
#[derive(Debug, PartialEq, Eq)]
pub enum RecvOutcome<T> {
    /// The oldest payload in the channel.
    Received(T),
    /// The receiver was put on the receive-wait queue.
    Parked,
    /// No receiver is left alive.
    Closed,
    /// Nothing is in the channel and no sender is left alive.
    SendClosed,
    /// The step would have had to park, and was told not to.
    Empty,
}

impl<T> SendOutcome<T> {
    /// The payload that came back with the outcome, if one did.
    pub open spec fn payload_back(self) -> Option<T> {
        match self {
            SendOutcome::Closed(payload) => Some(payload),
            SendOutcome::ReceiveClosed(payload) => Some(payload),
            SendOutcome::Full(payload) => Some(payload),
            _ => None,
        }
    }

    /// What a send that does not wait reports for the outcome: whether the
    /// payload went through, or why it never can.
    pub open spec fn try_result(self) -> Result<bool, Error> {
        match self {
            SendOutcome::Sent => Ok(true),
            SendOutcome::Parked => Ok(false),
            SendOutcome::Full(_) => Ok(false),
            SendOutcome::Closed(_) => Err(Error::Closed),
            SendOutcome::ReceiveClosed(_) => Err(Error::ReceiveClosed),
        }
    }

    /// Splits the outcome into what a send that does not wait reports and
    /// the payload that came back.
    pub fn into_try(self) -> (r: (Result<bool, Error>, Option<T>))
        ensures
            r.0 == self.try_result(),
            r.1 == self.payload_back(),
    {
        match self {
            SendOutcome::Sent => (Ok(true), None),
            SendOutcome::Parked => (Ok(false), None),
            SendOutcome::Full(payload) => (Ok(false), Some(payload)),
            SendOutcome::Closed(payload) => (Err(Error::Closed), Some(payload)),
            SendOutcome::ReceiveClosed(payload) => (Err(Error::ReceiveClosed), Some(payload)),
        }
    }
}

impl<T> RecvOutcome<T> {
    /// What a receive that does not wait reports for the outcome: the
    /// payload if there was one, or why there never will be.
    pub open spec fn try_result(self) -> Result<Option<T>, Error> {
        match self {
            RecvOutcome::Received(payload) => Ok(Some(payload)),
            RecvOutcome::Parked => Ok(None),
            RecvOutcome::Empty => Ok(None),
            RecvOutcome::Closed => Err(Error::Closed),
            RecvOutcome::SendClosed => Err(Error::SendClosed),
        }
    }

    /// What a receive that does not wait reports for the outcome.
    pub fn into_try(self) -> (r: Result<Option<T>, Error>)
        ensures
            r == self.try_result(),
    {
        match self {
            RecvOutcome::Received(payload) => Ok(Some(payload)),
            RecvOutcome::Parked => Ok(None),
            RecvOutcome::Empty => Ok(None),
            RecvOutcome::Closed => Err(Error::Closed),
            RecvOutcome::SendClosed => Err(Error::SendClosed),
        }
    }
}

/// What a send would meet in a given state of the channel.
#[derive(Clone, Copy, Debug, PartialEq, Eq, Structural)]
pub enum SendProspect {
    /// No sender is left alive.
    Closed,
    /// The payload would go through: a receiver is parked, or the buffer
    /// has room.
    Through,
    /// The buffer is full and no receiver is left alive.
    ReceiveClosed,
    /// The sender would have to wait.
    Wait,
}

/// What the owner of a parked send learns when it looks at its signal or
/// gives up the wait.
#[derive(Debug, PartialEq, Eq)]
pub enum SendSettle<T> {
    /// The signal still waits.
    Pending,
    /// A receiver took the payload.
    Sent,
    /// The signal was terminated; the payload comes back.
    SendClosed(T),
    /// The owner gave up in time; the payload comes back.
    Timeout(T),
    /// No signal is parked or settled under the token.
    Unknown,
}

/// What the owner of a parked receive learns when it looks at its signal or
/// gives up the wait.
#[derive(Debug, PartialEq, Eq)]
pub enum RecvSettle<T> {
    /// The signal still waits.
    Pending,
    /// A sender handed over this payload.
    Received(T),
    /// The signal was terminated.
    SendClosed,
    /// The owner gave up in time.
    Timeout,
    /// No signal is parked or settled under the token.
    Unknown,
}

impl<T> SendSettle<T> {
    /// The payload that came back, if one did.
    pub open spec fn payload_back(self) -> Option<T> {
        match self {
            SendSettle::SendClosed(payload) => Some(payload),
            SendSettle::Timeout(payload) => Some(payload),
            _ => None,
        }
    }
}

/// A ghost record of what has passed through the channel.
#[verifier::ext_equal]
pub struct Ledger<T> {
    /// The payloads that entered the channel, in that order: each one when
    /// the buffer took it or a receiver got it straight from its sender.
    pub entered: Seq<T>,
    /// The payloads that were handed to receivers, in that order.
    pub delivered: Seq<T>,
    /// How many payloads the channel took from senders, parked ones
    /// included.
    pub accepted: nat,
    /// How many payloads went back to a parked sender, because it gave up
    /// or because its signal was terminated.
    pub returned: nat,
}

/// The state of a channel as contracts see it.
#[verifier::ext_equal]
pub struct ChannelView<T> {
    /// The most payloads that the buffer holds.
    pub capacity: nat,
    /// The buffered payloads, oldest first.
    pub buffer: Seq<T>,
    /// The parked senders, longest-waiting first.
    pub send_wait: Seq<Signal<T>>,
    /// The parked receivers, longest-waiting first.
    pub recv_wait: Seq<Signal<T>>,
    /// The signals of senders whose wait is over and who have not looked
    /// yet.
    pub send_done: Seq<Signal<T>>,
    /// The signals of receivers whose wait is over and who have not looked
    /// yet.
    pub recv_done: Seq<Signal<T>>,
    /// The number of live sending endpoints.
    pub send_count: nat,
    /// The number of live receiving endpoints.
    pub recv_count: nat,
    /// The owners that are to be woken, in the order their waits ended.
    pub wakes: Seq<WakeToken>,
    /// The record of what has passed through.
    pub ledger: Ledger<T>,
}

impl<T> ChannelView<T> {
    /// The invariant of the channel.
    pub open spec fn wf(self) -> bool {
        &&& self.buffer.len() <= self.capacity
        &&& self.send_wait.len() == 0 || self.recv_wait.len() == 0
        &&& self.send_wait.len() > 0 ==> self.buffer.len() == self.capacity
        &&& self.recv_wait.len() > 0 ==> self.buffer.len() == 0
        &&& self.send_count == 0 ==> self.recv_wait.len() == 0
        &&& self.recv_count == 0 ==> self.send_wait.len() == 0
        &&& all_parked_senders(self.send_wait)
        &&& all_parked_receivers(self.recv_wait)
        &&& all_settled_senders(self.send_done)
        &&& all_settled_receivers(self.recv_done)
        &&& self.ledger.entered =~= self.ledger.delivered + self.buffer
        &&& self.ledger.accepted == self.ledger.entered.len() + self.ledger.returned
            + self.send_wait.len()
    }

    /// A new channel with one endpoint on each side.
    pub open spec fn fresh(capacity: nat) -> Self {
        ChannelView {
            capacity,
            buffer: Seq::empty(),
            send_wait: Seq::empty(),
            recv_wait: Seq::empty(),
            send_done: Seq::empty(),
            recv_done: Seq::empty(),
            send_count: 1,
            recv_count: 1,
            wakes: Seq::empty(),
            ledger: Ledger { entered: Seq::empty(), delivered: Seq::empty(), accepted: 0, returned: 0 },
        }
    }

    /// The state after a send step with `payload`. With `park` set the
    /// sender may be parked, under that token.
    pub open spec fn send(self, payload: T, park: Option<WakeToken>) -> Self {
        if self.send_count == 0 {
            self
        } else if self.recv_wait.len() > 0 {
            let r = self.recv_wait[0];
            ChannelView {
                recv_wait: self.recv_wait.drop_first(),
                recv_done: self.recv_done.push(
                    Signal { token: r.token, slot: Some(payload), state: SignalState::Transferred },
                ),
                wakes: self.wakes.push(r.token),
                ledger: Ledger {
                    entered: self.ledger.entered.push(payload),
                    delivered: self.ledger.delivered.push(payload),
                    accepted: self.ledger.accepted + 1,
                    returned: self.ledger.returned,
                },
                ..self
            }
        } else if self.buffer.len() < self.capacity {
            ChannelView {
                buffer: self.buffer.push(payload),
                ledger: Ledger {
                    entered: self.ledger.entered.push(payload),
                    accepted: self.ledger.accepted + 1,
                    ..self.ledger
                },
                ..self
            }
        } else if park is Some && self.recv_count > 0 {
            ChannelView {
                send_wait: self.send_wait.push(
                    Signal { token: park->Some_0, slot: Some(payload), state: SignalState::Waiting },
                ),
                ledger: Ledger { accepted: self.ledger.accepted + 1, ..self.ledger },
                ..self
            }
        } else {
            self
        }
    }

    /// What a send step reports.
    pub open spec fn send_outcome(self, payload: T, park: Option<WakeToken>) -> SendOutcome<T> {
        if self.send_count == 0 {
            SendOutcome::Closed(payload)
        } else if self.recv_wait.len() > 0 || self.buffer.len() < self.capacity {
            SendOutcome::Sent
        } else if park is None {
            SendOutcome::Full(payload)
        } else if self.recv_count == 0 {
            SendOutcome::ReceiveClosed(payload)
        } else {
            SendOutcome::Parked
        }
    }

    /// What a send would meet in this state.
    pub open spec fn send_prospect(self) -> SendProspect {
        if self.send_count == 0 {
            SendProspect::Closed
        } else if self.recv_wait.len() > 0 || self.buffer.len() < self.capacity {
            SendProspect::Through
        } else if self.recv_count == 0 {
            SendProspect::ReceiveClosed
        } else {
            SendProspect::Wait
        }
    }

    /// The state after a send, without waiting, of what `data` holds. With
    /// nothing in `data` the state is as before.
    pub open spec fn try_send_option(self, data: Option<T>) -> Self {
        match data {
            Some(payload) => self.send(payload, None),
            None => self,
        }
    }

    /// What a send, without waiting, of what `data` holds reports: the
    /// result of the send step if there is a payload, and else whether a
    /// sender is alive at all.
    pub open spec fn try_send_option_result(self, data: Option<T>) -> Result<bool, Error> {
        match data {
            Some(payload) => self.send_outcome(payload, None).try_result(),
            None => if self.send_count == 0 {
                Err(Error::Closed)
            } else {
                Ok(false)
            },
        }
    }

    /// What `data` holds after a send, without waiting, of what it held:
    /// the payload, unless it went through.
    pub open spec fn try_send_option_back(self, data: Option<T>) -> Option<T> {
        match data {
            Some(payload) => self.send_outcome(payload, None).payload_back(),
            None => None,
        }
    }

    /// The state after a receive step. With `park` set the receiver may be
    /// parked, under that token.
    pub open spec fn recv(self, park: Option<WakeToken>) -> Self {
        if self.recv_count == 0 {
            self
        } else if self.buffer.len() > 0 {
            if self.send_wait.len() > 0 {
                let s = self.send_wait[0];
                ChannelView {
                    buffer: self.buffer.drop_first().push(s.slot->Some_0),
                    send_wait: self.send_wait.drop_first(),
                    send_done: self.send_done.push(
                        Signal { token: s.token, slot: None, state: SignalState::Transferred },
                    ),
                    wakes: self.wakes.push(s.token),
                    ledger: Ledger {
                        entered: self.ledger.entered.push(s.slot->Some_0),
                        delivered: self.ledger.delivered.push(self.buffer[0]),
                        ..self.ledger
                    },
                    ..self
                }
            } else {
                ChannelView {
                    buffer: self.buffer.drop_first(),
                    ledger: Ledger {
                        delivered: self.ledger.delivered.push(self.buffer[0]),
                        ..self.ledger
                    },
                    ..self
                }
            }
        } else if self.send_wait.len() > 0 {
            let s = self.send_wait[0];
            ChannelView {
                send_wait: self.send_wait.drop_first(),
                send_done: self.send_done.push(
                    Signal { token: s.token, slot: None, state: SignalState::Transferred },
                ),
                wakes: self.wakes.push(s.token),
                ledger: Ledger {
                    entered: self.ledger.entered.push(s.slot->Some_0),
                    delivered: self.ledger.delivered.push(s.slot->Some_0),
                    ..self.ledger
                },
                ..self
            }
        } else if park is Some && self.send_count > 0 {
            ChannelView {
                recv_wait: self.recv_wait.push(
                    Signal { token: park->Some_0, slot: None, state: SignalState::Waiting },
                ),
                ..self
            }
        } else {
            self
        }
    }

    /// What a receive step reports.
    pub open spec fn recv_outcome(self, park: Option<WakeToken>) -> RecvOutcome<T> {
        if self.recv_count == 0 {
            RecvOutcome::Closed
        } else if self.buffer.len() > 0 {
            RecvOutcome::Received(self.buffer[0])
        } else if self.send_wait.len() > 0 {
            RecvOutcome::Received(self.send_wait[0].slot->Some_0)
        } else if park is None {
            RecvOutcome::Empty
        } else if self.send_count == 0 {
            RecvOutcome::SendClosed
        } else {
            RecvOutcome::Parked
        }
    }

    /// The state after the owner of a parked send has looked at its signal.
    /// A settled signal is taken away. With `cancel` set, a signal that
    /// still waits is taken off the queue.
    pub open spec fn settle_send(self, token: WakeToken, cancel: bool) -> Self {
        let d = position(self.send_done, token);
        let w = position(self.send_wait, token);
        if d < self.send_done.len() {
            ChannelView { send_done: self.send_done.remove(d), ..self }
        } else if cancel && w < self.send_wait.len() {
            ChannelView {
                send_wait: self.send_wait.remove(w),
                ledger: Ledger { returned: self.ledger.returned + 1, ..self.ledger },
                ..self
            }
        } else {
            self
        }
    }

    /// What the owner of a parked send learns.
    pub open spec fn settle_send_outcome(self, token: WakeToken, cancel: bool) -> SendSettle<T> {
        let d = position(self.send_done, token);
        let w = position(self.send_wait, token);
        if d < self.send_done.len() {
            if self.send_done[d].state == SignalState::Transferred {
                SendSettle::Sent
            } else {
                SendSettle::SendClosed(self.send_done[d].slot->Some_0)
            }
        } else if w < self.send_wait.len() {
            if cancel {
                SendSettle::Timeout(self.send_wait[w].slot->Some_0)
            } else {
                SendSettle::Pending
            }
        } else {
            SendSettle::Unknown
        }
    }

    /// The state after the owner of a parked receive has looked at its
    /// signal. A settled signal is taken away. With `cancel` set, a signal
    /// that still waits is taken off the queue.
    pub open spec fn settle_recv(self, token: WakeToken, cancel: bool) -> Self {
        let d = position(self.recv_done, token);
        let w = position(self.recv_wait, token);
        if d < self.recv_done.len() {
            ChannelView { recv_done: self.recv_done.remove(d), ..self }
        } else if cancel && w < self.recv_wait.len() {
            ChannelView { recv_wait: self.recv_wait.remove(w), ..self }
        } else {
            self
        }
    }

    /// What the owner of a parked receive learns.
    pub open spec fn settle_recv_outcome(self, token: WakeToken, cancel: bool) -> RecvSettle<T> {
        let d = position(self.recv_done, token);
        let w = position(self.recv_wait, token);
        if d < self.recv_done.len() {
            if self.recv_done[d].state == SignalState::Transferred {
                RecvSettle::Received(self.recv_done[d].slot->Some_0)
            } else {
                RecvSettle::SendClosed
            }
        } else if w < self.recv_wait.len() {
            if cancel {
                RecvSettle::Timeout
            } else {
                RecvSettle::Pending
            }
        } else {
            RecvSettle::Unknown
        }
    }

    /// The state after one more sending endpoint was made. A channel
    /// without senders stays without; the count stops at `usize::MAX`.
    pub open spec fn add_sender(self) -> Self {
        if 0 < self.send_count < usize::MAX {
            ChannelView { send_count: self.send_count + 1, ..self }
        } else {
            self
        }
    }

    /// The state after one more receiving endpoint was made. A channel
    /// without receivers stays without; the count stops at `usize::MAX`.
    pub open spec fn add_receiver(self) -> Self {
        if 0 < self.recv_count < usize::MAX {
            ChannelView { recv_count: self.recv_count + 1, ..self }
        } else {
            self
        }
    }

    /// The state after every parked receiver was terminated.
    pub open spec fn terminate_receivers(self) -> Self {
        ChannelView {
            recv_wait: Seq::empty(),
            recv_done: self.recv_done + terminated_all(self.recv_wait),
            wakes: self.wakes + tokens(self.recv_wait),
            ..self
        }
    }

    /// The state after every parked sender was terminated. Their payloads
    /// stay in their signals, and so go back to them.
    pub open spec fn terminate_senders(self) -> Self {
        ChannelView {
            send_wait: Seq::empty(),
            send_done: self.send_done + terminated_all(self.send_wait),
            wakes: self.wakes + tokens(self.send_wait),
            ledger: Ledger {
                returned: self.ledger.returned + self.send_wait.len(),
                ..self.ledger
            },
            ..self
        }
    }

    /// The state after a sending endpoint was dropped. When the last one
    /// goes, the parked receivers are terminated.
    pub open spec fn drop_sender(self) -> Self {
        if self.send_count == 0 {
            self
        } else if self.send_count == 1 {
            ChannelView { send_count: 0, ..self }.terminate_receivers()
        } else {
            ChannelView { send_count: (self.send_count - 1) as nat, ..self }
        }
    }

    /// The state after a receiving endpoint was dropped. When the last one
    /// goes, the parked senders are terminated.
    pub open spec fn drop_receiver(self) -> Self {
        if self.recv_count == 0 {
            self
        } else if self.recv_count == 1 {
            ChannelView { recv_count: 0, ..self }.terminate_senders()
        } else {
            ChannelView { recv_count: (self.recv_count - 1) as nat, ..self }
        }
    }

    /// Whether no endpoint is left alive on either side.
    pub open spec fn is_closed(self) -> bool {
        self.send_count == 0 && self.recv_count == 0
    }

    /// The state after the channel was closed: no endpoint counts as alive
    /// any more and every parked signal is terminated, senders first. The
    /// buffer is left as it is.
    pub open spec fn close(self) -> Self {
        if self.is_closed() {
            self
        } else {
            ChannelView { send_count: 0, recv_count: 0, ..self }.terminate_senders().terminate_receivers()
        }
    }

    /// The state after the list of owners to wake was taken.
    pub open spec fn drain_wakes(self) -> Self {
        ChannelView { wakes: Seq::empty(), ..self }
    }
}

/// The shared state of one channel: the buffer, the two wait queues, the
/// signals whose wait is over, and the counts of live endpoints.
pub struct ChannelCore<T> {
    buffer: RingBuffer<T>,
    send_wait: WaitQueue<T>,
    recv_wait: WaitQueue<T>,
    send_done: WaitQueue<T>,
    recv_done: WaitQueue<T>,
    send_count: usize,
    recv_count: usize,
    wakes: Vec<WakeToken>,
    ledger: Ghost<Ledger<T>>,
}

impl<T> View for ChannelCore<T> {
    type V = ChannelView<T>;

    closed spec fn view(&self) -> ChannelView<T> {
        ChannelView {
            capacity: self.buffer.limit(),
            buffer: self.buffer@,
            send_wait: self.send_wait@,
            recv_wait: self.recv_wait@,
            send_done: self.send_done@,
            recv_done: self.recv_done@,
            send_count: self.send_count as nat,
            recv_count: self.recv_count as nat,
            wakes: self.wakes@,
            ledger: self.ledger@,
        }
    }
}

impl<T> ChannelCore<T> {
    /// The representation is sound.
    pub closed spec fn inv(&self) -> bool {
        self.buffer.wf()
    }

    /// The representation is sound and the channel's invariant holds.
    pub open spec fn wf(&self) -> bool {
        self.inv() && self@.wf()
    }

    /// A channel with one sender and one receiver, whose buffer holds up to
    /// `capacity` payloads.
    pub fn new(capacity: usize) -> (core: Self)
        ensures
            core.wf(),
            core@ == ChannelView::<T>::fresh(capacity as nat),
    {
        ChannelCore {
            buffer: RingBuffer::new(capacity),
            send_wait: WaitQueue::new(),
            recv_wait: WaitQueue::new(),
            send_done: WaitQueue::new(),
            recv_done: WaitQueue::new(),
            send_count: 1,
            recv_count: 1,
            wakes: Vec::new(),
            ledger: Ghost(
                Ledger { entered: Seq::empty(), delivered: Seq::empty(), accepted: 0, returned: 0 },
            ),
        }
    }

    /// One send step. The payload goes to the longest-waiting receiver if
    /// one is parked, else into the buffer if it has room. Else, with `park`
    /// set and a receiver alive, the sender is parked under that token.
    fn offer(&mut self, payload: T, park: Option<WakeToken>) -> (r: SendOutcome<T>)
        requires
            old(self).wf(),
        ensures
            final(self).wf(),
            final(self)@ == old(self)@.send(payload, park),
            r == old(self)@.send_outcome(payload, park),
    {
        let ghost pre = self@;
        if self.send_count == 0 {
            return SendOutcome::Closed(payload);
        }
        if let Some(mut sig) = self.recv_wait.pop_front() {
            let owner = sig.complete(payload);
            self.recv_done.push_back(sig);
            self.wakes.push(owner);
            self.ledger = Ghost(
                Ledger {
                    entered: pre.ledger.entered.push(payload),
                    delivered: pre.ledger.delivered.push(payload),
                    accepted: pre.ledger.accepted + 1,
                    returned: pre.ledger.returned,
                },
            );
            return SendOutcome::Sent;
        }
        match self.buffer.push_back(payload) {
            Ok(()) => {
                self.ledger = Ghost(
                    Ledger {
                        entered: pre.ledger.entered.push(payload),
                        accepted: pre.ledger.accepted + 1,
                        ..pre.ledger
                    },
                );
                SendOutcome::Sent
            },
            Err(payload) => {
                match park {
                    None => SendOutcome::Full(payload),
                    Some(token) => {
                        if self.recv_count == 0 {
                            SendOutcome::ReceiveClosed(payload)
                        } else {
                            self.send_wait.push_back(Signal::for_send(token, payload));
                            self.ledger = Ghost(
                                Ledger { accepted: pre.ledger.accepted + 1, ..pre.ledger },
                            );
                            SendOutcome::Parked
                        }
                    },
                }
            },
        }
    }

    /// One receive step. The receiver gets the oldest buffered payload, and
    /// the longest-waiting sender's payload then takes the freed place at
    /// the back of the buffer; with an empty buffer the receiver gets that
    /// sender's payload itself. Else, with `park` set and a sender alive, the
    /// receiver is parked under that token.
    fn take(&mut self, park: Option<WakeToken>) -> (r: RecvOutcome<T>)
        requires
            old(self).wf(),
        ensures
            final(self).wf(),
            final(self)@ == old(self)@.recv(park),
            r == old(self)@.recv_outcome(park),
    {
        let ghost pre = self@;
        if self.recv_count == 0 {
            return RecvOutcome::Closed;
        }
        if let Some(first) = self.buffer.pop_front() {
            if let Some(mut sig) = self.send_wait.pop_front() {
                let (payload, owner) = sig.consume();
                match self.buffer.push_back(payload) {
                    Ok(()) => {},
                    Err(_) => unreached(),
                }
                self.send_done.push_back(sig);
                self.wakes.push(owner);
                self.ledger = Ghost(
                    Ledger {
                        entered: pre.ledger.entered.push(payload),
                        delivered: pre.ledger.delivered.push(first),
                        ..pre.ledger
                    },
                );
            } else {
                self.ledger = Ghost(
                    Ledger { delivered: pre.ledger.delivered.push(first), ..pre.ledger },
                );
            }
            return RecvOutcome::Received(first);
        }
        if let Some(mut sig) = self.send_wait.pop_front() {
            let (payload, owner) = sig.consume();
            self.send_done.push_back(sig);
            self.wakes.push(owner);
            self.ledger = Ghost(
                Ledger {
                    entered: pre.ledger.entered.push(payload),
                    delivered: pre.ledger.delivered.push(payload),
                    ..pre.ledger
                },
            );
            return RecvOutcome::Received(payload);
        }
        match park {
            None => RecvOutcome::Empty,
            Some(token) => {
                if self.send_count == 0 {
                    RecvOutcome::SendClosed
                } else {
                    self.recv_wait.push_back(Signal::for_recv(token));
                    RecvOutcome::Parked
                }
            },
        }
    }

    /// Sends `payload`, parking the sender under `token` when the payload
    /// can go nowhere yet.
    pub fn send(&mut self, payload: T, token: WakeToken) -> (r: SendOutcome<T>)
        requires
            old(self).wf(),
        ensures
            final(self).wf(),
            final(self)@ == old(self)@.send(payload, Some(token)),
            r == old(self)@.send_outcome(payload, Some(token)),
    {
        self.offer(payload, Some(token))
    }

    /// Sends `payload` if that needs no waiting, and hands it back if not.
    pub fn try_send(&mut self, payload: T) -> (r: SendOutcome<T>)
        requires
            old(self).wf(),
        ensures
            final(self).wf(),
            final(self)@ == old(self)@.send(payload, None),
            r == old(self)@.send_outcome(payload, None),
    {
        self.offer(payload, None)
    }

    /// Sends the payload in `data` if that needs no waiting. The payload is
    /// taken out of `data` exactly when it went through. With nothing in
    /// `data` nothing is sent: the result is `Err(Closed)` if no sender is
    /// alive, else `Ok(false)`.
    pub fn try_send_option(&mut self, data: &mut Option<T>) -> (r: Result<bool, Error>)
        requires
            old(self).wf(),
        ensures
            final(self).wf(),
            final(self)@ == old(self)@.try_send_option(*old(data)),
            r == old(self)@.try_send_option_result(*old(data)),
            *final(data) == old(self)@.try_send_option_back(*old(data)),
    {
        match data.take() {
            Some(payload) => {
                let (r, back) = self.offer(payload, None).into_try();
                *data = back;
                r
            },
            None => {
                if self.send_count == 0 {
                    Err(Error::Closed)
                } else {
                    Ok(false)
                }
            },
        }
    }

    /// What a send would meet in the state as it is; nothing is changed.
    pub fn send_prospect(&self) -> (r: SendProspect)
        requires
            self.wf(),
        ensures
            r == self@.send_prospect(),
    {
        if self.send_count == 0 {
            SendProspect::Closed
        } else if !self.recv_wait.is_empty() || self.buffer.len() < self.buffer.capacity() {
            SendProspect::Through
        } else if self.recv_count == 0 {
            SendProspect::ReceiveClosed
        } else {
            SendProspect::Wait
        }
    }

    /// Receives the oldest payload, parking the receiver under `token` when
    /// there is none yet.
    pub fn recv(&mut self, token: WakeToken) -> (r: RecvOutcome<T>)
        requires
            old(self).wf(),
        ensures
            final(self).wf(),
            final(self)@ == old(self)@.recv(Some(token)),
            r == old(self)@.recv_outcome(Some(token)),
    {
        self.take(Some(token))
    }

    /// Receives the oldest payload if there is one.
    pub fn try_recv(&mut self) -> (r: RecvOutcome<T>)
        requires
            old(self).wf(),
        ensures
            final(self).wf(),
            final(self)@ == old(self)@.recv(None),
            r == old(self)@.recv_outcome(None),
    {
        self.take(None)
    }

    /// Looks at the signal that a send was parked under. A settled signal
    /// is taken away and tells how the wait ended; with `cancel` set, a
    /// signal that still waits is taken off the queue, and the payload comes
    /// back.
    fn resolve_send(&mut self, token: WakeToken, cancel: bool) -> (r: SendSettle<T>)
        requires
            old(self).wf(),
        ensures
            final(self).wf(),
            final(self)@ == old(self)@.settle_send(token, cancel),
            r == old(self)@.settle_send_outcome(token, cancel),
    {
        let ghost pre = self@;
        proof {
            lemma_position(pre.send_done, token);
            lemma_position(pre.send_wait, token);
        }
        if let Some(sig) = self.send_done.remove(token) {
            return match sig.slot {
                None => SendSettle::Sent,
                Some(payload) => SendSettle::SendClosed(payload),
            };
        }
        if cancel {
            if let Some(sig) = self.send_wait.remove(token) {
                self.ledger = Ghost(
                    Ledger { returned: pre.ledger.returned + 1, ..pre.ledger },
                );
                return match sig.slot {
                    Some(payload) => SendSettle::Timeout(payload),
                    None => unreached(),
                };
            }
            SendSettle::Unknown
        } else if self.send_wait.contains(token) {
            SendSettle::Pending
        } else {
            SendSettle::Unknown
        }
    }

    /// Looks at the signal that a receive was parked under. A settled
    /// signal is taken away and tells how the wait ended; with `cancel` set,
    /// a signal that still waits is taken off the queue.
    fn resolve_recv(&mut self, token: WakeToken, cancel: bool) -> (r: RecvSettle<T>)
        requires
            old(self).wf(),
        ensures
            final(self).wf(),
            final(self)@ == old(self)@.settle_recv(token, cancel),
            r == old(self)@.settle_recv_outcome(token, cancel),
    {
        let ghost pre = self@;
        proof {
            lemma_position(pre.recv_done, token);
            lemma_position(pre.recv_wait, token);
        }
        if let Some(sig) = self.recv_done.remove(token) {
            return match sig.slot {
                Some(payload) => RecvSettle::Received(payload),
                None => RecvSettle::SendClosed,
            };
        }
        if cancel {
            if let Some(sig) = self.recv_wait.remove(token) {
                return RecvSettle::Timeout;
            }
            RecvSettle::Unknown
        } else if self.recv_wait.contains(token) {
            RecvSettle::Pending
        } else {
            RecvSettle::Unknown
        }
    }

    /// The owner of a parked send looks at its signal: `Pending` while it
    /// still waits; else the signal is taken away, and the result is `Sent`
    /// after a transfer and `SendClosed`, with the payload, after a
    /// termination.
    pub fn settle_send(&mut self, token: WakeToken) -> (r: SendSettle<T>)
        requires
            old(self).wf(),
        ensures
            final(self).wf(),
            final(self)@ == old(self)@.settle_send(token, false),
            r == old(self)@.settle_send_outcome(token, false),
    {
        self.resolve_send(token, false)
    }

    /// The owner of a parked send gives up. If its signal still waits it is
    /// taken off the queue and the result is `Timeout`, with the payload.
    /// If a peer or a shutdown was first, the result is what `settle_send`
    /// gives.
    pub fn cancel_send(&mut self, token: WakeToken) -> (r: SendSettle<T>)
        requires
            old(self).wf(),
        ensures
            final(self).wf(),
            final(self)@ == old(self)@.settle_send(token, true),
            r == old(self)@.settle_send_outcome(token, true),
    {
        self.resolve_send(token, true)
    }

    /// The owner of a parked receive looks at its signal: `Pending` while
    /// it still waits; else the signal is taken away, and the result is
    /// `Received`, with the payload, after a transfer and `SendClosed` after
    /// a termination.
    pub fn settle_recv(&mut self, token: WakeToken) -> (r: RecvSettle<T>)
        requires
            old(self).wf(),
        ensures
            final(self).wf(),
            final(self)@ == old(self)@.settle_recv(token, false),
            r == old(self)@.settle_recv_outcome(token, false),
    {
        self.resolve_recv(token, false)
    }

    /// The owner of a parked receive gives up. If its signal still waits it
    /// is taken off the queue and the result is `Timeout`. If a peer or a
    /// shutdown was first, the result is what `settle_recv` gives.
    pub fn cancel_recv(&mut self, token: WakeToken) -> (r: RecvSettle<T>)
        requires
            old(self).wf(),
        ensures
            final(self).wf(),
            final(self)@ == old(self)@.settle_recv(token, true),
            r == old(self)@.settle_recv_outcome(token, true),
    {
        self.resolve_recv(token, true)
    }

    /// Counts one more sending endpoint, unless none is alive.
    pub fn add_sender(&mut self)
        requires
            old(self).wf(),
        ensures
            final(self).wf(),
            final(self)@ == old(self)@.add_sender(),
    {
        if 0 < self.send_count && self.send_count < usize::MAX {
            self.send_count += 1;
        }
    }

    /// Counts one more receiving endpoint, unless none is alive.
    pub fn add_receiver(&mut self)
        requires
            old(self).wf(),
        ensures
            final(self).wf(),
            final(self)@ == old(self)@.add_receiver(),
    {
        if 0 < self.recv_count && self.recv_count < usize::MAX {
            self.recv_count += 1;
        }
    }

    /// Terminates every parked receiver.
    fn terminate_receivers(&mut self)
        requires
            old(self).inv(),
            all_parked_receivers(old(self)@.recv_wait),
        ensures
            final(self).inv(),
            final(self)@ == old(self)@.terminate_receivers(),
    {
        self.recv_wait.terminate_into(&mut self.recv_done, &mut self.wakes);
    }

    /// Terminates every parked sender.
    fn terminate_senders(&mut self)
        requires
            old(self).inv(),
            all_parked_senders(old(self)@.send_wait),
        ensures
            final(self).inv(),
            final(self)@ == old(self)@.terminate_senders(),
    {
        let ghost pre = self@;
        self.send_wait.terminate_into(&mut self.send_done, &mut self.wakes);
        self.ledger = Ghost(
            Ledger { returned: pre.ledger.returned + pre.send_wait.len(), ..pre.ledger },
        );
    }

    /// Takes one sending endpoint off the count. When the last one goes,
    /// every parked receiver is terminated.
    pub fn drop_sender(&mut self)
        requires
            old(self).wf(),
        ensures
            final(self).wf(),
            final(self)@ == old(self)@.drop_sender(),
    {
        if self.send_count > 0 {
            self.send_count -= 1;
            if self.send_count == 0 {
                self.terminate_receivers();
            }
        }
    }

    /// Takes one receiving endpoint off the count. When the last one goes,
    /// every parked sender is terminated.
    pub fn drop_receiver(&mut self)
        requires
            old(self).wf(),
        ensures
            final(self).wf(),
            final(self)@ == old(self)@.drop_receiver(),
    {
        if self.recv_count > 0 {
            self.recv_count -= 1;
            if self.recv_count == 0 {
                self.terminate_senders();
            }
        }
    }

    /// Closes the channel on both sides and terminates every parked signal.
    /// Returns whether an endpoint was still alive.
    pub fn close(&mut self) -> (was_live: bool)
        requires
            old(self).wf(),
        ensures
            final(self).wf(),
            final(self)@ == old(self)@.close(),
            was_live == !old(self)@.is_closed(),
    {
        if self.recv_count == 0 && self.send_count == 0 {
            return false;
        }
        self.recv_count = 0;
        self.send_count = 0;
        self.terminate_senders();
        self.terminate_receivers();
        true
    }

    /// Hands out the owners that are to be woken, in the order their waits
    /// ended, and forgets them.
    pub fn drain_wakes(&mut self) -> (owners: Vec<WakeToken>)
        requires
            old(self).wf(),
        ensures
            final(self).wf(),
            final(self)@ == old(self)@.drain_wakes(),
            owners@ == old(self)@.wakes,
    {
        let mut owners: Vec<WakeToken> = Vec::new();
        std::mem::swap(&mut self.wakes, &mut owners);
        owners
    }

    /// The number of buffered payloads.
    pub fn len(&self) -> (n: usize)
        requires
            self.wf(),
        ensures
            n == self@.buffer.len(),
    {
        self.buffer.len()
    }

    /// Whether the buffer holds no payload.
    pub fn is_empty(&self) -> (b: bool)
        requires
            self.wf(),
        ensures
            b == (self@.buffer.len() == 0),
    {
        self.buffer.is_empty()
    }

    /// The capacity of the channel; `UNBOUNDED` if it has no limit.
    pub fn capacity(&self) -> (n: usize)
        requires
            self.wf(),
        ensures
            n == self@.capacity,
    {
        self.buffer.capacity()
    }

    /// Whether the channel has a limit.
    pub fn is_bounded(&self) -> (b: bool)
        requires
            self.wf(),
        ensures
            b == (self@.capacity != UNBOUNDED),
    {
        self.buffer.capacity() != UNBOUNDED
    }

    /// Whether no endpoint is left alive on either side.
    pub fn is_closed(&self) -> (b: bool)
        requires
            self.wf(),
        ensures
            b == self@.is_closed(),
    {
        self.send_count == 0 && self.recv_count == 0
    }

    /// The number of parked senders.
    pub fn waiting_senders(&self) -> (n: usize)
        requires
            self.wf(),
        ensures
            n == self@.send_wait.len(),
    {
        self.send_wait.len()
    }

    /// The number of parked receivers.
    pub fn waiting_receivers(&self) -> (n: usize)
        requires
            self.wf(),
        ensures
            n == self@.recv_wait.len(),
    {
        self.recv_wait.len()
    }

    /// The number of live sending endpoints.
    pub fn send_count(&self) -> (n: usize)
        requires
            self.wf(),
        ensures
            n == self@.send_count,
    {
        self.send_count
    }

    /// The number of live receiving endpoints.
    pub fn recv_count(&self) -> (n: usize)
        requires
            self.wf(),
        ensures
            n == self@.recv_count,
    {
        self.recv_count
    }
}

} // verus!