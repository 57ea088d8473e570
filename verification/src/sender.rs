//! The sending endpoints, and the send operation that they start.

use crate::channel::ChannelCore;
use crate::channel::ChannelView;
use crate::channel::SendOutcome;
use crate::channel::SendProspect;
use crate::channel::SendSettle;
use crate::error::Error;
use crate::error::ErrorTimeout;
use crate::ring_buffer::UNBOUNDED;
use crate::shared;
use crate::shared::admits;
use crate::shared::FutureState;
use crate::shared::Lock;
use crate::shared::Progress;
use crate::signal::WakeKind;
use crate::signal::WakeToken;
use std::sync::Arc;
use vstd::prelude::*;

verus! {

/// The sending side of a channel, for callers that park their thread while
/// they wait.
///
/// An endpoint is one handle to a channel that other threads use at the same
/// time. An operation takes one step on the channel's core, in the state in
/// which it finds the channel; its contract says what it returns for that
/// state, which is some state that the channel `admits`. What the step does
/// to the state is the contract of the `ChannelCore` method of the same
/// name.
///
/// An endpoint counts as alive until it is given up with `disconnect`;
/// dropping it does not take it off the count.
pub struct Sender<T> {
    internal: Arc<Lock<T>>,
}

/// The sending side of a channel, for tasks that are suspended while they
/// wait.
pub struct AsyncSender<T> {
    internal: Arc<Lock<T>>,
}

/// A send that is under way. The caller polls it, and between two polls
/// waits to be woken under the token it polled with.
///
/// An operation that waits is to be polled to its end or given up with
/// `cancel`: one that is dropped while it waits leaves its signal, and with
/// it the payload, on the queue.
pub struct SendFuture<'a, T> {
    state: FutureState,
    internal: &'a Arc<Lock<T>>,
    kind: WakeKind,
    token: Option<WakeToken>,
    data: Option<T>,
}

/// What the first poll of a send reports for the outcome of its step.
pub open spec fn send_progress<T>(outcome: SendOutcome<T>) -> Progress<Result<(), Error>> {
    match outcome {
        SendOutcome::Sent => Progress::Ready(Ok(())),
        SendOutcome::Parked => Progress::Pending,
        SendOutcome::Closed(_) => Progress::Ready(Err(Error::Closed)),
        SendOutcome::ReceiveClosed(_) => Progress::Ready(Err(Error::ReceiveClosed)),
        SendOutcome::Full(_) => Progress::Ready(Err(Error::Closed)),
    }
}

/// What a later poll of a send reports for what it learns of its signal. A
/// signal that is nowhere to be found counts as a closed channel.
pub open spec fn settle_progress<T>(settled: SendSettle<T>) -> Progress<Result<(), Error>> {
    match settled {
        SendSettle::Pending => Progress::Pending,
        SendSettle::Sent => Progress::Ready(Ok(())),
        SendSettle::SendClosed(_) => Progress::Ready(Err(Error::SendClosed)),
        SendSettle::Timeout(_) => Progress::Ready(Err(Error::Closed)),
        SendSettle::Unknown => Progress::Ready(Err(Error::Closed)),
    }
}

/// What a sender that gives up reports for what it learns of its signal.
pub open spec fn cancel_result<T>(settled: SendSettle<T>) -> Result<(), ErrorTimeout> {
    match settled {
        SendSettle::Timeout(_) => Err(ErrorTimeout::Timeout),
        SendSettle::Sent => Ok(()),
        SendSettle::SendClosed(_) => Err(ErrorTimeout::SendClosed),
        SendSettle::Pending => Err(ErrorTimeout::Closed),
        SendSettle::Unknown => Err(ErrorTimeout::Closed),
    }
}

/// The result of a poll, as a caller with a deadline reports it.
pub open spec fn under_deadline<R>(r: Progress<Result<R, Error>>) -> Progress<
    Result<R, ErrorTimeout>,
> {
    match r {
        Progress::Pending => Progress::Pending,
        Progress::Ready(Ok(value)) => Progress::Ready(Ok(value)),
        Progress::Ready(Err(e)) => Progress::Ready(Err(e.with_deadline_spec())),
    }
}

/// What one step of a send operation leaves behind.
pub struct SendStep<T, R> {
    /// The channel after the step.
    pub view: ChannelView<T>,
    /// What the step reports.
    pub result: R,
    /// Where the operation stands after the step.
    pub state: FutureState,
    /// The token that the operation is parked under after the step.
    pub token: Option<WakeToken>,
    /// The payload that the operation holds after the step.
    pub payload: Option<T>,
}

/// One send step on the channel behind `internal`, for a sender that does
/// not wait. Returns the result and the payload that came back.
fn try_send_on<T>(internal: &Arc<Lock<T>>, data: T) -> (r: (Result<bool, Error>, Option<T>))
    ensures
        exists|core: ChannelCore<T>| #[trigger]
            admits(**internal, core) && r.0 == core@.send_outcome(data, None).try_result() && r.1
                == core@.send_outcome(data, None).payload_back(),
{
    let (mut core, handle) = internal.acquire_write();
    assert(admits(**internal, core));
    let outcome = core.try_send(data);
    handle.release_write(core);
    outcome.into_try()
}

/// One send step on the channel behind `internal` with the payload in
/// `data`, for a sender that does not wait.
fn try_send_option_on<T>(internal: &Arc<Lock<T>>, data: &mut Option<T>) -> (r: Result<bool, Error>)
    ensures
        exists|core: ChannelCore<T>| #[trigger]
            admits(**internal, core) && r == core@.try_send_option_result(*old(data)) && *final(data) == core@.try_send_option_back(*old(data)),
{
    let (mut core, handle) = internal.acquire_write();
    assert(admits(**internal, core));
    let r = core.try_send_option(data);
    handle.release_write(core);
    r
}

/// What a send would meet on the channel behind `internal`.
fn send_prospect_on<T>(internal: &Arc<Lock<T>>) -> (r: SendProspect)
    ensures
        exists|core: ChannelCore<T>| #[trigger]
            admits(**internal, core) && r == core@.send_prospect(),
{
    let handle = internal.acquire_read();
    let r = handle.borrow().send_prospect();
    assert(admits(**internal, handle.view()));
    handle.release_read();
    r
}

impl<'a, T> SendFuture<'a, T> {
    /// An operation that was not polled yet holds its payload; one that
    /// waits knows its token, and its payload is in the channel.
    #[verifier::type_invariant]
    spec fn inv(self) -> bool {
        &&& self.state == FutureState::Zero ==> self.data is Some
        &&& self.state == FutureState::Waiting ==> self.token is Some && self.data is None
    }

    /// Where the operation stands.
    pub closed spec fn state(&self) -> FutureState {
        self.state
    }

    /// The payload that the operation holds: the one to send, before the
    /// first poll; the one that came back, after a failure.
    pub closed spec fn payload(&self) -> Option<T> {
        self.data
    }

    /// The token that the operation is parked under.
    pub closed spec fn token(&self) -> Option<WakeToken> {
        self.token
    }

    /// How the owner of the operation is woken.
    pub closed spec fn kind(&self) -> WakeKind {
        self.kind
    }

    /// The lock of the channel that the operation sends on.
    pub closed spec fn lock(&self) -> Lock<T> {
        **self.internal
    }

    /// The operation `self` is what `step` leaves of the operation
    /// `before`.
    pub open spec fn left_by<R>(self, before: Self, step: SendStep<T, R>) -> bool {
        &&& self.state() == step.state
        &&& self.token() == step.token
        &&& self.payload() == step.payload
        &&& self.kind() == before.kind()
        &&& self.lock() == before.lock()
    }

    /// What a poll with `id` makes of the operation and of a channel in
    /// state `c`. The first poll makes the send step, under the token made
    /// of `id` and the operation's kind; a later one looks at the signal; a
    /// poll of an operation that is over changes nothing and reports
    /// `Closed`.
    pub open spec fn polled(self, c: ChannelView<T>, id: u64) -> SendStep<
        T,
        Progress<Result<(), Error>>,
    > {
        match self.state() {
            FutureState::Zero => {
                let token = WakeToken { kind: self.kind(), id };
                let payload = self.payload()->Some_0;
                let outcome = c.send_outcome(payload, Some(token));
                SendStep {
                    view: c.send(payload, Some(token)),
                    result: send_progress(outcome),
                    state: if outcome is Parked {
                        FutureState::Waiting
                    } else {
                        FutureState::Done
                    },
                    token: if outcome is Parked {
                        Some(token)
                    } else {
                        self.token()
                    },
                    payload: outcome.payload_back(),
                }
            },
            FutureState::Waiting => {
                let settled = c.settle_send_outcome(self.token()->Some_0, false);
                SendStep {
                    view: c.settle_send(self.token()->Some_0, false),
                    result: settle_progress(settled),
                    state: if settled is Pending {
                        FutureState::Waiting
                    } else {
                        FutureState::Done
                    },
                    token: self.token(),
                    payload: settled.payload_back(),
                }
            },
            FutureState::Done => SendStep {
                view: c,
                result: Progress::Ready(Err(Error::Closed)),
                state: FutureState::Done,
                token: self.token(),
                payload: self.payload(),
            },
        }
    }

    /// What giving up makes of the operation and of a channel in state `c`.
    /// An operation that waits takes its signal back; one that was not
    /// polled yet reports `Timeout` at once and keeps its payload.
    pub open spec fn given_up(self, c: ChannelView<T>) -> SendStep<T, Result<(), ErrorTimeout>> {
        match self.state() {
            FutureState::Zero => SendStep {
                view: c,
                result: Err(ErrorTimeout::Timeout),
                state: FutureState::Done,
                token: self.token(),
                payload: self.payload(),
            },
            FutureState::Waiting => {
                let settled = c.settle_send_outcome(self.token()->Some_0, true);
                SendStep {
                    view: c.settle_send(self.token()->Some_0, true),
                    result: cancel_result(settled),
                    state: FutureState::Done,
                    token: self.token(),
                    payload: settled.payload_back(),
                }
            },
            FutureState::Done => SendStep {
                view: c,
                result: Err(ErrorTimeout::Closed),
                state: FutureState::Done,
                token: self.token(),
                payload: self.payload(),
            },
        }
    }

    /// What a poll with `id` by a caller with a deadline makes of the
    /// operation and of a channel in state `c`. Before the deadline it is
    /// what `polled` says. After it, an operation that waits gives up, and
    /// one that was not polled yet makes its send step and gives up at once
    /// if the step parked it.
    pub open spec fn polled_timeout(self, c: ChannelView<T>, id: u64, expired: bool) -> SendStep<
        T,
        Progress<Result<(), ErrorTimeout>>,
    > {
        let first = self.polled(c, id);
        if expired && self.state() == FutureState::Waiting {
            let last = self.given_up(c);
            SendStep {
                view: last.view,
                result: Progress::Ready(last.result),
                state: last.state,
                token: last.token,
                payload: last.payload,
            }
        } else if expired && first.result is Pending {
            let token = WakeToken { kind: self.kind(), id };
            let settled = first.view.settle_send_outcome(token, true);
            SendStep {
                view: first.view.settle_send(token, true),
                result: Progress::Ready(cancel_result(settled)),
                state: FutureState::Done,
                token: first.token,
                payload: settled.payload_back(),
            }
        } else {
            SendStep {
                view: first.view,
                result: under_deadline(first.result),
                state: first.state,
                token: first.token,
                payload: first.payload,
            }
        }
    }

    fn new(internal: &'a Arc<Lock<T>>, kind: WakeKind, data: T) -> (op: Self)
        ensures
            op.state() == FutureState::Zero,
            op.payload() == Some(data),
            op.token() == None::<WakeToken>,
            op.kind() == kind,
            op.lock() == **internal,
    {
        SendFuture { state: FutureState::Zero, internal, kind, token: None, data: Some(data) }
    }

    /// Where the operation stands.
    pub fn progress(&self) -> (state: FutureState)
        ensures
            state == self.state(),
    {
        self.state
    }

    /// Takes the payload out of an operation that was not polled yet.
    fn take_payload(&mut self) -> (payload: T)
        requires
            old(self).state() == FutureState::Zero,
        ensures
            old(self).payload() == Some(payload),
            final(self).payload() is None,
            final(self).state() == FutureState::Done,
            final(self).token() == old(self).token(),
            final(self).kind() == old(self).kind(),
            final(self).lock() == old(self).lock(),
    {
        proof {
            use_type_invariant(&*self);
        }
        self.state = FutureState::Done;
        let mut held: Option<T> = None;
        std::mem::swap(&mut self.data, &mut held);
        match held {
            Some(payload) => payload,
            None => unreached(),
        }
    }

    /// The step of `poll` on a channel whose core the caller holds.
    pub fn poll_on(&mut self, core: &mut ChannelCore<T>, id: u64) -> (r: Progress<
        Result<(), Error>,
    >)
        requires
            old(core).wf(),
        ensures
            final(core).wf(),
            final(core)@ == old(self).polled(old(core)@, id).view,
            r == old(self).polled(old(core)@, id).result,
            final(self).left_by(*old(self), old(self).polled(old(core)@, id)),
    {
        proof {
            use_type_invariant(&*self);
        }
        match self.state {
            FutureState::Zero => {
                let payload = self.take_payload();
                let token = WakeToken { kind: self.kind, id };
                match core.send(payload, token) {
                    SendOutcome::Sent => Progress::Ready(Ok(())),
                    SendOutcome::Parked => {
                        self.token = Some(token);
                        self.state = FutureState::Waiting;
                        Progress::Pending
                    },
                    SendOutcome::Closed(payload) => {
                        self.data = Some(payload);
                        Progress::Ready(Err(Error::Closed))
                    },
                    SendOutcome::ReceiveClosed(payload) => {
                        self.data = Some(payload);
                        Progress::Ready(Err(Error::ReceiveClosed))
                    },
                    SendOutcome::Full(_) => unreached(),
                }
            },
            FutureState::Waiting => {
                let token = match self.token {
                    Some(token) => token,
                    None => unreached(),
                };
                match core.settle_send(token) {
                    SendSettle::Pending => Progress::Pending,
                    SendSettle::Sent => {
                        self.state = FutureState::Done;
                        Progress::Ready(Ok(()))
                    },
                    SendSettle::SendClosed(payload) => {
                        self.state = FutureState::Done;
                        self.data = Some(payload);
                        Progress::Ready(Err(Error::SendClosed))
                    },
                    SendSettle::Timeout(_) => unreached(),
                    SendSettle::Unknown => {
                        self.state = FutureState::Done;
                        Progress::Ready(Err(Error::Closed))
                    },
                }
            },
            FutureState::Done => Progress::Ready(Err(Error::Closed)),
        }
    }

    /// The step of `cancel` on a channel whose core the caller holds.
    pub fn cancel_on(&mut self, core: &mut ChannelCore<T>) -> (r: Result<(), ErrorTimeout>)
        requires
            old(core).wf(),
        ensures
            final(core).wf(),
            final(core)@ == old(self).given_up(old(core)@).view,
            r == old(self).given_up(old(core)@).result,
            final(self).left_by(*old(self), old(self).given_up(old(core)@)),
    {
        proof {
            use_type_invariant(&*self);
        }
        match self.state {
            FutureState::Zero => {
                self.state = FutureState::Done;
                Err(ErrorTimeout::Timeout)
            },
            FutureState::Waiting => {
                let token = match self.token {
                    Some(token) => token,
                    None => unreached(),
                };
                self.state = FutureState::Done;
                match core.cancel_send(token) {
                    SendSettle::Timeout(payload) => {
                        self.data = Some(payload);
                        Err(ErrorTimeout::Timeout)
                    },
                    SendSettle::Sent => Ok(()),
                    SendSettle::SendClosed(payload) => {
                        self.data = Some(payload);
                        Err(ErrorTimeout::SendClosed)
                    },
                    SendSettle::Pending => unreached(),
                    SendSettle::Unknown => Err(ErrorTimeout::Closed),
                }
            },
            FutureState::Done => Err(ErrorTimeout::Closed),
        }
    }

    /// The step of `poll_timeout` on a channel whose core the caller holds.
    pub fn poll_timeout_on(&mut self, core: &mut ChannelCore<T>, id: u64, expired: bool) -> (r:
        Progress<Result<(), ErrorTimeout>>)
        requires
            old(core).wf(),
        ensures
            final(core).wf(),
            final(core)@ == old(self).polled_timeout(old(core)@, id, expired).view,
            r == old(self).polled_timeout(old(core)@, id, expired).result,
            final(self).left_by(*old(self), old(self).polled_timeout(old(core)@, id, expired)),
    {
        proof {
            use_type_invariant(&*self);
        }
        if expired && matches!(self.state, FutureState::Waiting) {
            return Progress::Ready(self.cancel_on(core));
        }
        match self.poll_on(core, id) {
            Progress::Pending => {
                if expired {
                    Progress::Ready(self.cancel_on(core))
                } else {
                    Progress::Pending
                }
            },
            Progress::Ready(Ok(())) => Progress::Ready(Ok(())),
            Progress::Ready(Err(e)) => Progress::Ready(Err(e.with_deadline())),
        }
    }

    /// Takes the operation a step further.
    ///
    /// The first poll makes the send step; if the sender has to wait it is
    /// parked under the token made of `id` and the endpoint's kind. Every
    /// later poll looks at the signal. The result is `Pending` exactly when
    /// the operation waits afterwards. After `Ok` the payload is gone; after
    /// a failure it is back in the operation. A poll of an operation that
    /// is over reports `Closed`.
    pub fn poll(&mut self, id: u64) -> (r: Progress<Result<(), Error>>)
        ensures
            exists|core: ChannelCore<T>| #[trigger]
                admits(old(self).lock(), core) && r == old(self).polled(core@, id).result && final(self).left_by(*old(self), old(self).polled(core@, id)),
            r is Pending <==> final(self).state() == FutureState::Waiting,
            r is Ready ==> final(self).state() == FutureState::Done,
    {
        let internal = self.internal;
        let (mut core, handle) = internal.acquire_write();
        assert(admits(old(self).lock(), core));
        let r = self.poll_on(&mut core, id);
        handle.release_write(core);
        r
    }

    /// Gives the operation up, as a caller does whose deadline has passed.
    ///
    /// An operation that still waits is taken off the queue and reports
    /// `Timeout`, with the payload back in the operation. If a receiver was
    /// first, the send went through and the result is `Ok`; if a shutdown
    /// was first, the result is `SendClosed`, with the payload back. An
    /// operation that was never polled reports `Timeout` and keeps its
    /// payload. The operation is over afterwards.
    pub fn cancel(&mut self) -> (r: Result<(), ErrorTimeout>)
        ensures
            exists|core: ChannelCore<T>| #[trigger]
                admits(old(self).lock(), core) && r == old(self).given_up(core@).result && final(self).left_by(*old(self), old(self).given_up(core@)),
            final(self).state() == FutureState::Done,
    {
        let internal = self.internal;
        let (mut core, handle) = internal.acquire_write();
        assert(admits(old(self).lock(), core));
        let r = self.cancel_on(&mut core);
        handle.release_write(core);
        r
    }

    /// Takes the operation a step further for a caller with a deadline;
    /// `expired` says whether the deadline has passed.
    ///
    /// Before the deadline the step is that of `poll`. After it, an
    /// operation that waits is given up as by `cancel`, and one that was
    /// not polled yet makes its send step and gives up at once if the step
    /// parked it. So the result is `Pending` only before the deadline, and
    /// `Timeout` only after it.
    pub fn poll_timeout(&mut self, id: u64, expired: bool) -> (r: Progress<
        Result<(), ErrorTimeout>,
    >)
        ensures
            exists|core: ChannelCore<T>| #[trigger]
                admits(old(self).lock(), core) && r == old(self).polled_timeout(
                    core@,
                    id,
                    expired,
                ).result && final(self).left_by(
                    *old(self),
                    old(self).polled_timeout(core@, id, expired),
                ),
            r is Pending <==> final(self).state() == FutureState::Waiting,
            r is Ready ==> final(self).state() == FutureState::Done,
            r is Pending ==> !expired,
            r matches Progress::Ready(Err(ErrorTimeout::Timeout)) ==> expired,
    {
        let internal = self.internal;
        let (mut core, handle) = internal.acquire_write();
        assert(admits(old(self).lock(), core));
        let r = self.poll_timeout_on(&mut core, id, expired);
        handle.release_write(core);
        r
    }

    /// Ends the operation and hands out the payload that it still holds.
    pub fn into_payload(self) -> (payload: Option<T>)
        ensures
            payload == self.payload(),
    {
        self.data
    }
}

impl<T> Sender<T> {
    /// The lock of the channel that the endpoint belongs to. Two endpoints
    /// with the same lock are endpoints of one channel.
    pub closed spec fn lock(&self) -> Lock<T> {
        *self.internal
    }

    /// The capacity that the channel was made with.
    pub open spec fn channel_capacity(&self) -> nat {
        self.lock().pred().capacity
    }

    fn handle(&self) -> (internal: &Arc<Lock<T>>)
        ensures
            **internal == self.lock(),
    {
        &self.internal
    }

    pub(crate) fn from_internal(internal: Arc<Lock<T>>) -> (s: Self)
        ensures
            s.lock() == *internal,
    {
        Sender { internal }
    }

    /// Starts a send of `data`. Nothing happens on the channel until the
    /// operation is polled.
    pub fn send(&self, data: T) -> (op: SendFuture<'_, T>)
        ensures
            op.state() == FutureState::Zero,
            op.payload() == Some(data),
            op.token() == None::<WakeToken>,
            op.kind() == WakeKind::Thread,
            op.lock() == self.lock(),
    {
        SendFuture::new(self.handle(), WakeKind::Thread, data)
    }

    /// Sends `data` if that needs no waiting: `Ok(true)` if it went through,
    /// `Ok(false)` if the sender would have had to wait, `Err(Closed)` if no
    /// sender counts as alive. A payload that did not go through is dropped.
    pub fn try_send(&self, data: T) -> (r: Result<bool, Error>)
        ensures
            exists|core: ChannelCore<T>| #[trigger]
                admits(self.lock(), core) && r == core@.send_outcome(data, None).try_result(),
    {
        try_send_on(self.handle(), data).0
    }

    /// Sends the payload in `data` if that needs no waiting, with the
    /// results of `try_send`. The payload is taken out of `data` exactly
    /// when it went through. With nothing in `data` nothing is sent: the
    /// result is `Err(Closed)` if no sender counts as alive, else
    /// `Ok(false)`.
    pub fn try_send_option(&self, data: &mut Option<T>) -> (r: Result<bool, Error>)
        ensures
            exists|core: ChannelCore<T>| #[trigger]
                admits(self.lock(), core) && r == core@.try_send_option_result(*old(data))
                    && *final(data) == core@.try_send_option_back(*old(data)),
            r matches Ok(true) ==> *final(data) is None,
            !(r matches Ok(true)) ==> *final(data) == *old(data),
    {
        try_send_option_on(self.handle(), data)
    }

    /// What a send would meet in the state that the call finds. Nothing is
    /// sent.
    pub fn send_prospect(&self) -> (r: SendProspect)
        ensures
            exists|core: ChannelCore<T>| #[trigger]
                admits(self.lock(), core) && r == core@.send_prospect(),
    {
        send_prospect_on(self.handle())
    }

    /// A sending endpoint of the same channel for tasks. It counts as
    /// one more sender, unless no sender counts as alive any more.
    pub fn clone_async(&self) -> (other: AsyncSender<T>)
        ensures
            other.lock() == self.lock(),
    {
        AsyncSender::from_internal(shared::join_as_sender(self.handle()))
    }

    /// Whether no receiver is alive in the state that the call finds.
    pub fn is_disconnected(&mut self) -> (b: bool)
        ensures
            final(self).lock() == old(self).lock(),
            exists|core: ChannelCore<T>| #[trigger]
                admits(old(self).lock(), core) && b == (core@.recv_count == 0),
    {
        shared::no_receivers(self.handle())
    }

    /// Whether the channel has a limit on its buffer.
    pub fn is_bounded(&mut self) -> (b: bool)
        ensures
            final(self).lock() == old(self).lock(),
            b == (old(self).channel_capacity() != UNBOUNDED),
    {
        shared::is_bounded(self.handle())
    }

    /// The number of buffered payloads in the state that the call finds.
    pub fn len(&self) -> (n: usize)
        ensures
            exists|core: ChannelCore<T>| #[trigger]
                admits(self.lock(), core) && n == core@.buffer.len(),
    {
        shared::len(self.handle())
    }

    /// Whether the buffer is empty in the state that the call finds.
    pub fn is_empty(&self) -> (b: bool)
        ensures
            exists|core: ChannelCore<T>| #[trigger]
                admits(self.lock(), core) && b == (core@.buffer.len() == 0),
    {
        shared::is_empty(self.handle())
    }

    /// The capacity that the channel was made with; `UNBOUNDED` if it has no
    /// limit.
    pub fn capacity(&mut self) -> (n: usize)
        ensures
            final(self).lock() == old(self).lock(),
            n == old(self).channel_capacity(),
    {
        shared::capacity(self.handle())
    }

    /// Closes the channel on both sides and terminates every parked waiter.
    /// Returns whether an endpoint was still alive in the state that the
    /// call finds.
    pub fn close(&mut self) -> (was_live: bool)
        ensures
            final(self).lock() == old(self).lock(),
            exists|core: ChannelCore<T>| #[trigger]
                admits(old(self).lock(), core) && was_live == !core@.is_closed(),
    {
        shared::close(self.handle())
    }

    /// Whether no endpoint is alive on either side in the state that the
    /// call finds.
    pub fn is_closed(&mut self) -> (b: bool)
        ensures
            final(self).lock() == old(self).lock(),
            exists|core: ChannelCore<T>| #[trigger]
                admits(old(self).lock(), core) && b == core@.is_closed(),
    {
        shared::is_closed(self.handle())
    }

    /// Hands out the owners whose wait has ended since they were last
    /// handed out, in that order. The caller wakes them.
    pub fn take_wakes(&self) -> (owners: Vec<WakeToken>)
        ensures
            exists|core: ChannelCore<T>| #[trigger]
                admits(self.lock(), core) && owners@ == core@.wakes,
    {
        shared::take_wakes(self.handle())
    }

    /// Gives the endpoint up: the channel counts one sender less, and when
    /// the last one goes every parked receiver is terminated. Returns the
    /// owners that are to be woken after that.
    pub fn disconnect(self) -> (owners: Vec<WakeToken>)
        ensures
            exists|core: ChannelCore<T>| #[trigger]
                admits(self.lock(), core) && owners@ == core@.drop_sender().wakes,
    {
        shared::leave_as_sender(self.handle())
    }
}

impl<T> Clone for Sender<T> {
    /// Another sending endpoint of the same channel. It counts as one more
    /// sender, unless no sender counts as alive any more.
    fn clone(&self) -> (other: Self)
        ensures
            other.lock() == self.lock(),
    {
        Sender { internal: shared::join_as_sender(self.handle()) }
    }
}

impl<T> AsyncSender<T> {
    /// The lock of the channel that the endpoint belongs to. Two endpoints
    /// with the same lock are endpoints of one channel.
    pub closed spec fn lock(&self) -> Lock<T> {
        *self.internal
    }

    /// The capacity that the channel was made with.
    pub open spec fn channel_capacity(&self) -> nat {
        self.lock().pred().capacity
    }

    fn handle(&self) -> (internal: &Arc<Lock<T>>)
        ensures
            **internal == self.lock(),
    {
        &self.internal
    }

    pub(crate) fn from_internal(internal: Arc<Lock<T>>) -> (s: Self)
        ensures
            s.lock() == *internal,
    {
        AsyncSender { internal }
    }

    /// Starts a send of `data`. Nothing happens on the channel until the
    /// operation is polled.
    pub fn send(&self, data: T) -> (op: SendFuture<'_, T>)
        ensures
            op.state() == FutureState::Zero,
            op.payload() == Some(data),
            op.token() == None::<WakeToken>,
            op.kind() == WakeKind::Task,
            op.lock() == self.lock(),
    {
        SendFuture::new(self.handle(), WakeKind::Task, data)
    }

    /// Sends `data` if that needs no waiting: `Ok(true)` if it went through,
    /// `Ok(false)` if the sender would have had to wait, `Err(Closed)` if no
    /// sender counts as alive. A payload that did not go through is dropped.
    pub fn try_send(&self, data: T) -> (r: Result<bool, Error>)
        ensures
            exists|core: ChannelCore<T>| #[trigger]
                admits(self.lock(), core) && r == core@.send_outcome(data, None).try_result(),
    {
        try_send_on(self.handle(), data).0
    }

    /// Sends the payload in `data` if that needs no waiting, with the
    /// results of `try_send`. The payload is taken out of `data` exactly
    /// when it went through. With nothing in `data` nothing is sent: the
    /// result is `Err(Closed)` if no sender counts as alive, else
    /// `Ok(false)`.
    pub fn try_send_option(&self, data: &mut Option<T>) -> (r: Result<bool, Error>)
        ensures
            exists|core: ChannelCore<T>| #[trigger]
                admits(self.lock(), core) && r == core@.try_send_option_result(*old(data))
                    && *final(data) == core@.try_send_option_back(*old(data)),
            r matches Ok(true) ==> *final(data) is None,
            !(r matches Ok(true)) ==> *final(data) == *old(data),
    {
        try_send_option_on(self.handle(), data)
    }

    /// What a send would meet in the state that the call finds. Nothing is
    /// sent.
    pub fn send_prospect(&self) -> (r: SendProspect)
        ensures
            exists|core: ChannelCore<T>| #[trigger]
                admits(self.lock(), core) && r == core@.send_prospect(),
    {
        send_prospect_on(self.handle())
    }

    /// A sending endpoint of the same channel for threads. It counts as
    /// one more sender, unless no sender counts as alive any more.
    pub fn clone_sync(&self) -> (other: Sender<T>)
        ensures
            other.lock() == self.lock(),
    {
        Sender::from_internal(shared::join_as_sender(self.handle()))
    }

    /// Whether no receiver is alive in the state that the call finds.
    pub fn is_disconnected(&mut self) -> (b: bool)
        ensures
            final(self).lock() == old(self).lock(),
            exists|core: ChannelCore<T>| #[trigger]
                admits(old(self).lock(), core) && b == (core@.recv_count == 0),
    {
        shared::no_receivers(self.handle())
    }

    /// Whether the channel has a limit on its buffer.
    pub fn is_bounded(&mut self) -> (b: bool)
        ensures
            final(self).lock() == old(self).lock(),
            b == (old(self).channel_capacity() != UNBOUNDED),
    {
        shared::is_bounded(self.handle())
    }

    /// The number of buffered payloads in the state that the call finds.
    pub fn len(&self) -> (n: usize)
        ensures
            exists|core: ChannelCore<T>| #[trigger]
                admits(self.lock(), core) && n == core@.buffer.len(),
    {
        shared::len(self.handle())
    }

    /// Whether the buffer is empty in the state that the call finds.
    pub fn is_empty(&self) -> (b: bool)
        ensures
            exists|core: ChannelCore<T>| #[trigger]
                admits(self.lock(), core) && b == (core@.buffer.len() == 0),
    {
        shared::is_empty(self.handle())
    }

    /// The capacity that the channel was made with; `UNBOUNDED` if it has no
    /// limit.
    pub fn capacity(&mut self) -> (n: usize)
        ensures
            final(self).lock() == old(self).lock(),
            n == old(self).channel_capacity(),
    {
        shared::capacity(self.handle())
    }

    /// Closes the channel on both sides and terminates every parked waiter.
    /// Returns whether an endpoint was still alive in the state that the
    /// call finds.
    pub fn close(&mut self) -> (was_live: bool)
        ensures
            final(self).lock() == old(self).lock(),
            exists|core: ChannelCore<T>| #[trigger]
                admits(old(self).lock(), core) && was_live == !core@.is_closed(),
    {
        shared::close(self.handle())
    }

    /// Whether no endpoint is alive on either side in the state that the
    /// call finds.
    pub fn is_closed(&mut self) -> (b: bool)
        ensures
            final(self).lock() == old(self).lock(),
            exists|core: ChannelCore<T>| #[trigger]
                admits(old(self).lock(), core) && b == core@.is_closed(),
    {
        shared::is_closed(self.handle())
    }

    /// Hands out the owners whose wait has ended since they were last
    /// handed out, in that order. The caller wakes them.
    pub fn take_wakes(&self) -> (owners: Vec<WakeToken>)
        ensures
            exists|core: ChannelCore<T>| #[trigger]
                admits(self.lock(), core) && owners@ == core@.wakes,
    {
        shared::take_wakes(self.handle())
    }

    /// Gives the endpoint up: the channel counts one sender less, and when
    /// the last one goes every parked receiver is terminated. Returns the
    /// owners that are to be woken after that.
    pub fn disconnect(self) -> (owners: Vec<WakeToken>)
        ensures
            exists|core: ChannelCore<T>| #[trigger]
                admits(self.lock(), core) && owners@ == core@.drop_sender().wakes,
    {
        shared::leave_as_sender(self.handle())
    }
}

impl<T> Clone for AsyncSender<T> {
    /// Another sending endpoint of the same channel. It counts as one more
    /// sender, unless no sender counts as alive any more.
    fn clone(&self) -> (other: Self)
        ensures
            other.lock() == self.lock(),
    {
        AsyncSender { internal: shared::join_as_sender(self.handle()) }
    }
}

} // verus!
