//! The receiving endpoints, and the receive operation that they start.

use crate::channel::ChannelCore;
use crate::channel::ChannelView;
use crate::channel::RecvOutcome;
use crate::channel::RecvSettle;
use crate::error::Error;
use crate::error::ErrorTimeout;
use crate::ring_buffer::UNBOUNDED;
use crate::sender::under_deadline;
use crate::shared;
use crate::shared::admits;
use crate::shared::FutureState;
use crate::shared::Lock;
use crate::shared::Progress;
use crate::signal::WakeKind;
use crate::signal::WakeToken;
use std::sync::Arc;
use vstd::prelude::*;

verus! {

/// The receiving side of a channel, for callers that park their thread
/// while they wait.
///
/// An endpoint is one handle to a channel that other threads use at the same
/// time. An operation takes one step on the channel's core, in the state in
/// which it finds the channel; its contract says what it returns for that
/// state, which is some state that the channel `admits`. What the step does
/// to the state is the contract of the `ChannelCore` method of the same
/// name.
///
/// An endpoint counts as alive until it is given up with `disconnect`;
/// dropping it does not take it off the count.
pub struct Receiver<T> {
    internal: Arc<Lock<T>>,
}

/// The receiving side of a channel, for tasks that are suspended while they
/// wait.
pub struct AsyncReceiver<T> {
    internal: Arc<Lock<T>>,
}

/// A receive that is under way. The caller polls it, and between two polls
/// waits to be woken under the token it polled with.
///
/// An operation that waits is to be polled to its end or given up with
/// `cancel`: one that is dropped while it waits leaves its signal on the
/// queue, where the next payload is handed to it.
pub struct ReceiveFuture<'a, T> {
    state: FutureState,
    internal: &'a Arc<Lock<T>>,
    kind: WakeKind,
    token: Option<WakeToken>,
}

/// What the first poll of a receive reports for the outcome of its step.
pub open spec fn recv_progress<T>(outcome: RecvOutcome<T>) -> Progress<Result<T, Error>> {
    match outcome {
        RecvOutcome::Received(payload) => Progress::Ready(Ok(payload)),
        RecvOutcome::Parked => Progress::Pending,
        RecvOutcome::Closed => Progress::Ready(Err(Error::Closed)),
        RecvOutcome::SendClosed => Progress::Ready(Err(Error::SendClosed)),
        RecvOutcome::Empty => Progress::Ready(Err(Error::Closed)),
    }
}

/// What a later poll of a receive reports for what it learns of its signal.
/// A signal that is nowhere to be found counts as a closed channel.
pub open spec fn settle_progress<T>(settled: RecvSettle<T>) -> Progress<Result<T, Error>> {
    match settled {
        RecvSettle::Pending => Progress::Pending,
        RecvSettle::Received(payload) => Progress::Ready(Ok(payload)),
        RecvSettle::SendClosed => Progress::Ready(Err(Error::SendClosed)),
        RecvSettle::Timeout => Progress::Ready(Err(Error::Closed)),
        RecvSettle::Unknown => Progress::Ready(Err(Error::Closed)),
    }
}

/// What a receiver that gives up reports for what it learns of its signal.
pub open spec fn cancel_result<T>(settled: RecvSettle<T>) -> Result<T, ErrorTimeout> {
    match settled {
        RecvSettle::Timeout => Err(ErrorTimeout::Timeout),
        RecvSettle::Received(payload) => Ok(payload),
        RecvSettle::SendClosed => Err(ErrorTimeout::SendClosed),
        RecvSettle::Pending => Err(ErrorTimeout::Closed),
        RecvSettle::Unknown => Err(ErrorTimeout::Closed),
    }
}

/// What a caller that walks through the payloads of a channel makes of the
/// result of a poll: the payload, or the end at any error.
pub open spec fn next_item<T>(r: Progress<Result<T, Error>>) -> Progress<Option<T>> {
    match r {
        Progress::Pending => Progress::Pending,
        Progress::Ready(Ok(payload)) => Progress::Ready(Some(payload)),
        Progress::Ready(Err(_)) => Progress::Ready(None),
    }
}

/// What one step of a receive operation leaves behind.
pub struct RecvStep<T, R> {
    /// The channel after the step.
    pub view: ChannelView<T>,
    /// What the step reports.
    pub result: R,
    /// Where the operation stands after the step.
    pub state: FutureState,
    /// The token that the operation is parked under after the step.
    pub token: Option<WakeToken>,
}

/// One receive step on the channel behind `internal`, for a receiver that
/// does not wait.
fn try_recv_on<T>(internal: &Arc<Lock<T>>) -> (r: Result<Option<T>, Error>)
    ensures
        exists|core: ChannelCore<T>| #[trigger]
            admits(**internal, core) && r == core@.recv_outcome(None).try_result(),
{
    let (mut core, handle) = internal.acquire_write();
    assert(admits(**internal, core));
    let outcome = core.try_recv();
    handle.release_write(core);
    outcome.into_try()
}

impl<'a, T> ReceiveFuture<'a, T> {
    /// An operation that waits knows its token.
    #[verifier::type_invariant]
    spec fn inv(self) -> bool {
        self.state == FutureState::Waiting ==> self.token is Some
    }

    /// Where the operation stands.
    pub closed spec fn state(&self) -> FutureState {
        self.state
    }

    /// The token that the operation is parked under.
    pub closed spec fn token(&self) -> Option<WakeToken> {
        self.token
    }

    /// How the owner of the operation is woken.
    pub closed spec fn kind(&self) -> WakeKind {
        self.kind
    }

    /// The lock of the channel that the operation receives from.
    pub closed spec fn lock(&self) -> Lock<T> {
        **self.internal
    }

    /// The operation `self` is what `step` leaves of the operation
    /// `before`.
    pub open spec fn left_by<R>(self, before: Self, step: RecvStep<T, R>) -> bool {
        &&& self.state() == step.state
        &&& self.token() == step.token
        &&& self.kind() == before.kind()
        &&& self.lock() == before.lock()
    }

    /// What a poll with `id` makes of the operation and of a channel in
    /// state `c`. The first poll makes the receive step, under the token
    /// made of `id` and the operation's kind; a later one looks at the
    /// signal; a poll of an operation that is over changes nothing and
    /// reports `Closed`.
    pub open spec fn polled(self, c: ChannelView<T>, id: u64) -> RecvStep<
        T,
        Progress<Result<T, Error>>,
    > {
        match self.state() {
            FutureState::Zero => {
                let token = WakeToken { kind: self.kind(), id };
                let outcome = c.recv_outcome(Some(token));
                RecvStep {
                    view: c.recv(Some(token)),
                    result: recv_progress(outcome),
                    state: if outcome is Parked {
                        FutureState::Waiting
                    } else {
                        FutureState::Done
                    },
                    token: if outcome is Parked {
                        Some(token)
                    } else {
                        self.token()
                    },
                }
            },
            FutureState::Waiting => {
                let settled = c.settle_recv_outcome(self.token()->Some_0, false);
                RecvStep {
                    view: c.settle_recv(self.token()->Some_0, false),
                    result: settle_progress(settled),
                    state: if settled is Pending {
                        FutureState::Waiting
                    } else {
                        FutureState::Done
                    },
                    token: self.token(),
                }
            },
            FutureState::Done => RecvStep {
                view: c,
                result: Progress::Ready(Err(Error::Closed)),
                state: FutureState::Done,
                token: self.token(),
            },
        }
    }

    /// What giving up makes of the operation and of a channel in state `c`.
    /// An operation that waits takes its signal back; one that was not
    /// polled yet reports `Timeout` at once.
    pub open spec fn given_up(self, c: ChannelView<T>) -> RecvStep<T, Result<T, ErrorTimeout>> {
        match self.state() {
            FutureState::Zero => RecvStep {
                view: c,
                result: Err(ErrorTimeout::Timeout),
                state: FutureState::Done,
                token: self.token(),
            },
            FutureState::Waiting => {
                let settled = c.settle_recv_outcome(self.token()->Some_0, true);
                RecvStep {
                    view: c.settle_recv(self.token()->Some_0, true),
                    result: cancel_result(settled),
                    state: FutureState::Done,
                    token: self.token(),
                }
            },
            FutureState::Done => RecvStep {
                view: c,
                result: Err(ErrorTimeout::Closed),
                state: FutureState::Done,
                token: self.token(),
            },
        }
    }

    /// What a poll with `id` by a caller with a deadline makes of the
    /// operation and of a channel in state `c`. Before the deadline it is
    /// what `polled` says. After it, an operation that waits gives up, and
    /// one that was not polled yet makes its receive step and gives up at
    /// once if the step parked it.
    pub open spec fn polled_timeout(self, c: ChannelView<T>, id: u64, expired: bool) -> RecvStep<
        T,
        Progress<Result<T, ErrorTimeout>>,
    > {
        let first = self.polled(c, id);
        if expired && self.state() == FutureState::Waiting {
            let last = self.given_up(c);
            RecvStep {
                view: last.view,
                result: Progress::Ready(last.result),
                state: last.state,
                token: last.token,
            }
        } else if expired && first.result is Pending {
            let token = WakeToken { kind: self.kind(), id };
            let settled = first.view.settle_recv_outcome(token, true);
            RecvStep {
                view: first.view.settle_recv(token, true),
                result: Progress::Ready(cancel_result(settled)),
                state: FutureState::Done,
                token: first.token,
            }
        } else {
            RecvStep {
                view: first.view,
                result: under_deadline(first.result),
                state: first.state,
                token: first.token,
            }
        }
    }

    /// What a poll with `id` by a caller that walks through the payloads
    /// makes of the operation and of a channel in state `c`: what `polled`
    /// says, with the payload as the next item and any error as the end.
    pub open spec fn polled_next(self, c: ChannelView<T>, id: u64) -> RecvStep<
        T,
        Progress<Option<T>>,
    > {
        let first = self.polled(c, id);
        RecvStep {
            view: first.view,
            result: next_item(first.result),
            state: first.state,
            token: first.token,
        }
    }

    fn new(internal: &'a Arc<Lock<T>>, kind: WakeKind) -> (op: Self)
        ensures
            op.state() == FutureState::Zero,
            op.token() == None::<WakeToken>,
            op.kind() == kind,
            op.lock() == **internal,
    {
        ReceiveFuture { state: FutureState::Zero, internal, kind, token: None }
    }

    /// Where the operation stands.
    pub fn progress(&self) -> (state: FutureState)
        ensures
            state == self.state(),
    {
        self.state
    }

    /// The step of `poll` on a channel whose core the caller holds.
    pub fn poll_on(&mut self, core: &mut ChannelCore<T>, id: u64) -> (r: Progress<
        Result<T, Error>,
    >)
        requires
            old(core).wf(),
        ensures
            final(core).wf(),
            final(core)@ == old(self).polled(old(core)@, id).view,
            r == old(self).polled(old(core)@, id).result,
            final(self).left_by(*old(self), old(self).polled(old(core)@, id)),
    {
        proof {
            use_type_invariant(&*self);
        }
        match self.state {
            FutureState::Zero => {
                self.state = FutureState::Done;
                let token = WakeToken { kind: self.kind, id };
                match core.recv(token) {
                    RecvOutcome::Received(payload) => Progress::Ready(Ok(payload)),
                    RecvOutcome::Parked => {
                        self.token = Some(token);
                        self.state = FutureState::Waiting;
                        Progress::Pending
                    },
                    RecvOutcome::Closed => Progress::Ready(Err(Error::Closed)),
                    RecvOutcome::SendClosed => Progress::Ready(Err(Error::SendClosed)),
                    RecvOutcome::Empty => unreached(),
                }
            },
            FutureState::Waiting => {
                let token = match self.token {
                    Some(token) => token,
                    None => unreached(),
                };
                match core.settle_recv(token) {
                    RecvSettle::Pending => Progress::Pending,
                    RecvSettle::Received(payload) => {
                        self.state = FutureState::Done;
                        Progress::Ready(Ok(payload))
                    },
                    RecvSettle::SendClosed => {
                        self.state = FutureState::Done;
                        Progress::Ready(Err(Error::SendClosed))
                    },
                    RecvSettle::Timeout => unreached(),
                    RecvSettle::Unknown => {
                        self.state = FutureState::Done;
                        Progress::Ready(Err(Error::Closed))
                    },
                }
            },
            FutureState::Done => Progress::Ready(Err(Error::Closed)),
        }
    }

    /// The step of `cancel` on a channel whose core the caller holds.
    pub fn cancel_on(&mut self, core: &mut ChannelCore<T>) -> (r: Result<T, ErrorTimeout>)
        requires
            old(core).wf(),
        ensures
            final(core).wf(),
            final(core)@ == old(self).given_up(old(core)@).view,
            r == old(self).given_up(old(core)@).result,
            final(self).left_by(*old(self), old(self).given_up(old(core)@)),
    {
        proof {
            use_type_invariant(&*self);
        }
        match self.state {
            FutureState::Zero => {
                self.state = FutureState::Done;
                Err(ErrorTimeout::Timeout)
            },
            FutureState::Waiting => {
                let token = match self.token {
                    Some(token) => token,
                    None => unreached(),
                };
                self.state = FutureState::Done;
                match core.cancel_recv(token) {
                    RecvSettle::Timeout => Err(ErrorTimeout::Timeout),
                    RecvSettle::Received(payload) => Ok(payload),
                    RecvSettle::SendClosed => Err(ErrorTimeout::SendClosed),
                    RecvSettle::Pending => unreached(),
                    RecvSettle::Unknown => Err(ErrorTimeout::Closed),
                }
            },
            FutureState::Done => Err(ErrorTimeout::Closed),
        }
    }

    /// The step of `poll_timeout` on a channel whose core the caller holds.
    pub fn poll_timeout_on(&mut self, core: &mut ChannelCore<T>, id: u64, expired: bool) -> (r:
        Progress<Result<T, ErrorTimeout>>)
        requires
            old(core).wf(),
        ensures
            final(core).wf(),
            final(core)@ == old(self).polled_timeout(old(core)@, id, expired).view,
            r == old(self).polled_timeout(old(core)@, id, expired).result,
            final(self).left_by(*old(self), old(self).polled_timeout(old(core)@, id, expired)),
    {
        proof {
            use_type_invariant(&*self);
        }
        if expired && matches!(self.state, FutureState::Waiting) {
            return Progress::Ready(self.cancel_on(core));
        }
        match self.poll_on(core, id) {
            Progress::Pending => {
                if expired {
                    Progress::Ready(self.cancel_on(core))
                } else {
                    Progress::Pending
                }
            },
            Progress::Ready(Ok(payload)) => Progress::Ready(Ok(payload)),
            Progress::Ready(Err(e)) => Progress::Ready(Err(e.with_deadline())),
        }
    }

    /// The step of `poll_next` on a channel whose core the caller holds.
    pub fn poll_next_on(&mut self, core: &mut ChannelCore<T>, id: u64) -> (r: Progress<Option<T>>)
        requires
            old(core).wf(),
        ensures
            final(core).wf(),
            final(core)@ == old(self).polled_next(old(core)@, id).view,
            r == old(self).polled_next(old(core)@, id).result,
            final(self).left_by(*old(self), old(self).polled_next(old(core)@, id)),
    {
        match self.poll_on(core, id) {
            Progress::Ready(Ok(payload)) => Progress::Ready(Some(payload)),
            Progress::Ready(Err(_)) => Progress::Ready(None),
            Progress::Pending => Progress::Pending,
        }
    }

    /// Takes the operation a step further.
    ///
    /// The first poll makes the receive step; if the receiver has to wait it
    /// is parked under the token made of `id` and the endpoint's kind. Every
    /// later poll looks at the signal. The result is `Pending` exactly when
    /// the operation waits afterwards. A poll of an operation that is over
    /// reports `Closed`.
    pub fn poll(&mut self, id: u64) -> (r: Progress<Result<T, Error>>)
        ensures
            exists|core: ChannelCore<T>| #[trigger]
                admits(old(self).lock(), core) && r == old(self).polled(core@, id).result && final(self).left_by(*old(self), old(self).polled(core@, id)),
            r is Pending <==> final(self).state() == FutureState::Waiting,
            r is Ready ==> final(self).state() == FutureState::Done,
    {
        let internal = self.internal;
        let (mut core, handle) = internal.acquire_write();
        assert(admits(old(self).lock(), core));
        let r = self.poll_on(&mut core, id);
        handle.release_write(core);
        r
    }

    /// Gives the operation up, as a caller does whose deadline has passed.
    ///
    /// An operation that still waits is taken off the queue and reports
    /// `Timeout`. If a sender was first, the result is its payload; if a
    /// shutdown was first, the result is `SendClosed`. An operation that was
    /// never polled reports `Timeout`. The operation is over afterwards.
    pub fn cancel(&mut self) -> (r: Result<T, ErrorTimeout>)
        ensures
            exists|core: ChannelCore<T>| #[trigger]
                admits(old(self).lock(), core) && r == old(self).given_up(core@).result && final(self).left_by(*old(self), old(self).given_up(core@)),
            final(self).state() == FutureState::Done,
    {
        let internal = self.internal;
        let (mut core, handle) = internal.acquire_write();
        assert(admits(old(self).lock(), core));
        let r = self.cancel_on(&mut core);
        handle.release_write(core);
        r
    }

    /// Takes the operation a step further for a caller with a deadline;
    /// `expired` says whether the deadline has passed.
    ///
    /// Before the deadline the step is that of `poll`. After it, an
    /// operation that waits is given up as by `cancel`, and one that was
    /// not polled yet makes its receive step and gives up at once if the
    /// step parked it. So the result is `Pending` only before the deadline,
    /// and `Timeout` only after it and only where the receiver would have
    /// had to wait.
    pub fn poll_timeout(&mut self, id: u64, expired: bool) -> (r: Progress<
        Result<T, ErrorTimeout>,
    >)
        ensures
            exists|core: ChannelCore<T>| #[trigger]
                admits(old(self).lock(), core) && r == old(self).polled_timeout(
                    core@,
                    id,
                    expired,
                ).result && final(self).left_by(
                    *old(self),
                    old(self).polled_timeout(core@, id, expired),
                ),
            r is Pending <==> final(self).state() == FutureState::Waiting,
            r is Ready ==> final(self).state() == FutureState::Done,
            r is Pending ==> !expired,
            r matches Progress::Ready(Err(ErrorTimeout::Timeout)) ==> expired,
    {
        let internal = self.internal;
        let (mut core, handle) = internal.acquire_write();
        assert(admits(old(self).lock(), core));
        let r = self.poll_timeout_on(&mut core, id, expired);
        handle.release_write(core);
        r
    }

    /// Takes the operation a step further for a caller that walks through
    /// the payloads of a channel: the step is that of `poll`, and the result
    /// is `Some` with the next payload, or `None` once the channel reports
    /// an error, whichever it is.
    pub fn poll_next(&mut self, id: u64) -> (r: Progress<Option<T>>)
        ensures
            exists|core: ChannelCore<T>| #[trigger]
                admits(old(self).lock(), core) && r == old(self).polled_next(core@, id).result
                    && final(self).left_by(*old(self), old(self).polled_next(core@, id)),
            r is Pending <==> final(self).state() == FutureState::Waiting,
            r is Ready ==> final(self).state() == FutureState::Done,
    {
        let internal = self.internal;
        let (mut core, handle) = internal.acquire_write();
        assert(admits(old(self).lock(), core));
        let r = self.poll_next_on(&mut core, id);
        handle.release_write(core);
        r
    }
}

impl<T> Receiver<T> {
    /// The lock of the channel that the endpoint belongs to. Two endpoints
    /// with the same lock are endpoints of one channel.
    pub closed spec fn lock(&self) -> Lock<T> {
        *self.internal
    }

    /// The capacity that the channel was made with.
    pub open spec fn channel_capacity(&self) -> nat {
        self.lock().pred().capacity
    }

    fn handle(&self) -> (internal: &Arc<Lock<T>>)
        ensures
            **internal == self.lock(),
    {
        &self.internal
    }

    pub(crate) fn from_internal(internal: Arc<Lock<T>>) -> (r: Self)
        ensures
            r.lock() == *internal,
    {
        Receiver { internal }
    }

    /// Starts a receive. Nothing happens on the channel until the operation
    /// is polled.
    pub fn recv(&self) -> (op: ReceiveFuture<'_, T>)
        ensures
            op.state() == FutureState::Zero,
            op.token() == None::<WakeToken>,
            op.kind() == WakeKind::Thread,
            op.lock() == self.lock(),
    {
        ReceiveFuture::new(self.handle(), WakeKind::Thread)
    }

    /// Receives a payload if that needs no waiting: `Ok(Some(..))` with the
    /// oldest payload, `Ok(None)` if the receiver would have had to wait,
    /// `Err(Closed)` if no receiver counts as alive.
    pub fn try_recv(&self) -> (r: Result<Option<T>, Error>)
        ensures
            exists|core: ChannelCore<T>| #[trigger]
                admits(self.lock(), core) && r == core@.recv_outcome(None).try_result(),
    {
        try_recv_on(self.handle())
    }

    /// Whether no sender is alive in the state that the call finds.
    pub fn is_disconnected(&mut self) -> (b: bool)
        ensures
            final(self).lock() == old(self).lock(),
            exists|core: ChannelCore<T>| #[trigger]
                admits(old(self).lock(), core) && b == (core@.send_count == 0),
    {
        shared::no_senders(self.handle())
    }

    /// A receiving endpoint of the same channel for tasks. It counts as
    /// one more receiver, unless no receiver counts as alive any more.
    pub fn clone_async(&self) -> (other: AsyncReceiver<T>)
        ensures
            other.lock() == self.lock(),
    {
        AsyncReceiver::from_internal(shared::join_as_receiver(self.handle()))
    }

    /// Whether the channel has a limit on its buffer.
    pub fn is_bounded(&mut self) -> (b: bool)
        ensures
            final(self).lock() == old(self).lock(),
            b == (old(self).channel_capacity() != UNBOUNDED),
    {
        shared::is_bounded(self.handle())
    }

    /// The number of buffered payloads in the state that the call finds.
    pub fn len(&self) -> (n: usize)
        ensures
            exists|core: ChannelCore<T>| #[trigger]
                admits(self.lock(), core) && n == core@.buffer.len(),
    {
        shared::len(self.handle())
    }

    /// Whether the buffer is empty in the state that the call finds.
    pub fn is_empty(&self) -> (b: bool)
        ensures
            exists|core: ChannelCore<T>| #[trigger]
                admits(self.lock(), core) && b == (core@.buffer.len() == 0),
    {
        shared::is_empty(self.handle())
    }

    /// The capacity that the channel was made with; `UNBOUNDED` if it has no
    /// limit.
    pub fn capacity(&mut self) -> (n: usize)
        ensures
            final(self).lock() == old(self).lock(),
            n == old(self).channel_capacity(),
    {
        shared::capacity(self.handle())
    }

    /// Closes the channel on both sides and terminates every parked waiter.
    /// Returns whether an endpoint was still alive in the state that the
    /// call finds.
    pub fn close(&mut self) -> (was_live: bool)
        ensures
            final(self).lock() == old(self).lock(),
            exists|core: ChannelCore<T>| #[trigger]
                admits(old(self).lock(), core) && was_live == !core@.is_closed(),
    {
        shared::close(self.handle())
    }

    /// Whether no endpoint is alive on either side in the state that the
    /// call finds.
    pub fn is_closed(&mut self) -> (b: bool)
        ensures
            final(self).lock() == old(self).lock(),
            exists|core: ChannelCore<T>| #[trigger]
                admits(old(self).lock(), core) && b == core@.is_closed(),
    {
        shared::is_closed(self.handle())
    }

    /// Hands out the owners whose wait has ended since they were last
    /// handed out, in that order. The caller wakes them.
    pub fn take_wakes(&self) -> (owners: Vec<WakeToken>)
        ensures
            exists|core: ChannelCore<T>| #[trigger]
                admits(self.lock(), core) && owners@ == core@.wakes,
    {
        shared::take_wakes(self.handle())
    }

    /// Gives the endpoint up: the channel counts one receiver less, and when
    /// the last one goes every parked sender is terminated. Returns the
    /// owners that are to be woken after that.
    pub fn disconnect(self) -> (owners: Vec<WakeToken>)
        ensures
            exists|core: ChannelCore<T>| #[trigger]
                admits(self.lock(), core) && owners@ == core@.drop_receiver().wakes,
    {
        shared::leave_as_receiver(self.handle())
    }
}

impl<T> Clone for Receiver<T> {
    /// Another receiving endpoint of the same channel. It counts as one more
    /// receiver, unless no receiver counts as alive any more.
    fn clone(&self) -> (other: Self)
        ensures
            other.lock() == self.lock(),
    {
        Receiver { internal: shared::join_as_receiver(self.handle()) }
    }
}

impl<T> AsyncReceiver<T> {
    /// The lock of the channel that the endpoint belongs to. Two endpoints
    /// with the same lock are endpoints of one channel.
    pub closed spec fn lock(&self) -> Lock<T> {
        *self.internal
    }

    /// The capacity that the channel was made with.
    pub open spec fn channel_capacity(&self) -> nat {
        self.lock().pred().capacity
    }

    fn handle(&self) -> (internal: &Arc<Lock<T>>)
        ensures
            **internal == self.lock(),
    {
        &self.internal
    }

    pub(crate) fn from_internal(internal: Arc<Lock<T>>) -> (r: Self)
        ensures
            r.lock() == *internal,
    {
        AsyncReceiver { internal }
    }

    /// Starts a receive. Nothing happens on the channel until the operation
    /// is polled.
    pub fn recv(&self) -> (op: ReceiveFuture<'_, T>)
        ensures
            op.state() == FutureState::Zero,
            op.token() == None::<WakeToken>,
            op.kind() == WakeKind::Task,
            op.lock() == self.lock(),
    {
        ReceiveFuture::new(self.handle(), WakeKind::Task)
    }

    /// Receives a payload if that needs no waiting: `Ok(Some(..))` with the
    /// oldest payload, `Ok(None)` if the receiver would have had to wait,
    /// `Err(Closed)` if no receiver counts as alive.
    pub fn try_recv(&self) -> (r: Result<Option<T>, Error>)
        ensures
            exists|core: ChannelCore<T>| #[trigger]
                admits(self.lock(), core) && r == core@.recv_outcome(None).try_result(),
    {
        try_recv_on(self.handle())
    }

    /// Whether no sender is alive in the state that the call finds.
    pub fn is_disconnected(&mut self) -> (b: bool)
        ensures
            final(self).lock() == old(self).lock(),
            exists|core: ChannelCore<T>| #[trigger]
                admits(old(self).lock(), core) && b == (core@.send_count == 0),
    {
        shared::no_senders(self.handle())
    }

    /// A receiving endpoint of the same channel for threads. It counts as
    /// one more receiver, unless no receiver counts as alive any more.
    pub fn clone_sync(&self) -> (other: Receiver<T>)
        ensures
            other.lock() == self.lock(),
    {
        Receiver::from_internal(shared::join_as_receiver(self.handle()))
    }

    /// Whether the channel has a limit on its buffer.
    pub fn is_bounded(&mut self) -> (b: bool)
        ensures
            final(self).lock() == old(self).lock(),
            b == (old(self).channel_capacity() != UNBOUNDED),
    {
        shared::is_bounded(self.handle())
    }

    /// The number of buffered payloads in the state that the call finds.
    pub fn len(&self) -> (n: usize)
        ensures
            exists|core: ChannelCore<T>| #[trigger]
                admits(self.lock(), core) && n == core@.buffer.len(),
    {
        shared::len(self.handle())
    }

    /// Whether the buffer is empty in the state that the call finds.
    pub fn is_empty(&self) -> (b: bool)
        ensures
            exists|core: ChannelCore<T>| #[trigger]
                admits(self.lock(), core) && b == (core@.buffer.len() == 0),
    {
        shared::is_empty(self.handle())
    }

    /// The capacity that the channel was made with; `UNBOUNDED` if it has no
    /// limit.
    pub fn capacity(&mut self) -> (n: usize)
        ensures
            final(self).lock() == old(self).lock(),
            n == old(self).channel_capacity(),
    {
        shared::capacity(self.handle())
    }

    /// Closes the channel on both sides and terminates every parked waiter.
    /// Returns whether an endpoint was still alive in the state that the
    /// call finds.
    pub fn close(&mut self) -> (was_live: bool)
        ensures
            final(self).lock() == old(self).lock(),
            exists|core: ChannelCore<T>| #[trigger]
                admits(old(self).lock(), core) && was_live == !core@.is_closed(),
    {
        shared::close(self.handle())
    }

    /// Whether no endpoint is alive on either side in the state that the
    /// call finds.
    pub fn is_closed(&mut self) -> (b: bool)
        ensures
            final(self).lock() == old(self).lock(),
            exists|core: ChannelCore<T>| #[trigger]
                admits(old(self).lock(), core) && b == core@.is_closed(),
    {
        shared::is_closed(self.handle())
    }

    /// Hands out the owners whose wait has ended since they were last
    /// handed out, in that order. The caller wakes them.
    pub fn take_wakes(&self) -> (owners: Vec<WakeToken>)
        ensures
            exists|core: ChannelCore<T>| #[trigger]
                admits(self.lock(), core) && owners@ == core@.wakes,
    {
        shared::take_wakes(self.handle())
    }

    /// Gives the endpoint up: the channel counts one receiver less, and when
    /// the last one goes every parked sender is terminated. Returns the
    /// owners that are to be woken after that.
    pub fn disconnect(self) -> (owners: Vec<WakeToken>)
        ensures
            exists|core: ChannelCore<T>| #[trigger]
                admits(self.lock(), core) && owners@ == core@.drop_receiver().wakes,
    {
        shared::leave_as_receiver(self.handle())
    }
}

impl<T> Clone for AsyncReceiver<T> {
    /// Another receiving endpoint of the same channel. It counts as one more
    /// receiver, unless no receiver counts as alive any more.
    fn clone(&self) -> (other: Self)
        ensures
            other.lock() == self.lock(),
    {
        AsyncReceiver { internal: shared::join_as_receiver(self.handle()) }
    }
}

} // verus!
