//! What holds of every run of a channel.
//!
//! A run is a sequence of steps on the core, each one the step that an
//! endpoint operation takes under the lock. The laws here are stated over
//! the view of the core and its ledger, and are proved for every run.

use crate::channel::ChannelCore;
use crate::channel::ChannelView;
use crate::channel::RecvOutcome;
use crate::channel::SendOutcome;
use crate::channel::SendProspect;
use crate::channel::SendSettle;
use crate::error::ErrorTimeout;
use crate::receiver::recv_progress;
use crate::receiver::ReceiveFuture;
use crate::sender::under_deadline;
use crate::sender::SendFuture;
use crate::shared::FutureState;
use crate::shared::Progress;
use crate::shared::admits;
use crate::shared::Lock;
use crate::signal::Signal;
use crate::signal::SignalState;
use crate::signal::WakeToken;
use crate::wait_queue::lemma_position;
use crate::wait_queue::lemma_position_is;
use crate::wait_queue::payloads;
use crate::wait_queue::position;
use crate::wait_queue::terminated_all;
use vstd::prelude::*;

verus! {

/// One step on the core.
pub enum Step<T> {
    /// A send of the payload; with a token the sender may be parked.
    Send(T, Option<WakeToken>),
    /// A receive; with a token the receiver may be parked.
    Recv(Option<WakeToken>),
    /// The owner of a parked send looks at its signal, or gives up if the
    /// flag is set.
    SettleSend(WakeToken, bool),
    /// The owner of a parked receive looks at its signal, or gives up if the
    /// flag is set.
    SettleRecv(WakeToken, bool),
    AddSender,
    AddReceiver,
    DropSender,
    DropReceiver,
    Close,
    DrainWakes,
}

/// The state after one step.
pub open spec fn step<T>(c: ChannelView<T>, s: Step<T>) -> ChannelView<T> {
    match s {
        Step::Send(payload, park) => c.send(payload, park),
        Step::Recv(park) => c.recv(park),
        Step::SettleSend(token, cancel) => c.settle_send(token, cancel),
        Step::SettleRecv(token, cancel) => c.settle_recv(token, cancel),
        Step::AddSender => c.add_sender(),
        Step::AddReceiver => c.add_receiver(),
        Step::DropSender => c.drop_sender(),
        Step::DropReceiver => c.drop_receiver(),
        Step::Close => c.close(),
        Step::DrainWakes => c.drain_wakes(),
    }
}

/// The state after the steps of `steps`, taken in order.
pub open spec fn run<T>(c: ChannelView<T>, steps: Seq<Step<T>>) -> ChannelView<T>
    decreases steps.len(),
{
    if steps.len() == 0 {
        c
    } else {
        step(run(c, steps.drop_last()), steps.last())
    }
}

/// The payloads that wait in the channel, in the order in which receivers
/// will get them: the buffered ones, then those of the parked senders.
pub open spec fn pending<T>(c: ChannelView<T>) -> Seq<T> {
    c.buffer + payloads(c.send_wait)
}

/// A new channel satisfies the invariant.
pub proof fn lemma_fresh_is_well_formed<T>(capacity: nat)
    ensures
        ChannelView::<T>::fresh(capacity).wf(),
{
}

/// Every step keeps the invariant.
pub proof fn lemma_step_keeps_invariant<T>(c: ChannelView<T>, s: Step<T>)
    requires
        c.wf(),
    ensures
        step(c, s).wf(),
{
    match s {
        Step::SettleSend(token, cancel) => {
            lemma_position(c.send_done, token);
            lemma_position(c.send_wait, token);
        },
        Step::SettleRecv(token, cancel) => {
            lemma_position(c.recv_done, token);
            lemma_position(c.recv_wait, token);
        },
        _ => {},
    }
}

/// The invariant holds after every run that starts where it holds.
pub proof fn lemma_run_keeps_invariant<T>(c: ChannelView<T>, steps: Seq<Step<T>>)
    requires
        c.wf(),
    ensures
        run(c, steps).wf(),
    decreases steps.len(),
{
    if steps.len() > 0 {
        lemma_run_keeps_invariant(c, steps.drop_last());
        lemma_step_keeps_invariant(run(c, steps.drop_last()), steps.last());
    }
}

/// Conservation. After every run of a new channel, the payloads that the
/// channel took from senders are those that receivers got, those that are
/// still in the buffer, those that parked senders still offer, and those
/// that went back to their senders. Once the channel is closed no sender is
/// parked, and what was taken is what was received, what remains in the
/// buffer and what went back.
pub proof fn lemma_conservation<T>(capacity: nat, steps: Seq<Step<T>>)
    ensures
        ({
            let c = run(ChannelView::<T>::fresh(capacity), steps);
            &&& c.ledger.accepted == c.ledger.delivered.len() + c.buffer.len() + c.send_wait.len()
                + c.ledger.returned
            &&& c.is_closed() ==> c.ledger.accepted == c.ledger.delivered.len() + c.buffer.len()
                + c.ledger.returned
        }),
{
    lemma_run_keeps_invariant(ChannelView::<T>::fresh(capacity), steps);
}

/// The ledger counts a send exactly when the channel takes the payload: the
/// send went through, or the sender was parked with it. Otherwise the
/// payload comes back with the outcome and the state is as before.
pub proof fn lemma_send_is_accounted<T>(c: ChannelView<T>, payload: T, park: Option<WakeToken>)
    requires
        c.wf(),
    ensures
        ({
            let after = c.send(payload, park);
            let outcome = c.send_outcome(payload, park);
            &&& outcome is Sent || outcome is Parked ==> after.ledger.accepted == c.ledger.accepted
                + 1
            &&& outcome is Sent ==> after.ledger.entered == c.ledger.entered.push(payload)
            &&& outcome is Parked ==> after.ledger.entered == c.ledger.entered
            &&& !(outcome is Sent || outcome is Parked) ==> after == c && outcome.payload_back()
                == Some(payload)
        }),
{
}

/// The ledger counts a delivery exactly when a receive step hands out a
/// payload, and then it is that payload. A send step counts one exactly when
/// it hands the payload to a parked receiver. No other step delivers.
pub proof fn lemma_delivery_is_accounted<T>(c: ChannelView<T>, s: Step<T>)
    requires
        c.wf(),
    ensures
        ({
            let after = step(c, s);
            match s {
                Step::Recv(park) => match c.recv_outcome(park) {
                    RecvOutcome::Received(payload) => after.ledger.delivered
                        == c.ledger.delivered.push(payload),
                    _ => after == c || (c.recv_outcome(park) is Parked && after.ledger
                        == c.ledger),
                },
                Step::Send(payload, park) => if c.send_count > 0 && c.recv_wait.len() > 0 {
                    after.ledger.delivered == c.ledger.delivered.push(payload)
                } else {
                    after.ledger.delivered == c.ledger.delivered
                },
                _ => after.ledger.delivered == c.ledger.delivered,
            }
        }),
{
}

/// First in, first out. After every run of a new channel, the payloads that
/// were delivered are the first ones that entered, in the order in which
/// they entered, and the rest of what entered is the buffer, oldest first.
pub proof fn lemma_fifo<T>(capacity: nat, steps: Seq<Step<T>>)
    ensures
        ({
            let c = run(ChannelView::<T>::fresh(capacity), steps);
            c.ledger.entered == c.ledger.delivered + c.buffer
        }),
{
    lemma_run_keeps_invariant(ChannelView::<T>::fresh(capacity), steps);
}

/// A receive step serves the payloads that wait in their order: it hands
/// out the first one, and the others keep their order. This holds with any
/// number of parked senders.
pub proof fn lemma_recv_serves_in_order<T>(c: ChannelView<T>, park: Option<WakeToken>)
    requires
        c.wf(),
        c.recv_count > 0,
    ensures
        pending(c).len() > 0 ==> c.recv_outcome(park) == RecvOutcome::Received(pending(c)[0])
            && pending(c.recv(park)) == pending(c).drop_first(),
        pending(c).len() == 0 ==> !(c.recv_outcome(park) is Received) && pending(c.recv(park))
            == pending(c),
{
}

/// A send step that the channel accepts while no receiver is parked puts the
/// payload behind all that wait.
pub proof fn lemma_send_joins_at_back<T>(c: ChannelView<T>, payload: T, park: Option<WakeToken>)
    requires
        c.wf(),
        c.recv_wait.len() == 0,
        c.send_outcome(payload, park) is Sent || c.send_outcome(payload, park) is Parked,
    ensures
        pending(c.send(payload, park)) == pending(c).push(payload),
{
}

/// No duplication. After every run of a new channel, the i-th delivery is
/// the i-th payload that entered: no payload that entered once is handed out
/// twice, and none is handed out that did not enter.
pub proof fn lemma_no_duplication<T>(capacity: nat, steps: Seq<Step<T>>)
    ensures
        ({
            let c = run(ChannelView::<T>::fresh(capacity), steps);
            &&& c.ledger.delivered.len() <= c.ledger.entered.len()
            &&& forall|i: int|
                0 <= i < c.ledger.delivered.len() ==> c.ledger.delivered[i] == c.ledger.entered[i]
        }),
{
    lemma_run_keeps_invariant(ChannelView::<T>::fresh(capacity), steps);
}

/// Wait-queue exclusivity. After every run of a new channel, senders and
/// receivers are not parked at the same time.
pub proof fn lemma_wait_queues_exclusive<T>(capacity: nat, steps: Seq<Step<T>>)
    ensures
        ({
            let c = run(ChannelView::<T>::fresh(capacity), steps);
            c.send_wait.len() == 0 || c.recv_wait.len() == 0
        }),
{
    lemma_run_keeps_invariant(ChannelView::<T>::fresh(capacity), steps);
}

/// Buffer and queue coherence. After every run of a new channel, senders
/// are parked only while the buffer is full, and receivers only while it is
/// empty.
pub proof fn lemma_buffer_queue_coherence<T>(capacity: nat, steps: Seq<Step<T>>)
    ensures
        ({
            let c = run(ChannelView::<T>::fresh(capacity), steps);
            &&& c.capacity == capacity
            &&& c.buffer.len() <= capacity
            &&& c.send_wait.len() > 0 ==> c.buffer.len() == capacity
            &&& c.recv_wait.len() > 0 ==> c.buffer.len() == 0
        }),
{
    lemma_run_keeps_invariant(ChannelView::<T>::fresh(capacity), steps);
    lemma_capacity_is_fixed(ChannelView::<T>::fresh(capacity), steps);
}

/// No step changes the capacity.
pub proof fn lemma_capacity_is_fixed<T>(c: ChannelView<T>, steps: Seq<Step<T>>)
    ensures
        run(c, steps).capacity == c.capacity,
    decreases steps.len(),
{
    if steps.len() > 0 {
        lemma_capacity_is_fixed(c, steps.drop_last());
    }
}

/// What holds after every run holds of every state in which an endpoint
/// operation can find a channel, whatever the other users of the channel
/// have done: the queues are exclusive and coherent with the buffer, the
/// deliveries are the first payloads that entered, and the payloads that
/// were taken are all accounted for.
pub proof fn lemma_found_state_obeys_the_laws<T>(lock: Lock<T>, core: ChannelCore<T>)
    requires
        admits(lock, core),
    ensures
        ({
            let c = core@;
            &&& c.capacity == lock.pred().capacity
            &&& c.buffer.len() <= c.capacity
            &&& c.send_wait.len() == 0 || c.recv_wait.len() == 0
            &&& c.send_wait.len() > 0 ==> c.buffer.len() == c.capacity
            &&& c.recv_wait.len() > 0 ==> c.buffer.len() == 0
            &&& c.ledger.entered == c.ledger.delivered + c.buffer
            &&& c.ledger.accepted == c.ledger.delivered.len() + c.buffer.len() + c.send_wait.len()
                + c.ledger.returned
        }),
{
}

/// Cancellation safety. A sender whose signal is parked or settled, and
/// who gives up, learns one of three things: `Timeout`, and then the payload
/// that it parked comes back and its signal is off the queue; `Sent`,
/// because a receiver was first; or `SendClosed`, with the payload, because a
/// shutdown was first. It is never left waiting.
pub proof fn lemma_cancel_is_safe<T>(c: ChannelView<T>, token: WakeToken)
    requires
        c.wf(),
        position(c.send_wait, token) < c.send_wait.len() || position(c.send_done, token)
            < c.send_done.len(),
    ensures
        ({
            let w = position(c.send_wait, token);
            let d = position(c.send_done, token);
            let after = c.settle_send(token, true);
            match c.settle_send_outcome(token, true) {
                SendSettle::Timeout(payload) => {
                    &&& d == c.send_done.len()
                    &&& c.send_wait[w].token == token
                    &&& c.send_wait[w].slot == Some(payload)
                    &&& after.send_wait == c.send_wait.remove(w)
                    &&& after.buffer == c.buffer
                    &&& after.ledger.delivered == c.ledger.delivered
                },
                SendSettle::Sent => c.send_done[d].token == token && c.send_done[d].slot is None,
                SendSettle::SendClosed(payload) => c.send_done[d].token == token
                    && c.send_done[d].slot == Some(payload),
                _ => false,
            }
        }),
{
    lemma_position(c.send_done, token);
    lemma_position(c.send_wait, token);
}

/// A sender that parks under a token that no other signal carries, and then
/// gives up before any other step, gets `Timeout` with the payload that it
/// offered, and the queues and the buffer are as before the send.
pub proof fn lemma_timeout_returns_payload<T>(c: ChannelView<T>, payload: T, token: WakeToken)
    requires
        c.wf(),
        position(c.send_wait, token) == c.send_wait.len(),
        position(c.send_done, token) == c.send_done.len(),
        c.send_outcome(payload, Some(token)) is Parked,
    ensures
        ({
            let parked = c.send(payload, Some(token));
            let after = parked.settle_send(token, true);
            &&& parked.settle_send_outcome(token, true) == SendSettle::Timeout(payload)
            &&& after.send_wait == c.send_wait
            &&& after.send_done == c.send_done
            &&& after.buffer == c.buffer
            &&& after.ledger.returned == c.ledger.returned + 1
            &&& after.ledger.accepted == c.ledger.accepted + 1
        }),
{
    let parked = c.send(payload, Some(token));
    lemma_position(c.send_wait, token);
    lemma_position_is(parked.send_wait, token, c.send_wait.len() as int);
}

/// A send operation that waits and is given up is over, and reports one of
/// three things, whatever state it finds the channel in: `Timeout` or
/// `SendClosed`, and then it holds its payload again; or `Ok`, because a
/// receiver took the payload first, and then it holds none. `Closed` stands
/// for a signal that is nowhere to be found, which happens only where two
/// waiters use one token.
pub proof fn lemma_given_up_send_keeps_payload<'a, T>(op: SendFuture<'a, T>, c: ChannelView<T>)
    requires
        c.wf(),
        op.state() == FutureState::Waiting,
        op.token() is Some,
    ensures
        ({
            let step = op.given_up(c);
            let token = op.token()->Some_0;
            &&& step.state == FutureState::Done
            &&& step.view.wf()
            &&& step.result matches Err(ErrorTimeout::Timeout) ==> step.payload is Some
            &&& step.result matches Err(ErrorTimeout::SendClosed) ==> step.payload is Some
            &&& step.result is Ok ==> step.payload is None
            &&& !(step.result matches Err(ErrorTimeout::ReceiveClosed))
            &&& step.result matches Err(ErrorTimeout::Closed) ==> position(c.send_wait, token)
                == c.send_wait.len() && position(c.send_done, token) == c.send_done.len()
        }),
{
    lemma_position(c.send_done, op.token()->Some_0);
    lemma_position(c.send_wait, op.token()->Some_0);
}

/// No signal in `s` carries `token`.
pub open spec fn absent<T>(s: Seq<Signal<T>>, token: WakeToken) -> bool {
    forall|j: int| 0 <= j < s.len() ==> (#[trigger] s[j]).token != token
}

/// The signal at index `k` of `s` carries `token`, and no other does.
pub open spec fn only_at<T>(s: Seq<Signal<T>>, token: WakeToken, k: int) -> bool {
    &&& 0 <= k < s.len()
    &&& s[k].token == token
    &&& forall|j: int| 0 <= j < s.len() && j != k ==> (#[trigger] s[j]).token != token
}

/// `payload` entered the channel after the first `n` payloads had.
pub open spec fn entered_since<T>(c: ChannelView<T>, n: nat, payload: T) -> bool {
    exists|i: int| n <= i < c.ledger.entered.len() && #[trigger] c.ledger.entered[i] == payload
}

/// The channel has one signal under `token`, that of a send of `payload`
/// which was parked when `n` payloads had entered. Either the signal still
/// waits with the payload in it; or it was terminated, with the payload
/// still in it; or a receiver took the payload, which then entered the
/// channel.
pub open spec fn in_custody<T>(c: ChannelView<T>, token: WakeToken, payload: T, n: nat) -> bool {
    ||| exists|w: int|
        {
            &&& #[trigger] only_at(c.send_wait, token, w)
            &&& c.send_wait[w].slot == Some(payload)
            &&& absent(c.send_done, token)
            &&& n <= c.ledger.entered.len()
        }
    ||| exists|d: int|
        {
            &&& #[trigger] only_at(c.send_done, token, d)
            &&& absent(c.send_wait, token)
            &&& c.send_done[d].state == SignalState::Terminated ==> c.send_done[d].slot == Some(
                payload,
            )
            &&& c.send_done[d].state == SignalState::Transferred ==> entered_since(c, n, payload)
        }
}

/// A step by someone other than the owner of the send parked under
/// `token`: it neither parks a send under that token nor looks for a send
/// under it.
pub open spec fn foreign<T>(s: Step<T>, token: WakeToken) -> bool {
    match s {
        Step::Send(_, Some(t)) => t != token,
        Step::SettleSend(t, _) => t != token,
        _ => true,
    }
}

/// Every step of `steps` is foreign to `token`.
pub open spec fn all_foreign<T>(steps: Seq<Step<T>>, token: WakeToken) -> bool {
    forall|i: int| 0 <= i < steps.len() ==> foreign(#[trigger] steps[i], token)
}

/// Where the one signal under a token stands is its position.
proof fn lemma_only_at_is_position<T>(s: Seq<Signal<T>>, token: WakeToken, k: int)
    requires
        only_at(s, token, k) || (absent(s, token) && k == s.len()),
    ensures
        position(s, token) == k,
{
    lemma_position_is(s, token, k);
}

/// Terminating the signals of `b` behind those of `a` keeps the one signal
/// under a token the only one.
proof fn lemma_only_at_after_terminate<T>(a: Seq<Signal<T>>, b: Seq<Signal<T>>, token: WakeToken)
    ensures
        absent(a, token) && absent(b, token) ==> absent(a + terminated_all(b), token),
        forall|k: int|
            absent(a, token) && #[trigger] only_at(b, token, k) ==> only_at(
                a + terminated_all(b),
                token,
                a.len() + k,
            ),
        forall|k: int|
            #[trigger] only_at(a, token, k) && absent(b, token) ==> only_at(
                a + terminated_all(b),
                token,
                k,
            ),
{
    let joined = a + terminated_all(b);
    assert forall|j: int| 0 <= j < joined.len() implies (#[trigger] joined[j]).token == (if j
        < a.len() {
        a[j].token
    } else {
        b[j - a.len()].token
    }) by {}
}

/// Taking one signal out of `s` keeps the one signal under another token
/// the only one.
proof fn lemma_only_at_after_remove<T>(s: Seq<Signal<T>>, token: WakeToken, j: int)
    requires
        0 <= j < s.len(),
        s[j].token != token,
    ensures
        absent(s, token) ==> absent(s.remove(j), token),
        forall|k: int|
            #[trigger] only_at(s, token, k) ==> only_at(
                s.remove(j),
                token,
                if j < k {
                    k - 1
                } else {
                    k
                },
            ) && s.remove(j)[if j < k {
                k - 1
            } else {
                k
            }] == s[k],
{
    let t = s.remove(j);
    assert forall|i: int| 0 <= i < t.len() implies (#[trigger] t[i]) == (if i < j {
        s[i]
    } else {
        s[i + 1]
    }) by {}
}

/// A send that parks under a token that no signal carries is in the
/// channel's custody.
pub proof fn lemma_parking_takes_custody<T>(c: ChannelView<T>, payload: T, token: WakeToken)
    requires
        c.wf(),
        absent(c.send_wait, token),
        absent(c.send_done, token),
        c.send_outcome(payload, Some(token)) is Parked,
    ensures
        in_custody(c.send(payload, Some(token)), token, payload, c.ledger.entered.len()),
        c.send(payload, Some(token)).ledger.entered == c.ledger.entered,
        c.send(payload, Some(token)).buffer == c.buffer,
{
    let after = c.send(payload, Some(token));
    assert(only_at(after.send_wait, token, c.send_wait.len() as int));
}

/// No step takes back what has entered the channel: the payloads that had
/// entered keep their places.
pub proof fn lemma_entered_only_grows<T>(c: ChannelView<T>, s: Step<T>)
    requires
        c.wf(),
    ensures
        c.ledger.entered.len() <= step(c, s).ledger.entered.len(),
        forall|i: int|
            0 <= i < c.ledger.entered.len() ==> step(c, s).ledger.entered[i] == c.ledger.entered[i],
{
    match s {
        Step::SettleSend(token, cancel) => {
            lemma_position(c.send_done, token);
            lemma_position(c.send_wait, token);
        },
        Step::SettleRecv(token, cancel) => {
            lemma_position(c.recv_done, token);
            lemma_position(c.recv_wait, token);
        },
        _ => {},
    }
}

/// A parked send stays in the channel's custody through every step of the
/// other users of the channel.
pub proof fn lemma_custody_survives_a_step<T>(
    c: ChannelView<T>,
    s: Step<T>,
    token: WakeToken,
    payload: T,
    n: nat,
)
    requires
        c.wf(),
        in_custody(c, token, payload, n),
        foreign(s, token),
    ensures
        in_custody(step(c, s), token, payload, n),
{
    let after = step(c, s);
    lemma_entered_only_grows(c, s);
    lemma_only_at_after_terminate(c.send_done, c.send_wait, token);
    if exists|w: int|
        {
            &&& #[trigger] only_at(c.send_wait, token, w)
            &&& c.send_wait[w].slot == Some(payload)
            &&& absent(c.send_done, token)
            &&& n <= c.ledger.entered.len()
        } {
        let w = choose|w: int|
            {
                &&& #[trigger] only_at(c.send_wait, token, w)
                &&& c.send_wait[w].slot == Some(payload)
                &&& absent(c.send_done, token)
                &&& n <= c.ledger.entered.len()
            };
        match s {
            Step::Send(other, park) => {
                assert(only_at(after.send_wait, token, w));
            },
            Step::Recv(park) => {
                if after.send_wait.len() < c.send_wait.len() {
                    if w == 0 {
                        assert(only_at(after.send_done, token, c.send_done.len() as int));
                        assert(after.ledger.entered[c.ledger.entered.len() as int] == payload);
                        assert(entered_since(after, n, payload));
                    } else {
                        assert(only_at(after.send_wait, token, w - 1));
                    }
                } else {
                    assert(only_at(after.send_wait, token, w));
                }
            },
            Step::SettleSend(t, cancel) => {
                lemma_position(c.send_done, t);
                lemma_position(c.send_wait, t);
                let d2 = position(c.send_done, t);
                let w2 = position(c.send_wait, t);
                if d2 < c.send_done.len() {
                    lemma_only_at_after_remove(c.send_done, token, d2);
                    assert(only_at(after.send_wait, token, w));
                } else if cancel && w2 < c.send_wait.len() {
                    lemma_only_at_after_remove(c.send_wait, token, w2);
                    assert(only_at(c.send_wait, token, w));
                } else {
                    assert(only_at(after.send_wait, token, w));
                }
            },
            Step::DropReceiver => {
                if c.recv_count == 1 {
                    assert(only_at(c.send_wait, token, w));
                    assert(only_at(after.send_done, token, c.send_done.len() + w));
                } else {
                    assert(only_at(after.send_wait, token, w));
                }
            },
            Step::Close => {
                if !c.is_closed() {
                    assert(only_at(c.send_wait, token, w));
                    assert(only_at(after.send_done, token, c.send_done.len() + w));
                } else {
                    assert(only_at(after.send_wait, token, w));
                }
            },
            _ => {
                assert(only_at(after.send_wait, token, w));
            },
        }
    } else {
        let d = choose|d: int|
            {
                &&& #[trigger] only_at(c.send_done, token, d)
                &&& absent(c.send_wait, token)
                &&& c.send_done[d].state == SignalState::Terminated ==> c.send_done[d].slot
                    == Some(payload)
                &&& c.send_done[d].state == SignalState::Transferred ==> entered_since(
                    c,
                    n,
                    payload,
                )
            };
        if c.send_done[d].state == SignalState::Transferred {
            let i = choose|i: int|
                n <= i < c.ledger.entered.len() && #[trigger] c.ledger.entered[i] == payload;
            assert(after.ledger.entered[i] == payload);
        }
        match s {
            Step::SettleSend(t, cancel) => {
                lemma_position(c.send_done, t);
                lemma_position(c.send_wait, t);
                let d2 = position(c.send_done, t);
                let w2 = position(c.send_wait, t);
                if d2 < c.send_done.len() {
                    lemma_only_at_after_remove(c.send_done, token, d2);
                    assert(only_at(c.send_done, token, d));
                } else if cancel && w2 < c.send_wait.len() {
                    lemma_only_at_after_remove(c.send_wait, token, w2);
                    assert(only_at(after.send_done, token, d));
                } else {
                    assert(only_at(after.send_done, token, d));
                }
            },
            Step::DropReceiver => {
                assert(only_at(c.send_done, token, d));
                assert(only_at(after.send_done, token, d));
            },
            Step::Close => {
                assert(only_at(c.send_done, token, d));
                assert(only_at(after.send_done, token, d));
            },
            _ => {
                assert(only_at(after.send_done, token, d));
            },
        }
    }
}

/// The send of `payload` under `token` still waits: its signal is the only
/// one under the token, and holds the payload.
pub open spec fn still_waits<T>(c: ChannelView<T>, token: WakeToken, payload: T) -> bool {
    exists|w: int|
        {
            &&& #[trigger] only_at(c.send_wait, token, w)
            &&& c.send_wait[w].slot == Some(payload)
            &&& absent(c.send_done, token)
        }
}

/// A step of another user does one of three things to a send that waits.
/// It leaves the send waiting. Or it takes the payload, and then this
/// payload, once, is what enters the channel in that step. Or it terminates
/// the signal, and then nothing enters and the payload is still in the
/// signal. Once its wait is over, the signal is on no queue, so that no
/// later step can take the payload again.
pub proof fn lemma_parked_payload_enters_at_most_once<T>(
    c: ChannelView<T>,
    s: Step<T>,
    token: WakeToken,
    payload: T,
)
    requires
        c.wf(),
        still_waits(c, token, payload),
        foreign(s, token),
    ensures
        ({
            let after = step(c, s);
            let d = position(after.send_done, token);
            ||| still_waits(after, token, payload)
            ||| {
                &&& absent(after.send_wait, token)
                &&& only_at(after.send_done, token, d)
                &&& after.send_done[d].state == SignalState::Transferred
                &&& after.send_done[d].slot is None
                &&& after.ledger.entered == c.ledger.entered.push(payload)
            }
            ||| {
                &&& absent(after.send_wait, token)
                &&& only_at(after.send_done, token, d)
                &&& after.send_done[d].state == SignalState::Terminated
                &&& after.send_done[d].slot == Some(payload)
                &&& after.ledger.entered == c.ledger.entered
            }
        }),
{
    let after = step(c, s);
    let w = choose|w: int|
        {
            &&& #[trigger] only_at(c.send_wait, token, w)
            &&& c.send_wait[w].slot == Some(payload)
            &&& absent(c.send_done, token)
        };
    lemma_only_at_after_terminate(c.send_done, c.send_wait, token);
    match s {
        Step::Recv(park) => {
            if after.send_wait.len() < c.send_wait.len() {
                if w == 0 {
                    assert(only_at(after.send_done, token, c.send_done.len() as int));
                    lemma_only_at_is_position(after.send_done, token, c.send_done.len() as int);
                } else {
                    assert(only_at(after.send_wait, token, w - 1));
                }
            } else {
                assert(only_at(after.send_wait, token, w));
            }
        },
        Step::SettleSend(t, cancel) => {
            lemma_position(c.send_done, t);
            lemma_position(c.send_wait, t);
            let d2 = position(c.send_done, t);
            let w2 = position(c.send_wait, t);
            if d2 < c.send_done.len() {
                lemma_only_at_after_remove(c.send_done, token, d2);
                assert(only_at(after.send_wait, token, w));
            } else if cancel && w2 < c.send_wait.len() {
                lemma_only_at_after_remove(c.send_wait, token, w2);
                assert(only_at(c.send_wait, token, w));
            } else {
                assert(only_at(after.send_wait, token, w));
            }
        },
        Step::DropReceiver => {
            if c.recv_count == 1 {
                assert(only_at(c.send_wait, token, w));
                assert(only_at(after.send_done, token, c.send_done.len() + w));
                lemma_only_at_is_position(after.send_done, token, c.send_done.len() + w);
            } else {
                assert(only_at(after.send_wait, token, w));
            }
        },
        Step::Close => {
            if !c.is_closed() {
                assert(only_at(c.send_wait, token, w));
                assert(only_at(after.send_done, token, c.send_done.len() + w));
                lemma_only_at_is_position(after.send_done, token, c.send_done.len() + w);
            } else {
                assert(only_at(after.send_wait, token, w));
            }
        },
        _ => {
            assert(only_at(after.send_wait, token, w));
        },
    }
}

/// A parked send stays in the channel's custody through every run of the
/// other users of the channel.
pub proof fn lemma_custody_survives_a_run<T>(
    c: ChannelView<T>,
    steps: Seq<Step<T>>,
    token: WakeToken,
    payload: T,
    n: nat,
)
    requires
        c.wf(),
        in_custody(c, token, payload, n),
        all_foreign(steps, token),
    ensures
        run(c, steps).wf(),
        in_custody(run(c, steps), token, payload, n),
    decreases steps.len(),
{
    lemma_run_keeps_invariant(c, steps);
    if steps.len() > 0 {
        let before = steps.drop_last();
        assert(all_foreign(before, token)) by {
            assert forall|i: int| 0 <= i < before.len() implies foreign(
                #[trigger] before[i],
                token,
            ) by {
                assert(before[i] == steps[i]);
            }
        }
        lemma_custody_survives_a_run(c, before, token, payload, n);
        lemma_custody_survives_a_step(run(c, before), steps.last(), token, payload, n);
    }
}

/// The owner of a send in custody always finds its signal, and learns what
/// became of its own payload: `Timeout` or `SendClosed` bring back the
/// payload that it parked, and `Sent` says that this payload entered the
/// channel after it was parked.
pub proof fn lemma_custody_settles<T>(
    c: ChannelView<T>,
    token: WakeToken,
    payload: T,
    n: nat,
    cancel: bool,
)
    requires
        c.wf(),
        in_custody(c, token, payload, n),
    ensures
        match c.settle_send_outcome(token, cancel) {
            SendSettle::Timeout(back) => cancel && back == payload,
            SendSettle::SendClosed(back) => back == payload,
            SendSettle::Sent => entered_since(c, n, payload),
            SendSettle::Pending => !cancel,
            SendSettle::Unknown => false,
        },
        c.settle_send(token, cancel).buffer == c.buffer,
        c.settle_send(token, cancel).ledger.entered == c.ledger.entered,
        c.settle_send(token, cancel).ledger.delivered == c.ledger.delivered,
{
    if exists|w: int|
        {
            &&& #[trigger] only_at(c.send_wait, token, w)
            &&& c.send_wait[w].slot == Some(payload)
            &&& absent(c.send_done, token)
            &&& n <= c.ledger.entered.len()
        } {
        let w = choose|w: int|
            {
                &&& #[trigger] only_at(c.send_wait, token, w)
                &&& c.send_wait[w].slot == Some(payload)
                &&& absent(c.send_done, token)
                &&& n <= c.ledger.entered.len()
            };
        lemma_only_at_is_position(c.send_wait, token, w);
        lemma_only_at_is_position(c.send_done, token, c.send_done.len() as int);
    } else {
        let d = choose|d: int|
            {
                &&& #[trigger] only_at(c.send_done, token, d)
                &&& absent(c.send_wait, token)
                &&& c.send_done[d].state == SignalState::Terminated ==> c.send_done[d].slot
                    == Some(payload)
                &&& c.send_done[d].state == SignalState::Transferred ==> entered_since(
                    c,
                    n,
                    payload,
                )
            };
        lemma_only_at_is_position(c.send_done, token, d);
        lemma_only_at_is_position(c.send_wait, token, c.send_wait.len() as int);
    }
}

/// Cancellation safety, through the steps of other users. A send that
/// parks its payload under a token that no signal carries, and gives up
/// after any run of steps by others, reports `Timeout` or `SendClosed` with
/// the same payload back, or reports that it was sent, and then the payload
/// entered the channel after the send was parked. Giving up does not touch
/// the buffer or what was delivered.
pub proof fn lemma_timed_send_keeps_its_payload<T>(
    c: ChannelView<T>,
    payload: T,
    token: WakeToken,
    steps: Seq<Step<T>>,
)
    requires
        c.wf(),
        absent(c.send_wait, token),
        absent(c.send_done, token),
        c.send_outcome(payload, Some(token)) is Parked,
        all_foreign(steps, token),
    ensures
        ({
            let last = run(c.send(payload, Some(token)), steps);
            &&& match last.settle_send_outcome(token, true) {
                SendSettle::Timeout(back) => back == payload,
                SendSettle::SendClosed(back) => back == payload,
                SendSettle::Sent => entered_since(last, c.ledger.entered.len(), payload),
                _ => false,
            }
            &&& last.settle_send(token, true).wf()
            &&& last.settle_send(token, true).buffer == last.buffer
            &&& last.settle_send(token, true).ledger.delivered == last.ledger.delivered
        }),
{
    let parked = c.send(payload, Some(token));
    let n = c.ledger.entered.len();
    lemma_step_keeps_invariant(c, Step::Send(payload, Some(token)));
    lemma_parking_takes_custody(c, payload, token);
    lemma_custody_survives_a_run(parked, steps, token, payload, n);
    let last = run(parked, steps);
    lemma_custody_settles(last, token, payload, n, true);
    lemma_step_keeps_invariant(last, Step::SettleSend(token, true));
}

/// The first poll of a send operation, with or without a deadline, either
/// ends it or leaves its payload in the channel's custody. Where it ends
/// with an error the operation holds the payload that it was made with, and
/// the buffer and the deliveries are as before; where it ends with `Ok` it
/// holds none.
pub proof fn lemma_first_poll_keeps_payload<'a, T>(
    op: SendFuture<'a, T>,
    c: ChannelView<T>,
    payload: T,
    id: u64,
    expired: bool,
)
    requires
        c.wf(),
        op.state() == FutureState::Zero,
        op.payload() == Some(payload),
        absent(c.send_wait, WakeToken { kind: op.kind(), id }),
        absent(c.send_done, WakeToken { kind: op.kind(), id }),
    ensures
        ({
            let token = WakeToken { kind: op.kind(), id };
            let step = op.polled_timeout(c, id, expired);
            &&& step.view.wf()
            &&& step.result matches Progress::Ready(Err(_)) ==> step.payload == Some(payload)
                && step.view.buffer == c.buffer && step.view.ledger.delivered
                == c.ledger.delivered && step.view.send_wait == c.send_wait
            &&& step.result matches Progress::Ready(Ok(_)) ==> step.payload is None
                && step.view.ledger.entered == c.ledger.entered.push(payload)
            &&& step.result is Pending ==> !expired && step.state == FutureState::Waiting
                && step.token == Some(token) && in_custody(
                step.view,
                token,
                payload,
                c.ledger.entered.len(),
            )
        }),
{
    let token = WakeToken { kind: op.kind(), id };
    lemma_step_keeps_invariant(c, Step::Send(payload, Some(token)));
    let parked = c.send(payload, Some(token));
    if c.send_outcome(payload, Some(token)) is Parked {
        lemma_parking_takes_custody(c, payload, token);
        lemma_custody_settles(parked, token, payload, c.ledger.entered.len(), true);
        lemma_step_keeps_invariant(parked, Step::SettleSend(token, true));
        assert(only_at(parked.send_wait, token, c.send_wait.len() as int));
        lemma_only_at_is_position(parked.send_wait, token, c.send_wait.len() as int);
        lemma_only_at_is_position(parked.send_done, token, c.send_done.len() as int);
        assert(parked.send_wait.remove(c.send_wait.len() as int) =~= c.send_wait);
    }
}

/// A later poll of a send operation whose payload is in the channel's
/// custody, and giving such an operation up: where the result is an error,
/// the operation holds the payload that it parked; where it is `Ok`, it
/// holds none and the payload has entered the channel.
pub proof fn lemma_waiting_send_keeps_payload<'a, T>(
    op: SendFuture<'a, T>,
    c: ChannelView<T>,
    payload: T,
    n: nat,
    id: u64,
    expired: bool,
)
    requires
        c.wf(),
        op.state() == FutureState::Waiting,
        op.token() is Some,
        in_custody(c, op.token()->Some_0, payload, n),
    ensures
        ({
            let step = op.polled_timeout(c, id, expired);
            let last = op.given_up(c);
            &&& step.view.wf()
            &&& step.result matches Progress::Ready(Err(_)) ==> step.payload == Some(payload)
            &&& step.result matches Progress::Ready(Ok(_)) ==> step.payload is None
                && entered_since(c, n, payload)
            &&& step.result is Pending ==> !expired && in_custody(
                step.view,
                op.token()->Some_0,
                payload,
                n,
            )
            &&& step.view.buffer == c.buffer
            &&& step.view.ledger.delivered == c.ledger.delivered
            &&& last.result is Err ==> last.payload == Some(payload)
            &&& last.result is Ok ==> last.payload is None && entered_since(c, n, payload)
            &&& !(last.result matches Err(ErrorTimeout::Closed))
        }),
{
    let token = op.token()->Some_0;
    lemma_custody_settles(c, token, payload, n, true);
    lemma_custody_settles(c, token, payload, n, false);
    lemma_step_keeps_invariant(c, Step::SettleSend(token, true));
    lemma_step_keeps_invariant(c, Step::SettleSend(token, false));
    lemma_position(c.send_done, token);
    lemma_position(c.send_wait, token);
}

/// Cancellation safety for a send with a deadline, from its first poll to
/// its end. The operation `first` is polled with a token that no signal
/// carries and has to wait; the other users of the channel take any steps;
/// then the operation, now `waiting`, is polled again, before or after the
/// deadline. If that poll ends with an error, the operation holds the
/// payload that it was made with. If it ends with `Ok`, it holds none and
/// the payload entered the channel after the first poll. If the operation
/// still waits, the payload is still in the channel's custody, and the same
/// holds of the next poll.
pub proof fn lemma_send_with_deadline_keeps_payload<'a, T>(
    first: SendFuture<'a, T>,
    waiting: SendFuture<'a, T>,
    c: ChannelView<T>,
    payload: T,
    id: u64,
    steps: Seq<Step<T>>,
    later_id: u64,
    expired: bool,
)
    requires
        c.wf(),
        first.state() == FutureState::Zero,
        first.payload() == Some(payload),
        absent(c.send_wait, WakeToken { kind: first.kind(), id }),
        absent(c.send_done, WakeToken { kind: first.kind(), id }),
        first.polled_timeout(c, id, false).result is Pending,
        waiting.left_by(first, first.polled_timeout(c, id, false)),
        all_foreign(steps, WakeToken { kind: first.kind(), id }),
    ensures
        ({
            let token = WakeToken { kind: first.kind(), id };
            let n = c.ledger.entered.len();
            let found = run(first.polled_timeout(c, id, false).view, steps);
            let step = waiting.polled_timeout(found, later_id, expired);
            &&& found.wf()
            &&& step.view.wf()
            &&& step.result matches Progress::Ready(Err(_)) ==> step.payload == Some(payload)
            &&& step.result matches Progress::Ready(Ok(_)) ==> step.payload is None
                && entered_since(found, n, payload)
            &&& step.result is Pending ==> !expired && in_custody(step.view, token, payload, n)
            &&& step.view.buffer == found.buffer
            &&& step.view.ledger.delivered == found.ledger.delivered
        }),
{
    let token = WakeToken { kind: first.kind(), id };
    let n = c.ledger.entered.len();
    lemma_first_poll_keeps_payload(first, c, payload, id, false);
    let parked = first.polled_timeout(c, id, false).view;
    lemma_custody_survives_a_run(parked, steps, token, payload, n);
    lemma_waiting_send_keeps_payload(waiting, run(parked, steps), payload, n, later_id, expired);
}

/// A receive that starts after its deadline reports what the receive step
/// reports wherever that step does not park: the oldest payload, `Closed`,
/// or `SendClosed` where nothing waits and no sender is alive. It reports
/// `Timeout` only where the step would park the receiver, and then, under a
/// token that no signal carries, the wait queue is as before.
pub proof fn lemma_late_receive_reports_the_step<'a, T>(
    op: ReceiveFuture<'a, T>,
    c: ChannelView<T>,
    id: u64,
)
    requires
        c.wf(),
        op.state() == FutureState::Zero,
        absent(c.recv_wait, WakeToken { kind: op.kind(), id }),
        absent(c.recv_done, WakeToken { kind: op.kind(), id }),
    ensures
        ({
            let token = WakeToken { kind: op.kind(), id };
            let step = op.polled_timeout(c, id, true);
            let outcome = c.recv_outcome(Some(token));
            &&& step.state == FutureState::Done
            &&& step.view.wf()
            &&& !(outcome is Parked) ==> step.result == under_deadline(recv_progress(outcome))
                && step.view == c.recv(Some(token))
            &&& outcome is Parked ==> step.result == Progress::Ready(
                Err::<T, ErrorTimeout>(ErrorTimeout::Timeout),
            ) && step.view.recv_wait == c.recv_wait && step.view.buffer == c.buffer
            &&& c.recv_count > 0 && c.buffer.len() == 0 && c.send_wait.len() == 0 && c.send_count
                == 0 ==> step.result == Progress::Ready(
                Err::<T, ErrorTimeout>(ErrorTimeout::SendClosed),
            ) && step.view == c
        }),
{
    let token = WakeToken { kind: op.kind(), id };
    lemma_step_keeps_invariant(c, Step::Recv(Some(token)));
    let parked = c.recv(Some(token));
    if c.recv_outcome(Some(token)) is Parked {
        lemma_step_keeps_invariant(parked, Step::SettleRecv(token, true));
        lemma_position_is(parked.recv_wait, token, c.recv_wait.len() as int);
        lemma_position_is(parked.recv_done, token, c.recv_done.len() as int);
        assert(parked.recv_wait.remove(c.recv_wait.len() as int) =~= c.recv_wait);
    }
}

/// The prospect of a send foretells the send step: whatever the payload and
/// the token, the step reports `Closed`, goes through, reports
/// `ReceiveClosed` or parks as the prospect says; without a token it hands
/// the payload back where the prospect is `ReceiveClosed` or `Wait`.
pub proof fn lemma_prospect_foretells_send<T>(c: ChannelView<T>, payload: T, token: WakeToken)
    ensures
        match c.send_prospect() {
            SendProspect::Closed => c.send_outcome(payload, Some(token)) == SendOutcome::Closed(
                payload,
            ) && c.send_outcome(payload, None) == SendOutcome::Closed(payload),
            SendProspect::Through => c.send_outcome(payload, Some(token)) == SendOutcome::<
                T,
            >::Sent && c.send_outcome(payload, None) == SendOutcome::<T>::Sent,
            SendProspect::ReceiveClosed => c.send_outcome(payload, Some(token))
                == SendOutcome::ReceiveClosed(payload) && c.send_outcome(payload, None)
                == SendOutcome::Full(payload),
            SendProspect::Wait => c.send_outcome(payload, Some(token)) == SendOutcome::<
                T,
            >::Parked && c.send_outcome(payload, None) == SendOutcome::Full(payload),
        },
{
}

} // verus!
