//! The rendezvous handle of one parked waiter.

use vstd::prelude::*;

verus! {

/// How the owner of a signal is woken.
#[derive(Clone, Copy, Debug, PartialEq, Eq, Structural)]
pub enum WakeKind {
    /// The owner is a parked thread.
    Thread,
    /// The owner is a suspended task.
    Task,
}

/// Names the owner of a signal: who is to be woken, and how.
///
/// The token is also the signal's identity: a waiter retracts or settles its
/// signal by presenting the token it parked under. Waiters that wait at the
/// same time are to use different tokens; where two signals carry one token,
/// the one that stands first is meant.
#[derive(Clone, Copy, Debug, PartialEq, Eq, Structural)]
pub struct WakeToken {
    pub kind: WakeKind,
    pub id: u64,
}

/// The state word of a signal. A signal starts in `Waiting` and leaves it at
/// most once.
#[derive(Clone, Copy, Debug, PartialEq, Eq, Structural)]
pub enum SignalState {
    Waiting,
    Transferred,
    Terminated,
}

/// One parked waiter bound to one transfer.
///
/// `slot` is the waiter's payload cell. A sender parks with its payload in
/// the cell and the peer moves it out; a receiver parks with an empty cell
/// and the peer moves a payload in.
#[derive(Debug, PartialEq, Eq)]
pub struct Signal<T> {
    pub token: WakeToken,
    pub slot: Option<T>,
    pub state: SignalState,
}

impl<T> Signal<T> {
    /// A sender that still waits for a peer: its payload is in the cell.
    pub open spec fn is_parked_sender(self) -> bool {
        self.state == SignalState::Waiting && self.slot is Some
    }

    /// A receiver that still waits for a peer: its cell is empty.
    pub open spec fn is_parked_receiver(self) -> bool {
        self.state == SignalState::Waiting && self.slot is None
    }

    /// A sender whose wait is over: either the payload was moved out, or the
    /// signal was terminated and the payload is still in the cell.
    pub open spec fn is_settled_sender(self) -> bool {
        ||| self.state == SignalState::Transferred && self.slot is None
        ||| self.state == SignalState::Terminated && self.slot is Some
    }

    /// A receiver whose wait is over: either a payload was moved in, or the
    /// signal was terminated and the cell is still empty.
    pub open spec fn is_settled_receiver(self) -> bool {
        ||| self.state == SignalState::Transferred && self.slot is Some
        ||| self.state == SignalState::Terminated && self.slot is None
    }

    /// The signal as `terminate` leaves it.
    pub open spec fn terminated(self) -> Self {
        Signal { token: self.token, slot: self.slot, state: SignalState::Terminated }
    }

    /// A waiting signal for a sender that offers `payload`.
    pub fn for_send(token: WakeToken, payload: T) -> (sig: Self)
        ensures
            sig == (Signal { token, slot: Some(payload), state: SignalState::Waiting }),
            sig.is_parked_sender(),
    {
        Signal { token, slot: Some(payload), state: SignalState::Waiting }
    }

    /// A waiting signal for a receiver.
    pub fn for_recv(token: WakeToken) -> (sig: Self)
        ensures
            sig == (Signal { token, slot: None::<T>, state: SignalState::Waiting }),
            sig.is_parked_receiver(),
    {
        Signal { token, slot: None, state: SignalState::Waiting }
    }

    /// Moves `payload` into a parked receiver's cell and marks the transfer
    /// done. Returns the owner's token, for the wake-up.
    pub fn complete(&mut self, payload: T) -> (token: WakeToken)
        requires
            old(self).is_parked_receiver(),
        ensures
            *final(self) == (Signal {
                token: old(self).token,
                slot: Some(payload),
                state: SignalState::Transferred,
            }),
            final(self).is_settled_receiver(),
            token == old(self).token,
    {
        self.slot = Some(payload);
        self.state = SignalState::Transferred;
        self.token
    }

    /// Moves the payload out of a parked sender's cell and marks the transfer
    /// done. Returns the payload and the owner's token, for the wake-up.
    pub fn consume(&mut self) -> (r: (T, WakeToken))
        requires
            old(self).is_parked_sender(),
        ensures
            *final(self) == (Signal {
                token: old(self).token,
                slot: None::<T>,
                state: SignalState::Transferred,
            }),
            final(self).is_settled_sender(),
            old(self).slot == Some(r.0),
            r.1 == old(self).token,
    {
        let payload = self.slot.take().unwrap();
        self.state = SignalState::Transferred;
        (payload, self.token)
    }

    /// Ends the wait of a parked signal without a transfer. The cell is left
    /// as it is, so a sender keeps its payload. Returns the owner's token,
    /// for the wake-up.
    pub fn terminate(&mut self) -> (token: WakeToken)
        requires
            old(self).state == SignalState::Waiting,
        ensures
            *final(self) == old(self).terminated(),
            token == old(self).token,
            old(self).is_parked_sender() ==> final(self).is_settled_sender(),
            old(self).is_parked_receiver() ==> final(self).is_settled_receiver(),
    {
        self.state = SignalState::Terminated;
        self.token
    }

    /// What the owner learns when it looks at its signal: `None` while the
    /// signal still waits, then `Some(true)` after a transfer and
    /// `Some(false)` after a termination.
    pub fn outcome(&self) -> (r: Option<bool>)
        ensures
            r == match self.state {
                SignalState::Waiting => None,
                SignalState::Transferred => Some(true),
                SignalState::Terminated => Some(false),
            },
    {
        match self.state {
            SignalState::Waiting => None,
            SignalState::Transferred => Some(true),
            SignalState::Terminated => Some(false),
        }
    }

    /// Whether the signal was terminated.
    pub fn is_terminated(&self) -> (r: bool)
        ensures
            r == (self.state == SignalState::Terminated),
    {
        self.state == SignalState::Terminated
    }
}

} // verus!
