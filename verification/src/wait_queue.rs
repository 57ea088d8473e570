//! The queue of parked signals of one direction.

use crate::signal::Signal;
use crate::signal::SignalState;
use crate::signal::WakeToken;
use std::collections::VecDeque;
use vstd::prelude::*;

verus! {

/// The index of the first signal in `s` that carries `token`, or `s.len()`
/// if none does.
pub open spec fn position<T>(s: Seq<Signal<T>>, token: WakeToken) -> int
    decreases s.len(),
{
    if s.len() == 0 {
        0
    } else if s[0].token == token {
        0
    } else {
        1 + position(s.drop_first(), token)
    }
}

/// The tokens of the signals in `s`, in order.
pub open spec fn tokens<T>(s: Seq<Signal<T>>) -> Seq<WakeToken> {
    Seq::new(s.len(), |i: int| s[i].token)
}

/// The signals of `s`, each terminated.
pub open spec fn terminated_all<T>(s: Seq<Signal<T>>) -> Seq<Signal<T>> {
    Seq::new(s.len(), |i: int| s[i].terminated())
}

/// The payloads in the cells of `s`, in order. Meant for sequences in which
/// every cell is full.
pub open spec fn payloads<T>(s: Seq<Signal<T>>) -> Seq<T> {
    Seq::new(s.len(), |i: int| s[i].slot->Some_0)
}

/// Every signal in `s` is a sender that still waits.
pub open spec fn all_parked_senders<T>(s: Seq<Signal<T>>) -> bool {
    forall|i: int| 0 <= i < s.len() ==> (#[trigger] s[i]).is_parked_sender()
}

/// Every signal in `s` is a receiver that still waits.
pub open spec fn all_parked_receivers<T>(s: Seq<Signal<T>>) -> bool {
    forall|i: int| 0 <= i < s.len() ==> (#[trigger] s[i]).is_parked_receiver()
}

/// Every signal in `s` is a sender whose wait is over.
pub open spec fn all_settled_senders<T>(s: Seq<Signal<T>>) -> bool {
    forall|i: int| 0 <= i < s.len() ==> (#[trigger] s[i]).is_settled_sender()
}

/// Every signal in `s` is a receiver whose wait is over.
pub open spec fn all_settled_receivers<T>(s: Seq<Signal<T>>) -> bool {
    forall|i: int| 0 <= i < s.len() ==> (#[trigger] s[i]).is_settled_receiver()
}

/// Every signal in `s` still waits.
pub open spec fn all_waiting<T>(s: Seq<Signal<T>>) -> bool {
    forall|i: int| 0 <= i < s.len() ==> (#[trigger] s[i]).state == SignalState::Waiting
}

/// `position` lies within `0..=s.len()`; below `s.len()` it names a signal
/// with the token, and no earlier signal has it.
pub proof fn lemma_position<T>(s: Seq<Signal<T>>, token: WakeToken)
    ensures
        0 <= position(s, token) <= s.len(),
        position(s, token) < s.len() ==> s[position(s, token)].token == token,
        forall|j: int| 0 <= j < position(s, token) ==> (#[trigger] s[j]).token != token,
    decreases s.len(),
{
    if s.len() > 0 && s[0].token != token {
        let rest = s.drop_first();
        lemma_position(rest, token);
        assert forall|j: int| 0 <= j < position(s, token) implies (#[trigger] s[j]).token
            != token by {
            if j > 0 {
                assert(s[j] == rest[j - 1]);
            }
        }
    }
}

/// An index is the position of `token` when it is the first one that
/// carries the token, or the length when no signal carries it.
pub proof fn lemma_position_is<T>(s: Seq<Signal<T>>, token: WakeToken, i: int)
    requires
        0 <= i <= s.len(),
        forall|j: int| 0 <= j < i ==> (#[trigger] s[j]).token != token,
        i < s.len() ==> s[i].token == token,
    ensures
        position(s, token) == i,
{
    lemma_position(s, token);
    let p = position(s, token);
    if p < i {
        assert(s[p].token == token);
    } else if i < p {
        assert(s[i].token != token);
    }
}

/// A FIFO of parked signals. Signals join at the back and are served from
/// the front; a waiter that gives up takes its own signal out, wherever it
/// stands.
pub struct WaitQueue<T> {
    items: VecDeque<Signal<T>>,
}

impl<T> View for WaitQueue<T> {
    type V = Seq<Signal<T>>;

    closed spec fn view(&self) -> Seq<Signal<T>> {
        self.items@
    }
}

impl<T> WaitQueue<T> {
    /// An empty queue.
    pub fn new() -> (q: Self)
        ensures
            q@ == Seq::<Signal<T>>::empty(),
    {
        WaitQueue { items: VecDeque::new() }
    }

    /// The number of signals in the queue.
    pub fn len(&self) -> (n: usize)
        ensures
            n == self@.len(),
    {
        self.items.len()
    }

    /// Whether the queue holds no signal.
    pub fn is_empty(&self) -> (b: bool)
        ensures
            b == (self@.len() == 0),
    {
        self.items.len() == 0
    }

    /// Whether some signal in the queue carries `token`.
    pub fn contains(&self, token: WakeToken) -> (b: bool)
        ensures
            b == (position(self@, token) < self@.len()),
    {
        let i = self.find(token);
        i < self.items.len()
    }

    /// The index of the first signal that carries `token`, or the length.
    fn find(&self, token: WakeToken) -> (i: usize)
        ensures
            i == position(self@, token),
    {
        let n = self.items.len();
        let mut i: usize = 0;
        while i < n
            invariant
                n == self.items@.len(),
                i <= n,
                forall|j: int| 0 <= j < i ==> (#[trigger] self.items@[j]).token != token,
            decreases n - i,
        {
            if self.items[i].token == token {
                proof {
                    lemma_position_is(self.items@, token, i as int);
                }
                return i;
            }
            i += 1;
        }
        proof {
            lemma_position_is(self.items@, token, n as int);
        }
        n
    }

    /// Adds `sig` at the back.
    pub fn push_back(&mut self, sig: Signal<T>)
        ensures
            final(self)@ == old(self)@.push(sig),
    {
        self.items.push_back(sig);
    }

    /// Takes the signal at the front, if there is one.
    pub fn pop_front(&mut self) -> (r: Option<Signal<T>>)
        ensures
            match r {
                Some(sig) => old(self)@.len() > 0 && sig == old(self)@[0] && final(self)@ == old(
                    self,
                )@.drop_first(),
                None => old(self)@.len() == 0 && final(self)@ == old(self)@,
            },
    {
        self.items.pop_front()
    }

    /// Takes out the first signal that carries `token`. Returns `None`, and
    /// leaves the queue as it is, when no signal carries it.
    pub fn remove(&mut self, token: WakeToken) -> (r: Option<Signal<T>>)
        ensures
            match r {
                Some(sig) => {
                    &&& position(old(self)@, token) < old(self)@.len()
                    &&& sig == old(self)@[position(old(self)@, token)]
                    &&& final(self)@ == old(self)@.remove(position(old(self)@, token))
                },
                None => {
                    &&& position(old(self)@, token) == old(self)@.len()
                    &&& final(self)@ == old(self)@
                },
            },
    {
        let i = self.find(token);
        proof {
            lemma_position(self@, token);
        }
        self.items.remove(i)
    }

    /// Terminates every signal of the queue, front to back, and moves it to
    /// the back of `done`; the owners' tokens are added to `wakes` in the
    /// same order. The queue is empty afterwards.
    pub fn terminate_into(&mut self, done: &mut WaitQueue<T>, wakes: &mut Vec<WakeToken>)
        requires
            all_waiting(old(self)@),
        ensures
            final(self)@ == Seq::<Signal<T>>::empty(),
            final(done)@ == old(done)@ + terminated_all(old(self)@),
            final(wakes)@ == old(wakes)@ + tokens(old(self)@),
    {
        let ghost all = self@;
        let ghost done0 = done@;
        let ghost wakes0 = wakes@;
        let n = self.items.len();
        let mut k: usize = 0;
        while k < n
            invariant
                k <= n,
                n == all.len(),
                all_waiting(all),
                self@ == all.subrange(k as int, n as int),
                done@ == done0 + terminated_all(all).subrange(0, k as int),
                wakes@ == wakes0 + tokens(all).subrange(0, k as int),
            decreases n - k,
        {
            let popped = self.items.pop_front();
            let mut sig = popped.unwrap();
            let token = sig.terminate();
            wakes.push(token);
            done.push_back(sig);
            k += 1;
        }
    }
}

} // verus!
