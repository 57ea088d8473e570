//! A multi-producer multi-consumer channel whose endpoints may be driven by
//! parked threads or by suspended tasks, built around one shared core.
//!
//! The core is a sequential state machine: every endpoint operation is one
//! step on it, taken under the channel's lock. Waiting itself is left to the
//! caller, which polls an operation and parks or suspends between polls; the
//! core records whom to wake.

pub mod channel;
pub mod error;
pub mod laws;
pub mod receiver;
pub mod ring_buffer;
pub mod sender;
pub mod shared;
pub mod signal;
pub mod wait_queue;

pub use channel::ChannelCore;
pub use channel::RecvOutcome;
pub use channel::RecvSettle;
pub use channel::SendOutcome;
pub use channel::SendProspect;
pub use channel::SendSettle;
pub use error::Error;
pub use error::ErrorTimeout;
pub use receiver::AsyncReceiver;
pub use receiver::ReceiveFuture;
pub use receiver::Receiver;
pub use ring_buffer::RingBuffer;
pub use ring_buffer::UNBOUNDED;
pub use sender::AsyncSender;
pub use sender::SendFuture;
pub use sender::Sender;
pub use shared::FutureState;
pub use shared::Progress;
pub use signal::Signal;
pub use signal::SignalState;
pub use signal::WakeKind;
pub use signal::WakeToken;
pub use wait_queue::WaitQueue;

use vstd::prelude::*;

verus! {

/// A channel whose buffer holds up to `size` payloads, with one endpoint on
/// each side, for threads. With `size` zero every transfer is a rendezvous.
pub fn bounded<T>(size: usize) -> (ends: (Sender<T>, Receiver<T>))
    ensures
        ends.0.lock() == ends.1.lock(),
        ends.0.channel_capacity() == size,
{
    let internal = shared::new_channel(size);
    (Sender::from_internal(shared::share(&internal)), Receiver::from_internal(internal))
}

/// A channel whose buffer holds up to `size` payloads, with one endpoint on
/// each side, for tasks. With `size` zero every transfer is a rendezvous.
pub fn bounded_async<T>(size: usize) -> (ends: (AsyncSender<T>, AsyncReceiver<T>))
    ensures
        ends.0.lock() == ends.1.lock(),
        ends.0.channel_capacity() == size,
{
    let internal = shared::new_channel(size);
    (AsyncSender::from_internal(shared::share(&internal)), AsyncReceiver::from_internal(internal))
}

/// A channel without a limit on its buffer, with one endpoint on each side,
/// for threads.
pub fn unbounded<T>() -> (ends: (Sender<T>, Receiver<T>))
    ensures
        ends.0.lock() == ends.1.lock(),
        ends.0.channel_capacity() == UNBOUNDED,
{
    let internal = shared::new_channel(UNBOUNDED);
    (Sender::from_internal(shared::share(&internal)), Receiver::from_internal(internal))
}

/// A channel without a limit on its buffer, with one endpoint on each side,
/// for tasks.
pub fn unbounded_async<T>() -> (ends: (AsyncSender<T>, AsyncReceiver<T>))
    ensures
        ends.0.lock() == ends.1.lock(),
        ends.0.channel_capacity() == UNBOUNDED,
{
    let internal = shared::new_channel(UNBOUNDED);
    (AsyncSender::from_internal(shared::share(&internal)), AsyncReceiver::from_internal(internal))
}

} // verus!
