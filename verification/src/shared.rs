//! What the four kinds of endpoint have in common: the lock around the
//! channel's core, and the steps that do not depend on the side.

use crate::channel::ChannelCore;
use crate::ring_buffer::UNBOUNDED;
use crate::signal::WakeToken;
use std::sync::Arc;
use vstd::prelude::*;
use vstd::rwlock::RwLock;
use vstd::rwlock::RwLockPredicate;

verus! {

/// What the lock of a channel guards: a well-formed core whose capacity is
/// the one the channel was made with.
pub struct ChannelInv {
    pub capacity: nat,
}

impl<T> RwLockPredicate<ChannelCore<T>> for ChannelInv {
    open spec fn inv(self, core: ChannelCore<T>) -> bool {
        core.wf() && core@.capacity == self.capacity
    }
}

/// The lock around a channel's core.
pub type Lock<T> = RwLock<ChannelCore<T>, ChannelInv>;

/// `core` is a state in which an operation may find the channel behind
/// `lock`: a well-formed one, with the capacity that the channel was made
/// with. Which of these states an operation finds depends on what the other
/// users of the channel have done by then.
pub open spec fn admits<T>(lock: Lock<T>, core: ChannelCore<T>) -> bool {
    lock.inv(core)
}

/// How far an operation that may have to wait has come.
#[derive(Debug, PartialEq, Eq)]
pub enum Progress<R> {
    /// The operation waits for a peer; poll again after the wake-up.
    Pending,
    /// The operation is over, with this result.
    Ready(R),
}

/// Where an operation that may have to wait stands.
#[derive(Clone, Copy, Debug, PartialEq, Eq, Structural)]
pub enum FutureState {
    /// Not polled yet.
    Zero,
    /// Parked on a wait queue.
    Waiting,
    /// Over.
    Done,
}

/// `Arc::clone`: a second handle to the allocation behind `handle`. The two
/// handles lead to the same value.
#[verifier::external_body]
pub(crate) fn share<V>(handle: &Arc<V>) -> (other: Arc<V>)
    ensures
        *other == **handle,
{
    Arc::clone(handle)
}

/// A lock around a new channel with the given capacity.
pub(crate) fn new_channel<T>(capacity: usize) -> (internal: Arc<Lock<T>>)
    ensures
        internal.pred().capacity == capacity,
{
    let core = ChannelCore::new(capacity);
    Arc::new(RwLock::new(core, Ghost(ChannelInv { capacity: capacity as nat })))
}

/// Whether the channel has a limit on its buffer.
pub(crate) fn is_bounded<T>(internal: &Arc<Lock<T>>) -> (b: bool)
    ensures
        b == (internal.pred().capacity != UNBOUNDED),
{
    let handle = internal.acquire_read();
    let b = handle.borrow().is_bounded();
    handle.release_read();
    b
}

/// The number of buffered payloads in the state that the call finds.
pub(crate) fn len<T>(internal: &Arc<Lock<T>>) -> (n: usize)
    ensures
        exists|core: ChannelCore<T>| #[trigger] admits(**internal, core) && n == core@.buffer.len(),
{
    let handle = internal.acquire_read();
    let n = handle.borrow().len();
    assert(admits(**internal, handle.view()));
    handle.release_read();
    n
}

/// Whether the buffer is empty in the state that the call finds.
pub(crate) fn is_empty<T>(internal: &Arc<Lock<T>>) -> (b: bool)
    ensures
        exists|core: ChannelCore<T>| #[trigger]
            admits(**internal, core) && b == (core@.buffer.len() == 0),
{
    let handle = internal.acquire_read();
    let b = handle.borrow().is_empty();
    assert(admits(**internal, handle.view()));
    handle.release_read();
    b
}

/// The capacity the channel was made with.
pub(crate) fn capacity<T>(internal: &Arc<Lock<T>>) -> (n: usize)
    ensures
        n == internal.pred().capacity,
{
    let handle = internal.acquire_read();
    let n = handle.borrow().capacity();
    handle.release_read();
    n
}

/// Closes the channel; returns whether an endpoint was still alive in the
/// state that the call finds.
pub(crate) fn close<T>(internal: &Arc<Lock<T>>) -> (was_live: bool)
    ensures
        exists|core: ChannelCore<T>| #[trigger]
            admits(**internal, core) && was_live == !core@.is_closed(),
{
    let (mut core, handle) = internal.acquire_write();
    assert(admits(**internal, core));
    let was_live = core.close();
    handle.release_write(core);
    was_live
}

/// Whether no endpoint is alive on either side in the state that the call
/// finds.
pub(crate) fn is_closed<T>(internal: &Arc<Lock<T>>) -> (b: bool)
    ensures
        exists|core: ChannelCore<T>| #[trigger] admits(**internal, core) && b == core@.is_closed(),
{
    let handle = internal.acquire_read();
    let b = handle.borrow().is_closed();
    assert(admits(**internal, handle.view()));
    handle.release_read();
    b
}

/// Whether no sender is alive in the state that the call finds.
pub(crate) fn no_senders<T>(internal: &Arc<Lock<T>>) -> (b: bool)
    ensures
        exists|core: ChannelCore<T>| #[trigger]
            admits(**internal, core) && b == (core@.send_count == 0),
{
    let handle = internal.acquire_read();
    let b = handle.borrow().send_count() == 0;
    assert(admits(**internal, handle.view()));
    handle.release_read();
    b
}

/// Whether no receiver is alive in the state that the call finds.
pub(crate) fn no_receivers<T>(internal: &Arc<Lock<T>>) -> (b: bool)
    ensures
        exists|core: ChannelCore<T>| #[trigger]
            admits(**internal, core) && b == (core@.recv_count == 0),
{
    let handle = internal.acquire_read();
    let b = handle.borrow().recv_count() == 0;
    assert(admits(**internal, handle.view()));
    handle.release_read();
    b
}

/// Counts one more sender and hands out a handle for it.
pub(crate) fn join_as_sender<T>(internal: &Arc<Lock<T>>) -> (other: Arc<Lock<T>>)
    ensures
        *other == **internal,
{
    let (mut core, handle) = internal.acquire_write();
    core.add_sender();
    handle.release_write(core);
    share(internal)
}

/// Counts one more receiver and hands out a handle for it.
pub(crate) fn join_as_receiver<T>(internal: &Arc<Lock<T>>) -> (other: Arc<Lock<T>>)
    ensures
        *other == **internal,
{
    let (mut core, handle) = internal.acquire_write();
    core.add_receiver();
    handle.release_write(core);
    share(internal)
}

/// Takes one sender off the count, and hands out the owners that are to be
/// woken after that.
pub(crate) fn leave_as_sender<T>(internal: &Arc<Lock<T>>) -> (owners: Vec<WakeToken>)
    ensures
        exists|core: ChannelCore<T>| #[trigger]
            admits(**internal, core) && owners@ == core@.drop_sender().wakes,
{
    let (mut core, handle) = internal.acquire_write();
    assert(admits(**internal, core));
    core.drop_sender();
    let owners = core.drain_wakes();
    handle.release_write(core);
    owners
}

/// Takes one receiver off the count, and hands out the owners that are to
/// be woken after that.
pub(crate) fn leave_as_receiver<T>(internal: &Arc<Lock<T>>) -> (owners: Vec<WakeToken>)
    ensures
        exists|core: ChannelCore<T>| #[trigger]
            admits(**internal, core) && owners@ == core@.drop_receiver().wakes,
{
    let (mut core, handle) = internal.acquire_write();
    assert(admits(**internal, core));
    core.drop_receiver();
    let owners = core.drain_wakes();
    handle.release_write(core);
    owners
}

/// Hands out the owners that are to be woken.
pub(crate) fn take_wakes<T>(internal: &Arc<Lock<T>>) -> (owners: Vec<WakeToken>)
    ensures
        exists|core: ChannelCore<T>| #[trigger] admits(**internal, core) && owners@ == core@.wakes,
{
    let (mut core, handle) = internal.acquire_write();
    assert(admits(**internal, core));
    let owners = core.drain_wakes();
    handle.release_write(core);
    owners
}

} // verus!
