use kanal::RingBuffer;
use kanal::Signal;
use kanal::SignalState;
use kanal::WaitQueue;
use kanal::WakeKind;
use kanal::WakeToken;

fn token(id: u64) -> WakeToken {
    WakeToken { kind: WakeKind::Thread, id }
}

#[test]
fn ring_buffer_is_fifo() {
    let mut b = RingBuffer::<u32>::new(3);
    assert!(b.is_empty());
    assert_eq!(b.capacity(), 3);
    assert_eq!(b.push_back(1), Ok(()));
    assert_eq!(b.push_back(2), Ok(()));
    assert_eq!(b.len(), 2);
    assert!(!b.is_full());
    assert_eq!(b.pop_front(), Some(1));
    assert_eq!(b.pop_front(), Some(2));
    assert_eq!(b.pop_front(), None);
}

#[test]
fn ring_buffer_refuses_beyond_its_limit() {
    let mut b = RingBuffer::<u32>::new(2);
    assert_eq!(b.push_back(1), Ok(()));
    assert_eq!(b.push_back(2), Ok(()));
    assert!(b.is_full());
    assert_eq!(b.push_back(3), Err(3));
    assert_eq!(b.len(), 2);
    assert_eq!(b.pop_front(), Some(1));
    assert_eq!(b.push_back(3), Ok(()));
    assert_eq!(b.pop_front(), Some(2));
    assert_eq!(b.pop_front(), Some(3));
}

#[test]
fn ring_buffer_with_limit_zero_takes_nothing() {
    let mut b = RingBuffer::<u32>::new(0);
    assert!(b.is_full());
    assert!(b.is_empty());
    assert_eq!(b.push_back(1), Err(1));
    assert_eq!(b.pop_front(), None);
}

#[test]
fn ring_buffer_wraps_around() {
    let mut b = RingBuffer::<u32>::new(3);
    let mut next = 0;
    let mut expect = 0;
    for _ in 0..3 {
        assert_eq!(b.push_back(next), Ok(()));
        next += 1;
    }
    for _ in 0..10 {
        assert_eq!(b.pop_front(), Some(expect));
        expect += 1;
        assert_eq!(b.push_back(next), Ok(()));
        next += 1;
        assert_eq!(b.len(), 3);
    }
}

#[test]
fn ring_buffer_grows_while_wrapped() {
    let mut b = RingBuffer::<u32>::new(usize::MAX);
    for i in 0..2048 {
        assert_eq!(b.push_back(i), Ok(()));
    }
    for i in 0..1000 {
        assert_eq!(b.pop_front(), Some(i));
    }
    for i in 2048..6000 {
        assert_eq!(b.push_back(i), Ok(()));
    }
    assert_eq!(b.len(), 5000);
    for i in 1000..6000 {
        assert_eq!(b.pop_front(), Some(i));
    }
    assert_eq!(b.pop_front(), None);
}

#[test]
fn bounded_ring_buffer_grows_up_to_its_limit() {
    let mut b = RingBuffer::<u32>::new(5000);
    for i in 0..5000 {
        assert_eq!(b.push_back(i), Ok(()));
    }
    assert_eq!(b.push_back(5000), Err(5000));
    for i in 0..5000 {
        assert_eq!(b.pop_front(), Some(i));
    }
}

#[test]
fn signal_for_send_is_consumed_once() {
    let mut sig = Signal::for_send(token(1), 9u32);
    assert_eq!(sig.state, SignalState::Waiting);
    assert_eq!(sig.outcome(), None);
    assert_eq!(sig.consume(), (9, token(1)));
    assert_eq!(sig.slot, None);
    assert_eq!(sig.state, SignalState::Transferred);
    assert_eq!(sig.outcome(), Some(true));
    assert!(!sig.is_terminated());
}

#[test]
fn signal_for_recv_is_completed() {
    let mut sig = Signal::<u32>::for_recv(token(2));
    assert_eq!(sig.slot, None);
    assert_eq!(sig.complete(4), token(2));
    assert_eq!(sig, Signal { token: token(2), slot: Some(4), state: SignalState::Transferred });
}

#[test]
fn terminated_sender_keeps_its_payload() {
    let mut sig = Signal::for_send(token(3), 5u32);
    assert_eq!(sig.terminate(), token(3));
    assert!(sig.is_terminated());
    assert_eq!(sig.outcome(), Some(false));
    assert_eq!(sig.slot, Some(5));
}

#[test]
fn wait_queue_serves_front_first() {
    let mut q = WaitQueue::<u32>::new();
    assert!(q.is_empty());
    q.push_back(Signal::for_recv(token(1)));
    q.push_back(Signal::for_recv(token(2)));
    assert_eq!(q.len(), 2);
    assert_eq!(q.pop_front(), Some(Signal::for_recv(token(1))));
    assert_eq!(q.pop_front(), Some(Signal::for_recv(token(2))));
    assert_eq!(q.pop_front(), None);
}

#[test]
fn wait_queue_removes_by_token() {
    let mut q = WaitQueue::<u32>::new();
    q.push_back(Signal::for_send(token(1), 10));
    q.push_back(Signal::for_send(token(2), 20));
    q.push_back(Signal::for_send(token(3), 30));
    q.push_back(Signal::for_send(token(2), 40));
    assert!(q.contains(token(2)));
    assert!(!q.contains(WakeToken { kind: WakeKind::Task, id: 2 }));
    assert_eq!(q.remove(token(2)), Some(Signal::for_send(token(2), 20)));
    assert_eq!(q.remove(token(9)), None);
    assert_eq!(q.len(), 3);
    assert_eq!(q.pop_front(), Some(Signal::for_send(token(1), 10)));
    assert_eq!(q.pop_front(), Some(Signal::for_send(token(3), 30)));
    assert_eq!(q.remove(token(2)), Some(Signal::for_send(token(2), 40)));
    assert!(q.is_empty());
}

#[test]
fn wait_queue_terminates_all_in_order() {
    let mut q = WaitQueue::<u32>::new();
    let mut done = WaitQueue::<u32>::new();
    let mut wakes = vec![token(0)];
    q.push_back(Signal::for_send(token(1), 10));
    q.push_back(Signal::for_send(token(2), 20));
    q.terminate_into(&mut done, &mut wakes);
    assert!(q.is_empty());
    assert_eq!(wakes, vec![token(0), token(1), token(2)]);
    assert_eq!(
        done.pop_front(),
        Some(Signal { token: token(1), slot: Some(10), state: SignalState::Terminated })
    );
    assert_eq!(
        done.pop_front(),
        Some(Signal { token: token(2), slot: Some(20), state: SignalState::Terminated })
    );
    assert_eq!(done.pop_front(), None);
}

#[test]
fn ring_buffer_starts_small_and_doubles() {
    assert_eq!(RingBuffer::<u32>::new(0).slots(), 0);
    assert_eq!(RingBuffer::<u32>::new(5).slots(), 5);
    assert_eq!(RingBuffer::<u32>::new(2048).slots(), 2048);
    assert_eq!(RingBuffer::<u32>::new(5000).slots(), 2048);
    let mut b = RingBuffer::<u32>::new(usize::MAX);
    assert_eq!(b.slots(), 2048);
    for i in 0..2048 {
        assert_eq!(b.push_back(i), Ok(()));
    }
    assert_eq!(b.slots(), 2048);
    assert_eq!(b.push_back(2048), Ok(()));
    assert_eq!(b.slots(), 4096);
    for i in 2049..4097 {
        assert_eq!(b.push_back(i), Ok(()));
    }
    assert_eq!(b.slots(), 8192);
    assert_eq!(b.pop_front(), Some(0));
    assert_eq!(b.slots(), 8192);
}

#[test]
fn bounded_ring_buffer_never_allocates_beyond_its_limit() {
    let mut b = RingBuffer::<u32>::new(3000);
    for i in 0..3000 {
        assert_eq!(b.push_back(i), Ok(()));
    }
    assert_eq!(b.slots(), 3000);
    assert_eq!(b.push_back(3000), Err(3000));
    assert_eq!(b.slots(), 3000);
}
