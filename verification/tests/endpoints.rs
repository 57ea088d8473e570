use kanal::bounded;
use kanal::bounded_async;
use kanal::Error;
use kanal::ErrorTimeout;
use kanal::FutureState;
use kanal::Progress;
use kanal::SendProspect;
use kanal::unbounded;
use kanal::unbounded_async;
use kanal::WakeKind;
use kanal::WakeToken;

#[test]
fn bounded_one_buffers_then_refuses() {
    let (s, r) = bounded::<u32>(1);
    assert_eq!(s.try_send(10), Ok(true));
    assert_eq!(s.try_send(20), Ok(false));
    assert_eq!(r.recv().poll(1), Progress::Ready(Ok(10)));
    assert_eq!(s.try_send(20), Ok(true));
    assert_eq!(r.recv().poll(1), Progress::Ready(Ok(20)));
    assert_eq!(r.try_recv(), Ok(None));
}

#[test]
fn direct_handoff_between_two_operations() {
    let (s, r) = bounded::<u32>(0);
    let mut receive = r.recv();
    assert_eq!(receive.progress(), FutureState::Zero);
    assert_eq!(receive.poll(2), Progress::Pending);
    assert_eq!(receive.progress(), FutureState::Waiting);
    let mut send = s.send(7);
    assert_eq!(send.poll(1), Progress::Ready(Ok(())));
    assert_eq!(send.progress(), FutureState::Done);
    assert_eq!(s.take_wakes(), vec![WakeToken { kind: WakeKind::Thread, id: 2 }]);
    assert_eq!(receive.poll(2), Progress::Ready(Ok(7)));
    assert_eq!(receive.progress(), FutureState::Done);
    assert_eq!(s.len(), 0);
    assert_eq!(r.len(), 0);
}

#[test]
fn dropping_the_last_sender_wakes_the_receiver() {
    let (s, r) = bounded::<u32>(0);
    let mut receive = r.recv();
    assert_eq!(receive.poll(2), Progress::Pending);
    assert_eq!(s.disconnect(), vec![WakeToken { kind: WakeKind::Thread, id: 2 }]);
    assert!(r.take_wakes().is_empty());
    assert_eq!(receive.poll(2), Progress::Ready(Err(Error::SendClosed)));
}

#[test]
fn timeout_retains_the_payload() {
    let (s, _r) = bounded::<u32>(0);
    let mut send = s.send(42);
    assert_eq!(send.poll_timeout(1, false), Progress::Pending);
    assert_eq!(send.poll_timeout(1, true), Progress::Ready(Err(ErrorTimeout::Timeout)));
    assert_eq!(send.into_payload(), Some(42));
    assert_eq!(s.len(), 0);
}

#[test]
fn timeout_at_the_first_poll_retains_the_payload() {
    let (s, r) = bounded::<u32>(0);
    let mut send = s.send(42);
    assert_eq!(send.poll_timeout(1, true), Progress::Ready(Err(ErrorTimeout::Timeout)));
    assert_eq!(send.into_payload(), Some(42));
    assert_eq!(r.try_recv(), Ok(None));
}

#[test]
fn unbounded_channel_keeps_order() {
    let (s, r) = unbounded::<u32>();
    for i in 0..4096 {
        assert_eq!(s.send(i).poll(1), Progress::Ready(Ok(())));
    }
    assert_eq!(r.len(), 4096);
    for i in 0..4096 {
        assert_eq!(r.recv().poll(2), Progress::Ready(Ok(i)));
    }
    assert!(r.is_empty());
}

#[test]
fn close_races_with_a_send_that_times_out() {
    let (s, mut r) = bounded::<u32>(0);
    let mut send = s.send(5);
    assert_eq!(send.poll_timeout(1, false), Progress::Pending);
    assert_eq!(r.recv().poll(2), Progress::Ready(Ok(5)));
    assert!(r.close());
    assert_eq!(send.poll_timeout(1, true), Progress::Ready(Ok(())));
    assert_eq!(send.into_payload(), None);

    let (s, mut r) = bounded::<u32>(0);
    let mut send = s.send(6);
    assert_eq!(send.poll_timeout(1, false), Progress::Pending);
    assert!(r.close());
    assert_eq!(send.poll_timeout(1, true), Progress::Ready(Err(ErrorTimeout::SendClosed)));
    assert_eq!(send.into_payload(), Some(6));
}

#[test]
fn cancel_of_a_send() {
    let (s, r) = bounded::<u32>(0);
    let mut never_polled = s.send(1);
    assert_eq!(never_polled.cancel(), Err(ErrorTimeout::Timeout));
    assert_eq!(never_polled.cancel(), Err(ErrorTimeout::Closed));
    assert_eq!(never_polled.into_payload(), Some(1));

    let mut parked = s.send(2);
    assert_eq!(parked.poll(1), Progress::Pending);
    assert_eq!(parked.cancel(), Err(ErrorTimeout::Timeout));
    assert_eq!(parked.progress(), FutureState::Done);
    assert_eq!(parked.poll(1), Progress::Ready(Err(Error::Closed)));
    assert_eq!(parked.into_payload(), Some(2));

    let mut taken = s.send(3);
    assert_eq!(taken.poll(1), Progress::Pending);
    assert_eq!(r.try_recv(), Ok(Some(3)));
    assert_eq!(taken.cancel(), Ok(()));
    assert_eq!(taken.into_payload(), None);
}

#[test]
fn cancel_of_a_receive() {
    let (s, r) = bounded::<u32>(0);
    let mut never_polled = r.recv();
    assert_eq!(never_polled.cancel(), Err(ErrorTimeout::Timeout));
    assert_eq!(never_polled.cancel(), Err(ErrorTimeout::Closed));

    let mut parked = r.recv();
    assert_eq!(parked.poll(1), Progress::Pending);
    assert_eq!(parked.cancel(), Err(ErrorTimeout::Timeout));
    assert_eq!(s.try_send(1), Ok(false));

    let mut served = r.recv();
    assert_eq!(served.poll(1), Progress::Pending);
    assert_eq!(s.try_send(2), Ok(true));
    assert_eq!(served.cancel(), Ok(2));

    let mut closed = r.recv();
    assert_eq!(closed.poll(1), Progress::Pending);
    let _ = s.disconnect();
    assert_eq!(closed.cancel(), Err(ErrorTimeout::SendClosed));
}

#[test]
fn receive_with_a_deadline() {
    let (s, r) = bounded::<u32>(1);
    assert_eq!(r.recv().poll_timeout(1, true), Progress::Ready(Err(ErrorTimeout::Timeout)));
    assert_eq!(s.try_send(4), Ok(true));
    assert_eq!(r.recv().poll_timeout(1, true), Progress::Ready(Ok(4)));
    let mut waiting = r.recv();
    assert_eq!(waiting.poll_timeout(1, false), Progress::Pending);
    assert_eq!(waiting.poll_timeout(1, false), Progress::Pending);
    assert_eq!(waiting.poll_timeout(1, true), Progress::Ready(Err(ErrorTimeout::Timeout)));
    let _ = s.disconnect();
    assert_eq!(r.recv().poll_timeout(1, true), Progress::Ready(Err(ErrorTimeout::SendClosed)));
    assert_eq!(r.recv().poll_timeout(1, false), Progress::Ready(Err(ErrorTimeout::SendClosed)));
}

#[test]
fn late_receive_without_senders_reports_send_closed() {
    let (s, r) = bounded::<i32>(1);
    let _ = s.disconnect();
    let mut receive = r.recv();
    assert_eq!(receive.poll_timeout(7, true), Progress::Ready(Err(ErrorTimeout::SendClosed)));
    assert_eq!(receive.progress(), FutureState::Done);
}

#[test]
fn late_receive_takes_what_is_there() {
    let (s, r) = bounded::<i32>(0);
    let mut send = s.send(3);
    assert_eq!(send.poll(1), Progress::Pending);
    assert_eq!(r.recv().poll_timeout(2, true), Progress::Ready(Ok(3)));
    assert_eq!(send.poll(1), Progress::Ready(Ok(())));
    assert_eq!(r.recv().poll_timeout(2, true), Progress::Ready(Err(ErrorTimeout::Timeout)));
    assert_eq!(s.try_send(4), Ok(false));
}

#[test]
fn send_prospect_tells_what_a_send_would_meet() {
    let (mut s, r) = bounded::<i32>(1);
    assert_eq!(s.send_prospect(), SendProspect::Through);
    assert_eq!(s.try_send(1), Ok(true));
    assert_eq!(s.send_prospect(), SendProspect::Wait);
    assert_eq!(r.len(), 1);
    let _ = r.disconnect();
    assert_eq!(s.send_prospect(), SendProspect::ReceiveClosed);
    assert!(s.close());
    assert_eq!(s.send_prospect(), SendProspect::Closed);
    let (s, r) = bounded_async::<i32>(0);
    assert_eq!(s.send_prospect(), SendProspect::Wait);
    let mut receive = r.recv();
    assert_eq!(receive.poll(1), Progress::Pending);
    assert_eq!(s.send_prospect(), SendProspect::Through);
}

#[test]
fn send_reports_the_closed_sides() {
    let (s, r) = bounded::<u32>(1);
    let _ = r.disconnect();
    assert_eq!(s.send(1).poll(1), Progress::Ready(Ok(())));
    let mut refused = s.send(2);
    assert_eq!(refused.poll(1), Progress::Ready(Err(Error::ReceiveClosed)));
    assert_eq!(refused.into_payload(), Some(2));
    let mut with_deadline = s.send(3);
    assert_eq!(
        with_deadline.poll_timeout(1, false),
        Progress::Ready(Err(ErrorTimeout::ReceiveClosed))
    );
    assert_eq!(with_deadline.into_payload(), Some(3));
    let mut s = s;
    assert!(s.close());
    let mut closed = s.send(4);
    assert_eq!(closed.poll(1), Progress::Ready(Err(Error::Closed)));
    assert_eq!(closed.into_payload(), Some(4));
    assert_eq!(s.try_send(5), Err(Error::Closed));
}

#[test]
fn parked_sender_learns_of_the_last_receiver_leaving() {
    let (s, r) = bounded::<u32>(0);
    let mut send = s.send(9);
    assert_eq!(send.poll(1), Progress::Pending);
    assert_eq!(send.poll(1), Progress::Pending);
    let _ = r.disconnect();
    assert_eq!(send.poll(1), Progress::Ready(Err(Error::SendClosed)));
    assert_eq!(send.into_payload(), Some(9));
}

#[test]
fn try_send_option_recovers_the_payload() {
    let (s, r) = bounded_async::<String>(1);
    let mut first = Some(String::from("a"));
    assert_eq!(s.try_send_option(&mut first), Ok(true));
    assert_eq!(first, None);
    let mut second = Some(String::from("b"));
    assert_eq!(s.try_send_option(&mut second), Ok(false));
    assert_eq!(second, Some(String::from("b")));
    assert_eq!(r.try_recv(), Ok(Some(String::from("a"))));
    let mut nothing: Option<String> = None;
    assert_eq!(s.try_send_option(&mut nothing), Ok(false));
    assert_eq!(nothing, None);
    let mut s = s;
    assert!(s.close());
    assert_eq!(s.try_send_option(&mut second), Err(Error::Closed));
    assert_eq!(second, Some(String::from("b")));
    assert_eq!(s.try_send_option(&mut nothing), Err(Error::Closed));
    assert_eq!(nothing, None);
}

#[test]
fn try_send_option_on_a_sender_for_threads() {
    let (s, r) = bounded::<u32>(0);
    let mut payload = Some(3);
    assert_eq!(s.try_send_option(&mut payload), Ok(false));
    assert_eq!(payload, Some(3));
    let mut receive = r.recv();
    assert_eq!(receive.poll(1), Progress::Pending);
    assert_eq!(s.try_send_option(&mut payload), Ok(true));
    assert_eq!(payload, None);
    assert_eq!(receive.poll(1), Progress::Ready(Ok(3)));
}

#[test]
fn async_endpoints_park_as_tasks() {
    let (s, r) = bounded_async::<u32>(0);
    let mut receive = r.recv();
    assert_eq!(receive.poll(5), Progress::Pending);
    assert_eq!(s.try_send(1), Ok(true));
    assert_eq!(r.take_wakes(), vec![WakeToken { kind: WakeKind::Task, id: 5 }]);
    assert_eq!(receive.poll(5), Progress::Ready(Ok(1)));
    let mut send = s.send(2);
    assert_eq!(send.poll(6), Progress::Pending);
    assert_eq!(r.try_recv(), Ok(Some(2)));
    assert_eq!(s.take_wakes(), vec![WakeToken { kind: WakeKind::Task, id: 6 }]);
    assert_eq!(send.poll(6), Progress::Ready(Ok(())));
}

#[test]
fn queries_report_the_channel() {
    let (mut s, mut r) = bounded::<u32>(3);
    assert!(s.is_bounded());
    assert!(r.is_bounded());
    assert_eq!(s.capacity(), 3);
    assert_eq!(r.capacity(), 3);
    assert!(s.is_empty());
    assert_eq!(s.try_send(1), Ok(true));
    assert_eq!(s.len(), 1);
    assert_eq!(r.len(), 1);
    assert!(!r.is_empty());
    assert!(!s.is_closed());
    assert!(!s.is_disconnected());
    assert!(!r.is_disconnected());
    let (mut s, mut r) = unbounded::<u32>();
    assert!(!s.is_bounded());
    assert_eq!(s.capacity(), usize::MAX);
    assert_eq!(r.capacity(), usize::MAX);
    let (mut s, mut r) = unbounded_async::<u32>();
    assert!(!r.is_bounded());
    assert_eq!(s.capacity(), usize::MAX);
    assert!(r.is_empty());
    let (mut s, mut r) = bounded_async::<u32>(0);
    assert!(s.is_bounded());
    assert_eq!(r.capacity(), 0);
    assert!(!s.is_closed());
    assert!(!r.is_closed());
    assert!(!s.is_disconnected());
    assert!(!r.is_disconnected());
}

#[test]
fn is_disconnected_looks_at_the_other_side() {
    let (mut s, r) = bounded::<u32>(1);
    let mut r2 = r.clone();
    let _ = r.disconnect();
    assert!(!s.is_disconnected());
    assert!(!r2.is_disconnected());
    let mut s2 = s.clone_async();
    let _ = s.disconnect();
    assert!(!r2.is_disconnected());
    assert!(!s2.is_disconnected());
    let mut r3 = r2.clone_async();
    let _ = r2.disconnect();
    assert!(!s2.is_disconnected());
    let s3 = s2.clone_sync();
    let _ = s2.disconnect();
    assert!(!r3.is_disconnected());
    let _ = s3.disconnect();
    assert!(r3.is_disconnected());
    assert!(!r3.is_closed());
    let mut r4 = r3.clone_sync();
    let _ = r3.disconnect();
    assert!(!r4.is_closed());
    let r5 = r4.clone();
    let _ = r5.disconnect();
    assert!(!r4.is_closed());
    let mut r6 = r4.clone();
    let _ = r4.disconnect();
    assert!(!r6.is_closed());
    assert!(r6.is_disconnected());
}

#[test]
fn clone_of_a_closed_endpoint_is_born_dead() {
    let (mut s, r) = bounded::<u32>(1);
    assert!(s.close());
    assert!(!s.close());
    assert!(s.is_closed());
    let s2 = s.clone();
    assert_eq!(s2.try_send(1), Err(Error::Closed));
    let mut r2 = r.clone_async();
    assert_eq!(r2.try_recv(), Err(Error::Closed));
    assert!(r2.is_closed());
    assert!(r2.is_disconnected());
    let _ = s2.disconnect();
    assert!(s.is_closed());
}

#[test]
fn both_ends_share_one_channel() {
    let (s, r) = bounded_async::<u32>(2);
    let s2 = s.clone();
    let r2 = r.clone();
    assert_eq!(s.try_send(1), Ok(true));
    assert_eq!(s2.try_send(2), Ok(true));
    assert_eq!(s.try_send(3), Ok(false));
    assert_eq!(r2.try_recv(), Ok(Some(1)));
    assert_eq!(r.try_recv(), Ok(Some(2)));
    assert_eq!(r.try_recv(), Ok(None));
}

#[test]
fn close_terminates_parked_operations() {
    let (mut s, r) = bounded::<u32>(0);
    let mut first = r.recv();
    let mut second = r.recv();
    assert_eq!(first.poll(1), Progress::Pending);
    assert_eq!(second.poll(2), Progress::Pending);
    assert!(s.close());
    assert_eq!(
        s.take_wakes(),
        vec![WakeToken { kind: WakeKind::Thread, id: 1 }, WakeToken { kind: WakeKind::Thread, id: 2 }]
    );
    assert!(s.take_wakes().is_empty());
    assert_eq!(first.poll(1), Progress::Ready(Err(Error::SendClosed)));
    assert_eq!(second.poll(2), Progress::Ready(Err(Error::SendClosed)));
    assert_eq!(r.recv().poll(3), Progress::Ready(Err(Error::Closed)));
}

#[test]
fn walking_through_the_payloads_ends_at_the_first_error() {
    let (s, r) = bounded::<u32>(3);
    assert_eq!(s.try_send(1), Ok(true));
    assert_eq!(s.try_send(2), Ok(true));
    let _ = s.disconnect();
    assert_eq!(r.recv().poll_next(1), Progress::Ready(Some(1)));
    assert_eq!(r.recv().poll_next(1), Progress::Ready(Some(2)));
    assert_eq!(r.recv().poll_next(1), Progress::Ready(None));
    let mut over = r.recv();
    assert_eq!(over.poll_next(1), Progress::Ready(None));
    assert_eq!(over.poll_next(1), Progress::Ready(None));
}

#[test]
fn walking_waits_while_senders_live() {
    let (s, r) = bounded::<u32>(3);
    let mut next = r.recv();
    assert_eq!(next.poll_next(1), Progress::Pending);
    assert_eq!(s.try_send(1), Ok(true));
    assert_eq!(next.poll_next(1), Progress::Ready(Some(1)));
}

#[test]
fn operations_with_a_deadline_on_a_closed_channel() {
    let (mut s, r) = bounded::<u32>(1);
    assert!(s.close());
    let mut send = s.send(1);
    assert_eq!(send.poll_timeout(1, false), Progress::Ready(Err(ErrorTimeout::Closed)));
    assert_eq!(send.into_payload(), Some(1));
    let mut late = s.send(2);
    assert_eq!(late.poll_timeout(1, true), Progress::Ready(Err(ErrorTimeout::Closed)));
    assert_eq!(late.into_payload(), Some(2));
    assert_eq!(r.recv().poll_timeout(1, false), Progress::Ready(Err(ErrorTimeout::Closed)));
    assert_eq!(r.recv().poll_timeout(1, true), Progress::Ready(Err(ErrorTimeout::Closed)));
}

#[test]
fn new_operations_have_not_touched_the_channel() {
    let (s, r) = bounded::<u32>(0);
    let send = s.send(1);
    let receive = r.recv();
    assert_eq!(send.progress(), FutureState::Zero);
    assert_eq!(receive.progress(), FutureState::Zero);
    assert_eq!(r.try_recv(), Ok(None));
    assert_eq!(send.into_payload(), Some(1));
    assert!(s.take_wakes().is_empty());
}
