use kanal::bounded;
use kanal::ChannelCore;
use kanal::ErrorTimeout;
use kanal::Progress;
use kanal::RecvOutcome;
use kanal::RecvSettle;
use kanal::SendOutcome;
use kanal::SendProspect;
use kanal::SendSettle;
use kanal::UNBOUNDED;
use kanal::WakeKind;
use kanal::WakeToken;

fn thread(id: u64) -> WakeToken {
    WakeToken { kind: WakeKind::Thread, id }
}

fn task(id: u64) -> WakeToken {
    WakeToken { kind: WakeKind::Task, id }
}

#[test]
fn new_core_is_open_and_empty() {
    let core = ChannelCore::<u32>::new(3);
    assert_eq!(core.capacity(), 3);
    assert_eq!(core.len(), 0);
    assert!(core.is_empty());
    assert!(core.is_bounded());
    assert!(!core.is_closed());
    assert_eq!(core.send_count(), 1);
    assert_eq!(core.recv_count(), 1);
}

#[test]
fn unbounded_core_reports_the_sentinel() {
    let core = ChannelCore::<u32>::new(UNBOUNDED);
    assert_eq!(core.capacity(), usize::MAX);
    assert!(!core.is_bounded());
}

#[test]
fn buffer_of_one_takes_one_then_is_full() {
    let mut core = ChannelCore::<u32>::new(1);
    assert_eq!(core.try_send(10), SendOutcome::Sent);
    assert_eq!(core.try_send(20), SendOutcome::Full(20));
    assert_eq!(core.recv(thread(1)), RecvOutcome::Received(10));
    assert_eq!(core.try_send(20), SendOutcome::Sent);
    assert_eq!(core.recv(thread(1)), RecvOutcome::Received(20));
    assert_eq!(core.len(), 0);
}

#[test]
fn rendezvous_hands_payload_to_parked_receiver() {
    let mut core = ChannelCore::<u32>::new(0);
    assert_eq!(core.recv(thread(2)), RecvOutcome::Parked);
    assert_eq!(core.settle_recv(thread(2)), RecvSettle::Pending);
    assert_eq!(core.send(7, thread(1)), SendOutcome::Sent);
    assert_eq!(core.drain_wakes(), vec![thread(2)]);
    assert_eq!(core.settle_recv(thread(2)), RecvSettle::Received(7));
    assert_eq!(core.settle_recv(thread(2)), RecvSettle::Unknown);
    assert_eq!(core.len(), 0);
}

#[test]
fn rendezvous_takes_payload_from_parked_sender() {
    let mut core = ChannelCore::<u32>::new(0);
    assert_eq!(core.send(7, thread(1)), SendOutcome::Parked);
    assert_eq!(core.settle_send(thread(1)), SendSettle::Pending);
    assert_eq!(core.recv(thread(2)), RecvOutcome::Received(7));
    assert_eq!(core.drain_wakes(), vec![thread(1)]);
    assert_eq!(core.settle_send(thread(1)), SendSettle::Sent);
    assert_eq!(core.settle_send(thread(1)), SendSettle::Unknown);
}

#[test]
fn last_sender_gone_wakes_parked_receiver() {
    let mut core = ChannelCore::<u32>::new(0);
    assert_eq!(core.recv(thread(2)), RecvOutcome::Parked);
    core.drop_sender();
    assert_eq!(core.send_count(), 0);
    assert_eq!(core.drain_wakes(), vec![thread(2)]);
    assert_eq!(core.settle_recv(thread(2)), RecvSettle::SendClosed);
}

#[test]
fn last_receiver_gone_returns_payload_to_parked_sender() {
    let mut core = ChannelCore::<u32>::new(0);
    assert_eq!(core.send(5, task(9)), SendOutcome::Parked);
    core.drop_receiver();
    assert_eq!(core.recv_count(), 0);
    assert_eq!(core.drain_wakes(), vec![task(9)]);
    assert_eq!(core.settle_send(task(9)), SendSettle::SendClosed(5));
}

#[test]
fn giving_up_a_parked_send_returns_the_payload() {
    let mut core = ChannelCore::<u32>::new(0);
    assert_eq!(core.send(42, thread(1)), SendOutcome::Parked);
    assert_eq!(core.cancel_send(thread(1)), SendSettle::Timeout(42));
    assert_eq!(core.cancel_send(thread(1)), SendSettle::Unknown);
    assert_eq!(core.try_recv(), RecvOutcome::Empty);
    assert!(core.drain_wakes().is_empty());
}

#[test]
fn giving_up_after_the_receiver_came_reports_sent() {
    let mut core = ChannelCore::<u32>::new(0);
    assert_eq!(core.send(42, thread(1)), SendOutcome::Parked);
    assert_eq!(core.recv(thread(2)), RecvOutcome::Received(42));
    assert_eq!(core.cancel_send(thread(1)), SendSettle::Sent);
}

#[test]
fn giving_up_after_close_reports_send_closed_with_payload() {
    let mut core = ChannelCore::<u32>::new(0);
    assert_eq!(core.send(42, thread(1)), SendOutcome::Parked);
    assert!(core.close());
    assert_eq!(core.cancel_send(thread(1)), SendSettle::SendClosed(42));
}

#[test]
fn close_after_consume_leaves_the_send_sent() {
    let mut core = ChannelCore::<u32>::new(0);
    assert_eq!(core.send(1, thread(1)), SendOutcome::Parked);
    assert_eq!(core.recv(thread(2)), RecvOutcome::Received(1));
    assert!(core.close());
    assert_eq!(core.cancel_send(thread(1)), SendSettle::Sent);
}

#[test]
fn giving_up_a_parked_receive() {
    let mut core = ChannelCore::<u32>::new(2);
    assert_eq!(core.recv(thread(3)), RecvOutcome::Parked);
    assert_eq!(core.cancel_recv(thread(3)), RecvSettle::Timeout);
    assert_eq!(core.cancel_recv(thread(3)), RecvSettle::Unknown);
    assert_eq!(core.try_send(1), SendOutcome::Sent);
    assert_eq!(core.len(), 1);
}

#[test]
fn giving_up_a_receive_after_the_sender_came_yields_the_payload() {
    let mut core = ChannelCore::<u32>::new(2);
    assert_eq!(core.recv(thread(3)), RecvOutcome::Parked);
    assert_eq!(core.try_send(8), SendOutcome::Sent);
    assert_eq!(core.len(), 0);
    assert_eq!(core.cancel_recv(thread(3)), RecvSettle::Received(8));
}

#[test]
fn unbounded_core_keeps_order_over_growth() {
    let mut core = ChannelCore::<u32>::new(UNBOUNDED);
    for i in 0..4096u32 {
        assert_eq!(core.send(i, thread(1)), SendOutcome::Sent);
    }
    assert_eq!(core.len(), 4096);
    for i in 0..4096u32 {
        assert_eq!(core.recv(thread(2)), RecvOutcome::Received(i));
    }
    assert!(core.is_empty());
}

#[test]
fn parked_senders_enter_the_buffer_in_order() {
    let mut core = ChannelCore::<u32>::new(2);
    assert_eq!(core.send(1, thread(1)), SendOutcome::Sent);
    assert_eq!(core.send(2, thread(1)), SendOutcome::Sent);
    assert_eq!(core.send(3, thread(11)), SendOutcome::Parked);
    assert_eq!(core.send(4, thread(12)), SendOutcome::Parked);
    assert_eq!(core.send(5, thread(13)), SendOutcome::Parked);
    assert_eq!(core.len(), 2);
    assert_eq!(core.try_recv(), RecvOutcome::Received(1));
    assert_eq!(core.len(), 2);
    assert_eq!(core.drain_wakes(), vec![thread(11)]);
    assert_eq!(core.settle_send(thread(11)), SendSettle::Sent);
    assert_eq!(core.settle_send(thread(12)), SendSettle::Pending);
    assert_eq!(core.try_recv(), RecvOutcome::Received(2));
    assert_eq!(core.try_recv(), RecvOutcome::Received(3));
    assert_eq!(core.try_recv(), RecvOutcome::Received(4));
    assert_eq!(core.try_recv(), RecvOutcome::Received(5));
    assert_eq!(core.try_recv(), RecvOutcome::Empty);
    assert_eq!(core.drain_wakes(), vec![thread(12), thread(13)]);
}

#[test]
fn a_sender_that_gave_up_is_skipped() {
    let mut core = ChannelCore::<u32>::new(0);
    assert_eq!(core.send(1, thread(1)), SendOutcome::Parked);
    assert_eq!(core.send(2, thread(2)), SendOutcome::Parked);
    assert_eq!(core.send(3, thread(3)), SendOutcome::Parked);
    assert_eq!(core.cancel_send(thread(2)), SendSettle::Timeout(2));
    assert_eq!(core.try_recv(), RecvOutcome::Received(1));
    assert_eq!(core.try_recv(), RecvOutcome::Received(3));
    assert_eq!(core.try_recv(), RecvOutcome::Empty);
}

#[test]
fn parked_receivers_are_served_in_order() {
    let mut core = ChannelCore::<u32>::new(1);
    assert_eq!(core.recv(thread(1)), RecvOutcome::Parked);
    assert_eq!(core.recv(task(2)), RecvOutcome::Parked);
    assert_eq!(core.try_send(10), SendOutcome::Sent);
    assert_eq!(core.try_send(20), SendOutcome::Sent);
    assert_eq!(core.try_send(30), SendOutcome::Sent);
    assert_eq!(core.len(), 1);
    assert_eq!(core.drain_wakes(), vec![thread(1), task(2)]);
    assert_eq!(core.settle_recv(task(2)), RecvSettle::Received(20));
    assert_eq!(core.settle_recv(thread(1)), RecvSettle::Received(10));
    assert_eq!(core.try_recv(), RecvOutcome::Received(30));
}

#[test]
fn send_fails_closed_without_senders() {
    let mut core = ChannelCore::<u32>::new(1);
    core.drop_sender();
    assert_eq!(core.send(1, thread(1)), SendOutcome::Closed(1));
    assert_eq!(core.try_send(2), SendOutcome::Closed(2));
    assert_eq!(core.len(), 0);
}

#[test]
fn send_without_receivers_fills_the_buffer_then_fails() {
    let mut core = ChannelCore::<u32>::new(1);
    core.drop_receiver();
    assert_eq!(core.send(1, thread(1)), SendOutcome::Sent);
    assert_eq!(core.send(2, thread(1)), SendOutcome::ReceiveClosed(2));
    assert_eq!(core.try_send(3), SendOutcome::Full(3));
    assert_eq!(core.len(), 1);
}

#[test]
fn receive_drains_the_buffer_after_the_senders_left() {
    let mut core = ChannelCore::<u32>::new(2);
    assert_eq!(core.try_send(1), SendOutcome::Sent);
    assert_eq!(core.try_send(2), SendOutcome::Sent);
    core.drop_sender();
    assert_eq!(core.recv(thread(1)), RecvOutcome::Received(1));
    assert_eq!(core.recv(thread(1)), RecvOutcome::Received(2));
    assert_eq!(core.recv(thread(1)), RecvOutcome::SendClosed);
    assert_eq!(core.try_recv(), RecvOutcome::Empty);
}

#[test]
fn receive_fails_closed_without_receivers() {
    let mut core = ChannelCore::<u32>::new(2);
    assert_eq!(core.try_send(1), SendOutcome::Sent);
    core.drop_receiver();
    assert_eq!(core.recv(thread(1)), RecvOutcome::Closed);
    assert_eq!(core.try_recv(), RecvOutcome::Closed);
    assert_eq!(core.len(), 1);
}

#[test]
fn try_steps_never_park() {
    let mut core = ChannelCore::<u32>::new(0);
    assert_eq!(core.try_send(1), SendOutcome::Full(1));
    assert_eq!(core.try_recv(), RecvOutcome::Empty);
    assert_eq!(core.send(2, thread(1)), SendOutcome::Parked);
    assert_eq!(core.try_recv(), RecvOutcome::Received(2));
}

#[test]
fn endpoint_counts_follow_clones_and_drops() {
    let mut core = ChannelCore::<u32>::new(1);
    core.add_sender();
    core.add_sender();
    core.add_receiver();
    assert_eq!(core.send_count(), 3);
    assert_eq!(core.recv_count(), 2);
    core.drop_sender();
    core.drop_receiver();
    assert_eq!(core.send_count(), 2);
    assert_eq!(core.recv_count(), 1);
    assert!(!core.is_closed());
}

#[test]
fn a_closed_side_is_not_resurrected() {
    let mut core = ChannelCore::<u32>::new(1);
    core.drop_sender();
    core.add_sender();
    assert_eq!(core.send_count(), 0);
    core.drop_sender();
    assert_eq!(core.send_count(), 0);
    core.drop_receiver();
    core.add_receiver();
    assert_eq!(core.recv_count(), 0);
    assert!(core.is_closed());
}

#[test]
fn close_terminates_every_waiter_once() {
    let mut core = ChannelCore::<u32>::new(0);
    assert_eq!(core.recv(thread(1)), RecvOutcome::Parked);
    assert_eq!(core.recv(task(2)), RecvOutcome::Parked);
    assert!(core.close());
    assert!(core.is_closed());
    assert_eq!(core.drain_wakes(), vec![thread(1), task(2)]);
    assert_eq!(core.settle_recv(thread(1)), RecvSettle::SendClosed);
    assert_eq!(core.settle_recv(task(2)), RecvSettle::SendClosed);
    assert!(!core.close());
    assert!(core.drain_wakes().is_empty());
}

#[test]
fn close_keeps_the_buffer() {
    let mut core = ChannelCore::<u32>::new(2);
    assert_eq!(core.try_send(1), SendOutcome::Sent);
    assert!(core.close());
    assert_eq!(core.len(), 1);
    assert_eq!(core.try_recv(), RecvOutcome::Closed);
    assert_eq!(core.try_send(2), SendOutcome::Closed(2));
}

#[test]
fn conservation_on_a_mixed_run() {
    let mut core = ChannelCore::<u32>::new(1);
    let mut taken = 0;
    let mut received = 0;
    let mut returned = 0;
    for (i, token) in [thread(1), thread(2), thread(3), thread(4)].into_iter().enumerate() {
        match core.send(i as u32, token) {
            SendOutcome::Sent | SendOutcome::Parked => taken += 1,
            _ => {}
        }
    }
    if let SendSettle::Timeout(_) = core.cancel_send(thread(3)) {
        returned += 1;
    }
    if let RecvOutcome::Received(_) = core.try_recv() {
        received += 1;
    }
    assert!(core.close());
    for token in [thread(2), thread(4)] {
        match core.settle_send(token) {
            SendSettle::Sent => {}
            SendSettle::SendClosed(_) => returned += 1,
            other => panic!("unexpected {:?}", other),
        }
    }
    assert_eq!(taken, 4);
    assert_eq!(received, 1);
    assert_eq!(returned, 2);
    assert_eq!(taken, received + core.len() + returned);
}

#[test]
fn queues_are_never_both_in_use() {
    let mut core = ChannelCore::<u32>::new(0);
    assert_eq!(core.send(1, thread(1)), SendOutcome::Parked);
    assert_eq!(core.recv(thread(2)), RecvOutcome::Received(1));
    assert_eq!(core.recv(thread(2)), RecvOutcome::Parked);
    assert_eq!(core.send(2, thread(1)), SendOutcome::Sent);
    assert_eq!(core.settle_recv(thread(2)), RecvSettle::Received(2));
    assert_eq!(core.settle_send(thread(1)), SendSettle::Sent);
    assert_eq!(core.settle_send(thread(1)), SendSettle::Unknown);
}

#[test]
fn outcomes_map_to_try_results() {
    assert_eq!(SendOutcome::<u32>::Sent.into_try(), (Ok(true), None));
    assert_eq!(SendOutcome::<u32>::Full(3).into_try(), (Ok(false), Some(3)));
    assert_eq!(SendOutcome::<u32>::Parked.into_try(), (Ok(false), None));
    assert_eq!(SendOutcome::<u32>::Closed(3).into_try(), (Err(kanal::Error::Closed), Some(3)));
    assert_eq!(
        SendOutcome::<u32>::ReceiveClosed(3).into_try(),
        (Err(kanal::Error::ReceiveClosed), Some(3))
    );
    assert_eq!(RecvOutcome::<u32>::Received(3).into_try(), Ok(Some(3)));
    assert_eq!(RecvOutcome::<u32>::Empty.into_try(), Ok(None));
    assert_eq!(RecvOutcome::<u32>::Parked.into_try(), Ok(None));
    assert_eq!(RecvOutcome::<u32>::Closed.into_try(), Err(kanal::Error::Closed));
    assert_eq!(RecvOutcome::<u32>::SendClosed.into_try(), Err(kanal::Error::SendClosed));
}

#[test]
fn a_payload_goes_to_one_receiver_only() {
    let mut core = ChannelCore::<u32>::new(0);
    assert_eq!(core.recv(thread(1)), RecvOutcome::Parked);
    assert_eq!(core.recv(thread(2)), RecvOutcome::Parked);
    assert_eq!(core.send(7, thread(3)), SendOutcome::Sent);
    assert_eq!(core.settle_recv(thread(2)), RecvSettle::Pending);
    assert_eq!(core.settle_recv(thread(1)), RecvSettle::Received(7));
    assert_eq!(core.settle_recv(thread(1)), RecvSettle::Unknown);
    assert_eq!(core.try_recv(), RecvOutcome::Empty);
    assert_eq!(core.waiting_receivers(), 1);
}

fn assert_coherent(core: &ChannelCore<u32>) {
    assert!(core.waiting_senders() == 0 || core.waiting_receivers() == 0);
    assert!(core.len() <= core.capacity());
    if core.waiting_senders() > 0 {
        assert_eq!(core.len(), core.capacity());
    }
    if core.waiting_receivers() > 0 {
        assert_eq!(core.len(), 0);
    }
}

#[test]
fn queues_stay_exclusive_and_coherent_over_a_run() {
    for capacity in [0usize, 1, 2, 5] {
        let mut core = ChannelCore::<u32>::new(capacity);
        let mut seed: u32 = 12345;
        for round in 0..2000u32 {
            seed = seed.wrapping_mul(1664525).wrapping_add(1013904223);
            let who = thread((seed >> 8) as u64 % 7);
            match (seed >> 16) % 8 {
                0 | 1 => {
                    let _ = core.send(round, who);
                }
                2 | 3 => {
                    let _ = core.recv(who);
                }
                4 => {
                    let _ = core.try_send(round);
                }
                5 => {
                    let _ = core.try_recv();
                }
                6 => {
                    let _ = core.cancel_send(who);
                    let _ = core.settle_recv(who);
                }
                _ => {
                    let _ = core.cancel_recv(who);
                    let _ = core.settle_send(who);
                }
            }
            assert_coherent(&core);
        }
        core.drop_sender();
        assert_coherent(&core);
        assert_eq!(core.waiting_receivers(), 0);
        core.drop_receiver();
        assert_coherent(&core);
        assert_eq!(core.waiting_senders(), 0);
        assert!(core.is_closed());
    }
}

#[test]
fn deliveries_follow_the_order_of_entry_over_a_run() {
    let mut core = ChannelCore::<u32>::new(3);
    let mut next = 0u32;
    let mut expect = 0u32;
    let mut seed: u32 = 99;
    for _ in 0..3000 {
        seed = seed.wrapping_mul(1664525).wrapping_add(1013904223);
        if (seed >> 16) % 3 != 0 {
            match core.send(next, thread(next as u64)) {
                SendOutcome::Sent | SendOutcome::Parked => next += 1,
                other => panic!("unexpected {:?}", other),
            }
        } else {
            match core.try_recv() {
                RecvOutcome::Received(v) => {
                    assert_eq!(v, expect);
                    expect += 1;
                }
                RecvOutcome::Empty => assert_eq!(expect, next),
                other => panic!("unexpected {:?}", other),
            }
        }
    }
    while let RecvOutcome::Received(v) = core.try_recv() {
        assert_eq!(v, expect);
        expect += 1;
    }
    assert_eq!(expect, next);
}

#[test]
fn try_send_option_on_the_core() {
    let mut core = ChannelCore::<u32>::new(1);
    let mut data = Some(1);
    assert_eq!(core.try_send_option(&mut data), Ok(true));
    assert_eq!(data, None);
    let mut data = Some(2);
    assert_eq!(core.try_send_option(&mut data), Ok(false));
    assert_eq!(data, Some(2));
    let mut nothing: Option<u32> = None;
    assert_eq!(core.try_send_option(&mut nothing), Ok(false));
    assert_eq!(nothing, None);
    assert_eq!(core.len(), 1);
    core.drop_sender();
    assert_eq!(core.try_send_option(&mut data), Err(kanal::Error::Closed));
    assert_eq!(data, Some(2));
    assert_eq!(core.try_send_option(&mut nothing), Err(kanal::Error::Closed));
}

#[test]
fn send_prospect_on_the_core() {
    let mut core = ChannelCore::<u32>::new(0);
    assert_eq!(core.send_prospect(), SendProspect::Wait);
    assert_eq!(core.recv(thread(1)), RecvOutcome::Parked);
    assert_eq!(core.send_prospect(), SendProspect::Through);
    assert_eq!(core.cancel_recv(thread(1)), RecvSettle::Timeout);
    core.drop_receiver();
    assert_eq!(core.send_prospect(), SendProspect::ReceiveClosed);
    core.drop_sender();
    assert_eq!(core.send_prospect(), SendProspect::Closed);
}

#[test]
fn operations_step_on_a_core_in_hand() {
    let (s, r) = bounded::<u32>(0);
    let mut core = ChannelCore::<u32>::new(0);
    let mut send = s.send(9);
    assert_eq!(send.poll_on(&mut core, 1), Progress::Pending);
    assert_eq!(core.waiting_senders(), 1);
    let mut receive = r.recv();
    assert_eq!(receive.poll_on(&mut core, 2), Progress::Ready(Ok(9)));
    assert_eq!(send.poll_timeout_on(&mut core, 1, true), Progress::Ready(Ok(())));
    let mut late = r.recv();
    assert_eq!(late.poll_timeout_on(&mut core, 3, true), Progress::Ready(Err(ErrorTimeout::Timeout)));
    assert_eq!(core.waiting_receivers(), 0);
    core.drop_sender();
    let mut closed = r.recv();
    assert_eq!(
        closed.poll_timeout_on(&mut core, 3, true),
        Progress::Ready(Err(ErrorTimeout::SendClosed))
    );
    let mut walk = r.recv();
    assert_eq!(walk.poll_next_on(&mut core, 4), Progress::Ready(None));
    let mut parked = s.send(5);
    assert_eq!(parked.cancel_on(&mut core), Err(ErrorTimeout::Timeout));
    assert_eq!(parked.into_payload(), Some(5));
    let mut idle = r.recv();
    assert_eq!(idle.cancel_on(&mut core), Err(ErrorTimeout::Timeout));
    assert_eq!(r.len(), 0);
}

#[test]
fn a_parked_send_gets_its_own_payload_back_after_the_steps_of_others() {
    let mut core = ChannelCore::<u32>::new(1);
    assert_eq!(core.send(1, thread(1)), SendOutcome::Sent);
    assert_eq!(core.send(2, thread(2)), SendOutcome::Parked);
    assert_eq!(core.send(42, thread(7)), SendOutcome::Parked);
    assert_eq!(core.send(3, thread(3)), SendOutcome::Parked);
    assert_eq!(core.cancel_send(thread(3)), SendSettle::Timeout(3));
    assert_eq!(core.try_recv(), RecvOutcome::Received(1));
    assert_eq!(core.settle_send(thread(2)), SendSettle::Sent);
    assert_eq!(core.send(4, thread(4)), SendOutcome::Parked);
    core.add_sender();
    core.add_receiver();
    let _ = core.drain_wakes();
    assert_eq!(core.settle_send(thread(7)), SendSettle::Pending);
    assert_eq!(core.cancel_send(thread(7)), SendSettle::Timeout(42));
    assert_eq!(core.len(), 1);
    assert_eq!(core.try_recv(), RecvOutcome::Received(2));
    assert_eq!(core.try_recv(), RecvOutcome::Received(4));
    assert_eq!(core.try_recv(), RecvOutcome::Empty);
}

#[test]
fn a_parked_send_learns_that_its_payload_entered_after_the_steps_of_others() {
    let mut core = ChannelCore::<u32>::new(0);
    assert_eq!(core.send(1, thread(1)), SendOutcome::Parked);
    assert_eq!(core.send(42, thread(7)), SendOutcome::Parked);
    assert_eq!(core.try_recv(), RecvOutcome::Received(1));
    assert_eq!(core.recv(thread(9)), RecvOutcome::Received(42));
    assert_eq!(core.recv(thread(9)), RecvOutcome::Parked);
    assert!(core.close());
    assert_eq!(core.cancel_send(thread(7)), SendSettle::Sent);
    assert_eq!(core.cancel_send(thread(1)), SendSettle::Sent);
}

#[test]
fn a_parked_send_gets_its_payload_back_after_a_shutdown_among_the_steps_of_others() {
    let mut core = ChannelCore::<u32>::new(0);
    assert_eq!(core.send(42, thread(7)), SendOutcome::Parked);
    assert_eq!(core.send(5, thread(5)), SendOutcome::Parked);
    core.drop_receiver();
    assert_eq!(core.settle_send(thread(5)), SendSettle::SendClosed(5));
    core.drop_sender();
    assert_eq!(core.cancel_send(thread(7)), SendSettle::SendClosed(42));
    assert_eq!(core.len(), 0);
}
