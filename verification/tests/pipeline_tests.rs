//! Tests for socket-configuration outcomes and the event pipeline.

use nlmon::event::{InboundEvent, KernelSocketAddress};
use nlmon::groups::{build_mask, RTNLGRP_IPV4_ROUTE, RTNLGRP_LINK};
use nlmon::pipeline::{configure_outcome, DriverState, Pipeline, SocketError, SocketPoll};
use nlmon::queue::{EventQueue, QueuePoll};

fn event(tag: u8) -> InboundEvent {
    InboundEvent { payload: vec![tag, tag, tag], sender: KernelSocketAddress { port_id: 0, groups: 0 } }
}

fn expect_event(poll: QueuePoll, tag: u8) {
    match poll {
        QueuePoll::Event(e) => {
            assert_eq!(e.payload, vec![tag, tag, tag]);
            assert_eq!(e.sender, KernelSocketAddress { port_id: 0, groups: 0 });
        }
        QueuePoll::Pending => panic!("expected an event, queue still pending"),
        QueuePoll::EndOfStream => panic!("expected an event, got end of stream"),
    }
}

#[test]
fn listener_address_uses_local_id_zero() {
    let a = KernelSocketAddress::listener(65);
    assert_eq!(a.port_id, 0);
    assert_eq!(a.groups, 65);
}

#[test]
fn configure_reports_strict_check_failure_without_aborting() {
    let r = configure_outcome(Err(95), Ok(()));
    assert_eq!(r, Ok(nlmon::pipeline::SetupReport { strict_check_error: Some(95) }));
}

#[test]
fn configure_fails_on_bind_error() {
    let r = configure_outcome(Ok(()), Err(13));
    assert_eq!(r, Err(SocketError::Bind(13)));
    // A bind failure is fatal even when the strict check also failed.
    let r = configure_outcome(Err(95), Err(13));
    assert_eq!(r, Err(SocketError::Bind(13)));
}

#[test]
fn configure_clean_run_reports_nothing() {
    let r = configure_outcome(Ok(()), Ok(()));
    assert_eq!(r, Ok(nlmon::pipeline::SetupReport { strict_check_error: None }));
}

#[test]
fn empty_open_queue_is_pending() {
    let mut q = EventQueue::new();
    assert!(matches!(q.next(), QueuePoll::Pending));
    assert!(matches!(q.next(), QueuePoll::Pending));
}

#[test]
fn closed_empty_queue_is_end_of_stream_forever() {
    let mut q = EventQueue::new();
    q.close();
    assert!(matches!(q.next(), QueuePoll::EndOfStream));
    assert!(matches!(q.next(), QueuePoll::EndOfStream));
}

#[test]
fn scenario_link_then_route_in_order() {
    // Scenario A: subscribe link + IPv4 route, bind succeeds, the
    // kernel emits one link event then one route event.
    let mask = build_mask(&vec![RTNLGRP_LINK, RTNLGRP_IPV4_ROUTE]);
    assert_eq!(mask, 65);

    let mut p = Pipeline::start(Ok(()), Ok(()));
    assert_eq!(p.driver, DriverState::Running);
    assert_eq!(p.strict_check_error, None);
    assert_eq!(p.bind_error, None);

    p.on_socket_poll(SocketPoll::Datagram(event(1)));
    p.on_socket_poll(SocketPoll::Datagram(event(2)));

    expect_event(p.next_event(), 1);
    expect_event(p.next_event(), 2);
    assert!(matches!(p.next_event(), QueuePoll::Pending));
}

#[test]
fn scenario_strict_check_failure_still_delivers() {
    // Scenario B: the strict-check option fails; the bind still goes
    // through and events still flow; the warning is recorded.
    let mut p = Pipeline::start(Err(95), Ok(()));
    assert_eq!(p.strict_check_error, Some(95));
    assert_eq!(p.bind_error, None);
    assert_eq!(p.driver, DriverState::Running);

    p.on_socket_poll(SocketPoll::Datagram(event(7)));
    expect_event(p.next_event(), 7);
}

#[test]
fn scenario_bind_failure_delivers_nothing() {
    // Scenario C: the bind fails (permission denied); the failure is
    // surfaced and the consumer immediately sees end of stream.
    let r = configure_outcome(Ok(()), Err(13));
    assert_eq!(r, Err(SocketError::Bind(13)));

    let mut p = Pipeline::start(Ok(()), Err(13));
    assert_eq!(p.bind_error, Some(13));
    assert_eq!(p.driver, DriverState::Terminated);
    assert!(matches!(p.next_event(), QueuePoll::EndOfStream));
    assert!(matches!(p.next_event(), QueuePoll::EndOfStream));
}

#[test]
fn scenario_close_after_n_events() {
    // Scenario D: the socket closes after three events; the consumer
    // sees exactly those three, then exactly end of stream, forever.
    let mut p = Pipeline::start(Ok(()), Ok(()));
    p.on_socket_poll(SocketPoll::Datagram(event(1)));
    p.on_socket_poll(SocketPoll::Datagram(event(2)));
    p.on_socket_poll(SocketPoll::Datagram(event(3)));
    p.on_socket_poll(SocketPoll::Closed);
    assert_eq!(p.driver, DriverState::Terminated);

    expect_event(p.next_event(), 1);
    expect_event(p.next_event(), 2);
    expect_event(p.next_event(), 3);
    assert!(matches!(p.next_event(), QueuePoll::EndOfStream));
    assert!(matches!(p.next_event(), QueuePoll::EndOfStream));
}

#[test]
fn connection_failure_ends_stream_not_error() {
    // A transport-level failure reaches the consumer only as end of
    // stream, never as an error of its own.
    let mut p = Pipeline::start(Ok(()), Ok(()));
    p.on_socket_poll(SocketPoll::Datagram(event(9)));
    p.on_socket_poll(SocketPoll::Failed(104));
    assert_eq!(p.driver, DriverState::Terminated);
    expect_event(p.next_event(), 9);
    assert!(matches!(p.next_event(), QueuePoll::EndOfStream));
}

#[test]
fn slow_consumer_loses_nothing() {
    // Backpressure: under the unbounded policy the queue grows while
    // the consumer lags, and every produced event is delivered, in
    // order.
    let total: usize = 1000;
    let mut p = Pipeline::start(Ok(()), Ok(()));
    for i in 0..total {
        p.on_socket_poll(SocketPoll::Datagram(InboundEvent {
            payload: vec![(i % 251) as u8],
            sender: KernelSocketAddress { port_id: 0, groups: 0 },
        }));
    }
    p.on_socket_poll(SocketPoll::Closed);

    let mut delivered: usize = 0;
    loop {
        match p.next_event() {
            QueuePoll::Event(e) => {
                assert_eq!(e.payload, vec![(delivered % 251) as u8]);
                delivered += 1;
            }
            QueuePoll::Pending => panic!("a closed queue never goes pending"),
            QueuePoll::EndOfStream => break,
        }
    }
    assert_eq!(delivered, total);
}
