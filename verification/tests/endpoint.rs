use service_endpoint::endpoint::{
    Endpoint, PollEvent, PollOutcome, ShutdownPoll, ShutdownState, SourcePoll, StopError,
    TeardownStatus,
};
use service_endpoint::stats::{Endpoints, Inner};

fn event(
    shutdown: ShutdownPoll,
    source: SourcePoll<&'static str>,
    now: u64,
) -> PollEvent<&'static str> {
    PollEvent { shutdown, source, now }
}

fn expect_item(outcome: PollOutcome<&'static str>) -> (&'static str, u64, String) {
    match outcome {
        PollOutcome::Item(req) => (req.message, req.issued, req.endpoint),
        PollOutcome::Finished => panic!("stream finished instead of yielding"),
        PollOutcome::NoProgress => panic!("no progress instead of yielding"),
    }
}

#[test]
fn yields_delivered_messages_in_order() {
    let mut e = Endpoint::new("orders.process".to_string());
    let poll_began: u64 = 10;
    let s1 = e.poll_step(event(ShutdownPoll::Waiting, SourcePoll::Delivered("M1"), 10));
    assert!(!s1.send_unsubscribe);
    let (m1, issued1, name1) = expect_item(s1.outcome);
    assert_eq!(m1, "M1");
    assert_eq!(name1, "orders.process");
    assert!(issued1 >= poll_began);
    let s2 = e.poll_step(event(ShutdownPoll::Waiting, SourcePoll::Delivered("M2"), 20));
    assert!(!s2.send_unsubscribe);
    let (m2, issued2, _) = expect_item(s2.outcome);
    assert_eq!(m2, "M2");
    assert_eq!(issued2, 20);
    let s3 = e.poll_step(event(ShutdownPoll::Waiting, SourcePoll::Waiting, 30));
    assert!(matches!(s3.outcome, PollOutcome::NoProgress));
    assert!(!s3.send_unsubscribe);
}

#[test]
fn shutdown_while_blocked_sends_one_unsubscribe_then_terminates() {
    let mut e = Endpoint::new("orders.process".to_string());
    let mut sends = 0;
    // First poll arms the listener; nothing is buffered.
    let s1 = e.poll_step(event(ShutdownPoll::Waiting, SourcePoll::Waiting, 1));
    assert!(matches!(s1.outcome, PollOutcome::NoProgress));
    sends += s1.send_unsubscribe as u32;
    // The broadcast fires while the provider is still blocked.
    let s2 = e.poll_step(event(ShutdownPoll::Resolved, SourcePoll::Waiting, 2));
    assert!(matches!(s2.outcome, PollOutcome::NoProgress));
    sends += s2.send_unsubscribe as u32;
    // Many more polls, with the resolved wait never re-driven.
    for now in 3..20 {
        let s = e.poll_step(event(ShutdownPoll::Resolved, SourcePoll::Waiting, now));
        assert!(matches!(s.outcome, PollOutcome::NoProgress));
        sends += s.send_unsubscribe as u32;
    }
    assert_eq!(sends, 1);
    // The provider reports closure: the stream ends, permanently.
    let s3 = e.poll_step(event(ShutdownPoll::Waiting, SourcePoll::Closed, 20));
    assert!(matches!(s3.outcome, PollOutcome::Finished));
    assert!(!s3.send_unsubscribe);
    for now in 21..30 {
        let s = e.poll_step(event(ShutdownPoll::Waiting, SourcePoll::Delivered("late"), now));
        assert!(matches!(s.outcome, PollOutcome::Finished));
        assert!(!s.send_unsubscribe);
    }
}

#[test]
fn buffered_messages_drain_after_shutdown_fires() {
    let mut e = Endpoint::new("orders.process".to_string());
    // Arm.
    let s1 = e.poll_step(event(ShutdownPoll::Waiting, SourcePoll::Waiting, 1));
    assert!(!s1.send_unsubscribe);
    // Shutdown fires while three messages sit in the buffer: the poll that
    // fires still delivers, and so do the following ones.
    let s2 = e.poll_step(event(ShutdownPoll::Resolved, SourcePoll::Delivered("K1"), 2));
    assert!(s2.send_unsubscribe);
    assert_eq!(expect_item(s2.outcome).0, "K1");
    let s3 = e.poll_step(event(ShutdownPoll::Resolved, SourcePoll::Delivered("K2"), 3));
    assert!(!s3.send_unsubscribe);
    assert_eq!(expect_item(s3.outcome).0, "K2");
    let s4 = e.poll_step(event(ShutdownPoll::Waiting, SourcePoll::Delivered("K3"), 4));
    assert!(!s4.send_unsubscribe);
    assert_eq!(expect_item(s4.outcome).0, "K3");
    // Intake was cut off; once drained, the source closes and the stream ends.
    let s5 = e.poll_step(event(ShutdownPoll::Waiting, SourcePoll::Closed, 5));
    assert!(matches!(s5.outcome, PollOutcome::Finished));
}

#[test]
fn stop_reports_transport_failure_and_leaves_state_alone() {
    let mut e = Endpoint::new("orders.process".to_string());
    let r = e.stop(TeardownStatus::Failed);
    assert_eq!(r, Err(StopError::Unsubscribe));
    assert_eq!(
        StopError::Unsubscribe.message(),
        "failed to unsubscribe".to_string()
    );
    assert_eq!(e.state.shutdown, ShutdownState::Unarmed);
    assert!(!e.state.done);
    let ok = e.stop(TeardownStatus::Confirmed);
    assert_eq!(ok, Ok(()));
}

#[test]
fn failed_stop_leaves_the_registry_alone() {
    let mut reg = Endpoints::new();
    reg.register(Inner::new(
        "io.nats.micro.v1.stats".to_string(),
        "orders.process".to_string(),
        "orders.process".to_string(),
        Vec::new(),
        String::new(),
        None,
    ));
    assert!(reg.record("orders.process", 25, None));
    let mut e = Endpoint::new("orders.process".to_string());
    assert_eq!(e.stop(TeardownStatus::Failed), Err(StopError::Unsubscribe));
    let s = reg.snapshot("orders.process").expect("still registered");
    assert_eq!(s.requests, 1);
    assert_eq!(s.processing_time, 25);
    assert_eq!(reg.len(), 1);
}

#[test]
fn fresh_endpoint_is_unarmed_and_live() {
    let e = Endpoint::new("math.add".to_string());
    assert_eq!(e.endpoint, "math.add");
    assert_eq!(e.state.shutdown, ShutdownState::Unarmed);
    assert!(!e.state.done);
}
