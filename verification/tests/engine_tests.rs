use std::sync::{Arc, Mutex};
use std::time::{Duration, Instant};

use driver_service_integration_tests::events::{EventCollector, EventError, EventMessage, WaitStep};
use driver_service_integration_tests::event_helper::{order_lifecycle_plan, EventTestHelper};

fn msg(subject: &str, payload: &[u8]) -> EventMessage {
    EventMessage { subject: subject.to_string(), payload: payload.to_vec() }
}

#[test]
fn collect_preserves_publish_order() {
    let mut c = EventCollector::new("test.order".to_string());
    let n = 50usize;
    for i in 0..n {
        c.deliver(msg("test.order", format!("payload-{}", i).as_bytes()));
    }
    let drained = c.drain_pending();
    assert_eq!(drained.len(), n);
    for i in 0..n {
        assert_eq!(drained[i].payload, format!("payload-{}", i).as_bytes().to_vec());
    }
    // Nothing is left pending; the drained messages are in the collected log.
    let drained_again = c.drain_pending();
    assert_eq!(drained_again.len(), 0);
    assert_eq!(c.get_collected_events().len(), n);
}

#[test]
fn timed_collect_returns_single_publisher_messages_in_order() {
    let rt = tokio::runtime::Runtime::new().unwrap();
    let collector = Arc::new(Mutex::new(EventCollector::new("test.order"
        .to_string())));
    let publisher = collector.clone();
    let n = 20usize;
    rt.spawn(async move {
        for i in 0..n {
            publisher
                .lock()
                .unwrap()
                .deliver(msg("test.order", format!("m-{}", i).as_bytes()));
            tokio::time::sleep(Duration::from_millis(2)).await;
        }
    });
    // Drain repeatedly until the wall-clock deadline, as the runtime does.
    let collected = rt.block_on(async {
        let deadline = Instant::now() + Duration::from_millis(400);
        let mut events = Vec::new();
        loop {
            events.extend(collector.lock().unwrap().drain_pending());
            if Instant::now() >= deadline {
                break events;
            }
            tokio::time::sleep(Duration::from_millis(5)).await;
        }
    });
    assert_eq!(collected.len(), n);
    for i in 0..n {
        assert_eq!(collected[i].payload, format!("m-{}", i).as_bytes().to_vec());
    }
}

#[test]
fn wait_started_before_publish_resolves_with_it() {
    // The wait is polled before anything is published: it reports Pending,
    // not a loss.  Once the publish is forwarded, the same wait resolves
    // with exactly that event.
    let mut c = EventCollector::new("test.x".to_string());
    match c.poll_wait(0, 1_000) {
        WaitStep::Pending => {}
        _ => panic!("an empty, open collector before the deadline must suspend"),
    }
    c.deliver(msg("test.x", b"{\"v\":1}"));
    match c.poll_wait(1, 1_000) {
        WaitStep::Event(m) => {
            assert_eq!(m.subject, "test.x");
            assert_eq!(m.payload, b"{\"v\":1}".to_vec());
        }
        _ => panic!("the buffered event must resolve the wait"),
    }
}

#[test]
fn wait_resolves_across_tasks_within_timeout() {
    let rt = tokio::runtime::Runtime::new().unwrap();
    let collector = Arc::new(Mutex::new(EventCollector::new("test.x".to_string())));
    let publisher = collector.clone();
    rt.spawn(async move {
        tokio::time::sleep(Duration::from_millis(50)).await;
        publisher.lock().unwrap().deliver(msg("test.x", b"{\"v\":1}"));
    });
    let start = Instant::now();
    let deadline_ms = 5_000u64;
    let got = rt.block_on(async {
        loop {
            let step = {
                let now_ms = start.elapsed().as_millis() as u64;
                collector.lock().unwrap().poll_wait(now_ms, deadline_ms)
            };
            match step {
                WaitStep::Pending => tokio::time::sleep(Duration::from_millis(5)).await,
                other => break other,
            }
        }
    });
    match got {
        WaitStep::Event(m) => assert_eq!(m.payload, b"{\"v\":1}".to_vec()),
        _ => panic!("the published event must arrive within the timeout"),
    }
    assert!(start.elapsed() < Duration::from_secs(5));
}

#[test]
fn wait_times_out_and_collector_stays_usable() {
    let rt = tokio::runtime::Runtime::new().unwrap();
    let mut c = EventCollector::new("test.y".to_string());
    let start = Instant::now();
    let deadline_ms = 200u64;
    let outcome = rt.block_on(async {
        loop {
            let now_ms = start.elapsed().as_millis() as u64;
            match c.poll_wait(now_ms, deadline_ms) {
                WaitStep::Pending => tokio::time::sleep(Duration::from_millis(10)).await,
                other => break other,
            }
        }
    });
    let elapsed = start.elapsed();
    match outcome {
        WaitStep::TimedOut => {}
        _ => panic!("a wait with nothing published must time out"),
    }
    match WaitStep::TimedOut.resolve() {
        Err(EventError::Timeout) => {}
        _ => panic!("a timed-out wait must resolve to the timeout error"),
    }
    assert!(elapsed >= Duration::from_millis(200));
    assert!(elapsed < Duration::from_secs(3));
    // The timeout consumed nothing: the collector remains usable.
    c.deliver(msg("test.y", b"later"));
    match c.poll_wait(0, 1) {
        WaitStep::Event(m) => assert_eq!(m.payload, b"later".to_vec()),
        _ => panic!("a message delivered after a timeout must still be served"),
    }
}

#[test]
fn closed_stream_reported_after_buffer_is_drained() {
    let mut c = EventCollector::new("test.z".to_string());
    c.deliver(msg("test.z", b"one"));
    c.close();
    match c.poll_wait(0, 100) {
        WaitStep::Event(m) => assert_eq!(m.payload, b"one".to_vec()),
        _ => panic!("buffered messages survive a close"),
    }
    match c.poll_wait(0, 100) {
        WaitStep::Closed => {}
        _ => panic!("an empty, closed collector must report the closed stream"),
    }
    match WaitStep::Closed.resolve() {
        Err(EventError::StreamClosed) => {}
        _ => panic!("a closed stream must resolve to the stream-closed error"),
    }
}

#[test]
fn count_events_of_type_matches_discriminants() {
    let mut c = EventCollector::new("orders".to_string());
    c.deliver(msg("orders", br#"{"event_type":"order.assigned","order_id":"a"}"#));
    c.deliver(msg("orders", br#"{"event_type":"order.completed","order_id":"a"}"#));
    c.deliver(msg("orders", br#"{"event_type":"order.assigned","order_id":"b"}"#));
    c.deliver(msg("orders", b"not json at all"));
    c.deliver(msg("orders", br#"{"event_type":42}"#));
    let drained = c.drain_pending();
    assert_eq!(drained.len(), 5);
    // Counting is over consumed messages and does not consume anything.
    assert_eq!(c.count_events_of_type("order.assigned"), 2);
    assert_eq!(c.count_events_of_type("order.assigned"), 2);
    assert_eq!(c.count_events_of_type("order.completed"), 1);
    assert_eq!(c.count_events_of_type("payment.processed"), 0);
}

#[test]
fn named_wait_without_setup_fails_with_no_collector() {
    // A named wait on a helper that never ran subject setup always fails
    // with NoCollector; it never hangs.
    let mut helper = EventTestHelper::new();
    match helper.wait_for_driver_registered(0, 10_000) {
        Err(EventError::NoCollector) => {}
        _ => panic!("a wait on an unregistered subject must fail with NoCollector"),
    }
    match helper.wait_for_location_updated(0, 10_000) {
        Err(EventError::NoCollector) => {}
        _ => panic!("a wait on an unregistered subject must fail with NoCollector"),
    }
    match helper.poll_named("order.assigned", 0, 10_000) {
        Err(EventError::NoCollector) => {}
        _ => panic!("a wait on an unregistered subject must fail with NoCollector"),
    }
}

#[test]
fn helper_routes_messages_by_subject() {
    let mut helper = EventTestHelper::new();
    helper.setup_driver_event_collection();
    assert!(helper.deliver_to("driver.registered", msg("driver.registered", b"{\"driver_id\":\"d1\"}")));
    assert!(helper.deliver_to("driver.location.updated", msg("driver.location.updated", b"{\"lat\":1}")));
    assert!(!helper.deliver_to("unregistered.subject", msg("unregistered.subject", b"x")));
    match helper.wait_for_driver_registered(0, 100) {
        Ok(WaitStep::Event(m)) => assert_eq!(m.payload, b"{\"driver_id\":\"d1\"}".to_vec()),
        _ => panic!("the delivered registration event must be returned"),
    }
    match helper.wait_for_driver_registered(200, 100) {
        Ok(WaitStep::TimedOut) => {}
        _ => panic!("with nothing buffered and the deadline past, the wait times out"),
    }
    match helper.wait_for_location_updated(0, 100) {
        Ok(WaitStep::Event(m)) => assert_eq!(m.payload, b"{\"lat\":1}".to_vec()),
        _ => panic!("the delivered location event must be returned"),
    }
}

#[test]
fn helper_drain_and_count_by_subject() {
    let mut helper = EventTestHelper::new();
    helper.register_subject("orders");
    helper.deliver_to("orders", msg("orders", br#"{"event_type":"order.assigned"}"#));
    helper.deliver_to("orders", msg("orders", br#"{"event_type":"order.assigned"}"#));
    let drained = helper.drain_named("orders").unwrap();
    assert_eq!(drained.len(), 2);
    assert_eq!(helper.count_named("orders", "order.assigned").unwrap(), 2);
    assert!(matches!(
        helper.drain_named("nowhere"),
        Err(EventError::NoCollector)
    ));
    assert!(matches!(
        helper.count_named("nowhere", "order.assigned"),
        Err(EventError::NoCollector)
    ));
    helper.cleanup();
    assert!(matches!(
        helper.drain_named("orders"),
        Err(EventError::NoCollector)
    ));
}

#[test]
fn reregistering_a_subject_discards_its_backlog() {
    let mut helper = EventTestHelper::new();
    helper.register_subject("orders");
    helper.deliver_to("orders", msg("orders", b"stale"));
    helper.register_subject("orders");
    match helper.poll_named("orders", 500, 100) {
        Ok(WaitStep::TimedOut) => {}
        _ => panic!("a fresh collector has nothing buffered"),
    }
}

#[test]
fn every_error_variant_has_its_description() {
    assert_eq!(EventError::Transport.describe(), "transport failure");
    assert_eq!(
        EventError::Deserialization.describe(),
        "payload did not match the expected event shape"
    );
    assert_eq!(
        EventError::Timeout.describe(),
        "deadline elapsed with no matching event"
    );
    assert_eq!(EventError::StreamClosed.describe(), "event stream closed");
    assert_eq!(
        EventError::NoCollector.describe(),
        "no collector registered for the subject"
    );
}

#[test]
fn lifecycle_plan_orders_the_four_steps() {
    let plan = order_lifecycle_plan();
    assert_eq!(plan.len(), 4);
    assert_eq!(plan[0].subject, "order.assigned");
    assert_eq!(plan[0].delay_before_ms, 0);
    assert_eq!(plan[1].subject, "order.completed");
    assert_eq!(plan[1].delay_before_ms, 100);
    assert_eq!(plan[2].subject, "payment.processed");
    assert_eq!(plan[2].delay_before_ms, 0);
    assert_eq!(plan[3].subject, "customer.rated.driver");
    assert_eq!(plan[3].delay_before_ms, 0);
}
