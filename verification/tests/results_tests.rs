use std::sync::{Arc, Mutex};

use driver_service_integration_tests::results::{
    generate_test_id, CleanupTracker, LoadTestConfig, PerformanceMeasurement, TestResults,
};

fn success_rate(results: &TestResults) -> f64 {
    let total = results.total_tests();
    if total == 0 {
        0.0
    } else {
        results.passed.len() as f64 / total as f64
    }
}

#[test]
fn success_rate_fresh_and_one_of_each() {
    let mut results = TestResults::new();
    assert_eq!(results.total_tests(), 0);
    assert_eq!(success_rate(&results), 0.0);
    results.add_pass("a");
    results.add_fail("b", "x");
    results.add_skip("c");
    assert_eq!(results.total_tests(), 3);
    assert_eq!(results.passed.len(), 1);
    assert_eq!(results.failed.len(), 1);
    assert_eq!(results.skipped.len(), 1);
    assert_eq!(results.passed[0], "a");
    assert_eq!(results.failed[0], ("b".to_string(), "x".to_string()));
    assert_eq!(results.skipped[0], "c");
    assert_eq!(success_rate(&results), 1.0 / 3.0);
}

#[test]
fn operations_per_second_for_two_seconds() {
    let m = PerformanceMeasurement {
        name: "batch".to_string(),
        start_nanos: 0,
        end_nanos: Some(2_000_000_000),
        operations: 100,
    };
    let elapsed_nanos = m.duration();
    assert_eq!(elapsed_nanos, 2_000_000_000);
    let elapsed_secs = elapsed_nanos as f64 / 1_000_000_000.0;
    let ops_per_second = if elapsed_secs > 0.0 { m.operations as f64 / elapsed_secs } else { 0.0 };
    assert_eq!(ops_per_second, 50.0);
}

#[test]
fn zero_elapsed_guards_division() {
    let m = PerformanceMeasurement {
        name: "instant".to_string(),
        start_nanos: 7,
        end_nanos: Some(7),
        operations: 100,
    };
    assert_eq!(m.duration(), 0);
    let elapsed_secs = m.duration() as f64 / 1_000_000_000.0;
    let ops_per_second = if elapsed_secs > 0.0 { m.operations as f64 / elapsed_secs } else { 0.0 };
    assert_eq!(ops_per_second, 0.0);
}

#[test]
fn measurement_start_and_finish() {
    let mut m = PerformanceMeasurement::start("timed", 10);
    assert_eq!(m.name, "timed");
    assert_eq!(m.operations, 10);
    assert!(m.end_nanos.is_none());
    let elapsed = m.finish();
    assert!(m.end_nanos.is_some());
    assert_eq!(m.duration(), elapsed);
}

#[test]
fn concurrent_passes_lose_no_update() {
    let rt = tokio::runtime::Runtime::new().unwrap();
    let k = 32usize;
    let results = Arc::new(Mutex::new(TestResults::new()));
    rt.block_on(async {
        let mut handles = Vec::new();
        for i in 0..k {
            let shared = results.clone();
            handles.push(tokio::spawn(async move {
                shared.lock().unwrap().add_pass(&format!("task-{}", i));
            }));
        }
        for h in handles {
            h.await.unwrap();
        }
    });
    let results = results.lock().unwrap();
    assert_eq!(results.passed.len(), k);
    for i in 0..k {
        let name = format!("task-{}", i);
        assert_eq!(
            results.passed.iter().filter(|n| **n == name).count(),
            1,
            "each name must be present exactly once"
        );
    }
}

#[test]
fn merge_concatenates_each_category() {
    let mut left = TestResults::new();
    left.add_pass("a");
    left.add_fail("b", "broken");
    let mut right = TestResults::new();
    right.add_pass("c");
    right.add_skip("d");
    left.merge(right);
    assert_eq!(left.passed, vec!["a".to_string(), "c".to_string()]);
    assert_eq!(left.failed, vec![("b".to_string(), "broken".to_string())]);
    assert_eq!(left.skipped, vec!["d".to_string()]);
    assert_eq!(left.total_tests(), 4);
}

#[test]
fn summary_lines_render_counts_and_failures() {
    let mut results = TestResults::new();
    results.add_pass("a");
    results.add_fail("b", "timeout waiting for event");
    results.add_skip("c");
    let mut m = PerformanceMeasurement::start("batch", 100);
    m.finish();
    results.add_measurement(m);
    let lines = results.summary_lines();
    assert_eq!(lines.len(), 7);
    assert_eq!(lines[0], "Test Results Summary:");
    assert_eq!(lines[1], "  Total: 3");
    assert_eq!(lines[2], "  Passed: 1");
    assert_eq!(lines[3], "  Failed: 1");
    assert_eq!(lines[4], "  Skipped: 1");
    assert_eq!(lines[5], "  b - timeout waiting for event");
    assert_eq!(lines[6], "  batch - 100 ops");
    results.print_summary();
}

#[test]
fn load_test_config_defaults() {
    let c = LoadTestConfig::default();
    assert_eq!(c.concurrent_users, 10);
    assert_eq!(c.duration_secs, 60);
    assert_eq!(c.ramp_up_secs, 10);
    assert_eq!(c.operations_per_user, 100);
}

#[test]
fn cleanup_tracker_counts_everything_tracked() {
    let mut t = CleanupTracker::new();
    assert_eq!(t.cleanup_count(), 0);
    t.track_driver(1);
    t.track_driver(2);
    t.track_location(3);
    t.track_shift(4);
    t.track_rating(5);
    t.track_redis_key("driver:1:location".to_string());
    assert_eq!(t.cleanup_count(), 6);
    assert_eq!(t.drivers_to_cleanup, vec![1, 2]);
    assert_eq!(t.redis_keys_to_cleanup, vec!["driver:1:location".to_string()]);
}

#[test]
fn generated_test_ids_carry_prefix_and_are_fresh() {
    let a = generate_test_id("driver");
    let b = generate_test_id("driver");
    assert_eq!(a.len(), "driver".len() + 33);
    assert!(a.starts_with("driver_"));
    assert!(b.starts_with("driver_"));
    assert_ne!(a, b, "two generated identifiers must differ");
}
