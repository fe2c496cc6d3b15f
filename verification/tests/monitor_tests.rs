use kontrocode::monitor::{HealthMonitor, LatencyRecord};

fn rec(model: &str, latency_ms: u64, success: bool) -> LatencyRecord {
    LatencyRecord {
        model: model.to_string(),
        latency_ms,
        success,
        timestamp: 1_700_000_000_000,
        tokens_input: 10,
        tokens_output: 20,
    }
}

#[test]
fn p95_is_taken_from_successful_requests() {
    let mut m = HealthMonitor::new();
    for ms in [50u64, 10, 40, 30, 20] {
        m.record(rec("a", ms, true));
    }
    m.record(rec("a", 999, false));
    m.record(rec("b", 5, true));
    // five latencies: 95% of 5 is 4, so the fourth smallest
    assert_eq!(m.p95_latency("a"), 40);
    assert_eq!(m.p95_latency("b"), 5);
    assert_eq!(m.p95_latency("c"), 0);
    let mut big = HealthMonitor::new();
    for ms in 1..=20u64 {
        big.record(rec("x", ms, true));
    }
    assert_eq!(big.p95_latency("x"), 19);
}

#[test]
fn average_counts_every_request() {
    let mut m = HealthMonitor::new();
    m.record(rec("a", 10, true));
    m.record(rec("a", 21, false));
    m.record(rec("b", 100, true));
    assert_eq!(m.avg_latency("a"), 15);
    assert_eq!(m.avg_latency("none"), 0);
}

#[test]
fn health_follows_the_last_request() {
    let mut m = HealthMonitor::new();
    assert!(m.is_healthy("a"));
    m.record(rec("a", 10, false));
    m.record(rec("b", 10, true));
    assert!(!m.is_healthy("a"));
    m.record(rec("a", 10, true));
    assert!(m.is_healthy("a"));
}

#[test]
fn csv_lists_every_request() {
    let mut m = HealthMonitor::new();
    m.record(rec("a", 12, true));
    assert_eq!(
        m.export_csv(),
        "timestamp,model,latency_ms,success,tokens_in,tokens_out\n2023-11-14T22:13:20,a,12,true,10,20\n"
    );
}
