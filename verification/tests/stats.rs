use service_endpoint::stats::{Endpoints, Inner, Schema, ServiceError, Stats};

const MS: u64 = 1_000_000;

fn entry(name: &str) -> Inner {
    Inner::new(
        "io.nats.micro.v1.stats".to_string(),
        name.to_string(),
        name.to_string(),
        Vec::new(),
        String::new(),
        None,
    )
}

fn snap(reg: &Endpoints, name: &str) -> Stats {
    reg.snapshot(name).expect("endpoint should be registered")
}

#[test]
fn recording_accumulates_and_averages() {
    let mut reg = Endpoints::new();
    reg.register(entry("orders.process"));
    let s0 = snap(&reg, "orders.process");
    assert_eq!(s0.requests, 0);
    assert_eq!(s0.errors, 0);
    assert_eq!(s0.processing_time, 0);
    assert_eq!(s0.average_processing_time, 0);
    assert!(s0.last_error.is_none());

    assert!(reg.record("orders.process", 50 * MS, None));
    let s1 = snap(&reg, "orders.process");
    assert_eq!(s1.requests, 1);
    assert_eq!(s1.errors, 0);
    assert_eq!(s1.processing_time, 50 * MS);
    assert_eq!(s1.average_processing_time, 50 * MS);

    assert!(reg.record("orders.process", 150 * MS, None));
    let s2 = snap(&reg, "orders.process");
    assert_eq!(s2.requests, 2);
    assert_eq!(s2.processing_time, 200 * MS);
    assert_eq!(s2.average_processing_time, 100 * MS);
}

#[test]
fn errors_are_counted_and_last_error_is_kept() {
    let mut reg = Endpoints::new();
    reg.register(entry("orders.process"));
    let failure = ServiceError { code: 500, message: "boom".to_string() };
    assert!(reg.record("orders.process", 10, Some(failure)));
    let s1 = snap(&reg, "orders.process");
    assert_eq!(s1.requests, 1);
    assert_eq!(s1.errors, 1);
    let recorded = s1.last_error.expect("an error was recorded");
    assert_eq!(recorded.code, 500);
    assert_eq!(recorded.message, "boom");
    // A later success increments requests but neither clears the last error
    // nor touches the error count.
    assert!(reg.record("orders.process", 10, None));
    let s2 = snap(&reg, "orders.process");
    assert_eq!(s2.requests, 2);
    assert_eq!(s2.errors, 1);
    assert!(s2.last_error.is_some());
}

#[test]
fn unknown_endpoint_is_reported_not_fatal() {
    let mut reg = Endpoints::new();
    reg.register(entry("a"));
    assert!(reg.snapshot("missing").is_none());
    assert!(!reg.record("missing", 10, None));
    // The failed recording left the registry untouched.
    let s = snap(&reg, "a");
    assert_eq!(s.requests, 0);
    assert_eq!(reg.len(), 1);
}

#[test]
fn reregistering_overwrites_without_duplicating() {
    let mut reg = Endpoints::new();
    reg.register(entry("a"));
    reg.register(entry("b"));
    assert!(reg.record("a", 10, None));
    reg.register(entry("a"));
    assert_eq!(reg.len(), 2);
    let s = snap(&reg, "a");
    assert_eq!(s.requests, 0);
    let all = reg.snapshot_all();
    assert_eq!(all.len(), 2);
    assert_eq!(all[0].name, "a");
    assert_eq!(all[1].name, "b");
}

#[test]
fn snapshot_all_lists_registration_order() {
    let mut reg = Endpoints::new();
    for name in ["gamma", "alpha", "beta"] {
        reg.register(entry(name));
    }
    let names: Vec<String> = reg.snapshot_all().into_iter().map(|s| s.name).collect();
    assert_eq!(names, vec!["gamma", "alpha", "beta"]);
}

#[test]
fn snapshots_are_point_in_time_copies() {
    let mut reg = Endpoints::new();
    reg.register(entry("a"));
    assert!(reg.record("a", 40, None));
    let before = snap(&reg, "a");
    assert!(reg.record("a", 60, None));
    assert_eq!(before.requests, 1);
    assert_eq!(before.processing_time, 40);
    let after = snap(&reg, "a");
    assert_eq!(after.requests, 2);
    assert_eq!(after.processing_time, 100);
}

#[test]
fn counters_saturate_instead_of_wrapping() {
    let mut reg = Endpoints::new();
    reg.register(entry("a"));
    assert!(reg.record("a", u64::MAX, None));
    assert!(reg.record("a", u64::MAX, None));
    let s = snap(&reg, "a");
    assert_eq!(s.requests, 2);
    assert_eq!(s.processing_time, u64::MAX);
    assert_eq!(s.average_processing_time, u64::MAX / 2);
}

#[test]
fn invariant_holds_at_every_observation_point() {
    let mut reg = Endpoints::new();
    reg.register(entry("a"));
    reg.register(entry("b"));
    let runs: [(&str, u64, Option<u64>); 6] = [
        ("a", 30, None),
        ("b", 7, Some(404)),
        ("a", 0, Some(500)),
        ("a", 12, None),
        ("b", 1000, None),
        ("b", 3, Some(400)),
    ];
    for (name, duration, failure) in runs {
        let failure = failure.map(|code| ServiceError { code, message: "failed".to_string() });
        assert!(reg.record(name, duration, failure));
        for s in reg.snapshot_all() {
            assert!(s.errors <= s.requests);
            let expected = if s.requests == 0 { 0 } else { s.processing_time / s.requests as u64 };
            assert_eq!(s.average_processing_time, expected);
        }
    }
}

#[test]
fn projection_copies_counters_and_drops_schema() {
    let schema = Schema {
        request: "application/json".to_string(),
        response: "application/json".to_string(),
    };
    let mut e = Inner::new(
        "io.nats.micro.v1.stats".to_string(),
        "orders.process".to_string(),
        "orders.process".to_string(),
        vec![("team".to_string(), "payments".to_string())],
        "custom".to_string(),
        Some(schema.clone()),
    );
    e.requests = 3;
    e.errors = 1;
    e.processing_time = 90;
    e.average_processing_time = 30;
    e.last_error = Some(ServiceError { code: 400, message: "bad".to_string() });
    let s = Stats::from_entry(&e);
    assert_eq!(s.kind, "io.nats.micro.v1.stats");
    assert_eq!(s.name, "orders.process");
    assert_eq!(s.subject, "orders.process");
    assert_eq!(s.metadata, vec![("team".to_string(), "payments".to_string())]);
    assert_eq!(s.requests, 3);
    assert_eq!(s.errors, 1);
    assert_eq!(s.processing_time, 90);
    assert_eq!(s.average_processing_time, 30);
    assert_eq!(s.last_error.unwrap().code, 400);
    assert_eq!(s.data, "custom");
    assert_eq!(e.schema, Some(schema));
}

#[test]
fn consistency_check_matches_the_counters() {
    let fresh = entry("a");
    assert!(fresh.consistent());
    let mut broken = entry("a");
    broken.errors = 1;
    assert!(!broken.consistent());
    let mut stale_average = entry("a");
    stale_average.requests = 2;
    stale_average.processing_time = 100;
    stale_average.average_processing_time = 49;
    assert!(!stale_average.consistent());
}
