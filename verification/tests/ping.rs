use stalcraft_jvm_wrapper::ping::{
    clamp_timeout_ms, results_in_target_order, socket_addr_v4, PingResult, PingTarget,
    DEFAULT_TIMEOUT_MS, PING_CONCURRENCY,
};

#[test]
fn clamp_timeout_ms_bounds() {
    assert_eq!(clamp_timeout_ms(50), 100);
    assert_eq!(clamp_timeout_ms(1500), 1500);
    assert_eq!(clamp_timeout_ms(99_999), 10_000);
}

#[test]
fn socket_addr_v4_parses_literal_ip() {
    let addr = socket_addr_v4("79.127.241.67", 29450).unwrap();
    assert_eq!(addr.port(), 29450);
}

#[test]
fn socket_addr_v4_rejects_hostname() {
    assert!(socket_addr_v4("example.com", 29450).is_none());
}

// ───── further cases ─────

#[test]
fn clamp_is_idempotent() {
    for t in [0u64, 100, 101, 9_999, 10_000, 10_001, u64::MAX] {
        let c = clamp_timeout_ms(t);
        assert!((100..=10_000).contains(&c));
        assert_eq!(clamp_timeout_ms(c), c);
    }
    assert_eq!(DEFAULT_TIMEOUT_MS, 1200);
    assert_eq!(PING_CONCURRENCY, 10);
}

#[test]
fn socket_addr_trims_and_keeps_octets() {
    let a = socket_addr_v4(" 10.0.0.255 ", 1).unwrap();
    assert_eq!(a.octets(), (10, 0, 0, 255));
    assert!(socket_addr_v4("256.0.0.1", 1).is_none());
}

fn target(id: &str) -> PingTarget {
    PingTarget { id: id.to_string(), host: "127.0.0.1".to_string(), port: 1 }
}

#[test]
fn results_follow_target_order() {
    let targets = vec![target("a"), target("b"), target("c")];
    let measured = vec![
        PingResult { id: "b".into(), ms: Some(5) },
        PingResult { id: "a".into(), ms: None },
        PingResult { id: "b".into(), ms: Some(7) },
    ];
    let r = results_in_target_order(&targets, &measured);
    assert_eq!(r.len(), 3);
    assert_eq!((r[0].id.as_str(), r[0].ms), ("a", None));
    assert_eq!((r[1].id.as_str(), r[1].ms), ("b", Some(7)));
    assert_eq!((r[2].id.as_str(), r[2].ms), ("c", None));
    assert!(results_in_target_order(&[], &measured).is_empty());
}
