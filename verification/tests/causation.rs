use vidodo::causation::CausalTracer;

/// The order key of a millisecond timestamp: larger timestamps get larger keys.
fn key(ms: f64) -> u64 {
    let bits = ms.to_bits();
    if bits >> 63 == 1 {
        !bits
    } else {
        bits | (1u64 << 63)
    }
}

#[test]
fn three_hop_causal_chain() {
    let mut tracer = CausalTracer::new();
    let corr = "corr-001";

    let msg1 = tracer.next_message_id();
    tracer.record(&msg1, None, corr, "scheduler", key(100.0));

    let msg2 = tracer.next_message_id();
    tracer.record(&msg2, Some(&msg1), corr, "channel", key(101.0));

    let msg3 = tracer.next_message_id();
    tracer.record(&msg3, Some(&msg2), corr, "runtime", key(103.0));

    let chain = tracer.query_chain(corr);
    assert_eq!(chain.len(), 3);
    assert_eq!(chain[0].hop, "scheduler");
    assert_eq!(chain[1].hop, "channel");
    assert_eq!(chain[2].hop, "runtime");

    assert!(chain[0].parent_id.is_none());
    assert_eq!(chain[1].parent_id.as_deref(), Some(msg1.as_str()));
    assert_eq!(chain[2].parent_id.as_deref(), Some(msg2.as_str()));

    assert_eq!(tracer.chain_depth(corr), 3);
}

#[test]
fn unknown_correlation_returns_empty() {
    let tracer = CausalTracer::new();
    assert!(tracer.query_chain("nonexistent").is_empty());
    assert_eq!(tracer.chain_depth("nonexistent"), 0);
}

#[test]
fn correlation_for_message_reverse_lookup() {
    let mut tracer = CausalTracer::new();
    let msg_id = tracer.next_message_id();
    tracer.record(&msg_id, None, "corr-99", "scheduler", key(0.0));

    assert_eq!(tracer.correlation_for_message(&msg_id), Some("corr-99"));
    assert!(tracer.correlation_for_message("no-such-msg").is_none());
}

#[test]
fn multiple_chains_independent() {
    let mut tracer = CausalTracer::new();

    let m1 = tracer.next_message_id();
    tracer.record(&m1, None, "corr-A", "scheduler", key(10.0));
    let m2 = tracer.next_message_id();
    tracer.record(&m2, Some(&m1), "corr-A", "runtime", key(12.0));

    let m3 = tracer.next_message_id();
    tracer.record(&m3, None, "corr-B", "scheduler", key(20.0));

    assert_eq!(tracer.chain_count(), 2);
    assert_eq!(tracer.chain_depth("corr-A"), 2);
    assert_eq!(tracer.chain_depth("corr-B"), 1);
    assert_eq!(tracer.total_links(), 3);
}

#[test]
fn message_ids_are_zero_padded_and_distinct() {
    let mut tracer = CausalTracer::default();
    let a = tracer.next_message_id();
    let b = tracer.next_message_id();
    assert_eq!(a, "msg-000001");
    assert_eq!(b, "msg-000002");
    assert_ne!(a, b);
}

#[test]
fn query_chain_orders_by_timestamp_and_keeps_ties_in_order() {
    let mut tracer = CausalTracer::new();
    tracer.record("m1", None, "c", "late", key(30.0));
    tracer.record("m2", None, "c", "early", key(10.0));
    tracer.record("m3", None, "c", "tie-first", key(20.0));
    tracer.record("m4", None, "c", "tie-second", key(20.0));
    let hops: Vec<&str> = tracer.query_chain("c").iter().map(|l| l.hop.as_str()).collect();
    assert_eq!(hops, vec!["early", "tie-first", "tie-second", "late"]);
}

#[test]
fn rerecording_a_message_moves_its_reverse_lookup() {
    let mut tracer = CausalTracer::new();
    tracer.record("m1", None, "c1", "scheduler", key(1.0));
    tracer.record("m1", None, "c2", "scheduler", key(2.0));
    assert_eq!(tracer.correlation_for_message("m1"), Some("c2"));
    assert_eq!(tracer.total_links(), 2);
    assert_eq!(tracer.chain_count(), 2);
}
