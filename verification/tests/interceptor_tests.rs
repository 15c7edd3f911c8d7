use dstate::sim::interceptor::{
    CorruptBytes, DelayTicks, DropAll, DropRate, DuplicateAll, InterceptAction, InterceptContext,
    NetworkInterceptor, Partition, PassThrough,
};
use dstate::NodeId;

/// Drops messages with the given probability: the threshold is the least hash whose share of
/// the range is not below `rate`.
fn drop_rate(rate: f64, seed: u64) -> DropRate {
    assert!((0.0..=1.0).contains(&rate), "rate must be in [0.0, 1.0]");
    let mut low: u128 = 0;
    let mut high: u128 = 1 << 64;
    while low < high {
        let mid = (low + high) / 2;
        if ((mid as u64) as f64) / (u64::MAX as f64) < rate {
            low = mid + 1;
        } else {
            high = mid;
        }
    }
    DropRate::with_threshold(low, seed)
}

fn ctx(tick: u64, msg_id: u64) -> InterceptContext {
    InterceptContext {
        current_tick: tick,
        message_id: msg_id,
        rng_seed: 42,
    }
}

#[test]
fn passthrough_delivers() {
    let mut p = PassThrough;
    let action = p.intercept(NodeId(1), NodeId(2), b"hello", &ctx(0, 0));
    assert!(matches!(action, InterceptAction::Deliver(d) if d == b"hello"));
}

#[test]
fn drop_all_drops() {
    let mut d = DropAll;
    let action = d.intercept(NodeId(1), NodeId(2), b"hello", &ctx(0, 0));
    assert!(matches!(action, InterceptAction::Drop));
}

#[test]
fn drop_rate_deterministic() {
    let mut dr = drop_rate(0.5, 12345);
    let mut dropped = 0;
    let mut delivered = 0;
    for i in 0..100 {
        match dr.intercept(NodeId(1), NodeId(2), b"x", &ctx(0, i)) {
            InterceptAction::Drop => dropped += 1,
            InterceptAction::Deliver(_) => delivered += 1,
            _ => panic!("unexpected action"),
        }
    }
    assert!(dropped > 0 && delivered > 0, "should have both drops and deliveries");

    // Run again with same seed — should produce same results
    let mut dr2 = drop_rate(0.5, 12345);
    let mut dropped2 = 0;
    for i in 0..100 {
        if matches!(dr2.intercept(NodeId(1), NodeId(2), b"x", &ctx(0, i)), InterceptAction::Drop) {
            dropped2 += 1;
        }
    }
    assert_eq!(dropped, dropped2, "same seed must produce same results");
}

#[test]
fn symmetric_partition() {
    let mut p = Partition::symmetric(vec![NodeId(1)], vec![NodeId(2)]);
    // A→B blocked
    assert!(matches!(
        p.intercept(NodeId(1), NodeId(2), b"x", &ctx(0, 0)),
        InterceptAction::Drop
    ));
    // B→A also blocked
    assert!(matches!(
        p.intercept(NodeId(2), NodeId(1), b"x", &ctx(0, 1)),
        InterceptAction::Drop
    ));
    // A→C not blocked
    assert!(matches!(
        p.intercept(NodeId(1), NodeId(3), b"x", &ctx(0, 2)),
        InterceptAction::Deliver(_)
    ));
}

#[test]
fn asymmetric_partition() {
    let mut p = Partition::asymmetric(vec![NodeId(1)], vec![NodeId(2)]);
    // A→B blocked
    assert!(matches!(
        p.intercept(NodeId(1), NodeId(2), b"x", &ctx(0, 0)),
        InterceptAction::Drop
    ));
    // B→A allowed
    assert!(matches!(
        p.intercept(NodeId(2), NodeId(1), b"x", &ctx(0, 1)),
        InterceptAction::Deliver(_)
    ));
}

#[test]
fn delay_ticks() {
    let mut d = DelayTicks(3);
    let action = d.intercept(NodeId(1), NodeId(2), b"x", &ctx(0, 0));
    assert!(matches!(action, InterceptAction::Delay { ticks: 3, .. }));
}

#[test]
fn duplicate_all() {
    let mut d = DuplicateAll;
    let action = d.intercept(NodeId(1), NodeId(2), b"x", &ctx(0, 0));
    match action {
        InterceptAction::DeliverMany(copies) => {
            assert_eq!(copies.len(), 2);
            assert_eq!(copies[0], copies[1]);
        }
        _ => panic!("expected DeliverMany"),
    }
}

#[test]
fn corrupt_bytes_flips_bit() {
    let mut c = CorruptBytes::new(42);
    let original = b"hello world";
    let action = c.intercept(NodeId(1), NodeId(2), original, &ctx(0, 0));
    match action {
        InterceptAction::Deliver(bytes) => {
            assert_ne!(bytes.as_slice(), original);
            // Exactly one bit should differ
            let diff_count: u32 = bytes
                .iter()
                .zip(original.iter())
                .map(|(a, b)| (a ^ b).count_ones())
                .sum();
            assert_eq!(diff_count, 1);
        }
        _ => panic!("expected Deliver"),
    }
}
