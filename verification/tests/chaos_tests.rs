//! Chaos / fault injection tests — CHAOS-01 through CHAOS-06
//!
//! These verify system resilience under adverse network conditions using
//! MockCluster + interceptors for determinism.

use std::sync::Arc;

use dstate::sim::cluster::MockCluster;
use dstate::sim::interceptor::{DelayTicks, DropRate, Partition};
use dstate::sim::test_codec::test_codec;
use dstate::test_support::test_clock::TestClock;
use dstate::test_support::test_state::TestState;
use dstate::{
    DeserializeError, DistributedState, DistributedStateEngine, Duration, NodeId, StateConfig,
    SyncStrategy, SyncUrgency,
};

type Serialize<V> = Box<dyn Fn(&V) -> Vec<u8>>;
type Deserialize<V> = Box<dyn Fn(&[u8], u32) -> Result<V, DeserializeError>>;
type ApplyDelta<V> = Box<dyn Fn(&[u8], u32, &V) -> Result<V, DeserializeError>>;
type Engine<S, V> = DistributedStateEngine<
    S,
    V,
    Arc<TestClock>,
    Serialize<V>,
    Deserialize<V>,
    ApplyDelta<V>,
>;
type Cluster<S, V> =
    MockCluster<S, V, Arc<TestClock>, Serialize<V>, Deserialize<V>, ApplyDelta<V>>;

/// An engine whose functions are boxed.
fn build_engine<S, V>(
    name: &str,
    node_id: NodeId,
    initial: S,
    project: impl FnOnce(&S) -> V,
    config: StateConfig,
    wire_version: u32,
    clock: Arc<TestClock>,
    serialize: impl Fn(&V) -> Vec<u8> + 'static,
    deserialize: impl Fn(&[u8], u32) -> Result<V, DeserializeError> + 'static,
    apply_delta: Option<ApplyDelta<V>>,
) -> Engine<S, V> {
    DistributedStateEngine::new(
        name,
        node_id,
        initial,
        project,
        config,
        wire_version,
        clock,
        Box::new(serialize),
        Box::new(deserialize),
        apply_delta,
    )
}

/// Drops messages with the given probability: the threshold is the least hash whose share of
/// the range is not below `rate`.
fn drop_rate(rate: f64, seed: u64) -> DropRate {
    assert!((0.0..=1.0).contains(&rate), "rate must be in [0.0, 1.0]");
    let mut low: u128 = 0;
    let mut high: u128 = 1 << 64;
    while low < high {
        let mid = (low + high) / 2;
        if ((mid as u64) as f64) / (u64::MAX as f64) < rate {
            low = mid + 1;
        } else {
            high = mid;
        }
    }
    DropRate::with_threshold(low, seed)
}

fn active_push_config() -> StateConfig {
    StateConfig {
        sync_strategy: SyncStrategy::active_push(),
        ..StateConfig::default()
    }
}

fn node(i: u64) -> NodeId {
    NodeId(i)
}

// ── CHAOS-01: Random network delays ─────────────────────────────
//
// We use DelayTicks to add extra latency. The system should converge
// even when messages arrive late.

#[test]
fn chaos_01_delayed_messages_converge() {
    let mut cluster = MockCluster::with_test_state(3, active_push_config(), test_codec);

    // Add a 5-tick delay to all messages
    cluster
        .transport_mut()
        .add_interceptor(Box::new(DelayTicks(5)));

    // Mutate on node 0
    cluster.mutate(
        node(0),
        |s| s.counter = 42,
        |s| s.clone(),
        SyncUrgency::Default,
    );

    // Tick a few times — not enough for delivery
    cluster.tick_n(3);

    // Node 1 shouldn't have the update yet (delay = 5 extra ticks)
    let snap = cluster.engine(node(1)).snapshot();
    assert_eq!(
        snap.get(&node(0)).map(|v| v.value.counter).unwrap_or(0),
        0,
        "message should not arrive before delay expires"
    );

    // Settle — all delayed messages will be delivered
    cluster.settle().expect("the cluster settles");

    // Now all nodes converge
    for i in 1..3 {
        let snap = cluster.engine(node(i)).snapshot();
        assert_eq!(snap.get(&node(0)).unwrap().value.counter, 42);
    }
}

// ── CHAOS-02: Packet loss (10% drop rate) ───────────────────────

#[test]
fn chaos_02_packet_loss_recovery() {
    let mut cluster = MockCluster::with_test_state(3, active_push_config(), test_codec);

    cluster
        .transport_mut()
        .add_interceptor(Box::new(drop_rate(0.1, 12345)));

    // Perform many mutations — with active_push, each mutation broadcasts
    // a snapshot. Even with 10% loss, later snapshots carry latest state.
    for i in 1..=100 {
        cluster.mutate(
            node(0),
            move |s| s.counter = i,
            |s| s.clone(),
            SyncUrgency::Default,
        );
    }

    cluster.settle().expect("the cluster settles");

    // Peers should converge to the latest value, or close to it,
    // because each snapshot carries the full state — even if some were
    // dropped, later ones will deliver the latest value.
    for i in 1..3 {
        let snap = cluster.engine(node(i)).snapshot();
        let val = snap.get(&node(0)).unwrap().value.counter;
        assert!(
            val >= 90,
            "node {i} should converge close to 100, got {val}"
        );
    }
}

// ── CHAOS-03: Node crash and rejoin ─────────────────────────────

#[test]
fn chaos_03_node_crash_rejoin() {
    let clock = Arc::new(TestClock::with_base_unix_ms(1_000_000));
    let tick_duration = Duration::from_millis(100);
    let mut cluster: Cluster<TestState, TestState> =
        MockCluster::new(clock.clone(), tick_duration, 42);

    // Build 3 nodes manually
    for i in 0..3 {
        let engine = build_engine(
            TestState::name(),
            node(i),
            TestState::default(),
            |s| s.clone(),
            active_push_config(),
            TestState::WIRE_VERSION,
            clock.clone(),
            |v: &TestState| v.serialize_state(),
            |b: &[u8], v: u32| {
                if v != TestState::WIRE_VERSION {
                    return Err(DeserializeError::unknown_version(v));
                }
                TestState::deserialize_state(b, TestState::WIRE_VERSION)
            },
            None,
        );
        cluster.add_node(engine, TestState::default());
    }

    // Mutate node 0 and settle
    cluster.mutate(
        node(0),
        |s| s.counter = 100,
        |s| s.clone(),
        SyncUrgency::Default,
    );
    cluster.settle().expect("the cluster settles");

    // Crash node 1 (hard crash — loses in-flight messages)
    cluster.remove_node_hard(node(1));

    // Mutate node 0 while node 1 is down
    cluster.mutate(
        node(0),
        |s| s.counter = 200,
        |s| s.clone(),
        SyncUrgency::Default,
    );
    cluster.settle().expect("the cluster settles");

    // Node 2 should have the update
    let snap = cluster.engine(node(2)).snapshot();
    assert_eq!(snap.get(&node(0)).unwrap().value.counter, 200);

    // Rejoin node 1 with new incarnation (simulates restart)
    let new_engine = build_engine(
        TestState::name(),
        node(1),
        TestState::default(), // fresh state — lost everything
        |s| s.clone(),
        active_push_config(),
        TestState::WIRE_VERSION,
        clock.clone(),
        |v: &TestState| v.serialize_state(),
        |b: &[u8], v: u32| {
            if v != TestState::WIRE_VERSION {
                return Err(DeserializeError::unknown_version(v));
            }
            TestState::deserialize_state(b, TestState::WIRE_VERSION)
        },
        None,
    );
    cluster.add_node(new_engine, TestState::default());
    cluster.settle().expect("the cluster settles");

    // Rejoined node 1 should see node 0's latest value
    let snap = cluster.engine(node(1)).snapshot();
    assert_eq!(snap.get(&node(0)).unwrap().value.counter, 200);
}

// ── CHAOS-04: Rapid join/leave cycles ───────────────────────────

#[test]
fn chaos_04_rapid_join_leave() {
    let clock = Arc::new(TestClock::with_base_unix_ms(1_000_000));
    let tick_duration = Duration::from_millis(100);
    let mut cluster: Cluster<TestState, TestState> =
        MockCluster::new(clock.clone(), tick_duration, 42);

    // Stable nodes 0 and 1
    for i in 0..2 {
        let engine = build_engine(
            TestState::name(),
            node(i),
            TestState::default(),
            |s| s.clone(),
            active_push_config(),
            TestState::WIRE_VERSION,
            clock.clone(),
            |v: &TestState| v.serialize_state(),
            |b: &[u8], v: u32| {
                if v != TestState::WIRE_VERSION {
                    return Err(DeserializeError::unknown_version(v));
                }
                TestState::deserialize_state(b, TestState::WIRE_VERSION)
            },
            None,
        );
        cluster.add_node(engine, TestState::default());
    }

    // Rapidly join and leave node 2 ten times
    for cycle in 0..10u64 {
        let engine = build_engine(
            TestState::name(),
            node(2),
            TestState { counter: cycle + 1, label: format!("cycle-{cycle}") },
            |s| s.clone(),
            active_push_config(),
            TestState::WIRE_VERSION,
            clock.clone(),
            |v: &TestState| v.serialize_state(),
            |b: &[u8], v: u32| {
                if v != TestState::WIRE_VERSION {
                    return Err(DeserializeError::unknown_version(v));
                }
                TestState::deserialize_state(b, TestState::WIRE_VERSION)
            },
            None,
        );
        cluster.add_node(engine, TestState::default());
        cluster.tick_n(2);
        cluster.remove_node(node(2));
    }

    cluster.settle().expect("the cluster settles");

    // Stable nodes should NOT have ghost entries for the departed node
    let snap = cluster.engine(node(0)).snapshot();
    assert!(
        !snap.contains_key(&node(2)),
        "node 2 should have been removed from view map"
    );

    // Stable nodes should still be functional
    cluster.mutate(
        node(0),
        |s| s.counter = 999,
        |s| s.clone(),
        SyncUrgency::Default,
    );
    cluster.settle().expect("the cluster settles");
    let snap = cluster.engine(node(1)).snapshot();
    assert_eq!(snap.get(&node(0)).unwrap().value.counter, 999);
}

// ── CHAOS-05: Split-brain partition (2+3) ───────────────────────

#[test]
fn chaos_05_split_brain_partition_heal() {
    let mut cluster = MockCluster::with_test_state(5, active_push_config(), test_codec);

    // Partition: {0,1} | {2,3,4}
    let partition = Partition::symmetric(vec![node(0), node(1)], vec![node(2), node(3), node(4)]);
    cluster
        .transport_mut()
        .add_interceptor(Box::new(partition));

    // Mutate in partition A
    cluster.mutate(
        node(0),
        |s| s.counter = 100,
        |s| s.clone(),
        SyncUrgency::Default,
    );

    // Mutate in partition B
    cluster.mutate(
        node(2),
        |s| s.counter = 200,
        |s| s.clone(),
        SyncUrgency::Default,
    );

    cluster.settle().expect("the cluster settles");

    // Partition A nodes see A's mutation but not B's
    let snap_0 = cluster.engine(node(0)).snapshot();
    assert_eq!(snap_0.get(&node(0)).unwrap().value.counter, 100);
    let snap_1 = cluster.engine(node(1)).snapshot();
    assert_eq!(snap_1.get(&node(0)).unwrap().value.counter, 100);

    // Partition B nodes see B's mutation but not A's
    let snap_3 = cluster.engine(node(3)).snapshot();
    assert_eq!(snap_3.get(&node(2)).unwrap().value.counter, 200);

    // Heal partition
    cluster.transport_mut().clear_interceptors();

    // Mutate again to trigger re-sync across healed partition
    cluster.mutate(
        node(0),
        |s| s.counter = 101,
        |s| s.clone(),
        SyncUrgency::Default,
    );
    cluster.mutate(
        node(2),
        |s| s.counter = 201,
        |s| s.clone(),
        SyncUrgency::Default,
    );

    cluster.settle().expect("the cluster settles");

    // Now all nodes should see both partitions' data
    for i in 0..5 {
        let snap = cluster.engine(node(i)).snapshot();
        assert_eq!(
            snap.get(&node(0)).unwrap().value.counter, 101,
            "node {i} should see node 0's latest"
        );
        assert_eq!(
            snap.get(&node(2)).unwrap().value.counter, 201,
            "node {i} should see node 2's latest"
        );
    }
}

// ── CHAOS-06: Clock skew between nodes ──────────────────────────
//
// MockCluster uses a shared TestClock, so individual clock skew isn't
// directly modeled. However, we can verify that the system uses
// monotonic ordering (generation-based) rather than wall-clock timestamps
// for state ordering. We advance the shared clock and verify generations
// are used correctly.

#[test]
fn chaos_06_generation_ordering_independent_of_clock() {
    let clock = Arc::new(TestClock::with_base_unix_ms(1_000_000));
    let tick_duration = Duration::from_millis(100);
    let mut cluster: Cluster<TestState, TestState> =
        MockCluster::new(clock.clone(), tick_duration, 42);

    for i in 0..3 {
        let engine = build_engine(
            TestState::name(),
            node(i),
            TestState::default(),
            |s| s.clone(),
            active_push_config(),
            TestState::WIRE_VERSION,
            clock.clone(),
            |v: &TestState| v.serialize_state(),
            |b: &[u8], v: u32| {
                if v != TestState::WIRE_VERSION {
                    return Err(DeserializeError::unknown_version(v));
                }
                TestState::deserialize_state(b, TestState::WIRE_VERSION)
            },
            None,
        );
        cluster.add_node(engine, TestState::default());
    }

    // Node 0 mutates at t=0
    cluster.mutate(
        node(0),
        |s| s.counter = 1,
        |s| s.clone(),
        SyncUrgency::Default,
    );
    cluster.settle().expect("the cluster settles");

    // Advance clock by 5 seconds (simulate skew)
    clock.advance(Duration::from_secs(5));

    // Node 0 mutates again at t=5s
    cluster.mutate(
        node(0),
        |s| s.counter = 2,
        |s| s.clone(),
        SyncUrgency::Default,
    );
    cluster.settle().expect("the cluster settles");

    // All peers should have counter=2 (latest generation wins, not wall-clock)
    for i in 1..3 {
        let snap = cluster.engine(node(i)).snapshot();
        assert_eq!(snap.get(&node(0)).unwrap().value.counter, 2);
        // Generation age should be 2 (two mutations)
        assert_eq!(snap.get(&node(0)).unwrap().generation.age, 2);
    }
}
