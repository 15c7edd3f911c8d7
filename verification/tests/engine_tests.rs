use std::sync::Arc;

use dstate::test_support::test_clock::TestClock;
use dstate::test_support::test_state::{TestDeltaView, TestDeltaViewDelta, TestState};
use dstate::{
    BatchedChangeFeed, ChangeNotification, DeserializeError, DistributedState,
    DistributedStateEngine, Duration, EngineAction, EngineQueryResult, Generation, HealthStatus,
    NodeId, StateConfig, SyncMessage, SyncStrategy, SyncUrgency, WireMessage,
};

type Serialize<V> = Box<dyn Fn(&V) -> Vec<u8>>;
type Deserialize<V> = Box<dyn Fn(&[u8], u32) -> Result<V, DeserializeError>>;
type ApplyDelta<V> = Box<dyn Fn(&[u8], u32, &V) -> Result<V, DeserializeError>>;
type Engine<S, V> = DistributedStateEngine<
    S,
    V,
    Arc<TestClock>,
    Serialize<V>,
    Deserialize<V>,
    ApplyDelta<V>,
>;

/// An engine whose functions are boxed.
fn build_engine<S, V>(
    name: &str,
    node_id: NodeId,
    initial: S,
    project: impl FnOnce(&S) -> V,
    config: StateConfig,
    wire_version: u32,
    clock: Arc<TestClock>,
    serialize: impl Fn(&V) -> Vec<u8> + 'static,
    deserialize: impl Fn(&[u8], u32) -> Result<V, DeserializeError> + 'static,
    apply_delta: Option<ApplyDelta<V>>,
) -> Engine<S, V> {
    DistributedStateEngine::new(
        name,
        node_id,
        initial,
        project,
        config,
        wire_version,
        clock,
        Box::new(serialize),
        Box::new(deserialize),
        apply_delta,
    )
}

/// The state behind the delta-aware views: it has a field that no view shows.
#[derive(Debug, Clone, PartialEq)]
struct TestDeltaStateInner {
    counter: u64,
    label: String,
    internal_accumulator: f64,
}

impl Default for TestDeltaStateInner {
    fn default() -> Self {
        Self {
            counter: 0,
            label: String::new(),
            internal_accumulator: 0.0,
        }
    }
}

/// Application-level change description.
#[allow(dead_code)]
#[derive(Debug, Clone, PartialEq)]
struct TestDeltaChange {
    counter_delta: i64,
    new_label: Option<String>,
    accumulator_delta: f64,
}

struct TestDeltaState;

impl TestDeltaState {
    fn serialize_view(view: &TestDeltaView) -> Vec<u8> {
        view.serialize()
    }

    fn deserialize_view(bytes: &[u8], version: u32) -> Result<TestDeltaView, DeserializeError> {
        TestDeltaView::deserialize(bytes, version)
    }

    fn serialize_delta(delta: &TestDeltaViewDelta) -> Vec<u8> {
        delta.serialize()
    }

    fn deserialize_delta(
        bytes: &[u8],
        version: u32,
    ) -> Result<TestDeltaViewDelta, DeserializeError> {
        TestDeltaViewDelta::deserialize(bytes, version)
    }

    fn project_view(state: &TestDeltaStateInner) -> TestDeltaView {
        TestDeltaView {
            counter: state.counter,
            label: state.label.clone(),
        }
    }

    fn project_delta(change: &TestDeltaChange) -> TestDeltaViewDelta {
        TestDeltaViewDelta {
            counter_delta: change.counter_delta,
            new_label: change.new_label.clone(),
        }
    }

    fn apply_delta(view: &TestDeltaView, delta: &TestDeltaViewDelta) -> TestDeltaView {
        view.apply(delta)
    }
}

fn test_clock() -> Arc<TestClock> {
    Arc::new(TestClock::with_base_unix_ms(1_000_000))
}

fn make_engine(
    node_id: NodeId,
    clock: Arc<TestClock>,
) -> Engine<TestState, TestState> {
    build_engine(
        "test_state",
        node_id,
        TestState::default(),
        |s| s.clone(),
        StateConfig::default(), // ActivePush
        1,
        clock,
        |v: &TestState| v.serialize_state(),
        |b: &[u8], v: u32| {
            if v != 1 {
                return Err(DeserializeError::unknown_version(v));
            }
            TestState::deserialize_state(b, 1)
        },
        None,
    )
}

fn make_delta_engine(
    node_id: NodeId,
    clock: Arc<TestClock>,
) -> Engine<TestDeltaStateInner, TestDeltaView> {
    build_engine(
        "test_delta_state",
        node_id,
        TestDeltaStateInner::default(),
        TestDeltaState::project_view,
        StateConfig::default(),
        1,
        clock,
        TestDeltaState::serialize_view,
        TestDeltaState::deserialize_view,
        Some(Box::new(|bytes, version, current_view| {
            let delta = TestDeltaState::deserialize_delta(bytes, version)?;
            Ok(TestDeltaState::apply_delta(current_view, &delta))
        })),
    )
}

fn make_feed_engine(
    node_id: NodeId,
    clock: Arc<TestClock>,
) -> Engine<TestState, TestState> {
    build_engine(
        "test_state",
        node_id,
        TestState::default(),
        |s| s.clone(),
        StateConfig {
            sync_strategy: SyncStrategy::feed_lazy_pull(),
            ..StateConfig::default()
        },
        1,
        clock,
        |v: &TestState| v.serialize_state(),
        |b: &[u8], v: u32| {
            if v != 1 {
                return Err(DeserializeError::unknown_version(v));
            }
            TestState::deserialize_state(b, 1)
        },
        None,
    )
}

// ── Constructor tests ───────────────────────────────────────

#[test]
fn engine_initial_state() {
    let clock = test_clock();
    let engine = make_engine(NodeId(1), clock);

    assert_eq!(engine.node_id(), NodeId(1));
    assert_eq!(engine.state_name(), "test_state");
    assert_eq!(engine.view_count(), 1); // own view
    assert_eq!(engine.state().value.counter, 0);
}

// ── Mutation tests ──────────────────────────────────────────

#[test]
fn mutate_active_push_broadcasts_snapshot() {
    let clock = test_clock();
    let mut engine = make_engine(NodeId(1), clock);

    let result = engine.mutate(
        |s| {
            s.counter += 1;
            s.label = "updated".into();
        },
        |s| s.clone(),
        SyncUrgency::Default,
    );

    assert_eq!(result.generation.age, 1);
    assert_eq!(result.view.counter, 1);
    assert_eq!(result.view.label, "updated");
    assert_eq!(result.actions.len(), 1);
    assert!(matches!(
        &result.actions[0],
        EngineAction::BroadcastSync(SyncMessage::FullSnapshot { .. })
    ));

    // Verify metrics
    let m = engine.metrics();
    assert_eq!(m.total_mutations, 1);
    assert_eq!(m.snapshots_sent, 1);
}

#[test]
fn mutate_suppress_no_actions() {
    let clock = test_clock();
    let mut engine = make_engine(NodeId(1), clock);

    let result = engine.mutate(|s| s.counter += 1, |s| s.clone(), SyncUrgency::Suppress);

    assert_eq!(result.actions.len(), 0);
    assert_eq!(engine.metrics().deltas_suppressed, 1);
}

#[test]
fn mutate_delayed_produces_scheduled_action() {
    let clock = test_clock();
    let mut engine = make_engine(NodeId(1), clock);
    let delay = Duration::from_secs(5);

    let result = engine.mutate(
        |s| s.counter += 1,
        |s| s.clone(),
        SyncUrgency::Delayed(delay),
    );

    assert_eq!(result.actions.len(), 1);
    assert!(matches!(
        &result.actions[0],
        EngineAction::ScheduleDelayed { delay: d, .. } if *d == Duration::from_secs(5)
    ));
}

#[test]
fn mutate_feed_mode_notifies_change_feed() {
    let clock = test_clock();
    let mut engine = make_feed_engine(NodeId(1), clock);

    let result = engine.mutate(|s| s.counter += 1, |s| s.clone(), SyncUrgency::Default);

    // Feed mode produces no immediate actions (notifications are batched)
    assert!(result.actions.is_empty());
    assert_eq!(engine.pending_change_feed_count(), 1);

    // Flush produces a BatchedChangeFeed
    let feed = engine.flush_change_feed().unwrap();
    assert_eq!(feed.source_node, NodeId(1));
    assert_eq!(feed.notifications.len(), 1);
    assert_eq!(feed.notifications[0].state_name, "test_state");
}

#[test]
fn mutate_immediate_overrides_feed_mode() {
    let clock = test_clock();
    let mut engine = make_feed_engine(NodeId(1), clock);

    let result = engine.mutate(|s| s.counter += 1, |s| s.clone(), SyncUrgency::Immediate);

    // Immediate urgency broadcasts even in feed mode
    assert_eq!(result.actions.len(), 1);
    assert!(matches!(
        &result.actions[0],
        EngineAction::BroadcastSync(SyncMessage::FullSnapshot { .. })
    ));
}

// ── Delta mutation tests ────────────────────────────────────

#[test]
fn delta_mutate_broadcasts_delta() {
    let clock = test_clock();
    let mut engine = make_delta_engine(NodeId(1), clock);

    let result = engine.mutate_with_delta(
        |s| {
            s.counter += 5;
            TestDeltaChange {
                counter_delta: 5,
                new_label: None,
                accumulator_delta: 0.0,
            }
        },
        TestDeltaState::project_view,
        TestDeltaState::project_delta,
        SyncUrgency::Default,
        TestDeltaState::serialize_delta,
    );

    assert_eq!(result.view.counter, 5);
    assert_eq!(result.view_delta.counter_delta, 5);
    assert_eq!(result.actions.len(), 1);
    assert!(matches!(
        &result.actions[0],
        EngineAction::BroadcastSync(SyncMessage::DeltaUpdate { .. })
    ));

    let m = engine.metrics();
    assert_eq!(m.deltas_sent, 1);
    assert_eq!(m.deltas_immediate, 1);
}

// ── Inbound snapshot tests ──────────────────────────────────

#[test]
fn inbound_snapshot_accepted() {
    let clock = test_clock();
    let mut engine = make_engine(NodeId(1), clock);

    // Add node 2 as a peer
    engine.on_node_joined(NodeId(2), TestState::default());

    // Simulate inbound snapshot from node 2
    let peer_state = TestState {
        counter: 42,
        label: "peer".into(),
    };
    let data = peer_state.serialize_state();

    let actions = engine.handle_inbound_sync(SyncMessage::FullSnapshot {
        state_name: "test_state".into(),
        source_node: NodeId(2),
        generation: Generation::new(1_000_000, 3),
        wire_version: 1,
        data,
    });

    assert!(actions.is_empty());

    // Verify the view was updated
    let view = engine.get_view(&NodeId(2)).unwrap();
    assert_eq!(view.value.counter, 42);
    assert_eq!(view.generation.age, 3);

    assert_eq!(engine.metrics().snapshots_received, 1);
}

#[test]
fn inbound_snapshot_wrong_state_name_ignored() {
    let clock = test_clock();
    let mut engine = make_engine(NodeId(1), clock);
    engine.on_node_joined(NodeId(2), TestState::default());

    let actions = engine.handle_inbound_sync(SyncMessage::FullSnapshot {
        state_name: "other_state".into(),
        source_node: NodeId(2),
        generation: Generation::new(1, 1),
        wire_version: 1,
        data: vec![],
    });

    assert!(actions.is_empty());
    assert_eq!(engine.metrics().snapshots_received, 0);
}

#[test]
fn inbound_snapshot_departed_node_rejected() {
    let clock = test_clock();
    let mut engine = make_engine(NodeId(1), clock);

    // Add and then remove node 2
    engine.on_node_joined(NodeId(2), TestState::default());
    engine.on_node_left(NodeId(2));

    let peer_state = TestState {
        counter: 99,
        label: "ghost".into(),
    };
    let data = peer_state.serialize_state();

    let actions = engine.handle_inbound_sync(SyncMessage::FullSnapshot {
        state_name: "test_state".into(),
        source_node: NodeId(2),
        generation: Generation::new(1, 1),
        wire_version: 1,
        data,
    });

    assert!(actions.is_empty());
    assert!(engine.get_view(&NodeId(2)).is_none());
}

#[test]
fn inbound_snapshot_version_mismatch() {
    let clock = test_clock();
    let mut engine = make_engine(NodeId(1), clock);
    engine.on_node_joined(NodeId(2), TestState::default());

    let actions = engine.handle_inbound_sync(SyncMessage::FullSnapshot {
        state_name: "test_state".into(),
        source_node: NodeId(2),
        generation: Generation::new(1, 1),
        wire_version: 99, // unsupported
        data: vec![1, 2, 3],
    });

    assert!(actions.is_empty());
    assert_eq!(engine.metrics().sync_failures, 1);
}

#[test]
fn inbound_snapshot_malformed_data() {
    let clock = test_clock();
    let mut engine = make_engine(NodeId(1), clock);
    engine.on_node_joined(NodeId(2), TestState::default());

    let actions = engine.handle_inbound_sync(SyncMessage::FullSnapshot {
        state_name: "test_state".into(),
        source_node: NodeId(2),
        generation: Generation::new(1, 1),
        wire_version: 1,
        data: vec![0xFF, 0xFF], // garbage
    });

    assert!(actions.is_empty());
    assert_eq!(engine.metrics().sync_failures, 1);
}

// ── Inbound delta tests ─────────────────────────────────────

#[test]
fn inbound_delta_applied() {
    let clock = test_clock();
    let mut engine = make_delta_engine(NodeId(1), clock);

    // Add peer and accept initial snapshot
    engine.on_node_joined(NodeId(2), TestDeltaView { counter: 0, label: String::new() });
    let initial_view = TestDeltaView {
        counter: 10,
        label: "peer".into(),
    };
    let data = TestDeltaState::serialize_view(&initial_view);
    engine.handle_inbound_sync(SyncMessage::FullSnapshot {
        state_name: "test_delta_state".into(),
        source_node: NodeId(2),
        generation: Generation::new(1_000_000, 1),
        wire_version: 1,
        data,
    });

    // Now send a delta
    let delta = TestDeltaViewDelta {
        counter_delta: 5,
        new_label: None,
    };
    let delta_data = TestDeltaState::serialize_delta(&delta);
    let actions = engine.handle_inbound_sync(SyncMessage::DeltaUpdate {
        state_name: "test_delta_state".into(),
        source_node: NodeId(2),
        generation: Generation::new(1_000_000, 2),
        wire_version: 1,
        data: delta_data,
    });

    assert!(actions.is_empty());
    let view = engine.get_view(&NodeId(2)).unwrap();
    assert_eq!(view.value.counter, 15); // 10 + 5
    assert_eq!(engine.metrics().deltas_received, 1);
}

#[test]
fn inbound_delta_without_applier_requests_snapshot() {
    let clock = test_clock();
    let mut engine = make_engine(NodeId(1), clock); // no delta applier
    engine.on_node_joined(NodeId(2), TestState::default());

    let actions = engine.handle_inbound_sync(SyncMessage::DeltaUpdate {
        state_name: "test_state".into(),
        source_node: NodeId(2),
        generation: Generation::new(1, 1),
        wire_version: 1,
        data: vec![1, 2, 3],
    });

    assert_eq!(actions.len(), 1);
    match &actions[0] {
        EngineAction::SendSync { target, message: SyncMessage::RequestSnapshot { .. } } => {
            assert_eq!(*target, NodeId(2));
        }
        other => panic!("expected SendSync/RequestSnapshot, got {:?}", other),
    };
}

#[test]
fn inbound_delta_gap_requests_snapshot() {
    let clock = test_clock();
    let mut engine = make_delta_engine(NodeId(1), clock);
    engine.on_node_joined(NodeId(2), TestDeltaView { counter: 0, label: String::new() });

    // Accept snapshot at age=1
    let initial_view = TestDeltaView { counter: 10, label: "peer".into() };
    engine.handle_inbound_sync(SyncMessage::FullSnapshot {
        state_name: "test_delta_state".into(),
        source_node: NodeId(2),
        generation: Generation::new(1_000_000, 1),
        wire_version: 1,
        data: TestDeltaState::serialize_view(&initial_view),
    });

    // Send delta at age=5 (gap: expected age=2)
    let delta = TestDeltaViewDelta { counter_delta: 1, new_label: None };
    let actions = engine.handle_inbound_sync(SyncMessage::DeltaUpdate {
        state_name: "test_delta_state".into(),
        source_node: NodeId(2),
        generation: Generation::new(1_000_000, 5), // gap
        wire_version: 1,
        data: TestDeltaState::serialize_delta(&delta),
    });

    assert_eq!(actions.len(), 1);
    assert!(matches!(
        &actions[0],
        EngineAction::SendSync {
            message: SyncMessage::RequestSnapshot { .. },
            ..
        }
    ));
    assert_eq!(engine.metrics().age_gaps_detected, 1);
}

// ── Request snapshot tests ───────────────────────────────────

#[test]
fn request_snapshot_sends_own_view() {
    let clock = test_clock();
    let mut engine = make_engine(NodeId(1), clock);
    engine.mutate(|s| s.counter = 42, |s| s.clone(), SyncUrgency::Default);

    let actions = engine.handle_inbound_sync(SyncMessage::RequestSnapshot {
        state_name: "test_state".into(),
        requester: NodeId(2),
    });

    assert_eq!(actions.len(), 1);
    if let EngineAction::SendSync {
        target,
        message: SyncMessage::FullSnapshot { data, .. },
    } = &actions[0]
    {
        assert_eq!(*target, NodeId(2));
        let view = TestState::deserialize_state(data, 1).unwrap();
        assert_eq!(view.counter, 42);
    } else {
        panic!("expected SendSync with FullSnapshot");
    }
}

// ── Change feed tests ───────────────────────────────────────

#[test]
fn change_feed_marks_stale() {
    let clock = test_clock();
    let mut engine = make_feed_engine(NodeId(1), clock.clone());
    engine.on_node_joined(NodeId(2), TestState::default());

    // Accept initial snapshot from node 2 so it has a real generation
    let data = TestState { counter: 1, label: "x".into() }.serialize_state();
    engine.handle_inbound_sync(SyncMessage::FullSnapshot {
        state_name: "test_state".into(),
        source_node: NodeId(2),
        generation: Generation::new(1_000_000, 1),
        wire_version: 1,
        data,
    });

    // Receive a change feed indicating node 2 has a newer generation
    let feed = BatchedChangeFeed {
        source_node: NodeId(2),
        notifications: vec![ChangeNotification {
            state_name: "test_state".into(),
            source_node: NodeId(2),
            generation: Generation::new(1_000_000, 5),
        }],
    };
    engine.handle_inbound_change_feed(feed);

    // Now query should detect staleness
    clock.advance(Duration::from_secs(10));
    let (result, actions) = engine.query(Duration::from_millis(1), |views| {
        views.get(&NodeId(2)).map(|v| v.value.counter)
    });

    assert!(matches!(result, EngineQueryResult::Stale { .. }));
    // Feed+lazy pull should issue RequestSnapshot
    assert!(!actions.is_empty());
}

// ── Lifecycle tests ─────────────────────────────────────────

#[test]
fn node_joined_sends_snapshot() {
    let clock = test_clock();
    let mut engine = make_engine(NodeId(1), clock);
    engine.mutate(|s| s.counter = 10, |s| s.clone(), SyncUrgency::Default);

    let actions = engine.on_node_joined(NodeId(2), TestState::default());

    assert_eq!(actions.len(), 1);
    match &actions[0] {
        EngineAction::SendSync { target, message: SyncMessage::FullSnapshot { .. } } => {
            assert_eq!(*target, NodeId(2));
        }
        other => panic!("expected SendSync/FullSnapshot, got {:?}", other),
    };
    assert_eq!(engine.view_count(), 2);
}

#[test]
fn node_left_removes_view() {
    let clock = test_clock();
    let mut engine = make_engine(NodeId(1), clock);
    engine.on_node_joined(NodeId(2), TestState::default());
    assert_eq!(engine.view_count(), 2);

    engine.on_node_left(NodeId(2));

    assert_eq!(engine.view_count(), 1);
    assert!(engine.get_view(&NodeId(2)).is_none());
    assert!(!engine.should_accept_from(&NodeId(2)));
}

// ── Query tests ─────────────────────────────────────────────

#[test]
fn query_fresh_returns_all_views() {
    let clock = test_clock();
    let mut engine = make_engine(NodeId(1), clock);
    engine.mutate(|s| s.counter = 100, |s| s.clone(), SyncUrgency::Default);

    let (result, actions) = engine.query(Duration::from_secs(60), |views| {
        views.get(&NodeId(1)).unwrap().value.counter
    });

    assert!(matches!(result, EngineQueryResult::Fresh(100)));
    assert!(actions.is_empty());
}

// ── Periodic sync tests ─────────────────────────────────────

#[test]
fn periodic_sync_broadcasts_snapshot() {
    let clock = test_clock();
    let mut engine = build_engine(
        "test_state",
        NodeId(1),
        TestState::default(),
        |s| s.clone(),
        StateConfig {
            sync_strategy: SyncStrategy::periodic_only(Duration::from_secs(30)),
            ..StateConfig::default()
        },
        1,
        clock,
        |v: &TestState| v.serialize_state(),
        |b, _| {
            TestState::deserialize_state(b, 1)
        },
        None,
    );

    engine.mutate(|s| s.counter = 5, |s| s.clone(), SyncUrgency::Suppress);
    let actions = engine.periodic_sync();

    assert_eq!(actions.len(), 1);
    assert!(matches!(
        &actions[0],
        EngineAction::BroadcastSync(SyncMessage::FullSnapshot { .. })
    ));
}

#[test]
fn periodic_sync_returns_empty_when_not_configured() {
    let clock = test_clock();
    let mut engine = make_engine(NodeId(1), clock); // ActivePush, no periodic
    let actions = engine.periodic_sync();
    assert!(actions.is_empty());
}

// ── Health & metrics tests ──────────────────────────────────

#[test]
fn health_status_with_no_peers() {
    let clock = test_clock();
    let engine = make_engine(NodeId(1), clock);
    let h = engine.health(Duration::from_secs(60));
    assert_eq!(h.status, HealthStatus::Healthy);
    assert_eq!(h.stale_peers, 0);
}

#[test]
fn metrics_track_mutations() {
    let clock = test_clock();
    let mut engine = make_engine(NodeId(1), clock);

    for _ in 0..5 {
        engine.mutate(|s| s.counter += 1, |s| s.clone(), SyncUrgency::Default);
    }

    let m = engine.metrics();
    assert_eq!(m.total_mutations, 5);
    assert_eq!(m.snapshots_sent, 5); // ActivePush sends snapshot each time
}

// ── Round-trip test (mutate → serialize → deserialize → accept) ──

#[test]
fn full_round_trip_two_engines() {
    let clock = test_clock();
    let mut engine1 = make_engine(NodeId(1), clock.clone());
    let mut engine2 = make_engine(NodeId(2), clock);

    // Join each other
    engine1.on_node_joined(NodeId(2), TestState::default());
    engine2.on_node_joined(NodeId(1), TestState::default());

    // Engine 1 mutates
    let result = engine1.mutate(
        |s| {
            s.counter = 42;
            s.label = "hello".into();
        },
        |s| s.clone(),
        SyncUrgency::Default,
    );

    // Deliver the broadcast to engine 2
    assert_eq!(result.actions.len(), 1);
    if let EngineAction::BroadcastSync(msg) = &result.actions[0] {
        let actions = engine2.handle_inbound_sync(msg.clone());
        assert!(actions.is_empty());
    }

    // Verify engine 2 has the updated view
    let view = engine2.get_view(&NodeId(1)).unwrap();
    assert_eq!(view.value.counter, 42);
    assert_eq!(view.value.label, "hello");
}

#[test]
fn delta_round_trip_two_engines() {
    let clock = test_clock();
    let mut engine1 = make_delta_engine(NodeId(1), clock.clone());
    let mut engine2 = make_delta_engine(NodeId(2), clock);

    let default_view = TestDeltaView {
        counter: 0,
        label: String::new(),
    };
    engine1.on_node_joined(NodeId(2), default_view.clone());
    engine2.on_node_joined(NodeId(1), default_view);

    // Engine 1 mutates with delta
    let result = engine1.mutate_with_delta(
        |s| {
            s.counter += 10;
            TestDeltaChange {
                counter_delta: 10,
                new_label: Some("updated".into()),
                accumulator_delta: 0.0,
            }
        },
        TestDeltaState::project_view,
        TestDeltaState::project_delta,
        SyncUrgency::Default,
        TestDeltaState::serialize_delta,
    );

    // Engine 2 needs a base snapshot first (initial view has gen=0)
    // Send a full snapshot instead of the delta for initial sync
    let snapshot_data = TestDeltaState::serialize_view(&result.view);
    engine2.handle_inbound_sync(SyncMessage::FullSnapshot {
        state_name: "test_delta_state".into(),
        source_node: NodeId(1),
        generation: result.generation,
        wire_version: 1,
        data: snapshot_data,
    });

    // Now engine 1 mutates again, producing a delta
    let result2 = engine1.mutate_with_delta(
        |s| {
            s.counter += 3;
            TestDeltaChange {
                counter_delta: 3,
                new_label: None,
                accumulator_delta: 0.0,
            }
        },
        TestDeltaState::project_view,
        TestDeltaState::project_delta,
        SyncUrgency::Default,
        TestDeltaState::serialize_delta,
    );

    // Deliver delta to engine 2
    if let EngineAction::BroadcastSync(msg) = &result2.actions[0] {
        let actions = engine2.handle_inbound_sync(msg.clone());
        assert!(actions.is_empty());
    }

    // Verify engine 2 applied the delta
    let view = engine2.get_view(&NodeId(1)).unwrap();
    assert_eq!(view.value.counter, 13); // 10 + 3
}

// ── Lifecycle gating tests (from v2 reviews) ────────────────

#[test]
fn request_snapshot_rejected_from_departed_node() {
    let clock = test_clock();
    let mut engine = make_engine(NodeId(1), clock);

    // Add and remove node 2
    engine.on_node_joined(NodeId(2), TestState::default());
    engine.on_node_left(NodeId(2));

    // Departed node requests a snapshot — should be silently ignored
    let actions = engine.handle_inbound_sync(SyncMessage::RequestSnapshot {
        state_name: "test_state".into(),
        requester: NodeId(2),
    });
    assert!(actions.is_empty());
    // Snapshot should NOT have been sent (metric stays at 1 from on_node_joined)
    assert_eq!(engine.metrics().snapshots_sent, 1);
}

#[test]
fn change_feed_from_departed_node_ignored() {
    let clock = test_clock();
    let mut engine = make_feed_engine(NodeId(1), clock.clone());

    // Add peer, accept initial snapshot, then remove
    engine.on_node_joined(NodeId(2), TestState::default());
    let data = TestState { counter: 1, label: "x".into() }.serialize_state();
    engine.handle_inbound_sync(SyncMessage::FullSnapshot {
        state_name: "test_state".into(),
        source_node: NodeId(2),
        generation: Generation::new(1_000_000, 1),
        wire_version: 1,
        data,
    });
    engine.on_node_left(NodeId(2));

    // Receive change feed from departed node — should be ignored
    let feed = BatchedChangeFeed {
        source_node: NodeId(2),
        notifications: vec![ChangeNotification {
            state_name: "test_state".into(),
            source_node: NodeId(2),
            generation: Generation::new(1_000_000, 10),
        }],
    };
    engine.handle_inbound_change_feed(feed);

    // Query should not try to pull from departed node 2
    clock.advance(Duration::from_secs(60));
    let (_result, actions) = engine.query(Duration::from_millis(1), |_| ());
    // No RequestSnapshot to departed node
    let requests_to_node2: Vec<_> = actions
        .iter()
        .filter(|a| matches!(a, EngineAction::SendSync { target, .. } if *target == NodeId(2)))
        .collect();
    assert!(requests_to_node2.is_empty());
}

#[test]
fn query_pull_skips_departed_peers() {
    let clock = test_clock();
    let mut engine = make_feed_engine(NodeId(1), clock.clone());

    // Add two peers
    engine.on_node_joined(NodeId(2), TestState::default());
    engine.on_node_joined(NodeId(3), TestState::default());

    // Accept snapshots from both
    for &id in &[2u64, 3] {
        let data = TestState { counter: id, label: format!("n{id}") }.serialize_state();
        engine.handle_inbound_sync(SyncMessage::FullSnapshot {
            state_name: "test_state".into(),
            source_node: NodeId(id),
            generation: Generation::new(1_000_000, 1),
            wire_version: 1,
            data,
        });
    }

    // Depart node 2
    engine.on_node_left(NodeId(2));

    // Make node 3 stale
    let feed = BatchedChangeFeed {
        source_node: NodeId(3),
        notifications: vec![ChangeNotification {
            state_name: "test_state".into(),
            source_node: NodeId(3),
            generation: Generation::new(1_000_000, 5),
        }],
    };
    engine.handle_inbound_change_feed(feed);

    // Query — should only pull from node 3, not departed node 2
    clock.advance(Duration::from_secs(60));
    let (_result, actions) = engine.query(Duration::from_millis(1), |_| ());

    let targets: Vec<NodeId> = actions
        .iter()
        .filter_map(|a| match a {
            EngineAction::SendSync { target, .. } => Some(target.clone()),
            _ => None,
        })
        .collect();
    assert!(targets.contains(&NodeId(3)));
    assert!(!targets.contains(&NodeId(2)));
}

#[test]
fn engine_inbound_delta_stale_discarded() {
    let clock = test_clock();
    let mut engine = make_delta_engine(NodeId(1), clock);

    engine.on_node_joined(NodeId(2), TestDeltaView { counter: 0, label: String::new() });
    // Accept snapshot at age=5
    let view = TestDeltaView { counter: 50, label: "peer".into() };
    engine.handle_inbound_sync(SyncMessage::FullSnapshot {
        state_name: "test_delta_state".into(),
        source_node: NodeId(2),
        generation: Generation::new(1_000_000, 5),
        wire_version: 1,
        data: TestDeltaState::serialize_view(&view),
    });

    // Send delta at age=3 (stale — older than current age=5)
    let delta = TestDeltaViewDelta { counter_delta: 1, new_label: None };
    let actions = engine.handle_inbound_sync(SyncMessage::DeltaUpdate {
        state_name: "test_delta_state".into(),
        source_node: NodeId(2),
        generation: Generation::new(1_000_000, 3),
        wire_version: 1,
        data: TestDeltaState::serialize_delta(&delta),
    });

    // Stale delta should be silently discarded (no snapshot request)
    assert!(actions.is_empty());
    assert_eq!(engine.metrics().stale_deltas_discarded, 1);
    // View should be unchanged
    let v = engine.get_view(&NodeId(2)).unwrap();
    assert_eq!(v.value.counter, 50);
}

#[test]
fn inbound_delta_wrong_wire_version_rejected() {
    let clock = test_clock();
    let mut engine = make_delta_engine(NodeId(1), clock);

    engine.on_node_joined(NodeId(2), TestDeltaView { counter: 0, label: String::new() });
    let view = TestDeltaView { counter: 10, label: "p".into() };
    engine.handle_inbound_sync(SyncMessage::FullSnapshot {
        state_name: "test_delta_state".into(),
        source_node: NodeId(2),
        generation: Generation::new(1_000_000, 1),
        wire_version: 1,
        data: TestDeltaState::serialize_view(&view),
    });

    // Send delta with wrong wire version
    let actions = engine.handle_inbound_sync(SyncMessage::DeltaUpdate {
        state_name: "test_delta_state".into(),
        source_node: NodeId(2),
        generation: Generation::new(1_000_000, 2),
        wire_version: 99,
        data: vec![1, 2, 3],
    });

    assert!(actions.is_empty()); // version mismatch → no request
    assert_eq!(engine.metrics().sync_failures, 1);
}

#[test]
fn handle_inbound_wire_message_dispatches() {
    let clock = test_clock();
    let mut engine = make_engine(NodeId(1), clock);

    // Test WireMessage::Sync dispatch
    let actions = engine.handle_inbound(WireMessage::Sync(SyncMessage::RequestSnapshot {
        state_name: "test_state".into(),
        requester: NodeId(2),
    }));
    assert_eq!(actions.len(), 1);

    // Test WireMessage::Feed dispatch
    let actions = engine.handle_inbound(WireMessage::Feed(BatchedChangeFeed {
        source_node: NodeId(2),
        notifications: vec![],
    }));
    assert!(actions.is_empty());
}
