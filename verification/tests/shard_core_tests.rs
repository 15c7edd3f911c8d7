#![allow(unused_mut)]

use std::sync::atomic::{AtomicBool, AtomicU32, Ordering};
use std::sync::Arc;

use dstate::replica::delta_accumulator::DeltaAccumulator;
use dstate::replica::shard_core::{
    new_state_object, AcceptResult, DeltaAcceptResult, InboundSnapshot, QueryResult, ShardCore,
};
use dstate::replica::sync_logic::{SyncAction, SyncLogic};
use dstate::test_support::test_clock::TestClock;
use dstate::test_support::test_state::{TestDeltaView, TestDeltaViewDelta, TestState};
use dstate::{
    Clock, DistributedState, Duration, Generation, NodeId, StateObject, SyncStrategy, SyncUrgency,
};

/// The state behind the delta-aware views: it has a field that no view shows.
#[derive(Debug, Clone, PartialEq)]
struct TestDeltaStateInner {
    counter: u64,
    label: String,
    internal_accumulator: f64,
}

impl Default for TestDeltaStateInner {
    fn default() -> Self {
        Self {
            counter: 0,
            label: String::new(),
            internal_accumulator: 0.0,
        }
    }
}

/// Application-level change description.
#[allow(dead_code)]
#[derive(Debug, Clone, PartialEq)]
struct TestDeltaChange {
    counter_delta: i64,
    new_label: Option<String>,
    accumulator_delta: f64,
}

struct TestDeltaState;

impl TestDeltaState {
    fn project_view(state: &TestDeltaStateInner) -> TestDeltaView {
        TestDeltaView {
            counter: state.counter,
            label: state.label.clone(),
        }
    }

    fn project_delta(change: &TestDeltaChange) -> TestDeltaViewDelta {
        TestDeltaViewDelta {
            counter_delta: change.counter_delta,
            new_label: change.new_label.clone(),
        }
    }

    fn apply_delta(view: &TestDeltaView, delta: &TestDeltaViewDelta) -> TestDeltaView {
        view.apply(delta)
    }
}

fn test_clock() -> Arc<TestClock> {
    Arc::new(TestClock::with_base_unix_ms(1_000_000))
}

fn make_state_object(counter: u64, label: &str, clock: &TestClock) -> StateObject<TestState> {
    StateObject {
        generation: Generation::new(1, 0),
        storage_version: 1,
        value: TestState {
            counter,
            label: label.to_string(),
        },
        created_time: clock.unix_ms(),
        modified_time: clock.unix_ms(),
    }
}

fn make_shard(clock: Arc<TestClock>) -> ShardCore<TestState, TestState, Arc<TestClock>> {
    let state = make_state_object(0, "init", clock.as_ref());
    let view = state.value.clone();
    ShardCore::new(NodeId(1), state, view, clock)
}

fn make_delta_shard(
    clock: Arc<TestClock>,
) -> ShardCore<TestDeltaStateInner, TestDeltaView, Arc<TestClock>> {
    let state = StateObject {
        generation: Generation::new(1, 0),
        storage_version: 1,
        value: TestDeltaStateInner::default(),
        created_time: clock.unix_ms(),
        modified_time: clock.unix_ms(),
    };
    let view = TestDeltaState::project_view(&state.value);
    ShardCore::new(NodeId(1), state, view, clock)
}

// ── TEST-05: should_accept ordering ─────────────────────────

#[test]
fn test_05_should_accept_newer_incarnation() {
    assert!(ShardCore::<TestState, TestState, Arc<TestClock>>::should_accept(
        Generation::new(2, 0),
        Generation::new(1, 100),
    ));
}

#[test]
fn test_05_should_accept_same_inc_newer_age() {
    assert!(ShardCore::<TestState, TestState, Arc<TestClock>>::should_accept(
        Generation::new(1, 5),
        Generation::new(1, 4),
    ));
}

#[test]
fn test_05_should_reject_same_inc_same_age() {
    assert!(!ShardCore::<TestState, TestState, Arc<TestClock>>::should_accept(
        Generation::new(1, 5),
        Generation::new(1, 5),
    ));
}

#[test]
fn test_05_should_reject_same_inc_older_age() {
    assert!(!ShardCore::<TestState, TestState, Arc<TestClock>>::should_accept(
        Generation::new(1, 3),
        Generation::new(1, 5),
    ));
}

#[test]
fn test_05_should_reject_older_incarnation() {
    assert!(!ShardCore::<TestState, TestState, Arc<TestClock>>::should_accept(
        Generation::new(1, 100),
        Generation::new(2, 0),
    ));
}

// ── TEST-06: stale_peers ────────────────────────────────────

#[test]
fn test_06_stale_peers_by_time() {
    let clock = Arc::new(TestClock::with_base_unix_ms(1_000_000));
    let mut shard = make_shard(clock.clone());

    let default_view = TestState { counter: 0, label: String::new() };
    shard.on_node_joined(NodeId(2), default_view);

    // Peer is stale immediately after join (placeholder has pending_remote_generation).
    assert_eq!(shard.stale_peers(Duration::from_secs(10)), vec![NodeId(2)]);

    // Accept a snapshot to clear the stale marker.
    shard.accept_inbound_snapshot(InboundSnapshot {
        source: NodeId(2),
        generation: Generation::new(1, 1),
        wire_version: 1,
        view: TestState { counter: 1, label: "synced".into() },
        created_time: 1_000_000,
        modified_time: 1_000_000,
    });

    // Now not stale (just synced).
    assert!(shard.stale_peers(Duration::from_secs(10)).is_empty());

    // Advance clock past staleness threshold.
    clock.advance(Duration::from_secs(15));
    let stale = shard.stale_peers(Duration::from_secs(10));
    assert_eq!(stale, vec![NodeId(2)]);
}

#[test]
fn test_06_stale_peers_by_pending_age() {
    let clock = test_clock();
    let mut shard = make_shard(clock.clone());

    let default_view = TestState { counter: 0, label: String::new() };
    shard.on_node_joined(NodeId(2), default_view);

    shard.mark_stale(NodeId(2), 1, 5);

    let stale = shard.stale_peers(Duration::from_secs(3600));
    assert_eq!(stale, vec![NodeId(2)]);
}

#[test]
fn test_06_own_node_never_stale() {
    let clock = Arc::new(TestClock::with_base_unix_ms(1_000_000));
    let mut shard = make_shard(clock.clone());
    clock.advance(Duration::from_secs(100));
    assert!(shard.stale_peers(Duration::from_secs(1)).is_empty());
}

// ── TEST-07: apply_mutation advances age ────────────────────

#[test]
fn test_07_mutation_advances_age() {
    let clock = test_clock();
    let mut shard = make_shard(clock);
    assert_eq!(shard.state().age(), 0);

    let outcome = shard.apply_mutation(
        |s| s.counter += 1,
        |s| s.clone(),
    );

    assert_eq!(outcome.generation.age, 1);
    assert_eq!(shard.state().age(), 1);
    assert_eq!(shard.state().value.counter, 1);
}

// ── PVM-01: Own node entry exists after construction ────────

#[test]
fn pvm_01_own_entry_after_construction() {
    let clock = test_clock();
    let mut shard = make_shard(clock);
    let snap = shard.snapshot();
    assert!(snap.contains_key(&NodeId(1)));
    assert_eq!(snap.len(), 1);
}

// ── PVM-02: Own entry derives from local shard ──────────────

#[test]
fn pvm_02_own_entry_matches_state() {
    let clock = test_clock();
    let mut shard = make_shard(clock);
    let snap = shard.snapshot();
    let entry = snap.get(&NodeId(1)).unwrap();
    assert_eq!(entry.generation.age, 0);
    assert_eq!(entry.generation.incarnation, 1);
    assert_eq!(entry.value.counter, 0);
    assert_eq!(entry.value.label, "init");
}

// ── PVM-03: Map is empty of peers on single-node cluster ────

#[test]
fn pvm_03_no_peers_on_single_node() {
    let clock = test_clock();
    let mut shard = make_shard(clock);
    let snap = shard.snapshot();
    assert_eq!(snap.len(), 1);
    assert!(snap.contains_key(&NodeId(1)));
}

// ── SHARD-01: Mutation increments age ───────────────────────

#[test]
fn shard_01_mutation_increments_age() {
    let clock = test_clock();
    let mut shard = make_shard(clock);

    for i in 1..=5 {
        shard.apply_mutation(|s| s.counter = i, |s| s.clone());
    }

    assert_eq!(shard.state().age(), 5);
    assert_eq!(shard.state().value.counter, 5);
}

// ── SHARD-02: Mutation updates modified_time ────────────────

#[test]
fn shard_02_mutation_updates_modified_time() {
    let clock = Arc::new(TestClock::with_base_unix_ms(1_000_000));
    let mut shard = make_shard(clock.clone());
    let t0 = shard.state().modified_time;

    clock.advance(Duration::from_secs(5));
    shard.apply_mutation(|s| s.counter += 1, |s| s.clone());

    assert!(shard.state().modified_time > t0);
}

// ── SHARD-03: Mutation produces view for sync ───────────────

#[test]
fn shard_03_mutation_produces_outbound_view() {
    let clock = test_clock();
    let mut shard = make_shard(clock);

    let outcome = shard.apply_mutation(
        |s| { s.counter = 42; s.label = "updated".into(); },
        |s| s.clone(),
    );

    assert_eq!(outcome.view.counter, 42);
    assert_eq!(outcome.view.label, "updated");
    assert_eq!(outcome.generation.incarnation, 1);
}

// ── SHARD-04: Sequential mutations produce sequential ages ──

#[test]
fn shard_04_sequential_mutations_sequential_ages() {
    let clock = test_clock();
    let mut shard = make_shard(clock);

    let mut ages = Vec::new();
    for i in 0..100 {
        let outcome = shard.apply_mutation(|s| s.counter = i, |s| s.clone());
        ages.push(outcome.generation.age);
    }

    let expected: Vec<u64> = (1..=100).collect();
    assert_eq!(ages, expected);
}

// ── SHARD-05: on_node_joined adds entry ─────────────────────

#[test]
fn shard_05_node_joined_adds_entry() {
    let clock = test_clock();
    let mut shard = make_shard(clock);

    let default_view = TestState { counter: 0, label: String::new() };
    shard.on_node_joined(NodeId(2), default_view);

    let snap = shard.snapshot();
    assert_eq!(snap.len(), 2);
    assert!(snap.contains_key(&NodeId(2)));
    assert_eq!(snap.get(&NodeId(2)).unwrap().generation.age, 0);
}

// ── SHARD-06: on_node_left removes entry ────────────────────

#[test]
fn shard_06_node_left_removes_entry() {
    let clock = test_clock();
    let mut shard = make_shard(clock);

    let default_view = TestState { counter: 0, label: String::new() };
    shard.on_node_joined(NodeId(2), default_view);
    assert_eq!(shard.snapshot().len(), 2);

    shard.on_node_left(NodeId(2));
    assert_eq!(shard.snapshot().len(), 1);
    assert!(!shard.snapshot().contains_key(&NodeId(2)));
}

// ── SHARD-07: MarkStale sets pending_remote_age ─────────────

#[test]
fn shard_07_mark_stale_sets_pending() {
    let clock = test_clock();
    let mut shard = make_shard(clock);

    let default_view = TestState { counter: 0, label: String::new() };
    shard.on_node_joined(NodeId(2), default_view);

    shard.mark_stale(NodeId(2), 1, 10);

    let snap = shard.snapshot();
    let entry = snap.get(&NodeId(2)).unwrap();
    assert_eq!(entry.pending_remote_generation, Some(Generation::new(1, 10)));
}

// ── SHARD-08: MarkStale with stale incarnation is no-op ─────

#[test]
fn shard_08_mark_stale_old_incarnation_noop() {
    let clock = test_clock();
    let mut shard = make_shard(clock);

    shard.accept_inbound_snapshot(InboundSnapshot {
        source: NodeId(2),
        generation: Generation::new(5, 10),
        wire_version: 1,
        view: TestState { counter: 10, label: "peer".into() },
        created_time: 1_000_000,
        modified_time: 1_000_000,
    });

    shard.mark_stale(NodeId(2), 3, 20);

    let snap = shard.snapshot();
    let entry = snap.get(&NodeId(2)).unwrap();
    assert_eq!(entry.pending_remote_generation, None);
}

// ── SHARD-10: snapshot returns full view map ────────────────

#[test]
fn shard_10_snapshot_returns_view_map() {
    let clock = test_clock();
    let mut shard = make_shard(clock);

    let default_view = TestState { counter: 0, label: String::new() };
    shard.on_node_joined(NodeId(2), default_view.clone());
    shard.on_node_joined(NodeId(3), default_view);

    let snap = shard.snapshot();
    assert_eq!(snap.len(), 3);
    assert!(snap.contains_key(&NodeId(1)));
    assert!(snap.contains_key(&NodeId(2)));
    assert!(snap.contains_key(&NodeId(3)));
}

// ── MUT-01: Mutation closure receives mutable state ─────────

#[test]
fn mut_01_closure_receives_mutable_state() {
    let clock = test_clock();
    let mut shard = make_shard(clock);

    shard.apply_mutation(
        |s| {
            s.counter = 99;
            s.label = "mutated".to_string();
        },
        |s| s.clone(),
    );

    assert_eq!(shard.state().value.counter, 99);
    assert_eq!(shard.state().value.label, "mutated");
}

// ── MUT-02: Mutation updates local view map ─────────────────

#[test]
fn mut_02_mutation_updates_view_map() {
    let clock = test_clock();
    let mut shard = make_shard(clock);

    shard.apply_mutation(|s| s.counter = 42, |s| s.clone());

    let snap = shard.snapshot();
    let entry = snap.get(&NodeId(1)).unwrap();
    assert_eq!(entry.value.counter, 42);
    assert_eq!(entry.generation.age, 1);
}

// ── MUT-04: Simple mutation produces view (for outbound snapshot)

#[test]
fn mut_04_mutation_broadcasts_snapshot_data() {
    let clock = test_clock();
    let mut shard = make_shard(clock);

    let outcome = shard.apply_mutation(
        |s| s.counter = 77,
        |s| s.clone(),
    );

    assert_eq!(outcome.view.counter, 77);
    assert_eq!(outcome.generation.age, 1);
    assert_eq!(outcome.generation.incarnation, 1);
}

// ── MUT-05: Receiver replaces state on inbound snapshot ─────

#[test]
fn mut_05_inbound_snapshot_replaces_view() {
    let clock = test_clock();
    let mut shard = make_shard(clock);

    let default_view = TestState { counter: 0, label: String::new() };
    shard.on_node_joined(NodeId(2), default_view);

    let result = shard.accept_inbound_snapshot(InboundSnapshot {
        source: NodeId(2),
        generation: Generation::new(1, 5),
        wire_version: 1,
        view: TestState { counter: 50, label: "from-peer".into() },
        created_time: 1_000_000,
        modified_time: 1_005_000,
    });

    assert_eq!(result, AcceptResult::Accepted);
    let snap = shard.snapshot();
    let entry = snap.get(&NodeId(2)).unwrap();
    assert_eq!(entry.value.counter, 50);
    assert_eq!(entry.generation.age, 5);
}

// ── MUT-06: Receiver discards stale inbound snapshot ────────

#[test]
fn mut_06_stale_snapshot_discarded() {
    let clock = test_clock();
    let mut shard = make_shard(clock);

    shard.accept_inbound_snapshot(InboundSnapshot {
        source: NodeId(2),
        generation: Generation::new(1, 10),
        wire_version: 1,
        view: TestState { counter: 10, label: "new".into() },
        created_time: 1_000_000,
        modified_time: 1_000_000,
    });

    let result = shard.accept_inbound_snapshot(InboundSnapshot {
        source: NodeId(2),
        generation: Generation::new(1, 5),
        wire_version: 1,
        view: TestState { counter: 5, label: "old".into() },
        created_time: 1_000_000,
        modified_time: 1_000_000,
    });

    assert_eq!(result, AcceptResult::Discarded);
    let snap = shard.snapshot();
    assert_eq!(snap.get(&NodeId(2)).unwrap().value.counter, 10);
}

// ── DMUT-01: mutate_with_delta captures StateDeltaChange ────

#[test]
fn dmut_01_delta_mutation_captures_change() {
    let clock = test_clock();
    let mut shard = make_delta_shard(clock);

    let outcome = shard.apply_mutation_with_delta(
        |s| {
            s.counter += 5;
            s.label = "delta".to_string();
            TestDeltaChange {
                counter_delta: 5,
                new_label: Some("delta".to_string()),
                accumulator_delta: 1.0,
            }
        },
        TestDeltaState::project_view,
        TestDeltaState::project_delta,
    );

    assert_eq!(outcome.generation.age, 1);
    assert_eq!(outcome.view.counter, 5);
    assert_eq!(outcome.view.label, "delta");
    assert_eq!(outcome.view_delta.counter_delta, 5);
    assert_eq!(outcome.view_delta.new_label, Some("delta".to_string()));
}

// ── DMUT-02: project_delta is called ────────────────────────

#[test]
fn dmut_02_project_delta_called() {

    let clock = test_clock();
    let mut shard = make_delta_shard(clock);
    let called = Arc::new(AtomicBool::new(false));
    let called_clone = called.clone();

    shard.apply_mutation_with_delta(
        |s| {
            s.counter += 1;
            TestDeltaChange {
                counter_delta: 1,
                new_label: None,
                accumulator_delta: 0.0,
            }
        },
        TestDeltaState::project_view,
        move |change| {
            called_clone.store(true, Ordering::SeqCst);
            TestDeltaState::project_delta(change)
        },
    );

    assert!(called.load(Ordering::SeqCst));
}

// ── DMUT-03: Delta mutation updates view map via project_view

#[test]
fn dmut_03_delta_mutation_updates_view_map() {
    let clock = test_clock();
    let mut shard = make_delta_shard(clock);

    shard.apply_mutation_with_delta(
        |s| {
            s.counter = 42;
            s.label = "projected".to_string();
            s.internal_accumulator = 99.9;
            TestDeltaChange {
                counter_delta: 42,
                new_label: Some("projected".to_string()),
                accumulator_delta: 99.9,
            }
        },
        TestDeltaState::project_view,
        TestDeltaState::project_delta,
    );

    let snap = shard.snapshot();
    let entry = snap.get(&NodeId(1)).unwrap();
    assert_eq!(entry.value.counter, 42);
    assert_eq!(entry.value.label, "projected");
}

// ── DMUT-04: project_view called once (for the new view) ────

#[test]
fn dmut_04_project_view_called_once() {

    let clock = test_clock();
    let mut shard = make_delta_shard(clock);
    let call_count = Arc::new(AtomicU32::new(0));
    let count_clone = call_count.clone();

    shard.apply_mutation_with_delta(
        |s| {
            s.counter += 1;
            TestDeltaChange {
                counter_delta: 1,
                new_label: None,
                accumulator_delta: 0.0,
            }
        },
        move |state| {
            count_clone.fetch_add(1, Ordering::SeqCst);
            TestDeltaState::project_view(state)
        },
        TestDeltaState::project_delta,
    );

    assert_eq!(call_count.load(Ordering::SeqCst), 1);
}

// ── DMUT-05: delta mutation produces view_delta for sync ────

#[test]
fn dmut_05_delta_mutation_produces_view_delta() {
    let clock = test_clock();
    let mut shard = make_delta_shard(clock);

    let outcome = shard.apply_mutation_with_delta(
        |s| {
            s.counter += 10;
            TestDeltaChange {
                counter_delta: 10,
                new_label: None,
                accumulator_delta: 5.0,
            }
        },
        TestDeltaState::project_view,
        TestDeltaState::project_delta,
    );

    assert_eq!(outcome.view_delta.counter_delta, 10);
    assert_eq!(outcome.view_delta.new_label, None);
}

// ── DMUT-06: Simple mutate on delta shard passes no delta ───

#[test]
fn dmut_06_simple_mutate_on_delta_shard() {
    let clock = test_clock();
    let mut shard = make_delta_shard(clock);

    let outcome = shard.apply_mutation(
        |s| s.counter = 7,
        TestDeltaState::project_view,
    );

    assert_eq!(outcome.generation.age, 1);
    assert_eq!(outcome.view.counter, 7);
}

// ── Additional: inbound delta tests ─────────────────────────

#[test]
fn inbound_delta_applied_correctly() {
    let clock = test_clock();
    let mut shard: ShardCore<TestDeltaStateInner, TestDeltaView, Arc<TestClock>> = make_delta_shard(clock);

    shard.accept_inbound_snapshot(InboundSnapshot {
        source: NodeId(2),
        generation: Generation::new(1, 5),
        wire_version: 1,
        view: TestDeltaView { counter: 10, label: "peer".into() },
        created_time: 1_000_000,
        modified_time: 1_000_000,
    });

    // Delta advances from age 5 to age 6: generation = (1, 6).
    let result = shard.accept_inbound_delta(
        NodeId(2), Generation::new(1, 6), 1,
        |view| TestDeltaState::apply_delta(
            view,
            &TestDeltaViewDelta { counter_delta: 3, new_label: None },
        ),
    );

    assert_eq!(result, DeltaAcceptResult::Applied);
    let snap = shard.snapshot();
    assert_eq!(snap.get(&NodeId(2)).unwrap().value.counter, 13);
    assert_eq!(snap.get(&NodeId(2)).unwrap().generation.age, 6);
}

#[test]
fn inbound_delta_gap_detected() {
    let clock = test_clock();
    let mut shard: ShardCore<TestDeltaStateInner, TestDeltaView, Arc<TestClock>> = make_delta_shard(clock);

    shard.accept_inbound_snapshot(InboundSnapshot {
        source: NodeId(2),
        generation: Generation::new(1, 5),
        wire_version: 1,
        view: TestDeltaView { counter: 10, label: "peer".into() },
        created_time: 1_000_000,
        modified_time: 1_000_000,
    });

    // Peer is at age 5 but delta claims generation (1, 8) — gap (skipped ages).
    let result = shard.accept_inbound_delta(
        NodeId(2), Generation::new(1, 8), 1,
        |_| unreachable!(),
    );

    assert_eq!(result, DeltaAcceptResult::GapDetected {
        local: Generation::new(1, 5),
        incoming: Generation::new(1, 8),
    });
}

#[test]
fn shard_core_inbound_delta_stale_discarded() {
    let clock = test_clock();
    let mut shard: ShardCore<TestDeltaStateInner, TestDeltaView, Arc<TestClock>> = make_delta_shard(clock);

    shard.accept_inbound_snapshot(InboundSnapshot {
        source: NodeId(2),
        generation: Generation::new(2, 10),
        wire_version: 1,
        view: TestDeltaView { counter: 10, label: "peer".into() },
        created_time: 1_000_000,
        modified_time: 1_000_000,
    });

    // Delta from old incarnation 1 but peer is at incarnation 2.
    let result = shard.accept_inbound_delta(
        NodeId(2), Generation::new(1, 10), 1,
        |_| unreachable!(),
    );

    assert_eq!(result, DeltaAcceptResult::Discarded);
}

#[test]
fn inbound_delta_unknown_peer() {
    let clock = test_clock();
    let mut shard: ShardCore<TestDeltaStateInner, TestDeltaView, Arc<TestClock>> = make_delta_shard(clock);

    let result = shard.accept_inbound_delta(
        NodeId(99), Generation::new(1, 1), 1,
        |_| unreachable!(),
    );

    assert_eq!(result, DeltaAcceptResult::UnknownPeer);
}

// ── Additional: mark_stale with new incarnation ─────────────

#[test]
fn mark_stale_new_incarnation_sets_both() {
    let clock = test_clock();
    let mut shard = make_shard(clock);

    shard.accept_inbound_snapshot(InboundSnapshot {
        source: NodeId(2),
        generation: Generation::new(1, 5),
        wire_version: 1,
        view: TestState { counter: 5, label: "peer".into() },
        created_time: 1_000_000,
        modified_time: 1_000_000,
    });

    shard.mark_stale(NodeId(2), 2, 3);

    let snap = shard.snapshot();
    let entry = snap.get(&NodeId(2)).unwrap();
    assert_eq!(entry.pending_remote_generation, Some(Generation::new(2, 3)));
}

// ── Additional: on_node_joined idempotent ───────────────────

#[test]
fn node_joined_idempotent() {
    let clock = test_clock();
    let mut shard = make_shard(clock);
    let default_view = TestState { counter: 0, label: String::new() };

    shard.on_node_joined(NodeId(2), default_view.clone());
    shard.on_node_joined(NodeId(2), default_view);

    assert_eq!(shard.snapshot().len(), 2);
}

// ── Additional: on_node_left for unknown node is noop ───────

#[test]
fn node_left_unknown_noop() {
    let clock = test_clock();
    let mut shard = make_shard(clock);
    shard.on_node_left(NodeId(99));
    assert_eq!(shard.snapshot().len(), 1);
}

// ── Additional: inbound snapshot for new peer without join ──

#[test]
fn inbound_snapshot_creates_entry_for_unknown_peer() {
    let clock = test_clock();
    let mut shard = make_shard(clock);

    let result = shard.accept_inbound_snapshot(InboundSnapshot {
        source: NodeId(5),
        generation: Generation::new(1, 1),
        wire_version: 1,
        view: TestState { counter: 1, label: "new".into() },
        created_time: 1_000_000,
        modified_time: 1_000_000,
    });

    assert_eq!(result, AcceptResult::Accepted);
    assert_eq!(shard.snapshot().len(), 2);
    assert_eq!(shard.snapshot().get(&NodeId(5)).unwrap().value.counter, 1);
}

// ── Additional: accept snapshot clears pending_remote ───────

#[test]
fn accept_snapshot_clears_pending_remote() {
    let clock = test_clock();
    let mut shard = make_shard(clock);

    let default_view = TestState { counter: 0, label: String::new() };
    shard.on_node_joined(NodeId(2), default_view);
    shard.mark_stale(NodeId(2), 1, 10);

    assert!(shard.snapshot().get(&NodeId(2)).unwrap().pending_remote_generation.is_some());

    shard.accept_inbound_snapshot(InboundSnapshot {
        source: NodeId(2),
        generation: Generation::new(1, 10),
        wire_version: 1,
        view: TestState { counter: 10, label: "fresh".into() },
        created_time: 1_000_000,
        modified_time: 1_000_000,
    });

    let snap = shard.snapshot();
    assert_eq!(snap.get(&NodeId(2)).unwrap().pending_remote_generation, None);
}

// ── Partial catch-up preserves pending_remote_generation ────

#[test]
fn accept_snapshot_partial_catchup_preserves_pending() {
    let clock = test_clock();
    let mut shard = make_shard(clock);

    let default_view = TestState { counter: 0, label: String::new() };
    shard.on_node_joined(NodeId(2), default_view);
    // Change feed says peer is at generation (1, 10).
    shard.mark_stale(NodeId(2), 1, 10);

    // Accept a delayed snapshot at generation (1, 6) — still behind.
    shard.accept_inbound_snapshot(InboundSnapshot {
        source: NodeId(2),
        generation: Generation::new(1, 6),
        wire_version: 1,
        view: TestState { counter: 6, label: "partial".into() },
        created_time: 1_000_000,
        modified_time: 1_000_000,
    });

    let snap = shard.snapshot();
    // pending_remote_generation should be preserved — we're not caught up yet.
    assert_eq!(snap.get(&NodeId(2)).unwrap().pending_remote_generation, Some(Generation::new(1, 10)));
    assert_eq!(snap.get(&NodeId(2)).unwrap().value.counter, 6);
}

// ── Delta partial catch-up preserves pending_remote_generation ──

#[test]
fn accept_delta_partial_catchup_preserves_pending() {
    let clock = test_clock();
    let mut shard = make_delta_shard(clock.clone());

    let default_view = TestDeltaView { counter: 0, label: String::new() };
    shard.on_node_joined(NodeId(2), default_view);

    // Accept snapshot to establish baseline at (1, 5).
    shard.accept_inbound_snapshot(InboundSnapshot {
        source: NodeId(2),
        generation: Generation::new(1, 5),
        wire_version: 1,
        view: TestDeltaView { counter: 5, label: "base".into() },
        created_time: 1_000_000,
        modified_time: 1_000_000,
    });

    // Change feed says peer is at (1, 10).
    shard.mark_stale(NodeId(2), 1, 10);

    // Apply delta advancing to (1, 6) — still behind (1, 10).
    let result = shard.accept_inbound_delta(
        NodeId(2), Generation::new(1, 6), 1,
        |v| TestDeltaView { counter: v.counter + 1, label: v.label.clone() },
    );
    assert_eq!(result, DeltaAcceptResult::Applied);

    let snap = shard.snapshot();
    assert_eq!(snap.get(&NodeId(2)).unwrap().pending_remote_generation, Some(Generation::new(1, 10)));
}

// ── on_node_joined marks placeholder as stale ──────────────

#[test]
fn node_joined_placeholder_is_stale() {
    let clock = test_clock();
    let mut shard = make_shard(clock);

    let default_view = TestState { counter: 0, label: String::new() };
    shard.on_node_joined(NodeId(2), default_view);

    let snap = shard.snapshot();
    let entry = snap.get(&NodeId(2)).unwrap();
    // Placeholder should have pending_remote_generation set (marked stale).
    assert!(entry.pending_remote_generation.is_some());
    assert_eq!(entry.generation, Generation::zero());
}

// ── Additional: new_state_object helper ─────────────────────

#[test]
fn test_new_state_object() {
    let clock = TestClock::with_base_unix_ms(5_000_000);
    let state = new_state_object(
        TestState { counter: 0, label: "fresh".into() },
        42,
        &clock,
    );

    assert_eq!(state.age(), 0);
    assert_eq!(state.incarnation(), 42);
    assert_eq!(state.created_time, 5_000_000);
    assert_eq!(state.modified_time, 5_000_000);
    assert_eq!(state.value.counter, 0);
}

// ── WIRE-05: Full snapshot updates view map ─────────────────

#[test]
fn wire_full_snapshot_updates_view_map() {

    let clock = test_clock();
    let mut shard = make_shard(clock);

    // Simulate a peer joining.
    let default_view = TestState { counter: 0, label: String::new() };
    shard.on_node_joined(NodeId(2), default_view);

    // Build a SyncMessage::FullSnapshot as if received over the wire,
    // then extract its fields into an InboundSnapshot.
    let source_node = NodeId(2);
    let gen = Generation::new(1, 7);
    let view = TestState { counter: 42, label: "wire-snap".into() };
    let wire_version = TestState::WIRE_VERSION;

    let result = shard.accept_inbound_snapshot(InboundSnapshot {
        source: source_node,
        generation: gen,
        wire_version,
        view: view.clone(),
        created_time: 1_000_000,
        modified_time: 1_007_000,
    });

    assert_eq!(result, AcceptResult::Accepted);
    let snap = shard.snapshot();
    let entry = snap.get(&NodeId(2)).unwrap();
    assert_eq!(entry.generation, gen);
    assert_eq!(entry.value.counter, 42);
    assert_eq!(entry.value.label, "wire-snap");
}

// ── WIRE-06: Delta update advances peer view ────────────────

#[test]
fn wire_delta_advances_peer_view() {
    let clock = test_clock();
    let mut shard: ShardCore<TestDeltaStateInner, TestDeltaView, Arc<TestClock>> = make_delta_shard(clock);

    // Join peer and accept baseline snapshot at (1, 5).
    let default_view = TestDeltaView { counter: 0, label: String::new() };
    shard.on_node_joined(NodeId(2), default_view);

    shard.accept_inbound_snapshot(InboundSnapshot {
        source: NodeId(2),
        generation: Generation::new(1, 5),
        wire_version: 1,
        view: TestDeltaView { counter: 100, label: "baseline".into() },
        created_time: 1_000_000,
        modified_time: 1_000_000,
    });

    // Simulate receiving a DeltaUpdate: generation advances to (1, 6).
    let result = shard.accept_inbound_delta(
        NodeId(2),
        Generation::new(1, 6),
        1,
        |v| TestDeltaView { counter: v.counter + 5, label: v.label.clone() },
    );

    assert_eq!(result, DeltaAcceptResult::Applied);
    let snap = shard.snapshot();
    assert_eq!(snap.get(&NodeId(2)).unwrap().generation, Generation::new(1, 6));
    assert_eq!(snap.get(&NodeId(2)).unwrap().value.counter, 105);
}

// ── WIRE-07: Change feed marks peer stale ───────────────────

#[test]
fn wire_change_feed_marks_peer_stale() {
    let clock = test_clock();
    let mut shard = make_shard(clock);

    // Accept a snapshot from peer at (1, 5).
    shard.accept_inbound_snapshot(InboundSnapshot {
        source: NodeId(2),
        generation: Generation::new(1, 5),
        wire_version: 1,
        view: TestState { counter: 5, label: "peer".into() },
        created_time: 1_000_000,
        modified_time: 1_000_000,
    });

    // Simulate a BatchedChangeFeed with a ChangeNotification at (1, 10).
    // The actor shell would call mark_stale on the shard.
    shard.mark_stale(NodeId(2), 1, 10);

    let snap = shard.snapshot();
    let entry = snap.get(&NodeId(2)).unwrap();
    assert_eq!(entry.pending_remote_generation, Some(Generation::new(1, 10)));
    // The view value should still be the old snapshot (not yet updated).
    assert_eq!(entry.value.counter, 5);
}

// ── WIRE-08: Request snapshot response ──────────────────────

#[test]
fn wire_request_snapshot_response() {
    let clock = test_clock();
    let mut shard = make_shard(clock);

    // Mutate a few times to build up state.
    shard.apply_mutation(|s| { s.counter = 10; s.label = "first".into(); }, |s| s.clone());
    shard.apply_mutation(|s| { s.counter = 20; s.label = "second".into(); }, |s| s.clone());
    shard.apply_mutation(|s| { s.counter = 30; s.label = "third".into(); }, |s| s.clone());

    // Verify that state() and snapshot() provide the data a peer would
    // need when it sends RequestSnapshot. The actual wire sending is the
    // actor shell's responsibility — here we just verify data accessibility.
    let state = shard.state();
    assert_eq!(state.value.counter, 30);
    assert_eq!(state.value.label, "third");
    assert_eq!(state.generation.age, 3);
    assert_eq!(state.generation.incarnation, 1);

    let snap = shard.snapshot();
    assert_eq!(snap.get(&NodeId(1)).unwrap().value.counter, 30);
    assert_eq!(snap.get(&NodeId(1)).unwrap().generation.age, 3);
}

// ── WIRE-09: Unknown peer snapshot accepted ─────────────────

#[test]
fn wire_unknown_peer_snapshot_accepted() {
    let clock = test_clock();
    let mut shard = make_shard(clock);

    // No prior NodeJoined for NodeId(99) — accept_inbound_snapshot
    // should handle this via update_if which upserts.
    let result = shard.accept_inbound_snapshot(InboundSnapshot {
        source: NodeId(99),
        generation: Generation::new(3, 15),
        wire_version: 1,
        view: TestState { counter: 999, label: "unknown-peer".into() },
        created_time: 2_000_000,
        modified_time: 2_015_000,
    });

    assert_eq!(result, AcceptResult::Accepted);
    let snap = shard.snapshot();
    // Should have created a new entry (self + unknown peer).
    assert_eq!(snap.len(), 2);
    let entry = snap.get(&NodeId(99)).unwrap();
    assert_eq!(entry.value.counter, 999);
    assert_eq!(entry.value.label, "unknown-peer");
    assert_eq!(entry.generation, Generation::new(3, 15));
}

// ══════════════════════════════════════════════════════════════
// Query Logic Tests
// ══════════════════════════════════════════════════════════════

/// Helper: add a peer with a fresh snapshot at a given generation.
fn add_fresh_peer(shard: &mut ShardCore<TestState, TestState, Arc<TestClock>>, node_id: NodeId, counter: u64, clock: &TestClock) {
    let default_view = TestState { counter: 0, label: String::new() };
    shard.on_node_joined(node_id, default_view);
    shard.accept_inbound_snapshot(InboundSnapshot {
        source: node_id,
        generation: Generation::new(1, 1),
        wire_version: 1,
        view: TestState { counter, label: format!("peer-{}", node_id.0) },
        created_time: clock.unix_ms(),
        modified_time: clock.unix_ms(),
    });
}

// ── QUERY-01: Projection callback receives full view map ────

#[test]
fn query_01_projection_receives_full_view_map() {
    let clock = test_clock();
    let mut shard = make_shard(clock.clone());

    add_fresh_peer(&mut shard, NodeId(2), 10, clock.as_ref());
    add_fresh_peer(&mut shard, NodeId(3), 20, clock.as_ref());
    add_fresh_peer(&mut shard, NodeId(4), 30, clock.as_ref());

    let result = shard.query_local(Duration::from_secs(5), |snap| {
        snap.len()
    });

    match result {
        QueryResult::Fresh(count) => assert_eq!(count, 4), // self + 3 peers
        QueryResult::StalePeersDetected { .. } => panic!("expected fresh"),
    }
}

// ── QUERY-02: Stale entries detected by time ────────────────

#[test]
fn query_02_stale_entries_detected_by_time() {
    let tc = Arc::new(TestClock::with_base_unix_ms(1_000_000));
    let clock: Arc<TestClock> = tc.clone();
    let mut shard = make_shard(clock.clone());

    add_fresh_peer(&mut shard, NodeId(2), 10, clock.as_ref());

    // Advance time beyond max_staleness.
    tc.advance(Duration::from_secs(10));

    let result = shard.query_local(Duration::from_secs(5), |snap| {
        snap.len()
    });

    match result {
        QueryResult::StalePeersDetected { stale_peers, result } => {
            assert_eq!(stale_peers, vec![NodeId(2)]);
            assert_eq!(result, 2);
        }
        QueryResult::Fresh(_) => panic!("expected stale detection"),
    }
}

// ── QUERY-03: Fresh entries not re-fetched ──────────────────

#[test]
fn query_03_fresh_entries_not_flagged() {
    let tc = Arc::new(TestClock::with_base_unix_ms(1_000_000));
    let clock: Arc<TestClock> = tc.clone();
    let mut shard = make_shard(clock.clone());

    add_fresh_peer(&mut shard, NodeId(2), 10, clock.as_ref());
    add_fresh_peer(&mut shard, NodeId(3), 20, clock.as_ref());

    // Advance time but stay within max_staleness.
    tc.advance(Duration::from_secs(2));

    let result = shard.query_local(Duration::from_secs(5), |snap| {
        snap.len()
    });

    match result {
        QueryResult::Fresh(count) => assert_eq!(count, 3),
        QueryResult::StalePeersDetected { .. } => panic!("expected fresh"),
    }
}

// ── QUERY-04: Callback result is returned to caller ─────────

#[test]
fn query_04_callback_result_returned() {
    let clock = test_clock();
    let mut shard = make_shard(clock.clone());

    add_fresh_peer(&mut shard, NodeId(2), 42, clock.as_ref());

    let result = shard.query_local(Duration::from_secs(5), |snap| {
        snap.values()
            .into_iter()
            .map(|v| v.value.counter)
            .sum::<u64>()
    });

    match result {
        QueryResult::Fresh(sum) => assert_eq!(sum, 42), // self=0 + peer=42
        QueryResult::StalePeersDetected { .. } => panic!("expected fresh"),
    }
}

// ── QUERY-05: Stale peer produces StalePeersDetected ────────

#[test]
fn query_05_unreachable_peer_returns_stale() {
    let tc = Arc::new(TestClock::with_base_unix_ms(1_000_000));
    let clock: Arc<TestClock> = tc.clone();
    let mut shard = make_shard(clock.clone());

    add_fresh_peer(&mut shard, NodeId(2), 10, clock.as_ref());
    add_fresh_peer(&mut shard, NodeId(3), 20, clock.as_ref());

    // Only peer 2 goes stale.
    tc.advance(Duration::from_secs(6));
    // Re-sync peer 3 so it's fresh.
    shard.accept_inbound_snapshot(InboundSnapshot {
        source: NodeId(3),
        generation: Generation::new(1, 2),
        wire_version: 1,
        view: TestState { counter: 25, label: "refreshed".into() },
        created_time: clock.unix_ms(),
        modified_time: clock.unix_ms(),
    });

    let result = shard.query_local(Duration::from_secs(5), |snap| {
        snap.get(&NodeId(3)).unwrap().value.counter
    });

    match result {
        QueryResult::StalePeersDetected { stale_peers, result } => {
            assert_eq!(stale_peers, vec![NodeId(2)]);
            assert_eq!(result, 25);
        }
        QueryResult::Fresh(_) => panic!("expected stale detection for peer 2"),
    }
}

// ── QUERY-06: pending_remote_generation triggers stale detection

#[test]
fn query_06_pending_remote_generation_triggers_stale() {
    let clock = test_clock();
    let mut shard = make_shard(clock.clone());

    add_fresh_peer(&mut shard, NodeId(2), 10, clock.as_ref());

    // Simulate change feed notification: peer 2 is now at generation (1, 5).
    shard.mark_stale(NodeId(2), 1, 5);

    let result = shard.query_local(Duration::from_secs(60), |snap| {
        snap.get(&NodeId(2)).unwrap().value.counter
    });

    match result {
        QueryResult::StalePeersDetected { stale_peers, result } => {
            assert_eq!(stale_peers, vec![NodeId(2)]);
            assert_eq!(result, 10); // old value still visible
        }
        QueryResult::Fresh(_) => panic!("expected stale detection via pending_remote_generation"),
    }
}

// ── QUERY-07: Multiple stale peers detected concurrently ────

#[test]
fn query_07_multiple_stale_peers() {
    let tc = Arc::new(TestClock::with_base_unix_ms(1_000_000));
    let clock: Arc<TestClock> = tc.clone();
    let mut shard = make_shard(clock.clone());

    add_fresh_peer(&mut shard, NodeId(2), 10, clock.as_ref());
    add_fresh_peer(&mut shard, NodeId(3), 20, clock.as_ref());
    add_fresh_peer(&mut shard, NodeId(4), 30, clock.as_ref());

    // All peers go stale.
    tc.advance(Duration::from_secs(10));

    let result = shard.query_local(Duration::from_secs(5), |snap| {
        snap.len()
    });

    match result {
        QueryResult::StalePeersDetected { mut stale_peers, result } => {
            stale_peers.sort();
            assert_eq!(stale_peers, vec![NodeId(2), NodeId(3), NodeId(4)]);
            assert_eq!(result, 4);
        }
        QueryResult::Fresh(_) => panic!("expected 3 stale peers"),
    }
}

// ── QUERY-08: snapshot() returns stale data without pulling ──

#[test]
fn query_08_snapshot_returns_stale_data_without_freshness() {
    let tc = Arc::new(TestClock::with_base_unix_ms(1_000_000));
    let clock: Arc<TestClock> = tc.clone();
    let mut shard = make_shard(clock.clone());

    add_fresh_peer(&mut shard, NodeId(2), 42, clock.as_ref());

    // Make it very stale.
    tc.advance(Duration::from_secs(3600));

    // snapshot() does not check freshness — returns whatever is there.
    let snap = shard.snapshot();
    assert_eq!(snap.len(), 2);
    assert_eq!(snap.get(&NodeId(2)).unwrap().value.counter, 42);
}

// ── QUERY: local node is never considered stale ─────────────

#[test]
fn query_local_node_never_stale() {
    let tc = Arc::new(TestClock::with_base_unix_ms(1_000_000));
    let clock: Arc<TestClock> = tc.clone();
    let mut shard = make_shard(clock.clone());

    // Advance time so even the local node's synced_at is old.
    tc.advance(Duration::from_secs(100));

    // With no peers, query should always be fresh (local node excluded).
    let result = shard.query_local(Duration::from_secs(5), |snap| {
        snap.len()
    });

    match result {
        QueryResult::Fresh(count) => assert_eq!(count, 1),
        QueryResult::StalePeersDetected { .. } => panic!("local node should not be stale"),
    }
}

// ══════════════════════════════════════════════════════════════
// Dynamic Sync Urgency Integration Tests
// ══════════════════════════════════════════════════════════════

// These tests verify the integration between SyncLogic.resolve_action()
// and ShardCore mutation outcomes. The actual dispatch (push/timer/suppress)
// is actor-shell behavior, but we test the decision logic here.

// ── SYNC-14: Immediate bypasses timer ───────────────────────

#[test]
fn sync_14_immediate_bypasses_timer() {
    let logic = SyncLogic::new("counters".into(), SyncStrategy::active_push(), true);
    let action = logic.resolve_action(SyncUrgency::Immediate);
    assert_eq!(action, SyncAction::BroadcastDelta);
}

// ── SYNC-15: Delayed overrides interval ─────────────────────

#[test]
fn sync_15_delayed_overrides_interval() {
    let logic = SyncLogic::new("counters".into(), SyncStrategy::active_push(), true);
    let delay = Duration::from_secs(1);
    let action = logic.resolve_action(SyncUrgency::Delayed(delay));
    assert_eq!(action, SyncAction::ScheduleDelayed(Duration::from_secs(1)));
}

// ── SYNC-16: Suppress skips broadcast ───────────────────────

#[test]
fn sync_16_suppress_skips_broadcast() {
    let logic = SyncLogic::new("counters".into(), SyncStrategy::active_push(), true);
    let action = logic.resolve_action(SyncUrgency::Suppress);
    assert_eq!(action, SyncAction::Suppress);
}

// ── SYNC-17: Suppressed deltas accumulate ───────────────────

#[test]
fn sync_17_suppressed_deltas_accumulate() {

    let logic = SyncLogic::new("counters".into(), SyncStrategy::active_push(), true);
    let mut acc = DeltaAccumulator::new();

    // 3 suppressed mutations → accumulate.
    for i in 0..3 {
        let action = logic.resolve_action(SyncUrgency::Suppress);
        assert_eq!(action, SyncAction::Suppress);
        acc.accumulate(format!("delta-{i}"));
    }

    // Non-suppressed mutation → flush accumulated + broadcast current.
    let action = logic.resolve_action(SyncUrgency::Immediate);
    assert_eq!(action, SyncAction::BroadcastDelta);

    let flushed = acc.flush().unwrap();
    assert_eq!(flushed.len(), 3);
    assert_eq!(flushed[0], "delta-0");
    assert_eq!(flushed[2], "delta-2");
    // After flush, buffer is empty.
    assert!(acc.is_empty());
}

// ── SYNC-18: Default uses configured strategy ───────────────

#[test]
fn sync_18_default_uses_configured_strategy() {
    // ActivePush → BroadcastDelta for Default urgency.
    let push_logic = SyncLogic::new("counters".into(), SyncStrategy::active_push(), true);
    assert_eq!(
        push_logic.resolve_action(SyncUrgency::Default),
        SyncAction::BroadcastDelta,
    );

    // ActiveFeedLazyPull → NotifyChangeFeed for Default urgency.
    let feed_logic = SyncLogic::new("sessions".into(), SyncStrategy::feed_lazy_pull(), true);
    assert_eq!(
        feed_logic.resolve_action(SyncUrgency::Default),
        SyncAction::NotifyChangeFeed,
    );
}

// ══════════════════════════════════════════════════════════════
// Error Handling Tests
// ══════════════════════════════════════════════════════════════

// ── ERR-05: Stale-state retry succeeds on second attempt ────

#[test]
fn err_05_stale_retry_succeeds_after_refresh() {
    let tc = Arc::new(TestClock::with_base_unix_ms(1_000_000));
    let clock: Arc<TestClock> = tc.clone();
    let mut shard = make_shard(clock.clone());

    add_fresh_peer(&mut shard, NodeId(2), 10, clock.as_ref());

    // First query: peer is stale.
    tc.advance(Duration::from_secs(10));

    let result = shard.query_local(Duration::from_secs(5), |snap| {
        snap.get(&NodeId(2)).unwrap().value.counter
    });
    assert!(matches!(result, QueryResult::StalePeersDetected { .. }));

    // Simulate the actor shell pulling fresh data.
    shard.accept_inbound_snapshot(InboundSnapshot {
        source: NodeId(2),
        generation: Generation::new(1, 5),
        wire_version: 1,
        view: TestState { counter: 99, label: "refreshed".into() },
        created_time: clock.unix_ms(),
        modified_time: clock.unix_ms(),
    });

    // Second query: all fresh now.
    let result = shard.query_local(Duration::from_secs(5), |snap| {
        snap.get(&NodeId(2)).unwrap().value.counter
    });
    match result {
        QueryResult::Fresh(counter) => assert_eq!(counter, 99),
        QueryResult::StalePeersDetected { .. } => panic!("expected fresh after refresh"),
    }
}

// ── ERR-06: Backoff between retries ─────────────────────────
// At the pure-logic level, we verify that stale_peers() consistently
// returns the same stale peers until they are refreshed, supporting
// a retry loop with backoff at the actor shell level.

#[test]
fn err_06_stale_peers_consistent_for_retry() {
    let tc = Arc::new(TestClock::with_base_unix_ms(1_000_000));
    let clock: Arc<TestClock> = tc.clone();
    let mut shard = make_shard(clock.clone());

    add_fresh_peer(&mut shard, NodeId(2), 10, clock.as_ref());
    tc.advance(Duration::from_secs(10));

    // Multiple calls consistently report the same stale peer.
    let stale1 = shard.stale_peers(Duration::from_secs(5));
    let stale2 = shard.stale_peers(Duration::from_secs(5));
    assert_eq!(stale1, stale2);
    assert_eq!(stale1, vec![NodeId(2)]);

    // After refresh, peer is no longer stale.
    shard.accept_inbound_snapshot(InboundSnapshot {
        source: NodeId(2),
        generation: Generation::new(1, 5),
        wire_version: 1,
        view: TestState { counter: 99, label: "refreshed".into() },
        created_time: clock.unix_ms(),
        modified_time: clock.unix_ms(),
    });

    let stale3 = shard.stale_peers(Duration::from_secs(5));
    assert!(stale3.is_empty());
}

// ═══════════════════════════════════════════════════════════
// Persist-before-publish (two-phase mutation) tests
// ═══════════════════════════════════════════════════════════

// ── PERSIST-01: save() called after each mutation ────────────

#[test]
fn persist_01_prepare_returns_state_to_persist() {
    let clock = test_clock();
    let mut shard = make_shard(clock.clone());

    // Three prepare calls — each returns the next state to persist
    let p1 = shard.prepare_mutation(|s| s.counter = 1, |s| s.clone());
    assert_eq!(p1.state().generation.age, 1);
    assert_eq!(p1.state().value.counter, 1);

    // Without committing p1, shard is unchanged — but we can still
    // prepare again (would produce same age since shard hasn't changed)
    let p1b = shard.prepare_mutation(|s| s.counter = 10, |s| s.clone());
    assert_eq!(p1b.state().generation.age, 1);
    assert_eq!(p1b.state().value.counter, 10);
}

// ── PERSIST-03: State survives actor restart (simulation) ────

#[test]
fn persist_03_state_survives_restart() {
    let clock = test_clock();
    let mut shard = make_shard(clock.clone());

    // Mutate to age 5
    for i in 1..=5 {
        let prepared = shard.prepare_mutation(
            move |s| s.counter = i,
            |s| s.clone(),
        );
        // Simulate successful persist
        shard.commit_mutation(prepared);
    }
    let saved = shard.state().clone();
    assert_eq!(saved.generation.age, 5);
    assert_eq!(saved.value.counter, 5);

    // Simulate restart — create new shard from saved state
    let mut shard2 = ShardCore::new(
        NodeId(1),
        saved.clone(),
        saved.value.clone(),
        clock,
    );
    assert_eq!(shard2.state().generation.age, 5);
    assert_eq!(shard2.state().value.counter, 5);
}

// ── PERSIST-04: No persistence when disabled ─────────────────

#[test]
fn persist_04_no_persistence_direct_commit() {
    let clock = test_clock();
    let mut shard = make_shard(clock);

    // When persistence is disabled, the actor shell calls
    // prepare + commit without persisting in between.
    let prepared = shard.prepare_mutation(|s| s.counter = 42, |s| s.clone());
    let outcome = shard.commit_mutation(prepared);

    assert_eq!(outcome.generation.age, 1);
    assert_eq!(shard.state().value.counter, 42);
}

// ── PERSIST-05 / ERR-03: Save failure returns no outcome ─────

#[test]
fn persist_05_err_03_save_failure_no_commit() {
    let clock = test_clock();
    let mut shard = make_shard(clock);

    // Prepare a mutation
    let _prepared = shard.prepare_mutation(|s| s.counter = 99, |s| s.clone());

    // Simulate save failure — just drop the prepared value.
    // The MutationError::PersistenceFailed is constructed by the actor
    // shell. Here we verify that dropping the prepared value leaves
    // shard state unchanged.
    drop(_prepared);

    assert_eq!(shard.state().generation.age, 0);
    assert_eq!(shard.state().value.counter, 0);
}

// ── PERSIST-07: Save failure prevents age advance ────────────

#[test]
fn persist_07_save_failure_prevents_age_advance() {
    let clock = test_clock();
    let mut shard = make_shard(clock);

    // Successful mutation to age 3
    for _ in 0..3 {
        let p = shard.prepare_mutation(|s| s.counter += 1, |s| s.clone());
        shard.commit_mutation(p);
    }
    assert_eq!(shard.state().generation.age, 3);

    // Next mutation: prepare succeeds but "save fails" → don't commit
    let prepared = shard.prepare_mutation(|s| s.counter += 1, |s| s.clone());
    assert_eq!(prepared.state().generation.age, 4);
    drop(prepared); // simulate save failure

    // Age is still 3
    assert_eq!(shard.state().generation.age, 3);
    assert_eq!(shard.state().value.counter, 3);
}

// ── PERSIST-08: Save failure leaves view_map unchanged ───────

#[test]
fn persist_08_save_failure_viewmap_unchanged() {
    let clock = test_clock();
    let mut shard = make_shard(clock);

    shard.apply_mutation(|s| s.counter = 5, |s| s.clone());
    let view_before = shard.get_view(&NodeId(1)).unwrap();
    assert_eq!(view_before.value.counter, 5);

    // Prepare mutation but don't commit (save failure)
    let prepared = shard.prepare_mutation(|s| s.counter = 99, |s| s.clone());
    drop(prepared);

    // View map still shows counter=5
    let view_after = shard.get_view(&NodeId(1)).unwrap();
    assert_eq!(view_after.value.counter, 5);
    assert_eq!(view_after.generation.age, 1);
}

// ── PERSIST-09: Save failure does not broadcast ──────────────

#[test]
fn persist_09_save_failure_no_broadcast() {
    let clock = test_clock();
    let mut shard = make_shard(clock);

    // Prepare mutation — the outcome that would be broadcast is inside
    // PreparedMutation. If we drop it, no outcome is returned.
    let prepared = shard.prepare_mutation(|s| s.counter = 42, |s| s.clone());

    // Verify the prepared mutation has the view that would have been broadcast
    assert_eq!(prepared.view.counter, 42);

    // Drop it (simulate save failure) — no MutationOutcome returned
    drop(prepared);

    // State unchanged — nothing to broadcast
    assert_eq!(shard.state().generation.age, 0);
}

// ── PERSIST-10: Successful save then publish ordering ────────

#[test]
fn persist_10_save_then_publish_ordering() {
    let clock = test_clock();
    let mut shard = make_shard(clock);

    // Phase 1: prepare (state not yet changed)
    let prepared = shard.prepare_mutation(|s| s.counter = 42, |s| s.clone());
    assert_eq!(shard.state().generation.age, 0, "state unchanged before commit");
    assert_eq!(
        shard.get_view(&NodeId(1)).unwrap().value.counter, 0,
        "view unchanged before commit"
    );

    // Simulate: persist succeeds here
    let persisted_state = prepared.state().clone();
    assert_eq!(persisted_state.generation.age, 1);

    // Phase 2: commit (state + view updated atomically)
    let outcome = shard.commit_mutation(prepared);
    assert_eq!(shard.state().generation.age, 1, "state updated after commit");
    assert_eq!(
        shard.get_view(&NodeId(1)).unwrap().value.counter, 42,
        "view updated after commit"
    );
    assert_eq!(outcome.generation.age, 1);
    assert_eq!(outcome.view.counter, 42);
}

// ── Delta-aware two-phase mutation tests ─────────────────────

#[test]
fn persist_delta_prepare_commit_cycle() {
    let clock = test_clock();
    let mut shard = make_delta_shard(clock);

    let prepared = shard.prepare_mutation_with_delta(
        |s| {
            s.counter += 1;
            s.label = "updated".into();
            TestDeltaChange {
                counter_delta: 1,
                new_label: Some("updated".into()),
                accumulator_delta: 0.0,
            }
        },
        |s| TestDeltaState::project_view(s),
        |dc| TestDeltaState::project_delta(dc),
    );

    assert_eq!(shard.state().generation.age, 0, "unchanged before commit");

    let outcome = shard.commit_delta_mutation(prepared);
    assert_eq!(shard.state().generation.age, 1);
    assert_eq!(outcome.generation.age, 1);
    assert_eq!(outcome.view.counter, 1);
}

#[test]
fn persist_delta_save_failure_rollback() {
    let clock = test_clock();
    let mut shard = make_delta_shard(clock);

    // Commit one mutation successfully
    let p1 = shard.prepare_mutation_with_delta(
        |s| {
            s.counter += 1;
            TestDeltaChange {
                counter_delta: 1,
                new_label: None,
                accumulator_delta: 0.0,
            }
        },
        |s| TestDeltaState::project_view(s),
        |dc| TestDeltaState::project_delta(dc),
    );
    shard.commit_delta_mutation(p1);
    assert_eq!(shard.state().generation.age, 1);

    // Prepare second mutation but "save fails"
    let p2 = shard.prepare_mutation_with_delta(
        |s| {
            s.counter += 10;
            TestDeltaChange {
                counter_delta: 10,
                new_label: None,
                accumulator_delta: 0.0,
            }
        },
        |s| TestDeltaState::project_view(s),
        |dc| TestDeltaState::project_delta(dc),
    );
    drop(p2);

    // State unchanged — still at age 1 with counter=1
    assert_eq!(shard.state().generation.age, 1);
    assert_eq!(shard.state().value.counter, 1);
}
