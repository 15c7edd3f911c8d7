//! What holds across operations, on concrete values.

use std::sync::Arc;

use dstate::host::interceptor as host;
use dstate::host::network::{Fate, InProcessTransport};
use dstate::replica::diagnostics::DiagnosticsLogic;
use dstate::replica::shard_core::{
    new_state_object_at, AcceptResult, DeltaAcceptResult, InboundSnapshot, ShardCore,
};
use dstate::replica::sync_logic::{SyncAction, SyncLogic};
use dstate::sim::cluster::MockCluster;
use dstate::sim::interceptor::{
    splitmix64, CorruptBytes, DelayTicks, DropAll, DropRate, DuplicateAll, InterceptAction,
    InterceptContext, NetworkInterceptor, Partition,
};
use dstate::sim::test_codec::test_codec;
use dstate::sim::transport::MockTransport;
use dstate::test_support::test_clock::TestClock;
use dstate::test_support::test_state::TestState;
use dstate::{
    BatchedChangeFeed, ChangeNotification, Clock, DeserializeError, DistributedState,
    DistributedStateEngine, Duration, EngineAction, EngineQueryResult, Generation, HealthStatus,
    Instant, NodeId, StateConfig, StateObject, SyncMessage, SyncStrategy, SyncUrgency,
    VersionMismatchPolicy, WireMessage,
};

type Shard = ShardCore<u64, u64, Arc<TestClock>>;
type Serialize = Box<dyn Fn(&TestState) -> Vec<u8>>;
type Deserialize = Box<dyn Fn(&[u8], u32) -> Result<TestState, DeserializeError>>;
type ApplyDelta = Box<dyn Fn(&[u8], u32, &TestState) -> Result<TestState, DeserializeError>>;
type Engine = DistributedStateEngine<
    TestState,
    TestState,
    Arc<TestClock>,
    Serialize,
    Deserialize,
    ApplyDelta,
>;

fn clock() -> Arc<TestClock> {
    Arc::new(TestClock::with_base_unix_ms(1_000))
}

fn shard() -> Shard {
    ShardCore::new(NodeId(1), new_state_object_at(10, 5, 1_000), 10, clock())
}

fn snap(source: u64, incarnation: u64, age: u64, view: u64) -> InboundSnapshot<u64> {
    InboundSnapshot {
        source: NodeId(source),
        generation: Generation::new(incarnation, age),
        wire_version: 1,
        view,
        created_time: 1,
        modified_time: 2,
    }
}

fn held(shard: &Shard, id: u64) -> (u64, Generation) {
    let view = shard.get_view(&NodeId(id)).unwrap();
    (view.value, view.generation)
}

// ── One shard ───────────────────────────────────────────────────

#[test]
fn snapshot_only_advances_on_values() {
    let mut s = shard();
    assert_eq!(s.accept_inbound_snapshot(snap(2, 3, 4, 7)), AcceptResult::Accepted);
    assert_eq!(s.accept_inbound_snapshot(snap(2, 3, 3, 8)), AcceptResult::Discarded);
    assert_eq!(s.accept_inbound_snapshot(snap(2, 2, 99, 9)), AcceptResult::Discarded);
    assert_eq!(held(&s, 2), (7, Generation::new(3, 4)));
    assert_eq!(s.accept_inbound_snapshot(snap(2, 4, 0, 1)), AcceptResult::Accepted);
    assert_eq!(held(&s, 2), (1, Generation::new(4, 0)));
}

#[test]
fn duplicates_are_discarded_on_values() {
    let mut s = shard();
    s.accept_inbound_snapshot(snap(2, 3, 4, 7));
    assert_eq!(s.accept_inbound_snapshot(snap(2, 3, 4, 7)), AcceptResult::Discarded);
    let next = Generation::new(3, 5);
    assert_eq!(
        s.accept_inbound_delta(NodeId(2), next, 1, |v| v + 1),
        DeltaAcceptResult::Applied
    );
    assert_eq!(
        s.accept_inbound_delta(NodeId(2), next, 1, |v| v + 1),
        DeltaAcceptResult::Discarded
    );
    assert_eq!(held(&s, 2), (8, next));
}

#[test]
fn snapshot_order_does_not_matter_on_values() {
    let (older, newer) = ((2, 3, 4, 7), (2, 3, 5, 8));
    for order in [[older, newer], [newer, older]] {
        let mut s = shard();
        for (source, incarnation, age, view) in order {
            s.accept_inbound_snapshot(snap(source, incarnation, age, view));
        }
        assert_eq!(held(&s, 2), (8, Generation::new(3, 5)));
    }
}

#[test]
fn snapshot_touches_its_source_alone_on_values() {
    let mut s = shard();
    s.accept_inbound_snapshot(snap(2, 3, 4, 7));
    s.accept_inbound_snapshot(snap(3, 1, 1, 6));
    s.accept_inbound_snapshot(snap(2, 3, 5, 8));
    assert_eq!(held(&s, 3), (6, Generation::new(1, 1)));
    assert_eq!(held(&s, 1), (10, Generation::new(5, 0)));
}

#[test]
fn delta_follows_its_mutation_on_values() {
    let mut s = shard();
    assert_eq!(
        s.accept_inbound_delta(NodeId(2), Generation::new(3, 5), 1, |v| *v),
        DeltaAcceptResult::UnknownPeer
    );
    s.accept_inbound_snapshot(snap(2, 3, 4, 7));
    assert_eq!(
        s.accept_inbound_delta(NodeId(2), Generation::new(3, 6), 1, |v| *v),
        DeltaAcceptResult::GapDetected {
            local: Generation::new(3, 4),
            incoming: Generation::new(3, 6),
        }
    );
    assert_eq!(
        s.accept_inbound_delta(NodeId(2), Generation::new(3, 5), 1, |v| v * 2),
        DeltaAcceptResult::Applied
    );
    assert_eq!(held(&s, 2), (14, Generation::new(3, 5)));
}

#[test]
fn notice_and_join_keep_views_on_values() {
    let mut s = shard();
    s.accept_inbound_snapshot(snap(2, 3, 4, 7));
    s.mark_stale(NodeId(2), 3, 9);
    s.on_node_joined(NodeId(2), 0);
    assert_eq!(held(&s, 2), (7, Generation::new(3, 4)));
    assert_eq!(
        s.get_view(&NodeId(2)).unwrap().pending_remote_generation,
        Some(Generation::new(3, 9))
    );
}

#[test]
fn pending_is_kept_until_caught_up_on_values() {
    let mut s = shard();
    s.accept_inbound_snapshot(snap(2, 3, 4, 7));
    s.mark_stale(NodeId(2), 3, 9);
    s.accept_inbound_snapshot(snap(2, 3, 8, 8));
    assert_eq!(
        s.get_view(&NodeId(2)).unwrap().pending_remote_generation,
        Some(Generation::new(3, 9))
    );
    s.accept_inbound_snapshot(snap(2, 3, 9, 9));
    assert_eq!(s.get_view(&NodeId(2)).unwrap().pending_remote_generation, None);
}

#[test]
fn placeholder_gives_way_on_values() {
    let mut s = shard();
    s.on_node_joined(NodeId(2), 99);
    assert_eq!(held(&s, 2), (99, Generation::zero()));
    assert_eq!(s.stale_peers(Duration::from_secs(60)), vec![NodeId(2)]);
    assert_eq!(s.accept_inbound_snapshot(snap(2, 1, 0, 7)), AcceptResult::Accepted);
    assert_eq!(held(&s, 2), (7, Generation::new(1, 0)));
    assert!(s.stale_peers(Duration::from_secs(60)).is_empty());
}

#[test]
fn leave_undoes_join_on_values() {
    let mut s = shard();
    s.on_node_joined(NodeId(2), 99);
    s.on_node_left(NodeId(2));
    assert_eq!(s.view_count(), 1);
    s.on_node_left(NodeId(1));
    assert_eq!(held(&s, 1), (10, Generation::new(5, 0)));
}

#[test]
fn mutation_keeps_peer_views_on_values() {
    let mut s = shard();
    s.accept_inbound_snapshot(snap(2, 3, 4, 7));
    let outcome = s.apply_mutation(|v| *v = 11, |v| *v + 1);
    assert_eq!(outcome.generation, Generation::new(5, 1));
    assert_eq!(outcome.view, 12);
    assert_eq!(held(&s, 1), (12, Generation::new(5, 1)));
    assert_eq!(held(&s, 2), (7, Generation::new(3, 4)));
    assert!(Shard::should_accept(outcome.generation, Generation::new(5, 0)));
}

#[test]
fn prepare_and_commit_is_apply_on_values() {
    let mut applied = shard();
    let mut prepared = shard();
    applied.apply_mutation(|v| *v += 5, |v| *v);
    let change = prepared.prepare_mutation(|v| *v += 5, |v| *v);
    // Nothing has happened yet.
    assert_eq!(held(&prepared, 1), (10, Generation::new(5, 0)));
    prepared.commit_mutation(change);
    assert_eq!(held(&prepared, 1), held(&applied, 1));
    assert_eq!(prepared.state().value, applied.state().value);
    assert_eq!(prepared.state().generation, applied.state().generation);
}

#[test]
fn committed_shard_is_like_applied_on_values() {
    let clock = clock();
    let object = || new_state_object_at(10, 5, 1_000);
    let mut committed: Shard = ShardCore::new(NodeId(1), object(), 10, clock.clone());
    let mut applied: Shard = ShardCore::new(NodeId(1), object(), 10, clock.clone());
    committed.accept_inbound_snapshot(snap(2, 3, 4, 7));
    applied.accept_inbound_snapshot(snap(2, 3, 4, 7));
    clock.advance(Duration::from_millis(250));
    let prepared = committed.prepare_mutation(|v| *v += 5, |v| *v * 2);
    let first = committed.commit_mutation(prepared);
    let second = applied.apply_mutation(|v| *v += 5, |v| *v * 2);
    assert_eq!((first.generation, first.view), (second.generation, second.view));
    assert_eq!(first.view, 30);
    assert_eq!(committed.state().modified_time, 1_250);
    assert_eq!(committed.state().modified_time, applied.state().modified_time);
    for id in [1, 2] {
        let a = committed.get_view(&NodeId(id)).unwrap();
        let b = applied.get_view(&NodeId(id)).unwrap();
        assert_eq!((a.value, a.generation, a.synced_at), (b.value, b.generation, b.synced_at));
    }
    // A prepared mutation that is dropped has no effect.
    drop(applied.prepare_mutation(|v| *v += 1, |v| *v));
    assert_eq!(held(&applied, 1), held(&committed, 1));
}

#[test]
fn gaps_add_up_on_values() {
    let mut d = DiagnosticsLogic::new("s".into());
    for peer in [2, 3, 2, 2, 4] {
        d.record_gap_detected(NodeId(peer));
        d.record_sync_failure_at(NodeId(peer), "lost", 5);
    }
    d.record_sync_success_at(NodeId(2), 1, 6);
    let mut s = shard();
    for source in [2, 3, 4] {
        s.accept_inbound_snapshot(snap(source, 1, 1, 0));
    }
    let statuses = d.sync_status(&s);
    let gaps: u64 = statuses.iter().map(|status| status.gap_count).sum();
    assert_eq!(gaps, 5);
    assert_eq!(d.metrics().age_gaps_detected, 5);
    // The total outlives a peer.
    d.remove_peer(&NodeId(2));
    assert_eq!(d.metrics().age_gaps_detected, 5);
    assert_eq!(d.peer_count(), 2);
}

#[test]
fn stale_peers_are_the_stale_ones_on_values() {
    let mut s = shard();
    let start = Instant { nanos: 0 };
    s.accept_inbound_snapshot_at(snap(2, 1, 1, 7), start);
    s.accept_inbound_snapshot_at(snap(3, 1, 1, 7), Instant { nanos: 50 });
    let at = |nanos: u128| Instant { nanos };
    let limit = Duration::from_nanos(100);
    assert!(s.stale_peers_at(limit, at(100)).is_empty());
    assert_eq!(s.stale_peers_at(limit, at(101)), vec![NodeId(2)]);
    assert_eq!(s.stale_peers_at(limit, at(151)), vec![NodeId(2), NodeId(3)]);
}

#[test]
fn urgency_overrides_strategy_on_values() {
    let silent = SyncStrategy {
        push_mode: None,
        ..SyncStrategy::active_push()
    };
    let logic = SyncLogic::new("s".into(), silent, false);
    assert_eq!(logic.resolve_action(SyncUrgency::Immediate), SyncAction::BroadcastSnapshot);
    let loud = SyncLogic::new("s".into(), SyncStrategy::active_push(), true);
    assert_eq!(loud.resolve_action(SyncUrgency::Suppress), SyncAction::Suppress);
    let delay = Duration::from_secs(1);
    assert_eq!(
        loud.resolve_action(SyncUrgency::Delayed(delay)),
        SyncAction::ScheduleDelayed(delay)
    );
}

// ── Two engines ─────────────────────────────────────────────────

fn engine(id: u64, config: StateConfig) -> Engine {
    let serialize: Serialize = Box::new(|v: &TestState| v.serialize_state());
    let deserialize: Deserialize =
        Box::new(|b: &[u8], v: u32| TestState::deserialize_state(b, v));
    let apply: ApplyDelta = Box::new(|b: &[u8], _: u32, view: &TestState| {
        if b.is_empty() {
            return Err(DeserializeError::Malformed("empty".into()));
        }
        Ok(TestState { counter: view.counter + b[0] as u64, label: view.label.clone() })
    });
    DistributedStateEngine::new(
        TestState::name(),
        NodeId(id),
        TestState::default(),
        |s: &TestState| s.clone(),
        config,
        TestState::WIRE_VERSION,
        clock(),
        serialize,
        deserialize,
        Some(apply),
    )
}

fn default_engine(id: u64) -> Engine {
    engine(id, StateConfig::default())
}

fn set(e: &mut Engine, counter: u64, urgency: SyncUrgency) -> Vec<EngineAction> {
    e.mutate(|s| s.counter = counter, |s| s.clone(), urgency).actions
}

fn full(counter: u64, generation: Generation, wire_version: u32) -> SyncMessage {
    SyncMessage::FullSnapshot {
        state_name: "test_state".into(),
        source_node: NodeId(2),
        generation,
        wire_version,
        data: TestState { counter, label: "".into() }.serialize_state(),
    }
}

fn delta(step: u8, generation: Generation) -> SyncMessage {
    SyncMessage::DeltaUpdate {
        state_name: "test_state".into(),
        source_node: NodeId(2),
        generation,
        wire_version: 1,
        data: vec![step],
    }
}

fn counter_of(e: &Engine, id: u64) -> Option<u64> {
    e.get_view(&NodeId(id)).map(|v| v.value.counter)
}

#[test]
fn pushed_mutation_reaches_peer_on_values() {
    let mut owner = default_engine(1);
    let mut peer = default_engine(2);
    peer.on_node_joined(NodeId(1), TestState::default());
    let sent = set(&mut owner, 42, SyncUrgency::Immediate);
    assert_eq!(sent.len(), 1);
    match &sent[0] {
        EngineAction::BroadcastSync(message) => {
            assert!(peer.handle_inbound_sync(message.clone()).is_empty());
        }
        other => panic!("expected BroadcastSync, got {other:?}"),
    }
    assert_eq!(counter_of(&peer, 1), Some(42));
    assert_eq!(peer.get_view(&NodeId(1)).unwrap().generation, owner.state().generation);
}

#[test]
fn pushed_mutation_round_trip_on_values() {
    let mut owner = default_engine(1);
    let mut peer = default_engine(2);
    set(&mut peer, 7, SyncUrgency::Suppress);
    let sent = set(&mut owner, 42, SyncUrgency::Immediate);
    match &sent[0] {
        EngineAction::BroadcastSync(message) => {
            assert!(peer.can_take(message));
            assert!(peer.handle_inbound_sync(message.clone()).is_empty());
            assert_eq!(counter_of(&peer, 1), Some(42));
            let synced = peer.get_view(&NodeId(1)).unwrap().synced_at;
            assert!(peer.handle_inbound_sync(message.clone()).is_empty());
            let view = peer.get_view(&NodeId(1)).unwrap();
            assert_eq!((view.value.counter, view.synced_at), (42, synced));
            assert_eq!(view.generation, owner.state().generation);
        }
        other => panic!("expected BroadcastSync, got {other:?}"),
    }
    assert_eq!(peer.state().value.counter, 7);
    assert_eq!(peer.metrics().stale_deltas_discarded, 1);
}

#[test]
fn undecodable_snapshot_is_a_failure_on_values() {
    let damaged = |wire_version| SyncMessage::FullSnapshot {
        state_name: "test_state".into(),
        source_node: NodeId(2),
        generation: Generation::new(9, 10),
        wire_version,
        data: vec![1, 2, 3],
    };
    for (policy, wire_version, kept) in [
        (VersionMismatchPolicy::KeepStale, 2, Some(5)),
        (VersionMismatchPolicy::KeepStale, 1, Some(5)),
        (VersionMismatchPolicy::DropAndWait, 1, Some(5)),
        (VersionMismatchPolicy::DropAndWait, 2, None),
    ] {
        let mut e = engine(1, StateConfig {
            version_mismatch_policy: policy,
            ..StateConfig::default()
        });
        e.handle_inbound_sync(full(5, Generation::new(9, 9), 1));
        assert!(e.handle_inbound_sync(damaged(wire_version)).is_empty());
        assert_eq!(counter_of(&e, 2), kept);
        assert_eq!(e.metrics().sync_failures, 1);
        assert_eq!(e.metrics().snapshots_received, 1);
        assert!(e.should_accept_from(&NodeId(2)));
    }
}

#[test]
fn dropped_view_is_replaced_by_any_snapshot_on_values() {
    let mut e = engine(1, StateConfig {
        version_mismatch_policy: VersionMismatchPolicy::DropAndWait,
        ..StateConfig::default()
    });
    e.handle_inbound_sync(full(5, Generation::new(9, 9), 1));
    e.handle_inbound_sync(full(6, Generation::new(9, 10), 2));
    assert_eq!(counter_of(&e, 2), None);
    // An older snapshot than the one that was dropped.
    e.handle_inbound_sync(full(3, Generation::new(4, 1), 1));
    assert_eq!(counter_of(&e, 2), Some(3));
    assert_eq!(e.get_view(&NodeId(2)).unwrap().generation, Generation::new(4, 1));
}

#[test]
fn peer_diagnostics_tell_of_failures() {
    let mut e = default_engine(1);
    assert!(e.peer_diagnostics(&NodeId(2)).is_none());
    let unknown = full(6, Generation::new(9, 10), 2);
    assert_eq!(unknown.sender(), NodeId(2));
    e.handle_inbound_sync(unknown.clone());
    e.handle_inbound_sync(unknown);
    let noted = e.peer_diagnostics(&NodeId(2)).unwrap();
    assert_eq!(noted.consecutive_failures(), 2);
    assert!(noted.last_error().is_some());
    assert_eq!(noted.last_sync_latency_ms(), None);
    e.handle_inbound_sync(full(6, Generation::new(9, 10), 1));
    let noted = e.peer_diagnostics(&NodeId(2)).unwrap();
    assert_eq!(noted.consecutive_failures(), 0);
    assert_eq!(noted.last_error(), None);
    assert_eq!(noted.last_sync_latency_ms(), Some(0));
    let request = SyncMessage::RequestSnapshot { state_name: "s".into(), requester: NodeId(4) };
    assert_eq!(request.sender(), NodeId(4));
    assert_eq!(delta(1, Generation::new(1, 1)).sender(), NodeId(2));
}

#[test]
fn fresh_counters_have_room() {
    let e = default_engine(1);
    assert!(e.can_mutate());
    assert!(e.can_push());
    assert!(e.can_take(&full(1, Generation::new(1, 1), 1)));
    assert!(e.can_take(&delta(1, Generation::new(1, 1))));
    assert!(e.can_handle(&wire()));
    let feed = BatchedChangeFeed { source_node: NodeId(2), notifications: vec![] };
    assert!(e.can_handle(&WireMessage::Feed(feed)));
}

#[test]
fn ghosts_and_other_states_are_ignored_on_values() {
    let mut e = default_engine(1);
    e.on_node_joined(NodeId(2), TestState::default());
    e.on_node_left(NodeId(2));
    assert!(e.handle_inbound_sync(full(5, Generation::new(9, 9), 1)).is_empty());
    assert_eq!(counter_of(&e, 2), None);
    assert!(!e.should_accept_from(&NodeId(2)));

    let mut other = default_engine(1);
    let foreign = SyncMessage::RequestSnapshot {
        state_name: "another".into(),
        requester: NodeId(2),
    };
    assert!(other.handle_inbound_sync(foreign).is_empty());
}

#[test]
fn departed_until_rejoined_on_values() {
    let mut e = default_engine(1);
    e.on_node_left(NodeId(2));
    assert!(!e.should_accept_from(&NodeId(2)));
    e.on_node_joined(NodeId(2), TestState::default());
    assert!(e.should_accept_from(&NodeId(2)));
    e.handle_inbound_sync(full(5, Generation::new(9, 9), 1));
    assert_eq!(counter_of(&e, 2), Some(5));
}

#[test]
fn inbound_keeps_owned_state_on_values() {
    let mut e = default_engine(1);
    set(&mut e, 3, SyncUrgency::Default);
    let own: StateObject<TestState> = e.state().clone();
    e.handle_inbound_sync(full(5, Generation::new(9, 9), 1));
    e.handle_inbound_sync(delta(1, Generation::new(9, 10)));
    assert!(e.state().value == own.value);
    assert_eq!(e.state().generation, own.generation);
    assert_eq!(counter_of(&e, 1), Some(3));
    assert_eq!(e.metrics().total_mutations, 1);
}

#[test]
fn delta_is_adopted_on_values() {
    let mut e = default_engine(1);
    e.handle_inbound_sync(full(5, Generation::new(9, 9), 1));
    assert!(e.handle_inbound_sync(delta(4, Generation::new(9, 10))).is_empty());
    assert_eq!(counter_of(&e, 2), Some(9));
    assert_eq!(e.metrics().deltas_received, 1);
    // The view never goes back.
    e.handle_inbound_sync(delta(1, Generation::new(9, 3)));
    e.handle_inbound_sync(full(1, Generation::new(8, 77), 1));
    assert_eq!(counter_of(&e, 2), Some(9));
    assert_eq!(e.metrics().stale_deltas_discarded, 2);
}

#[test]
fn gap_is_answered_by_request_on_values() {
    let mut e = default_engine(1);
    e.handle_inbound_sync(full(5, Generation::new(9, 9), 1));
    let answer = e.handle_inbound_sync(delta(4, Generation::new(9, 12)));
    assert_eq!(answer.len(), 1);
    assert!(matches!(
        &answer[0],
        EngineAction::SendSync {
            target: NodeId(2),
            message: SyncMessage::RequestSnapshot { requester: NodeId(1), .. },
        }
    ));
    assert_eq!(e.metrics().age_gaps_detected, 1);
    assert_eq!(counter_of(&e, 2), Some(5));
}

#[test]
fn periodic_sync_reaches_peer_on_values() {
    let mut owner = engine(2, StateConfig {
        sync_strategy: SyncStrategy::periodic_only(Duration::from_secs(30)),
        ..StateConfig::default()
    });
    let mut peer = default_engine(1);
    peer.on_node_joined(NodeId(2), TestState::default());
    // Two changes that no one hears of.
    assert!(set(&mut owner, 3, SyncUrgency::Default).is_empty());
    assert!(set(&mut owner, 4, SyncUrgency::Default).is_empty());
    let sent = owner.periodic_sync();
    match &sent[..] {
        [EngineAction::BroadcastSync(message)] => {
            assert!(peer.handle_inbound_sync(message.clone()).is_empty());
        }
        other => panic!("unexpected actions {other:?}"),
    }
    assert_eq!(counter_of(&peer, 2), Some(4));
    assert_eq!(peer.get_view(&NodeId(2)).unwrap().generation, owner.state().generation);
    assert!(default_engine(1).periodic_sync().is_empty());
}

#[test]
fn request_is_answered_on_values() {
    let mut e = default_engine(1);
    set(&mut e, 8, SyncUrgency::Suppress);
    let answer = e.handle_inbound(WireMessage::Sync(SyncMessage::RequestSnapshot {
        state_name: "test_state".into(),
        requester: NodeId(2),
    }));
    match &answer[..] {
        [EngineAction::SendSync {
            target: NodeId(2),
            message: SyncMessage::FullSnapshot { data, generation, .. },
        }] => {
            assert_eq!(TestState::deserialize_state(data, 1).unwrap().counter, 8);
            assert_eq!(*generation, e.state().generation);
        }
        other => panic!("unexpected answer {other:?}"),
    }
}

#[test]
fn suppressed_mutation_is_silent_on_values() {
    let mut e = default_engine(1);
    assert!(set(&mut e, 8, SyncUrgency::Suppress).is_empty());
    assert_eq!(e.pending_change_feed_count(), 0);
    assert_eq!(e.metrics().deltas_suppressed, 1);
    assert_eq!(e.state().value.counter, 8);
}

#[test]
fn announced_change_makes_view_stale_on_values() {
    let config = StateConfig {
        sync_strategy: SyncStrategy::feed_lazy_pull(),
        ..StateConfig::default()
    };
    let mut owner = engine(2, config);
    let mut e = engine(1, config);
    e.handle_inbound_sync(full(5, Generation::new(1_000, 0), 1));
    assert!(set(&mut owner, 6, SyncUrgency::Default).is_empty());
    assert!(set(&mut owner, 7, SyncUrgency::Default).is_empty());
    assert_eq!(owner.pending_change_feed_count(), 1);
    let feed = owner.flush_change_feed().unwrap();
    assert_eq!(feed.notifications.len(), 1);
    assert_eq!(feed.notifications[0].generation, Generation::new(1_000, 2));
    e.handle_inbound_change_feed(feed);
    assert_eq!(counter_of(&e, 2), Some(5));
    let (answer, pulls) = e.query(Duration::from_secs(60), |views| views.len());
    assert!(matches!(
        answer,
        EngineQueryResult::Stale { result: 2, stale_peers } if stale_peers == vec![NodeId(2)]
    ));
    assert!(matches!(&pulls[..], [EngineAction::SendSync { target: NodeId(2), .. }]));
}

#[test]
fn mismatch_follows_policy_on_values() {
    for (policy, kept) in [
        (VersionMismatchPolicy::KeepStale, Some(5)),
        (VersionMismatchPolicy::DropAndWait, None),
    ] {
        let mut e = engine(1, StateConfig {
            version_mismatch_policy: policy,
            ..StateConfig::default()
        });
        e.handle_inbound_sync(full(5, Generation::new(9, 9), 1));
        e.handle_inbound_sync(full(6, Generation::new(9, 10), 2));
        assert_eq!(counter_of(&e, 2), kept);
        assert_eq!(e.metrics().sync_failures, 1);
    }
}

#[test]
fn own_changes_come_back_unheard() {
    let mut e = default_engine(1);
    e.handle_inbound_change_feed(BatchedChangeFeed {
        source_node: NodeId(1),
        notifications: vec![ChangeNotification {
            state_name: "test_state".into(),
            source_node: NodeId(1),
            generation: Generation::new(99, 99),
        }],
    });
    assert_eq!(e.get_view(&NodeId(1)).unwrap().pending_remote_generation, None);
}

#[test]
fn health_is_by_strict_majority_on_values() {
    let mut e = default_engine(1);
    let at = Instant { nanos: 0 };
    for id in [2, 3] {
        e.on_node_joined(NodeId(id), TestState::default());
    }
    // Both peers have only placeholders.
    assert_eq!(e.health_at(Duration::from_secs(1), at).status, HealthStatus::Unhealthy);
    e.handle_inbound_sync(full(1, Generation::new(1, 1), 1));
    // One of two is no strict majority.
    assert_eq!(e.health_at(Duration::from_secs(1), at).status, HealthStatus::Unhealthy);
    e.on_node_left(NodeId(3));
    assert_eq!(e.health_at(Duration::from_secs(1), at).status, HealthStatus::Healthy);
}

// ── A cluster ───────────────────────────────────────────────────

#[test]
fn pushed_mutation_reaches_every_node_on_values() {
    let mut cluster = MockCluster::with_test_state(4, StateConfig::default(), test_codec);
    cluster.settle().expect("the cluster settles");
    cluster.mutate(NodeId(2), |s| s.counter = 5, |s| s.clone(), SyncUrgency::Immediate);
    assert_eq!(cluster.in_flight_count(), 3);
    cluster.tick();
    assert_eq!(cluster.in_flight_count(), 3);
    cluster.tick();
    assert!(cluster.is_settled());
    let generation = cluster.engine(NodeId(2)).state().generation;
    for id in [0, 1, 3] {
        let view = cluster.engine(NodeId(id)).get_view(&NodeId(2)).unwrap();
        assert_eq!(view.value.counter, 5);
        assert_eq!(view.generation, generation);
    }
}

#[test]
fn pushed_mutation_overtakes_what_is_under_way() {
    // The greetings of the nodes are still in transit.
    let mut cluster = MockCluster::with_test_state(3, StateConfig::default(), test_codec);
    assert_eq!(cluster.in_flight_count(), 6);
    cluster.mutate(NodeId(0), |s| s.counter = 42, |s| s.clone(), SyncUrgency::Immediate);
    cluster.tick();
    cluster.tick();
    let generation = cluster.engine(NodeId(0)).state().generation;
    for id in [1, 2] {
        let view = cluster.engine(NodeId(id)).get_view(&NodeId(0)).unwrap();
        assert_eq!((view.value.counter, view.generation), (42, generation));
    }
}

#[test]
fn settled_cluster_holds_every_last_push_on_values() {
    let mut cluster = MockCluster::with_test_state(3, StateConfig::default(), test_codec);
    let later = SyncUrgency::Delayed(Duration::from_millis(300));
    for (id, counter, urgency) in [
        (0, 1, SyncUrgency::Immediate),
        (1, 10, later),
        (0, 2, later),
        (2, 100, SyncUrgency::Immediate),
        (0, 3, SyncUrgency::Immediate),
        (1, 11, later),
    ] {
        cluster.mutate(NodeId(id), |s| s.counter = counter, |s| s.clone(), urgency);
    }
    cluster.settle().expect("the cluster settles");
    for observer in 0..3 {
        for (owner, counter) in [(0, 3), (1, 11), (2, 100)] {
            let view = cluster.engine(NodeId(observer)).get_view(&NodeId(owner)).unwrap();
            assert_eq!(view.value.counter, counter);
            let generation = cluster.engine(NodeId(owner)).state().generation;
            assert_eq!(view.generation, generation);
        }
    }
}

#[test]
fn settled_cluster_stays_settled_on_values() {
    let mut cluster = MockCluster::with_test_state(3, StateConfig::default(), test_codec);
    cluster.mutate(NodeId(0), |s| s.counter = 5, |s| s.clone(), SyncUrgency::Default);
    cluster.settle().expect("the cluster settles");
    let before = cluster.engine(NodeId(1)).metrics();
    assert_eq!(cluster.settle(), Some(0));
    assert_eq!(cluster.tick_n(50), 50);
    assert!(cluster.is_settled());
    assert_eq!(cluster.engine(NodeId(1)).metrics(), before);
}

#[test]
fn tick_moves_the_shared_clock() {
    let clock = clock();
    let mut cluster: MockCluster<
        TestState,
        TestState,
        Arc<TestClock>,
        Serialize,
        Deserialize,
        ApplyDelta,
    > = MockCluster::new(clock.clone(), Duration::from_millis(100), 1);
    cluster.tick();
    assert_eq!(clock.unix_ms(), 1_100);
    assert_eq!(cluster.tick_n(9), 9);
    assert_eq!(clock.unix_ms(), 2_000);
    assert_eq!(cluster.settle(), Some(0));
    assert_eq!(clock.unix_ms(), 2_000);
}

#[test]
fn fresh_cluster_has_greetings_in_transit() {
    for n in [0usize, 1, 2, 4] {
        let mut cluster = MockCluster::with_test_state(n, StateConfig::default(), test_codec);
        assert_eq!(cluster.in_flight_count(), n * n.saturating_sub(1));
        for id in 0..n {
            let metrics = cluster.engine(NodeId(id as u64)).metrics();
            assert_eq!(metrics.snapshots_sent, n as u64 - 1);
            assert_eq!(metrics.snapshots_received, 0);
        }
        cluster.settle().expect("the cluster settles");
        for id in 0..n {
            let metrics = cluster.engine(NodeId(id as u64)).metrics();
            assert_eq!(metrics.snapshots_received, n as u64 - 1);
        }
    }
}

#[test]
fn settling_gives_up_at_its_limit() {
    let mut cluster = MockCluster::with_test_state(2, StateConfig::default(), test_codec);
    cluster
        .transport_mut()
        .add_interceptor(Box::new(DelayTicks(10)));
    cluster.mutate(NodeId(0), |s| s.counter = 5, |s| s.clone(), SyncUrgency::Default);
    assert_eq!(cluster.settle_with_limit(3), None);
    assert_eq!(cluster.current_tick(), 3);
    assert!(cluster.settle().is_some());
}

#[test]
fn joining_is_mutual_on_values() {
    let cluster = MockCluster::with_test_state(3, StateConfig::default(), test_codec);
    assert_eq!(cluster.all_node_ids(), vec![NodeId(0), NodeId(1), NodeId(2)]);
    for a in 0..3 {
        for b in 0..3 {
            assert_eq!(counter_or_none(&cluster, a, b), Some(0));
        }
    }
    // Every node has sent its snapshot to every other.
    assert_eq!(cluster.in_flight_count(), 6);
    assert_eq!(cluster.corrupted_count(), 0);
}

fn counter_or_none<SV, DV, DA>(
    cluster: &MockCluster<TestState, TestState, Arc<TestClock>, SV, DV, DA>,
    observer: u64,
    target: u64,
) -> Option<u64>
where
    SV: Fn(&TestState) -> Vec<u8>,
    DV: Fn(&[u8], u32) -> Result<TestState, DeserializeError>,
    DA: Fn(&[u8], u32, &TestState) -> Result<TestState, DeserializeError>,
{
    cluster
        .engine(NodeId(observer))
        .get_view(&NodeId(target))
        .map(|v| v.value.counter)
}

#[test]
fn removed_node_is_forgotten_on_values() {
    let mut cluster = MockCluster::with_test_state(3, StateConfig::default(), test_codec);
    cluster.remove_node_hard(NodeId(1));
    // What was in flight between the other two stays.
    assert_eq!(cluster.in_flight_count(), 2);
    assert_eq!(cluster.node_count(), 2);
    for id in [0, 2] {
        assert_eq!(counter_or_none(&cluster, id, 1), None);
        assert!(!cluster.engine(NodeId(id)).should_accept_from(&NodeId(1)));
    }
    cluster.settle().expect("the cluster settles");
    assert_eq!(counter_or_none(&cluster, 0, 1), None);
}

#[test]
fn tick_keeps_owned_states_on_values() {
    let mut cluster = MockCluster::with_test_state(2, StateConfig::default(), test_codec);
    cluster.mutate(NodeId(0), |s| s.counter = 5, |s| s.clone(), SyncUrgency::Default);
    let generation = cluster.engine(NodeId(1)).state().generation;
    cluster.tick();
    cluster.tick();
    assert_eq!(cluster.current_tick(), 2);
    assert_eq!(cluster.engine(NodeId(1)).state().generation, generation);
    assert_eq!(cluster.engine(NodeId(1)).state().value.counter, 0);
    assert!(cluster.can_tick());
}

// ── The network ─────────────────────────────────────────────────

fn wire() -> WireMessage {
    WireMessage::Sync(full(1, Generation::new(1, 1), 1))
}

#[test]
fn delivery_conserves_messages_on_values() {
    let mut t = MockTransport::new(7);
    t.send(NodeId(1), NodeId(2), &wire());
    t.add_interceptor(Box::new(DelayTicks(1)));
    t.send(NodeId(1), NodeId(3), &wire());
    t.clear_interceptors();
    assert_eq!(t.in_flight_count(), 2);
    t.advance_tick();
    let result = t.deliver_due();
    assert_eq!(
        (result.delivered.len(), result.corrupted.len(), t.in_flight_count()),
        (1, 0, 1)
    );
    assert_eq!(result.delivered[0].to, NodeId(2));
    t.advance_tick();
    assert_eq!(t.current_tick(), 2);
    assert_eq!(t.deliver_due().delivered[0].to, NodeId(3));
}

#[test]
fn total_failure_lets_nothing_through_on_values() {
    let mut t = MockTransport::new(7);
    t.add_interceptor(Box::new(DropAll));
    t.broadcast(NodeId(1), &wire(), &vec![NodeId(1), NodeId(2), NodeId(3)]);
    assert_eq!(t.in_flight_count(), 0);
}

#[test]
fn total_failure_ends_with_its_interceptor() {
    let mut t = MockTransport::new(42);
    t.add_interceptor(Box::new(DropAll));
    t.send(NodeId(0), NodeId(1), &wire());
    assert_eq!(t.in_flight_count(), 0);
    t.clear_interceptors();
    assert_eq!(t.in_flight_count(), 0);
    t.send(NodeId(0), NodeId(1), &wire());
    assert_eq!(t.in_flight_count(), 1);
}

#[test]
fn duplicates_survive_delay_on_values() {
    let mut t = MockTransport::new(42);
    t.add_interceptor(Box::new(DuplicateAll));
    t.add_interceptor(Box::new(DelayTicks(2)));
    t.send(NodeId(0), NodeId(1), &wire());
    assert_eq!(t.in_flight_count(), 2);
    for _ in 0..2 {
        t.advance_tick();
        assert!(t.deliver_due().delivered.is_empty());
        assert_eq!(t.in_flight_count(), 2);
    }
    t.advance_tick();
    assert_eq!(t.deliver_due().delivered.len(), 2);
    assert_eq!(t.in_flight_count(), 0);
}

#[test]
fn host_pipeline_follows_its_interceptors() {
    let (from, to) = (NodeId(0), NodeId(1));
    let mut t: InProcessTransport<u64> = InProcessTransport::new();
    t.register(to, 7);
    assert!(matches!(t.send(from, to, vec![1]), Fate::Deliver(d) if d == vec![1]));
    let by = Duration::from_millis(5);
    t.add_interceptor(Box::new(host::DelayAll::new(by)));
    t.add_interceptor(Box::new(host::DropAll));
    // What the first holds back the second never sees.
    match t.send(from, to, vec![1]) {
        Fate::DeliverLater(data, delay) => assert_eq!((data, delay), (vec![1], by)),
        other => panic!("expected a delay, got {other:?}"),
    }
    t.clear_interceptors();
    t.add_interceptor(Box::new(host::DropAll));
    assert!(matches!(t.send(from, to, vec![1]), Fate::Lost));
    t.clear_interceptors();
    // The generator moves on with every message.
    let threshold = 1u64 << 63;
    t.add_interceptor(Box::new(host::DropRate::with_threshold(threshold, 42)));
    let mut state: u64 = 42;
    for _ in 0..20 {
        state = host::next_u64(state);
        let lost = matches!(t.send(from, to, vec![9]), Fate::Lost);
        assert_eq!(lost, state < threshold);
    }
}

/// An interceptor of a user's own, which turns the bytes around.
struct Reverse;

impl NetworkInterceptor for Reverse {
    fn intercept(
        &mut self,
        _from: NodeId,
        _to: NodeId,
        msg_bytes: &[u8],
        _context: &InterceptContext,
    ) -> InterceptAction {
        InterceptAction::Deliver(msg_bytes.iter().rev().copied().collect())
    }
}

impl host::Interceptor for Reverse {
    fn intercept(&mut self, _from: NodeId, _to: NodeId, data: Vec<u8>) -> host::InterceptResult {
        host::InterceptResult::Deliver(data.into_iter().rev().collect())
    }
}

#[test]
fn pipelines_take_interceptors_of_others() {
    let mut t = MockTransport::new(42);
    t.add_interceptor(Box::new(Reverse));
    t.add_interceptor(Box::new(Reverse));
    t.send(NodeId(0), NodeId(1), &wire());
    t.advance_tick();
    // Turned around twice, the message is whole again.
    assert_eq!(t.deliver_due().delivered.len(), 1);

    let mut t: InProcessTransport<u64> = InProcessTransport::new();
    t.add_interceptor(Box::new(Reverse));
    let fate = t.send(NodeId(0), NodeId(1), vec![1, 2, 3]);
    assert!(matches!(fate, Fate::Deliver(d) if d == vec![3, 2, 1]));
}

#[test]
fn crash_loses_the_nodes_messages_on_values() {
    let mut t = MockTransport::new(7);
    t.send(NodeId(1), NodeId(2), &wire());
    t.send(NodeId(2), NodeId(3), &wire());
    t.send(NodeId(3), NodeId(1), &wire());
    t.drop_in_flight_for(NodeId(2));
    assert_eq!(t.in_flight_count(), 1);
}

fn context(message_id: u64) -> InterceptContext {
    InterceptContext { current_tick: 0, message_id, rng_seed: 0 }
}

#[test]
fn hash_is_exact() {
    // SplitMix64 from 0 and from 1.
    assert_eq!(splitmix64(0), 0xe220_a839_7b1d_cdaf);
    assert_eq!(splitmix64(1), 0x910a_2dec_8902_5cc1);
}

#[test]
fn flip_changes_one_byte_and_is_undone_on_values() {
    let original = vec![1u8, 2, 3, 4, 5];
    let flip = |bytes: &[u8]| {
        match CorruptBytes::new(3).intercept(NodeId(1), NodeId(2), bytes, &context(9)) {
            InterceptAction::Deliver(out) => out,
            other => panic!("expected Deliver, got {other:?}"),
        }
    };
    let once = flip(&original);
    let changed = once.iter().zip(&original).filter(|(a, b)| a != b).count();
    assert_eq!(changed, 1);
    assert_eq!(flip(&once), original);
    assert!(flip(&[]).is_empty());
}

#[test]
fn partition_cuts_between_its_sides_on_values() {
    let dropped = |a: InterceptAction| matches!(a, InterceptAction::Drop);
    let mut one_way = Partition::asymmetric(vec![NodeId(1)], vec![NodeId(2)]);
    assert!(dropped(one_way.intercept(NodeId(1), NodeId(2), &[], &context(0))));
    assert!(!dropped(one_way.intercept(NodeId(2), NodeId(1), &[], &context(0))));
    assert!(!dropped(one_way.intercept(NodeId(1), NodeId(3), &[], &context(0))));
}

#[test]
fn drop_threshold_bounds() {
    let mut never = DropRate::with_threshold(0, 1);
    let mut always = DropRate::with_threshold(1 << 64, 1);
    for id in 0..50 {
        assert!(matches!(
            never.intercept(NodeId(1), NodeId(2), &[7], &context(id)),
            InterceptAction::Deliver(d) if d == vec![7]
        ));
        assert!(matches!(
            always.intercept(NodeId(1), NodeId(2), &[7], &context(id)),
            InterceptAction::Drop
        ));
    }
}
