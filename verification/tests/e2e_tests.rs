//! Nodes that exchange bytes over an in-process transport with faults, driven to quiescence
//! without a runtime.

use std::collections::{BTreeMap, VecDeque};
use std::sync::Arc;

use dstate::host::interceptor::{
    next_u64, CorruptBytes, DelayAll, DropAll, DropRate, InterceptResult, Interceptor, Partition,
};
use dstate::host::network::{Fate, InProcessTransport};
use dstate::host::node::{
    background_tasks, handle, introductions, mutate, shows_counter, Dispatch, Introduction,
    NodeCommand,
};
use dstate::test_support::configs::{
    active_push_config, feed_lazy_pull_config, periodic_only_config, periodic_push_config,
};
use dstate::test_support::test_clock::TestClock;
use dstate::test_support::test_state::TestState;
use dstate::{
    DeserializeError, DistributedState, DistributedStateEngine, Duration, EngineQueryResult,
    NodeId, PushMode, StateConfig, SyncUrgency,
};

type Serialize = Box<dyn Fn(&TestState) -> Vec<u8>>;
type Deserialize = Box<dyn Fn(&[u8], u32) -> Result<TestState, DeserializeError>>;
type ApplyDelta = Box<dyn Fn(&[u8], u32, &TestState) -> Result<TestState, DeserializeError>>;
type Engine = DistributedStateEngine<
    TestState,
    TestState,
    Arc<TestClock>,
    Serialize,
    Deserialize,
    ApplyDelta,
>;

/// The share of the generator's range below which messages are dropped at the given rate.
fn drop_rate(rate: f64, seed: u64) -> DropRate {
    DropRate::with_threshold((rate * u64::MAX as f64) as u64, seed)
}

struct LocalCluster {
    engines: BTreeMap<u64, Engine>,
    transport: InProcessTransport<u64>,
    /// What has been put on a channel: target and bytes.
    arrived: VecDeque<(u64, Vec<u8>)>,
    /// What arrives after a delay.
    delayed: VecDeque<(u64, Vec<u8>)>,
    clock: Arc<TestClock>,
    config: StateConfig,
}

impl LocalCluster {
    fn new(node_count: u64, config: StateConfig) -> Self {
        let mut cluster = LocalCluster {
            engines: BTreeMap::new(),
            transport: InProcessTransport::new(),
            arrived: VecDeque::new(),
            delayed: VecDeque::new(),
            clock: Arc::new(TestClock::with_base_unix_ms(1_000_000)),
            config,
        };
        for i in 0..node_count {
            cluster.add_node(NodeId(i));
        }
        cluster
    }

    fn add_node(&mut self, node_id: NodeId) {
        let serialize: Serialize = Box::new(|v: &TestState| v.serialize_state());
        let deserialize: Deserialize =
            Box::new(|b: &[u8], _v: u32| TestState::deserialize_state(b, TestState::WIRE_VERSION));
        let apply: Option<ApplyDelta> = None;
        // A restarted node has a later incarnation.
        self.clock.advance(Duration::from_millis(1));
        let engine = DistributedStateEngine::new(
            TestState::name(),
            node_id,
            TestState::default(),
            |s: &TestState| s.clone(),
            self.config,
            TestState::WIRE_VERSION,
            self.clock.clone(),
            serialize,
            deserialize,
            apply,
        );
        let existing: Vec<NodeId> = self.engines.keys().map(|&id| NodeId(id)).collect();
        self.transport.register(node_id, node_id.0);
        self.engines.insert(node_id.0, engine);
        for intro in introductions(&existing, node_id) {
            self.command(
                intro.told,
                NodeCommand::OnNodeJoined {
                    node_id: intro.about,
                    default_view: TestState::default(),
                },
            );
        }
        self.pump();
    }

    fn remove_node(&mut self, node_id: NodeId) {
        self.engines.remove(&node_id.0);
        self.transport.unregister(node_id);
        let rest: Vec<u64> = self.engines.keys().copied().collect();
        for id in rest {
            self.command(NodeId(id), NodeCommand::OnNodeLeft { node_id });
        }
    }

    fn command(&mut self, node: NodeId, command: NodeCommand<TestState>) {
        let out = handle(self.engines.get_mut(&node.0).unwrap(), command);
        self.dispatch(node, out);
    }

    fn mutate(&mut self, node: NodeId, change: impl FnOnce(&mut TestState), urgency: SyncUrgency) {
        let engine = self.engines.get_mut(&node.0).unwrap();
        let out = mutate(engine, change, |s: &TestState| s.clone(), urgency);
        self.dispatch(node, out);
        self.pump();
    }

    fn dispatch(&mut self, from: NodeId, out: Vec<Dispatch>) {
        for item in out {
            match item {
                Dispatch::Broadcast(bytes) | Dispatch::BroadcastLater { bytes, .. } => {
                    for (to, fate) in self.transport.broadcast(from, bytes) {
                        self.accept(to, fate);
                    }
                }
                Dispatch::Send { to, bytes } => {
                    let fate = self.transport.send(from, to, bytes);
                    self.accept(to, fate);
                }
            }
        }
    }

    fn accept(&mut self, to: NodeId, fate: Fate) {
        match fate {
            Fate::Deliver(bytes) => {
                if let Some(channel) = self.transport.channel(to) {
                    self.arrived.push_back((*channel, bytes));
                }
            }
            Fate::DeliverLater(bytes, _) => self.delayed.push_back((to.0, bytes)),
            Fate::Lost => {}
        }
    }

    fn pump(&mut self) {
        while let Some((to, wire_bytes)) = self.arrived.pop_front() {
            if self.engines.contains_key(&to) {
                self.command(NodeId(to), NodeCommand::HandleInbound { wire_bytes });
            }
        }
    }

    fn sees(&self, observer: u64, target: u64, counter: u64) -> bool {
        shows_counter(&self.engines[&observer].snapshot(), NodeId(target), counter)
    }
}

// ── Scenarios ───────────────────────────────────────────────────

#[test]
fn e2e_01_basic_mutation() {
    let mut cluster = LocalCluster::new(2, active_push_config());
    cluster.mutate(NodeId(0), |s| s.counter = 42, SyncUrgency::Default);
    assert!(cluster.sees(1, 0, 42), "node 1 should see node 0's counter = 42");
}

#[test]
fn e2e_02_bidirectional_sync() {
    let mut cluster = LocalCluster::new(2, active_push_config());
    cluster.mutate(NodeId(0), |s| s.counter = 10, SyncUrgency::Default);
    cluster.mutate(NodeId(1), |s| s.counter = 20, SyncUrgency::Default);
    assert!(cluster.sees(0, 1, 20), "node 0 should see node 1's counter = 20");
    assert!(cluster.sees(1, 0, 10), "node 1 should see node 0's counter = 10");
}

#[test]
fn e2e_03_multi_node_fanout() {
    let mut cluster = LocalCluster::new(4, active_push_config());
    cluster.mutate(NodeId(0), |s| s.counter = 99, SyncUrgency::Default);
    for i in 1..4 {
        assert!(cluster.sees(i, 0, 99), "node {i} should see node 0's counter = 99");
    }
}

#[test]
fn e2e_04_delta_sync_roundtrip() {
    let mut cluster = LocalCluster::new(2, active_push_config());
    cluster.mutate(
        NodeId(0),
        |s| {
            s.counter = 7;
            s.label = "hello".into();
        },
        SyncUrgency::Default,
    );
    let snap = cluster.engines[&1].snapshot();
    let view = snap.get(&NodeId(0)).unwrap();
    assert!(
        view.value.counter == 7 && view.value.label == "hello",
        "node 1 should see node 0's counter=7 and label='hello'"
    );
}

#[test]
fn e2e_05_node_join_snapshot() {
    let mut cluster = LocalCluster::new(2, active_push_config());
    cluster.mutate(NodeId(0), |s| s.counter = 42, SyncUrgency::Default);
    assert!(cluster.sees(1, 0, 42), "node 1 should see counter=42 before adding node 2");
    cluster.add_node(NodeId(2));
    assert!(cluster.sees(2, 0, 42), "node 2 (newly joined) should see node 0's counter = 42");
}

#[test]
fn e2e_06_node_leave_cleans_views() {
    let mut cluster = LocalCluster::new(3, active_push_config());
    cluster.mutate(NodeId(2), |s| s.counter = 77, SyncUrgency::Default);
    assert!(cluster.sees(0, 2, 77), "node 0 should see node 2's counter=77");
    cluster.remove_node(NodeId(2));
    assert!(
        !cluster.engines[&0].snapshot().contains_key(&NodeId(2)),
        "node 0 should no longer have a view for removed node 2"
    );
}

#[test]
fn e2e_07_periodic_sync() {
    let config = periodic_only_config(Duration::from_millis(200));
    let mut cluster = LocalCluster::new(2, config);
    cluster.mutate(NodeId(0), |s| s.counter = 42, SyncUrgency::Default);
    assert!(!cluster.sees(1, 0, 42));
    let tasks = background_tasks(&config);
    assert_eq!(tasks.periodic_sync, Some(Duration::from_millis(200)));
    assert_eq!(tasks.feed_flush, None);
    cluster.command(NodeId(0), NodeCommand::PeriodicSync);
    cluster.pump();
    assert!(cluster.sees(1, 0, 42), "node 1 should see counter=42 after periodic sync");
}

#[test]
fn e2e_08_feed_lazy_pull() {
    let config = feed_lazy_pull_config();
    let mut cluster = LocalCluster::new(2, config);
    cluster.mutate(NodeId(0), |s| s.counter = 55, SyncUrgency::Default);
    assert_eq!(background_tasks(&config).feed_flush, Some(Duration::from_secs(1)));
    assert_eq!(background_tasks(&config).periodic_sync, None);
    cluster.clock.advance(Duration::from_secs(2));
    cluster.command(NodeId(0), NodeCommand::FlushChangeFeed);
    cluster.pump();

    let (result, actions) =
        cluster.engines[&1].query(Duration::from_millis(100), |views| views.len());
    assert!(matches!(result, EngineQueryResult::Stale { .. }));
    let out = dstate::host::node::route_actions(&actions);
    cluster.dispatch(NodeId(1), out);
    cluster.pump();
    assert!(cluster.sees(1, 0, 55), "node 1 should eventually see counter=55 via feed+pull");
}

#[test]
fn e2e_09_concurrent_mutations() {
    let mut cluster = LocalCluster::new(3, active_push_config());
    cluster.mutate(NodeId(0), |s| s.counter = 100, SyncUrgency::Default);
    cluster.mutate(NodeId(1), |s| s.counter = 200, SyncUrgency::Default);
    cluster.mutate(NodeId(2), |s| s.counter = 300, SyncUrgency::Default);
    for observer in 0..3 {
        assert!(
            cluster.sees(observer, 0, 100)
                && cluster.sees(observer, 1, 200)
                && cluster.sees(observer, 2, 300),
            "all nodes should converge after concurrent mutations"
        );
    }
}

#[test]
fn e2e_10_query_freshness() {
    let mut cluster = LocalCluster::new(2, active_push_config());
    cluster.mutate(NodeId(0), |s| s.counter = 1, SyncUrgency::Default);
    assert!(cluster.sees(1, 0, 1), "sync should complete");
    let (result, _) = cluster.engines[&1].query(Duration::from_secs(60), |views| views.len());
    assert!(
        matches!(result, EngineQueryResult::Fresh(_)),
        "query should be Fresh after recent sync"
    );
}

#[test]
fn e2e_11_multiple_mutations() {
    let mut cluster = LocalCluster::new(2, active_push_config());
    for i in 1..=10 {
        cluster.mutate(NodeId(0), move |s| s.counter = i, SyncUrgency::Default);
    }
    assert!(cluster.sees(1, 0, 10), "node 1 should see final counter = 10");
}

#[test]
fn e2e_12_cluster_events() {
    let mut cluster = LocalCluster::new(2, active_push_config());
    cluster.mutate(NodeId(0), |s| s.counter = 88, SyncUrgency::Default);
    assert!(cluster.sees(1, 0, 88), "pre-condition: node 1 sees counter=88");
    cluster.add_node(NodeId(2));
    assert!(
        cluster.sees(2, 0, 88),
        "new node 2 should receive snapshot via cluster join event"
    );
}

#[test]
fn e2e_f01_network_partition() {
    let mut cluster = LocalCluster::new(2, active_push_config());
    let partition = Partition::new(vec![NodeId(0)], vec![NodeId(1)]);
    cluster.transport.add_interceptor(Box::new(partition));
    cluster.mutate(NodeId(0), |s| s.counter = 42, SyncUrgency::Default);
    assert!(
        !cluster.sees(1, 0, 42),
        "partition should isolate node 1 from node 0's mutation"
    );
    cluster.transport.clear_interceptors();
    cluster.mutate(NodeId(0), |s| s.counter = 43, SyncUrgency::Default);
    assert!(cluster.sees(1, 0, 43), "after healing, node 1 should see counter=43");
}

#[test]
fn e2e_f02_total_network_failure() {
    let mut cluster = LocalCluster::new(2, active_push_config());
    cluster.transport.add_interceptor(Box::new(DropAll));
    cluster.mutate(NodeId(0), |s| s.counter = 10, SyncUrgency::Default);
    assert!(!cluster.sees(1, 0, 10), "total failure should isolate nodes");
    cluster.transport.clear_interceptors();
    cluster.mutate(NodeId(0), |s| s.counter = 11, SyncUrgency::Default);
    assert!(cluster.sees(1, 0, 11), "after restoring network, node 1 should see counter=11");
}

#[test]
fn e2e_f03_packet_loss() {
    let config = periodic_push_config(Duration::from_millis(200));
    assert_eq!(config.sync_strategy.push_mode, Some(PushMode::ActivePush));
    let mut cluster = LocalCluster::new(2, config);
    cluster.transport.add_interceptor(Box::new(drop_rate(0.3, 42)));
    cluster.mutate(NodeId(0), |s| s.counter = 42, SyncUrgency::Default);
    for _ in 0..50 {
        cluster.command(NodeId(0), NodeCommand::PeriodicSync);
        cluster.pump();
    }
    assert!(
        cluster.sees(1, 0, 42),
        "should converge despite 30% packet loss (periodic sync helps)"
    );
}

#[test]
fn e2e_f04_corruption() {
    let mut cluster = LocalCluster::new(2, active_push_config());
    cluster.transport.add_interceptor(Box::new(CorruptBytes::new(123)));
    cluster.mutate(NodeId(0), |s| s.counter = 42, SyncUrgency::Default);
    assert!(
        cluster.engines[&0].metrics().total_mutations >= 1,
        "local mutation should succeed"
    );
    let snap = cluster.engines[&1].snapshot();
    if let Some(v) = snap.get(&NodeId(0)) {
        assert!(
            v.value.counter == 42 || v.value.counter == 0,
            "corrupted view should be either correct (lucky bit flip) or default"
        );
    }
}

#[test]
fn e2e_f05_node_crash_restart() {
    let mut cluster = LocalCluster::new(2, active_push_config());
    cluster.mutate(NodeId(0), |s| s.counter = 42, SyncUrgency::Default);
    assert!(cluster.sees(1, 0, 42), "pre-condition: node 1 sees counter=42");
    cluster.remove_node(NodeId(1));
    cluster.add_node(NodeId(1));
    assert!(
        cluster.sees(1, 0, 42),
        "restarted node 1 should get node 0's state via snapshot"
    );
}

#[test]
fn e2e_f06_message_delay() {
    let mut cluster = LocalCluster::new(2, active_push_config());
    cluster
        .transport
        .add_interceptor(Box::new(DelayAll::new(Duration::from_millis(200))));
    cluster.mutate(NodeId(0), |s| s.counter = 42, SyncUrgency::Default);
    assert!(!cluster.sees(1, 0, 42));
    let late: Vec<(u64, Vec<u8>)> = cluster.delayed.drain(..).collect();
    for item in late {
        cluster.arrived.push_back(item);
    }
    cluster.pump();
    assert!(cluster.sees(1, 0, 42), "delayed messages should still arrive");
}

#[test]
fn e2e_f07_rapid_mutations_under_loss() {
    let config = periodic_push_config(Duration::from_millis(200));
    let mut cluster = LocalCluster::new(2, config);
    cluster.transport.add_interceptor(Box::new(drop_rate(0.1, 99)));
    for i in 1..=50 {
        cluster.mutate(NodeId(0), move |s| s.counter = i, SyncUrgency::Default);
    }
    for _ in 0..50 {
        cluster.command(NodeId(0), NodeCommand::PeriodicSync);
        cluster.pump();
    }
    assert!(
        cluster.sees(1, 0, 50),
        "50 rapid mutations under 10% loss should converge to counter=50"
    );
}

// ── Parts ───────────────────────────────────────────────────────

#[test]
fn introduction_is_mutual_on_values() {
    let list = introductions(&vec![NodeId(4), NodeId(7)], NodeId(9));
    let pair = |told: u64, about: u64| Introduction { told: NodeId(told), about: NodeId(about) };
    assert_eq!(list, vec![pair(9, 4), pair(9, 7), pair(4, 9), pair(7, 9)]);
    assert!(introductions(&vec![], NodeId(9)).is_empty());
}

#[test]
fn bytes_that_hold_no_message_are_ignored() {
    let mut cluster = LocalCluster::new(2, active_push_config());
    let before = cluster.engines[&0].metrics();
    cluster.command(
        NodeId(0),
        NodeCommand::HandleInbound { wire_bytes: vec![9, 9, 9, 9, 9] },
    );
    assert!(cluster.arrived.is_empty());
    assert_eq!(cluster.engines[&0].metrics(), before);
}

#[test]
fn generator_steps_exactly() {
    // The first numbers of the generator from 0 and from 1.
    assert_eq!(next_u64(0), 1_442_695_040_888_963_407);
    assert_eq!(next_u64(1), 7_806_831_264_735_756_412);
    assert_eq!(next_u64(u64::MAX), 13_525_302_890_751_722_018);
}

#[test]
fn drop_rate_compares_with_its_threshold() {
    // From 0 the generator gives 1442695040888963407 first.
    let mut below = DropRate::with_threshold(1_442_695_040_888_963_408, 0);
    assert!(matches!(
        below.intercept(NodeId(0), NodeId(1), vec![1]),
        InterceptResult::Drop
    ));
    let mut at = DropRate::with_threshold(1_442_695_040_888_963_407, 0);
    assert!(matches!(
        at.intercept(NodeId(0), NodeId(1), vec![1]),
        InterceptResult::Deliver(d) if d == vec![1]
    ));
}

#[test]
fn damage_is_one_bit_on_values() {
    let mut corrupt = CorruptBytes::new(0);
    // 1442695040888963407 >> 32 is 335903614, 5 bytes: byte 4; lowest three bits: 7.
    match corrupt.intercept(NodeId(0), NodeId(1), vec![0; 5]) {
        InterceptResult::Deliver(data) => assert_eq!(data, vec![0, 0, 0, 0, 128]),
        other => panic!("expected Deliver, got {other:?}"),
    }
    match corrupt.intercept(NodeId(0), NodeId(1), vec![]) {
        InterceptResult::Deliver(data) => assert!(data.is_empty()),
        other => panic!("expected Deliver, got {other:?}"),
    }
}

#[test]
fn partition_cuts_both_ways_on_values() {
    let mut p = Partition::new(vec![NodeId(1)], vec![NodeId(2)]);
    let dropped = |r: InterceptResult| matches!(r, InterceptResult::Drop);
    assert!(dropped(p.intercept(NodeId(1), NodeId(2), vec![])));
    assert!(dropped(p.intercept(NodeId(2), NodeId(1), vec![])));
    assert!(!dropped(p.intercept(NodeId(1), NodeId(3), vec![])));
    assert!(!dropped(p.intercept(NodeId(1), NodeId(1), vec![])));
}

#[test]
fn clean_transport_delivers_on_values() {
    let mut t: InProcessTransport<u64> = InProcessTransport::new();
    t.register(NodeId(1), 1);
    t.register(NodeId(2), 2);
    t.register(NodeId(3), 3);
    let fates = t.broadcast(NodeId(2), vec![7, 8]);
    let targets: Vec<NodeId> = fates.iter().map(|f| f.0).collect();
    assert_eq!(targets, vec![NodeId(1), NodeId(3)]);
    for (_, fate) in &fates {
        assert!(matches!(fate, Fate::Deliver(d) if *d == vec![7, 8]));
    }
    t.unregister(NodeId(3));
    assert!(t.channel(NodeId(3)).is_none());
    assert_eq!(t.channel(NodeId(1)), Some(&1));

    // The first interceptor that does not let a message pass decides.
    t.add_interceptor(Box::new(DelayAll::new(Duration::from_millis(5))));
    t.add_interceptor(Box::new(DropAll));
    assert!(matches!(
        t.send(NodeId(1), NodeId(2), vec![1]),
        Fate::DeliverLater(d, by) if d == vec![1] && by == Duration::from_millis(5)
    ));
}

#[test]
fn scenario_configs_are_the_defaults_with_another_strategy() {
    let base = StateConfig::default();
    assert_eq!(active_push_config(), base);
    let periodic = periodic_only_config(Duration::from_secs(3));
    assert_eq!(periodic.sync_strategy.push_mode, None);
    assert_eq!(periodic.sync_strategy.periodic_full_sync, Some(Duration::from_secs(3)));
    assert_eq!(periodic.pull_timeout, base.pull_timeout);
    assert!(feed_lazy_pull_config().sync_strategy.pull_on_query);
}
