//! A simulated cluster of nodes that share a test state.
use std::sync::Arc;
use vstd::prelude::*;

use crate::codec;
use crate::engine::{ActionContent, DistributedStateEngine, WireContent};
use crate::engine::model;
use crate::engine::model::EngineModel;
use crate::replica::diagnostics::{DiagnosticsModel, StateSyncMetrics};
use crate::replica::versioning_logic::VersionSettings;
use crate::sim::cluster::MockCluster;
use crate::sim::{cluster_laws, cluster_model};
use crate::sim::cluster_model::{ClusterModel, NodeModel};
use crate::sim::test_codec::codes_test_states;
use crate::sim::transport::Flight;
use crate::test_support::test_clock::TestClock;
use crate::test_support::test_state;
use crate::test_support::test_state::TestState;
use crate::traits::clock;
use crate::traits::state::DistributedState;
use crate::types::config::StateConfig;
use crate::types::errors::DeserializeError;
use crate::types::node::{Generation, NodeId};
use crate::types::time::{Duration, Instant};

verus! {

/// `value` is the default test state.
pub open spec fn is_default(value: TestState) -> bool {
    value.counter == 0 && value.label@ == Seq::<char>::empty()
}

/// `e` is the engine of the node `id` in a fresh cluster of the nodes 0 up to `n`: it owns the
/// default state, and has met all the others.
pub open spec fn fresh_engine(
    e: EngineModel<TestState, TestState>,
    id: NodeId,
    config: StateConfig,
    n: nat,
) -> bool {
    &&& e.state_name == "test_state"@
    &&& e.wire_version == 1
    &&& e.shard.node_id == id
    &&& is_default(e.shard.state.value)
    &&& e.shard.state.generation.age == 0
    &&& e.strategy == config.sync_strategy
    &&& !e.supports_delta
    &&& e.feed.len() == 0
    &&& e.versions == (VersionSettings {
        state_name: "test_state"@,
        policy: config.version_mismatch_policy,
        wire_version: 1,
        storage_version: 1,
    })
    &&& e.departed == Set::<NodeId>::empty()
    &&& forall|k: NodeId| #[trigger] e.shard.views.contains_key(k) <==> k.0 < n
    &&& forall|k: NodeId| #[trigger]
        e.shard.views.contains_key(k) ==> is_default(e.shard.views[k].value)
            && e.shard.views[k].generation == if k == id {
            e.shard.state.generation
        } else {
            Generation { incarnation: 0, age: 0 }
        }
    &&& e.diagnostics == (DiagnosticsModel {
        state_name: "test_state"@,
        metrics: StateSyncMetrics::none(),
        peers: Map::empty(),
    }).snapshots_sent((n - 1) as nat)
}

/// The snapshot that `from` sends to `to` when one of them joins a fresh cluster.
pub open spec fn join_flight(
    nodes: Map<NodeId, NodeModel<TestState, TestState>>,
    from: NodeId,
    to: NodeId,
) -> Flight {
    let e = nodes[from].engine;
    Flight {
        from,
        to,
        data: codec::wire_bytes(
            WireContent::Sync(e.own_snapshot(e.shard.views[from].value.bytes())),
        ),
        deliver_at_tick: 1,
    }
}

/// The snapshots that the nodes 0 up to `n` send to each other while they join one after the
/// other: for each that joins, those of the others to it, and then its own to them.
pub open spec fn join_traffic(
    nodes: Map<NodeId, NodeModel<TestState, TestState>>,
    n: nat,
) -> Seq<Flight>
    decreases n,
{
    if n == 0 {
        Seq::empty()
    } else {
        join_traffic(nodes, (n - 1) as nat) + arrival_traffic(nodes, (n - 1) as nat)
    }
}

/// The snapshots that are sent when the node `n` joins the nodes below it.
pub open spec fn arrival_traffic(
    nodes: Map<NodeId, NodeModel<TestState, TestState>>,
    n: nat,
) -> Seq<Flight> {
    let joined = NodeId(n as u64);
    Seq::new(n, |j: int| join_flight(nodes, NodeId(j as u64), joined)) + Seq::new(
        n,
        |j: int| join_flight(nodes, joined, NodeId(j as u64)),
    )
}

/// `c` is a fresh cluster of the nodes 0 up to `n`, with a clean network and ticks of 100
/// milliseconds. Nothing is scheduled, and what is in transit are the snapshots by which the
/// nodes greeted each other.
pub open spec fn fresh_cluster(
    c: ClusterModel<TestState, TestState>,
    config: StateConfig,
    n: nat,
) -> bool {
    &&& c.tick_duration.nanos == 100_000_000
    &&& c.current_tick == 0
    &&& c.corrupted == 0
    &&& c.transport.pipeline.len == 0
    &&& c.transport.current_tick == 0
    &&& c.transport.rng_seed == 42
    &&& c.transport.in_flight == join_traffic(c.nodes, n)
    &&& c.transport.message_counter == n * (n - 1)
    &&& forall|i: int|
        0 <= i < c.transport.in_flight.len() ==> (#[trigger] c.transport.in_flight[i]).data.len()
            <= u64::MAX
    &&& forall|id: NodeId| #[trigger] c.nodes.contains_key(id) <==> id.0 < n
    &&& forall|id: NodeId| #[trigger]
        c.nodes.contains_key(id) ==> fresh_engine(c.nodes[id].engine, id, config, n)
            && c.nodes[id] == (NodeModel {
            engine: c.nodes[id].engine,
            scheduled: Seq::empty(),
            flush_counter: 0,
            flush_interval: cluster_model::flush_ticks(c.nodes[id].engine, c.tick_duration),
        })
}

/// Nodes with the same states and the same views of themselves greet each other alike.
proof fn lemma_same_traffic(
    nodes: Map<NodeId, NodeModel<TestState, TestState>>,
    later: Map<NodeId, NodeModel<TestState, TestState>>,
    n: nat,
)
    requires
        n <= u64::MAX,
        forall|i: nat, to: NodeId|
            i < n ==> #[trigger] join_flight(nodes, NodeId(i as u64), to) == join_flight(
                later,
                NodeId(i as u64),
                to,
            ),
    ensures
        join_traffic(nodes, n) == join_traffic(later, n),
    decreases n,
{
    if n > 0 {
        let m = (n - 1) as nat;
        lemma_same_traffic(nodes, later, m);
        let joined = NodeId(m as u64);
        assert forall|j: int| 0 <= j < m implies #[trigger] join_flight(
            nodes,
            NodeId(j as u64),
            joined,
        ) == join_flight(later, NodeId(j as u64), joined) by {
            let k = j as nat;
            assert(join_flight(nodes, NodeId(k as u64), joined) == join_flight(
                later,
                NodeId(k as u64),
                joined,
            ));
        }
        assert forall|j: int| 0 <= j < m implies #[trigger] join_flight(
            nodes,
            joined,
            NodeId(j as u64),
        ) == join_flight(later, joined, NodeId(j as u64)) by {
            assert(join_flight(nodes, NodeId(m as u64), NodeId(j as u64)) == join_flight(
                later,
                NodeId(m as u64),
                NodeId(j as u64),
            ));
        }
        assert(arrival_traffic(nodes, m) =~= arrival_traffic(later, m));
    }
}

/// The number of greetings in a cluster that grows by one node stays countable.
proof fn lemma_greetings_fit(i: nat)
    requires
        i < u32::MAX,
    ensures
        i * (i - 1) + 2 * i == (i + 1) * i,
        0 <= (i + 1) * i <= u64::MAX,
{
    assert(i * (i - 1) + 2 * i == (i + 1) * i) by (nonlinear_arith);
    assert(0 <= (i + 1) * i <= 0xffff_ffff * 0xffff_ffff) by (nonlinear_arith)
        requires
            i < 0xffff_ffff,
    ;
}

/// Ids that ascend differ by at least the number of places between them.
proof fn lemma_gap(ids: Seq<NodeId>, i: int, j: int)
    requires
        crate::node_map::ascending(ids),
        0 <= i <= j < ids.len(),
    ensures
        ids[j].0 - ids[i].0 >= j - i,
    decreases j - i,
{
    if i < j {
        lemma_gap(ids, i, j - 1);
        assert(ids[j - 1].0 < ids[j].0);
    }
}

/// The `n` ids below `n`, ascending, are 0 up to `n`.
proof fn lemma_counted(ids: Seq<NodeId>, n: nat)
    requires
        crate::node_map::ascending(ids),
        ids.len() == n,
        forall|i: int| 0 <= i < ids.len() ==> (#[trigger] ids[i]).0 < n,
    ensures
        ids == Seq::new(n, |i: int| NodeId(i as u64)),
{
    assert forall|i: int| 0 <= i < n implies #[trigger] ids[i] == NodeId(i as u64) by {
        lemma_gap(ids, 0, i);
        lemma_gap(ids, i, n - 1);
        assert(ids[n - 1].0 < n);
    }
    assert(ids =~= Seq::new(n, |i: int| NodeId(i as u64)));
}

/// A fresh engine of `n` nodes that meets the node `n` is one of `n + 1` nodes.
proof fn lemma_fresh_engine_meets(
    e0: EngineModel<TestState, TestState>,
    e1: EngineModel<TestState, TestState>,
    id: NodeId,
    config: StateConfig,
    n: nat,
    default_view: TestState,
)
    requires
        fresh_engine(e0, id, config, n),
        id.0 < n < u64::MAX,
        cluster_laws::acquainted(e0, e1, seq![NodeId(n as u64)], default_view),
        is_default(default_view),
    ensures
        fresh_engine(e1, id, config, n + 1),
{
    let which = seq![NodeId(n as u64)];
    assert(which[0] == NodeId(n as u64));
    assert(e1.departed =~= Set::<NodeId>::empty());
    assert forall|k: NodeId| #[trigger] e1.shard.views.contains_key(k) <==> k.0 < n + 1 by {
        if k.0 < n {
            assert(e0.shard.views.contains_key(k));
        }
        if e1.shard.views.contains_key(k) && !e0.shard.views.contains_key(k) {
            assert(which.contains(k));
        }
    }
    assert forall|k: NodeId| #[trigger] e1.shard.views.contains_key(k) implies is_default(
        e1.shard.views[k].value,
    ) by {
        if e0.shard.views.contains_key(k) {
            assert(e1.shard.views[k] == e0.shard.views[k]);
        } else {
            assert(cluster_laws::awaits_first_view(e1.shard.views[k], k, default_view));
        }
    }
}

/// A new engine that meets the nodes 0 up to `n` is a fresh engine of `n + 1` nodes.
proof fn lemma_new_engine_meets(
    e0: EngineModel<TestState, TestState>,
    e1: EngineModel<TestState, TestState>,
    config: StateConfig,
    ids: Seq<NodeId>,
    default_view: TestState,
    time_source: Arc<TestClock>,
)
    requires
        ids.len() < u64::MAX,
        ids == Seq::new(ids.len(), |i: int| NodeId(i as u64)),
        fresh_engine_alone(e0, NodeId(ids.len() as u64), config, time_source),
        cluster_laws::acquainted(e0, e1, ids, default_view),
        is_default(default_view),
    ensures
        fresh_engine(e1, NodeId(ids.len() as u64), config, ids.len() + 1),
{
    let id = NodeId(ids.len() as u64);
    assert(e0.shard.views.contains_key(id));
    assert(forall|k: NodeId| #[trigger] e0.shard.views.contains_key(k) ==> k == id);
    assert(e1.departed =~= Set::<NodeId>::empty());
    assert forall|k: NodeId| #[trigger] e1.shard.views.contains_key(k) <==> k.0 < ids.len()
        + 1 by {
        if k.0 < ids.len() {
            assert(ids[k.0 as int] == k);
        }
        if e1.shard.views.contains_key(k) && !e0.shard.views.contains_key(k) {
            assert(ids.contains(k));
            let i = ids.index_of(k);
            assert(ids[i] == k);
        }
    }
    assert forall|k: NodeId| #[trigger] e1.shard.views.contains_key(k) implies is_default(
        e1.shard.views[k].value,
    ) by {
        if e0.shard.views.contains_key(k) {
            assert(e1.shard.views[k] == e0.shard.views[k]);
        } else {
            assert(cluster_laws::awaits_first_view(e1.shard.views[k], k, default_view));
        }
    }
}

/// `e` is the engine of the node `id` before it has met anyone.
spec fn fresh_engine_alone(
    e: EngineModel<TestState, TestState>,
    id: NodeId,
    config: StateConfig,
    time_source: Arc<TestClock>,
) -> bool {
    exists|value: TestState, view: TestState, incarnation_ms: i64, created_ms: i64, now: Instant|
        is_default(value) && is_default(view) && e == #[trigger] model::started(
            "test_state"@,
            id,
            value,
            view,
            config,
            1,
            false,
            incarnation_ms,
            created_ms,
            now,
            clock::readings(time_source),
        ) && clock::readings(time_source).may_say(created_ms, now, incarnation_ms)
}

/// A message in which a node greets another is on its way as the node's own snapshot.
proof fn lemma_greeting_on_its_way<SV: Fn(&TestState) -> Vec<u8>>(
    nodes: Map<NodeId, NodeModel<TestState, TestState>>,
    e: EngineModel<TestState, TestState>,
    from: NodeId,
    serialize: SV,
    to: NodeId,
    replies: Seq<(NodeId, Seq<ActionContent>)>,
    i: int,
)
    requires
        0 <= i < replies.len(),
        cluster_laws::greeting(e, from, serialize, to, replies[i]),
        forall|view: &TestState, data: Vec<u8>| #[trigger]
            call_ensures(serialize, (view,), data) ==> data@ == view.bytes(),
        e.shard.node_id == from,
        nodes[from].engine.shard.views[from] == e.shard.views[from],
        nodes[from].engine.shard.state == e.shard.state,
        nodes[from].engine.shard.node_id == from,
        nodes[from].engine.state_name == e.state_name,
        nodes[from].engine.wire_version == e.wire_version,
    ensures
        cluster_laws::posted(replies, 0)[i] == join_flight(nodes, from, to),
{
    let data = choose|data: Vec<u8>| #[trigger]
        call_ensures(serialize, (&e.shard.views[e.shard.node_id].value,), data) && replies[i].1
            == seq![ActionContent::SendSync { target: to, message: e.own_snapshot(data@) }];
    assert(data@ == e.shard.views[from].value.bytes());
}

/// `e1` owns what `e0` does, and publishes the same view of it.
spec fn speaks_alike(
    e0: EngineModel<TestState, TestState>,
    e1: EngineModel<TestState, TestState>,
    id: NodeId,
) -> bool {
    &&& e0.shard.node_id == id
    &&& e1.shard.node_id == id
    &&& e1.shard.views[id] == e0.shard.views[id]
    &&& e1.shard.state == e0.shard.state
    &&& e1.state_name == e0.state_name
    &&& e1.wire_version == e0.wire_version
}

/// When the node `n` joins a fresh cluster, the greetings between it and the others join those
/// in transit.
proof fn lemma_traffic_grows<SV, DV, DA>(
    c0: ClusterModel<TestState, TestState>,
    c1: ClusterModel<TestState, TestState>,
    codecs: Map<NodeId, (SV, DV, Option<DA>)>,
    ids: Seq<NodeId>,
    e0: EngineModel<TestState, TestState>,
    chosen: (SV, DV, Option<DA>),
    r1: Seq<(NodeId, Seq<ActionContent>)>,
    r2: Seq<(NodeId, Seq<ActionContent>)>,
) where
    SV: Fn(&TestState) -> Vec<u8>,
    DV: Fn(&[u8], u32) -> Result<TestState, DeserializeError>,
    DA: Fn(&[u8], u32, &TestState) -> Result<TestState, DeserializeError>,

    requires
        ids.len() < u32::MAX,
        ids == Seq::new(ids.len(), |i: int| NodeId(i as u64)),
        e0.shard.node_id == NodeId(ids.len() as u64),
        forall|i: int| 0 <= i < ids.len() ==> codes_test_states(codecs[#[trigger] ids[i]]),
        codes_test_states(chosen),
        cluster_laws::exchanged(c0, codecs, ids, e0, chosen.0, r1, r2),
        cluster_laws::posts(c0.transport, c1.transport, r1 + r2),
        c0.transport.current_tick == 0,
        c0.transport.in_flight == join_traffic(c0.nodes, ids.len()),
        c0.transport.message_counter == ids.len() * (ids.len() - 1),
        forall|i: int|
            0 <= i < ids.len() ==> speaks_alike(
                c0.nodes[#[trigger] ids[i]].engine,
                c1.nodes[ids[i]].engine,
                ids[i],
            ),
        speaks_alike(e0, c1.nodes[e0.shard.node_id].engine, e0.shard.node_id),
    ensures
        c1.transport.in_flight == join_traffic(c1.nodes, ids.len() + 1),
        c1.transport.message_counter == (ids.len() + 1) * ids.len(),
{
    let n = ids.len();
    let joined = e0.shard.node_id;
    lemma_greetings_fit(n);
    assert forall|i: nat, to: NodeId| i < n implies #[trigger] join_flight(
        c0.nodes,
        NodeId(i as u64),
        to,
    ) == join_flight(c1.nodes, NodeId(i as u64), to) by {
        assert(ids[i as int] == NodeId(i as u64));
    }
    lemma_same_traffic(c0.nodes, c1.nodes, n);
    let all = cluster_laws::posted(r1 + r2, 0);
    let expected = arrival_traffic(c1.nodes, n);
    assert forall|k: int| 0 <= k < all.len() implies #[trigger] all[k] == expected[k] by {
        if k < n {
            assert(ids[k] == NodeId(k as u64));
            assert((r1 + r2)[k] == r1[k]);
            lemma_greeting_on_its_way(
                c1.nodes,
                c0.nodes[ids[k]].engine,
                ids[k],
                codecs[ids[k]].0,
                joined,
                r1 + r2,
                k,
            );
        } else {
            let j = k - n;
            assert(ids[j] == NodeId(j as u64));
            assert((r1 + r2)[k] == r2[j]);
            lemma_greeting_on_its_way(c1.nodes, e0, joined, chosen.0, ids[j], r1 + r2, k);
        }
    }
    assert(all =~= expected);
    assert(join_traffic(c1.nodes, n + 1) == join_traffic(c1.nodes, n) + expected);
}

impl<SV, DV, DA> MockCluster<TestState, TestState, Arc<TestClock>, SV, DV, DA> where
    SV: Fn(&TestState) -> Vec<u8>,
    DV: Fn(&[u8], u32) -> Result<TestState, DeserializeError>,
    DA: Fn(&[u8], u32, &TestState) -> Result<TestState, DeserializeError>,
 {
    /// Create a cluster of `n` nodes using `TestState` (simple state), each with the functions
    /// that `codec` gives (see [`crate::sim::test_codec::test_codec`]).
    ///
    /// Each node gets NodeId(0) through NodeId(n-1).
    pub fn with_test_state<G: Fn() -> (SV, DV, Option<DA>)>(
        n: usize,
        config: StateConfig,
        codec: G,
    ) -> (cluster: Self)
        requires
            n <= u32::MAX,
            call_requires(codec, ()),
            forall|c: (SV, DV, Option<DA>)| #[trigger]
                call_ensures(codec, (), c) ==> codes_test_states(c),
        ensures
            cluster.wf(),
            cluster.ids() == Seq::new(n as nat, |i: int| NodeId(i as u64)),
            fresh_cluster(cluster@, config, n as nat),
            forall|id: NodeId| #[trigger]
                cluster.codecs().contains_key(id) ==> codes_test_states(cluster.codecs()[id]),
    {
        let clock = Arc::new(TestClock::with_base_unix_ms(1_000_000));
        let tick_duration = Duration::from_millis(100);
        let mut cluster = MockCluster::new(clock.clone(), tick_duration, 42);
        let mut i: usize = 0;
        proof {
            cluster.lemma_wf();
        }
        while i < n
            invariant
                i <= n <= u32::MAX,
                call_requires(codec, ()),
                forall|c: (SV, DV, Option<DA>)| #[trigger]
                    call_ensures(codec, (), c) ==> codes_test_states(c),
                cluster.wf(),
                cluster.ids().len() == i,
                fresh_cluster(cluster@, config, i as nat),
                forall|id: NodeId| #[trigger]
                    cluster.codecs().contains_key(id) ==> codes_test_states(cluster.codecs()[id]),
            decreases n - i,
        {
            let functions = codec();
            let ghost chosen = functions;
            let project = |s: &TestState| -> (view: TestState)
                ensures
                    view == *s,
                { s.clone() };
            let value = TestState::default();
            let ghost initial = value;
            let engine = DistributedStateEngine::new(
                TestState::name(),
                NodeId(i as u64),
                value,
                project,
                config,
                TestState::WIRE_VERSION,
                clock.clone(),
                functions.0,
                functions.1,
                functions.2,
            );
            let ghost c0 = cluster@;
            let ghost codecs = cluster.codecs();
            let ghost ids = cluster.ids();
            let ghost e0 = engine@;
            proof {
                assert(codes_test_states(chosen));
                test_state::lemma_versions();
                let (view, incarnation_ms, created_ms, now) = choose|
                    view: TestState,
                    incarnation_ms: i64,
                    created_ms: i64,
                    now: Instant,
                |
                    call_ensures(project, (&initial,), view) && e0 == #[trigger] model::started(
                        "test_state"@,
                        NodeId(i as u64),
                        initial,
                        view,
                        config,
                        1,
                        false,
                        incarnation_ms,
                        created_ms,
                        now,
                        clock::readings(clock),
                    ) && clock::readings(clock).may_say(created_ms, now, incarnation_ms);
                assert(is_default(view));
                assert(fresh_engine_alone(e0, NodeId(i as u64), config, clock));
            }
            let view = TestState::default();
            let ghost default_view = view;
            proof {
                cluster.lemma_wf();
            }
            cluster.add_node(engine, view);
            proof {
                cluster_laws::joining_is_mutual(
                    c0,
                    cluster@,
                    codecs,
                    ids,
                    cluster.ids(),
                    e0,
                    chosen.0,
                    default_view,
                );
                cluster.lemma_wf();
                let added = NodeId(i as u64);
                assert(!c0.nodes.contains_key(added));
                assert(cluster.ids().len() == ids.len() + 1);
                lemma_counted(ids, i as nat);
                lemma_new_engine_meets(
                    e0,
                    cluster@.nodes[added].engine,
                    config,
                    ids,
                    default_view,
                    clock,
                );
                assert forall|id: NodeId| #[trigger]
                    cluster@.nodes.contains_key(id) implies fresh_engine(
                    cluster@.nodes[id].engine,
                    id,
                    config,
                    (i + 1) as nat,
                ) && cluster@.nodes[id] == (NodeModel {
                    engine: cluster@.nodes[id].engine,
                    scheduled: Seq::empty(),
                    flush_counter: 0,
                    flush_interval: cluster_model::flush_ticks(
                        cluster@.nodes[id].engine,
                        cluster@.tick_duration,
                    ),
                }) by {
                    if id != added {
                        assert(c0.nodes.contains_key(id));
                        assert(cluster@.nodes[id] == c0.nodes[id].with_engine(
                            cluster@.nodes[id].engine,
                        ));
                        lemma_fresh_engine_meets(
                            c0.nodes[id].engine,
                            cluster@.nodes[id].engine,
                            id,
                            config,
                            i as nat,
                            default_view,
                        );
                    }
                }
                let (r1, r2) = choose|
                    r1: Seq<(NodeId, Seq<ActionContent>)>,
                    r2: Seq<(NodeId, Seq<ActionContent>)>,
                | #[trigger]
                    cluster_laws::exchanged(c0, codecs, ids, e0, chosen.0, r1, r2)
                        && cluster_laws::posts(c0.transport, cluster@.transport, r1 + r2);
                assert forall|k: int| 0 <= k < ids.len() implies codes_test_states(
                    codecs[#[trigger] ids[k]],
                ) by {
                    assert(c0.nodes.contains_key(ids[k]));
                    assert(codecs.contains_key(ids[k]));
                }
                assert forall|k: int| 0 <= k < ids.len() implies speaks_alike(
                    c0.nodes[#[trigger] ids[k]].engine,
                    cluster@.nodes[ids[k]].engine,
                    ids[k],
                ) by {
                    assert(c0.nodes.contains_key(ids[k]));
                    assert(c0.nodes[ids[k]].engine.shard.views.contains_key(ids[k]));
                }
                assert(e0.shard.views.contains_key(added));
                lemma_traffic_grows(c0, cluster@, codecs, ids, e0, chosen, r1, r2);
            }
            i = i + 1;
        }
        proof {
            cluster.lemma_wf();
            lemma_counted(cluster.ids(), n as nat);
        }
        cluster
    }
}

} // verus!
