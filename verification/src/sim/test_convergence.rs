//! What a fresh cluster of test states promises.
use vstd::prelude::*;

use crate::codec;
use crate::engine::WireContent;
use crate::engine::model;
use crate::replica::sync_logic;
use crate::sim::{cluster_model, convergence, push_laws, test_cluster, transport, transport_laws};
use crate::sim::cluster_model::{ClusterModel, NodeModel};
use crate::sim::test_codec::codes_test_states;
use crate::test_support::test_state::TestState;
use crate::traits::state::SyncUrgency;
use crate::types::config::StateConfig;
use crate::types::errors::DeserializeError;
use crate::types::node::NodeId;

verus! {

/// Test states mean the same if their counters and labels are the same.
pub open spec fn same_state() -> spec_fn(TestState, TestState) -> bool {
    |a: TestState, b: TestState| a.counter == b.counter && a.label@ == b.label@
}

/// The ids from 0 up to `n`.
pub open spec fn first_ids(n: nat) -> Seq<NodeId> {
    Seq::new(n, |i: int| NodeId(i as u64))
}

/// What was encoded as a test state is decoded to a state that means the same.
proof fn lemma_readable<SV, DV, DA>(
    codec: (SV, DV, Option<DA>),
    view: TestState,
    data: Seq<u8>,
) where
    SV: Fn(&TestState) -> Vec<u8>,
    DV: Fn(&[u8], u32) -> Result<TestState, DeserializeError>,
    DA: Fn(&[u8], u32, &TestState) -> Result<TestState, DeserializeError>,

    requires
        codes_test_states(codec),
        data == view.bytes(),
    ensures
        push_laws::readable(codec.1, data, 1, push_laws::anything::<TestState>()),
        data.len() <= u64::MAX ==> push_laws::readable(
            codec.1,
            data,
            1,
            |seen: TestState| same_state()(view, seen),
        ),
{
    assert(data.is_prefix_of(data));
    assert forall|bytes: &[u8], result: Result<TestState, DeserializeError>|
        bytes@ == data && #[trigger] call_ensures(codec.1, (bytes, 1u32), result) implies result
        is Ok && (data.len() <= u64::MAX ==> same_state()(view, result->Ok_0)) by {
        assert(TestState::decoded(bytes@, 1, result));
        assert(view.bytes().is_prefix_of(bytes@));
        if result is Ok && data.len() <= u64::MAX {
            let seen = result->Ok_0;
            codec::pair_is_unique((view.counter, view.label@), (seen.counter, seen.label@), data);
        }
    }
}

/// Every message in transit between the first `n` nodes is the snapshot of a node among them.
proof fn lemma_traffic_is_snapshots(
    nodes: Map<NodeId, NodeModel<TestState, TestState>>,
    n: nat,
    i: int,
) -> (from: NodeId)
    requires
        n <= u64::MAX,
        0 <= i < test_cluster::join_traffic(nodes, n).len(),
    ensures
        from.0 < n,
        test_cluster::join_traffic(nodes, n)[i] == test_cluster::join_flight(
            nodes,
            from,
            test_cluster::join_traffic(nodes, n)[i].to,
        ),
    decreases n,
{
    let m = (n - 1) as nat;
    let earlier = test_cluster::join_traffic(nodes, m);
    if i < earlier.len() {
        lemma_traffic_is_snapshots(nodes, m, i)
    } else {
        let k = i - earlier.len();
        assert(test_cluster::join_traffic(nodes, n)[i] == test_cluster::arrival_traffic(
            nodes,
            m,
        )[k]);
        if k < m {
            NodeId(k as u64)
        } else {
            NodeId(m as u64)
        }
    }
}

/// A fresh cluster is made of its first ids.
proof fn lemma_made_of(c: ClusterModel<TestState, TestState>, config: StateConfig, n: nat)
    requires
        n <= u64::MAX,
        test_cluster::fresh_cluster(c, config, n),
    ensures
        convergence::made_of(c, first_ids(n)),
{
    let ids = first_ids(n);
    assert forall|id: NodeId| #[trigger] c.nodes.contains_key(id) implies ids.contains(id) by {
        assert(ids[id.0 as int] == id);
    }
}

/// In a fresh cluster of test states every node attends to every other.
pub proof fn fresh_nodes_attend<SV, DV, DA>(
    c: ClusterModel<TestState, TestState>,
    codecs: Map<NodeId, (SV, DV, Option<DA>)>,
    config: StateConfig,
    n: nat,
    owner: NodeId,
    peer: NodeId,
) where
    SV: Fn(&TestState) -> Vec<u8>,
    DV: Fn(&[u8], u32) -> Result<TestState, DeserializeError>,
    DA: Fn(&[u8], u32, &TestState) -> Result<TestState, DeserializeError>,

    requires
        n <= u64::MAX,
        test_cluster::fresh_cluster(c, config, n),
        forall|id: NodeId| #[trigger]
            c.nodes.contains_key(id) ==> codes_test_states(codecs[id]),
        owner.0 < n,
        peer.0 < n,
        owner != peer,
    ensures
        convergence::made_of(c, first_ids(n)),
        convergence::attends(c, codecs, owner, peer, same_state()),
{
    let push = convergence::push_of(c, owner, peer, push_laws::anything::<TestState>());
    let decode = codecs[peer].1;
    assert(c.nodes.contains_key(owner) && c.nodes.contains_key(peer));
    assert(c.nodes[peer].engine.shard.views.contains_key(owner));
    lemma_made_of(c, config, n);
    assert forall|view: TestState, data: Vec<u8>| #[trigger]
        call_ensures(codecs[owner].0, (&view,), data) implies push_laws::readable(
        decode,
        data@,
        1,
        |seen: TestState| same_state()(view, seen),
    ) by {
        assert(data@ == view.bytes());
        assert(data@.len() == data.len());
        lemma_readable(codecs[peer], view, data@);
    }
    let flights = c.transport.in_flight;
    assert forall|i: int|
        0 <= i < flights.len() && transport::holds_message(
            (#[trigger] flights[i]).data,
        ) implies (transport::message_in(flights[i].data) matches WireContent::Sync(message)
        ==> push_laws::is_old_news(push, decode, flights[i].to, message)) by {
        let from = lemma_traffic_is_snapshots(c.nodes, n, i);
        assert(c.nodes.contains_key(from));
        let e = c.nodes[from].engine;
        let view = e.shard.views[from].value;
        transport_laws::message_survives_the_wire(
            WireContent::Sync(e.own_snapshot(view.bytes())),
        );
        lemma_readable(codecs[peer], view, view.bytes());
    }
}

/// A mutation on a fresh cluster of test states that is pushed, at once or after a delay, has
/// reached every node once the cluster has settled: each sees the owner's counter and label.
pub proof fn mutation_of_fresh_cluster_propagates<P, SV, DV, DA>(
    c0: ClusterModel<TestState, TestState>,
    c1: ClusterModel<TestState, TestState>,
    c2: ClusterModel<TestState, TestState>,
    codecs: Map<NodeId, (SV, DV, Option<DA>)>,
    config: StateConfig,
    n: nat,
    id: NodeId,
    project: P,
    urgency: SyncUrgency,
    ticks: nat,
) where
    P: FnOnce(&TestState) -> TestState,
    SV: Fn(&TestState) -> Vec<u8>,
    DV: Fn(&[u8], u32) -> Result<TestState, DeserializeError>,
    DA: Fn(&[u8], u32, &TestState) -> Result<TestState, DeserializeError>,

    requires
        n <= u64::MAX,
        test_cluster::fresh_cluster(c0, config, n),
        forall|id: NodeId| #[trigger]
            c0.nodes.contains_key(id) ==> codes_test_states(codecs[id]),
        id.0 < n,
        model::sends_data(sync_logic::resolved(config.sync_strategy, false, urgency)),
        forall|state: TestState, view: TestState| #[trigger]
            call_ensures(project, (&state,), view) ==> view == state,
        cluster_model::mutate_step(c0, c1, codecs[id].0, first_ids(n), id, project, urgency),
        cluster_model::runs(c1, c2, codecs, first_ids(n), ticks),
        c2.settled(),
    ensures
        ({
            let owned = c1.nodes[id].engine.shard.state;
            forall|peer: NodeId|
                peer.0 < n && peer != id ==> {
                    let views = (#[trigger] c2.nodes[peer]).engine.shard.views;
                    &&& views.contains_key(id)
                    &&& views[id].value.counter == owned.value.counter
                    &&& views[id].value.label@ == owned.value.label@
                    &&& views[id].generation == owned.generation
                }
        }),
{
    let owned = c1.nodes[id].engine.shard.state;
    assert(c0.nodes.contains_key(id));
    lemma_made_of(c0, config, n);
    convergence::pushed_mutation_is_held_once_settled(
        c0,
        c1,
        c2,
        codecs,
        first_ids(n),
        id,
        project,
        urgency,
        same_state(),
        ticks,
    );
    let view = choose|view: TestState|
        #![trigger call_ensures(project, (&owned.value,), view)]
        call_ensures(project, (&owned.value,), view) && forall|peer: NodeId| #[trigger]
            c0.nodes.contains_key(peer) && peer != id && convergence::attends(
                c0,
                codecs,
                id,
                peer,
                same_state(),
            ) ==> {
                &&& c2.nodes.contains_key(peer)
                &&& c2.nodes[peer].engine.shard.views.contains_key(id)
                &&& c2.nodes[peer].engine.shard.views[id].generation == owned.generation
                &&& convergence::renderings(view, same_state())(
                    c2.nodes[peer].engine.shard.views[id].value,
                )
            };
    assert forall|peer: NodeId| peer.0 < n && peer != id implies {
        let views = (#[trigger] c2.nodes[peer]).engine.shard.views;
        &&& views.contains_key(id)
        &&& views[id].value.counter == owned.value.counter
        &&& views[id].value.label@ == owned.value.label@
        &&& views[id].generation == owned.generation
    } by {
        fresh_nodes_attend(c0, codecs, config, n, id, peer);
        assert(c0.nodes.contains_key(peer));
        let seen = c2.nodes[peer].engine.shard.views[id].value;
        let sent = choose|sent: TestState|
            (sent == view || cloned(view, sent)) && #[trigger] same_state()(sent, seen);
        assert(sent == view);
    }
}

/// When nodes of a fresh cluster of test states have mutated and pushed, in any order and any
/// number, then once the cluster has settled every other node sees the counter and the label of
/// each of them.
pub proof fn mutations_of_fresh_cluster_converge<P, SV, DV, DA>(
    c0: ClusterModel<TestState, TestState>,
    c1: ClusterModel<TestState, TestState>,
    c2: ClusterModel<TestState, TestState>,
    codecs: Map<NodeId, (SV, DV, Option<DA>)>,
    config: StateConfig,
    n: nat,
    which: Seq<(NodeId, P, SyncUrgency)>,
    ticks: nat,
) where
    P: FnOnce(&TestState) -> TestState,
    SV: Fn(&TestState) -> Vec<u8>,
    DV: Fn(&[u8], u32) -> Result<TestState, DeserializeError>,
    DA: Fn(&[u8], u32, &TestState) -> Result<TestState, DeserializeError>,

    requires
        n <= u64::MAX,
        test_cluster::fresh_cluster(c0, config, n),
        forall|id: NodeId| #[trigger]
            c0.nodes.contains_key(id) ==> codes_test_states(codecs[id]),
        forall|k: int| 0 <= k < which.len() ==> (#[trigger] which[k]).0.0 < n,
        forall|k: int, state: TestState, view: TestState|
            0 <= k < which.len() && #[trigger] call_ensures(which[k].1, (&state,), view) ==> view
                == state,
        convergence::push_steps(c0, c1, codecs, first_ids(n), which),
        cluster_model::runs(c1, c2, codecs, first_ids(n), ticks),
        c2.settled(),
    ensures
        forall|k: int, peer: NodeId|
            0 <= k < which.len() && peer.0 < n && peer != which[k].0 ==> {
                let owned = c1.nodes[(#[trigger] which[k]).0].engine.shard.state;
                let views = (#[trigger] c2.nodes[peer]).engine.shard.views;
                &&& views.contains_key(which[k].0)
                &&& views[which[k].0].value.counter == owned.value.counter
                &&& views[which[k].0].value.label@ == owned.value.label@
                &&& views[which[k].0].generation == owned.generation
            },
{
    lemma_made_of(c0, config, n);
    assert forall|k: int, peer: NodeId|
        0 <= k < which.len() && peer.0 < n && peer != which[k].0 implies {
        let owned = c1.nodes[(#[trigger] which[k]).0].engine.shard.state;
        let views = (#[trigger] c2.nodes[peer]).engine.shard.views;
        &&& views.contains_key(which[k].0)
        &&& views[which[k].0].value.counter == owned.value.counter
        &&& views[which[k].0].value.label@ == owned.value.label@
        &&& views[which[k].0].generation == owned.generation
    } by {
        let last = lemma_last(which, k);
        let owner = which[last].0;
        let owned = c1.nodes[owner].engine.shard.state;
        assert(c0.nodes.contains_key(owner) && c0.nodes.contains_key(peer));
        fresh_nodes_attend(c0, codecs, config, n, owner, peer);
        convergence::settled_cluster_holds_every_last_push(
            c0,
            c1,
            c2,
            codecs,
            first_ids(n),
            which,
            last,
            peer,
            same_state(),
            ticks,
        );
        let seen = c2.nodes[peer].engine.shard.views[owner].value;
        let view = choose|view: TestState|
            #![trigger convergence::renderings(view, same_state())]
            call_ensures(which[last].1, (&owned.value,), view) && convergence::renderings(
                view,
                same_state(),
            )(seen);
        let sent = choose|sent: TestState|
            (sent == view || cloned(view, sent)) && #[trigger] same_state()(sent, seen);
        assert(sent == view);
    }
}

/// The last mutation of the node that `which[k]` is on.
proof fn lemma_last<P>(which: Seq<(NodeId, P, SyncUrgency)>, k: int) -> (last: int)
    requires
        0 <= k < which.len(),
    ensures
        convergence::is_last_of(which, last),
        which[last].0 == which[k].0,
    decreases which.len() - k,
{
    if convergence::is_last_of(which, k) {
        k
    } else {
        let j = choose|j: int| k < j < which.len() && (#[trigger] which[j]).0 == which[k].0;
        lemma_last(which, j)
    }
}

} // verus!
