//! What holds of the diagnostics across several operations.
use vstd::prelude::*;

use crate::replica::{diagnostics, view_laws, view_map};
use crate::replica::diagnostics::{DiagnosticsModel, PeerRecord, StateHealth, StateSyncMetrics};
use crate::types::envelope::StateViewObject;
use crate::types::node::NodeId;
use crate::types::time::{Duration, Instant};

verus! {

/// The sum of the gaps noted of the peers `which`.
pub open spec fn gaps_of(peers: Map<NodeId, PeerRecord>, which: Set<NodeId>) -> nat
    decreases which.len(),
{
    if which.finite() && which.len() > 0 {
        let id = which.choose();
        peers[id].gap_count as nat + gaps_of(peers, which.remove(id))
    } else {
        0
    }
}

/// The total of the gaps is the sum of the gaps noted of each peer.
pub open spec fn gaps_add_up(d: DiagnosticsModel) -> bool {
    d.peers.dom().finite() && d.metrics.age_gaps_detected == gaps_of(d.peers, d.peers.dom())
}

/// Any of the peers can be counted first.
proof fn lemma_one_apart(peers: Map<NodeId, PeerRecord>, which: Set<NodeId>, id: NodeId)
    requires
        which.finite(),
        which.contains(id),
    ensures
        gaps_of(peers, which) == peers[id].gap_count + gaps_of(peers, which.remove(id)),
    decreases which.len(),
{
    let first = which.choose();
    if first != id {
        lemma_one_apart(peers, which.remove(first), id);
        lemma_one_apart(peers, which.remove(id), first);
        assert(which.remove(first).remove(id) =~= which.remove(id).remove(first));
    }
}

/// The sum depends on the noted gaps alone.
proof fn lemma_same_gaps(
    p: Map<NodeId, PeerRecord>,
    q: Map<NodeId, PeerRecord>,
    which: Set<NodeId>,
)
    requires
        which.finite(),
        forall|id: NodeId| #[trigger] which.contains(id) ==> p[id].gap_count == q[id].gap_count,
    ensures
        gaps_of(p, which) == gaps_of(q, which),
    decreases which.len(),
{
    if which.len() > 0 {
        lemma_same_gaps(p, q, which.remove(which.choose()));
    }
}

/// Another record of one peer changes the sum by what it changes in the gaps of that peer.
proof fn lemma_noted(d: DiagnosticsModel, peer: NodeId, record: PeerRecord)
    requires
        d.peers.dom().finite(),
    ensures
        d.noting(peer, record).peers.dom().finite(),
        gaps_of(d.noting(peer, record).peers, d.noting(peer, record).peers.dom()) + d.record(
            peer,
        ).gap_count == gaps_of(d.peers, d.peers.dom()) + record.gap_count,
{
    let after = d.noting(peer, record).peers;
    let others = d.peers.dom().remove(peer);
    assert(after.dom().remove(peer) =~= others);
    lemma_one_apart(after, after.dom(), peer);
    lemma_same_gaps(after, d.peers, others);
    if d.peers.contains_key(peer) {
        lemma_one_apart(d.peers, d.peers.dom(), peer);
    } else {
        assert(others =~= d.peers.dom());
    }
}

/// Diagnostics on which nothing has been noted add up.
pub proof fn blank_diagnostics_add_up(d: DiagnosticsModel)
    requires
        d.metrics.age_gaps_detected == 0,
        d.peers == Map::<NodeId, PeerRecord>::empty(),
    ensures
        gaps_add_up(d),
{
    assert(d.peers.dom() =~= Set::<NodeId>::empty());
}

/// As long as no peer is removed, the number of detected gaps stays the sum of the peers' gap
/// counts, whatever is recorded.
pub proof fn recording_keeps_gaps_adding_up(
    d: DiagnosticsModel,
    peer: NodeId,
    latency_ms: u64,
    error: Seq<char>,
    unix_ms: i64,
)
    requires
        gaps_add_up(d),
        d.metrics.age_gaps_detected < u64::MAX,
    ensures
        gaps_add_up(d.mutation()),
        gaps_add_up(d.delta_sent()),
        gaps_add_up(d.snapshot_sent()),
        gaps_add_up(d.delta_suppressed()),
        gaps_add_up(d.delta_immediate()),
        gaps_add_up(d.stale_discarded()),
        gaps_add_up(d.sync_success(peer, latency_ms, unix_ms)),
        gaps_add_up(d.delta_received(peer, latency_ms, unix_ms)),
        gaps_add_up(d.snapshot_received(peer, latency_ms, unix_ms)),
        gaps_add_up(d.sync_failure(peer, error, unix_ms)),
        gaps_add_up(d.gap_detected(peer)),
        d.gap_detected(peer).metrics.age_gaps_detected == d.metrics.age_gaps_detected + 1,
        d.gap_detected(peer).record(peer).gap_count == d.record(peer).gap_count + 1,
{
    let noted = d.record(peer);
    if d.peers.contains_key(peer) {
        lemma_one_apart(d.peers, d.peers.dom(), peer);
    }
    assert(noted.gap_count <= d.metrics.age_gaps_detected);
    lemma_noted(d, peer, noted.succeeded(latency_ms, unix_ms));
    lemma_noted(d, peer, noted.failed(error, unix_ms));
    lemma_noted(d, peer, noted.gapped());
}

/// The number of `ids` of which `p` holds.
pub open spec fn how_many(ids: Seq<NodeId>, p: spec_fn(NodeId) -> bool) -> nat {
    ids.filter(p).len()
}

/// A peer counts as stale if it is known to be behind or was last synchronized longer ago than
/// the limit, whether or not it is failing; as failing if its last synchronization failed,
/// whether or not it is stale; and as healthy if it is neither. The local node is no peer.
pub proof fn peers_are_counted_by_what_they_are<V>(
    ids: Seq<NodeId>,
    views: Map<NodeId, StateViewObject<V>>,
    d: DiagnosticsModel,
    local: NodeId,
    limit: Duration,
    now: Instant,
)
    ensures
        ({
            let c = diagnostics::peer_counts(ids, views, d, local, limit, now);
            let stale = |id: NodeId|
                id != local && (views[id].pending_remote_generation is Some || now.nanos
                    > views[id].synced_at.nanos + limit.nanos);
            let failing = |id: NodeId|
                id != local && d.peers.contains_key(id) && d.peers[id].consecutive_failures > 0;
            let healthy = |id: NodeId|
                id != local && views[id].pending_remote_generation is None && now.nanos
                    <= views[id].synced_at.nanos + limit.nanos && (d.peers.contains_key(id)
                    ==> d.peers[id].consecutive_failures == 0);
            &&& c.stale == how_many(ids, stale)
            &&& c.stale == view_map::stale_among(ids, views, local, limit, now).len()
            &&& c.failing == how_many(ids, failing)
            &&& c.healthy == how_many(ids, healthy)
            &&& c.total == how_many(ids, |id: NodeId| id != local)
        }),
    decreases ids.len(),
{
    reveal(Seq::filter);
    if ids.len() > 0 {
        let rest = ids.drop_last();
        let last = ids.last();
        peers_are_counted_by_what_they_are(rest, views, d, local, limit, now);
        view_laws::staleness_begins_beyond_the_limit(views[last], limit, now);
    }
}

/// What a health report says: how many of the peers are stale, failing and healthy, and the
/// status by strict majority of those that are healthy.
pub proof fn health_report_counts_the_peers<V>(
    health: StateHealth,
    ids: Seq<NodeId>,
    views: Map<NodeId, StateViewObject<V>>,
    d: DiagnosticsModel,
    local: NodeId,
    limit: Duration,
    now: Instant,
)
    requires
        diagnostics::reports(
            health,
            d.state_name,
            diagnostics::peer_counts(ids, views, d, local, limit, now),
        ),
    ensures
        ({
            let stale = |id: NodeId|
                id != local && (views[id].pending_remote_generation is Some || now.nanos
                    > views[id].synced_at.nanos + limit.nanos);
            let failing = |id: NodeId|
                id != local && d.peers.contains_key(id) && d.peers[id].consecutive_failures > 0;
            let healthy = |id: NodeId|
                id != local && views[id].pending_remote_generation is None && now.nanos
                    <= views[id].synced_at.nanos + limit.nanos && (d.peers.contains_key(id)
                    ==> d.peers[id].consecutive_failures == 0);
            let total = how_many(ids, |id: NodeId| id != local);
            &&& health.state_name@ == d.state_name
            &&& health.stale_peers == how_many(ids, stale)
            &&& health.failing_peers == how_many(ids, failing)
            &&& health.healthy_peers == how_many(ids, healthy)
            &&& health.status is Healthy <==> health.healthy_peers == total
            &&& health.status is Degraded <==> health.healthy_peers < total && 2
                * health.healthy_peers > total
            &&& health.status is Unhealthy <==> total > 0 && 2 * health.healthy_peers <= total
        }),
{
    peers_are_counted_by_what_they_are(ids, views, d, local, limit, now);
    diagnostics::health_is_by_strict_majority(ids, views, d, local, limit, now);
    diagnostics::counts_cover_peers(ids, views, d, local, limit, now);
}

/// What concerns no peer is counted under its own name and nowhere else, and changes no record.
pub proof fn local_events_are_counted_once(d: DiagnosticsModel)
    requires
        d.metrics.total_mutations < u64::MAX,
        d.metrics.deltas_sent < u64::MAX,
        d.metrics.snapshots_sent < u64::MAX,
        d.metrics.deltas_suppressed < u64::MAX,
        d.metrics.deltas_immediate < u64::MAX,
        d.metrics.stale_deltas_discarded < u64::MAX,
    ensures
        d.mutation().peers == d.peers,
        d.mutation().metrics == (StateSyncMetrics {
            total_mutations: (d.metrics.total_mutations + 1) as u64,
            ..d.metrics
        }),
        d.delta_sent().peers == d.peers,
        d.delta_sent().metrics == (StateSyncMetrics {
            deltas_sent: (d.metrics.deltas_sent + 1) as u64,
            ..d.metrics
        }),
        d.snapshot_sent().peers == d.peers,
        d.snapshot_sent().metrics == (StateSyncMetrics {
            snapshots_sent: (d.metrics.snapshots_sent + 1) as u64,
            ..d.metrics
        }),
        d.delta_suppressed().peers == d.peers,
        d.delta_suppressed().metrics == (StateSyncMetrics {
            deltas_suppressed: (d.metrics.deltas_suppressed + 1) as u64,
            ..d.metrics
        }),
        d.delta_immediate().peers == d.peers,
        d.delta_immediate().metrics == (StateSyncMetrics {
            deltas_immediate: (d.metrics.deltas_immediate + 1) as u64,
            ..d.metrics
        }),
        d.stale_discarded().peers == d.peers,
        d.stale_discarded().metrics == (StateSyncMetrics {
            stale_deltas_discarded: (d.metrics.stale_deltas_discarded + 1) as u64,
            ..d.metrics
        }),
        d.mutation().state_name == d.state_name,
        d.delta_sent().state_name == d.state_name,
        d.snapshot_sent().state_name == d.state_name,
        d.delta_suppressed().state_name == d.state_name,
        d.delta_immediate().state_name == d.state_name,
        d.stale_discarded().state_name == d.state_name,
{
}

/// `peers` is `before` but for the record of `peer`, which is there.
pub open spec fn only_record_of(
    peers: Map<NodeId, PeerRecord>,
    before: Map<NodeId, PeerRecord>,
    peer: NodeId,
) -> bool {
    &&& peers.contains_key(peer)
    &&& forall|id: NodeId|
        id != peer ==> (#[trigger] peers.contains_key(id) <==> before.contains_key(id))
            && peers[id] == before[id]
}

/// A success ends a run of failures: the record of the peer says that it is not failing, forgets
/// the error, and is dated now. Its gaps are kept.
pub proof fn success_clears_failures(
    d: DiagnosticsModel,
    peer: NodeId,
    latency_ms: u64,
    unix_ms: i64,
)
    requires
        d.metrics.deltas_received < u64::MAX,
        d.metrics.snapshots_received < u64::MAX,
    ensures
        d.sync_success(peer, latency_ms, unix_ms).metrics == d.metrics,
        d.delta_received(peer, latency_ms, unix_ms).metrics == (StateSyncMetrics {
            deltas_received: (d.metrics.deltas_received + 1) as u64,
            ..d.metrics
        }),
        d.snapshot_received(peer, latency_ms, unix_ms).metrics == (StateSyncMetrics {
            snapshots_received: (d.metrics.snapshots_received + 1) as u64,
            ..d.metrics
        }),
        d.delta_received(peer, latency_ms, unix_ms).peers == d.sync_success(
            peer,
            latency_ms,
            unix_ms,
        ).peers,
        d.snapshot_received(peer, latency_ms, unix_ms).peers == d.sync_success(
            peer,
            latency_ms,
            unix_ms,
        ).peers,
        ({
            let after = d.sync_success(peer, latency_ms, unix_ms);
            let r = after.peers[peer];
            &&& only_record_of(after.peers, d.peers, peer)
            &&& r.consecutive_failures == 0
            &&& r.last_error is None
            &&& r.last_sync_time == Some(unix_ms)
            &&& r.last_attempt_time == Some(unix_ms)
            &&& r.last_sync_latency_ms == Some(latency_ms)
            &&& r.gap_count == if d.peers.contains_key(peer) {
                d.peers[peer].gap_count
            } else {
                0
            }
            &&& !after.failing(peer)
        }),
{
}

/// A failure adds to the run of failures of its peer, with its error and time, and keeps when
/// and how fast the last success was. The peer is failing until it succeeds.
pub proof fn failure_is_noted(d: DiagnosticsModel, peer: NodeId, error: Seq<char>, unix_ms: i64)
    requires
        d.metrics.sync_failures < u64::MAX,
        d.record(peer).consecutive_failures < u32::MAX,
    ensures
        ({
            let after = d.sync_failure(peer, error, unix_ms);
            let r = after.peers[peer];
            let known = d.peers.contains_key(peer);
            let b = d.peers[peer];
            &&& after.metrics == (StateSyncMetrics {
                sync_failures: (d.metrics.sync_failures + 1) as u64,
                ..d.metrics
            })
            &&& only_record_of(after.peers, d.peers, peer)
            &&& r.consecutive_failures == if known {
                b.consecutive_failures + 1
            } else {
                1
            }
            &&& r.last_error == Some(error)
            &&& r.last_attempt_time == Some(unix_ms)
            &&& known ==> r.last_sync_time == b.last_sync_time && r.last_sync_latency_ms
                == b.last_sync_latency_ms && r.gap_count == b.gap_count
            &&& !known ==> r.last_sync_time is None && r.last_sync_latency_ms is None
                && r.gap_count == 0
            &&& after.failing(peer)
        }),
{
}

/// A gap is counted for its peer and in all, and changes nothing else of the record.
pub proof fn gap_is_noted(d: DiagnosticsModel, peer: NodeId)
    requires
        d.metrics.age_gaps_detected < u64::MAX,
        d.record(peer).gap_count < u64::MAX,
    ensures
        ({
            let after = d.gap_detected(peer);
            let r = after.peers[peer];
            let known = d.peers.contains_key(peer);
            let b = d.peers[peer];
            &&& after.metrics == (StateSyncMetrics {
                age_gaps_detected: (d.metrics.age_gaps_detected + 1) as u64,
                ..d.metrics
            })
            &&& only_record_of(after.peers, d.peers, peer)
            &&& r.gap_count == if known {
                b.gap_count + 1
            } else {
                1
            }
            &&& known ==> r.consecutive_failures == b.consecutive_failures && r.last_error
                == b.last_error && r.last_sync_time == b.last_sync_time && r.last_attempt_time
                == b.last_attempt_time && r.last_sync_latency_ms == b.last_sync_latency_ms
            &&& !known ==> r.consecutive_failures == 0 && r.last_error is None && r.last_sync_time
                is None && r.last_attempt_time is None && r.last_sync_latency_ms is None
            &&& after.failing(peer) == d.failing(peer)
        }),
{
}

/// The status of a peer shows how old the view of it is, what has been announced, and what has
/// been noted; nothing for a peer of which nothing has been.
pub proof fn status_shows_what_was_noted<V>(
    d: DiagnosticsModel,
    id: NodeId,
    view: StateViewObject<V>,
)
    ensures
        ({
            let s = d.status_of(id, view);
            let known = d.peers.contains_key(id);
            let r = d.peers[id];
            &&& s.node_id == id
            &&& s.local_age == view.generation.age
            &&& view.pending_remote_generation is None ==> s.remote_age is None
            &&& view.pending_remote_generation matches Some(g) ==> s.remote_age == Some(g.age)
            &&& known ==> s.gap_count == r.gap_count && s.consecutive_failures
                == r.consecutive_failures && s.last_sync_time == r.last_sync_time
                && s.last_attempt_time == r.last_attempt_time && s.last_error == r.last_error
                && s.last_sync_latency_ms == r.last_sync_latency_ms
            &&& !known ==> s.gap_count == 0 && s.consecutive_failures == 0 && s.last_sync_time
                is None && s.last_attempt_time is None && s.last_error is None
                && s.last_sync_latency_ms is None
        }),
{
}

} // verus!
