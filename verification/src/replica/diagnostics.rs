//! Sync metrics, per-peer diagnostics and health.
use vstd::prelude::*;

use crate::node_map::NodeMap;
use crate::replica::shard_core::ShardCore;
use crate::replica::view_map;
use crate::traits::clock::Clock;
use crate::types::envelope::StateViewObject;
use crate::types::node::NodeId;
use crate::types::time::{Duration, Instant};

verus! {

/// Per-peer synchronization status snapshot.
///
/// Captures the state of a single peer's view as seen by the local node,
/// including sync health indicators (failures, gaps, latency).
#[derive(Debug)]
pub struct PeerSyncStatus {
    pub node_id: NodeId,
    pub local_age: u64,
    pub remote_age: Option<u64>,
    pub gap_count: u64,
    pub consecutive_failures: u32,
    pub last_sync_time: Option<i64>,
    pub last_attempt_time: Option<i64>,
    pub last_error: Option<String>,
    pub last_sync_latency_ms: Option<u64>,
}

/// Aggregate sync metrics for a single state type.
///
/// All counters are monotonically increasing since startup.
#[derive(Debug, Clone, Copy, PartialEq, Eq, Structural)]
pub struct StateSyncMetrics {
    pub total_mutations: u64,
    pub deltas_sent: u64,
    pub deltas_received: u64,
    pub snapshots_sent: u64,
    pub snapshots_received: u64,
    pub deltas_suppressed: u64,
    pub deltas_immediate: u64,
    pub sync_failures: u64,
    pub age_gaps_detected: u64,
    pub stale_deltas_discarded: u64,
}

impl StateSyncMetrics {
    /// Every counter at zero.
    pub open spec fn none() -> StateSyncMetrics {
        StateSyncMetrics {
            total_mutations: 0,
            deltas_sent: 0,
            deltas_received: 0,
            snapshots_sent: 0,
            snapshots_received: 0,
            deltas_suppressed: 0,
            deltas_immediate: 0,
            sync_failures: 0,
            age_gaps_detected: 0,
            stale_deltas_discarded: 0,
        }
    }

    /// Every counter that messages of peers move can grow by `n`.
    pub open spec fn has_room(self, n: nat) -> bool {
        &&& self.deltas_received + n <= u64::MAX
        &&& self.snapshots_sent + n <= u64::MAX
        &&& self.snapshots_received + n <= u64::MAX
        &&& self.sync_failures + n <= u64::MAX
        &&& self.age_gaps_detected + n <= u64::MAX
        &&& self.stale_deltas_discarded + n <= u64::MAX
    }
}

impl Default for StateSyncMetrics {
    fn default() -> (m: Self)
        ensures
            m == StateSyncMetrics::none(),
    {
        StateSyncMetrics {
            total_mutations: 0,
            deltas_sent: 0,
            deltas_received: 0,
            snapshots_sent: 0,
            snapshots_received: 0,
            deltas_suppressed: 0,
            deltas_immediate: 0,
            sync_failures: 0,
            age_gaps_detected: 0,
            stale_deltas_discarded: 0,
        }
    }
}

/// Health status for a single state type across the cluster.
#[derive(Debug)]
pub struct StateHealth {
    pub state_name: String,
    pub healthy_peers: u32,
    pub stale_peers: u32,
    pub failing_peers: u32,
    pub status: HealthStatus,
}

/// Overall health classification.
#[derive(Debug, Clone, Copy, PartialEq, Eq, Structural)]
pub enum HealthStatus {
    /// All peers synced within freshness window.
    Healthy,
    /// Some peers stale or failing, but majority healthy.
    Degraded,
    /// Majority of peers stale or unreachable.
    Unhealthy,
}

/// What is tracked of one peer.
#[derive(Debug)]
pub struct PeerDiagnostics {
    consecutive_failures: u32,
    gap_count: u64,
    last_sync_time: Option<i64>,
    last_attempt_time: Option<i64>,
    last_error: Option<String>,
    last_sync_latency_ms: Option<u64>,
}

/// What is tracked of one peer, over mathematical values.
pub struct PeerRecord {
    pub consecutive_failures: u32,
    pub gap_count: u64,
    pub last_sync_time: Option<i64>,
    pub last_attempt_time: Option<i64>,
    pub last_error: Option<Seq<char>>,
    pub last_sync_latency_ms: Option<u64>,
}

/// The characters of an optional text.
pub open spec fn text_of(s: Option<String>) -> Option<Seq<char>> {
    match s {
        Some(t) => Some(t@),
        None => None,
    }
}

impl View for PeerDiagnostics {
    type V = PeerRecord;

    closed spec fn view(&self) -> PeerRecord {
        PeerRecord {
            consecutive_failures: self.consecutive_failures,
            gap_count: self.gap_count,
            last_sync_time: self.last_sync_time,
            last_attempt_time: self.last_attempt_time,
            last_error: text_of(self.last_error),
            last_sync_latency_ms: self.last_sync_latency_ms,
        }
    }
}

impl PeerDiagnostics {
    /// The failures since the last success.
    pub fn consecutive_failures(&self) -> (n: u32)
        ensures
            n == self@.consecutive_failures,
    {
        self.consecutive_failures
    }

    /// The text of the last error, if there was none since.
    pub fn last_error(&self) -> (error: Option<&str>)
        ensures
            match error {
                Some(text) => self@.last_error == Some(text@),
                None => self@.last_error is None,
            },
    {
        match &self.last_error {
            Some(text) => Some(text.as_str()),
            None => None,
        }
    }

    /// The latency of the last success.
    pub fn last_sync_latency_ms(&self) -> (ms: Option<u64>)
        ensures
            ms == self@.last_sync_latency_ms,
    {
        self.last_sync_latency_ms
    }
}

impl PeerRecord {
    /// The record of a peer of which nothing has been noted.
    pub open spec fn blank() -> PeerRecord {
        PeerRecord {
            consecutive_failures: 0,
            gap_count: 0,
            last_sync_time: None,
            last_attempt_time: None,
            last_error: None,
            last_sync_latency_ms: None,
        }
    }

    /// The record after a successful sync at `unix_ms`.
    pub open spec fn succeeded(self, latency_ms: u64, unix_ms: i64) -> PeerRecord {
        PeerRecord {
            consecutive_failures: 0,
            gap_count: self.gap_count,
            last_sync_time: Some(unix_ms),
            last_attempt_time: Some(unix_ms),
            last_error: None,
            last_sync_latency_ms: Some(latency_ms),
        }
    }

    /// The record after a failed sync at `unix_ms`.
    pub open spec fn failed(self, error: Seq<char>, unix_ms: i64) -> PeerRecord {
        PeerRecord {
            consecutive_failures: (self.consecutive_failures + 1) as u32,
            gap_count: self.gap_count,
            last_sync_time: self.last_sync_time,
            last_attempt_time: Some(unix_ms),
            last_error: Some(error),
            last_sync_latency_ms: self.last_sync_latency_ms,
        }
    }

    /// The record after a gap in the peer's deltas.
    pub open spec fn gapped(self) -> PeerRecord {
        PeerRecord { gap_count: (self.gap_count + 1) as u64, ..self }
    }

    /// Its counters can grow by `n`.
    pub open spec fn has_room(self, n: nat) -> bool {
        self.consecutive_failures + n <= u32::MAX && self.gap_count + n <= u64::MAX
    }
}

/// What the diagnostics of one state hold.
pub struct DiagnosticsModel {
    pub state_name: Seq<char>,
    pub metrics: StateSyncMetrics,
    pub peers: Map<NodeId, PeerRecord>,
}

impl DiagnosticsModel {
    /// The record of `peer`, blank if nothing has been noted of it.
    pub open spec fn record(self, peer: NodeId) -> PeerRecord {
        if self.peers.contains_key(peer) {
            self.peers[peer]
        } else {
            PeerRecord::blank()
        }
    }

    /// Whether the last sync with `peer` failed.
    pub open spec fn failing(self, peer: NodeId) -> bool {
        self.record(peer).consecutive_failures > 0
    }

    /// Every counter that messages of peers move can grow by `n`.
    pub open spec fn has_room(self, n: nat) -> bool {
        &&& self.metrics.has_room(n)
        &&& n <= u32::MAX
        &&& forall|peer: NodeId| #[trigger]
            self.peers.contains_key(peer) ==> self.peers[peer].has_room(n)
    }

    /// The counters of what is sent can grow.
    pub open spec fn can_send(self) -> bool {
        &&& self.metrics.snapshots_sent < u64::MAX
        &&& self.metrics.deltas_sent < u64::MAX
        &&& self.metrics.deltas_suppressed < u64::MAX
        &&& self.metrics.deltas_immediate < u64::MAX
    }

    /// The counters of a mutation and of what it sends can grow.
    pub open spec fn can_mutate(self) -> bool {
        self.metrics.total_mutations < u64::MAX && self.can_send()
    }

    /// The counter of sent snapshots can grow.
    pub open spec fn can_push(self) -> bool {
        self.metrics.snapshots_sent < u64::MAX
    }

    /// The counters of a failed sync with `peer` can grow.
    pub open spec fn can_fail(self, peer: NodeId) -> bool {
        self.metrics.sync_failures < u64::MAX && self.record(peer).consecutive_failures < u32::MAX
    }

    /// The counters that a snapshot of `peer` may move can grow.
    pub open spec fn can_take_snapshot(self, peer: NodeId) -> bool {
        &&& self.can_fail(peer)
        &&& self.metrics.snapshots_received < u64::MAX
        &&& self.metrics.stale_deltas_discarded < u64::MAX
    }

    /// The counters that a delta of `peer` may move can grow.
    pub open spec fn can_take_delta(self, peer: NodeId) -> bool {
        &&& self.can_fail(peer)
        &&& self.metrics.deltas_received < u64::MAX
        &&& self.metrics.stale_deltas_discarded < u64::MAX
        &&& self.metrics.age_gaps_detected < u64::MAX
        &&& self.record(peer).gap_count < u64::MAX
    }

    /// `self` with other metrics.
    pub open spec fn counting(self, metrics: StateSyncMetrics) -> DiagnosticsModel {
        DiagnosticsModel { metrics, ..self }
    }

    /// `self` with another record of `peer`.
    pub open spec fn noting(self, peer: NodeId, record: PeerRecord) -> DiagnosticsModel {
        DiagnosticsModel { peers: self.peers.insert(peer, record), ..self }
    }

    /// After a local mutation.
    pub open spec fn mutation(self) -> DiagnosticsModel {
        self.counting(
            StateSyncMetrics {
                total_mutations: (self.metrics.total_mutations + 1) as u64,
                ..self.metrics
            },
        )
    }

    /// After an outbound delta.
    pub open spec fn delta_sent(self) -> DiagnosticsModel {
        self.counting(
            StateSyncMetrics { deltas_sent: (self.metrics.deltas_sent + 1) as u64, ..self.metrics },
        )
    }

    /// After an outbound snapshot.
    pub open spec fn snapshot_sent(self) -> DiagnosticsModel {
        self.counting(
            StateSyncMetrics {
                snapshots_sent: (self.metrics.snapshots_sent + 1) as u64,
                ..self.metrics
            },
        )
    }

    /// After `n` outbound snapshots.
    pub open spec fn snapshots_sent(self, n: nat) -> DiagnosticsModel {
        self.counting(
            StateSyncMetrics {
                snapshots_sent: (self.metrics.snapshots_sent + n) as u64,
                ..self.metrics
            },
        )
    }

    /// After a suppressed delta.
    pub open spec fn delta_suppressed(self) -> DiagnosticsModel {
        self.counting(
            StateSyncMetrics {
                deltas_suppressed: (self.metrics.deltas_suppressed + 1) as u64,
                ..self.metrics
            },
        )
    }

    /// After an immediate delta push.
    pub open spec fn delta_immediate(self) -> DiagnosticsModel {
        self.counting(
            StateSyncMetrics {
                deltas_immediate: (self.metrics.deltas_immediate + 1) as u64,
                ..self.metrics
            },
        )
    }

    /// After a stale inbound update was discarded.
    pub open spec fn stale_discarded(self) -> DiagnosticsModel {
        self.counting(
            StateSyncMetrics {
                stale_deltas_discarded: (self.metrics.stale_deltas_discarded + 1) as u64,
                ..self.metrics
            },
        )
    }

    /// After a successful sync with `peer` at `unix_ms`.
    pub open spec fn sync_success(
        self,
        peer: NodeId,
        latency_ms: u64,
        unix_ms: i64,
    ) -> DiagnosticsModel {
        self.noting(peer, self.record(peer).succeeded(latency_ms, unix_ms))
    }

    /// After an inbound delta of `peer` was applied at `unix_ms`.
    pub open spec fn delta_received(
        self,
        peer: NodeId,
        latency_ms: u64,
        unix_ms: i64,
    ) -> DiagnosticsModel {
        self.counting(
            StateSyncMetrics {
                deltas_received: (self.metrics.deltas_received + 1) as u64,
                ..self.metrics
            },
        ).sync_success(peer, latency_ms, unix_ms)
    }

    /// After an inbound snapshot of `peer` was accepted at `unix_ms`.
    pub open spec fn snapshot_received(
        self,
        peer: NodeId,
        latency_ms: u64,
        unix_ms: i64,
    ) -> DiagnosticsModel {
        self.counting(
            StateSyncMetrics {
                snapshots_received: (self.metrics.snapshots_received + 1) as u64,
                ..self.metrics
            },
        ).sync_success(peer, latency_ms, unix_ms)
    }

    /// After a failed sync with `peer` at `unix_ms`.
    pub open spec fn sync_failure(
        self,
        peer: NodeId,
        error: Seq<char>,
        unix_ms: i64,
    ) -> DiagnosticsModel {
        self.counting(
            StateSyncMetrics {
                sync_failures: (self.metrics.sync_failures + 1) as u64,
                ..self.metrics
            },
        ).noting(peer, self.record(peer).failed(error, unix_ms))
    }

    /// After a gap in the deltas of `peer`.
    pub open spec fn gap_detected(self, peer: NodeId) -> DiagnosticsModel {
        self.counting(
            StateSyncMetrics {
                age_gaps_detected: (self.metrics.age_gaps_detected + 1) as u64,
                ..self.metrics
            },
        ).noting(peer, self.record(peer).gapped())
    }

    /// The status of one peer.
    pub open spec fn status_of<V>(self, id: NodeId, view: StateViewObject<V>) -> PeerStatusContent {
        let record = self.record(id);
        PeerStatusContent {
            node_id: id,
            local_age: view.generation.age,
            remote_age: match view.pending_remote_generation {
                Some(g) => Some(g.age),
                None => None,
            },
            gap_count: record.gap_count,
            consecutive_failures: record.consecutive_failures,
            last_sync_time: record.last_sync_time,
            last_attempt_time: record.last_attempt_time,
            last_error: record.last_error,
            last_sync_latency_ms: record.last_sync_latency_ms,
        }
    }
}

/// What a [`PeerSyncStatus`] says.
pub struct PeerStatusContent {
    pub node_id: NodeId,
    pub local_age: u64,
    pub remote_age: Option<u64>,
    pub gap_count: u64,
    pub consecutive_failures: u32,
    pub last_sync_time: Option<i64>,
    pub last_attempt_time: Option<i64>,
    pub last_error: Option<Seq<char>>,
    pub last_sync_latency_ms: Option<u64>,
}

impl View for PeerSyncStatus {
    type V = PeerStatusContent;

    open spec fn view(&self) -> PeerStatusContent {
        PeerStatusContent {
            node_id: self.node_id,
            local_age: self.local_age,
            remote_age: self.remote_age,
            gap_count: self.gap_count,
            consecutive_failures: self.consecutive_failures,
            last_sync_time: self.last_sync_time,
            last_attempt_time: self.last_attempt_time,
            last_error: text_of(self.last_error),
            last_sync_latency_ms: self.last_sync_latency_ms,
        }
    }
}

/// The numbers of peers that are fresh and not failing, stale, failing, and there at all.
pub struct PeerCounts {
    pub healthy: nat,
    pub stale: nat,
    pub failing: nat,
    pub total: nat,
}

/// The counts over the nodes `ids`, leaving out `local`. A peer can be both stale and failing.
pub open spec fn peer_counts<V>(
    ids: Seq<NodeId>,
    views: Map<NodeId, StateViewObject<V>>,
    diagnostics: DiagnosticsModel,
    local: NodeId,
    max_staleness: Duration,
    now: Instant,
) -> PeerCounts
    decreases ids.len(),
{
    if ids.len() == 0 {
        PeerCounts { healthy: 0, stale: 0, failing: 0, total: 0 }
    } else {
        let rest = peer_counts(
            ids.drop_last(),
            views,
            diagnostics,
            local,
            max_staleness,
            now,
        );
        let id = ids.last();
        if id == local {
            rest
        } else {
            let stale = view_map::is_stale(views[id], max_staleness, now);
            let failing = diagnostics.failing(id);
            PeerCounts {
                healthy: rest.healthy + if stale || failing { 0nat } else { 1nat },
                stale: rest.stale + if stale { 1nat } else { 0nat },
                failing: rest.failing + if failing { 1nat } else { 0nat },
                total: rest.total + 1,
            }
        }
    }
}

/// The classification by strict majority: healthy when no peer is stale or failing, degraded
/// when more than half of the peers are healthy, unhealthy otherwise.
pub open spec fn classification(counts: PeerCounts) -> HealthStatus {
    if counts.stale == 0 && counts.failing == 0 {
        HealthStatus::Healthy
    } else if 2 * counts.healthy > counts.total {
        HealthStatus::Degraded
    } else {
        HealthStatus::Unhealthy
    }
}

/// Whether `health` reports the given counts of the state `name`.
pub open spec fn reports(health: StateHealth, name: Seq<char>, counts: PeerCounts) -> bool {
    &&& health.state_name@ == name
    &&& health.healthy_peers == counts.healthy
    &&& health.stale_peers == counts.stale
    &&& health.failing_peers == counts.failing
    &&& health.status == classification(counts)
}

/// No count exceeds the number of peers, and every peer is counted.
pub proof fn counts_cover_peers<V>(
    ids: Seq<NodeId>,
    views: Map<NodeId, StateViewObject<V>>,
    diagnostics: DiagnosticsModel,
    local: NodeId,
    max_staleness: Duration,
    now: Instant,
)
    ensures
        ({
            let c = peer_counts(ids, views, diagnostics, local, max_staleness, now);
            &&& c.total <= ids.len()
            &&& c.healthy + c.stale <= c.total
            &&& c.healthy + c.failing <= c.total
            &&& c.healthy + c.stale + c.failing >= c.total
        }),
    decreases ids.len(),
{
    if ids.len() > 0 {
        counts_cover_peers(ids.drop_last(), views, diagnostics, local, max_staleness, now);
    }
}

/// A state is healthy exactly when every peer is, and unhealthy exactly when half or more of
/// the peers are stale or failing.
pub proof fn health_is_by_strict_majority<V>(
    ids: Seq<NodeId>,
    views: Map<NodeId, StateViewObject<V>>,
    diagnostics: DiagnosticsModel,
    local: NodeId,
    max_staleness: Duration,
    now: Instant,
)
    ensures
        ({
            let c = peer_counts(ids, views, diagnostics, local, max_staleness, now);
            &&& classification(c) is Healthy <==> c.healthy == c.total
            &&& classification(c) is Unhealthy <==> c.total > 0 && 2 * c.healthy <= c.total
        }),
{
    counts_cover_peers(ids, views, diagnostics, local, max_staleness, now);
}

/// Pure logic for tracking sync diagnostics, metrics, and health.
#[derive(Debug)]
pub struct DiagnosticsLogic {
    state_name: String,
    metrics: StateSyncMetrics,
    peers: NodeMap<PeerDiagnostics>,
}

impl View for DiagnosticsLogic {
    type V = DiagnosticsModel;

    closed spec fn view(&self) -> DiagnosticsModel {
        DiagnosticsModel {
            state_name: self.state_name@,
            metrics: self.metrics,
            peers: self.peers@.map_values(|d: PeerDiagnostics| d@),
        }
    }
}

impl DiagnosticsLogic {
    pub closed spec fn wf(&self) -> bool {
        self.peers.wf()
    }

    /// Diagnostics of a state of which nothing has been recorded.
    pub fn new(state_name: String) -> (d: Self)
        ensures
            d.wf(),
            d@ == (DiagnosticsModel {
                state_name: state_name@,
                metrics: StateSyncMetrics::none(),
                peers: Map::empty(),
            }),
    {
        let d = DiagnosticsLogic {
            state_name,
            metrics: StateSyncMetrics::default(),
            peers: NodeMap::new(),
        };
        assert(d@.peers =~= Map::<NodeId, PeerRecord>::empty());
        d
    }

    /// Takes out what is tracked of `peer`, blank if nothing is.
    fn take_peer(&mut self, peer: NodeId) -> (d: PeerDiagnostics)
        requires
            old(self).wf(),
        ensures
            final(self).wf(),
            d@ == old(self)@.record(peer),
            final(self)@ == (DiagnosticsModel {
                peers: old(self)@.peers.remove(peer),
                ..old(self)@
            }),
    {
        let taken = self.peers.remove(&peer);
        assert(self@.peers =~= old(self)@.peers.remove(peer));
        match taken {
            Some(d) => d,
            None => PeerDiagnostics {
                consecutive_failures: 0,
                gap_count: 0,
                last_sync_time: None,
                last_attempt_time: None,
                last_error: None,
                last_sync_latency_ms: None,
            },
        }
    }

    /// Puts back what is tracked of `peer`.
    fn put_peer(&mut self, peer: NodeId, d: PeerDiagnostics)
        requires
            old(self).wf(),
        ensures
            final(self).wf(),
            final(self)@ == old(self)@.noting(peer, d@),
    {
        self.peers.insert(peer, d);
        assert(self@.peers =~= old(self)@.peers.insert(peer, d@));
    }

    /// Record a successful inbound sync from a peer at `unix_ms`.
    pub fn record_sync_success_at(&mut self, peer: NodeId, latency_ms: u64, unix_ms: i64)
        requires
            old(self).wf(),
        ensures
            final(self).wf(),
            final(self)@ == old(self)@.sync_success(peer, latency_ms, unix_ms),
    {
        let mut d = self.take_peer(peer);
        d.consecutive_failures = 0;
        d.last_sync_time = Some(unix_ms);
        d.last_attempt_time = Some(unix_ms);
        d.last_error = None;
        d.last_sync_latency_ms = Some(latency_ms);
        self.put_peer(peer, d);
        assert(self@.peers =~= old(self)@.sync_success(peer, latency_ms, unix_ms).peers);
    }

    /// Record a successful inbound sync (delta or snapshot applied) from a peer.
    ///
    /// Resets consecutive failures, updates latency and timestamps.
    pub fn record_sync_success<C: Clock>(&mut self, peer: NodeId, latency_ms: u64, clock: &C)
        requires
            old(self).wf(),
        ensures
            final(self).wf(),
            exists|unix_ms: i64|
                call_ensures(C::unix_ms, (clock,), unix_ms) && final(self)@
                    == #[trigger] old(self)@.sync_success(peer, latency_ms, unix_ms),
    {
        let now = clock.unix_ms();
        self.record_sync_success_at(peer, latency_ms, now);
    }

    /// Record a sync failure for a peer at `unix_ms`.
    pub fn record_sync_failure_at(&mut self, peer: NodeId, error: &str, unix_ms: i64)
        requires
            old(self).wf(),
            old(self)@.metrics.sync_failures < u64::MAX,
            old(self)@.record(peer).consecutive_failures < u32::MAX,
        ensures
            final(self).wf(),
            final(self)@ == old(self)@.sync_failure(peer, error@, unix_ms),
    {
        let mut d = self.take_peer(peer);
        d.consecutive_failures = d.consecutive_failures + 1;
        d.last_attempt_time = Some(unix_ms);
        d.last_error = Some(error.to_owned());
        self.put_peer(peer, d);
        self.metrics.sync_failures = self.metrics.sync_failures + 1;
        assert(self@.peers =~= old(self)@.sync_failure(peer, error@, unix_ms).peers);
    }

    /// Record a sync failure for a peer.
    pub fn record_sync_failure<C: Clock>(&mut self, peer: NodeId, error: &str, clock: &C)
        requires
            old(self).wf(),
            old(self)@.metrics.sync_failures < u64::MAX,
            old(self)@.record(peer).consecutive_failures < u32::MAX,
        ensures
            final(self).wf(),
            exists|unix_ms: i64|
                call_ensures(C::unix_ms, (clock,), unix_ms) && final(self)@
                    == #[trigger] old(self)@.sync_failure(peer, error@, unix_ms),
    {
        let now = clock.unix_ms();
        self.record_sync_failure_at(peer, error, now);
    }

    /// Record an age gap detected on an inbound delta.
    pub fn record_gap_detected(&mut self, peer: NodeId)
        requires
            old(self).wf(),
            old(self)@.metrics.age_gaps_detected < u64::MAX,
            old(self)@.record(peer).gap_count < u64::MAX,
        ensures
            final(self).wf(),
            final(self)@ == old(self)@.gap_detected(peer),
    {
        let mut d = self.take_peer(peer);
        d.gap_count = d.gap_count + 1;
        self.put_peer(peer, d);
        self.metrics.age_gaps_detected = self.metrics.age_gaps_detected + 1;
        assert(self@.peers =~= old(self)@.gap_detected(peer).peers);
    }

    /// Record a local mutation applied.
    pub fn record_mutation(&mut self)
        requires
            old(self).wf(),
            old(self)@.metrics.total_mutations < u64::MAX,
        ensures
            final(self).wf(),
            final(self)@ == old(self)@.mutation(),
    {
        self.metrics.total_mutations = self.metrics.total_mutations + 1;
    }

    /// Record an outbound delta sent.
    pub fn record_delta_sent(&mut self)
        requires
            old(self).wf(),
            old(self)@.metrics.deltas_sent < u64::MAX,
        ensures
            final(self).wf(),
            final(self)@ == old(self)@.delta_sent(),
    {
        self.metrics.deltas_sent = self.metrics.deltas_sent + 1;
    }

    /// Record an inbound delta received and applied at `unix_ms`.
    pub fn record_delta_received_at(&mut self, peer: NodeId, latency_ms: u64, unix_ms: i64)
        requires
            old(self).wf(),
            old(self)@.metrics.deltas_received < u64::MAX,
        ensures
            final(self).wf(),
            final(self)@ == old(self)@.delta_received(peer, latency_ms, unix_ms),
    {
        self.metrics.deltas_received = self.metrics.deltas_received + 1;
        self.record_sync_success_at(peer, latency_ms, unix_ms);
    }

    /// Record an inbound delta received and applied.
    pub fn record_delta_received<C: Clock>(&mut self, peer: NodeId, latency_ms: u64, clock: &C)
        requires
            old(self).wf(),
            old(self)@.metrics.deltas_received < u64::MAX,
        ensures
            final(self).wf(),
            exists|unix_ms: i64|
                call_ensures(C::unix_ms, (clock,), unix_ms) && final(self)@
                    == #[trigger] old(self)@.delta_received(peer, latency_ms, unix_ms),
    {
        let now = clock.unix_ms();
        self.record_delta_received_at(peer, latency_ms, now);
    }

    /// Record an outbound snapshot sent.
    pub fn record_snapshot_sent(&mut self)
        requires
            old(self).wf(),
            old(self)@.metrics.snapshots_sent < u64::MAX,
        ensures
            final(self).wf(),
            final(self)@ == old(self)@.snapshot_sent(),
    {
        self.metrics.snapshots_sent = self.metrics.snapshots_sent + 1;
    }

    /// Record an inbound snapshot received and applied at `unix_ms`.
    pub fn record_snapshot_received_at(&mut self, peer: NodeId, latency_ms: u64, unix_ms: i64)
        requires
            old(self).wf(),
            old(self)@.metrics.snapshots_received < u64::MAX,
        ensures
            final(self).wf(),
            final(self)@ == old(self)@.snapshot_received(peer, latency_ms, unix_ms),
    {
        self.metrics.snapshots_received = self.metrics.snapshots_received + 1;
        self.record_sync_success_at(peer, latency_ms, unix_ms);
    }

    /// Record an inbound snapshot received and applied.
    pub fn record_snapshot_received<C: Clock>(
        &mut self,
        peer: NodeId,
        latency_ms: u64,
        clock: &C,
    )
        requires
            old(self).wf(),
            old(self)@.metrics.snapshots_received < u64::MAX,
        ensures
            final(self).wf(),
            exists|unix_ms: i64|
                call_ensures(C::unix_ms, (clock,), unix_ms) && final(self)@
                    == #[trigger] old(self)@.snapshot_received(peer, latency_ms, unix_ms),
    {
        let now = clock.unix_ms();
        self.record_snapshot_received_at(peer, latency_ms, now);
    }

    /// Record a suppressed delta.
    pub fn record_delta_suppressed(&mut self)
        requires
            old(self).wf(),
            old(self)@.metrics.deltas_suppressed < u64::MAX,
        ensures
            final(self).wf(),
            final(self)@ == old(self)@.delta_suppressed(),
    {
        self.metrics.deltas_suppressed = self.metrics.deltas_suppressed + 1;
    }

    /// Record an immediate delta push.
    pub fn record_delta_immediate(&mut self)
        requires
            old(self).wf(),
            old(self)@.metrics.deltas_immediate < u64::MAX,
        ensures
            final(self).wf(),
            final(self)@ == old(self)@.delta_immediate(),
    {
        self.metrics.deltas_immediate = self.metrics.deltas_immediate + 1;
    }

    /// Record a stale inbound delta discarded.
    pub fn record_stale_delta_discarded(&mut self)
        requires
            old(self).wf(),
            old(self)@.metrics.stale_deltas_discarded < u64::MAX,
        ensures
            final(self).wf(),
            final(self)@ == old(self)@.stale_discarded(),
    {
        self.metrics.stale_deltas_discarded = self.metrics.stale_deltas_discarded + 1;
    }

    /// The sync status of every node in the view map, in ascending order of the ids.
    ///
    /// Combines view map data with per-peer diagnostics (failures, latency, errors).
    pub fn sync_status<S, V, C: Clock>(&self, shard: &ShardCore<S, V, C>) -> (statuses: Vec<
        PeerSyncStatus,
    >)
        requires
            self.wf(),
            shard.wf(),
        ensures
            statuses@.len() == shard.entries().ids().len(),
            forall|i: int|
                0 <= i < statuses@.len() ==> (#[trigger] statuses@[i])@ == self@.status_of(
                    shard.entries().ids()[i],
                    shard@.views[shard.entries().ids()[i]],
                ),
    {
        let table = shard.table();
        proof {
            shard.lemma_wf();
        }
        let n = table.len();
        let mut statuses: Vec<PeerSyncStatus> = Vec::new();
        let mut i: usize = 0;
        while i < n
            invariant
                self.wf(),
                table.wf(),
                *table == shard.entries(),
                table@ == shard@.views,
                n == table.ids().len(),
                i <= n,
                statuses@.len() == i,
                forall|j: int|
                    0 <= j < i ==> (#[trigger] statuses@[j])@ == self@.status_of(
                        table.ids()[j],
                        shard@.views[table.ids()[j]],
                    ),
            decreases n - i,
        {
            let id = table.id_at(i);
            let view = table.value_at(i);
            let remote_age = match view.pending_remote_generation {
                Some(g) => Some(g.age),
                None => None,
            };
            let status = match self.peers.get(&id) {
                Some(d) => PeerSyncStatus {
                    node_id: id,
                    local_age: view.generation.age,
                    remote_age,
                    gap_count: d.gap_count,
                    consecutive_failures: d.consecutive_failures,
                    last_sync_time: d.last_sync_time,
                    last_attempt_time: d.last_attempt_time,
                    last_error: match &d.last_error {
                        Some(e) => Some(e.clone()),
                        None => None,
                    },
                    last_sync_latency_ms: d.last_sync_latency_ms,
                },
                None => PeerSyncStatus {
                    node_id: id,
                    local_age: view.generation.age,
                    remote_age,
                    gap_count: 0,
                    consecutive_failures: 0,
                    last_sync_time: None,
                    last_attempt_time: None,
                    last_error: None,
                    last_sync_latency_ms: None,
                },
            };
            assert(status@ == self@.status_of(id, *view));
            statuses.push(status);
            i = i + 1;
        }
        statuses
    }

    /// The accumulated metrics.
    pub fn metrics(&self) -> (m: &StateSyncMetrics)
        ensures
            *m == self@.metrics,
    {
        &self.metrics
    }

    /// The health of this state type at `now`.
    pub fn health_status_at<S, V, C: Clock>(
        &self,
        shard: &ShardCore<S, V, C>,
        max_staleness: Duration,
        now: Instant,
    ) -> (health: StateHealth)
        requires
            self.wf(),
            shard.wf(),
            shard@.views.dom().len() <= u32::MAX,
        ensures
            reports(
                health,
                self@.state_name,
                peer_counts(
                    shard.entries().ids(),
                    shard@.views,
                    self@,
                    shard@.node_id,
                    max_staleness,
                    now,
                ),
            ),
    {
        let local_id = shard.node_id();
        let table = shard.table();
        proof {
            shard.lemma_wf();
        }
        let n = table.len();
        let mut healthy: u32 = 0;
        let mut stale: u32 = 0;
        let mut failing: u32 = 0;
        let mut total_peers: u32 = 0;
        let mut i: usize = 0;
        let ghost ids = table.ids();
        while i < n
            invariant
                self.wf(),
                table.wf(),
                *table == shard.entries(),
                table@ == shard@.views,
                ids == table.ids(),
                n == ids.len(),
                n <= u32::MAX,
                i <= n,
                local_id == shard@.node_id,
                ({
                    let c = peer_counts(
                        ids.take(i as int),
                        shard@.views,
                        self@,
                        local_id,
                        max_staleness,
                        now,
                    );
                    c.healthy == healthy && c.stale == stale && c.failing == failing && c.total
                        == total_peers
                }),
            decreases n - i,
        {
            let id = table.id_at(i);
            let view = table.value_at(i);
            proof {
                assert(ids.take(i + 1).drop_last() =~= ids.take(i as int));
                assert(ids.take(i + 1).last() == id);
                counts_cover_peers(
                    ids.take(i as int),
                    shard@.views,
                    self@,
                    local_id,
                    max_staleness,
                    now,
                );
            }
            if id != local_id {
                total_peers = total_peers + 1;
                let is_stale = view.pending_remote_generation.is_some() || now.duration_since(
                    view.synced_at,
                ).nanos > max_staleness.nanos;
                let is_failing = match self.peers.get(&id) {
                    Some(d) => d.consecutive_failures > 0,
                    None => false,
                };
                assert(is_stale == view_map::is_stale(shard@.views[id], max_staleness, now));
                assert(is_failing == self@.failing(id));
                if is_stale || is_failing {
                    if is_stale {
                        stale = stale + 1;
                    }
                    if is_failing {
                        failing = failing + 1;
                    }
                } else {
                    healthy = healthy + 1;
                }
            }
            i = i + 1;
        }
        assert(ids.take(n as int) =~= ids);
        proof {
            counts_cover_peers(ids, shard@.views, self@, local_id, max_staleness, now);
        }
        let status = if stale == 0 && failing == 0 {
            HealthStatus::Healthy
        } else if total_peers > 0 && healthy > total_peers / 2 {
            HealthStatus::Degraded
        } else {
            HealthStatus::Unhealthy
        };
        StateHealth {
            state_name: self.state_name.clone(),
            healthy_peers: healthy,
            stale_peers: stale,
            failing_peers: failing,
            status,
        }
    }

    /// The health of this state type.
    ///
    /// A peer is stale if it was synced longer than `max_staleness` ago or has announced a
    /// newer generation, and failing if its last sync failed; it can be both. It is healthy if
    /// it is neither. The classification is by strict majority: `Healthy` if all peers are,
    /// `Degraded` if more than half are, `Unhealthy` otherwise.
    pub fn health_status<S, V, C: Clock>(
        &self,
        shard: &ShardCore<S, V, C>,
        max_staleness: Duration,
    ) -> (health: StateHealth)
        requires
            self.wf(),
            shard.wf(),
            shard@.views.dom().len() <= u32::MAX,
        ensures
            exists|now: Instant|
                (shard@.clock.now)(now) && reports(
                    health,
                    self@.state_name,
                    #[trigger] peer_counts(
                        shard.entries().ids(),
                        shard@.views,
                        self@,
                        shard@.node_id,
                        max_staleness,
                        now,
                    ),
                ),
    {
        let now = shard.clock().now();
        self.health_status_at(shard, max_staleness, now)
    }

    /// Whether the counters of a mutation and of what it sends can grow.
    pub fn can_mutate(&self) -> (b: bool)
        ensures
            b == self@.can_mutate(),
    {
        let m = &self.metrics;
        m.total_mutations < u64::MAX && m.snapshots_sent < u64::MAX && m.deltas_sent < u64::MAX
            && m.deltas_suppressed < u64::MAX && m.deltas_immediate < u64::MAX
    }

    /// Whether the counter of sent snapshots can grow.
    pub fn can_push(&self) -> (b: bool)
        ensures
            b == self@.can_push(),
    {
        self.metrics.snapshots_sent < u64::MAX
    }

    /// Whether the counters that a snapshot of `peer` may move can grow.
    pub fn can_take_snapshot(&self, peer: &NodeId) -> (b: bool)
        requires
            self.wf(),
        ensures
            b == self@.can_take_snapshot(*peer),
    {
        let failures = match self.peers.get(peer) {
            Some(d) => d.consecutive_failures,
            None => 0,
        };
        let m = &self.metrics;
        failures < u32::MAX && m.sync_failures < u64::MAX && m.snapshots_received < u64::MAX
            && m.stale_deltas_discarded < u64::MAX
    }

    /// Whether the counters that a delta of `peer` may move can grow.
    pub fn can_take_delta(&self, peer: &NodeId) -> (b: bool)
        requires
            self.wf(),
        ensures
            b == self@.can_take_delta(*peer),
    {
        let (failures, gaps) = match self.peers.get(peer) {
            Some(d) => (d.consecutive_failures, d.gap_count),
            None => (0u32, 0u64),
        };
        let m = &self.metrics;
        failures < u32::MAX && gaps < u64::MAX && m.sync_failures < u64::MAX && m.deltas_received
            < u64::MAX && m.stale_deltas_discarded < u64::MAX && m.age_gaps_detected < u64::MAX
    }

    /// Whether every counter that messages of peers move can grow by `n`.
    pub fn has_room(&self, n: u32) -> (b: bool)
        requires
            self.wf(),
        ensures
            b == self@.has_room(n as nat),
    {
        let n64 = n as u64;
        let m = &self.metrics;
        if m.deltas_received > u64::MAX - n64 || m.snapshots_sent > u64::MAX - n64
            || m.snapshots_received > u64::MAX - n64 || m.sync_failures > u64::MAX - n64
            || m.age_gaps_detected > u64::MAX - n64 || m.stale_deltas_discarded > u64::MAX - n64 {
            return false;
        }
        proof {
            self.peers.lemma_ids();
        }
        let count = self.peers.len();
        let mut i: usize = 0;
        while i < count
            invariant
                self.wf(),
                i <= count,
                count == self.peers.ids().len(),
                n64 == n,
                forall|j: int|
                    0 <= j < i ==> self@.peers[#[trigger] self.peers.ids()[j]].has_room(n as nat),
                forall|j: int|
                    0 <= j < count ==> self@.peers.contains_key(#[trigger] self.peers.ids()[j]),
            decreases count - i,
        {
            let d = self.peers.value_at(i);
            let ghost id = self.peers.ids()[i as int];
            assert(self@.peers[id] == d@);
            if d.consecutive_failures > u32::MAX - n || d.gap_count > u64::MAX - n64 {
                assert(self@.peers.contains_key(id));
                assert(!self@.peers[id].has_room(n as nat));
                return false;
            }
            i = i + 1;
        }
        proof {
            assert forall|peer: NodeId| #[trigger]
                self@.peers.contains_key(peer) implies self@.peers[peer].has_room(n as nat) by {
                assert(self.peers@.contains_key(peer));
                let j = choose|j: int|
                    0 <= j < self.peers.ids().len() && #[trigger] self.peers.ids()[j] == peer;
                assert(self@.peers[self.peers.ids()[j]].has_room(n as nat));
            }
        }
        true
    }

    /// The number of peers of which something has been noted.
    pub fn peer_count(&self) -> (n: usize)
        requires
            self.wf(),
        ensures
            n == self@.peers.dom().len(),
    {
        proof {
            self.peers.lemma_ids();
            assert(self@.peers.dom() =~= self.peers@.dom());
        }
        self.peers.len()
    }

    /// The failures of `peer` since its last success, if anything has been noted of it.
    pub fn consecutive_failures(&self, peer: &NodeId) -> (n: Option<u32>)
        requires
            self.wf(),
        ensures
            n == if self@.peers.contains_key(*peer) {
                Some(self@.peers[*peer].consecutive_failures)
            } else {
                None
            },
    {
        match self.peers.get(peer) {
            Some(record) => Some(record.consecutive_failures),
            None => None,
        }
    }

    /// What has been noted of `peer`, if anything.
    pub fn peer(&self, peer: &NodeId) -> (d: Option<&PeerDiagnostics>)
        requires
            self.wf(),
        ensures
            match d {
                Some(noted) => self@.peers.contains_key(*peer) && noted@ == self@.peers[*peer],
                None => !self@.peers.contains_key(*peer),
            },
    {
        self.peers.get(peer)
    }

    /// Remove tracking data for a departed peer.
    pub fn remove_peer(&mut self, peer: &NodeId)
        requires
            old(self).wf(),
        ensures
            final(self).wf(),
            final(self)@ == (DiagnosticsModel {
                peers: old(self)@.peers.remove(*peer),
                ..old(self)@
            }),
    {
        self.peers.remove(peer);
        assert(self@.peers =~= old(self)@.peers.remove(*peer));
    }

    /// The state name this diagnostics instance tracks.
    pub fn state_name(&self) -> (s: &str)
        ensures
            s@ == self@.state_name,
    {
        self.state_name.as_str()
    }
}

} // verus!
