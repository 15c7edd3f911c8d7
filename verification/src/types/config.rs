//! How a state type synchronizes across the cluster.
use vstd::prelude::*;

use crate::types::node::VersionMismatchPolicy;
use crate::types::time::Duration;

verus! {

/// Push mode for synchronization.
#[derive(Debug, Clone, Copy, PartialEq, Eq, Structural)]
pub enum PushMode {
    /// Push deltas (or full state for simple types) immediately on every mutation.
    ActivePush,
    /// Send change-feed notifications; peers lazily pull when they need fresh data.
    ActiveFeedLazyPull,
}

/// Configuration for the change feed aggregator.
#[derive(Debug, Clone, Copy, PartialEq, Eq, Structural)]
pub struct ChangeFeedConfig {
    /// How often accumulated change notifications are flushed and broadcast.
    pub batch_interval: Duration,
}

/// The change feed configuration that batches once a second.
pub open spec fn default_change_feed() -> ChangeFeedConfig {
    ChangeFeedConfig { batch_interval: Duration { nanos: 1_000_000_000 } }
}

impl Default for ChangeFeedConfig {
    fn default() -> (c: Self)
        ensures
            c == default_change_feed(),
    {
        ChangeFeedConfig { batch_interval: Duration::from_secs(1) }
    }
}

/// Synchronization strategy composed from independent options.
#[derive(Debug, Clone, Copy, PartialEq, Eq, Structural)]
pub struct SyncStrategy {
    /// How mutations are pushed to peers. `None` = no automatic push.
    pub push_mode: Option<PushMode>,
    /// If set, a full snapshot is pushed at this interval as a safety net.
    pub periodic_full_sync: Option<Duration>,
    /// If `true`, queries with freshness requirements pull from peers on demand.
    pub pull_on_query: bool,
    /// Configuration for the change feed (only used with `ActiveFeedLazyPull`).
    pub change_feed: ChangeFeedConfig,
}

impl SyncStrategy {
    /// Active push: immediate delta/snapshot push on every mutation.
    pub fn active_push() -> (s: Self)
        ensures
            s == (SyncStrategy {
                push_mode: Some(PushMode::ActivePush),
                periodic_full_sync: None,
                pull_on_query: false,
                change_feed: default_change_feed(),
            }),
    {
        SyncStrategy {
            push_mode: Some(PushMode::ActivePush),
            periodic_full_sync: None,
            pull_on_query: false,
            change_feed: ChangeFeedConfig::default(),
        }
    }

    /// Feed + lazy pull: change notifications + on-demand pull.
    pub fn feed_lazy_pull() -> (s: Self)
        ensures
            s == (SyncStrategy {
                push_mode: Some(PushMode::ActiveFeedLazyPull),
                periodic_full_sync: None,
                pull_on_query: true,
                change_feed: default_change_feed(),
            }),
    {
        SyncStrategy {
            push_mode: Some(PushMode::ActiveFeedLazyPull),
            periodic_full_sync: None,
            pull_on_query: true,
            change_feed: ChangeFeedConfig::default(),
        }
    }

    /// Feed + periodic safety-net full sync.
    pub fn feed_with_periodic_sync(interval: Duration) -> (s: Self)
        ensures
            s == (SyncStrategy {
                push_mode: Some(PushMode::ActiveFeedLazyPull),
                periodic_full_sync: Some(interval),
                pull_on_query: true,
                change_feed: default_change_feed(),
            }),
    {
        SyncStrategy {
            push_mode: Some(PushMode::ActiveFeedLazyPull),
            periodic_full_sync: Some(interval),
            pull_on_query: true,
            change_feed: ChangeFeedConfig::default(),
        }
    }

    /// Periodic-only: no push, just periodic full snapshots.
    pub fn periodic_only(interval: Duration) -> (s: Self)
        ensures
            s == (SyncStrategy {
                push_mode: None,
                periodic_full_sync: Some(interval),
                pull_on_query: false,
                change_feed: default_change_feed(),
            }),
    {
        SyncStrategy {
            push_mode: None,
            periodic_full_sync: Some(interval),
            pull_on_query: false,
            change_feed: ChangeFeedConfig::default(),
        }
    }
}

/// Per-state-type configuration.
#[derive(Debug, Clone, Copy, PartialEq, Eq, Structural)]
pub struct StateConfig {
    /// How this state type synchronizes across the cluster.
    pub sync_strategy: SyncStrategy,
    /// Maximum time to wait for a pull response from a peer.
    pub pull_timeout: Duration,
    /// Policy for handling incoming messages at unsupported wire versions.
    pub version_mismatch_policy: VersionMismatchPolicy,
}

impl Default for StateConfig {
    fn default() -> (c: Self)
        ensures
            c == (StateConfig {
                sync_strategy: SyncStrategy {
                    push_mode: Some(PushMode::ActivePush),
                    periodic_full_sync: None,
                    pull_on_query: false,
                    change_feed: default_change_feed(),
                },
                pull_timeout: Duration { nanos: 5_000_000_000 },
                version_mismatch_policy: VersionMismatchPolicy::KeepStale,
            }),
    {
        StateConfig {
            sync_strategy: SyncStrategy::active_push(),
            pull_timeout: Duration::from_secs(5),
            version_mismatch_policy: VersionMismatchPolicy::KeepStale,
        }
    }
}

/// What the strategies are named for: whether a mutation is pushed, announced or neither, whether
/// snapshots are sent periodically, and whether a query pulls.
pub proof fn strategies_do_what_they_are_named_for(s: SyncStrategy, interval: Duration)
    ensures
        call_ensures(SyncStrategy::active_push, (), s) ==> s.push_mode == Some(
            PushMode::ActivePush,
        ) && s.periodic_full_sync is None && !s.pull_on_query,
        call_ensures(SyncStrategy::feed_lazy_pull, (), s) ==> s.push_mode == Some(
            PushMode::ActiveFeedLazyPull,
        ) && s.periodic_full_sync is None && s.pull_on_query,
        call_ensures(SyncStrategy::feed_with_periodic_sync, (interval,), s) ==> s.push_mode == Some(
            PushMode::ActiveFeedLazyPull,
        ) && s.periodic_full_sync == Some(interval) && s.pull_on_query,
        call_ensures(SyncStrategy::periodic_only, (interval,), s) ==> s.push_mode is None
            && s.periodic_full_sync == Some(interval) && !s.pull_on_query,
{
}

} // verus!
