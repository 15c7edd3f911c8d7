//! Configurations for scenarios.
use vstd::prelude::*;

use crate::types::config;
use crate::types::config::{PushMode, StateConfig, SyncStrategy};
use crate::types::node::VersionMismatchPolicy;
use crate::types::time::Duration;

verus! {

/// The default configuration with another strategy.
pub open spec fn with_strategy(sync_strategy: SyncStrategy) -> StateConfig {
    StateConfig {
        sync_strategy,
        pull_timeout: Duration { nanos: 5_000_000_000 },
        version_mismatch_policy: VersionMismatchPolicy::KeepStale,
    }
}

/// Every mutation is pushed.
pub fn active_push_config() -> (c: StateConfig)
    ensures
        c == with_strategy(
            SyncStrategy {
                push_mode: Some(PushMode::ActivePush),
                periodic_full_sync: None,
                pull_on_query: false,
                change_feed: config::default_change_feed(),
            },
        ),
{
    let defaults = StateConfig::default();
    StateConfig { sync_strategy: SyncStrategy::active_push(), ..defaults }
}

/// Nothing is pushed but a snapshot every `interval`.
pub fn periodic_only_config(interval: Duration) -> (c: StateConfig)
    ensures
        c == with_strategy(
            SyncStrategy {
                push_mode: None,
                periodic_full_sync: Some(interval),
                pull_on_query: false,
                change_feed: config::default_change_feed(),
            },
        ),
{
    let defaults = StateConfig::default();
    StateConfig { sync_strategy: SyncStrategy::periodic_only(interval), ..defaults }
}

/// Changes are announced, and pulled when a query needs them.
pub fn feed_lazy_pull_config() -> (c: StateConfig)
    ensures
        c == with_strategy(
            SyncStrategy {
                push_mode: Some(PushMode::ActiveFeedLazyPull),
                periodic_full_sync: None,
                pull_on_query: true,
                change_feed: config::default_change_feed(),
            },
        ),
{
    let defaults = StateConfig::default();
    StateConfig { sync_strategy: SyncStrategy::feed_lazy_pull(), ..defaults }
}

/// Every mutation is pushed, and a snapshot every `interval`.
pub fn periodic_push_config(interval: Duration) -> (c: StateConfig)
    ensures
        c == with_strategy(
            SyncStrategy {
                push_mode: Some(PushMode::ActivePush),
                periodic_full_sync: Some(interval),
                pull_on_query: false,
                change_feed: config::default_change_feed(),
            },
        ),
{
    let mut strategy = SyncStrategy::active_push();
    strategy.periodic_full_sync = Some(interval);
    let defaults = StateConfig::default();
    StateConfig { sync_strategy: strategy, ..defaults }
}

} // verus!
