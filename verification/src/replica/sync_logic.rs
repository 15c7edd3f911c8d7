//! Outbound synchronization decisions.
use vstd::prelude::*;

use crate::traits::state::SyncUrgency;
use crate::types::config::{PushMode, SyncStrategy};
use crate::types::time::Duration;

verus! {

/// Action to take after processing a mutation's sync urgency.
#[derive(Debug, Clone, Copy, PartialEq, Eq, Structural)]
pub enum SyncAction {
    /// Broadcast a full snapshot to all peers immediately.
    BroadcastSnapshot,
    /// Broadcast a delta to all peers immediately.
    BroadcastDelta,
    /// Send a change-feed notification (lightweight, no payload).
    NotifyChangeFeed,
    /// Schedule a delayed send after the given duration.
    ScheduleDelayed(Duration),
    /// Suppress this mutation: don't send anything now.
    /// The caller should accumulate the delta for later.
    Suppress,
}

/// The immediate broadcast: a delta where the state has deltas, a snapshot otherwise.
pub open spec fn broadcast(supports_delta: bool) -> SyncAction {
    if supports_delta {
        SyncAction::BroadcastDelta
    } else {
        SyncAction::BroadcastSnapshot
    }
}

/// What to do about a mutation of the given urgency.
pub open spec fn resolved(
    strategy: SyncStrategy,
    supports_delta: bool,
    urgency: SyncUrgency,
) -> SyncAction {
    match urgency {
        SyncUrgency::Immediate => broadcast(supports_delta),
        SyncUrgency::Delayed(delay) => SyncAction::ScheduleDelayed(delay),
        SyncUrgency::Suppress => SyncAction::Suppress,
        SyncUrgency::Default => match strategy.push_mode {
            Some(PushMode::ActivePush) => broadcast(supports_delta),
            Some(PushMode::ActiveFeedLazyPull) => SyncAction::NotifyChangeFeed,
            None => SyncAction::Suppress,
        },
    }
}

/// Pure logic for outbound synchronization decisions.
///
/// Given a `SyncStrategy` and a `SyncUrgency` per mutation, determines
/// what action the host should take (broadcast, notify, delay, suppress).
#[derive(Debug)]
pub struct SyncLogic {
    state_name: String,
    strategy: SyncStrategy,
    supports_delta: bool,
}

/// What a [`SyncLogic`] is configured with.
pub struct SyncSettings {
    pub state_name: Seq<char>,
    pub strategy: SyncStrategy,
    pub supports_delta: bool,
}

impl View for SyncLogic {
    type V = SyncSettings;

    closed spec fn view(&self) -> SyncSettings {
        SyncSettings {
            state_name: self.state_name@,
            strategy: self.strategy,
            supports_delta: self.supports_delta,
        }
    }
}

impl SyncLogic {
    /// The decisions for one state type; `supports_delta` tells whether it has deltas or only
    /// full snapshots.
    pub fn new(state_name: String, strategy: SyncStrategy, supports_delta: bool) -> (logic: Self)
        ensures
            logic@ == (SyncSettings { state_name: state_name@, strategy, supports_delta }),
    {
        SyncLogic { state_name, strategy, supports_delta }
    }

    /// Determine the outbound action for a given mutation urgency.
    pub fn resolve_action(&self, urgency: SyncUrgency) -> (action: SyncAction)
        ensures
            action == resolved(self@.strategy, self@.supports_delta, urgency),
    {
        match urgency {
            SyncUrgency::Immediate => self.broadcast_action(),
            SyncUrgency::Delayed(delay) => SyncAction::ScheduleDelayed(delay),
            SyncUrgency::Suppress => SyncAction::Suppress,
            SyncUrgency::Default => match self.strategy.push_mode {
                Some(PushMode::ActivePush) => self.broadcast_action(),
                Some(PushMode::ActiveFeedLazyPull) => SyncAction::NotifyChangeFeed,
                None => SyncAction::Suppress,
            },
        }
    }

    /// The configured strategy.
    pub fn strategy(&self) -> (s: &SyncStrategy)
        ensures
            *s == self@.strategy,
    {
        &self.strategy
    }

    /// The name of the state.
    pub fn state_name(&self) -> (s: &str)
        ensures
            s@ == self@.state_name,
    {
        self.state_name.as_str()
    }

    /// Whether a periodic full sync is configured.
    pub fn should_periodic_sync(&self) -> (b: bool)
        ensures
            b == self@.strategy.periodic_full_sync is Some,
    {
        self.strategy.periodic_full_sync.is_some()
    }

    /// The configured interval of the periodic full sync.
    pub fn periodic_interval(&self) -> (interval: Option<Duration>)
        ensures
            interval == self@.strategy.periodic_full_sync,
    {
        self.strategy.periodic_full_sync
    }

    fn broadcast_action(&self) -> (action: SyncAction)
        ensures
            action == broadcast(self@.supports_delta),
    {
        if self.supports_delta {
            SyncAction::BroadcastDelta
        } else {
            SyncAction::BroadcastSnapshot
        }
    }
}

/// An explicit urgency overrides the strategy: only `Default` looks at it.
pub proof fn urgency_overrides_strategy(
    a: SyncStrategy,
    b: SyncStrategy,
    supports_delta: bool,
    urgency: SyncUrgency,
)
    requires
        urgency !is Default,
    ensures
        resolved(a, supports_delta, urgency) == resolved(b, supports_delta, urgency),
{
}

/// When a mutation is broadcast at once, when it is announced, when it waits, and when it is kept
/// back: by its urgency if it has one, and by the push mode otherwise. A broadcast is a delta
/// exactly where the state has deltas.
pub proof fn push_mode_decides_without_urgency(
    strategy: SyncStrategy,
    supports_delta: bool,
    urgency: SyncUrgency,
)
    ensures
        ({
            let action = resolved(strategy, supports_delta, urgency);
            let by_mode = urgency == SyncUrgency::Default;
            let at_once = urgency == SyncUrgency::Immediate || by_mode && strategy.push_mode
                == Some(PushMode::ActivePush);
            &&& action is BroadcastDelta <==> at_once && supports_delta
            &&& action is BroadcastSnapshot <==> at_once && !supports_delta
            &&& action is NotifyChangeFeed <==> by_mode && strategy.push_mode == Some(
                PushMode::ActiveFeedLazyPull,
            )
            &&& action is Suppress <==> urgency == SyncUrgency::Suppress || by_mode
                && strategy.push_mode is None
            &&& action is ScheduleDelayed <==> urgency is Delayed
            &&& urgency matches SyncUrgency::Delayed(delay) ==> action
                == SyncAction::ScheduleDelayed(delay)
        }),
{
}

} // verus!
