//! The initial state at startup, from what the storage gave back.
use vstd::prelude::*;

use crate::traits::clock::Clock;
use crate::traits::persistence::PersistError;
use crate::types::envelope::StateObject;
use crate::types::node::Generation;

verus! {

/// Result of the startup initialization flow.
///
/// Tells the host what happened so it can log appropriately and
/// decide how to proceed (e.g., re-announce to cluster on `Restored`).
#[derive(Debug)]
pub enum StartupOutcome<S> {
    /// No persisted state found: fresh start with new incarnation.
    Fresh { state: StateObject<S> },
    /// Persisted state loaded successfully at the current storage version.
    Restored { state: StateObject<S> },
    /// Persisted state loaded and migrated from an older storage version.
    Migrated { state: StateObject<S>, from_version: u32 },
    /// Persistence load or migration failed: fell back to empty state
    /// with a new incarnation.
    FallbackToEmpty { state: StateObject<S>, reason: String },
}

impl<S> StartupOutcome<S> {
    /// The state regardless of outcome variant.
    pub open spec fn the_state(self) -> StateObject<S> {
        match self {
            StartupOutcome::Fresh { state } => state,
            StartupOutcome::Restored { state } => state,
            StartupOutcome::Migrated { state, .. } => state,
            StartupOutcome::FallbackToEmpty { state, .. } => state,
        }
    }

    /// Extract the state regardless of outcome variant.
    pub fn into_state(self) -> (s: StateObject<S>)
        ensures
            s == self.the_state(),
    {
        match self {
            StartupOutcome::Fresh { state } => state,
            StartupOutcome::Restored { state } => state,
            StartupOutcome::Migrated { state, from_version: _ } => state,
            StartupOutcome::FallbackToEmpty { state, reason: _ } => state,
        }
    }

    /// Reference to the state regardless of outcome variant.
    pub fn state(&self) -> (s: &StateObject<S>)
        ensures
            *s == self.the_state(),
    {
        match self {
            StartupOutcome::Fresh { state } => state,
            StartupOutcome::Restored { state } => state,
            StartupOutcome::Migrated { state, from_version: _ } => state,
            StartupOutcome::FallbackToEmpty { state, reason: _ } => state,
        }
    }
}

/// A state of the given incarnation, created at `unix_ms`, on which nothing has been done.
pub open spec fn untouched<S>(
    value: S,
    incarnation: u64,
    storage_version: u32,
    unix_ms: i64,
) -> StateObject<S> {
    StateObject {
        generation: Generation { incarnation, age: 0 },
        storage_version,
        value,
        created_time: unix_ms,
        modified_time: unix_ms,
    }
}

/// The incarnation that replaces the incarnation `old` at `unix_ms`: the time, but in any case
/// one that is newer than `old`.
pub open spec fn next_incarnation(old: u64, unix_ms: i64) -> u64 {
    if unix_ms as u64 > old {
        unix_ms as u64
    } else {
        (old + 1) as u64
    }
}

/// Whether `outcome` is what becomes of the state `loaded` of another storage version, which
/// was migrated to `migrated`: the migrated value with all else kept, or a new incarnation of
/// the default.
pub open spec fn migration_outcome<S>(
    storage_version: u32,
    loaded: StateObject<S>,
    default_value: S,
    migrated: Result<S, String>,
    unix_ms: i64,
    outcome: StartupOutcome<S>,
) -> bool {
    match migrated {
        Ok(value) => outcome == (StartupOutcome::Migrated {
            state: StateObject { storage_version, value, ..loaded },
            from_version: loaded.storage_version,
        }),
        Err(why) => outcome matches StartupOutcome::FallbackToEmpty { state, reason } && reason@
            == why@ && state == untouched(
            default_value,
            next_incarnation(loaded.generation.incarnation, unix_ms),
            storage_version,
            unix_ms,
        ),
    }
}

/// Pure logic for computing the initial state at startup from persisted storage.
///
/// | Scenario | Incarnation |
/// |----------|-------------|
/// | No persistence / load returns None | the time |
/// | Load succeeds, same storage version | Preserved from loaded state |
/// | Load succeeds, migration succeeds | Preserved from loaded state |
/// | Load fails | the time |
/// | Migration fails | the time, or one more than the loaded one if that is later |
#[derive(Debug)]
pub struct PersistenceStartupLogic {
    current_storage_version: u32,
}

impl PersistenceStartupLogic {
    /// The storage version that states are brought to.
    pub closed spec fn storage_version(&self) -> u32 {
        self.current_storage_version
    }

    /// Startup to the given storage version.
    pub fn new(current_storage_version: u32) -> (logic: Self)
        ensures
            logic.storage_version() == current_storage_version,
    {
        PersistenceStartupLogic { current_storage_version }
    }

    /// Compute the initial state from a persistence load result.
    ///
    /// - `load_result`: what the storage gave back
    /// - `default_value`: the default state value for fresh starts
    /// - `clock`: used for incarnation generation and timestamps
    /// - `migrate_fn`: called when the stored version is not the current one;
    ///   receives the old value and version and returns the migrated value
    ///   or an error text
    pub fn initialize<S, F: FnOnce(S, u32) -> Result<S, String>, C: Clock>(
        &self,
        load_result: Result<Option<StateObject<S>>, PersistError>,
        default_value: S,
        clock: &C,
        migrate_fn: F,
    ) -> (outcome: StartupOutcome<S>)
        requires
            load_result matches Ok(Some(loaded)) ==> (loaded.storage_version
                != self.storage_version() ==> call_requires(
                migrate_fn,
                (loaded.value, loaded.storage_version),
            ) && forall|why: String| #[trigger]
                call_ensures(
                    migrate_fn,
                    (loaded.value, loaded.storage_version),
                    Err::<S, String>(why),
                ) ==> loaded.generation.incarnation < u64::MAX),
        ensures
            match load_result {
                Err(e) => outcome matches StartupOutcome::FallbackToEmpty { state, reason }
                    && reason@ == e.text() && state == untouched(
                    default_value,
                    state.created_time as u64,
                    self.storage_version(),
                    state.created_time,
                ) && call_ensures(C::unix_ms, (clock,), state.created_time),
                Ok(None) => outcome matches StartupOutcome::Fresh { state } && state == untouched(
                    default_value,
                    state.created_time as u64,
                    self.storage_version(),
                    state.created_time,
                ) && call_ensures(C::unix_ms, (clock,), state.created_time),
                Ok(Some(loaded)) => if loaded.storage_version == self.storage_version() {
                    outcome == (StartupOutcome::Restored { state: loaded })
                } else {
                    exists|migrated: Result<S, String>, unix_ms: i64|
                        call_ensures(
                            migrate_fn,
                            (loaded.value, loaded.storage_version),
                            migrated,
                        ) && call_ensures(C::unix_ms, (clock,), unix_ms)
                            && #[trigger] migration_outcome(
                            self.storage_version(),
                            loaded,
                            default_value,
                            migrated,
                            unix_ms,
                            outcome,
                        )
                },
            },
    {
        match load_result {
            Err(e) => {
                let state = self.fresh_state(default_value, clock);
                StartupOutcome::FallbackToEmpty { state, reason: e.to_string() }
            },
            Ok(None) => {
                let state = self.fresh_state(default_value, clock);
                StartupOutcome::Fresh { state }
            },
            Ok(Some(loaded)) => {
                if loaded.storage_version == self.current_storage_version {
                    StartupOutcome::Restored { state: loaded }
                } else {
                    let ghost original = loaded;
                    let header = StateObject {
                        generation: loaded.generation,
                        storage_version: loaded.storage_version,
                        value: (),
                        created_time: loaded.created_time,
                        modified_time: loaded.modified_time,
                    };
                    let migrated = migrate_fn(loaded.value, loaded.storage_version);
                    proof {
                        if migrated is Err {
                            assert(call_ensures(
                                migrate_fn,
                                (original.value, original.storage_version),
                                Err::<S, String>(migrated->Err_0),
                            ));
                        }
                    }
                    let unix_ms = clock.unix_ms();
                    let outcome = self.after_migration(header, default_value, migrated, unix_ms);
                    assert(original == with_header(header, original.value));
                    outcome
                }
            },
        }
    }

    /// What becomes of a loaded state of another storage version, whose value was migrated to
    /// `migrated`; `header` is all of it but its value.
    pub fn after_migration<S>(
        &self,
        header: StateObject<()>,
        default_value: S,
        migrated: Result<S, String>,
        unix_ms: i64,
    ) -> (outcome: StartupOutcome<S>)
        requires
            migrated is Err ==> header.generation.incarnation < u64::MAX,
        ensures
            forall|value: S|
                #![trigger with_header(header, value)]
                migration_outcome(
                    self.storage_version(),
                    with_header(header, value),
                    default_value,
                    migrated,
                    unix_ms,
                    outcome,
                ),
    {
        match migrated {
            Ok(value) => StartupOutcome::Migrated {
                state: StateObject {
                    generation: header.generation,
                    storage_version: self.current_storage_version,
                    value,
                    created_time: header.created_time,
                    modified_time: header.modified_time,
                },
                from_version: header.storage_version,
            },
            Err(reason) => {
                let state = self.fresh_state_at_least(
                    default_value,
                    unix_ms,
                    header.generation.incarnation,
                );
                StartupOutcome::FallbackToEmpty { state, reason }
            },
        }
    }

    fn fresh_state<S, C: Clock>(&self, value: S, clock: &C) -> (state: StateObject<S>)
        ensures
            call_ensures(C::unix_ms, (clock,), state.created_time),
            state == untouched(
                value,
                state.created_time as u64,
                self.storage_version(),
                state.created_time,
            ),
    {
        let now = clock.unix_ms();
        StateObject {
            generation: Generation::new(now as u64, 0),
            storage_version: self.current_storage_version,
            value,
            created_time: now,
            modified_time: now,
        }
    }

    /// Like `fresh_state` but with an incarnation that is strictly greater than
    /// `old_incarnation`, so that peers do not reject the new state on fast restarts or clock
    /// skew.
    fn fresh_state_at_least<S>(&self, value: S, unix_ms: i64, old_incarnation: u64) -> (state:
        StateObject<S>)
        requires
            old_incarnation < u64::MAX,
        ensures
            state == untouched(
                value,
                next_incarnation(old_incarnation, unix_ms),
                self.storage_version(),
                unix_ms,
            ),
    {
        let now = unix_ms as u64;
        let incarnation = if now > old_incarnation {
            now
        } else {
            old_incarnation + 1
        };
        StateObject {
            generation: Generation::new(incarnation, 0),
            storage_version: self.current_storage_version,
            value,
            created_time: unix_ms,
            modified_time: unix_ms,
        }
    }
}

/// The state of the given header and value.
pub open spec fn with_header<S>(header: StateObject<()>, value: S) -> StateObject<S> {
    StateObject {
        generation: header.generation,
        storage_version: header.storage_version,
        value,
        created_time: header.created_time,
        modified_time: header.modified_time,
    }
}

/// Whatever becomes of a migration, the state that a node starts with is not older than the
/// state that it had stored: a successful migration keeps the generation, and after a failed
/// one the new incarnation is newer than the stored one, so that peers accept it.
pub proof fn startup_never_goes_back<S>(
    storage_version: u32,
    loaded: StateObject<S>,
    default_value: S,
    migrated: Result<S, String>,
    unix_ms: i64,
    outcome: StartupOutcome<S>,
)
    requires
        loaded.generation.incarnation < u64::MAX,
        migration_outcome(
            storage_version,
            loaded,
            default_value,
            migrated,
            unix_ms,
            outcome,
        ),
    ensures
        loaded.generation.at_most(outcome.the_state().generation),
        migrated is Ok ==> outcome.the_state().generation == loaded.generation,
        migrated is Err ==> loaded.generation.before(outcome.the_state().generation),
        outcome.the_state().storage_version == storage_version,
{
}

/// What a state on which nothing has been done looks like: age 0 of its incarnation, created and
/// modified at the same time.
pub proof fn fresh_start_is_at_age_zero<S>(
    value: S,
    incarnation: u64,
    storage_version: u32,
    unix_ms: i64,
)
    ensures
        ({
            let s = untouched(value, incarnation, storage_version, unix_ms);
            &&& s.value == value
            &&& s.generation.incarnation == incarnation
            &&& s.generation.age == 0
            &&& s.storage_version == storage_version
            &&& s.created_time == unix_ms
            &&& s.modified_time == unix_ms
        }),
{
}

/// The incarnation after a failed migration is the time, unless that is not newer than the
/// stored incarnation: then it is the one after that.
pub proof fn incarnation_moves_on(old: u64, unix_ms: i64)
    requires
        old < u64::MAX,
    ensures
        next_incarnation(old, unix_ms) > old,
        unix_ms as u64 > old ==> next_incarnation(old, unix_ms) == unix_ms as u64,
        unix_ms as u64 <= old ==> next_incarnation(old, unix_ms) == old + 1,
{
}

/// What becomes of a migration. One that succeeds changes the value and the storage version of
/// what was stored and nothing else, and tells the version it came from. One that fails leaves
/// the default at age 0 of a newer incarnation, dated now, with the reason.
pub proof fn migration_keeps_the_history<S>(
    storage_version: u32,
    loaded: StateObject<S>,
    default_value: S,
    migrated: Result<S, String>,
    unix_ms: i64,
    outcome: StartupOutcome<S>,
)
    requires
        loaded.generation.incarnation < u64::MAX,
        migration_outcome(
            storage_version,
            loaded,
            default_value,
            migrated,
            unix_ms,
            outcome,
        ),
    ensures
        migrated matches Ok(value) ==> {
            &&& outcome is Migrated
            &&& outcome->from_version == loaded.storage_version
            &&& outcome->Migrated_state.value == value
            &&& outcome->Migrated_state.storage_version == storage_version
            &&& outcome->Migrated_state.generation == loaded.generation
            &&& outcome->Migrated_state.created_time == loaded.created_time
            &&& outcome->Migrated_state.modified_time == loaded.modified_time
        },
        migrated matches Err(why) ==> {
            &&& outcome is FallbackToEmpty
            &&& outcome->reason@ == why@
            &&& outcome->FallbackToEmpty_state.value == default_value
            &&& outcome->FallbackToEmpty_state.storage_version == storage_version
            &&& outcome->FallbackToEmpty_state.generation.age == 0
            &&& outcome->FallbackToEmpty_state.generation.incarnation
                > loaded.generation.incarnation
            &&& unix_ms as u64 > loaded.generation.incarnation
                ==> outcome->FallbackToEmpty_state.generation.incarnation == unix_ms as u64
            &&& outcome->FallbackToEmpty_state.created_time == unix_ms
            &&& outcome->FallbackToEmpty_state.modified_time == unix_ms
        },
{
}

} // verus!
