use dstate::replica::persistence_startup_logic::{PersistenceStartupLogic, StartupOutcome};
use dstate::test_support::test_clock::TestClock;
use dstate::{Generation, PersistError, StateObject};

fn make_clock() -> TestClock {
    TestClock::with_base_unix_ms(1_700_000_000_000) // ~2023
}

// ── INC-04: Incarnation generated on startup without persistence ──

#[test]
fn inc_04_fresh_startup_incarnation_from_clock() {
    let clock = make_clock();
    let logic = PersistenceStartupLogic::new(1);

    let outcome = logic.initialize::<String, _, _>(
        Ok(None),
        "default".into(),
        &clock,
        |_, _| unreachable!("no migration on fresh start"),
    );

    match &outcome {
        StartupOutcome::Fresh { state } => {
            assert_eq!(state.generation.incarnation, 1_700_000_000_000);
            assert_eq!(state.generation.age, 0);
            assert_eq!(state.storage_version, 1);
            assert_eq!(state.value, "default");
        }
        _ => panic!("expected Fresh, got {:?}", std::mem::discriminant(&outcome)),
    }
}

// ── INC-05: Incarnation preserved on startup with persistence ─────

#[test]
fn inc_05_loaded_incarnation_preserved() {
    let clock = make_clock();
    let logic = PersistenceStartupLogic::new(1);

    let loaded = StateObject {
        generation: Generation::new(42, 5),
        storage_version: 1,
        value: "persisted".to_string(),
        created_time: 100,
        modified_time: 200,
    };

    let outcome = logic.initialize(
        Ok(Some(loaded)),
        "default".into(),
        &clock,
        |_, _| unreachable!("no migration when versions match"),
    );

    match &outcome {
        StartupOutcome::Restored { state } => {
            assert_eq!(state.generation, Generation::new(42, 5));
            assert_eq!(state.value, "persisted");
            assert_eq!(state.created_time, 100);
            assert_eq!(state.modified_time, 200);
        }
        _ => panic!("expected Restored"),
    }
}

// ── INC-06: Incarnation changes on migration failure ──────────────

#[test]
fn inc_06_migration_failure_new_incarnation() {
    let clock = make_clock();
    let logic = PersistenceStartupLogic::new(2); // current version is 2

    let loaded = StateObject {
        generation: Generation::new(42, 5),
        storage_version: 1, // old version
        value: "old_data".to_string(),
        created_time: 100,
        modified_time: 200,
    };

    let outcome = logic.initialize(
        Ok(Some(loaded)),
        "default".into(),
        &clock,
        |_, _| Err("migration not supported".into()),
    );

    match &outcome {
        StartupOutcome::FallbackToEmpty { state, reason } => {
            // New incarnation must be > old incarnation (42)
            assert!(state.generation.incarnation > 42);
            assert_eq!(state.generation.age, 0);
            assert_eq!(state.value, "default");
            assert!(reason.contains("migration not supported"));
        }
        _ => panic!("expected FallbackToEmpty"),
    }
}

// ── INC-06b: Monotonic incarnation when clock < old incarnation ───

#[test]
fn inc_06b_migration_failure_incarnation_monotonic() {
    // Clock time (100) is less than loaded incarnation (9999).
    // Incarnation must still be > 9999.
    let clock = TestClock::with_base_unix_ms(100);
    let logic = PersistenceStartupLogic::new(2);

    let loaded = StateObject {
        generation: Generation::new(9999, 5),
        storage_version: 1,
        value: "old".to_string(),
        created_time: 50,
        modified_time: 60,
    };

    let outcome = logic.initialize(
        Ok(Some(loaded)),
        "default".into(),
        &clock,
        |_, _| Err("fail".into()),
    );

    match &outcome {
        StartupOutcome::FallbackToEmpty { state, .. } => {
            assert!(
                state.generation.incarnation > 9999,
                "incarnation {} must be > 9999 (old)",
                state.generation.incarnation
            );
        }
        _ => panic!("expected FallbackToEmpty"),
    }
}

// ── PERSIST-06: load() returns None on fresh node ─────────────────

#[test]
fn persist_06_load_none_fresh_start() {
    let clock = make_clock();
    let logic = PersistenceStartupLogic::new(1);

    let outcome = logic.initialize::<u64, _, _>(
        Ok(None),
        0,
        &clock,
        |_, _| unreachable!(),
    );

    let state = outcome.into_state();
    assert_eq!(state.generation.age, 0);
    assert_eq!(state.value, 0);
}

// ── PERSIST-11: load() error falls back to empty state ────────────

#[test]
fn persist_11_load_error_fallback() {
    let clock = make_clock();
    let logic = PersistenceStartupLogic::new(1);

    let outcome = logic.initialize::<String, _, _>(
        Err(PersistError::StorageUnavailable("disk full".into())),
        "empty".into(),
        &clock,
        |_, _| unreachable!(),
    );

    match &outcome {
        StartupOutcome::FallbackToEmpty { state, reason } => {
            assert_eq!(state.generation.age, 0);
            assert_eq!(state.value, "empty");
            assert!(reason.contains("disk full"));
        }
        _ => panic!("expected FallbackToEmpty"),
    }
}

// ── PERSIST-12: load() error reason captured for logging ──────────

#[test]
fn persist_12_load_error_reason_captured() {
    let clock = make_clock();
    let logic = PersistenceStartupLogic::new(1);

    let outcome = logic.initialize::<String, _, _>(
        Err(PersistError::Io("connection refused".into())),
        "empty".into(),
        &clock,
        |_, _| unreachable!(),
    );

    match outcome {
        StartupOutcome::FallbackToEmpty { reason, .. } => {
            assert!(reason.contains("connection refused"));
        }
        _ => panic!("expected FallbackToEmpty with reason"),
    }
}

// ── PERSIST-13: Same storage_version used as-is ───────────────────

#[test]
fn persist_13_same_version_used_as_is() {
    let clock = make_clock();
    let logic = PersistenceStartupLogic::new(1);

    let loaded = StateObject {
        generation: Generation::new(100, 7),
        storage_version: 1,
        value: "data_v1".to_string(),
        created_time: 500,
        modified_time: 600,
    };

    let outcome = logic.initialize(
        Ok(Some(loaded)),
        "default".into(),
        &clock,
        |_, _| unreachable!("no migration when versions match"),
    );

    let state = outcome.into_state();
    assert_eq!(state.generation, Generation::new(100, 7));
    assert_eq!(state.storage_version, 1);
    assert_eq!(state.value, "data_v1");
    assert_eq!(state.created_time, 500);
    assert_eq!(state.modified_time, 600);
}

// ── PERSIST-14: Different storage_version triggers migration ──────

#[test]
fn persist_14_different_version_triggers_migration() {
    let clock = make_clock();
    let logic = PersistenceStartupLogic::new(2);

    let loaded = StateObject {
        generation: Generation::new(100, 7),
        storage_version: 1,
        value: "old_format".to_string(),
        created_time: 500,
        modified_time: 600,
    };

    let outcome = logic.initialize(
        Ok(Some(loaded)),
        "default".into(),
        &clock,
        |old_value, old_version| {
            assert_eq!(old_version, 1);
            Ok(format!("migrated_from_{}", old_value))
        },
    );

    match &outcome {
        StartupOutcome::Migrated { state, from_version } => {
            assert_eq!(*from_version, 1);
            assert_eq!(state.value, "migrated_from_old_format");
            // Incarnation preserved from loaded state
            assert_eq!(state.generation, Generation::new(100, 7));
            assert_eq!(state.storage_version, 2); // updated to current
        }
        _ => panic!("expected Migrated"),
    }
}

// ── PERSIST-15: Migration failure falls back to empty ─────────────

#[test]
fn persist_15_migration_failure_fallback() {
    let clock = make_clock();
    let logic = PersistenceStartupLogic::new(2);

    let loaded = StateObject {
        generation: Generation::new(100, 7),
        storage_version: 1,
        value: "old_data".to_string(),
        created_time: 500,
        modified_time: 600,
    };

    let outcome = logic.initialize(
        Ok(Some(loaded)),
        "default".into(),
        &clock,
        |_, _| Err("incompatible schema".into()),
    );

    match &outcome {
        StartupOutcome::FallbackToEmpty { state, reason } => {
            assert_eq!(state.generation.age, 0);
            assert_eq!(state.value, "default");
            assert!(reason.contains("incompatible schema"));
            // New incarnation, not the loaded one
            assert_ne!(state.generation.incarnation, 100);
        }
        _ => panic!("expected FallbackToEmpty"),
    }
}

// ── PERSIST-16: Successful migration restores age and timestamps ──

#[test]
fn persist_16_migration_preserves_metadata() {
    let clock = make_clock();
    let logic = PersistenceStartupLogic::new(3);

    let loaded = StateObject {
        generation: Generation::new(42, 10),
        storage_version: 2,
        value: 100u64,
        created_time: 1000,
        modified_time: 2000,
    };

    let outcome = logic.initialize(
        Ok(Some(loaded)),
        0u64,
        &clock,
        |old_val, _| Ok(old_val + 1), // simple migration
    );

    let state = outcome.into_state();
    assert_eq!(state.generation, Generation::new(42, 10)); // age preserved
    assert_eq!(state.created_time, 1000);
    assert_eq!(state.modified_time, 2000);
    assert_eq!(state.storage_version, 3); // bumped to current
    assert_eq!(state.value, 101); // migrated
}
