//! Identities, versions, configuration, errors and time.

use dstate::host::messages::QueryViews;
use dstate::test_support::test_clock::TestClock;
use dstate::test_support::test_persist::{FailingPersistence, InMemoryPersistence};
use dstate::test_support::test_state::TestState;
use dstate::{
    ChangeFeedConfig, Clock, DeserializeError, DistributedState, Duration, Generation, Instant,
    MutationError, NodeId, NodeMap, PersistError, PushMode, QueryError, RegistryError, StateConfig,
    StateObject, SyncStrategy, VersionMismatchPolicy,
};

#[test]
fn node_id_text() {
    assert_eq!(NodeId(0).to_string(), "Node(0)");
    assert_eq!(NodeId(1_234_567_890).to_string(), "Node(1234567890)");
    assert_eq!(NodeId(u64::MAX).to_string(), "Node(18446744073709551615)");
}

#[test]
fn generation_order_on_values() {
    let ordered = [
        Generation::zero(),
        Generation::new(0, 1),
        Generation::new(1, 0),
        Generation::new(1, 7),
        Generation::new(2, 0),
    ];
    for (i, a) in ordered.iter().enumerate() {
        for (j, b) in ordered.iter().enumerate() {
            assert_eq!(a < b, i < j);
            assert_eq!(a.is_before(b), i < j);
        }
    }
    assert_eq!(Generation::new(12, 345).to_string(), "v12:345");
    assert!(Generation::new(2, 0).is_new_incarnation(&Generation::new(1, 9)));
    assert!(!Generation::new(2, 5).is_new_incarnation(&Generation::new(2, 0)));
    assert!(!Generation::new(1, 0).is_new_incarnation(&Generation::new(2, 0)));
}

#[test]
fn error_texts() {
    assert_eq!(DeserializeError::unknown_version(7).to_string(), "unknown version: 7");
    assert_eq!(DeserializeError::Malformed("bad".into()).to_string(), "malformed data: bad");
    assert_eq!(
        RegistryError::StateNotRegistered("x".into()).to_string(),
        "state not registered: x"
    );
    assert_eq!(
        QueryError::from(RegistryError::DuplicateName("x".into())).to_string(),
        "query failed: duplicate state name: x"
    );
    assert_eq!(
        QueryError::StalePeer { node_id: NodeId(3), reason: "gone".into() }.to_string(),
        "stale peer Node(3): gone"
    );
    assert_eq!(QueryError::ActorStopped.to_string(), "query failed: actor stopped");
    assert_eq!(
        MutationError::PersistenceFailed("disk".into()).to_string(),
        "persistence failed: disk"
    );
    assert_eq!(MutationError::ActorStopped.to_string(), "mutation failed: actor stopped");
    assert_eq!(
        PersistError::StorageUnavailable("s".into()).to_string(),
        "storage unavailable: s"
    );
    assert_eq!(
        PersistError::DeserializationFailed("d".into()).to_string(),
        "deserialization failed: d"
    );
    assert_eq!(PersistError::Io("i".into()).to_string(), "I/O error: i");
}

#[test]
fn default_configuration() {
    let config = StateConfig::default();
    assert_eq!(config.sync_strategy, SyncStrategy::active_push());
    assert_eq!(config.pull_timeout, Duration::from_secs(5));
    assert_eq!(config.version_mismatch_policy, VersionMismatchPolicy::KeepStale);
    assert_eq!(ChangeFeedConfig::default().batch_interval, Duration::from_secs(1));
    assert_eq!(
        SyncStrategy::feed_lazy_pull().push_mode,
        Some(PushMode::ActiveFeedLazyPull)
    );
}

#[test]
fn durations_and_instants() {
    assert_eq!(Duration::from_secs(2), Duration::from_millis(2_000));
    assert_eq!(Duration::from_millis(3), Duration::from_nanos(3_000_000));
    assert_eq!(Duration::from_nanos(1_999_999).as_millis(), 1);
    assert_eq!(Duration::zero().as_millis(), 0);
    let early = Instant { nanos: 5 };
    let late = Instant { nanos: 12 };
    assert_eq!(late.duration_since(early), Duration::from_nanos(7));
    // Time does not run backwards.
    assert_eq!(early.duration_since(late), Duration::zero());
}

#[test]
fn test_clock_moves_by_hand() {
    let clock = TestClock::with_base_unix_ms(1_000);
    assert_eq!(clock.unix_ms(), 1_000);
    let start = clock.now();
    clock.advance(Duration::from_millis(250));
    assert_eq!(clock.unix_ms(), 1_250);
    assert_eq!(clock.now().duration_since(start), Duration::from_millis(250));
    assert_eq!(clock.unix_ms_at(5_000_000), 1_005);
    assert_eq!(TestClock::with_base_unix_ms(i64::MAX).unix_ms_at(1_000_000), i64::MAX);
}

#[test]
fn envelope_accessors() {
    let object = StateObject {
        generation: Generation::new(4, 9),
        storage_version: 1,
        value: "v".to_string(),
        created_time: 1,
        modified_time: 2,
    };
    assert_eq!(object.age(), 9);
    assert_eq!(object.incarnation(), 4);
    let copy = object.clone();
    assert_eq!(copy.value, "v");
    assert_eq!(copy.generation, object.generation);
}

#[test]
fn storage_starts_empty() {
    let store: InMemoryPersistence<u32> = InMemoryPersistence::default();
    assert_eq!(store.load().unwrap(), None);
}

#[test]
fn memory_keeps_the_last_state() {
    let mut store: InMemoryPersistence<u32> = InMemoryPersistence::new();
    assert_eq!(store.load().unwrap(), None);
    store.save(&1).unwrap();
    store.save(&2).unwrap();
    assert_eq!(store.load().unwrap(), Some(2));

    let failing = FailingPersistence;
    assert_eq!(
        failing.save(&1).unwrap_err().to_string(),
        "storage unavailable: FailingPersistence always fails"
    );
    assert_eq!(
        failing.load::<u32>().unwrap_err().to_string(),
        "storage unavailable: FailingPersistence always fails"
    );
}

#[test]
fn node_map_keeps_ids_in_order() {
    let mut map: NodeMap<&str> = NodeMap::new();
    assert!(map.is_empty());
    assert_eq!(map.insert(NodeId(5), "five"), None);
    assert_eq!(map.insert(NodeId(1), "one"), None);
    assert_eq!(map.insert(NodeId(3), "three"), None);
    assert_eq!(map.insert(NodeId(3), "drei"), Some("three"));
    assert_eq!(map.keys(), vec![NodeId(1), NodeId(3), NodeId(5)]);
    assert_eq!(map.values(), vec![&"one", &"drei", &"five"]);
    assert_eq!(map.len(), 3);
    assert_eq!(map.get(&NodeId(3)), Some(&"drei"));
    assert_eq!(map.get(&NodeId(4)), None);
    if let Some(value) = map.get_mut(&NodeId(1)) {
        *value = "eins";
    }
    assert_eq!(map.value_at(0), &"eins");
    assert_eq!(map.id_at(2), NodeId(5));
    assert_eq!(map.remove(&NodeId(1)), Some("eins"));
    assert_eq!(map.remove(&NodeId(1)), None);
    assert!(!map.contains_key(&NodeId(1)));
    assert_eq!(map.keys(), vec![NodeId(3), NodeId(5)]);
}

#[test]
fn test_state_is_named() {
    assert_eq!(TestState::name(), "test_state");
    assert_eq!(TestState::WIRE_VERSION, 1);
    assert_eq!(TestState::STORAGE_VERSION, 1);
    assert_eq!(
        QueryViews::<TestState>::new(Duration::from_secs(1)).max_staleness,
        Duration::from_secs(1)
    );
}
