//! Registration and lookup of state types, and subscriptions to cluster events.

use std::cell::RefCell;
use std::rc::Rc;
use std::sync::Mutex;

use dstate::host::events::EventHub;
use dstate::{AnyStateShard, NodeId, RegistryError, StateRegistry};

#[derive(Debug)]
struct Shard {
    name: String,
    log: Mutex<Vec<String>>,
}

impl AnyStateShard for Shard {
    fn state_name(&self) -> &str {
        &self.name
    }

    fn on_node_joined(&self, node_id: NodeId) {
        self.log.lock().unwrap().push(format!("joined {}", node_id.0));
    }

    fn on_node_left(&self, node_id: NodeId) {
        self.log.lock().unwrap().push(format!("left {}", node_id.0));
    }

    fn on_mark_stale(&self, source: NodeId, incarnation: u64, age: u64) {
        self.log.lock().unwrap().push(format!("stale {} {incarnation} {age}", source.0));
    }
}

fn shard(name: &str) -> Shard {
    Shard { name: name.into(), log: Mutex::new(Vec::new()) }
}

#[test]
fn registered_shard_is_found_on_values() {
    let mut registry = StateRegistry::new();
    assert!(registry.is_empty());
    registry.register(1, shard("counters")).unwrap();
    registry.register(2, shard("sessions")).unwrap();
    assert_eq!(registry.len(), 2);
    assert!(!registry.is_empty());
    assert_eq!(registry.state_names(), vec!["counters".to_string(), "sessions".to_string()]);
    assert_eq!(registry.lookup("sessions").unwrap().state_name(), "sessions");
    assert_eq!(registry.lookup("counters").unwrap().state_name(), "counters");
}

#[test]
fn duplicate_name_is_refused() {
    let mut registry = StateRegistry::default();
    registry.register(1, shard("counters")).unwrap();
    let refused = registry.register(2, shard("counters")).unwrap_err();
    assert_eq!(refused, RegistryError::DuplicateName("counters".into()));
    assert_eq!(refused.to_string(), "duplicate state name: counters");
    assert_eq!(registry.len(), 1);
    // The one that was there first stays.
    assert!(registry.lookup_typed("counters", 1, "Counters").is_ok());
}

#[test]
fn lookup_of_an_unknown_name_fails() {
    let mut registry = StateRegistry::new();
    registry.register(1, shard("counters")).unwrap();
    assert_eq!(
        registry.lookup("nothing").unwrap_err(),
        RegistryError::StateNotRegistered("nothing".into())
    );
    assert_eq!(
        registry.lookup_typed("nothing", 1, "Nothing").unwrap_err(),
        RegistryError::StateNotRegistered("nothing".into())
    );
}

#[test]
fn lookup_by_type_tells_types_apart() {
    let mut registry = StateRegistry::new();
    registry.register(7, shard("counters")).unwrap();
    assert_eq!(registry.lookup_typed("counters", 7, "Counters").unwrap().state_name(), "counters");
    let refused = registry.lookup_typed("counters", 8, "Sessions").unwrap_err();
    assert_eq!(
        refused,
        RegistryError::TypeMismatch {
            name: "counters".into(),
            expected: "Sessions",
            actual: "different type",
        }
    );
    assert_eq!(
        refused.to_string(),
        "type mismatch for 'counters': expected Sessions, got different type"
    );
}

#[test]
fn membership_changes_reach_every_shard() {
    let mut registry = StateRegistry::new();
    registry.register(1, shard("a")).unwrap();
    registry.register(2, shard("b")).unwrap();
    registry.broadcast_node_joined(NodeId(4));
    registry.broadcast_node_left(NodeId(5));
    for name in ["a", "b"] {
        assert_eq!(
            *registry.lookup(name).unwrap().log.lock().unwrap(),
            vec!["joined 4".to_string(), "left 5".to_string()]
        );
    }
}

#[test]
fn subscribers_are_told_until_they_cancel() {
    let heard: Rc<RefCell<Vec<(u8, u64)>>> = Rc::new(RefCell::new(Vec::new()));
    let listener = |who: u8| {
        let heard = heard.clone();
        Box::new(move |node: u64| heard.borrow_mut().push((who, node))) as Box<dyn Fn(u64)>
    };
    let mut hub: EventHub<Box<dyn Fn(u64)>> = EventHub::new();
    let first = hub.subscribe(listener(1));
    let second = hub.subscribe(listener(2));
    assert_eq!((first, second), (1, 2));

    hub.emit(&10);
    hub.unsubscribe(first);
    hub.emit(&11);
    // Cancelling is idempotent.
    hub.unsubscribe(first);
    hub.unsubscribe(99);
    hub.emit(&12);
    assert_eq!(*heard.borrow(), vec![(1, 10), (2, 10), (2, 11), (2, 12)]);

    // An id is not given out twice.
    assert_eq!(hub.subscribe(listener(3)), 3);
}
