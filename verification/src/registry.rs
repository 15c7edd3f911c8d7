//! Registration and lookup of the state types of a node.
use vstd::prelude::*;

use crate::types::errors::{str_eq, RegistryError};
use crate::types::node::NodeId;

verus! {

/// Type-erased interface for a registered state shard.
///
/// Each registered state type has one shard in the [`StateRegistry`]. The trait allows the
/// registry to broadcast cluster events (node join/leave) without knowing the concrete state
/// type.
pub trait AnyStateShard: Send + Sync {
    /// The globally unique name for this state type.
    fn state_name(&self) -> &str;

    /// Handle a new node joining the cluster.
    fn on_node_joined(&self, node_id: NodeId);

    /// Handle a node leaving the cluster.
    fn on_node_left(&self, node_id: NodeId);

    /// Handle a mark-stale notification from the change feed.
    fn on_mark_stale(&self, source: NodeId, incarnation: u64, age: u64);
}

/// A registered shard, the name under which it was registered, and the number that stands for
/// its type.
#[derive(Debug)]
pub struct Registered<T> {
    pub name: String,
    pub type_tag: u64,
    pub shard: T,
}

/// No two shards have the same name.
pub open spec fn distinct_names<T>(shards: Seq<Registered<T>>) -> bool {
    forall|i: int, j: int|
        0 <= i < j < shards.len() ==> (#[trigger] shards[i]).name@ != (#[trigger] shards[j]).name@
}

/// The shard at `i` has the name `name`.
pub open spec fn named<T>(shards: Seq<Registered<T>>, i: int, name: Seq<char>) -> bool {
    0 <= i < shards.len() && shards[i].name@ == name
}

/// Some shard has the name `name`.
pub open spec fn registered<T>(shards: Seq<Registered<T>>, name: Seq<char>) -> bool {
    exists|i: int| #[trigger] named(shards, i, name)
}

/// The entry of a shard.
pub open spec fn entry_of<T>(name: String, type_tag: u64, shard: T) -> Registered<T> {
    Registered { name, type_tag, shard }
}

/// The shard says that its name is `name`.
pub open spec fn says_name<T: AnyStateShard>(shard: T, name: Seq<char>) -> bool {
    exists|s: &str| s@ == name && #[trigger] call_ensures(T::state_name, (&shard,), s)
}

/// Registry of all distributed state types on this node.
///
/// Stores shards by their name. Provides lookup, also by type, and cluster-event broadcasting.
#[derive(Debug)]
pub struct StateRegistry<T> {
    shards: Vec<Registered<T>>,
}

impl<T: AnyStateShard> View for StateRegistry<T> {
    type V = Seq<Registered<T>>;

    closed spec fn view(&self) -> Seq<Registered<T>> {
        self.shards@
    }
}

impl<T: AnyStateShard> Default for StateRegistry<T> {
    fn default() -> (r: Self)
        ensures
            r@ == Seq::<Registered<T>>::empty(),
    {
        StateRegistry::new()
    }
}

impl<T: AnyStateShard> StateRegistry<T> {
    /// No name is registered twice.
    pub open spec fn wf(&self) -> bool {
        distinct_names(self@)
    }

    /// Create an empty registry.
    pub fn new() -> (r: Self)
        ensures
            r.wf(),
            r@ == Seq::<Registered<T>>::empty(),
    {
        StateRegistry { shards: Vec::new() }
    }

    /// Where the shard with the name `name` is.
    fn position(&self, name: &str) -> (r: Option<usize>)
        ensures
            match r {
                Some(i) => named(self@, i as int, name@),
                None => !registered(self@, name@),
            },
    {
        let mut i: usize = 0;
        while i < self.shards.len()
            invariant
                i <= self.shards@.len(),
                forall|j: int| 0 <= j < i ==> !#[trigger] named(self@, j, name@),
            decreases self.shards@.len() - i,
        {
            if str_eq(self.shards[i].name.as_str(), name) {
                return Some(i);
            }
            i = i + 1;
        }
        None
    }

    /// Register a state shard of the type that `type_tag` stands for.
    ///
    /// Returns `Err(RegistryError::DuplicateName)` if a shard with the
    /// same name is already registered.
    pub fn register(&mut self, type_tag: u64, shard: T) -> (r: Result<(), RegistryError>)
        requires
            old(self).wf(),
        ensures
            final(self).wf(),
            match r {
                Ok(_) => exists|name: String|
                    says_name(shard, name@) && !registered(old(self)@, name@) && final(self)@
                        == old(self)@.push(
                        #[trigger] entry_of(name, type_tag, shard),
                    ),
                Err(e) => final(self)@ == old(self)@ && (e matches RegistryError::DuplicateName(
                    name,
                ) && says_name(shard, name@) && registered(old(self)@, name@)),
            },
    {
        let said = shard.state_name();
        let ghost text = said@;
        assert(says_name(shard, text));
        let name = said.to_owned();
        if self.position(name.as_str()).is_some() {
            return Err(RegistryError::DuplicateName(name));
        }
        let ghost added = entry_of(name, type_tag, shard);
        self.shards.push(Registered { name, type_tag, shard });
        proof {
            let before = old(self)@;
            let after = self@;
            assert(after == before.push(added));
            assert forall|i: int, j: int| 0 <= i < j < after.len() implies (
            #[trigger] after[i]).name@ != (#[trigger] after[j]).name@ by {
                if j < before.len() {
                    assert(before[i].name@ != before[j].name@);
                } else {
                    assert(!named(before, i, text));
                }
            }
        }
        Ok(())
    }

    /// Look up a shard by name.
    pub fn lookup(&self, name: &str) -> (r: Result<&T, RegistryError>)
        ensures
            match r {
                Ok(shard) => exists|i: int|
                    #[trigger] named(self@, i, name@) && *shard == self@[i].shard,
                Err(e) => !registered(self@, name@) && (
                e matches RegistryError::StateNotRegistered(n) && n@ == name@),
            },
    {
        match self.position(name) {
            Some(i) => Ok(&self.shards[i].shard),
            None => Err(RegistryError::StateNotRegistered(name.to_owned())),
        }
    }

    /// Look up a shard by name, of the type that `type_tag` stands for and that is called
    /// `expected`.
    ///
    /// Returns `Err(TypeMismatch)` if the shard is registered with another type.
    pub fn lookup_typed(&self, name: &str, type_tag: u64, expected: &'static str) -> (r: Result<
        &T,
        RegistryError,
    >)
        ensures
            match r {
                Ok(shard) => exists|i: int|
                    #[trigger] named(self@, i, name@) && self@[i].type_tag == type_tag && *shard
                        == self@[i].shard,
                Err(RegistryError::StateNotRegistered(n)) => !registered(self@, name@) && n@
                    == name@,
                Err(RegistryError::TypeMismatch { name: n, expected: e, actual }) => n@ == name@
                    && e@ == expected@ && actual@ == "different type"@ && exists|i: int|
                    #[trigger] named(self@, i, name@) && self@[i].type_tag != type_tag,
                Err(RegistryError::DuplicateName(_)) => false,
            },
    {
        match self.position(name) {
            Some(i) => {
                let entry = &self.shards[i];
                if entry.type_tag != type_tag {
                    return Err(
                        RegistryError::TypeMismatch {
                            name: name.to_owned(),
                            expected,
                            actual: "different type",
                        },
                    );
                }
                Ok(&entry.shard)
            },
            None => Err(RegistryError::StateNotRegistered(name.to_owned())),
        }
    }

    /// Broadcast `NodeJoined` to all registered shards.
    pub fn broadcast_node_joined(&self, node_id: NodeId)
        ensures
            forall|i: int|
                0 <= i < self@.len() ==> call_ensures(
                    T::on_node_joined,
                    (&(#[trigger] self@[i]).shard, node_id),
                    (),
                ),
    {
        let mut i: usize = 0;
        while i < self.shards.len()
            invariant
                i <= self.shards@.len(),
                forall|j: int|
                    0 <= j < i ==> call_ensures(
                        T::on_node_joined,
                        (&(#[trigger] self@[j]).shard, node_id),
                        (),
                    ),
            decreases self.shards@.len() - i,
        {
            self.shards[i].shard.on_node_joined(node_id);
            i = i + 1;
        }
    }

    /// Broadcast `NodeLeft` to all registered shards.
    pub fn broadcast_node_left(&self, node_id: NodeId)
        ensures
            forall|i: int|
                0 <= i < self@.len() ==> call_ensures(
                    T::on_node_left,
                    (&(#[trigger] self@[i]).shard, node_id),
                    (),
                ),
    {
        let mut i: usize = 0;
        while i < self.shards.len()
            invariant
                i <= self.shards@.len(),
                forall|j: int|
                    0 <= j < i ==> call_ensures(
                        T::on_node_left,
                        (&(#[trigger] self@[j]).shard, node_id),
                        (),
                    ),
            decreases self.shards@.len() - i,
        {
            self.shards[i].shard.on_node_left(node_id);
            i = i + 1;
        }
    }

    /// Number of registered state types.
    pub fn len(&self) -> (n: usize)
        ensures
            n == self@.len(),
    {
        self.shards.len()
    }

    /// Whether the registry is empty.
    pub fn is_empty(&self) -> (b: bool)
        ensures
            b == (self@.len() == 0),
    {
        self.shards.len() == 0
    }

    /// All registered state names, in the order of registration.
    pub fn state_names(&self) -> (names: Vec<String>)
        ensures
            names@.len() == self@.len(),
            forall|i: int|
                0 <= i < self@.len() ==> (#[trigger] names@[i])@ == self@[i].name@,
    {
        let mut names: Vec<String> = Vec::new();
        let mut i: usize = 0;
        while i < self.shards.len()
            invariant
                i <= self.shards@.len(),
                names@.len() == i,
                forall|j: int| 0 <= j < i ==> (#[trigger] names@[j])@ == self@[j].name@,
            decreases self.shards@.len() - i,
        {
            names.push(self.shards[i].name.clone());
            i = i + 1;
        }
        names
    }
}

/// A name leads to at most one shard, so a lookup has one answer.
pub proof fn name_leads_to_one_shard<T>(
    shards: Seq<Registered<T>>,
    name: Seq<char>,
    i: int,
    j: int,
)
    requires
        distinct_names(shards),
        named(shards, i, name),
        named(shards, j, name),
    ensures
        i == j,
{
    if i < j {
        assert(shards[i].name@ != shards[j].name@);
    } else if j < i {
        assert(shards[j].name@ != shards[i].name@);
    }
}

/// What has been registered is found, and what was found before is still found.
pub proof fn registered_shard_is_found<T>(
    shards: Seq<Registered<T>>,
    added: Registered<T>,
    name: Seq<char>,
)
    ensures
        registered(shards.push(added), name) <==> registered(shards, name) || added.name@ == name,
        named(shards.push(added), shards.len() as int, added.name@),
{
    let after = shards.push(added);
    if registered(shards, name) {
        let i = choose|i: int| #[trigger] named(shards, i, name);
        assert(named(after, i, name));
    }
    if added.name@ == name {
        assert(named(after, shards.len() as int, name));
    }
    if registered(after, name) {
        let i = choose|i: int| #[trigger] named(after, i, name);
        if i < shards.len() {
            assert(named(shards, i, name));
        }
    }
}

} // verus!
