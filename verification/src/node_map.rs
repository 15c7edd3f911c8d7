//! A map from node ids to values, kept in ascending order of the ids.
use vstd::prelude::*;

use crate::types::node::NodeId;

verus! {

/// The ids are strictly ascending.
pub open spec fn ascending(ids: Seq<NodeId>) -> bool {
    forall|i: int, j: int| 0 <= i < j < ids.len() ==> #[trigger] ids[i].0 < #[trigger] ids[j].0
}

/// The map that a list of entries stands for.
spec fn map_of<T>(entries: Seq<(NodeId, T)>) -> Map<NodeId, T>
    decreases entries.len(),
{
    if entries.len() == 0 {
        Map::empty()
    } else {
        map_of(entries.drop_last()).insert(entries.last().0, entries.last().1)
    }
}

spec fn ids_of<T>(entries: Seq<(NodeId, T)>) -> Seq<NodeId> {
    Seq::new(entries.len(), |i: int| entries[i].0)
}

proof fn lemma_map_of<T>(entries: Seq<(NodeId, T)>)
    requires
        ascending(ids_of(entries)),
    ensures
        map_of(entries).dom().finite(),
        map_of(entries).dom().len() == entries.len(),
        forall|i: int|
            0 <= i < entries.len() ==> #[trigger] map_of(entries).contains_key(entries[i].0),
        forall|i: int|
            0 <= i < entries.len() ==> map_of(entries)[(#[trigger] entries[i]).0] == entries[i].1,
        forall|id: NodeId| #[trigger]
            map_of(entries).contains_key(id) ==> exists|i: int|
                0 <= i < entries.len() && #[trigger] entries[i].0 == id,
    decreases entries.len(),
{
    if entries.len() > 0 {
        let init = entries.drop_last();
        let last = entries.last();
        let n = init.len() as int;
        assert forall|i: int, j: int| 0 <= i < j < n implies #[trigger] ids_of(init)[i].0
            < #[trigger] ids_of(init)[j].0 by {
            assert(ids_of(entries)[i].0 < ids_of(entries)[j].0);
        }
        lemma_map_of(init);
        assert forall|i: int| 0 <= i < n implies (#[trigger] init[i]).0 != last.0 by {
            assert(ids_of(entries)[i].0 < ids_of(entries)[n].0);
        }
        assert(!map_of(init).contains_key(last.0));
        assert(map_of(entries).dom() =~= map_of(init).dom().insert(last.0));
        assert forall|i: int| 0 <= i < entries.len() implies #[trigger] map_of(
            entries,
        ).contains_key(entries[i].0) by {
            if i < n {
                assert(map_of(init).contains_key(init[i].0));
            }
        }
        assert forall|i: int| 0 <= i < entries.len() implies map_of(entries)[(
        #[trigger] entries[i]).0] == entries[i].1 by {
            if i < n {
                assert(map_of(init)[init[i].0] == init[i].1);
            }
        }
        assert forall|id: NodeId| #[trigger] map_of(entries).contains_key(id) implies exists|
            i: int,
        |
            0 <= i < entries.len() && #[trigger] entries[i].0 == id by {
            if id == last.0 {
                assert(entries[n].0 == id);
            } else {
                assert(map_of(init).contains_key(id));
                let i = choose|i: int| 0 <= i < init.len() && #[trigger] init[i].0 == id;
                assert(entries[i].0 == id);
            }
        }
    }
}

/// Two ascending lists of entries with the same entries stand for the same map.
proof fn lemma_map_of_is<T>(entries: Seq<(NodeId, T)>, m: Map<NodeId, T>)
    requires
        ascending(ids_of(entries)),
        forall|i: int|
            0 <= i < entries.len() ==> m.contains_key((#[trigger] entries[i]).0)
                && m[entries[i].0] == entries[i].1,
        forall|id: NodeId| #[trigger]
            m.contains_key(id) ==> exists|i: int|
                0 <= i < entries.len() && #[trigger] entries[i].0 == id,
    ensures
        map_of(entries) == m,
{
    lemma_map_of(entries);
    assert forall|id: NodeId| map_of(entries).contains_key(id) == m.contains_key(id) by {
        if map_of(entries).contains_key(id) {
            let i = choose|i: int| 0 <= i < entries.len() && #[trigger] entries[i].0 == id;
        }
        if m.contains_key(id) {
            let i = choose|i: int| 0 <= i < entries.len() && #[trigger] entries[i].0 == id;
            assert(map_of(entries).contains_key(entries[i].0));
        }
    }
    assert forall|id: NodeId| m.contains_key(id) implies map_of(entries)[id] == m[id] by {
        let i = choose|i: int| 0 <= i < entries.len() && #[trigger] entries[i].0 == id;
        assert(map_of(entries)[entries[i].0] == entries[i].1);
    }
    assert(map_of(entries) =~= m);
}

/// Changing the value of one entry changes the map at that entry's id only.
proof fn lemma_update<T>(entries: Seq<(NodeId, T)>, pos: int, value: T)
    requires
        ascending(ids_of(entries)),
        0 <= pos < entries.len(),
    ensures
        ids_of(entries.update(pos, (entries[pos].0, value))) == ids_of(entries),
        map_of(entries.update(pos, (entries[pos].0, value))) == map_of(entries).insert(
            entries[pos].0,
            value,
        ),
{
    let id = entries[pos].0;
    let after = entries.update(pos, (id, value));
    let m = map_of(entries).insert(id, value);
    lemma_map_of(entries);
    assert(ids_of(after) =~= ids_of(entries));
    assert forall|k: NodeId| #[trigger] m.contains_key(k) implies exists|i: int|
        0 <= i < after.len() && #[trigger] after[i].0 == k by {
        if k == id {
            assert(after[pos].0 == k);
        } else {
            let i = choose|i: int| 0 <= i < entries.len() && #[trigger] entries[i].0 == k;
            assert(after[i].0 == k);
        }
    }
    assert forall|i: int| 0 <= i < after.len() implies m.contains_key((#[trigger] after[i]).0)
        && m[after[i].0] == after[i].1 by {
        if i != pos {
            assert(ids_of(entries)[i].0 != ids_of(entries)[pos].0);
            assert(map_of(entries).contains_key(entries[i].0));
            assert(map_of(entries)[entries[i].0] == entries[i].1);
        }
    }
    lemma_map_of_is(after, m);
}

/// A map from node ids to values that is walked in ascending order of the ids.
#[derive(Debug)]
pub struct NodeMap<T> {
    entries: Vec<(NodeId, T)>,
}

impl<T> View for NodeMap<T> {
    type V = Map<NodeId, T>;

    closed spec fn view(&self) -> Map<NodeId, T> {
        map_of(self.entries@)
    }
}

impl<T> NodeMap<T> {
    /// The ids of the entries, in the order in which they are walked.
    pub closed spec fn ids(&self) -> Seq<NodeId> {
        ids_of(self.entries@)
    }

    /// Whether the entries are in strictly ascending order of their ids.
    pub closed spec fn wf(&self) -> bool {
        ascending(ids_of(self.entries@))
    }

    /// The walk visits every id of the map exactly once, in ascending order.
    pub proof fn lemma_ids(&self)
        requires
            self.wf(),
        ensures
            ascending(self.ids()),
            self.ids().len() == self@.dom().len(),
            self@.dom().finite(),
            forall|i: int|
                0 <= i < self.ids().len() ==> self@.contains_key(#[trigger] self.ids()[i]),
            forall|id: NodeId| #[trigger]
                self@.contains_key(id) ==> exists|i: int|
                    0 <= i < self.ids().len() && #[trigger] self.ids()[i] == id,
    {
        lemma_map_of(self.entries@);
        assert forall|i: int| 0 <= i < self.ids().len() implies self@.contains_key(
            #[trigger] self.ids()[i],
        ) by {
            assert(map_of(self.entries@).contains_key(self.entries@[i].0));
        }
        assert forall|id: NodeId| #[trigger] self@.contains_key(id) implies exists|i: int|
            0 <= i < self.ids().len() && #[trigger] self.ids()[i] == id by {
            let i = choose|i: int|
                0 <= i < self.entries@.len() && #[trigger] self.entries@[i].0 == id;
            assert(self.ids()[i] == id);
        }
    }

    /// An empty map.
    pub fn new() -> (m: Self)
        ensures
            m.wf(),
            m@ == Map::<NodeId, T>::empty(),
            m.ids() == Seq::<NodeId>::empty(),
    {
        let m = NodeMap { entries: Vec::new() };
        assert(m.ids() =~= Seq::<NodeId>::empty());
        m
    }

    /// The number of entries.
    pub fn len(&self) -> (n: usize)
        requires
            self.wf(),
        ensures
            n == self@.dom().len(),
            n == self.ids().len(),
    {
        proof {
            self.lemma_ids();
        }
        self.entries.len()
    }

    /// Whether there are no entries.
    pub fn is_empty(&self) -> (b: bool)
        requires
            self.wf(),
        ensures
            b == (self@ == Map::<NodeId, T>::empty()),
    {
        let b = self.len() == 0;
        proof {
            self.lemma_ids();
            if self@.dom().len() == 0 {
                assert(self@.dom() =~= Set::<NodeId>::empty());
                assert(self@ =~= Map::<NodeId, T>::empty());
            }
        }
        b
    }

    /// The position of the first entry whose id is not below `id`.
    fn position(&self, id: &NodeId) -> (pos: usize)
        requires
            self.wf(),
        ensures
            pos <= self.entries@.len(),
            forall|j: int| 0 <= j < pos ==> (#[trigger] self.entries@[j]).0.0 < id.0,
            forall|j: int|
                pos <= j < self.entries@.len() ==> (#[trigger] self.entries@[j]).0.0 >= id.0,
            self@.contains_key(*id) <==> (pos < self.entries@.len() && self.entries@[pos as int].0
                == *id),
            self@.contains_key(*id) ==> self@[*id] == self.entries@[pos as int].1,
    {
        let mut pos: usize = 0;
        while pos < self.entries.len() && self.entries[pos].0.0 < id.0
            invariant
                pos <= self.entries@.len(),
                forall|j: int| 0 <= j < pos ==> (#[trigger] self.entries@[j]).0.0 < id.0,
            decreases self.entries@.len() - pos,
        {
            pos = pos + 1;
        }
        proof {
            assert forall|j: int| pos <= j < self.entries@.len() implies (
            #[trigger] self.entries@[j]).0.0 >= id.0 by {
                if j > pos {
                    assert(self.ids()[pos as int].0 < self.ids()[j].0);
                }
            }
            lemma_map_of(self.entries@);
            if pos < self.entries@.len() && self.entries@[pos as int].0 == *id {
                assert(map_of(self.entries@).contains_key(self.entries@[pos as int].0));
            }
            if map_of(self.entries@).contains_key(*id) {
                let i = choose|i: int|
                    0 <= i < self.entries@.len() && #[trigger] self.entries@[i].0 == *id;
                if i > pos {
                    assert(self.ids()[pos as int].0 < self.ids()[i].0);
                }
                assert(i == pos);
            }
        }
        pos
    }

    /// Whether `id` has an entry.
    pub fn contains_key(&self, id: &NodeId) -> (b: bool)
        requires
            self.wf(),
        ensures
            b == self@.contains_key(*id),
    {
        let pos = self.position(id);
        pos < self.entries.len() && self.entries[pos].0 == *id
    }

    /// The value of `id`, if it has one.
    pub fn get(&self, id: &NodeId) -> (r: Option<&T>)
        requires
            self.wf(),
        ensures
            match r {
                Some(v) => self@.contains_key(*id) && *v == self@[*id],
                None => !self@.contains_key(*id),
            },
    {
        let pos = self.position(id);
        if pos < self.entries.len() && self.entries[pos].0 == *id {
            Some(&self.entries[pos].1)
        } else {
            None
        }
    }

    /// Gives `id` the value `value`; returns the value that it had before.
    pub fn insert(&mut self, id: NodeId, value: T) -> (previous: Option<T>)
        requires
            old(self).wf(),
        ensures
            final(self).wf(),
            final(self)@ == old(self)@.insert(id, value),
            old(self)@.contains_key(id) ==> final(self).ids() == old(self).ids(),
            previous == if old(self)@.contains_key(id) {
                Some(old(self)@[id])
            } else {
                None
            },
    {
        let pos = self.position(&id);
        let ghost before = self.entries@;
        if pos < self.entries.len() && self.entries[pos].0 == id {
            let mut slot = (id, value);
            self.entries.set_and_swap(pos, &mut slot);
            proof {
                lemma_update(before, pos as int, value);
                assert(self.entries@ =~= before.update(pos as int, (id, value)));
            }
            Some(slot.1)
        } else {
            self.entries.insert(pos, (id, value));
            proof {
                lemma_map_of(before);
                let after = self.entries@;
                assert(after =~= before.insert(pos as int, (id, value)));
                assert forall|i: int, j: int| 0 <= i < j < after.len() implies #[trigger] ids_of(
                    after,
                )[i].0 < #[trigger] ids_of(after)[j].0 by {
                    let i0 = if i < pos { i } else { i - 1 };
                    let j0 = if j < pos { j } else { j - 1 };
                    if i != pos && j != pos {
                        assert(ids_of(before)[i0].0 < ids_of(before)[j0].0);
                    } else if i == pos {
                        assert(before[j0].0.0 >= id.0);
                        if before[j0].0.0 == id.0 {
                            assert(map_of(before).contains_key(before[j0].0));
                        }
                    } else {
                        assert(before[i0].0.0 < id.0);
                    }
                }
                assert forall|i: int| 0 <= i < after.len() implies map_of(before).insert(
                    id,
                    value,
                ).contains_key((#[trigger] after[i]).0) && map_of(before).insert(
                    id,
                    value,
                )[after[i].0] == after[i].1 by {
                    if i != pos {
                        let i0 = if i < pos { i } else { i - 1 };
                        assert(after[i] == before[i0]);
                        assert(map_of(before).contains_key(before[i0].0));
                        assert(map_of(before)[before[i0].0] == before[i0].1);
                    }
                }
                assert forall|k: NodeId| #[trigger]
                    map_of(before).insert(id, value).contains_key(k) implies exists|i: int|
                    0 <= i < after.len() && #[trigger] after[i].0 == k by {
                    if k == id {
                        assert(after[pos as int].0 == k);
                    } else {
                        let i0 = choose|i: int|
                            0 <= i < before.len() && #[trigger] before[i].0 == k;
                        let i = if i0 < pos { i0 } else { i0 + 1 };
                        assert(after[i].0 == k);
                    }
                }
                lemma_map_of_is(after, map_of(before).insert(id, value));
            }
            None
        }
    }

    /// Drops the entry of `id`; returns the value that it had.
    pub fn remove(&mut self, id: &NodeId) -> (previous: Option<T>)
        requires
            old(self).wf(),
        ensures
            final(self).wf(),
            final(self)@ == old(self)@.remove(*id),
            previous == if old(self)@.contains_key(*id) {
                Some(old(self)@[*id])
            } else {
                None
            },
    {
        let pos = self.position(id);
        let ghost before = self.entries@;
        if pos < self.entries.len() && self.entries[pos].0 == *id {
            let entry = self.entries.remove(pos);
            proof {
                lemma_map_of(before);
                let after = self.entries@;
                assert forall|i: int, j: int| 0 <= i < j < after.len() implies #[trigger] ids_of(
                    after,
                )[i].0 < #[trigger] ids_of(after)[j].0 by {
                    let i0 = if i < pos { i } else { i + 1 };
                    let j0 = if j < pos { j } else { j + 1 };
                    assert(ids_of(before)[i0].0 < ids_of(before)[j0].0);
                }
                assert forall|i: int| 0 <= i < after.len() implies map_of(before).remove(
                    *id,
                ).contains_key((#[trigger] after[i]).0) && map_of(before).remove(*id)[after[i].0]
                    == after[i].1 by {
                    let i0 = if i < pos { i } else { i + 1 };
                    assert(after[i] == before[i0]);
                    assert(map_of(before).contains_key(before[i0].0));
                    assert(map_of(before)[before[i0].0] == before[i0].1);
                    if i0 < pos {
                        assert(ids_of(before)[i0].0 < ids_of(before)[pos as int].0);
                    } else {
                        assert(ids_of(before)[pos as int].0 < ids_of(before)[i0].0);
                    }
                }
                assert forall|k: NodeId| #[trigger]
                    map_of(before).remove(*id).contains_key(k) implies exists|i: int|
                    0 <= i < after.len() && #[trigger] after[i].0 == k by {
                    let i0 = choose|i: int| 0 <= i < before.len() && #[trigger] before[i].0 == k;
                    let i = if i0 < pos { i0 } else { i0 - 1 };
                    assert(after[i].0 == k);
                }
                lemma_map_of_is(after, map_of(before).remove(*id));
            }
            Some(entry.1)
        } else {
            assert(self@.remove(*id) =~= self@);
            None
        }
    }

    /// The value of `id` for changing in place, if it has one.
    pub fn get_mut(&mut self, id: &NodeId) -> (r: Option<&mut T>)
        requires
            old(self).wf(),
        ensures
            match r {
                Some(v) => {
                    &&& old(self)@.contains_key(*id)
                    &&& *v == old(self)@[*id]
                    &&& final(self).wf()
                    &&& final(self)@ == old(self)@.insert(*id, *final(v))
                    &&& final(self).ids() == old(self).ids()
                },
                None => !old(self)@.contains_key(*id) && *final(self) == *old(self),
            },
    {
        let pos = self.position(id);
        let ghost before = self.entries@;
        if pos < self.entries.len() && self.entries[pos].0 == *id {
            let slot = &mut self.entries[pos];
            let value = &mut slot.1;
            proof {
                lemma_update(before, pos as int, *final(value));
            }
            Some(value)
        } else {
            None
        }
    }

    /// The id at position `i` of the walk.
    pub fn id_at(&self, i: usize) -> (id: NodeId)
        requires
            i < self.ids().len(),
        ensures
            id == self.ids()[i as int],
    {
        self.entries[i].0
    }

    /// The value at position `i` of the walk.
    pub fn value_at(&self, i: usize) -> (v: &T)
        requires
            self.wf(),
            i < self.ids().len(),
        ensures
            *v == self@[self.ids()[i as int]],
    {
        proof {
            lemma_map_of(self.entries@);
            assert(map_of(self.entries@)[self.entries@[i as int].0] == self.entries@[i as int].1);
        }
        &self.entries[i].1
    }

    /// All values, in the order of their ids.
    pub fn values(&self) -> (values: Vec<&T>)
        requires
            self.wf(),
        ensures
            values@.len() == self.ids().len(),
            forall|i: int|
                0 <= i < values@.len() ==> *(#[trigger] values@[i]) == self@[self.ids()[i]],
    {
        let mut values: Vec<&T> = Vec::new();
        let mut i: usize = 0;
        while i < self.entries.len()
            invariant
                self.wf(),
                i <= self.entries@.len(),
                self.entries@.len() == self.ids().len(),
                values@.len() == i,
                forall|j: int| 0 <= j < i ==> *(#[trigger] values@[j]) == self@[self.ids()[j]],
            decreases self.entries@.len() - i,
        {
            values.push(self.value_at(i));
            i = i + 1;
        }
        values
    }

    /// All ids, ascending.
    pub fn keys(&self) -> (ids: Vec<NodeId>)
        ensures
            ids@ == self.ids(),
    {
        let mut ids: Vec<NodeId> = Vec::new();
        let mut i: usize = 0;
        while i < self.entries.len()
            invariant
                i <= self.entries@.len(),
                ids@ =~= self.ids().take(i as int),
            decreases self.entries@.len() - i,
        {
            ids.push(self.entries[i].0);
            i = i + 1;
        }
        ids
    }
}

} // verus!
