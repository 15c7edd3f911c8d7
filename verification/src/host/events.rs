//! Subscriptions to cluster events.
use vstd::prelude::*;

verus! {

/// The callbacks that are told of cluster events, each under the id of its subscription.
#[derive(Debug)]
pub struct EventHub<T> {
    subscribers: Vec<(u64, T)>,
    next_id: u64,
}

impl<T> EventHub<T> {
    /// The subscriptions, in the order in which they were made.
    pub closed spec fn subscriptions(&self) -> Seq<(u64, T)> {
        self.subscribers@
    }

    /// The id of the next subscription.
    pub closed spec fn next(&self) -> u64 {
        self.next_id
    }

    /// The ids ascend, and all of them have been given out.
    pub open spec fn wf(&self) -> bool {
        &&& forall|i: int, j: int|
            0 <= i < j < self.subscriptions().len() ==> (#[trigger] self.subscriptions()[i]).0 < (
            #[trigger] self.subscriptions()[j]).0
        &&& forall|i: int|
            0 <= i < self.subscriptions().len() ==> (#[trigger] self.subscriptions()[i]).0
                < self.next()
    }

    /// A hub without subscriptions. The first gets the id 1.
    pub fn new() -> (hub: Self)
        ensures
            hub.wf(),
            hub.subscriptions() == Seq::<(u64, T)>::empty(),
            hub.next() == 1,
    {
        EventHub { subscribers: Vec::new(), next_id: 1 }
    }

    /// Whether there is no id left for a further subscription.
    pub fn is_full(&self) -> (b: bool)
        ensures
            b == (self.next() == u64::MAX),
    {
        self.next_id == u64::MAX
    }

    /// Adds a callback. Returns the id of its subscription, which no other has had.
    pub fn subscribe(&mut self, on_event: T) -> (id: u64)
        requires
            old(self).wf(),
            old(self).next() < u64::MAX,
        ensures
            final(self).wf(),
            id == old(self).next(),
            final(self).next() == id + 1,
            final(self).subscriptions() == old(self).subscriptions().push((id, on_event)),
    {
        let id = self.next_id;
        self.next_id = id + 1;
        self.subscribers.push((id, on_event));
        proof {
            let before = old(self).subscriptions();
            let after = self.subscriptions();
            assert forall|i: int, j: int| 0 <= i < j < after.len() implies (#[trigger] after[i]).0
                < (#[trigger] after[j]).0 by {
                assert(after[i] == before[i]);
                if j < before.len() {
                    assert(before[i].0 < before[j].0);
                }
            }
            assert forall|i: int| 0 <= i < after.len() implies (#[trigger] after[i]).0
                < self.next() by {
                if i < before.len() {
                    assert(before[i].0 < old(self).next());
                }
            }
        }
        id
    }

    /// Removes the subscription `id`, if there is one.
    pub fn unsubscribe(&mut self, id: u64)
        requires
            old(self).wf(),
        ensures
            final(self).wf(),
            final(self).next() == old(self).next(),
            final(self).subscriptions() == without(old(self).subscriptions(), id),
    {
        let ghost all = self.subscribers@;
        let mut i: usize = 0;
        while i < self.subscribers.len()
            invariant
                self.wf(),
                *self == *old(self),
                all == self.subscribers@,
                i <= all.len(),
                forall|j: int| 0 <= j < i ==> (#[trigger] all[j]).0 != id,
            decreases all.len() - i,
        {
            if self.subscribers[i].0 == id {
                proof {
                    assert forall|j: int| i < j < all.len() implies (#[trigger] all[j]).0 != id by {
                        assert(self.subscriptions()[i as int].0 < self.subscriptions()[j].0);
                    }
                    lemma_without_one(all, i as int, id);
                }
                self.subscribers.remove(i);
                proof {
                    let after = self.subscriptions();
                    assert(after == all.remove(i as int));
                    assert forall|a: int, b: int| 0 <= a < b < after.len() implies (
                    #[trigger] after[a]).0 < (#[trigger] after[b]).0 by {
                        let x = if a < i { a } else { a + 1 };
                        let y = if b < i { b } else { b + 1 };
                        assert(after[a] == all[x] && after[b] == all[y]);
                        assert(old(self).subscriptions()[x].0 < old(self).subscriptions()[y].0);
                    }
                    assert forall|a: int| 0 <= a < after.len() implies (#[trigger] after[a]).0
                        < self.next() by {
                        let x = if a < i { a } else { a + 1 };
                        assert(old(self).subscriptions()[x].0 < old(self).next());
                    }
                }
                return ;
            }
            i = i + 1;
        }
        proof {
            lemma_without_none(all, id);
        }
    }

    /// Tells every subscriber of `event`.
    pub fn emit<E: Clone>(&self, event: &E) where T: Fn(E)
        requires
            forall|i: int, e: E|
                0 <= i < self.subscriptions().len() ==> #[trigger] call_requires(
                    self.subscriptions()[i].1,
                    (e,),
                ),
        ensures
            forall|i: int|
                0 <= i < self.subscriptions().len() ==> has_been_told(
                    (#[trigger] self.subscriptions()[i]).1,
                    *event,
                ),
    {
        let mut i: usize = 0;
        while i < self.subscribers.len()
            invariant
                i <= self.subscribers@.len(),
                forall|k: int, e: E|
                    0 <= k < self.subscriptions().len() ==> #[trigger] call_requires(
                        self.subscriptions()[k].1,
                        (e,),
                    ),
                forall|k: int|
                    0 <= k < i ==> has_been_told(
                        (#[trigger] self.subscriptions()[k]).1,
                        *event,
                    ),
            decreases self.subscribers@.len() - i,
        {
            let copy = event.clone();
            assert(call_requires(self.subscriptions()[i as int].1, (copy,)));
            (self.subscribers[i].1)(copy);
            i = i + 1;
        }
    }
}

/// `callback` has been called with a copy of `event`.
pub open spec fn has_been_told<E: Clone, T: Fn(E)>(callback: T, event: E) -> bool {
    exists|copy: E| cloned(event, copy) && #[trigger] call_ensures(callback, (copy,), ())
}

/// `list` without the entries of `id`.
pub open spec fn without<T>(list: Seq<(u64, T)>, id: u64) -> Seq<(u64, T)>
    decreases list.len(),
{
    if list.len() == 0 {
        Seq::empty()
    } else if list.last().0 == id {
        without(list.drop_last(), id)
    } else {
        without(list.drop_last(), id).push(list.last())
    }
}

/// Where no entry is of `id`, none is taken out.
proof fn lemma_without_none<T>(list: Seq<(u64, T)>, id: u64)
    requires
        forall|j: int| 0 <= j < list.len() ==> (#[trigger] list[j]).0 != id,
    ensures
        without(list, id) == list,
    decreases list.len(),
{
    if list.len() > 0 {
        assert(list[list.len() - 1].0 != id);
        assert forall|j: int| 0 <= j < list.drop_last().len() implies (
        #[trigger] list.drop_last()[j]).0 != id by {
            assert(list[j].0 != id);
        }
        lemma_without_none(list.drop_last(), id);
        assert(list.drop_last().push(list.last()) =~= list);
    } else {
        assert(without(list, id) =~= list);
    }
}

/// Where only the entry at `i` is of `id`, that one is taken out.
proof fn lemma_without_one<T>(list: Seq<(u64, T)>, i: int, id: u64)
    requires
        0 <= i < list.len(),
        list[i].0 == id,
        forall|j: int| 0 <= j < list.len() && j != i ==> (#[trigger] list[j]).0 != id,
    ensures
        without(list, id) == list.remove(i),
    decreases list.len(),
{
    let rest = list.drop_last();
    if i == list.len() - 1 {
        assert forall|j: int| 0 <= j < rest.len() implies (#[trigger] rest[j]).0 != id by {
            assert(list[j].0 != id);
        }
        lemma_without_none(rest, id);
        assert(list.remove(i) =~= rest);
    } else {
        assert(list[list.len() - 1].0 != id);
        assert(rest[i] == list[i]);
        assert forall|j: int| 0 <= j < rest.len() && j != i implies (#[trigger] rest[j]).0
            != id by {
            assert(list[j].0 != id);
        }
        lemma_without_one(rest, i, id);
        assert(list.remove(i) =~= rest.remove(i).push(list.last()));
    }
}

/// After a subscription has been cancelled no entry of its id is left, and cancelling again
/// changes nothing.
pub proof fn cancelling_is_final<T>(list: Seq<(u64, T)>, id: u64)
    ensures
        forall|j: int| 0 <= j < without(list, id).len() ==> (#[trigger] without(list, id)[j]).0 != id,
        without(without(list, id), id) == without(list, id),
    decreases list.len(),
{
    if list.len() > 0 {
        cancelling_is_final(list.drop_last(), id);
    }
    lemma_without_none(without(list, id), id);
}

/// Cancelling a subscription leaves every other as it was, in the same order.
pub proof fn cancelling_keeps_the_others<T>(list: Seq<(u64, T)>, id: u64)
    ensures
        without(list, id) == list.filter(|entry: (u64, T)| entry.0 != id),
    decreases list.len(),
{
    reveal(Seq::filter);
    if list.len() > 0 {
        cancelling_keeps_the_others(list.drop_last(), id);
    }
}

} // verus!
