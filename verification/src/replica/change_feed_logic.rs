//! Batching and deduplication of change notifications.
use vstd::prelude::*;

use crate::types::node::{Generation, NodeId};
use crate::types::sync_message;
use crate::types::sync_message::{BatchedChangeFeed, ChangeContent, ChangeNotification};

verus! {

/// Whether two notifications speak of the same state of the same node.
pub open spec fn same_subject(a: ChangeContent, b: ChangeContent) -> bool {
    a.state_name == b.state_name && a.source_node == b.source_node
}

/// No two notifications speak of the same state of the same node.
pub open spec fn distinct_subjects(list: Seq<ChangeContent>) -> bool {
    forall|i: int, j: int|
        0 <= i < list.len() && 0 <= j < list.len() && same_subject(
            #[trigger] list[i],
            #[trigger] list[j],
        ) ==> i == j
}

/// Whether `list` holds a notification on the subject of `change`.
pub open spec fn has_subject(list: Seq<ChangeContent>, change: ChangeContent) -> bool {
    exists|i: int| 0 <= i < list.len() && same_subject(#[trigger] list[i], change)
}

/// The place in `list` of the notification on the subject of `change`.
pub open spec fn subject_index(list: Seq<ChangeContent>, change: ChangeContent) -> int {
    choose|i: int| 0 <= i < list.len() && same_subject(#[trigger] list[i], change)
}

/// The pending notifications after `change` has been noted: one per subject, holding the
/// highest generation noted of it, in the order in which the subjects were first noted.
pub open spec fn noted(list: Seq<ChangeContent>, change: ChangeContent) -> Seq<ChangeContent> {
    if has_subject(list, change) {
        let i = subject_index(list, change);
        if list[i].generation.before(change.generation) {
            list.update(i, change)
        } else {
            list
        }
    } else {
        list.push(change)
    }
}

/// The entries of an inbound batch that concern `local`: all of them, unless `local` sent the
/// batch itself.
pub open spec fn routed(feed: sync_message::FeedContent, local: NodeId) -> Seq<ChangeContent> {
    if feed.source_node == local {
        Seq::empty()
    } else {
        feed.notifications
    }
}

/// Pure state machine for change feed notification batching and deduplication.
///
/// Collects `notify_change` calls from local state shards, deduplicates by
/// `(state_name, source_node)` keeping the highest `Generation`, and produces
/// a `BatchedChangeFeed` on `flush()`.
#[derive(Debug)]
pub struct ChangeFeedLogic {
    node_id: NodeId,
    pending: Vec<ChangeNotification>,
}

impl View for ChangeFeedLogic {
    type V = Seq<ChangeContent>;

    closed spec fn view(&self) -> Seq<ChangeContent> {
        sync_message::notification_contents(self.pending@)
    }
}

impl ChangeFeedLogic {
    /// No two pending notifications speak of the same state of the same node.
    pub open spec fn wf(&self) -> bool {
        distinct_subjects(self@)
    }

    /// The node whose changes are collected.
    pub closed spec fn node(&self) -> NodeId {
        self.node_id
    }

    /// A feed of the given node with nothing pending.
    pub fn new(node_id: NodeId) -> (feed: Self)
        ensures
            feed.wf(),
            feed.node() == node_id,
            feed@ == Seq::<ChangeContent>::empty(),
    {
        let feed = ChangeFeedLogic { node_id, pending: Vec::new() };
        assert(feed@ =~= Seq::<ChangeContent>::empty());
        feed
    }

    /// Record a change notification. If an entry for the same `(state_name, source_node)`
    /// already exists, the higher `Generation` is kept.
    pub fn notify_change(
        &mut self,
        state_name: String,
        source_node: NodeId,
        generation: Generation,
    )
        requires
            old(self).wf(),
        ensures
            final(self).wf(),
            final(self).node() == old(self).node(),
            final(self)@ == noted(
                old(self)@,
                ChangeContent { state_name: state_name@, source_node, generation },
            ),
    {
        let ghost change = ChangeContent { state_name: state_name@, source_node, generation };
        let ghost before = self@;
        let mut i: usize = 0;
        while i < self.pending.len()
            invariant
                *self == *old(self),
                self.wf(),
                before == self@,
                change == (ChangeContent { state_name: state_name@, source_node, generation }),
                i <= self.pending@.len(),
                forall|j: int| 0 <= j < i ==> !same_subject(#[trigger] self@[j], change),
            decreases self.pending@.len() - i,
        {
            assert(self@[i as int] == self.pending@[i as int]@);
            if self.pending[i].source_node == source_node && self.pending[i].state_name
                == state_name {
                assert(same_subject(before[i as int], change));
                assert(subject_index(before, change) == i);
                if self.pending[i].generation.is_before(&generation) {
                    self.pending.set(i, ChangeNotification { state_name, source_node, generation });
                    assert(self@ =~= before.update(i as int, change));
                }
                return;
            }
            i = i + 1;
        }
        assert(!has_subject(before, change));
        self.pending.push(ChangeNotification { state_name, source_node, generation });
        assert(self@ =~= before.push(change));
    }

    /// Drain all pending notifications into a [`BatchedChangeFeed`].
    ///
    /// Returns `None` when there is nothing to flush.
    pub fn flush(&mut self) -> (feed: Option<BatchedChangeFeed>)
        requires
            old(self).wf(),
        ensures
            final(self).wf(),
            final(self).node() == old(self).node(),
            final(self)@ == Seq::<ChangeContent>::empty(),
            feed is None <==> old(self)@.len() == 0,
            feed matches Some(f) ==> f@ == (sync_message::FeedContent {
                source_node: old(self).node(),
                notifications: old(self)@,
            }),
    {
        if self.pending.len() == 0 {
            assert(self@ =~= Seq::<ChangeContent>::empty());
            return None;
        }
        let mut notifications: Vec<ChangeNotification> = Vec::new();
        std::mem::swap(&mut notifications, &mut self.pending);
        assert(self@ =~= Seq::<ChangeContent>::empty());
        Some(BatchedChangeFeed { source_node: self.node_id, notifications })
    }

    /// Number of distinct `(state_name, source_node)` entries waiting to be flushed.
    pub fn pending_count(&self) -> (n: usize)
        ensures
            n == self@.len(),
    {
        self.pending.len()
    }

    /// The highest generation noted of a state of a node and not flushed yet.
    pub fn pending_generation(&self, state_name: &str, source_node: NodeId) -> (g: Option<
        Generation,
    >)
        ensures
            match g {
                Some(generation) => self@.contains(
                    ChangeContent { state_name: state_name@, source_node, generation },
                ),
                None => forall|i: int|
                    0 <= i < self@.len() ==> (#[trigger] self@[i]).state_name != state_name@
                        || self@[i].source_node != source_node,
            },
    {
        let mut i: usize = 0;
        while i < self.pending.len()
            invariant
                i <= self.pending@.len(),
                forall|j: int|
                    0 <= j < i ==> (#[trigger] self@[j]).state_name != state_name@
                        || self@[j].source_node != source_node,
            decreases self.pending@.len() - i,
        {
            assert(self@[i as int] == self.pending@[i as int]@);
            if self.pending[i].source_node == source_node && crate::types::errors::str_eq(
                self.pending[i].state_name.as_str(),
                state_name,
            ) {
                return Some(self.pending[i].generation);
            }
            i = i + 1;
        }
        None
    }

    /// Filter an inbound [`BatchedChangeFeed`] for local routing.
    ///
    /// Returns an empty `Vec` when the batch was sent by `self_node_id`. Otherwise returns one
    /// `(state_name, source_node, generation)` tuple per notification, in order.
    pub fn route_inbound_batch(batch: &BatchedChangeFeed, self_node_id: NodeId) -> (entries: Vec<
        (String, NodeId, Generation),
    >)
        ensures
            entries@.len() == routed(batch@, self_node_id).len(),
            forall|i: int|
                0 <= i < entries@.len() ==> ({
                    let e = #[trigger] entries@[i];
                    routed(batch@, self_node_id)[i] == (ChangeContent {
                        state_name: e.0@,
                        source_node: e.1,
                        generation: e.2,
                    })
                }),
    {
        let mut entries: Vec<(String, NodeId, Generation)> = Vec::new();
        if batch.source_node == self_node_id {
            return entries;
        }
        let mut i: usize = 0;
        while i < batch.notifications.len()
            invariant
                i <= batch.notifications@.len(),
                entries@.len() == i,
                forall|j: int|
                    0 <= j < i ==> ({
                        let e = #[trigger] entries@[j];
                        batch.notifications@[j]@ == (ChangeContent {
                            state_name: e.0@,
                            source_node: e.1,
                            generation: e.2,
                        })
                    }),
            decreases batch.notifications@.len() - i,
        {
            let n = &batch.notifications[i];
            entries.push((n.state_name.clone(), n.source_node, n.generation));
            i = i + 1;
        }
        entries
    }
}

/// Noting a change keeps one pending entry per subject.
pub proof fn noting_keeps_subjects_distinct(list: Seq<ChangeContent>, change: ChangeContent)
    requires
        distinct_subjects(list),
    ensures
        distinct_subjects(noted(list, change)),
        noted(list, change).len() == if has_subject(list, change) {
            list.len()
        } else {
            list.len() + 1
        },
{
    if has_subject(list, change) {
        let i = subject_index(list, change);
        assert(0 <= i < list.len() && same_subject(list[i], change));
        let after = noted(list, change);
        assert forall|a: int, b: int|
            0 <= a < after.len() && 0 <= b < after.len() && same_subject(
                #[trigger] after[a],
                #[trigger] after[b],
            ) implies a == b by {
            assert(same_subject(list[a], list[b]));
        }
    }
}

/// After a change has been noted, the entry on its subject holds the higher of the generation
/// noted now and the one noted before, and every entry on another subject is as it was.
pub proof fn highest_generation_is_kept(list: Seq<ChangeContent>, change: ChangeContent)
    requires
        distinct_subjects(list),
    ensures
        has_subject(noted(list, change), change),
        ({
            let kept = noted(list, change)[subject_index(noted(list, change), change)];
            &&& same_subject(kept, change)
            &&& change.generation.at_most(kept.generation)
            &&& has_subject(list, change) ==> list[subject_index(
                list,
                change,
            )].generation.at_most(kept.generation)
            &&& kept.generation == change.generation || (has_subject(list, change)
                && kept.generation == list[subject_index(list, change)].generation)
        }),
        forall|other: ChangeContent|
            !same_subject(other, change) ==> (#[trigger] list.contains(other) <==> noted(
                list,
                change,
            ).contains(other)),
{
    noting_keeps_subjects_distinct(list, change);
    let after = noted(list, change);
    let at = if has_subject(list, change) {
        subject_index(list, change)
    } else {
        list.len() as int
    };
    if has_subject(list, change) {
        assert(0 <= at < list.len() && same_subject(list[at], change));
    }
    assert(same_subject(after[at], change));
    let k = subject_index(after, change);
    assert(same_subject(after[k], change));
    assert(same_subject(after[k], after[at]));
    assert(k == at);
    assert forall|other: ChangeContent| !same_subject(other, change) implies (
    #[trigger] list.contains(other) <==> after.contains(other)) by {
        if list.contains(other) {
            let i = choose|i: int| 0 <= i < list.len() && list[i] == other;
            assert(after[i] == other);
        }
        if after.contains(other) {
            let i = choose|i: int| 0 <= i < after.len() && after[i] == other;
            assert(i != at);
            assert(list[i] == other);
        }
    }
}

/// What is pending after a change has been noted: every subject that was pending, in its place,
/// of which only the subject of the change may have moved, to whichever of the two generations
/// is the newer; and behind them the change itself, if its subject was not pending.
pub proof fn noting_moves_one_subject(list: Seq<ChangeContent>, change: ChangeContent)
    requires
        forall|i: int, j: int|
            0 <= i < j < list.len() ==> (#[trigger] list[i]).state_name != (
            #[trigger] list[j]).state_name || list[i].source_node != list[j].source_node,
    ensures
        ({
            let after = noted(list, change);
            let of_subject = |c: ChangeContent|
                c.state_name == change.state_name && c.source_node == change.source_node;
            &&& forall|i: int|
                0 <= i < list.len() && !of_subject(#[trigger] list[i]) ==> after[i] == list[i]
            &&& forall|i: int|
                0 <= i < list.len() && of_subject(#[trigger] list[i]) ==> after.len() == list.len()
                    && of_subject(after[i]) && after[i].generation
                    == if list[i].generation.before(change.generation) {
                    change.generation
                } else {
                    list[i].generation
                }
            &&& (forall|i: int| 0 <= i < list.len() ==> !of_subject(#[trigger] list[i]))
                ==> after.len() == list.len() + 1 && after[list.len() as int] == change
            &&& after.len() == list.len() || after.len() == list.len() + 1
        }),
{
    let after = noted(list, change);
    if has_subject(list, change) {
        let k = subject_index(list, change);
        assert(0 <= k < list.len() && same_subject(list[k], change));
        assert forall|i: int|
            0 <= i < list.len() && list[i].state_name == change.state_name && (
            #[trigger] list[i]).source_node == change.source_node implies i == k by {
            if i < k {
                assert(list[i].state_name != list[k].state_name || list[i].source_node
                    != list[k].source_node);
            } else if k < i {
                assert(list[k].state_name != list[i].state_name || list[k].source_node
                    != list[i].source_node);
            }
        }
    } else {
        assert forall|i: int| 0 <= i < list.len() implies !((
        #[trigger] list[i]).state_name == change.state_name && list[i].source_node
            == change.source_node) by {
            assert(!same_subject(list[i], change));
        }
    }
}

/// A node takes in every notification of a batch of another node, in order, and none of its own
/// batches.
pub proof fn batch_is_heard_by_others(feed: sync_message::FeedContent, local: NodeId)
    ensures
        feed.source_node != local ==> routed(feed, local) == feed.notifications,
        feed.source_node == local ==> routed(feed, local).len() == 0,
{
}

} // verus!
