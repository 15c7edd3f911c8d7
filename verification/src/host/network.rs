//! Byte-level routing between the nodes of one process.
use vstd::prelude::*;

use crate::host::interceptor::{InterceptResult, Interceptor, Pipeline, Question, Ruling};
use crate::node_map::NodeMap;
use crate::types::node::NodeId;
use crate::types::time::Duration;

verus! {

/// What becomes of a message that is sent.
#[derive(Debug)]
pub enum Fate {
    /// The bytes arrive at once.
    Deliver(Vec<u8>),
    /// The message is lost.
    Lost,
    /// The bytes arrive after a delay, if the target is still registered.
    DeliverLater(Vec<u8>, Duration),
}

impl View for Fate {
    type V = Ruling;

    open spec fn view(&self) -> Ruling {
        match *self {
            Fate::Deliver(data) => Ruling::Deliver(data@),
            Fate::Lost => Ruling::Drop,
            Fate::DeliverLater(data, by) => Ruling::Delay(data@, by),
        }
    }
}

/// The bytes that a message of the bytes `data` has become after the interceptors that said
/// `rulings`, each of which let it pass.
pub open spec fn passed(data: Seq<u8>, rulings: Seq<Ruling>) -> Seq<u8> {
    if rulings.len() == 0 {
        data
    } else {
        rulings.last()->Deliver_0
    }
}

/// What becomes of a message of the bytes `data` when the interceptors that it meets say
/// `rulings`, out of a pipeline of `count`: it passes as long as it is let through, and the
/// first that does not decides its fate.
pub open spec fn fate_of(data: Seq<u8>, rulings: Seq<Ruling>, count: nat, fate: Ruling) -> bool {
    &&& rulings.len() <= count
    &&& forall|i: int| 0 <= i < rulings.len() - 1 ==> #[trigger] rulings[i] is Deliver
    &&& rulings.len() < count ==> rulings.len() > 0 && !(rulings.last() is Deliver)
    &&& fate == if rulings.len() > 0 {
        rulings.last()
    } else {
        Ruling::Deliver(data)
    }
}

/// Whether a message of the bytes `data` from `from` to `to` may meet the rulings `rulings` in
/// the pipeline `p0`, which leaves the pipeline `p1`: each interceptor that it reached was asked
/// about the bytes that reached it, and the others remember what they did.
pub open spec fn asked(
    p0: Pipeline,
    p1: Pipeline,
    from: NodeId,
    to: NodeId,
    data: Seq<u8>,
    rulings: Seq<Ruling>,
) -> bool {
    &&& p1.len == p0.len
    &&& p1.allows == p0.allows
    &&& forall|k: int|
        0 <= k < rulings.len() ==> (p0.allows)(
            k,
            Question { from, to, bytes: passed(data, rulings.take(k)) },
            (p0.memory)(k),
            #[trigger] rulings[k],
            (p1.memory)(k),
        )
    &&& forall|k: int|
        rulings.len() <= k < p0.len ==> #[trigger] (p1.memory)(k) == (p0.memory)(k)
}

/// A message of the bytes `data` from `from` to `to` takes the pipeline from `p0` to `p1`, and
/// `fate` becomes of it.
pub open spec fn possible(
    p0: Pipeline,
    p1: Pipeline,
    from: NodeId,
    to: NodeId,
    data: Seq<u8>,
    fate: Ruling,
) -> bool {
    exists|rulings: Seq<Ruling>| #[trigger]
        fate_of(data, rulings, p0.len, fate) && asked(p0, p1, from, to, data, rulings)
}

/// Copies of a message from `from` to each of `targets`, one after the other, take the pipeline
/// from `p0` to `p1`, and `fates` becomes of them.
pub open spec fn all_possible(
    p0: Pipeline,
    p1: Pipeline,
    from: NodeId,
    targets: Seq<NodeId>,
    data: Seq<u8>,
    fates: Seq<Ruling>,
) -> bool
    decreases targets.len(),
{
    &&& fates.len() == targets.len()
    &&& if targets.len() == 0 {
        p1 == p0
    } else {
        exists|mid: Pipeline| #[trigger]
            possible(mid, p1, from, targets.last(), data, fates.last()) && all_possible(
                p0,
                mid,
                from,
                targets.drop_last(),
                data,
                fates.drop_last(),
            )
    }
}

/// One more copy behind those that were sent.
proof fn lemma_one_more(
    p0: Pipeline,
    mid: Pipeline,
    p1: Pipeline,
    from: NodeId,
    targets: Seq<NodeId>,
    data: Seq<u8>,
    fates: Seq<Ruling>,
    to: NodeId,
    fate: Ruling,
)
    requires
        all_possible(p0, mid, from, targets, data, fates),
        possible(mid, p1, from, to, data, fate),
    ensures
        all_possible(p0, p1, from, targets.push(to), data, fates.push(fate)),
{
    assert(targets.push(to).drop_last() =~= targets);
    assert(fates.push(fate).drop_last() =~= fates);
    assert(possible(mid, p1, from, targets.push(to).last(), data, fates.push(fate).last()));
}

/// What the places of a pipeline hold.
spec fn pipeline_of<I: Interceptor + ?Sized>(list: Seq<Box<I>>) -> Pipeline {
    Pipeline {
        len: list.len(),
        allows: |k: int, question: Question, before: int, ruling: Ruling, after: int|
            0 <= k < list.len() && list[k].may_answer(question, before, ruling, after),
        memory: |k: int|
            if 0 <= k < list.len() {
                list[k].memory()
            } else {
                0
            },
    }
}

/// Puts `interceptor` behind those of `list`.
fn append<I: Interceptor + ?Sized>(interceptor: Box<I>, list: &mut Vec<Box<I>>)
    ensures
        pipeline_of(final(list)@).extends(pipeline_of(old(list)@)),
        forall|question: Question, before: int, ruling: Ruling, after: int| #[trigger]
            (pipeline_of(final(list)@).allows)(
                pipeline_of(old(list)@).len as int,
                question,
                before,
                ruling,
                after,
            ) == interceptor.may_answer(question, before, ruling, after),
        (pipeline_of(final(list)@).memory)(pipeline_of(old(list)@).len as int)
            == interceptor.memory(),
{
    list.push(interceptor);
}

/// Asks the interceptor at place `k` about a message.
fn ask_one<I: Interceptor + ?Sized>(
    list: &mut Vec<Box<I>>,
    k: usize,
    from: NodeId,
    to: NodeId,
    data: Vec<u8>,
) -> (answer: InterceptResult)
    requires
        k < old(list)@.len(),
    ensures
        pipeline_of(final(list)@).len == pipeline_of(old(list)@).len,
        pipeline_of(final(list)@).allows == pipeline_of(old(list)@).allows,
        (pipeline_of(old(list)@).allows)(
            k as int,
            Question { from, to, bytes: data@ },
            (pipeline_of(old(list)@).memory)(k as int),
            answer@,
            (pipeline_of(final(list)@).memory)(k as int),
        ),
        forall|i: int|
            i != k ==> #[trigger] (pipeline_of(final(list)@).memory)(i) == (pipeline_of(
                old(list)@,
            ).memory)(i),
{
    let ghost before = list@;
    let answer = list[k].intercept(from, to, data);
    assert(pipeline_of(list@).allows =~= pipeline_of(before).allows);
    answer
}

/// A transport between the nodes of one process. `T` is the handle by which a node's inbound
/// channel is reached.
pub struct InProcessTransport<T> {
    senders: NodeMap<T>,
    interceptors: Vec<Box<dyn Interceptor>>,
}

impl<T> InProcessTransport<T> {
    /// The registered channels.
    pub closed spec fn channels(&self) -> Map<NodeId, T> {
        self.senders@
    }

    /// The registered nodes, ascending.
    pub closed spec fn ids(&self) -> Seq<NodeId> {
        self.senders.ids()
    }

    /// The interceptors.
    pub closed spec fn pipeline(&self) -> Pipeline {
        pipeline_of(self.interceptors@)
    }

    pub closed spec fn wf(&self) -> bool {
        self.senders.wf()
    }

    /// The registered nodes are those with a channel, each listed once.
    pub proof fn lemma_wf(&self)
        requires
            self.wf(),
        ensures
            crate::node_map::ascending(self.ids()),
            forall|id: NodeId| #[trigger]
                self.channels().contains_key(id) <==> self.ids().contains(id),
    {
        self.senders.lemma_ids();
        assert forall|id: NodeId| #[trigger] self.channels().contains_key(id)
            <==> self.ids().contains(id) by {
            if self.ids().contains(id) {
                let i = self.ids().index_of(id);
                assert(self.senders@.contains_key(self.senders.ids()[i]));
            }
        }
    }

    /// A transport with no nodes and no faults.
    pub fn new() -> (t: Self)
        ensures
            t.wf(),
            t.channels() == Map::<NodeId, T>::empty(),
            t.pipeline().len == 0,
    {
        InProcessTransport { senders: NodeMap::new(), interceptors: Vec::new() }
    }

    /// Register a node's inbound channel.
    pub fn register(&mut self, node_id: NodeId, sender: T)
        requires
            old(self).wf(),
        ensures
            final(self).wf(),
            final(self).channels() == old(self).channels().insert(node_id, sender),
            final(self).pipeline() == old(self).pipeline(),
    {
        self.senders.insert(node_id, sender);
    }

    /// Remove a node from the transport.
    pub fn unregister(&mut self, node_id: NodeId)
        requires
            old(self).wf(),
        ensures
            final(self).wf(),
            final(self).channels() == old(self).channels().remove(node_id),
            final(self).pipeline() == old(self).pipeline(),
    {
        self.senders.remove(&node_id);
    }

    /// The channel of `node_id`, if it is registered.
    pub fn channel(&self, node_id: NodeId) -> (r: Option<&T>)
        requires
            self.wf(),
        ensures
            match r {
                Some(sender) => self.channels().contains_key(node_id) && *sender
                    == self.channels()[node_id],
                None => !self.channels().contains_key(node_id),
            },
    {
        self.senders.get(&node_id)
    }

    /// Route a message through the interceptors: what becomes of it follows from their rules.
    pub fn send(&mut self, from: NodeId, to: NodeId, data: Vec<u8>) -> (fate: Fate)
        requires
            old(self).wf(),
        ensures
            final(self).wf(),
            final(self).channels() == old(self).channels(),
            final(self).ids() == old(self).ids(),
            possible(old(self).pipeline(), final(self).pipeline(), from, to, data@, fate@),
    {
        let ghost bytes = data@;
        let ghost p0 = self.pipeline();
        let ghost mut rulings: Seq<Ruling> = Seq::empty();
        let mut current = data;
        let count = self.interceptors.len();
        let mut k: usize = 0;
        while k < count
            invariant
                k <= count,
                count == self.interceptors@.len(),
                count == p0.len,
                p0 == old(self).pipeline(),
                self.senders == old(self).senders,
                self.wf(),
                rulings.len() == k,
                forall|i: int| 0 <= i < rulings.len() ==> #[trigger] rulings[i] is Deliver,
                current@ == passed(bytes, rulings),
                asked(p0, self.pipeline(), from, to, bytes, rulings),
                bytes == data@,
            decreases count - k,
        {
            let ghost mid = self.pipeline();
            let ghost earlier = rulings;
            let answer = ask_one(&mut self.interceptors, k, from, to, current);
            proof {
                rulings = rulings.push(answer@);
                assert(rulings.last() == answer@);
                let p1 = self.pipeline();
                assert forall|i: int| 0 <= i < rulings.len() implies (p0.allows)(
                    i,
                    Question { from, to, bytes: passed(bytes, rulings.take(i)) },
                    (p0.memory)(i),
                    #[trigger] rulings[i],
                    (p1.memory)(i),
                ) by {
                    assert(rulings.take(i) =~= earlier.take(i));
                    if i == k {
                        assert(earlier.take(i) =~= earlier);
                        assert((mid.memory)(i) == (p0.memory)(i));
                    } else {
                        assert(rulings[i] == earlier[i]);
                        assert((p1.memory)(i) == (mid.memory)(i));
                    }
                }
                assert forall|i: int| rulings.len() <= i < p0.len implies #[trigger]
                    (p1.memory)(i) == (p0.memory)(i) by {
                    assert((mid.memory)(i) == (p0.memory)(i));
                }
            }
            match answer {
                InterceptResult::Deliver(d) => {
                    current = d;
                },
                InterceptResult::Drop => {
                    let fate = Fate::Lost;
                    assert(fate_of(bytes, rulings, count as nat, fate@));
                    return fate;
                },
                InterceptResult::Delay(d, by) => {
                    let fate = Fate::DeliverLater(d, by);
                    assert(fate_of(bytes, rulings, count as nat, fate@));
                    return fate;
                },
            }
            k = k + 1;
        }
        let fate = Fate::Deliver(current);
        assert(fate_of(bytes, rulings, count as nat, fate@));
        fate
    }

    /// Broadcast a message to all registered nodes except the sender: what becomes of each copy.
    pub fn broadcast(&mut self, from: NodeId, data: Vec<u8>) -> (fates: Vec<(NodeId, Fate)>)
        requires
            old(self).wf(),
        ensures
            final(self).wf(),
            final(self).channels() == old(self).channels(),
            final(self).ids() == old(self).ids(),
            targets(fates@) == others(from, old(self).ids()),
            all_possible(
                old(self).pipeline(),
                final(self).pipeline(),
                from,
                others(from, old(self).ids()),
                data@,
                outcomes(fates@),
            ),
    {
        let node_ids = self.senders.keys();
        let mut fates: Vec<(NodeId, Fate)> = Vec::new();
        let mut i: usize = 0;
        let ghost p0 = self.pipeline();
        assert(targets(fates@) =~= others(from, node_ids@.take(0)));
        while i < node_ids.len()
            invariant
                i <= node_ids@.len(),
                node_ids@ == old(self).ids(),
                p0 == old(self).pipeline(),
                self.wf(),
                self.channels() == old(self).channels(),
                self.ids() == old(self).ids(),
                targets(fates@) == others(from, node_ids@.take(i as int)),
                all_possible(
                    p0,
                    self.pipeline(),
                    from,
                    others(from, node_ids@.take(i as int)),
                    data@,
                    outcomes(fates@),
                ),
            decreases node_ids@.len() - i,
        {
            let to = node_ids[i];
            proof {
                assert(node_ids@.take(i + 1).drop_last() =~= node_ids@.take(i as int));
                assert(node_ids@.take(i + 1).last() == to);
            }
            if to != from {
                let ghost before = targets(fates@);
                let ghost known = outcomes(fates@);
                let ghost mid = self.pipeline();
                let copy = data.clone();
                assert(copy@ =~= data@);
                let fate = self.send(from, to, copy);
                let ghost outcome = fate@;
                fates.push((to, fate));
                proof {
                    assert(targets(fates@) =~= before.push(to));
                    assert(outcomes(fates@) =~= known.push(outcome));
                    let p1 = self.pipeline();
                    lemma_one_more(p0, mid, p1, from, before, data@, known, to, outcome);
                }
            }
            i = i + 1;
        }
        assert(node_ids@.take(node_ids@.len() as int) =~= node_ids@);
        fates
    }

    /// Add an interceptor behind those in the pipeline.
    pub fn add_interceptor(&mut self, interceptor: Box<dyn Interceptor>)
        requires
            old(self).wf(),
        ensures
            final(self).wf(),
            final(self).channels() == old(self).channels(),
            final(self).ids() == old(self).ids(),
            final(self).pipeline().extends(old(self).pipeline()),
            forall|question: Question, before: int, ruling: Ruling, after: int| #[trigger]
                (final(self).pipeline().allows)(
                    old(self).pipeline().len as int,
                    question,
                    before,
                    ruling,
                    after,
                ) == interceptor.may_answer(question, before, ruling, after),
            (final(self).pipeline().memory)(old(self).pipeline().len as int)
                == interceptor.memory(),
    {
        append(interceptor, &mut self.interceptors);
    }

    /// Remove all interceptors.
    pub fn clear_interceptors(&mut self)
        requires
            old(self).wf(),
        ensures
            final(self).wf(),
            final(self).channels() == old(self).channels(),
            final(self).ids() == old(self).ids(),
            final(self).pipeline().len == 0,
    {
        self.interceptors = Vec::new();
    }
}

/// The nodes that a list of fates speaks of, in order.
pub open spec fn targets(fates: Seq<(NodeId, Fate)>) -> Seq<NodeId> {
    Seq::new(fates.len(), |i: int| fates[i].0)
}

/// The fates of a list, in order.
pub open spec fn outcomes(fates: Seq<(NodeId, Fate)>) -> Seq<Ruling> {
    Seq::new(fates.len(), |i: int| fates[i].1@)
}

/// The nodes of `ids` other than `from`, in order.
pub open spec fn others(from: NodeId, ids: Seq<NodeId>) -> Seq<NodeId>
    decreases ids.len(),
{
    if ids.len() == 0 {
        Seq::empty()
    } else if ids.last() == from {
        others(from, ids.drop_last())
    } else {
        others(from, ids.drop_last()).push(ids.last())
    }
}

/// Without interceptors every message is delivered as it is.
pub proof fn clean_transport_delivers(
    p0: Pipeline,
    p1: Pipeline,
    from: NodeId,
    to: NodeId,
    data: Seq<u8>,
    fate: Ruling,
)
    requires
        p0.len == 0,
        possible(p0, p1, from, to, data, fate),
    ensures
        fate == Ruling::Deliver(data),
{
}

/// Where the first interceptor drops everything, every message is lost, and no other
/// interceptor is asked.
pub proof fn total_failure_loses_everything(
    p0: Pipeline,
    p1: Pipeline,
    from: NodeId,
    to: NodeId,
    data: Seq<u8>,
    fate: Ruling,
)
    requires
        p0.len > 0,
        forall|question: Question, before: int, ruling: Ruling, after: int| #[trigger]
            (p0.allows)(0, question, before, ruling, after) ==> ruling == Ruling::Drop,
        possible(p0, p1, from, to, data, fate),
    ensures
        fate == Ruling::Drop,
        forall|k: int| 1 <= k < p0.len ==> #[trigger] (p1.memory)(k) == (p0.memory)(k),
{
    let rulings = choose|rulings: Seq<Ruling>| #[trigger]
        fate_of(data, rulings, p0.len, fate) && asked(p0, p1, from, to, data, rulings);
    assert(rulings.len() > 0);
    assert(rulings[0] == Ruling::Drop);
}

/// Where the first interceptor delays everything, every message arrives after that delay, as it
/// was sent.
pub proof fn delay_keeps_the_bytes(
    p0: Pipeline,
    p1: Pipeline,
    from: NodeId,
    to: NodeId,
    data: Seq<u8>,
    by: Duration,
    fate: Ruling,
)
    requires
        p0.len > 0,
        forall|question: Question, before: int, ruling: Ruling, after: int| #[trigger]
            (p0.allows)(0, question, before, ruling, after) ==> ruling == Ruling::Delay(
                question.bytes,
                by,
            ),
        possible(p0, p1, from, to, data, fate),
    ensures
        fate == Ruling::Delay(data, by),
{
    let rulings = choose|rulings: Seq<Ruling>| #[trigger]
        fate_of(data, rulings, p0.len, fate) && asked(p0, p1, from, to, data, rulings);
    assert(rulings.len() > 0);
    assert(rulings[0] == Ruling::Delay(passed(data, rulings.take(0)), by));
}

/// A broadcast goes to every registered node but the sender, in order.
pub proof fn broadcast_goes_to_all_others(from: NodeId, ids: Seq<NodeId>)
    ensures
        others(from, ids) == ids.filter(|id: NodeId| id != from),
    decreases ids.len(),
{
    reveal(Seq::filter);
    if ids.len() > 0 {
        broadcast_goes_to_all_others(from, ids.drop_last());
    }
}

/// How a message gets through a pipeline. It is asked for at each place, with the bytes that the
/// place before let through, until one does not let it pass: that one decides, and those behind
/// it are not asked and remember what they did. If all let it pass, it arrives as what the last
/// of them let through.
pub proof fn first_refusal_decides(
    p0: Pipeline,
    p1: Pipeline,
    from: NodeId,
    to: NodeId,
    data: Seq<u8>,
    fate: Ruling,
) -> (rulings: Seq<Ruling>)
    requires
        possible(p0, p1, from, to, data, fate),
    ensures
        rulings.len() <= p0.len,
        p1.len == p0.len,
        p1.allows == p0.allows,
        forall|k: int|
            0 <= k < rulings.len() ==> (p0.allows)(
                k,
                Question {
                    from,
                    to,
                    bytes: if k == 0 {
                        data
                    } else {
                        rulings[k - 1]->Deliver_0
                    },
                },
                (p0.memory)(k),
                #[trigger] rulings[k],
                (p1.memory)(k),
            ),
        forall|k: int| 0 <= k < rulings.len() - 1 ==> #[trigger] rulings[k] is Deliver,
        forall|k: int|
            rulings.len() <= k < p0.len ==> #[trigger] (p1.memory)(k) == (p0.memory)(k),
        rulings.len() == 0 ==> p0.len == 0 && fate == Ruling::Deliver(data),
        rulings.len() > 0 ==> fate == rulings[rulings.len() - 1],
        fate is Deliver ==> rulings.len() == p0.len,
{
    let rulings = choose|rulings: Seq<Ruling>| #[trigger]
        fate_of(data, rulings, p0.len, fate) && asked(p0, p1, from, to, data, rulings);
    assert forall|k: int| 0 <= k < rulings.len() implies (p0.allows)(
        k,
        Question {
            from,
            to,
            bytes: if k == 0 {
                data
            } else {
                rulings[k - 1]->Deliver_0
            },
        },
        (p0.memory)(k),
        #[trigger] rulings[k],
        (p1.memory)(k),
    ) by {
        if k > 0 {
            assert(rulings.take(k).last() == rulings[k - 1]);
        }
    }
    rulings
}

} // verus!
