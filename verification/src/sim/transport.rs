//! A transport that routes serialized messages between simulated nodes.
//!
//! All messages pass through bytes, to enforce the same wire boundary as a real network.
use std::collections::VecDeque;
use vstd::prelude::*;

use crate::codec;
use crate::engine::{WireContent, WireMessage};
use crate::sim::interceptor;
use crate::sim::interceptor::{
    InterceptAction, InterceptContext, NetworkInterceptor, Pipeline, Question, Verdict,
};
use crate::types::node::NodeId;

verus! {

/// A message in transit between nodes.
#[derive(Debug)]
struct InFlightMessage {
    from: NodeId,
    to: NodeId,
    data: Vec<u8>,
    deliver_at_tick: u64,
}

/// A message in transit, over mathematical values.
pub struct Flight {
    pub from: NodeId,
    pub to: NodeId,
    pub data: Seq<u8>,
    pub deliver_at_tick: u64,
}

impl View for InFlightMessage {
    type V = Flight;

    closed spec fn view(&self) -> Flight {
        Flight {
            from: self.from,
            to: self.to,
            data: self.data@,
            deliver_at_tick: self.deliver_at_tick,
        }
    }
}

/// A message delivered to a node after deserialization.
#[derive(Debug)]
pub struct DeliveredMessage {
    pub from: NodeId,
    pub to: NodeId,
    pub message: WireMessage,
}

/// What a [`DeliveredMessage`] says.
pub struct Delivery {
    pub from: NodeId,
    pub to: NodeId,
    pub message: WireContent,
}

impl View for DeliveredMessage {
    type V = Delivery;

    open spec fn view(&self) -> Delivery {
        Delivery { from: self.from, to: self.to, message: self.message@ }
    }
}

/// A message that failed to deserialize (e.g., due to corruption).
#[derive(Debug)]
pub struct CorruptedMessage {
    pub from: NodeId,
    pub to: NodeId,
    pub error: String,
}

/// What a [`CorruptedMessage`] says.
pub struct Corruption {
    pub from: NodeId,
    pub to: NodeId,
    pub error: Seq<char>,
}

impl View for CorruptedMessage {
    type V = Corruption;

    open spec fn view(&self) -> Corruption {
        Corruption { from: self.from, to: self.to, error: self.error@ }
    }
}

/// Result of delivering messages for a tick.
#[derive(Debug)]
pub struct DeliveryResult {
    /// Successfully deserialized messages.
    pub delivered: Vec<DeliveredMessage>,
    /// Messages that failed deserialization (corrupted by interceptors).
    pub corrupted: Vec<CorruptedMessage>,
}

/// The contents of a list of delivered messages.
pub open spec fn deliveries(list: Seq<DeliveredMessage>) -> Seq<Delivery> {
    Seq::new(list.len(), |i: int| list[i]@)
}

/// The contents of a list of corrupted messages.
pub open spec fn corruptions(list: Seq<CorruptedMessage>) -> Seq<Corruption> {
    Seq::new(list.len(), |i: int| list[i]@)
}

/// Whether bytes begin with those of a wire message.
pub open spec fn holds_message(data: Seq<u8>) -> bool {
    exists|content: WireContent| (#[trigger] codec::wire_bytes(content)).is_prefix_of(data)
}

/// The wire message that bytes begin with.
pub open spec fn message_in(data: Seq<u8>) -> WireContent {
    choose|content: WireContent| (#[trigger] codec::wire_bytes(content)).is_prefix_of(data)
}

/// What the messages of `flights` that are due at `tick` are delivered as, in order.
pub open spec fn delivered_of(flights: Seq<Flight>, tick: u64) -> Seq<Delivery>
    decreases flights.len(),
{
    if flights.len() == 0 {
        Seq::empty()
    } else {
        let rest = delivered_of(flights.drop_last(), tick);
        let f = flights.last();
        if f.deliver_at_tick <= tick && holds_message(f.data) {
            rest.push(Delivery { from: f.from, to: f.to, message: message_in(f.data) })
        } else {
            rest
        }
    }
}

/// The messages of `flights` that are due at `tick` and cannot be deserialized, in order.
pub open spec fn corrupted_of(flights: Seq<Flight>, tick: u64) -> Seq<Corruption>
    decreases flights.len(),
{
    if flights.len() == 0 {
        Seq::empty()
    } else {
        let rest = corrupted_of(flights.drop_last(), tick);
        let f = flights.last();
        if f.deliver_at_tick <= tick && !holds_message(f.data) {
            rest.push(Corruption { from: f.from, to: f.to, error: codec::wire_error(f.data) })
        } else {
            rest
        }
    }
}

/// The messages of `flights` that are not due at `tick`, in order.
pub open spec fn waiting_of(flights: Seq<Flight>, tick: u64) -> Seq<Flight>
    decreases flights.len(),
{
    if flights.len() == 0 {
        Seq::empty()
    } else {
        let rest = waiting_of(flights.drop_last(), tick);
        let f = flights.last();
        if f.deliver_at_tick <= tick {
            rest
        } else {
            rest.push(f)
        }
    }
}

/// The messages of `flights` that neither come from `node` nor go to it, in order.
pub open spec fn not_involving(flights: Seq<Flight>, node: NodeId) -> Seq<Flight>
    decreases flights.len(),
{
    if flights.len() == 0 {
        Seq::empty()
    } else {
        let rest = not_involving(flights.drop_last(), node);
        let f = flights.last();
        if f.from != node && f.to != node {
            rest.push(f)
        } else {
            rest
        }
    }
}

/// The byte strings that go on through the pipeline after an interceptor has given the
/// verdicts `verdicts` on those that reached it.
pub open spec fn passed_on(verdicts: Seq<Verdict>) -> Seq<Seq<u8>>
    decreases verdicts.len(),
{
    if verdicts.len() == 0 {
        Seq::empty()
    } else {
        let rest = passed_on(verdicts.drop_last());
        match verdicts.last() {
            Verdict::Deliver(bytes) => rest.push(bytes),
            Verdict::DeliverMany(copies) => rest + copies,
            Verdict::Drop => rest,
            Verdict::Delay { .. } => rest,
        }
    }
}

/// The byte strings that an interceptor holds back, with the ticks of their delay. They skip
/// the rest of the pipeline.
pub open spec fn held_back(verdicts: Seq<Verdict>) -> Seq<(Seq<u8>, usize)>
    decreases verdicts.len(),
{
    if verdicts.len() == 0 {
        Seq::empty()
    } else {
        let rest = held_back(verdicts.drop_last());
        match verdicts.last() {
            Verdict::Delay { bytes, ticks } => rest.push((bytes, ticks)),
            _ => rest,
        }
    }
}

/// What is left of `pending` after the interceptors whose verdicts are `stages`.
pub open spec fn after_stages(pending: Seq<Seq<u8>>, stages: Seq<Seq<Verdict>>) -> Seq<Seq<u8>> {
    if stages.len() == 0 {
        pending
    } else {
        passed_on(stages.last())
    }
}

/// What the interceptors whose verdicts are `stages` hold back, in the order of the pipeline.
pub open spec fn held_by_stages(stages: Seq<Seq<Verdict>>) -> Seq<(Seq<u8>, usize)>
    decreases stages.len(),
{
    if stages.len() == 0 {
        Seq::empty()
    } else {
        held_by_stages(stages.drop_last()) + held_back(stages.last())
    }
}

/// Whether the interceptor at place `k` may have given the verdicts `verdicts` on the byte
/// strings `reached`, one on each, in order.
pub open spec fn stage_answers(
    pipeline: Pipeline,
    k: int,
    from: NodeId,
    to: NodeId,
    context: InterceptContext,
    reached: Seq<Seq<u8>>,
    verdicts: Seq<Verdict>,
) -> bool {
    &&& verdicts.len() == reached.len()
    &&& forall|j: int|
        0 <= j < verdicts.len() ==> (pipeline.allows)(
            k,
            Question { from, to, bytes: reached[j], context },
            #[trigger] verdicts[j],
        )
}

/// Whether `stages` may be the verdicts of the first interceptors of a pipeline on a message:
/// each of them was asked about each byte string that reached it, with the same
/// sender, target and context.
pub open spec fn stages_answer(
    pipeline: Pipeline,
    from: NodeId,
    to: NodeId,
    context: InterceptContext,
    data: Seq<u8>,
    stages: Seq<Seq<Verdict>>,
) -> bool
    decreases stages.len(),
{
    stages.len() > 0 ==> {
        &&& stages_answer(pipeline, from, to, context, data, stages.drop_last())
        &&& stage_answers(
            pipeline,
            stages.len() - 1,
            from,
            to,
            context,
            after_stages(seq![data], stages.drop_last()),
            stages.last(),
        )
    }
}

/// The tick at which a message sent at `tick` with `extra` ticks of delay is delivered.
pub open spec fn arrival(tick: u64, extra: usize) -> u64 {
    if tick + 1 + extra > u64::MAX {
        u64::MAX
    } else {
        (tick + 1 + extra) as u64
    }
}

/// The messages in transit that a message from `from` to `to` becomes, sent at `tick`, of which
/// the interceptors hold back `held` and let through `through`.
pub open spec fn launched(
    from: NodeId,
    to: NodeId,
    tick: u64,
    held: Seq<(Seq<u8>, usize)>,
    through: Seq<Seq<u8>>,
) -> Seq<Flight> {
    Seq::new(
        held.len(),
        |i: int|
            Flight { from, to, data: held[i].0, deliver_at_tick: arrival(tick, held[i].1) },
    ) + Seq::new(
        through.len(),
        |i: int| Flight { from, to, data: through[i], deliver_at_tick: arrival(tick, 0) },
    )
}

/// What a transport holds.
pub struct TransportModel {
    pub in_flight: Seq<Flight>,
    /// The interceptors.
    pub pipeline: Pipeline,
    pub message_counter: u64,
    pub current_tick: u64,
    pub rng_seed: u64,
}

impl TransportModel {
    /// The context in which the interceptors are asked about the next message.
    pub open spec fn context(self) -> InterceptContext {
        InterceptContext {
            current_tick: self.current_tick,
            message_id: self.message_counter,
            rng_seed: self.rng_seed,
        }
    }
}

/// Whether sending `data` from `from` to `to` leads from `t0` to `t1`: the message is counted,
/// and what becomes of it follows from the verdicts that the interceptors give on it in the
/// context of `t0`. What they hold back is in transit first, each after its delay, then what
/// comes through, to arrive at the next tick. A message is never longer than 64 bits can count.
pub open spec fn sends(
    t0: TransportModel,
    t1: TransportModel,
    from: NodeId,
    to: NodeId,
    data: Seq<u8>,
) -> bool {
    &&& data.len() <= u64::MAX
    &&& exists|stages: Seq<Seq<Verdict>>| #[trigger]
        stages_answer(t0.pipeline, from, to, t0.context(), data, stages) && stages.len()
            == t0.pipeline.len && t1 == (TransportModel {
            in_flight: t0.in_flight + launched(
                from,
                to,
                t0.current_tick,
                held_by_stages(stages),
                after_stages(seq![data], stages),
            ),
            message_counter: next_message_id(t0.message_counter),
            ..t0
        })
}

/// The number of the message after that of number `id`; after the last number they start anew.
pub open spec fn next_message_id(id: u64) -> u64 {
    if id == u64::MAX {
        0
    } else {
        (id + 1) as u64
    }
}

/// Whether sending `data` from `from` to each of `targets` but itself leads from `t0` to `t1`.
pub open spec fn broadcasts(
    t0: TransportModel,
    t1: TransportModel,
    from: NodeId,
    data: Seq<u8>,
    targets: Seq<NodeId>,
) -> bool
    decreases targets.len(),
{
    if targets.len() == 0 {
        t1 == t0
    } else {
        exists|mid: TransportModel|
            broadcasts(t0, mid, from, data, targets.drop_last()) && #[trigger] sends_to_other(
                mid,
                t1,
                from,
                targets.last(),
                data,
            )
    }
}

/// Whether sending `data` from `from` to `to`, unless it is `from` itself, leads from `t0` to
/// `t1`.
pub open spec fn sends_to_other(
    t0: TransportModel,
    t1: TransportModel,
    from: NodeId,
    to: NodeId,
    data: Seq<u8>,
) -> bool {
    if to == from {
        t1 == t0
    } else {
        sends(t0, t1, from, to, data)
    }
}

/// A transport that routes serialized messages between simulated nodes.
///
/// Messages are serialized to bytes before entering the transport, then deserialized on the
/// receiving side. Interceptors can be added to the pipeline to simulate network faults.
pub struct MockTransport {
    in_flight: VecDeque<InFlightMessage>,
    interceptors: Vec<Box<dyn NetworkInterceptor>>,
    message_counter: u64,
    current_tick: u64,
    rng_seed: u64,
}

/// What the places of a pipeline hold.
spec fn pipeline_of<I: NetworkInterceptor + ?Sized>(list: Seq<Box<I>>) -> Pipeline {
    Pipeline {
        len: list.len(),
        allows: |k: int, question: Question, verdict: Verdict|
            0 <= k < list.len() && list[k].may_answer(question, verdict),
    }
}

/// Puts `interceptor` behind those of `list`.
fn append<I: NetworkInterceptor + ?Sized>(interceptor: Box<I>, list: &mut Vec<Box<I>>)
    ensures
        pipeline_of(final(list)@).extends(pipeline_of(old(list)@)),
        forall|question: Question, verdict: Verdict| #[trigger]
            (pipeline_of(final(list)@).allows)(
                pipeline_of(old(list)@).len as int,
                question,
                verdict,
            ) == interceptor.may_answer(question, verdict),
{
    list.push(interceptor);
}

/// Asks the interceptor at place `k` about a message.
fn ask_one<I: NetworkInterceptor + ?Sized>(
    list: &mut Vec<Box<I>>,
    k: usize,
    from: NodeId,
    to: NodeId,
    bytes: &[u8],
    context: &InterceptContext,
) -> (answer: InterceptAction)
    requires
        k < old(list)@.len(),
    ensures
        pipeline_of(final(list)@) == pipeline_of(old(list)@),
        (pipeline_of(old(list)@).allows)(
            k as int,
            Question { from, to, bytes: bytes@, context: *context },
            answer@,
        ),
{
    let ghost before = list@;
    let answer = list[k].intercept(from, to, bytes, context);
    assert(pipeline_of(list@).allows =~= pipeline_of(before).allows);
    answer
}

/// The contents of a list of messages in transit.
spec fn flights(list: Seq<InFlightMessage>) -> Seq<Flight> {
    Seq::new(list.len(), |i: int| list[i]@)
}

impl View for MockTransport {
    type V = TransportModel;

    closed spec fn view(&self) -> TransportModel {
        TransportModel {
            in_flight: flights(self.in_flight@),
            pipeline: pipeline_of(self.interceptors@),
            message_counter: self.message_counter,
            current_tick: self.current_tick,
            rng_seed: self.rng_seed,
        }
    }
}

impl MockTransport {
    /// An idle transport with the given seed for deterministic behavior.
    pub fn new(rng_seed: u64) -> (t: Self)
        ensures
            t@ == (TransportModel {
                in_flight: Seq::empty(),
                pipeline: Pipeline::empty(),
                message_counter: 0,
                current_tick: 0,
                rng_seed,
            }),
    {
        let t = MockTransport {
            in_flight: VecDeque::new(),
            interceptors: Vec::new(),
            message_counter: 0,
            current_tick: 0,
            rng_seed,
        };
        assert(t@.in_flight =~= Seq::<Flight>::empty());
        assert(t@.pipeline.allows =~= Pipeline::empty().allows);
        t
    }

    /// Send a message from one node to another.
    ///
    /// The message is serialized to bytes, passed through the interceptor
    /// pipeline, and queued for delivery.
    pub fn send(&mut self, from: NodeId, to: NodeId, msg: &WireMessage)
        ensures
            sends(old(self)@, final(self)@, from, to, codec::wire_bytes(msg@)),
    {
        let bytes = codec::encode_wire(msg);
        self.send_bytes(from, to, bytes);
    }

    /// Broadcast a message from one node to all of `all_nodes` but itself.
    pub fn broadcast(&mut self, from: NodeId, msg: &WireMessage, all_nodes: &Vec<NodeId>)
        ensures
            broadcasts(
                old(self)@,
                final(self)@,
                from,
                codec::wire_bytes(msg@),
                all_nodes@,
            ),
    {
        let bytes = codec::encode_wire(msg);
        let mut i: usize = 0;
        let ghost t0 = self@;
        assert(all_nodes@.take(0) =~= Seq::<NodeId>::empty());
        while i < all_nodes.len()
            invariant
                i <= all_nodes@.len(),
                t0 == old(self)@,
                bytes@ == codec::wire_bytes(msg@),
                broadcasts(t0, self@, from, bytes@, all_nodes@.take(i as int)),
            decreases all_nodes@.len() - i,
        {
            let to = all_nodes[i];
            let ghost mid = self@;
            if to != from {
                let copy = bytes.clone();
                assert(copy@ =~= bytes@);
                self.send_bytes(from, to, copy);
            }
            proof {
                let next = all_nodes@.take(i + 1);
                assert(next.drop_last() =~= all_nodes@.take(i as int));
                assert(next.last() == to);
                assert(sends_to_other(mid, self@, from, to, bytes@));
            }
            i = i + 1;
        }
        assert(all_nodes@.take(all_nodes@.len() as int) =~= all_nodes@);
    }

    /// Deliver messages that are due at the current tick.
    ///
    /// Returns successfully deserialized messages and any that were
    /// corrupted by interceptors.
    pub fn deliver_due(&mut self) -> (result: DeliveryResult)
        ensures
            deliveries(result.delivered@) == delivered_of(
                old(self)@.in_flight,
                old(self)@.current_tick,
            ),
            corruptions(result.corrupted@) == corrupted_of(
                old(self)@.in_flight,
                old(self)@.current_tick,
            ),
            final(self)@ == (TransportModel {
                in_flight: waiting_of(old(self)@.in_flight, old(self)@.current_tick),
                ..old(self)@
            }),
    {
        let mut delivered: Vec<DeliveredMessage> = Vec::new();
        let mut corrupted: Vec<CorruptedMessage> = Vec::new();
        let mut waiting: VecDeque<InFlightMessage> = VecDeque::new();
        let mut queue: VecDeque<InFlightMessage> = VecDeque::new();
        std::mem::swap(&mut queue, &mut self.in_flight);
        let tick = self.current_tick;
        let ghost all = flights(queue@);
        let ghost mut done: int = 0;
        proof {
            assert(deliveries(delivered@) =~= delivered_of(all.take(0), tick));
            assert(corruptions(corrupted@) =~= corrupted_of(all.take(0), tick));
            assert(flights(waiting@) =~= waiting_of(all.take(0), tick));
            assert(all.skip(0) =~= all);
        }
        while queue.len() > 0
            invariant
                0 <= done <= all.len(),
                flights(queue@) == all.skip(done),
                deliveries(delivered@) == delivered_of(all.take(done), tick),
                corruptions(corrupted@) == corrupted_of(all.take(done), tick),
                flights(waiting@) == waiting_of(all.take(done), tick),
            decreases queue@.len(),
        {
            let ghost d0 = deliveries(delivered@);
            let ghost c0 = corruptions(corrupted@);
            let ghost w0 = flights(waiting@);
            let ghost q0 = queue@;
            if let Some(m) = queue.pop_front() {
                let ghost f = m@;
                proof {
                    assert(f == flights(q0)[0]);
                    assert(flights(q0).len() == all.len() - done);
                    assert(all.skip(done)[0] == all[done]);
                    assert(all.take(done + 1).drop_last() =~= all.take(done));
                    assert(all.take(done + 1).last() == f);
                    assert(flights(queue@) =~= flights(q0).skip(1));
                    assert(all.skip(done).skip(1) =~= all.skip(done + 1));
                    done = done + 1;
                }
                if m.deliver_at_tick <= tick {
                    let size = m.data.len();
                    assert(f.data.len() == size);
                    match codec::decode_wire(m.data.as_slice()) {
                        Ok(message) => {
                            proof {
                                assert(holds_message(f.data));
                                codec::wire_message_is_unique(
                                    message@,
                                    message_in(f.data),
                                    f.data,
                                );
                            }
                            let item = DeliveredMessage { from: m.from, to: m.to, message };
                            let ghost view = item@;
                            delivered.push(item);
                            assert(deliveries(delivered@) =~= d0.push(view));
                        },
                        Err(error) => {
                            assert(!holds_message(f.data));
                            let item = CorruptedMessage { from: m.from, to: m.to, error };
                            let ghost view = item@;
                            corrupted.push(item);
                            assert(corruptions(corrupted@) =~= c0.push(view));
                        },
                    }
                } else {
                    waiting.push_back(m);
                    assert(flights(waiting@) =~= w0.push(f));
                }
            }
        }
        assert(all.take(done) =~= all);
        self.in_flight = waiting;
        DeliveryResult { delivered, corrupted }
    }

    /// Advance the transport tick counter.
    pub fn advance_tick(&mut self)
        requires
            old(self)@.current_tick < u64::MAX,
        ensures
            final(self)@ == (TransportModel {
                current_tick: (old(self)@.current_tick + 1) as u64,
                ..old(self)@
            }),
    {
        self.current_tick = self.current_tick + 1;
    }

    /// Current tick number.
    pub fn current_tick(&self) -> (tick: u64)
        ensures
            tick == self@.current_tick,
    {
        self.current_tick
    }

    /// Number of messages currently in flight.
    pub fn in_flight_count(&self) -> (n: usize)
        ensures
            n == self@.in_flight.len(),
    {
        self.in_flight.len()
    }

    /// Add an interceptor behind those in the pipeline.
    pub fn add_interceptor(&mut self, interceptor: Box<dyn NetworkInterceptor>)
        ensures
            final(self)@ == (TransportModel { pipeline: final(self)@.pipeline, ..old(self)@ }),
            final(self)@.pipeline.extends(old(self)@.pipeline),
            forall|question: Question, verdict: Verdict| #[trigger]
                (final(self)@.pipeline.allows)(old(self)@.pipeline.len as int, question, verdict)
                    == interceptor.may_answer(question, verdict),
    {
        append(interceptor, &mut self.interceptors);
    }

    /// Remove all interceptors (restore clean network).
    pub fn clear_interceptors(&mut self)
        ensures
            final(self)@ == (TransportModel { pipeline: Pipeline::empty(), ..old(self)@ }),
    {
        self.interceptors = Vec::new();
        assert(self@.pipeline.allows =~= Pipeline::empty().allows);
    }

    /// Drop all in-flight messages involving a specific node (from or to).
    /// Used to simulate a hard crash where queued messages are lost.
    pub fn drop_in_flight_for(&mut self, node_id: NodeId)
        ensures
            final(self)@ == (TransportModel {
                in_flight: not_involving(old(self)@.in_flight, node_id),
                ..old(self)@
            }),
    {
        let mut kept: VecDeque<InFlightMessage> = VecDeque::new();
        let mut queue: VecDeque<InFlightMessage> = VecDeque::new();
        std::mem::swap(&mut queue, &mut self.in_flight);
        let ghost all = flights(queue@);
        let ghost mut done: int = 0;
        proof {
            assert(flights(kept@) =~= not_involving(all.take(0), node_id));
            assert(all.skip(0) =~= all);
        }
        while queue.len() > 0
            invariant
                0 <= done <= all.len(),
                flights(queue@) == all.skip(done),
                flights(kept@) == not_involving(all.take(done), node_id),
            decreases queue@.len(),
        {
            let ghost k0 = flights(kept@);
            let ghost q0 = queue@;
            if let Some(m) = queue.pop_front() {
                let ghost f = m@;
                proof {
                    assert(f == flights(q0)[0]);
                    assert(flights(q0).len() == all.len() - done);
                    assert(all.skip(done)[0] == all[done]);
                    assert(all.take(done + 1).drop_last() =~= all.take(done));
                    assert(all.take(done + 1).last() == f);
                    assert(flights(queue@) =~= flights(q0).skip(1));
                    assert(all.skip(done).skip(1) =~= all.skip(done + 1));
                    done = done + 1;
                }
                if m.from != node_id && m.to != node_id {
                    kept.push_back(m);
                    assert(flights(kept@) =~= k0.push(f));
                }
            }
        }
        assert(all.take(done) =~= all);
        self.in_flight = kept;
    }

    /// Counts a message, runs it through the pipeline and queues what comes out.
    fn send_bytes(&mut self, from: NodeId, to: NodeId, bytes: Vec<u8>)
        ensures
            sends(old(self)@, final(self)@, from, to, bytes@),
    {
        let context = InterceptContext {
            current_tick: self.current_tick,
            message_id: self.message_counter,
            rng_seed: self.rng_seed,
        };
        self.message_counter = self.message_counter.wrapping_add(1);
        let ghost data = bytes@;
        let size = bytes.len();
        assert(data.len() == size);
        let ghost counted = self@;
        let tick = self.current_tick;
        let (held, through) = self.apply_interceptors(from, to, bytes, &context);
        let ghost stages = choose|stages: Seq<Seq<Verdict>>| #[trigger]
            stages_answer(counted.pipeline, from, to, context, data, stages) && stages.len()
                == counted.pipeline.len && held_contents(held@) == held_by_stages(stages)
                && interceptor::contents(through@) == after_stages(
                seq![data],
                stages,
            );
        let ghost flown = launched(
            from,
            to,
            tick,
            held_by_stages(stages),
            after_stages(seq![data], stages),
        );
        self.queue_held(from, to, held);
        self.queue_through(from, to, through);
        proof {
            assert(self@.in_flight =~= counted.in_flight + flown);
            assert(self@ == (TransportModel {
                in_flight: old(self)@.in_flight + flown,
                message_counter: next_message_id(old(self)@.message_counter),
                ..old(self)@
            }));
            assert(context == old(self)@.context());
            assert(stages_answer(
                old(self)@.pipeline,
                from,
                to,
                old(self)@.context(),
                data,
                stages,
            ));
        }
    }

    /// Queues the messages that were held back, each after its delay on top of the latency of
    /// one tick.
    fn queue_held(&mut self, from: NodeId, to: NodeId, held: Vec<(Vec<u8>, usize)>)
        ensures
            final(self)@ == (TransportModel {
                in_flight: old(self)@.in_flight + launched(
                    from,
                    to,
                    old(self)@.current_tick,
                    held_contents(held@),
                    Seq::empty(),
                ),
                ..old(self)@
            }),
    {
        let ghost t0 = self@;
        let ghost all = launched(
            from,
            to,
            t0.current_tick,
            held_contents(held@),
            Seq::<Seq<u8>>::empty(),
        );
        let mut i: usize = 0;
        while i < held.len()
            invariant
                i <= held@.len(),
                t0 == old(self)@,
                all == launched(
                    from,
                    to,
                    t0.current_tick,
                    held_contents(held@),
                    Seq::<Seq<u8>>::empty(),
                ),
                self@.in_flight =~= t0.in_flight + all.take(i as int),
                self@ == (TransportModel { in_flight: self@.in_flight, ..t0 }),
            decreases held@.len() - i,
        {
            let deliver_at_tick = self.current_tick.saturating_add(1).saturating_add(
                held[i].1 as u64,
            );
            let ghost before = self.in_flight@;
            let m = InFlightMessage { from, to, data: held[i].0.clone(), deliver_at_tick };
            let ghost f = m@;
            assert(f == all[i as int]);
            self.in_flight.push_back(m);
            assert(flights(self.in_flight@) =~= flights(before).push(f));
            i = i + 1;
        }
        assert(all.take(held@.len() as int) =~= all);
    }

    /// Queues the messages that came through, for the next tick.
    fn queue_through(&mut self, from: NodeId, to: NodeId, through: Vec<Vec<u8>>)
        ensures
            final(self)@ == (TransportModel {
                in_flight: old(self)@.in_flight + launched(
                    from,
                    to,
                    old(self)@.current_tick,
                    Seq::empty(),
                    interceptor::contents(through@),
                ),
                ..old(self)@
            }),
    {
        let ghost t0 = self@;
        let ghost none = Seq::<(Seq<u8>, usize)>::empty();
        let ghost all = launched(
            from,
            to,
            t0.current_tick,
            none,
            interceptor::contents(through@),
        );
        let mut i: usize = 0;
        while i < through.len()
            invariant
                i <= through@.len(),
                t0 == old(self)@,
                none == Seq::<(Seq<u8>, usize)>::empty(),
                all == launched(
                    from,
                    to,
                    t0.current_tick,
                    none,
                    interceptor::contents(through@),
                ),
                self@.in_flight =~= t0.in_flight + all.take(i as int),
                self@ == (TransportModel { in_flight: self@.in_flight, ..t0 }),
            decreases through@.len() - i,
        {
            let deliver_at_tick = self.current_tick.saturating_add(1);
            let ghost before = self.in_flight@;
            let m = InFlightMessage { from, to, data: through[i].clone(), deliver_at_tick };
            let ghost f = m@;
            assert(f == all[i as int]);
            self.in_flight.push_back(m);
            assert(flights(self.in_flight@) =~= flights(before).push(f));
            i = i + 1;
        }
        assert(all.take(through@.len() as int) =~= all);
    }

    /// Asks the interceptor at place `k` of the pipeline about a message.
    fn ask(
        &mut self,
        k: usize,
        from: NodeId,
        to: NodeId,
        bytes: &[u8],
        context: &InterceptContext,
    ) -> (answer: InterceptAction)
        requires
            k < old(self)@.pipeline.len,
        ensures
            final(self)@ == old(self)@,
            (old(self)@.pipeline.allows)(
                k as int,
                Question { from, to, bytes: bytes@, context: *context },
                answer@,
            ),
    {
        ask_one(&mut self.interceptors, k, from, to, bytes, context)
    }

    /// Apply all interceptors in sequence. Returns the messages that are held back, with the
    /// ticks of their delay, and those that come through.
    ///
    /// Each interceptor sees every pending message and decides what to do. A delayed message
    /// skips further interceptors, without affecting other pending messages.
    fn apply_interceptors(
        &mut self,
        from: NodeId,
        to: NodeId,
        bytes: Vec<u8>,
        context: &InterceptContext,
    ) -> (out: (Vec<(Vec<u8>, usize)>, Vec<Vec<u8>>))
        ensures
            final(self)@ == old(self)@,
            exists|stages: Seq<Seq<Verdict>>| #[trigger]
                stages_answer(old(self)@.pipeline, from, to, *context, bytes@, stages)
                    && stages.len() == old(self)@.pipeline.len && held_contents(out.0@)
                    == held_by_stages(stages) && interceptor::contents(out.1@) == after_stages(
                    seq![bytes@],
                    stages,
                ),
    {
        let ghost data = bytes@;
        let mut pending: Vec<Vec<u8>> = Vec::new();
        pending.push(bytes);
        let mut held: Vec<(Vec<u8>, usize)> = Vec::new();
        let ghost mut stages: Seq<Seq<Verdict>> = Seq::empty();
        proof {
            assert(interceptor::contents(pending@) =~= seq![data]);
            assert(held_contents(held@) =~= held_by_stages(stages));
        }
        let count = self.interceptors.len();
        assert(count == self@.pipeline.len);
        let mut k: usize = 0;
        while k < count
            invariant
                k <= count,
                count == self@.pipeline.len,
                self@ == old(self)@,
                stages.len() == k,
                stages_answer(old(self)@.pipeline, from, to, *context, data, stages),
                interceptor::contents(pending@) == after_stages(seq![data], stages),
                held_contents(held@) == held_by_stages(stages),
            decreases count - k,
        {
            let mut next: Vec<Vec<u8>> = Vec::new();
            let ghost mut verdicts: Seq<Verdict> = Seq::empty();
            let ghost held0 = held_contents(held@);
            let ghost reached = interceptor::contents(pending@);
            let mut j: usize = 0;
            proof {
                assert(interceptor::contents(next@) =~= passed_on(verdicts));
                assert(held0 =~= held0 + held_back(verdicts));
            }
            while j < pending.len()
                invariant
                    j <= pending@.len(),
                    k < count,
                    count == self@.pipeline.len,
                    self@ == old(self)@,
                    verdicts.len() == j,
                    forall|i: int|
                        0 <= i < j ==> (old(self)@.pipeline.allows)(
                            k as int,
                            Question { from, to, bytes: reached[i], context: *context },
                            #[trigger] verdicts[i],
                        ),
                    reached == interceptor::contents(pending@),
                    interceptor::contents(next@) == passed_on(verdicts),
                    held_contents(held@) == held0 + held_back(verdicts),
                decreases pending@.len() - j,
            {
                let ghost next0 = interceptor::contents(next@);
                let ghost held1 = held_contents(held@);
                let ghost v0 = verdicts;
                let answer = self.ask(k, from, to, pending[j].as_slice(), context);
                let ghost verdict = answer@;
                proof {
                    verdicts = verdicts.push(verdict);
                    assert(verdicts.drop_last() =~= v0);
                    assert(verdicts.last() == verdict);
                }
                match answer {
                    InterceptAction::Deliver(data) => {
                        next.push(data);
                        assert(interceptor::contents(next@) =~= next0.push(data@));
                    },
                    InterceptAction::Drop => {},
                    InterceptAction::Delay { bytes: data, ticks } => {
                        let ghost item = (data@, ticks);
                        held.push((data, ticks));
                        assert(held_contents(held@) =~= held1.push(item));
                        assert(held1.push(item) =~= held0 + held_back(v0).push(item));
                    },
                    InterceptAction::DeliverMany(copies) => {
                        let ghost many = interceptor::contents(copies@);
                        let mut rest = copies;
                        next.append(&mut rest);
                        assert(interceptor::contents(next@) =~= next0 + many);
                    },
                }
                j = j + 1;
            }
            proof {
                let s0 = stages;
                stages = stages.push(verdicts);
                assert(stages.drop_last() =~= s0);
                assert(stages.last() == verdicts);
            }
            pending = next;
            k = k + 1;
        }
        (held, pending)
    }
}

/// The contents of a list of delayed messages.
pub open spec fn held_contents(list: Seq<(Vec<u8>, usize)>) -> Seq<(Seq<u8>, usize)> {
    Seq::new(list.len(), |i: int| (list[i].0@, list[i].1))
}

} // verus!
