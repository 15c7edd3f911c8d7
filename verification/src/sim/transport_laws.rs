//! What holds of the transport across several operations.
use vstd::prelude::*;

use crate::codec;
use crate::engine::WireContent;
use crate::sim::interceptor::{InterceptContext, Question, Verdict};
use crate::sim::transport;
use crate::sim::transport::{Flight, TransportModel};
use crate::types::node::NodeId;

verus! {

/// The bytes of a message hold that message.
pub proof fn message_survives_the_wire(content: WireContent)
    requires
        codec::wire_bytes(content).len() <= u64::MAX,
    ensures
        transport::holds_message(codec::wire_bytes(content)),
        transport::message_in(codec::wire_bytes(content)) == content,
{
    let data = codec::wire_bytes(content);
    assert(data.is_prefix_of(data));
    codec::wire_message_is_unique(content, transport::message_in(data), data);
}

/// On a clean network a message that is sent is on its way as it is, due at the next tick.
pub proof fn clean_network_takes_message(
    t0: TransportModel,
    t1: TransportModel,
    from: NodeId,
    to: NodeId,
    data: Seq<u8>,
)
    requires
        t0.pipeline.len == 0,
        transport::sends(t0, t1, from, to, data),
    ensures
        data.len() <= u64::MAX,
        ({
            let flight = Flight {
                from,
                to,
                data,
                deliver_at_tick: transport::arrival(t0.current_tick, 0),
            };
            t1 == (TransportModel {
                in_flight: t0.in_flight.push(flight),
                message_counter: transport::next_message_id(t0.message_counter),
                ..t0
            })
        }),
{
    let flight = Flight {
        from,
        to,
        data,
        deliver_at_tick: transport::arrival(t0.current_tick, 0),
    };
    let stages = stages_of(t0, t1, from, to, data);
    assert(stages =~= Seq::<Seq<Verdict>>::empty());
    assert(t1.in_flight =~= t0.in_flight.push(flight));
}

/// On a clean network a message that is sent is on its way as it is, and is delivered, as what
/// was sent, at the next tick and not before.
pub proof fn clean_network_delivers_what_was_sent(
    t0: TransportModel,
    t1: TransportModel,
    from: NodeId,
    to: NodeId,
    content: WireContent,
)
    requires
        t0.pipeline.len == 0,
        t0.current_tick < u64::MAX,
        transport::sends(t0, t1, from, to, codec::wire_bytes(content)),
    ensures
        ({
            let flight = Flight {
                from,
                to,
                data: codec::wire_bytes(content),
                deliver_at_tick: (t0.current_tick + 1) as u64,
            };
            &&& t1.in_flight == t0.in_flight.push(flight)
            &&& transport::waiting_of(seq![flight], t0.current_tick) == seq![flight]
            &&& transport::delivered_of(seq![flight], (t0.current_tick + 1) as u64) == seq![
                transport::Delivery { from, to, message: content },
            ]
        }),
{
    let data = codec::wire_bytes(content);
    let flight = Flight { from, to, data, deliver_at_tick: (t0.current_tick + 1) as u64 };
    clean_network_takes_message(t0, t1, from, to, data);
    reveal_with_fuel(transport::waiting_of, 2);
    reveal_with_fuel(transport::delivered_of, 2);
    assert(seq![flight].drop_last() =~= Seq::<Flight>::empty());
    assert(transport::waiting_of(seq![flight], t0.current_tick) =~= seq![flight]);
    message_survives_the_wire(content);
    assert(transport::delivered_of(seq![flight], (t0.current_tick + 1) as u64) =~= seq![
        transport::Delivery { from, to, message: content },
    ]);
}

/// No message in transit is lost or made up by a delivery: each is delivered, found corrupted,
/// or still waiting.
pub proof fn delivery_conserves_messages(flights: Seq<Flight>, tick: u64)
    ensures
        transport::delivered_of(flights, tick).len() + transport::corrupted_of(
            flights,
            tick,
        ).len() + transport::waiting_of(flights, tick).len() == flights.len(),
    decreases flights.len(),
{
    if flights.len() > 0 {
        delivery_conserves_messages(flights.drop_last(), tick);
    }
}

/// What waits after a delivery is not due yet, and was in transit before.
pub proof fn waiting_is_not_due(flights: Seq<Flight>, tick: u64)
    ensures
        forall|i: int|
            0 <= i < transport::waiting_of(flights, tick).len() ==> (
            #[trigger] transport::waiting_of(flights, tick)[i]).deliver_at_tick > tick
                && flights.contains(transport::waiting_of(flights, tick)[i]),
    decreases flights.len(),
{
    if flights.len() > 0 {
        waiting_is_not_due(flights.drop_last(), tick);
        let rest = transport::waiting_of(flights.drop_last(), tick);
        let all = transport::waiting_of(flights, tick);
        assert forall|i: int| 0 <= i < all.len() implies (#[trigger] all[i]).deliver_at_tick > tick
            && flights.contains(all[i]) by {
            if i < rest.len() {
                let k = choose|k: int|
                    0 <= k < flights.drop_last().len() && flights.drop_last()[k] == rest[i];
                assert(flights[k] == all[i]);
            } else {
                assert(flights[flights.len() - 1] == all[i]);
            }
        }
    }
}

/// Where the first interceptor of the pipeline drops everything, nothing gets in transit.
pub proof fn total_failure_lets_nothing_through(
    t0: TransportModel,
    t1: TransportModel,
    from: NodeId,
    to: NodeId,
    data: Seq<u8>,
)
    requires
        t0.pipeline.len > 0,
        forall|question: Question, verdict: Verdict| #[trigger]
            (t0.pipeline.allows)(0, question, verdict) ==> verdict == Verdict::Drop,
        transport::sends(t0, t1, from, to, data),
    ensures
        t1.in_flight == t0.in_flight,
        t1.message_counter == transport::next_message_id(t0.message_counter),
{
    let stages = stages_of(t0, t1, from, to, data);
    lemma_dropped_at_once(t0, from, to, data, stages);
    assert(t1.in_flight =~= t0.in_flight);
}

/// Where the first interceptor drops everything, a broadcast puts nothing in transit either.
pub proof fn total_failure_stops_broadcasts(
    t0: TransportModel,
    t1: TransportModel,
    from: NodeId,
    data: Seq<u8>,
    targets: Seq<NodeId>,
)
    requires
        t0.pipeline.len > 0,
        forall|question: Question, verdict: Verdict| #[trigger]
            (t0.pipeline.allows)(0, question, verdict) ==> verdict == Verdict::Drop,
        transport::broadcasts(t0, t1, from, data, targets),
    ensures
        t1.in_flight == t0.in_flight,
        t1.pipeline == t0.pipeline,
    decreases targets.len(),
{
    if targets.len() > 0 {
        let mid = choose|mid: TransportModel|
            transport::broadcasts(t0, mid, from, data, targets.drop_last())
                && #[trigger] transport::sends_to_other(mid, t1, from, targets.last(), data);
        total_failure_stops_broadcasts(t0, mid, from, data, targets.drop_last());
        if targets.last() != from {
            total_failure_lets_nothing_through(mid, t1, from, targets.last(), data);
        }
    }
}

/// The verdicts behind a message that was sent.
spec fn stages_of(
    t0: TransportModel,
    t1: TransportModel,
    from: NodeId,
    to: NodeId,
    data: Seq<u8>,
) -> Seq<Seq<Verdict>> {
    choose|stages: Seq<Seq<Verdict>>| #[trigger]
        transport::stages_answer(t0.pipeline, from, to, t0.context(), data, stages) && stages.len()
            == t0.pipeline.len && t1 == (TransportModel {
            in_flight: t0.in_flight + transport::launched(
                from,
                to,
                t0.current_tick,
                transport::held_by_stages(stages),
                transport::after_stages(seq![data], stages),
            ),
            message_counter: transport::next_message_id(t0.message_counter),
            ..t0
        })
}

/// What the first interceptor drops neither comes through nor is held back by any other.
proof fn lemma_dropped_at_once(
    t: TransportModel,
    from: NodeId,
    to: NodeId,
    data: Seq<u8>,
    stages: Seq<Seq<Verdict>>,
)
    requires
        stages.len() > 0,
        forall|question: Question, verdict: Verdict| #[trigger]
            (t.pipeline.allows)(0, question, verdict) ==> verdict == Verdict::Drop,
        transport::stages_answer(t.pipeline, from, to, t.context(), data, stages),
    ensures
        transport::after_stages(seq![data], stages).len() == 0,
        transport::held_by_stages(stages).len() == 0,
    decreases stages.len(),
{
    let rest = stages.drop_last();
    let verdicts = stages.last();
    if rest.len() == 0 {
        reveal_with_fuel(transport::held_by_stages, 2);
        assert forall|i: int| 0 <= i < verdicts.len() implies #[trigger] verdicts[i]
            == Verdict::Drop by {}
        lemma_all_dropped(verdicts);
    } else {
        lemma_dropped_at_once(t, from, to, data, rest);
        lemma_all_dropped(verdicts);
    }
}

/// Where every message is duplicated and then delayed, both copies are in transit, each due
/// after the delay.
pub proof fn duplicates_survive_delay(
    t0: TransportModel,
    t1: TransportModel,
    from: NodeId,
    to: NodeId,
    data: Seq<u8>,
    ticks: usize,
)
    requires
        t0.pipeline.len == 2,
        forall|question: Question, verdict: Verdict| #[trigger]
            (t0.pipeline.allows)(0, question, verdict) ==> verdict == Verdict::DeliverMany(
                seq![question.bytes, question.bytes],
            ),
        forall|question: Question, verdict: Verdict| #[trigger]
            (t0.pipeline.allows)(1, question, verdict) ==> verdict == (Verdict::Delay {
                bytes: question.bytes,
                ticks,
            }),
        transport::sends(t0, t1, from, to, data),
    ensures
        ({
            let copy = Flight {
                from,
                to,
                data,
                deliver_at_tick: transport::arrival(t0.current_tick, ticks),
            };
            t1.in_flight == t0.in_flight + seq![copy, copy]
        }),
{
    let stages = stages_of(t0, t1, from, to, data);
    reveal_with_fuel(transport::stages_answer, 3);
    reveal_with_fuel(transport::held_by_stages, 3);
    reveal_with_fuel(transport::held_back, 3);
    reveal_with_fuel(transport::passed_on, 3);
    let first = stages.drop_last();
    let none = first.drop_last();
    assert(none =~= Seq::<Seq<Verdict>>::empty());
    let doubled = first.last();
    assert(doubled.len() == 1);
    assert(doubled[0] == Verdict::DeliverMany(seq![data, data]));
    assert(doubled.drop_last() =~= Seq::<Verdict>::empty());
    let two = transport::passed_on(doubled);
    assert(two =~= seq![data, data]);
    let delayed = stages.last();
    let held = Verdict::Delay { bytes: data, ticks };
    assert(delayed.len() == 2);
    assert(delayed[0] == held && delayed[1] == held);
    assert(delayed =~= seq![held, held]);
    assert(delayed.drop_last() =~= seq![held]);
    assert(seq![held].drop_last() =~= Seq::<Verdict>::empty());
    assert(transport::held_back(doubled) =~= Seq::<(Seq<u8>, usize)>::empty());
    assert(transport::held_back(delayed) =~= seq![(data, ticks), (data, ticks)]);
    assert(transport::held_by_stages(stages) =~= seq![(data, ticks), (data, ticks)]);
    assert(transport::after_stages(seq![data], stages) =~= Seq::<Seq<u8>>::empty());
    let copy = Flight {
        from,
        to,
        data,
        deliver_at_tick: transport::arrival(t0.current_tick, ticks),
    };
    assert(t1.in_flight =~= t0.in_flight + seq![copy, copy]);
}

proof fn lemma_all_dropped(verdicts: Seq<Verdict>)
    requires
        forall|i: int| 0 <= i < verdicts.len() ==> #[trigger] verdicts[i] == Verdict::Drop,
    ensures
        transport::passed_on(verdicts).len() == 0,
        transport::held_back(verdicts).len() == 0,
    decreases verdicts.len(),
{
    if verdicts.len() > 0 {
        assert(verdicts[verdicts.len() - 1] == Verdict::Drop);
        assert forall|i: int| 0 <= i < verdicts.drop_last().len() implies
            #[trigger] verdicts.drop_last()[i] == Verdict::Drop by {
            assert(verdicts[i] == Verdict::Drop);
        }
        lemma_all_dropped(verdicts.drop_last());
    }
}

/// After a hard crash of a node no message from it or to it is in transit, and every other
/// message still is.
pub proof fn crash_loses_the_nodes_messages(flights: Seq<Flight>, node: NodeId)
    ensures
        forall|f: Flight|
            #![trigger flights.contains(f)]
            transport::not_involving(flights, node).contains(f) <==> flights.contains(f) && f.from
                != node && f.to != node,
    decreases flights.len(),
{
    let kept = transport::not_involving(flights, node);
    if flights.len() > 0 {
        let init = flights.drop_last();
        let rest = transport::not_involving(init, node);
        crash_loses_the_nodes_messages(init, node);
        assert forall|f: Flight|
            #![trigger flights.contains(f)]
            kept.contains(f) <==> flights.contains(f) && f.from != node && f.to != node by {
            assert(init.contains(f) ==> flights.contains(f)) by {
                if init.contains(f) {
                    let k = choose|k: int| 0 <= k < init.len() && init[k] == f;
                    assert(flights[k] == f);
                }
            }
            if flights.contains(f) && f != flights.last() {
                let k = choose|k: int| 0 <= k < flights.len() && flights[k] == f;
                assert(init[k] == f);
            }
            if f == flights.last() {
                assert(flights[flights.len() - 1] == f);
            }
            if kept.contains(f) {
                let k = choose|k: int| 0 <= k < kept.len() && kept[k] == f;
                if k < rest.len() {
                    assert(rest[k] == f);
                    assert(init.contains(f));
                }
            }
            if rest.contains(f) {
                let k = choose|k: int| 0 <= k < rest.len() && rest[k] == f;
                assert(kept[k] == f);
            }
            if f == flights.last() && f.from != node && f.to != node {
                assert(kept[kept.len() - 1] == f);
            }
        }
    }
}

/// A message without further delay arrives one tick after it was sent, and each tick of delay
/// adds one, as long as ticks can be counted.
pub proof fn delay_adds_to_the_latency(tick: u64, extra: usize)
    ensures
        tick + 1 + extra <= u64::MAX ==> transport::arrival(tick, extra) == tick + 1 + extra,
        tick + 1 + extra > u64::MAX ==> transport::arrival(tick, extra) == u64::MAX,
{
}

/// What happens to each message in transit at a tick: it is delivered if it is due and holds a
/// message, found corrupted if it is due and holds none, and waits if it is not due; in each case
/// once, and in the order in which it was sent.
pub proof fn due_messages_are_sorted_out(flights: Seq<Flight>, tick: u64)
    ensures
        ({
            let due = |f: Flight| f.deliver_at_tick <= tick && transport::holds_message(f.data);
            let broken = |f: Flight|
                f.deliver_at_tick <= tick && !transport::holds_message(f.data);
            let delivered = transport::delivered_of(flights, tick);
            let corrupted = transport::corrupted_of(flights, tick);
            &&& transport::waiting_of(flights, tick) == flights.filter(
                |f: Flight| f.deliver_at_tick > tick,
            )
            &&& delivered.len() == flights.filter(due).len()
            &&& forall|i: int|
                0 <= i < delivered.len() ==> {
                    let f = flights.filter(due)[i];
                    &&& (#[trigger] delivered[i]).from == f.from
                    &&& delivered[i].to == f.to
                    &&& codec::wire_bytes(delivered[i].message).is_prefix_of(f.data)
                }
            &&& corrupted.len() == flights.filter(broken).len()
            &&& forall|i: int|
                0 <= i < corrupted.len() ==> {
                    let f = flights.filter(broken)[i];
                    (#[trigger] corrupted[i]).from == f.from && corrupted[i].to == f.to
                }
        }),
    decreases flights.len(),
{
    reveal(Seq::filter);
    if flights.len() > 0 {
        let rest = flights.drop_last();
        let last = flights.last();
        due_messages_are_sorted_out(rest, tick);
        let due = |f: Flight| f.deliver_at_tick <= tick && transport::holds_message(f.data);
        let broken = |f: Flight| f.deliver_at_tick <= tick && !transport::holds_message(f.data);
        let (d0, d1) = (
            transport::delivered_of(rest, tick),
            transport::delivered_of(flights, tick),
        );
        let (c0, c1) = (
            transport::corrupted_of(rest, tick),
            transport::corrupted_of(flights, tick),
        );
        assert(transport::waiting_of(flights, tick) =~= flights.filter(
            |f: Flight| f.deliver_at_tick > tick,
        ));
        assert forall|i: int| 0 <= i < d1.len() implies {
            let f = flights.filter(due)[i];
            &&& (#[trigger] d1[i]).from == f.from
            &&& d1[i].to == f.to
            &&& codec::wire_bytes(d1[i].message).is_prefix_of(f.data)
        } by {
            if i < d0.len() {
                assert(d1[i] == d0[i]);
                assert(flights.filter(due)[i] == rest.filter(due)[i]);
            }
        }
        assert forall|i: int| 0 <= i < c1.len() implies {
            let f = flights.filter(broken)[i];
            (#[trigger] c1[i]).from == f.from && c1[i].to == f.to
        } by {
            if i < c0.len() {
                assert(c1[i] == c0[i]);
                assert(flights.filter(broken)[i] == rest.filter(broken)[i]);
            }
        }
    }
}

/// A hard crash takes out of transit exactly the messages from and to the node.
pub proof fn crash_takes_its_own_messages_only(flights: Seq<Flight>, node: NodeId)
    ensures
        transport::not_involving(flights, node) == flights.filter(
            |f: Flight| f.from != node && f.to != node,
        ),
    decreases flights.len(),
{
    reveal(Seq::filter);
    if flights.len() > 0 {
        crash_takes_its_own_messages_only(flights.drop_last(), node);
    }
}

/// What one interceptor says on one byte string decides what goes on to the next: the bytes that
/// it lets through, all copies that it makes, or nothing; and what is held back, with its delay.
pub proof fn verdict_decides_what_goes_on(verdict: Verdict)
    ensures
        ({
            let on = transport::passed_on(seq![verdict]);
            let held = transport::held_back(seq![verdict]);
            match verdict {
                Verdict::Deliver(bytes) => on == seq![bytes] && held.len() == 0,
                Verdict::DeliverMany(copies) => on == copies && held.len() == 0,
                Verdict::Drop => on.len() == 0 && held.len() == 0,
                Verdict::Delay { bytes, ticks } => on.len() == 0 && held == seq![(bytes, ticks)],
            }
        }),
{
    reveal_with_fuel(transport::passed_on, 2);
    reveal_with_fuel(transport::held_back, 2);
    assert(seq![verdict].drop_last() =~= Seq::<Verdict>::empty());
    let on = transport::passed_on(seq![verdict]);
    match verdict {
        Verdict::Deliver(bytes) => {
            assert(on =~= seq![bytes]);
        },
        Verdict::DeliverMany(copies) => {
            assert(on =~= copies);
        },
        Verdict::Drop => {},
        Verdict::Delay { bytes, ticks } => {
            assert(transport::held_back(seq![verdict]) =~= seq![(bytes, ticks)]);
        },
    }
}

/// What several byte strings become is what each of them becomes, in order.
pub proof fn verdicts_add_up(first: Seq<Verdict>, second: Seq<Verdict>)
    ensures
        transport::passed_on(first + second) == transport::passed_on(first) + transport::passed_on(
            second,
        ),
        transport::held_back(first + second) == transport::held_back(first) + transport::held_back(
            second,
        ),
    decreases second.len(),
{
    if second.len() == 0 {
        assert(first + second =~= first);
        assert(transport::passed_on(first) + transport::passed_on(second)
            =~= transport::passed_on(first));
        assert(transport::held_back(first) + transport::held_back(second)
            =~= transport::held_back(first));
    } else {
        verdicts_add_up(first, second.drop_last());
        assert((first + second).drop_last() =~= first + second.drop_last());
        assert((first + second).last() == second.last());
        assert(transport::passed_on(first + second) =~= transport::passed_on(first)
            + transport::passed_on(second));
        assert(transport::held_back(first + second) =~= transport::held_back(first)
            + transport::held_back(second));
    }
}

/// Behind one interceptor a message is in transit as that interceptor says: as it is let through
/// or in all its copies, to arrive at the next tick; not at all; or held back for so many ticks
/// more. The interceptor is asked once, about this message, in the transport's current state,
/// and the message is counted whatever becomes of it.
pub proof fn one_interceptor_decides(
    t0: TransportModel,
    t1: TransportModel,
    from: NodeId,
    to: NodeId,
    data: Seq<u8>,
) -> (verdict: Verdict)
    requires
        t0.pipeline.len == 1,
        transport::sends(t0, t1, from, to, data),
    ensures
        (t0.pipeline.allows)(
            0,
            Question {
                from,
                to,
                bytes: data,
                context: InterceptContext {
                    current_tick: t0.current_tick,
                    message_id: t0.message_counter,
                    rng_seed: t0.rng_seed,
                },
            },
            verdict,
        ),
        t1.pipeline == t0.pipeline,
        t1.current_tick == t0.current_tick,
        t1.rng_seed == t0.rng_seed,
        t0.message_counter < u64::MAX ==> t1.message_counter == t0.message_counter + 1,
        ({
            let arriving = |bytes: Seq<u8>, ticks: int|
                Flight {
                    from,
                    to,
                    data: bytes,
                    deliver_at_tick: if t0.current_tick + 1 + ticks > u64::MAX {
                        u64::MAX
                    } else {
                        (t0.current_tick + 1 + ticks) as u64
                    },
                };
            match verdict {
                Verdict::Deliver(bytes) => t1.in_flight == t0.in_flight.push(arriving(bytes, 0)),
                Verdict::DeliverMany(copies) => t1.in_flight == t0.in_flight + Seq::new(
                    copies.len(),
                    |i: int| arriving(copies[i], 0),
                ),
                Verdict::Drop => t1.in_flight == t0.in_flight,
                Verdict::Delay { bytes, ticks } => t1.in_flight == t0.in_flight.push(
                    arriving(bytes, ticks as int),
                ),
            }
        }),
{
    let stages = stages_of(t0, t1, from, to, data);
    reveal_with_fuel(transport::stages_answer, 2);
    reveal_with_fuel(transport::held_by_stages, 2);
    assert(stages.drop_last() =~= Seq::<Seq<Verdict>>::empty());
    let verdicts = stages.last();
    assert(verdicts.len() == 1);
    let verdict = verdicts[0];
    assert(verdicts =~= seq![verdict]);
    verdict_decides_what_goes_on(verdict);
    assert(transport::held_by_stages(stages) =~= transport::held_back(verdicts));
    let arriving = |bytes: Seq<u8>, ticks: int|
        Flight {
            from,
            to,
            data: bytes,
            deliver_at_tick: if t0.current_tick + 1 + ticks > u64::MAX {
                u64::MAX
            } else {
                (t0.current_tick + 1 + ticks) as u64
            },
        };
    match verdict {
        Verdict::Deliver(bytes) => {
            assert(t1.in_flight =~= t0.in_flight.push(arriving(bytes, 0)));
        },
        Verdict::DeliverMany(copies) => {
            assert(t1.in_flight =~= t0.in_flight + Seq::new(
                copies.len(),
                |i: int| arriving(copies[i], 0),
            ));
        },
        Verdict::Drop => {
            assert(t1.in_flight =~= t0.in_flight);
        },
        Verdict::Delay { bytes, ticks } => {
            assert(t1.in_flight =~= t0.in_flight.push(arriving(bytes, ticks as int)));
        },
    }
    verdict
}

/// How a message gets through a pipeline of any length: the first interceptor is asked about the
/// message, each other about every byte string that the one before it let through, in order, all
/// with the same sender, target and context. What any of them holds back, and what the last lets
/// through, is in transit.
pub proof fn each_interceptor_sees_what_the_last_let_through(
    t0: TransportModel,
    t1: TransportModel,
    from: NodeId,
    to: NodeId,
    data: Seq<u8>,
) -> (stages: Seq<Seq<Verdict>>)
    requires
        t0.pipeline.len > 0,
        transport::sends(t0, t1, from, to, data),
    ensures
        stages.len() == t0.pipeline.len,
        forall|k: int|
            0 <= k < stages.len() ==> {
                let reached = if k == 0 {
                    seq![data]
                } else {
                    transport::passed_on(stages[k - 1])
                };
                &&& (#[trigger] stages[k]).len() == reached.len()
                &&& forall|j: int|
                    0 <= j < reached.len() ==> (t0.pipeline.allows)(
                        k,
                        Question { from, to, bytes: reached[j], context: t0.context() },
                        #[trigger] stages[k][j],
                    )
            },
        ({
            let through = transport::passed_on(stages[stages.len() - 1]);
            let held = transport::held_by_stages(stages);
            let n = t0.in_flight.len();
            &&& t1.in_flight.len() == n + held.len() + through.len()
            &&& t0.in_flight.is_prefix_of(t1.in_flight)
            &&& forall|i: int|
                0 <= i < held.len() ==> {
                    let f = #[trigger] t1.in_flight[n + i];
                    f.from == from && f.to == to && f.data == held[i].0 && f.deliver_at_tick
                        == transport::arrival(t0.current_tick, held[i].1)
                }
            &&& forall|i: int|
                0 <= i < through.len() ==> {
                    let f = #[trigger] t1.in_flight[n + held.len() + i];
                    f.from == from && f.to == to && f.data == through[i] && f.deliver_at_tick
                        == transport::arrival(t0.current_tick, 0)
                }
        }),
{
    let stages = stages_of(t0, t1, from, to, data);
    lemma_unrolled(t0, from, to, data, stages);
    stages
}

/// The verdicts of a pipeline, stage by stage.
proof fn lemma_unrolled(
    t: TransportModel,
    from: NodeId,
    to: NodeId,
    data: Seq<u8>,
    stages: Seq<Seq<Verdict>>,
)
    requires
        transport::stages_answer(t.pipeline, from, to, t.context(), data, stages),
    ensures
        forall|k: int|
            0 <= k < stages.len() ==> {
                let reached = if k == 0 {
                    seq![data]
                } else {
                    transport::passed_on(stages[k - 1])
                };
                &&& (#[trigger] stages[k]).len() == reached.len()
                &&& forall|j: int|
                    0 <= j < reached.len() ==> (t.pipeline.allows)(
                        k,
                        Question { from, to, bytes: reached[j], context: t.context() },
                        #[trigger] stages[k][j],
                    )
            },
    decreases stages.len(),
{
    if stages.len() > 0 {
        let rest = stages.drop_last();
        lemma_unrolled(t, from, to, data, rest);
        assert forall|k: int| 0 <= k < stages.len() implies {
            let reached = if k == 0 {
                seq![data]
            } else {
                transport::passed_on(stages[k - 1])
            };
            &&& (#[trigger] stages[k]).len() == reached.len()
            &&& forall|j: int|
                0 <= j < reached.len() ==> (t.pipeline.allows)(
                    k,
                    Question { from, to, bytes: reached[j], context: t.context() },
                    #[trigger] stages[k][j],
                )
        } by {
            if k < rest.len() {
                assert(rest[k] == stages[k]);
                if k > 0 {
                    assert(rest[k - 1] == stages[k - 1]);
                }
            } else {
                assert(stages.last() == stages[k]);
                if k > 0 {
                    assert(rest.last() == stages[k - 1]);
                }
            }
        }
    }
}

/// What is held back comes in the order of the pipeline: what an earlier interceptor holds stands
/// before what a later one does.
pub proof fn earlier_holds_stand_first(stages: Seq<Seq<Verdict>>, verdicts: Seq<Verdict>)
    ensures
        transport::held_by_stages(Seq::<Seq<Verdict>>::empty()).len() == 0,
        transport::held_by_stages(stages.push(verdicts)) == transport::held_by_stages(stages)
            + transport::held_back(verdicts),
{
    assert(stages.push(verdicts).drop_last() =~= stages);
}

} // verus!
