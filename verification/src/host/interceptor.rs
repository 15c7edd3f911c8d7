//! Interceptors that inject faults into an in-process transport.
use vstd::prelude::*;

use crate::sim::interceptor;
use crate::types::node::NodeId;
use crate::types::time::Duration;

verus! {

/// Result of intercepting a message in the transport layer.
#[derive(Debug)]
pub enum InterceptResult {
    /// Deliver the message normally.
    Deliver(Vec<u8>),
    /// Drop the message silently.
    Drop,
    /// Delay delivery by the specified duration.
    Delay(Vec<u8>, Duration),
}

/// What an [`InterceptResult`] says.
pub enum Ruling {
    Deliver(Seq<u8>),
    Drop,
    Delay(Seq<u8>, Duration),
}

impl View for InterceptResult {
    type V = Ruling;

    open spec fn view(&self) -> Ruling {
        match *self {
            InterceptResult::Deliver(data) => Ruling::Deliver(data@),
            InterceptResult::Drop => Ruling::Drop,
            InterceptResult::Delay(data, by) => Ruling::Delay(data@, by),
        }
    }
}

/// What an interceptor is asked about: the bytes that reach it, on their way between two nodes.
pub struct Question {
    pub from: NodeId,
    pub to: NodeId,
    pub bytes: Seq<u8>,
}

/// Trait for fault-injection interceptors on the in-process transport.
pub trait Interceptor: Send + Sync {
    /// What the interceptor remembers between messages.
    open spec fn memory(&self) -> int {
        0
    }

    /// The rule of the interceptor: asked `question` with `before` in its memory, it may answer
    /// `ruling` and then remember `after`. One that declares no rule may answer anything.
    open spec fn may_answer(
        &self,
        question: Question,
        before: int,
        ruling: Ruling,
        after: int,
    ) -> bool {
        true
    }

    /// Decide what becomes of a message on its way from `from` to `to`.
    fn intercept(&mut self, from: NodeId, to: NodeId, data: Vec<u8>) -> (r: InterceptResult)
        ensures
            old(self).may_answer(
                Question { from, to, bytes: data@ },
                old(self).memory(),
                r@,
                final(self).memory(),
            ),
            forall|question: Question, before: int, ruling: Ruling, after: int| #[trigger]
                final(self).may_answer(question, before, ruling, after) == old(self).may_answer(
                    question,
                    before,
                    ruling,
                    after,
                ),
    ;
}

/// The interceptors of a transport, in the order in which a message meets them: how many they
/// are, what the one at each place may answer, and what it remembers.
pub struct Pipeline {
    pub len: nat,
    pub allows: spec_fn(int, Question, int, Ruling, int) -> bool,
    pub memory: spec_fn(int) -> int,
}

impl Pipeline {
    /// This is `before` with one more interceptor behind the others.
    pub open spec fn extends(self, before: Self) -> bool {
        &&& self.len == before.len + 1
        &&& forall|k: int, question: Question, m0: int, ruling: Ruling, m1: int|
            0 <= k < before.len ==> #[trigger] (self.allows)(k, question, m0, ruling, m1) == (
            before.allows)(k, question, m0, ruling, m1)
        &&& forall|k: int|
            0 <= k < before.len ==> #[trigger] (self.memory)(k) == (before.memory)(k)
    }
}

/// Drops every message unconditionally.
#[derive(Debug, Clone, Copy, PartialEq, Eq, Structural)]
pub struct DropAll;

impl Interceptor for DropAll {
    open spec fn memory(&self) -> int {
        0
    }

    open spec fn may_answer(
        &self,
        question: Question,
        before: int,
        ruling: Ruling,
        after: int,
    ) -> bool {
        after == before && ruling == Ruling::Drop
    }

    fn intercept(&mut self, _from: NodeId, _to: NodeId, _data: Vec<u8>) -> (r: InterceptResult)
        ensures
            r@ == Ruling::Drop,
    {
        InterceptResult::Drop
    }
}

/// The number after `x` in the sequence of a linear congruential generator (Knuth's MMIX).
pub open spec fn next_in_sequence(x: u64) -> u64 {
    interceptor::wrapping_sum(
        interceptor::wrapping_product(x, 6_364_136_223_846_793_005),
        1_442_695_040_888_963_407,
    )
}

/// Computes the number after `x` in the sequence of the generator.
pub fn next_u64(x: u64) -> (next: u64)
    ensures
        next == next_in_sequence(x),
{
    x.wrapping_mul(6_364_136_223_846_793_005).wrapping_add(1_442_695_040_888_963_407)
}

/// Drops a pseudo-random share of the messages: those at which the generator gives a number
/// below a threshold.
#[derive(Debug, Clone, Copy, PartialEq, Eq, Structural)]
pub struct DropRate {
    threshold: u64,
    state: u64,
}

impl DropRate {
    /// Below which number messages are dropped.
    pub closed spec fn limit(&self) -> u64 {
        self.threshold
    }

    /// Where the generator stands.
    pub closed spec fn state(&self) -> u64 {
        self.state
    }

    /// Drops the messages at which the generator, started at `seed`, gives a number below
    /// `threshold`.
    pub fn with_threshold(threshold: u64, seed: u64) -> (d: Self)
        ensures
            d.limit() == threshold,
            d.state() == seed,
    {
        DropRate { threshold, state: seed }
    }
}

impl Interceptor for DropRate {
    open spec fn memory(&self) -> int {
        self.state() as int
    }

    open spec fn may_answer(
        &self,
        question: Question,
        before: int,
        ruling: Ruling,
        after: int,
    ) -> bool {
        &&& after == next_in_sequence(before as u64)
        &&& ruling == if after < self.limit() {
            Ruling::Drop
        } else {
            Ruling::Deliver(question.bytes)
        }
    }

    fn intercept(&mut self, _from: NodeId, _to: NodeId, data: Vec<u8>) -> (r: InterceptResult)
        ensures
            final(self).limit() == old(self).limit(),
            final(self).state() == next_in_sequence(old(self).state()),
            r@ == if final(self).state() < old(self).limit() {
                Ruling::Drop
            } else {
                Ruling::Deliver(data@)
            },
    {
        self.state = next_u64(self.state);
        if self.state < self.threshold {
            InterceptResult::Drop
        } else {
            InterceptResult::Deliver(data)
        }
    }
}

/// Drops messages that cross the partition boundary between two groups (both directions).
#[derive(Debug)]
pub struct Partition {
    pub group_a: Vec<NodeId>,
    pub group_b: Vec<NodeId>,
}

impl Partition {
    /// A partition between two groups.
    pub fn new(group_a: Vec<NodeId>, group_b: Vec<NodeId>) -> (p: Self)
        ensures
            p.group_a == group_a,
            p.group_b == group_b,
    {
        Partition { group_a, group_b }
    }

    /// Whether a message from `from` to `to` crosses the boundary.
    pub open spec fn separates(&self, from: NodeId, to: NodeId) -> bool {
        (self.group_a@.contains(from) && self.group_b@.contains(to)) || (self.group_b@.contains(
            from,
        ) && self.group_a@.contains(to))
    }
}

impl Interceptor for Partition {
    open spec fn memory(&self) -> int {
        0
    }

    open spec fn may_answer(
        &self,
        question: Question,
        before: int,
        ruling: Ruling,
        after: int,
    ) -> bool {
        &&& after == before
        &&& ruling == if self.separates(question.from, question.to) {
            Ruling::Drop
        } else {
            Ruling::Deliver(question.bytes)
        }
    }

    fn intercept(&mut self, from: NodeId, to: NodeId, data: Vec<u8>) -> (r: InterceptResult)
        ensures
            *final(self) == *old(self),
            r@ == if old(self).separates(from, to) {
                Ruling::Drop
            } else {
                Ruling::Deliver(data@)
            },
    {
        let crosses = (interceptor::holds(&self.group_a, from) && interceptor::holds(
            &self.group_b,
            to,
        )) || (interceptor::holds(&self.group_b, from) && interceptor::holds(&self.group_a, to));
        if crosses {
            InterceptResult::Drop
        } else {
            InterceptResult::Deliver(data)
        }
    }
}

/// Delays every message by a fixed duration.
#[derive(Debug, Clone, Copy, PartialEq, Eq, Structural)]
pub struct DelayAll {
    pub delay: Duration,
}

impl DelayAll {
    /// Delays by `delay`.
    pub fn new(delay: Duration) -> (d: Self)
        ensures
            d.delay == delay,
    {
        DelayAll { delay }
    }
}

impl Interceptor for DelayAll {
    open spec fn memory(&self) -> int {
        0
    }

    open spec fn may_answer(
        &self,
        question: Question,
        before: int,
        ruling: Ruling,
        after: int,
    ) -> bool {
        after == before && ruling == Ruling::Delay(question.bytes, self.delay)
    }

    fn intercept(&mut self, _from: NodeId, _to: NodeId, data: Vec<u8>) -> (r: InterceptResult)
        ensures
            *final(self) == *old(self),
            r@ == Ruling::Delay(data@, old(self).delay),
    {
        InterceptResult::Delay(data, self.delay)
    }
}

/// Flips a pseudo-random bit in the payload to simulate corruption.
#[derive(Debug, Clone, Copy, PartialEq, Eq, Structural)]
pub struct CorruptBytes {
    state: u64,
}

/// `data` with the bit flipped that `r` chooses: its upper half the byte, its lowest three bits
/// the bit.
pub open spec fn damaged(data: Seq<u8>, r: u64) -> Seq<u8> {
    interceptor::flipped(data, ((r >> 32u64) as usize) as int % data.len() as int, (r & 7u64) as u8)
}

impl CorruptBytes {
    /// Where the generator stands.
    pub closed spec fn state(&self) -> u64 {
        self.state
    }

    /// Chooses the bits by a generator started at `seed`.
    pub fn new(seed: u64) -> (c: Self)
        ensures
            c.state() == seed,
    {
        CorruptBytes { state: seed }
    }
}

impl Interceptor for CorruptBytes {
    open spec fn memory(&self) -> int {
        self.state() as int
    }

    open spec fn may_answer(
        &self,
        question: Question,
        before: int,
        ruling: Ruling,
        after: int,
    ) -> bool {
        if question.bytes.len() == 0 {
            after == before && ruling == Ruling::Deliver(question.bytes)
        } else {
            &&& after == next_in_sequence(before as u64)
            &&& ruling == Ruling::Deliver(damaged(question.bytes, after as u64))
        }
    }

    fn intercept(&mut self, _from: NodeId, _to: NodeId, data: Vec<u8>) -> (r: InterceptResult)
        ensures
            data@.len() == 0 ==> *final(self) == *old(self) && r@ == Ruling::Deliver(data@),
            data@.len() > 0 ==> final(self).state() == next_in_sequence(old(self).state()) && r@
                == Ruling::Deliver(damaged(data@, final(self).state())),
    {
        if data.len() == 0 {
            return InterceptResult::Deliver(data);
        }
        self.state = next_u64(self.state);
        let r = self.state;
        let mut data = data;
        let byte_idx = (r >> 32u64) as usize % data.len();
        let bit_idx = (r & 7u64) as u8;
        assert((r & 7u64) < 8) by (bit_vector);
        let flipped = data[byte_idx] ^ (1u8 << bit_idx);
        data.set(byte_idx, flipped);
        InterceptResult::Deliver(data)
    }
}

/// Whichever number the generator gives, the damage is one flipped bit: one byte differs, and
/// the same damage done again restores the message.
pub proof fn damage_is_one_bit(data: Seq<u8>, r: u64)
    requires
        data.len() > 0,
    ensures
        damaged(data, r).len() == data.len(),
        damaged(data, r) != data,
        damaged(damaged(data, r), r) == data,
{
    assert((r & 7u64) < 8) by (bit_vector);
    let index = ((r >> 32u64) as usize) as int % data.len() as int;
    interceptor::flip_changes_one_byte_and_is_undone(data, index, (r & 7u64) as u8);
}

/// A partition cuts both ways, and never within a group alone.
pub proof fn partition_cuts_both_ways(p: Partition, from: NodeId, to: NodeId)
    ensures
        p.separates(from, to) == p.separates(to, from),
        p.separates(from, to) ==> (p.group_a@.contains(from) || p.group_a@.contains(to)) && (
        p.group_b@.contains(from) || p.group_b@.contains(to)),
{
}

/// The rules of the interceptors, each said of what it does to a message: all are dropped; none
/// but those across the boundary; all are delayed by the same span, as they are; those are
/// dropped at which the generator falls below the threshold; one bit is flipped. Only those with
/// a generator remember anything, and they move it on with each message.
pub proof fn faults_do_what_they_are_named_for(
    question: Question,
    before: int,
    ruling: Ruling,
    after: int,
    drop_all: DropAll,
    partition: Partition,
    delay: DelayAll,
    rate: DropRate,
    corrupt: CorruptBytes,
)
    requires
        0 <= before <= u64::MAX,
    ensures
        drop_all.may_answer(question, before, ruling, after) ==> ruling is Drop && after == before,
        partition.may_answer(question, before, ruling, after) ==> {
            let a = partition.group_a@;
            let b = partition.group_b@;
            let crosses = a.contains(question.from) && b.contains(question.to) || b.contains(
                question.from,
            ) && a.contains(question.to);
            &&& after == before
            &&& crosses ==> ruling is Drop
            &&& !crosses ==> ruling == Ruling::Deliver(question.bytes)
        },
        delay.may_answer(question, before, ruling, after) ==> after == before && ruling
            == Ruling::Delay(question.bytes, delay.delay),
        rate.may_answer(question, before, ruling, after) ==> {
            &&& after == (before * 6_364_136_223_846_793_005 + 1_442_695_040_888_963_407)
                % 0x1_0000_0000_0000_0000
            &&& after < rate.limit() ==> ruling is Drop
            &&& after >= rate.limit() ==> ruling == Ruling::Deliver(question.bytes)
        },
        corrupt.may_answer(question, before, ruling, after) ==> {
            &&& question.bytes.len() == 0 ==> after == before && ruling == Ruling::Deliver(
                question.bytes,
            )
            &&& question.bytes.len() > 0 ==> {
                &&& after == (before * 6_364_136_223_846_793_005 + 1_442_695_040_888_963_407)
                    % 0x1_0000_0000_0000_0000
                &&& ruling is Deliver
                &&& ruling->Deliver_0.len() == question.bytes.len()
                &&& ruling->Deliver_0 != question.bytes
                &&& exists|i: int|
                    0 <= i < question.bytes.len() && ruling->Deliver_0 == question.bytes.update(
                        i,
                        #[trigger] ruling->Deliver_0[i],
                    )
            }
        },
{
    assert((before * 6_364_136_223_846_793_005 + 1_442_695_040_888_963_407)
        % 0x1_0000_0000_0000_0000 == ((before * 6_364_136_223_846_793_005)
        % 0x1_0000_0000_0000_0000 + 1_442_695_040_888_963_407) % 0x1_0000_0000_0000_0000)
        by (nonlinear_arith);
    assert(next_in_sequence(before as u64) == (before * 6_364_136_223_846_793_005
        + 1_442_695_040_888_963_407) % 0x1_0000_0000_0000_0000);
    if question.bytes.len() > 0 && corrupt.may_answer(question, before, ruling, after) {
        let r = after as u64;
        damage_is_one_bit(question.bytes, r);
        let i = ((r >> 32u64) as usize) as int % question.bytes.len() as int;
        assert(ruling->Deliver_0 =~= question.bytes.update(i, ruling->Deliver_0[i]));
    }
}

} // verus!
