//! Network interceptors for simulating faults.
//!
//! Interceptors sit in the message pipeline between nodes and can drop,
//! delay, duplicate, or corrupt messages to test fault-tolerance.
use vstd::prelude::*;
use vstd::slice::*;

use crate::types::node::NodeId;

verus! {

/// Decision returned by a [`NetworkInterceptor`] for a message in transit.
#[derive(Debug)]
pub enum InterceptAction {
    /// Deliver the message (possibly modified bytes).
    Deliver(Vec<u8>),
    /// Drop the message silently.
    Drop,
    /// Hold the message for `ticks` ticks before delivery.
    Delay { bytes: Vec<u8>, ticks: usize },
    /// Deliver multiple copies (for duplication testing).
    DeliverMany(Vec<Vec<u8>>),
}

/// What an [`InterceptAction`] says.
pub enum Verdict {
    Deliver(Seq<u8>),
    Drop,
    Delay { bytes: Seq<u8>, ticks: usize },
    DeliverMany(Seq<Seq<u8>>),
}

/// The contents of a list of byte strings.
pub open spec fn contents(list: Seq<Vec<u8>>) -> Seq<Seq<u8>> {
    Seq::new(list.len(), |i: int| list[i]@)
}

impl View for InterceptAction {
    type V = Verdict;

    open spec fn view(&self) -> Verdict {
        match *self {
            InterceptAction::Deliver(bytes) => Verdict::Deliver(bytes@),
            InterceptAction::Drop => Verdict::Drop,
            InterceptAction::Delay { bytes, ticks } => Verdict::Delay { bytes: bytes@, ticks },
            InterceptAction::DeliverMany(copies) => Verdict::DeliverMany(contents(copies@)),
        }
    }
}

/// Context passed to interceptors for deterministic decisions.
#[derive(Debug, Clone, Copy, PartialEq, Eq, Structural)]
pub struct InterceptContext {
    /// Current simulation tick.
    pub current_tick: u64,
    /// Unique message identifier (monotonically increasing).
    pub message_id: u64,
    /// Seed for deterministic pseudo-random decisions.
    pub rng_seed: u64,
}

/// What an interceptor is asked about: a message on its way.
pub struct Question {
    pub from: NodeId,
    pub to: NodeId,
    pub bytes: Seq<u8>,
    pub context: InterceptContext,
}

/// Trait for intercepting messages in the simulated transport's pipeline.
///
/// Each interceptor sees every message and decides what to do with it.
/// Multiple interceptors can be chained; the output of one feeds the next.
pub trait NetworkInterceptor: Send {
    /// Whether the interceptor may give `verdict` on `question`, now or after other questions.
    /// One that declares no rule may give any.
    open spec fn may_answer(&self, question: Question, verdict: Verdict) -> bool {
        true
    }

    /// Inspect a message in transit and return an action controlling delivery.
    fn intercept(
        &mut self,
        from: NodeId,
        to: NodeId,
        msg_bytes: &[u8],
        context: &InterceptContext,
    ) -> (action: InterceptAction)
        ensures
            old(self).may_answer(
                Question { from, to, bytes: msg_bytes@, context: *context },
                action@,
            ),
            forall|question: Question, verdict: Verdict| #[trigger]
                final(self).may_answer(question, verdict) == old(self).may_answer(
                    question,
                    verdict,
                ),
    ;
}

/// What a pipeline of interceptors holds: how many there are, and which verdicts the one at each
/// place may give on a question.
pub struct Pipeline {
    pub len: nat,
    pub allows: spec_fn(int, Question, Verdict) -> bool,
}

impl Pipeline {
    /// The pipeline without interceptors.
    pub open spec fn empty() -> Self {
        Pipeline { len: 0, allows: |k: int, question: Question, verdict: Verdict| false }
    }

    /// This is `before` with one more interceptor behind the others.
    pub open spec fn extends(self, before: Self) -> bool {
        &&& self.len == before.len + 1
        &&& forall|k: int, question: Question, verdict: Verdict|
            0 <= k < before.len ==> #[trigger] (self.allows)(k, question, verdict) == (
            before.allows)(k, question, verdict)
    }
}

/// Delivers all messages unmodified.
#[derive(Debug, Clone, Copy, PartialEq, Eq, Structural)]
pub struct PassThrough;

impl NetworkInterceptor for PassThrough {
    open spec fn may_answer(&self, question: Question, verdict: Verdict) -> bool {
        verdict == Verdict::Deliver(question.bytes)
    }

    fn intercept(
        &mut self,
        _from: NodeId,
        _to: NodeId,
        msg_bytes: &[u8],
        _context: &InterceptContext,
    ) -> (action: InterceptAction)
        ensures
            action@ == Verdict::Deliver(msg_bytes@),
    {
        InterceptAction::Deliver(slice_to_vec(msg_bytes))
    }
}

/// Drops all messages (total network failure).
#[derive(Debug, Clone, Copy, PartialEq, Eq, Structural)]
pub struct DropAll;

impl NetworkInterceptor for DropAll {
    open spec fn may_answer(&self, question: Question, verdict: Verdict) -> bool {
        verdict == Verdict::Drop
    }

    fn intercept(
        &mut self,
        _from: NodeId,
        _to: NodeId,
        _msg_bytes: &[u8],
        _context: &InterceptContext,
    ) -> (action: InterceptAction)
        ensures
            action@ == Verdict::Drop,
    {
        InterceptAction::Drop
    }
}

/// Drops a deterministic share of the messages: those whose hash is below a threshold.
///
/// The hash of a message depends on the seed, the message and the tick.
#[derive(Debug, Clone, Copy, PartialEq, Eq, Structural)]
pub struct DropRate {
    threshold: u128,
    seed: u64,
}

impl DropRate {
    /// Below which hash messages are dropped.
    pub closed spec fn limit(&self) -> u128 {
        self.threshold
    }

    /// The seed of the hash.
    pub closed spec fn seed(&self) -> u64 {
        self.seed
    }

    /// Drops the messages whose 64-bit hash is below `threshold`: none for 0, all for 2 to the
    /// power of 64 and above.
    pub fn with_threshold(threshold: u128, seed: u64) -> (d: Self)
        ensures
            d.limit() == threshold,
            d.seed() == seed,
    {
        DropRate { threshold, seed }
    }
}

impl NetworkInterceptor for DropRate {
    open spec fn may_answer(&self, question: Question, verdict: Verdict) -> bool {
        verdict == if hash64(
            self.seed() ^ question.context.message_id ^ question.context.current_tick,
        ) < self.limit() {
            Verdict::Drop
        } else {
            Verdict::Deliver(question.bytes)
        }
    }

    fn intercept(
        &mut self,
        _from: NodeId,
        _to: NodeId,
        msg_bytes: &[u8],
        context: &InterceptContext,
    ) -> (action: InterceptAction)
        ensures
            *final(self) == *old(self),
            action@ == if hash64(old(self).seed() ^ context.message_id ^ context.current_tick)
                < old(self).limit() {
                Verdict::Drop
            } else {
                Verdict::Deliver(msg_bytes@)
            },
    {
        let hash = splitmix64(self.seed ^ context.message_id ^ context.current_tick);
        if (hash as u128) < self.threshold {
            InterceptAction::Drop
        } else {
            InterceptAction::Deliver(slice_to_vec(msg_bytes))
        }
    }
}

/// Whether `ids` holds `id`.
pub fn holds(ids: &Vec<NodeId>, id: NodeId) -> (b: bool)
    ensures
        b == ids@.contains(id),
{
    let mut i: usize = 0;
    while i < ids.len()
        invariant
            i <= ids@.len(),
            forall|j: int| 0 <= j < i ==> ids@[j] != id,
        decreases ids@.len() - i,
    {
        if ids[i] == id {
            assert(ids@[i as int] == id);
            return true;
        }
        i = i + 1;
    }
    false
}

/// Drops messages between two sets of nodes (network partition).
///
/// A symmetric partition drops messages in both directions, an asymmetric one only those from
/// the first set to the second.
#[derive(Debug)]
pub struct Partition {
    set_a: Vec<NodeId>,
    set_b: Vec<NodeId>,
    asymmetric: bool,
}

impl Partition {
    /// The nodes of the first set.
    pub closed spec fn side_a(&self) -> Seq<NodeId> {
        self.set_a@
    }

    /// The nodes of the second set.
    pub closed spec fn side_b(&self) -> Seq<NodeId> {
        self.set_b@
    }

    /// Whether messages from the second set to the first still pass.
    pub closed spec fn one_way(&self) -> bool {
        self.asymmetric
    }

    /// Whether the partition keeps messages from `from` from reaching `to`.
    pub open spec fn cuts(&self, from: NodeId, to: NodeId) -> bool {
        ||| self.side_a().contains(from) && self.side_b().contains(to)
        ||| !self.one_way() && self.side_b().contains(from) && self.side_a().contains(to)
    }

    /// Create a symmetric partition (A cannot reach B and B cannot reach A).
    pub fn symmetric(a: Vec<NodeId>, b: Vec<NodeId>) -> (p: Self)
        ensures
            p.side_a() == a@,
            p.side_b() == b@,
            !p.one_way(),
    {
        Partition { set_a: a, set_b: b, asymmetric: false }
    }

    /// Create an asymmetric partition (A cannot reach B, but B can reach A).
    pub fn asymmetric(a: Vec<NodeId>, b: Vec<NodeId>) -> (p: Self)
        ensures
            p.side_a() == a@,
            p.side_b() == b@,
            p.one_way(),
    {
        Partition { set_a: a, set_b: b, asymmetric: true }
    }
}

impl NetworkInterceptor for Partition {
    open spec fn may_answer(&self, question: Question, verdict: Verdict) -> bool {
        verdict == if self.cuts(question.from, question.to) {
            Verdict::Drop
        } else {
            Verdict::Deliver(question.bytes)
        }
    }

    fn intercept(
        &mut self,
        from: NodeId,
        to: NodeId,
        msg_bytes: &[u8],
        _context: &InterceptContext,
    ) -> (action: InterceptAction)
        ensures
            *final(self) == *old(self),
            action@ == if old(self).cuts(from, to) {
                Verdict::Drop
            } else {
                Verdict::Deliver(msg_bytes@)
            },
    {
        let a_to_b = holds(&self.set_a, from) && holds(&self.set_b, to);
        let b_to_a = holds(&self.set_b, from) && holds(&self.set_a, to);
        if a_to_b || (!self.asymmetric && b_to_a) {
            InterceptAction::Drop
        } else {
            InterceptAction::Deliver(slice_to_vec(msg_bytes))
        }
    }
}

/// A symmetric partition cuts off both directions between its sides, and an asymmetric one
/// only the first; messages within a side pass unless a node is on both.
pub proof fn partition_cuts_between_its_sides(p: Partition, x: NodeId, y: NodeId)
    ensures
        p.side_a().contains(x) && p.side_b().contains(y) ==> p.cuts(x, y) && (!p.one_way()
            ==> p.cuts(y, x)),
        !p.side_b().contains(x) && !p.side_b().contains(y) ==> !p.cuts(x, y),
        !p.side_a().contains(x) && !p.side_a().contains(y) ==> !p.cuts(x, y),
        p.one_way() && p.cuts(x, y) ==> p.side_a().contains(x) && p.side_b().contains(y),
{
}

/// Delays all messages by an additional number of ticks beyond the baseline
/// 1-tick latency. `DelayTicks(0)` behaves like normal delivery (1 tick).
/// `DelayTicks(3)` delivers after 4 ticks total (1 baseline + 3 extra).
#[derive(Debug, Clone, Copy, PartialEq, Eq, Structural)]
pub struct DelayTicks(pub usize);

impl NetworkInterceptor for DelayTicks {
    open spec fn may_answer(&self, question: Question, verdict: Verdict) -> bool {
        verdict == (Verdict::Delay { bytes: question.bytes, ticks: self.0 })
    }

    fn intercept(
        &mut self,
        _from: NodeId,
        _to: NodeId,
        msg_bytes: &[u8],
        _context: &InterceptContext,
    ) -> (action: InterceptAction)
        ensures
            *final(self) == *old(self),
            action@ == (Verdict::Delay { bytes: msg_bytes@, ticks: old(self).0 }),
    {
        InterceptAction::Delay { bytes: slice_to_vec(msg_bytes), ticks: self.0 }
    }
}

/// Delivers each message twice (duplication testing).
#[derive(Debug, Clone, Copy, PartialEq, Eq, Structural)]
pub struct DuplicateAll;

impl NetworkInterceptor for DuplicateAll {
    open spec fn may_answer(&self, question: Question, verdict: Verdict) -> bool {
        verdict == Verdict::DeliverMany(seq![question.bytes, question.bytes])
    }

    fn intercept(
        &mut self,
        _from: NodeId,
        _to: NodeId,
        msg_bytes: &[u8],
        _context: &InterceptContext,
    ) -> (action: InterceptAction)
        ensures
            action@ == Verdict::DeliverMany(seq![msg_bytes@, msg_bytes@]),
    {
        let mut copies: Vec<Vec<u8>> = Vec::new();
        copies.push(slice_to_vec(msg_bytes));
        copies.push(slice_to_vec(msg_bytes));
        assert(contents(copies@) =~= seq![msg_bytes@, msg_bytes@]);
        InterceptAction::DeliverMany(copies)
    }
}

/// Flips one bit in the serialized data, chosen by a deterministic hash.
#[derive(Debug, Clone, Copy, PartialEq, Eq, Structural)]
pub struct CorruptBytes {
    seed: u64,
}

/// `bytes` with the bit `bit` of the byte at `index` flipped.
pub open spec fn flipped(bytes: Seq<u8>, index: int, bit: u8) -> Seq<u8> {
    bytes.update(index, bytes[index] ^ (1u8 << bit))
}

/// `bytes` with the bit flipped that `hash` chooses; no bytes stay no bytes.
pub open spec fn corrupted(bytes: Seq<u8>, hash: u64) -> Seq<u8> {
    if bytes.len() == 0 {
        bytes
    } else {
        flipped(bytes, (hash as usize) as int % bytes.len() as int, ((hash >> 8u64) % 8) as u8)
    }
}

impl CorruptBytes {
    /// The seed of the hash.
    pub closed spec fn seed(&self) -> u64 {
        self.seed
    }

    /// Chooses the bits to flip from `seed`.
    pub fn new(seed: u64) -> (c: Self)
        ensures
            c.seed() == seed,
    {
        CorruptBytes { seed }
    }
}

impl NetworkInterceptor for CorruptBytes {
    open spec fn may_answer(&self, question: Question, verdict: Verdict) -> bool {
        verdict == Verdict::Deliver(
            corrupted(question.bytes, hash64(self.seed() ^ question.context.message_id)),
        )
    }

    fn intercept(
        &mut self,
        _from: NodeId,
        _to: NodeId,
        msg_bytes: &[u8],
        context: &InterceptContext,
    ) -> (action: InterceptAction)
        ensures
            *final(self) == *old(self),
            action@ == Verdict::Deliver(
                corrupted(msg_bytes@, hash64(old(self).seed() ^ context.message_id)),
            ),
    {
        let mut bytes = slice_to_vec(msg_bytes);
        if bytes.len() > 0 {
            let hash = splitmix64(self.seed ^ context.message_id);
            let index = (hash as usize) % bytes.len();
            let bit = ((hash >> 8u64) % 8) as u8;
            let value = bytes[index];
            bytes.set(index, value ^ (1u8 << bit));
        }
        InterceptAction::Deliver(bytes)
    }
}

/// Flipping a bit changes exactly one byte, and flipping it again restores the message.
pub proof fn flip_changes_one_byte_and_is_undone(bytes: Seq<u8>, index: int, bit: u8)
    requires
        0 <= index < bytes.len(),
        bit < 8,
    ensures
        flipped(bytes, index, bit).len() == bytes.len(),
        flipped(bytes, index, bit)[index] != bytes[index],
        forall|i: int|
            0 <= i < bytes.len() && i != index ==> flipped(bytes, index, bit)[i] == bytes[i],
        flipped(flipped(bytes, index, bit), index, bit) == bytes,
{
    let b = bytes[index];
    assert(b ^ (1u8 << bit) != b) by (bit_vector)
        requires
            bit < 8,
    ;
    assert((b ^ (1u8 << bit)) ^ (1u8 << bit) == b) by (bit_vector)
        requires
            bit < 8,
    ;
    assert(flipped(flipped(bytes, index, bit), index, bit) =~= bytes);
}

/// SplitMix64: a deterministic 64-bit hash.
pub open spec fn hash64(seed: u64) -> u64 {
    let a = wrapping_sum(seed, 0x9e3779b97f4a7c15);
    let b = wrapping_product(a ^ (a >> 30u64), 0xbf58476d1ce4e5b9);
    let c = wrapping_product(b ^ (b >> 27u64), 0x94d049bb133111eb);
    c ^ (c >> 31u64)
}

/// The sum modulo 2 to the power of 64.
pub open spec fn wrapping_sum(x: u64, y: u64) -> u64 {
    ((x + y) % 0x1_0000_0000_0000_0000) as u64
}

/// The product modulo 2 to the power of 64.
pub open spec fn wrapping_product(x: u64, y: u64) -> u64 {
    ((x * y) % 0x1_0000_0000_0000_0000) as u64
}

/// SplitMix64: fast deterministic hash function for seeded decisions.
pub fn splitmix64(seed: u64) -> (hash: u64)
    ensures
        hash == hash64(seed),
{
    let a = seed.wrapping_add(0x9e3779b97f4a7c15);
    let b = (a ^ (a >> 30u64)).wrapping_mul(0xbf58476d1ce4e5b9);
    let c = (b ^ (b >> 27u64)).wrapping_mul(0x94d049bb133111eb);
    c ^ (c >> 31u64)
}

/// The rules of the interceptors, each said of what it does to a message: it passes as it is; it
/// is dropped; it is dropped if its hash falls below the limit; it is dropped if it crosses the
/// partition in a direction that is cut; it is delayed as it is; it is doubled; one of its bytes
/// is changed.
pub proof fn faults_do_what_they_are_named_for(
    question: Question,
    verdict: Verdict,
    pass: PassThrough,
    drop_all: DropAll,
    rate: DropRate,
    partition: Partition,
    delay: DelayTicks,
    duplicate: DuplicateAll,
    corrupt: CorruptBytes,
)
    ensures
        pass.may_answer(question, verdict) ==> verdict == Verdict::Deliver(question.bytes),
        drop_all.may_answer(question, verdict) ==> verdict is Drop,
        rate.may_answer(question, verdict) ==> {
            let hash = hash64(
                rate.seed() ^ question.context.message_id ^ question.context.current_tick,
            );
            &&& hash < rate.limit() ==> verdict is Drop
            &&& hash >= rate.limit() ==> verdict == Verdict::Deliver(question.bytes)
        },
        partition.may_answer(question, verdict) ==> {
            let a = partition.side_a();
            let b = partition.side_b();
            let forth = a.contains(question.from) && b.contains(question.to);
            let back = b.contains(question.from) && a.contains(question.to);
            &&& forth || back && !partition.one_way() ==> verdict is Drop
            &&& !forth && (!back || partition.one_way()) ==> verdict == Verdict::Deliver(
                question.bytes,
            )
        },
        delay.may_answer(question, verdict) ==> verdict == (Verdict::Delay {
            bytes: question.bytes,
            ticks: delay.0,
        }),
        duplicate.may_answer(question, verdict) ==> {
            &&& verdict is DeliverMany
            &&& verdict->DeliverMany_0.len() == 2
            &&& verdict->DeliverMany_0[0] == question.bytes
            &&& verdict->DeliverMany_0[1] == question.bytes
        },
        corrupt.may_answer(question, verdict) ==> {
            &&& verdict is Deliver
            &&& verdict->Deliver_0.len() == question.bytes.len()
            &&& question.bytes.len() > 0 ==> verdict->Deliver_0 != question.bytes && exists|i: int|
                0 <= i < question.bytes.len() && verdict->Deliver_0 == question.bytes.update(
                    i,
                    #[trigger] verdict->Deliver_0[i],
                )
        },
{
    if corrupt.may_answer(question, verdict) && question.bytes.len() > 0 {
        let hash = hash64(corrupt.seed() ^ question.context.message_id);
        let i = (hash as usize) as int % question.bytes.len() as int;
        let bit = ((hash >> 8u64) % 8) as u8;
        flip_changes_one_byte_and_is_undone(question.bytes, i, bit);
        assert(verdict->Deliver_0 =~= question.bytes.update(i, verdict->Deliver_0[i]));
    }
}

} // verus!
