//! Buffering of suppressed view deltas.
use vstd::prelude::*;

verus! {

/// Buffer for accumulating suppressed view deltas.
///
/// When the sync logic decides to suppress a mutation, the caller pushes its delta into this
/// accumulator instead of broadcasting. On the next non-suppressed mutation it flushes the
/// buffer, and can combine what it held with the current delta.
#[derive(Debug)]
pub struct DeltaAccumulator<VD> {
    buffer: Vec<VD>,
}

impl<VD> View for DeltaAccumulator<VD> {
    type V = Seq<VD>;

    closed spec fn view(&self) -> Seq<VD> {
        self.buffer@
    }
}

impl<VD> DeltaAccumulator<VD> {
    /// An empty accumulator.
    pub fn new() -> (a: Self)
        ensures
            a@ == Seq::<VD>::empty(),
    {
        DeltaAccumulator { buffer: Vec::new() }
    }

    /// Add a suppressed delta behind those already buffered.
    pub fn accumulate(&mut self, delta: VD)
        ensures
            final(self)@ == old(self)@.push(delta),
    {
        self.buffer.push(delta);
    }

    /// Drain and return all accumulated deltas in the order of their accumulation, leaving the
    /// buffer empty. Returns `None` if no deltas have been accumulated.
    pub fn flush(&mut self) -> (deltas: Option<Vec<VD>>)
        ensures
            final(self)@ == Seq::<VD>::empty(),
            deltas is None <==> old(self)@.len() == 0,
            deltas matches Some(d) ==> d@ == old(self)@,
    {
        if self.buffer.len() == 0 {
            assert(self@ =~= Seq::<VD>::empty());
            None
        } else {
            let mut deltas: Vec<VD> = Vec::new();
            std::mem::swap(&mut deltas, &mut self.buffer);
            Some(deltas)
        }
    }

    /// Number of deltas currently buffered.
    pub fn len(&self) -> (n: usize)
        ensures
            n == self@.len(),
    {
        self.buffer.len()
    }

    /// Whether the buffer is empty.
    pub fn is_empty(&self) -> (b: bool)
        ensures
            b == (self@.len() == 0),
    {
        self.buffer.len() == 0
    }
}

} // verus!
