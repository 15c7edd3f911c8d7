//! State types for tests: one whose view is the state itself, and the view and delta of one
//! with deltas.
use vstd::prelude::*;

use crate::codec;
use crate::traits::state::DistributedState;
use crate::types::errors::{DecodeFailure, DeserializeError};

verus! {

/// A simple test state where State == View (no projection).
#[derive(Debug)]
pub struct TestState {
    pub counter: u64,
    pub label: String,
}

impl TestState {
    /// The bytes of the state.
    pub open spec fn bytes(self) -> Seq<u8> {
        codec::pair_bytes(self.counter, self.label@)
    }

    /// `r` is what deserializing `bytes` of the given wire version yields: the state whose
    /// bytes they begin with, if the version is the current one and there is such a state.
    pub open spec fn decoded(
        bytes: Seq<u8>,
        wire_version: u32,
        r: Result<TestState, DeserializeError>,
    ) -> bool {
        match r {
            Ok(state) => wire_version == 1 && state.bytes().is_prefix_of(bytes),
            Err(e) => if wire_version != 1 {
                e@ == DecodeFailure::UnknownVersion(wire_version)
            } else {
                e@ == DecodeFailure::Malformed(codec::pair_error(bytes, usize::BITS)) && forall|
                    state: TestState,
                |
                    !(#[trigger] state.bytes()).is_prefix_of(bytes)
            },
        }
    }
}

impl Default for TestState {
    fn default() -> (s: Self)
        ensures
            s.counter == 0,
            s.label@ == Seq::<char>::empty(),
    {
        TestState { counter: 0, label: String::new() }
    }
}

impl Clone for TestState {
    fn clone(&self) -> (copy: Self)
        ensures
            copy == *self,
    {
        TestState { counter: self.counter, label: self.label.clone() }
    }
}

impl PartialEq for TestState {
    fn eq(&self, other: &Self) -> (b: bool) {
        self.counter == other.counter && self.label == other.label
    }
}

impl vstd::std_specs::cmp::PartialEqSpecImpl for TestState {
    open spec fn obeys_eq_spec() -> bool {
        true
    }

    open spec fn eq_spec(&self, other: &Self) -> bool {
        self.counter == other.counter && self.label@ == other.label@
    }
}

impl DistributedState for TestState {
    const WIRE_VERSION: u32 = 1;

    const STORAGE_VERSION: u32 = 1;

    fn name() -> (s: &'static str)
        ensures
            s@ == "test_state"@,
    {
        "test_state"
    }

    fn serialize_state(&self) -> (data: Vec<u8>)
        ensures
            data@ == self.bytes(),
    {
        codec::encode_pair(self.counter, self.label.as_str())
    }

    fn deserialize_state(bytes: &[u8], wire_version: u32) -> (r: Result<Self, DeserializeError>)
        ensures
            TestState::decoded(bytes@, wire_version, r),
    {
        if wire_version != Self::WIRE_VERSION {
            return Err(DeserializeError::unknown_version(wire_version));
        }
        match codec::decode_pair(bytes) {
            Ok(v) => Ok(TestState { counter: v.0, label: v.1 }),
            Err(e) => Err(DeserializeError::Malformed(e)),
        }
    }
}

/// The versions of the test state.
pub proof fn lemma_versions()
    ensures
        <TestState as DistributedState>::WIRE_VERSION == 1,
        <TestState as DistributedState>::STORAGE_VERSION == 1,
{
}

/// The public view of the delta-aware test state.
#[derive(Debug)]
pub struct TestDeltaView {
    pub counter: u64,
    pub label: String,
}

impl Clone for TestDeltaView {
    fn clone(&self) -> (copy: Self)
        ensures
            copy == *self,
    {
        TestDeltaView { counter: self.counter, label: self.label.clone() }
    }
}

impl PartialEq for TestDeltaView {
    fn eq(&self, other: &Self) -> (b: bool) {
        self.counter == other.counter && self.label == other.label
    }
}

impl vstd::std_specs::cmp::PartialEqSpecImpl for TestDeltaView {
    open spec fn obeys_eq_spec() -> bool {
        true
    }

    open spec fn eq_spec(&self, other: &Self) -> bool {
        self.counter == other.counter && self.label@ == other.label@
    }
}

/// Incremental view update.
#[derive(Debug)]
pub struct TestDeltaViewDelta {
    pub counter_delta: i64,
    pub new_label: Option<String>,
}

impl TestDeltaViewDelta {
    /// The new label's characters, if there is one.
    pub open spec fn label_text(self) -> Option<Seq<char>> {
        match self.new_label {
            Some(t) => Some(t@),
            None => None,
        }
    }

    /// The bytes of the delta.
    pub open spec fn bytes(self) -> Seq<u8> {
        codec::change_bytes(self.counter_delta, self.label_text())
    }
}

impl Clone for TestDeltaViewDelta {
    fn clone(&self) -> (copy: Self)
        ensures
            copy == *self,
    {
        TestDeltaViewDelta {
            counter_delta: self.counter_delta,
            new_label: match &self.new_label {
                Some(t) => Some(t.clone()),
                None => None,
            },
        }
    }
}

/// Marker for the delta-aware test state.
#[derive(Debug, Clone, Copy, PartialEq, Eq, Structural)]
pub struct TestDeltaState;

/// The number whose 64 bits in two's complement are those of `n`.
pub open spec fn signed(n: u64) -> int {
    if n <= i64::MAX {
        n as int
    } else {
        n - u64::MAX - 1
    }
}

/// Reads the bits of `n` as a signed number.
fn to_signed(n: u64) -> (i: i64)
    ensures
        i == signed(n),
{
    if n <= i64::MAX as u64 {
        n as i64
    } else {
        -((u64::MAX - n) as i64) - 1
    }
}

/// The bits of `i` read as an unsigned number.
fn from_signed(i: i64) -> (n: u64)
    ensures
        signed(n) == i,
{
    if i >= 0 {
        i as u64
    } else {
        u64::MAX - (-(i + 1)) as u64
    }
}

impl TestDeltaView {
    /// The bytes of the view.
    pub open spec fn bytes(self) -> Seq<u8> {
        codec::pair_bytes(self.counter, self.label@)
    }

    /// The view after a delta: the counter, read as a signed number, moved by the difference,
    /// the label replaced if there is a new one.
    pub fn apply(&self, delta: &TestDeltaViewDelta) -> (after: TestDeltaView)
        requires
            i64::MIN <= signed(self.counter) + delta.counter_delta <= i64::MAX,
        ensures
            signed(after.counter) == signed(self.counter) + delta.counter_delta,
            after.label@ == match delta.label_text() {
                Some(t) => t,
                None => self.label@,
            },
    {
        TestDeltaView {
            counter: from_signed(to_signed(self.counter) + delta.counter_delta),
            label: match &delta.new_label {
                Some(t) => t.clone(),
                None => self.label.clone(),
            },
        }
    }

    /// The view turned into bytes.
    pub fn serialize(&self) -> (data: Vec<u8>)
        ensures
            data@ == self.bytes(),
    {
        codec::encode_pair(self.counter, self.label.as_str())
    }

    /// The view at the start of `bytes`, which must be of wire version 1.
    pub fn deserialize(bytes: &[u8], wire_version: u32) -> (r: Result<Self, DeserializeError>)
        ensures
            match r {
                Ok(view) => wire_version == 1 && view.bytes().is_prefix_of(bytes@),
                Err(e) => if wire_version != 1 {
                    e@ == DecodeFailure::UnknownVersion(wire_version)
                } else {
                    e@ == DecodeFailure::Malformed(codec::pair_error(bytes@, usize::BITS)) && forall|
                        view: TestDeltaView,
                    |
                        !(#[trigger] view.bytes()).is_prefix_of(bytes@)
                },
            },
    {
        if wire_version != 1 {
            return Err(DeserializeError::unknown_version(wire_version));
        }
        match codec::decode_pair(bytes) {
            Ok(v) => Ok(TestDeltaView { counter: v.0, label: v.1 }),
            Err(e) => Err(DeserializeError::Malformed(e)),
        }
    }
}

impl TestDeltaViewDelta {
    /// The delta turned into bytes.
    pub fn serialize(&self) -> (data: Vec<u8>)
        ensures
            data@ == self.bytes(),
    {
        codec::encode_change(self.counter_delta, &self.new_label)
    }

    /// The delta at the start of `bytes`, which must be of wire version 1.
    pub fn deserialize(bytes: &[u8], wire_version: u32) -> (r: Result<Self, DeserializeError>)
        ensures
            match r {
                Ok(delta) => wire_version == 1 && delta.bytes().is_prefix_of(bytes@),
                Err(e) => if wire_version != 1 {
                    e@ == DecodeFailure::UnknownVersion(wire_version)
                } else {
                    e@ == DecodeFailure::Malformed(codec::change_error(bytes@, usize::BITS)) && forall|
                        delta: TestDeltaViewDelta,
                    |
                        !(#[trigger] delta.bytes()).is_prefix_of(bytes@)
                },
            },
    {
        if wire_version != 1 {
            return Err(DeserializeError::unknown_version(wire_version));
        }
        match codec::decode_change(bytes) {
            Ok(v) => Ok(TestDeltaViewDelta { counter_delta: v.0, new_label: v.1 }),
            Err(e) => Err(DeserializeError::Malformed(e)),
        }
    }
}

/// Decoding gives back what was encoded: the bytes of a state begin with those of no other.
pub proof fn decoded_state_is_the_encoded_one(sent: TestState, got: TestState)
    requires
        sent.bytes().len() <= u64::MAX,
        got.bytes().is_prefix_of(sent.bytes()),
    ensures
        got.counter == sent.counter,
        got.label@ == sent.label@,
{
    codec::pair_is_unique(
        (sent.counter, sent.label@),
        (got.counter, got.label@),
        sent.bytes(),
    );
}

/// Decoding gives back what was encoded: the bytes of a delta begin with those of no other.
pub proof fn decoded_delta_is_the_encoded_one(sent: TestDeltaViewDelta, got: TestDeltaViewDelta)
    requires
        sent.bytes().len() <= u64::MAX,
        got.bytes().is_prefix_of(sent.bytes()),
    ensures
        got.counter_delta == sent.counter_delta,
        got.label_text() == sent.label_text(),
{
    codec::change_is_unique(
        (sent.counter_delta, sent.label_text()),
        (got.counter_delta, got.label_text()),
        sent.bytes(),
    );
}

} // verus!
