//! The functions by which simulated nodes code test states.
use vstd::prelude::*;

use crate::engine;
use crate::test_support::test_state::TestState;
use crate::traits::state::DistributedState;
use crate::types::errors::DeserializeError;

verus! {

/// The functions of `codec` serialize and deserialize test states, and there are no deltas.
pub open spec fn codes_test_states<SV, DV, DA>(codec: (SV, DV, Option<DA>)) -> bool where
    SV: Fn(&TestState) -> Vec<u8>,
    DV: Fn(&[u8], u32) -> Result<TestState, DeserializeError>,
    DA: Fn(&[u8], u32, &TestState) -> Result<TestState, DeserializeError>,
 {
    &&& engine::total_codec::<TestState, SV, DV, DA>(codec)
    &&& forall|view: &TestState, data: Vec<u8>| #[trigger]
        call_ensures(codec.0, (view,), data) ==> data@ == view.bytes()
    &&& forall|bytes: &[u8], version: u32, r: Result<TestState, DeserializeError>| #[trigger]
        call_ensures(codec.1, (bytes, version), r) ==> TestState::decoded(bytes@, version, r)
    &&& codec.2 is None
}

/// The functions that serialize and deserialize test states.
pub fn test_codec() -> (codec: (
    impl Fn(&TestState) -> Vec<u8>,
    impl Fn(&[u8], u32) -> Result<TestState, DeserializeError>,
    Option<impl Fn(&[u8], u32, &TestState) -> Result<TestState, DeserializeError>>,
))
    ensures
        codes_test_states(codec),
{
    let serialize = |view: &TestState| -> (data: Vec<u8>)
        ensures
            data@ == view.bytes(),
        { view.serialize_state() };
    let deserialize = |bytes: &[u8], version: u32| -> (r: Result<TestState, DeserializeError>)
        ensures
            TestState::decoded(bytes@, version, r),
        { TestState::deserialize_state(bytes, version) };
    let apply = |bytes: &[u8], version: u32, view: &TestState| -> (r: Result<
        TestState,
        DeserializeError,
    >) { Err(DeserializeError::unknown_version(version)) };
    (serialize, deserialize, absent(apply))
}

/// No value of the type of `like`.
fn absent<T>(like: T) -> (r: Option<T>)
    ensures
        r is None,
{
    None
}

} // verus!
