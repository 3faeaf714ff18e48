//! Plumbing types of the server: the three-way future choice, the body
//! adaptor and the PortAudio backend, which records nothing.
use vstd::prelude::*;
use std::marker::PhantomData;
use crate::decimal::{decimal, u64_to_decimal};

verus! {

/// One of three alternatives.
pub enum MyEither<A, B, C> {
    AA(A),
    BB(B),
    CC(C),
}

/// A response body adaptor that holds nothing of the body it adapts.
pub struct Test<R> {
    phantom: PhantomData<R>,
}

impl<R> Test<R> {
    /// An adaptor for a body like `r`.
    pub fn new(r: R) -> (t: Test<R>) {
        Test { phantom: PhantomData }
    }
}

/// The PortAudio backend, which records nothing.
pub struct PortaudioAudioBackend {}

/// The PortAudio recorder, which records nothing.
#[derive(Clone)]
pub struct PortaudioRecorder {}

impl PortaudioAudioBackend {
    /// The backend.
    pub fn new() -> (b: PortaudioAudioBackend) {
        PortaudioAudioBackend {}
    }

    /// A recorder of the backend; creating one always succeeds.
    pub fn new_recorder(&self) -> (r: Result<PortaudioRecorder, ()>)
        ensures
            r is Ok,
    {
        Ok(PortaudioRecorder {})
    }

    /// Listing the devices succeeds and lists nothing.
    pub fn query(&self) -> (r: Result<(), ()>)
        ensures
            r is Ok,
    {
        Ok(())
    }
}

impl PortaudioRecorder {
    /// Streaming a file through the recorder succeeds and plays nothing.
    pub fn stream_file(&self, path: String) -> (r: Result<(), ()>)
        ensures
            r is Ok,
    {
        Ok(())
    }

    /// Streaming the input device succeeds and records nothing.
    pub fn stream_input(&self) -> (r: Result<(), ()>)
        ensures
            r is Ok,
    {
        Ok(())
    }
}

/// The sum of two numbers as decimal text, as offered to Python.
pub fn sum_as_string(a: usize, b: usize) -> (s: String)
    requires
        a + b <= usize::MAX,
    ensures
        s@ == decimal((a + b) as nat),
{
    u64_to_decimal((a + b) as u64)
}

} // verus!
