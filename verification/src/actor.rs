//! The Erlang process core as plain values: process identifiers and callback
//! handles.

use vstd::prelude::*;

verus! {

/// A process identifier (Erlang's pid).
#[derive(Clone, Copy, Debug, PartialEq, Eq, Structural, Hash, PartialOrd, Ord)]
pub struct Pid(pub u64);

/// A handle to a callback the caller passed into a service call: invoking it sends
/// the argument back to `to`, tagged with `cbref`.
pub struct Callback<A> {
    to: Pid,
    cbref: u64,
    _marker: core::marker::PhantomData<A>,
}

impl<A> Callback<A> {
    /// The process the callback's invocations travel to.
    pub closed spec fn spec_to(&self) -> Pid {
        self.to
    }

    /// The caller-side reference that tags each invocation.
    pub closed spec fn spec_cbref(&self) -> u64 {
        self.cbref
    }

    /// A handle that sends invocations to `to`, tagged with `cbref` (built by the
    /// service dispatch, not by application code).
    pub fn __new(to: Pid, cbref: u64) -> (c: Self)
        ensures
            c.spec_to() == to,
            c.spec_cbref() == cbref,
    {
        Callback { to, cbref, _marker: core::marker::PhantomData }
    }
}

} // verus!
