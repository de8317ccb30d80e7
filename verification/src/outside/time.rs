//! Durations through std.

use vstd::prelude::*;

verus! {

/// The duration `Duration::from_secs(secs)` stands for: `secs` whole seconds.
pub uninterp spec fn secs_duration(secs: u64) -> core::time::Duration;

/// `Duration::from_secs`. Claims only the named result.
#[verifier::external_body]
pub(crate) fn duration_from_secs(secs: u64) -> (d: core::time::Duration)
    ensures
        d == secs_duration(secs),
{
    core::time::Duration::from_secs(secs)
}

} // verus!
