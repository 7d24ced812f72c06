//! Values that come from the machine rather than from the task data: the
//! local wall clock and fresh random identifiers.

use vstd::prelude::*;
use crate::task::Stamp;

verus! {

/// Relies on chrono's `Local::now().naive_local()`, read through
/// `and_utc().timestamp()` and `timestamp_subsec_nanos()`: the local wall-clock
/// time as whole seconds and nanoseconds; the nanoseconds stay below two
/// billion (a leap second runs past one billion). The clock may go backwards.
#[verifier::external_body]
pub(crate) fn local_now() -> (r: Stamp)
    ensures
        r.nanos < 2_000_000_000,
{
    let utc = chrono::Local::now().naive_local().and_utc();
    Stamp { secs: utc.timestamp(), nanos: utc.timestamp_subsec_nanos() }
}

/// Relies on uuid's `Uuid::new_v4` and `Uuid::as_u128`: a random version-4
/// identifier as its 128-bit big-endian value. Nothing is promised of it.
#[verifier::external_body]
pub(crate) fn fresh_id() -> (r: u128) {
    uuid::Uuid::new_v4().as_u128()
}

} // verus!
