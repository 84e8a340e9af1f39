//! Readings of a monotonic clock, as nanoseconds since an origin that the caller picks.

use vstd::prelude::*;

verus! {

/// Nanoseconds in a second.
pub const NANOS_PER_SEC: u128 = 1_000_000_000;

/// The time that has passed between the readings `since` and `now`, nothing if `now` is the
/// earlier of the two.
pub open spec fn elapsed_spec(since: nat, now: nat) -> nat {
    if since <= now {
        (now - since) as nat
    } else {
        0
    }
}

/// The nanoseconds between two clock readings, 0 where `now` lies before `since`.
pub fn elapsed(since: u128, now: u128) -> (span: u128)
    ensures
        span == elapsed_spec(since as nat, now as nat),
{
    if since <= now {
        now - since
    } else {
        0
    }
}

/// The time that has passed since a reading leads from it to the later one; none has passed at the
/// reading itself or before it.
pub proof fn law_elapsed_leads_to_now(since: u128, now: u128, span: u128)
    requires
        call_ensures(elapsed, (since, now), span),
    ensures
        since <= now ==> since + span == now,
        now <= since ==> span == 0,
{
}

} // verus!
