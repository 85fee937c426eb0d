//! Keep-alive timing.
//!
//! One timer runs across both phases: any outbound chunk resets it, and
//! when more than the interval has passed without one, heartbeats are
//! owed at interval steps until the present is within one interval.

use vstd::prelude::*;

verus! {

use crate::HEARTBEAT_INTERVAL_MS;

/// True when a heartbeat is owed `now_ms` after a chunk at `last_ms`.
pub fn heartbeat_due(last_ms: u64, now_ms: u64) -> (r: bool)
    requires
        last_ms <= now_ms,
    ensures
        r == (now_ms - last_ms > HEARTBEAT_INTERVAL_MS),
{
    now_ms - last_ms > HEARTBEAT_INTERVAL_MS
}

/// The instants at which heartbeats were owed between a chunk sent at
/// `last_ms` and the present `now_ms`.
///
/// Law: after inserting heartbeats at these instants, no two consecutive
/// outbound instants lie more than one interval apart — so whenever two
/// chunks are further apart than the interval, at least one heartbeat
/// stands between them.
pub fn fill_heartbeats(last_ms: u64, now_ms: u64) -> (r: Vec<u64>)
    requires
        last_ms <= now_ms,
    ensures
        r@.len() == 0 <==> now_ms - last_ms <= HEARTBEAT_INTERVAL_MS,
        forall|i: int|
            0 <= i < r@.len() ==> r@[i] == last_ms + (i + 1) * HEARTBEAT_INTERVAL_MS,
        forall|i: int| 0 <= i < r@.len() ==> last_ms < #[trigger] r@[i] < now_ms,
        r@.len() > 0 ==> now_ms - r@[r@.len() - 1] <= HEARTBEAT_INTERVAL_MS,
        r@.len() > 0 ==> r@[0] - last_ms == HEARTBEAT_INTERVAL_MS,
        forall|i: int|
            1 <= i < r@.len() ==> #[trigger] r@[i] - r@[i - 1] == HEARTBEAT_INTERVAL_MS,
{
    let mut r: Vec<u64> = Vec::new();
    let mut t: u64 = last_ms;
    while now_ms - t > HEARTBEAT_INTERVAL_MS
        invariant
            last_ms <= t <= now_ms,
            t == last_ms + r@.len() * HEARTBEAT_INTERVAL_MS,
            forall|i: int|
                0 <= i < r@.len() ==> r@[i] == last_ms + (i + 1) * HEARTBEAT_INTERVAL_MS,
            forall|i: int| 0 <= i < r@.len() ==> last_ms < #[trigger] r@[i] < now_ms,
            r@.len() > 0 ==> t == r@[r@.len() - 1],
        decreases now_ms - t,
    {
        t = t + HEARTBEAT_INTERVAL_MS;
        r.push(t);
    }
    r
}

} // verus!
