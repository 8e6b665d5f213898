//! Wall-clock access and cutoff arithmetic for the fetch cycle.

use vstd::prelude::*;

verus! {

/// The cutoff timestamp `now - backdate`, clamped at the lower end of the
/// 64-bit timestamp range.
pub open spec fn cutoff_from(now: int, backdate: int) -> int {
    if now - backdate < i64::MIN as int {
        i64::MIN as int
    } else {
        now - backdate
    }
}

/// Compute the cutoff `now - backdate_seconds`, saturating at the lower
/// end of the timestamp range.
pub fn compute_cutoff(now: i64, backdate_seconds: i64) -> (cutoff: i64)
    requires
        backdate_seconds >= 0,
    ensures
        cutoff as int == cutoff_from(now as int, backdate_seconds as int),
{
    if now >= i64::MIN + backdate_seconds {
        now - backdate_seconds
    } else {
        i64::MIN
    }
}

/// Relies on chrono::Utc::now, read as Unix seconds. Nothing is assumed
/// about the reading; callers take the returned value as an argument and
/// are verified for every value of it.
#[verifier::external_body]
pub(crate) fn now_unix_seconds() -> i64 {
    chrono::Utc::now().timestamp()
}

} // verus!
