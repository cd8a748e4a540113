use vstd::prelude::*;

verus! {

/// Seconds in a day.
pub const DAY_SECONDS: u64 = 86400;

/// The hourly sweep period.
pub const SWEEP_INTERVAL_SECONDS: u64 = 3600;

/// Extra sleep past midnight, so the upstream picture of the day is
/// already published when it is fetched.
pub const POTD_GRACE_SECONDS: u64 = 60;

/// The first day boundary at or after `t` (seconds since the epoch): the
/// moment the daily refresh aims at.  A `t` already on a boundary is its
/// own target.
pub fn next_day_start(t: u64) -> (r: u64)
    requires
        t <= u64::MAX - (DAY_SECONDS - 1),
    ensures
        r == ((t + (DAY_SECONDS - 1) as int) / (DAY_SECONDS as int)) * (DAY_SECONDS as int),
        r % DAY_SECONDS == 0,
        t <= r < t + DAY_SECONDS,
{
    let r: u64 = (t + (DAY_SECONDS - 1)) / DAY_SECONDS * DAY_SECONDS;
    proof {
        let d = DAY_SECONDS as int;
        let q = (t + d - 1) / d;
        vstd::arithmetic::div_mod::lemma_fundamental_div_mod(t + d - 1, d);
        vstd::arithmetic::div_mod::lemma_mod_bound(t + d - 1, d);
        assert(q * d == (t + d - 1) - ((t + d - 1) % d));
        vstd::arithmetic::div_mod::lemma_mod_multiples_basic(q, d);
    }
    r
}

/// How long the daily task sleeps after its last refresh at `last`: until
/// the next day boundary, plus the grace interval.
pub fn potd_sleep_seconds(last: u64) -> (r: u64)
    requires
        last <= u64::MAX - DAY_SECONDS,
    ensures
        r == next_day_spec(last) - last + POTD_GRACE_SECONDS,
{
    next_day_start(last) - last + POTD_GRACE_SECONDS
}

/// The value [`next_day_start`] computes.
pub open spec fn next_day_spec(t: u64) -> int {
    ((t + (DAY_SECONDS - 1) as int) / (DAY_SECONDS as int)) * (DAY_SECONDS as int)
}

} // verus!
