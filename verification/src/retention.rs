//! The time windows of the history: the oldest timestamp that a history
//! query returns, and the timestamp before which stored rows are deleted.
use vstd::prelude::*;

verus! {

/// Seconds in an hour: history queries count their window in hours.
pub const SECS_PER_HOUR: i64 = 3600;

/// Seconds in a day: retention counts in days.
pub const SECS_PER_DAY: i64 = 86400;

/// The timestamp `count` units of `unit_secs` seconds before `now`, or the
/// earliest timestamp there is when the window reaches further back than
/// that: a window longer than the history covers all of it.
pub open spec fn cutoff(now: i64, count: u64, unit_secs: i64) -> int {
    let back = now - count * unit_secs;
    if back < i64::MIN {
        i64::MIN as int
    } else {
        back
    }
}

/// The start of a window of `count` units of `unit_secs` seconds ending at
/// `now`.
pub fn cutoff_before(now: i64, count: u64, unit_secs: i64) -> (c: i64)
    requires
        unit_secs >= 0,
    ensures
        c == cutoff(now, count, unit_secs),
{
    let n = count as i128;
    let u = unit_secs as i128;
    assert(0 <= n * u <= 0x7fff_ffff_ffff_fffe_8000_0000_0000_0001) by (nonlinear_arith)
        requires
            0 <= n <= 0xffff_ffff_ffff_ffff,
            0 <= u <= 0x7fff_ffff_ffff_ffff,
    ;
    let back = n * u;
    let room = (now as i128) - (i64::MIN as i128);
    if back > room {
        i64::MIN
    } else {
        ((now as i128) - back) as i64
    }
}

/// A longer window reaches further back: asking for more hours (or keeping
/// more days) never moves the cutoff later.
pub proof fn longer_window_reaches_further(
    now: i64,
    shorter: u64,
    longer: u64,
    unit_secs: i64,
)
    requires
        shorter <= longer,
        unit_secs >= 0,
    ensures
        cutoff(now, longer, unit_secs) <= cutoff(now, shorter, unit_secs),
{
    let a = shorter as int;
    let b = longer as int;
    let u = unit_secs as int;
    assert(a * u <= b * u) by (nonlinear_arith)
        requires
            a <= b,
            u >= 0,
    ;
}

/// A window is counted exactly: the cutoff is `now` minus `count` units of
/// `unit_secs` seconds whenever that timestamp exists, for every count, and
/// only a window that reaches further back than the earliest timestamp is cut
/// there.
pub proof fn cutoff_is_exact(now: i64, count: u64, unit_secs: i64)
    requires
        unit_secs >= 0,
    ensures
        now - count * unit_secs >= i64::MIN ==> cutoff(now, count, unit_secs) == now - count
            * unit_secs,
        now - count * unit_secs < i64::MIN ==> cutoff(now, count, unit_secs) == i64::MIN,
        i64::MIN <= cutoff(now, count, unit_secs) <= now,
{
    let c = count as int;
    let u = unit_secs as int;
    assert(c * u >= 0) by (nonlinear_arith)
        requires
            c >= 0,
            u >= 0,
    ;
}

} // verus!
