//! The frame limiter of the client's main loop: how long to sleep after a
//! frame so that frames follow the configured refresh rate. Times are
//! counted in nanoseconds.
use vstd::prelude::*;

verus! {

/// The sleep is counted against the next frame up to this much (in either
/// direction), so a long stall is not made up by a burst of frames.
pub const MAX_CARRY_NANOS: i64 = 16_666_666_666;

/// What the main loop does after a frame.
#[derive(Copy, Clone, PartialEq, Eq, Structural)]
pub struct FrameWait {
    /// How long to sleep, if at all.
    pub sleep_nanos: Option<u64>,
    /// The time the next frame is measured from.
    pub last_refresh_rate_time: u128,
}

pub open spec fn clamp_i64(v: int, lo: int, hi: int) -> int {
    if v < lo {
        lo
    } else if v > hi {
        hi
    } else {
        v
    }
}

/// The sleep before the next frame: a frame takes `1 s / refresh_rate`,
/// less the time since the last frame began.
pub open spec fn spec_sleep(refresh_rate: u64, cur_time: u128, last_time: u128) -> int {
    (1_000_000_000u64 / refresh_rate) as i64 - ((cur_time as i64) - (last_time as i64))
}

/// The arithmetic of the limiter stays within `i64`.
pub open spec fn frame_limit_fits(refresh_rate: u64, cur_time: u128, last_time: u128) -> bool {
    refresh_rate > 0 ==> {
        let d = (cur_time as i64) - (last_time as i64);
        let s = (1_000_000_000u64 / refresh_rate) as i64 - d;
        &&& i64::MIN <= d <= i64::MAX
        &&& i64::MIN <= s <= i64::MAX
        &&& i64::MIN <= (cur_time as i64) + clamp_i64(s, -MAX_CARRY_NANOS, MAX_CARRY_NANOS as int)
            <= i64::MAX
    }
}

/// The limiter's decision after a frame that ended at `cur_time`; the last
/// frame was measured from `last_time`. A refresh rate of 0 means no limit.
pub fn frame_limit(refresh_rate: u64, cur_time: u128, last_time: u128) -> (r: FrameWait)
    requires
        frame_limit_fits(refresh_rate, cur_time, last_time),
    ensures
        refresh_rate == 0 ==> r == (FrameWait { sleep_nanos: None, last_refresh_rate_time: cur_time }),
        refresh_rate > 0 ==> {
            let s = spec_sleep(refresh_rate, cur_time, last_time);
            &&& r.sleep_nanos == if s > 0 {
                Some(s as u64)
            } else {
                None::<u64>
            }
            &&& r.last_refresh_rate_time == (((cur_time as i64) + clamp_i64(
                s,
                -MAX_CARRY_NANOS,
                MAX_CARRY_NANOS as int,
            )) as i64 as u64) as u128
        },
{
    if refresh_rate > 0 {
        let time_until_tick_nanos: u64 = 1_000_000_000u64 / refresh_rate;
        let diff: i64 = (cur_time as i64) - (last_time as i64);
        let sleep_time_nanos: i64 = (time_until_tick_nanos as i64) - diff;
        let sleep = if sleep_time_nanos > 0 {
            Some(sleep_time_nanos as u64)
        } else {
            None
        };
        let carry: i64 = if sleep_time_nanos < -MAX_CARRY_NANOS {
            -MAX_CARRY_NANOS
        } else if sleep_time_nanos > MAX_CARRY_NANOS {
            MAX_CARRY_NANOS
        } else {
            sleep_time_nanos
        };
        let last: i64 = (cur_time as i64) + carry;
        FrameWait { sleep_nanos: sleep, last_refresh_rate_time: (last as u64) as u128 }
    } else {
        FrameWait { sleep_nanos: None, last_refresh_rate_time: cur_time }
    }
}

/// After a frame, the limiter sleeps for what is left of the frame's share
/// of a second: the time since the last frame plus the sleep is exactly
/// `1 s / refresh_rate`, and it sleeps exactly when less than that has
/// passed.
pub proof fn law_sleep_fills_the_frame(refresh_rate: u64, cur_time: u128, last_time: u128)
    requires
        refresh_rate > 0,
        last_time <= cur_time <= i64::MAX,
    ensures
        spec_sleep(refresh_rate, cur_time, last_time) + (cur_time - last_time) == 1_000_000_000int
            / (refresh_rate as int),
        spec_sleep(refresh_rate, cur_time, last_time) > 0 <==> cur_time - last_time
            < 1_000_000_000int / (refresh_rate as int),
{
    assert(1_000_000_000u64 / refresh_rate <= 1_000_000_000);
}

} // verus!
