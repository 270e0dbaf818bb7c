//! Ping and frame-time statistics whose window grows with the jitter of the
//! pings: the more the ping jitters, the more past seconds count. Durations
//! are counted in nanoseconds, times in whole seconds.
use crate::prediction_timing::{
    advance,
    averages_sum,
    collection_add,
    collection_ok,
    first_of_second,
    frame_times_max,
    is_duration,
    pings_max,
    pings_min,
    PredictionTimingCollection,
    MAX_DURATION_NANOS,
    PREDICTION_MARGIN_NANOS,
};
use std::collections::VecDeque;
use vstd::prelude::*;

verus! {

pub open spec fn millis(nanos: u128) -> u128 {
    nanos / 1_000_000
}

/// Seconds of pings that count for a jitter: 10 below 2 ms, 50 below
/// 20 ms, 300 below 100 ms, else 500.
pub open spec fn farsight_of_jitter(jitter: u128) -> usize {
    if millis(jitter) < 2 {
        10
    } else if millis(jitter) < 20 {
        50
    } else if millis(jitter) < 100 {
        300
    } else {
        500
    }
}

/// How long snapshot timings are averaged for a jitter, in nanoseconds: 1 s
/// below 2 ms, 5 s below 20 ms, 7 s below 100 ms, else 20 s.
pub open spec fn snap_farsight_of_jitter(jitter: u128) -> u128 {
    if millis(jitter) < 2 {
        1_000_000_000
    } else if millis(jitter) < 20 {
        5_000_000_000
    } else if millis(jitter) < 100 {
        7_000_000_000
    } else {
        20_000_000_000
    }
}

/// The newest `n` seconds of the window (all of them if there are fewer).
pub open spec fn newest(s: Seq<PredictionTimingCollection>, n: int) -> Seq<PredictionTimingCollection> {
    if n < s.len() {
        s.take(n)
    } else {
        s
    }
}

/// The ping statistics of the last seconds (newest first), the ping jitter
/// of the last finished second and the highest frame time of each of the
/// last two seconds.
pub struct PredictionTiming {
    last_secs_of_pings: VecDeque<PredictionTimingCollection>,
    frame_time_max: VecDeque<u128>,
    cur_whole_second: u64,
    cur_whole_second_frametime: u64,
    jitter_range: u128,
}

impl PredictionTiming {
    pub closed spec fn pings(&self) -> Seq<PredictionTimingCollection> {
        self.last_secs_of_pings@
    }

    pub closed spec fn frame_times(&self) -> Seq<u128> {
        self.frame_time_max@
    }

    pub closed spec fn second(&self) -> u64 {
        self.cur_whole_second
    }

    pub closed spec fn frametime_second(&self) -> u64 {
        self.cur_whole_second_frametime
    }

    pub closed spec fn jitter(&self) -> u128 {
        self.jitter_range
    }

    /// The windows hold the current second and at most 500 and 2 seconds.
    pub open spec fn wf(&self) -> bool {
        &&& 1 <= self.pings().len() <= 500
        &&& forall|i: int| 0 <= i < self.pings().len() ==> collection_ok(#[trigger] self.pings()[i])
        &&& 1 <= self.frame_times().len() <= 2
        &&& forall|i: int|
            0 <= i < self.frame_times().len() ==> is_duration(#[trigger] self.frame_times()[i])
        &&& is_duration(self.jitter())
    }

    pub fn new(first_ping: u128, cur_time_secs: u64) -> (r: PredictionTiming)
        requires
            is_duration(first_ping),
        ensures
            r.wf(),
            r.pings() == seq![first_of_second(first_ping)],
            r.frame_times() == seq![0u128],
            r.second() == cur_time_secs,
            r.frametime_second() == cur_time_secs,
            r.jitter() == 0,
    {
        let mut pings: VecDeque<PredictionTimingCollection> = VecDeque::new();
        pings.push_back(
            PredictionTimingCollection {
                max: first_ping,
                min: first_ping,
                average: first_ping,
                avg_count: 1,
            },
        );
        let mut frames: VecDeque<u128> = VecDeque::new();
        frames.push_back(0);
        PredictionTiming {
            last_secs_of_pings: pings,
            frame_time_max: frames,
            cur_whole_second: cur_time_secs,
            cur_whole_second_frametime: cur_time_secs,
            jitter_range: 0,
        }
    }

    /// Seconds of pings that count now.
    pub fn calc_farsight_of_jitter(&self) -> (r: usize)
        ensures
            r == farsight_of_jitter(self.jitter()),
    {
        let ms = self.jitter_range / 1_000_000;
        if ms < 2 {
            10
        } else if ms < 20 {
            50
        } else if ms < 100 {
            300
        } else {
            500
        }
    }

    /// How long snapshot timings are averaged now, in nanoseconds.
    pub fn calc_snap_farsight_of_jitter(&self) -> (r: u128)
        ensures
            r == snap_farsight_of_jitter(self.jitter()),
    {
        let ms = self.jitter_range / 1_000_000;
        if ms < 2 {
            1_000_000_000
        } else if ms < 20 {
            5_000_000_000
        } else if ms < 100 {
            7_000_000_000
        } else {
            20_000_000_000
        }
    }

    /// Adds a ping measured at `cur_time_secs`. A later second takes the
    /// finished second's spread of pings as the jitter, drops the seconds
    /// beyond what that jitter lets count and starts a new entry; a ping of
    /// the current (or an earlier) second goes into the current entry.
    pub fn add_ping(&mut self, ping: u128, cur_time_secs: u64)
        requires
            old(self).wf(),
            is_duration(ping),
            cur_time_secs <= old(self).second() ==> old(self).pings()[0].avg_count < usize::MAX,
        ensures
            final(self).wf(),
            final(self).second() == if cur_time_secs > old(self).second() {
                cur_time_secs
            } else {
                old(self).second()
            },
            cur_time_secs > old(self).second() ==> {
                let jitter = (old(self).pings()[0].max - old(self).pings()[0].min) as u128;
                &&& final(self).jitter() == jitter
                &&& final(self).pings() == advance(
                    old(self).pings(),
                    farsight_of_jitter(jitter) as int,
                    cur_time_secs - old(self).second(),
                    first_of_second(ping),
                )
            },
            cur_time_secs <= old(self).second() ==> final(self).pings() == old(self).pings().update(
                0,
                collection_add(old(self).pings()[0], ping),
            ) && final(self).jitter() == old(self).jitter(),
            final(self).frame_times() == old(self).frame_times(),
            final(self).frametime_second() == old(self).frametime_second(),
    {
        let whole_second = if cur_time_secs > self.cur_whole_second {
            cur_time_secs
        } else {
            self.cur_whole_second
        };
        let ghost pre = self.last_secs_of_pings@;
        if whole_second > self.cur_whole_second {
            let front = self.last_secs_of_pings[0];
            proof {
                assert(collection_ok(pre[0]));
            }
            self.jitter_range = front.max - front.min;
            let diff = whole_second - self.cur_whole_second;
            let max_items = self.calc_farsight_of_jitter();
            let keep: u64 = max_items as u64 - if diff < max_items as u64 {
                diff
            } else {
                max_items as u64
            };
            self.last_secs_of_pings.truncate(keep as usize);
            self.last_secs_of_pings.push_front(
                PredictionTimingCollection { max: ping, min: ping, average: ping, avg_count: 1 },
            );
            proof {
                let post = self.last_secs_of_pings@;
                assert(post =~= advance(pre, max_items as int, diff as int, first_of_second(ping)));
                assert forall|i: int| 0 <= i < post.len() implies collection_ok(#[trigger] post[i]) by {
                    if i > 0 {
                        assert(post[i] == pre[i - 1]);
                    }
                }
            }
        } else {
            let front = self.last_secs_of_pings.pop_front();
            match front {
                Some(c) => {
                    let average: u128 = ((c.average + ping) as u64) as u128;
                    let updated = PredictionTimingCollection {
                        max: if ping > c.max {
                            ping
                        } else {
                            c.max
                        },
                        min: if ping < c.min {
                            ping
                        } else {
                            c.min
                        },
                        average,
                        avg_count: c.avg_count + 1,
                    };
                    self.last_secs_of_pings.push_front(updated);
                    proof {
                        let post = self.last_secs_of_pings@;
                        assert(post =~= pre.update(0, collection_add(pre[0], ping)));
                        assert forall|i: int| 0 <= i < post.len() implies collection_ok(
                            #[trigger] post[i],
                        ) by {
                            if i > 0 {
                                assert(post[i] == pre[i]);
                            }
                        }
                    }
                },
                None => {},
            }
        }
        self.cur_whole_second = whole_second;
    }

    /// The highest ping of the seconds that count.
    pub fn ping_max(&self) -> (r: u128)
        requires
            self.wf(),
        ensures
            r == pings_max(newest(self.pings(), farsight_of_jitter(self.jitter()) as int)),
    {
        let n = self.calc_farsight_of_jitter();
        let s = &self.last_secs_of_pings;
        let mut r: u128 = s[0].max;
        let mut i: usize = 1;
        proof {
            assert(s@.take(1).drop_last() =~= Seq::<PredictionTimingCollection>::empty());
            assert(s@.take(1).last() == s@[0]);
            assert(pings_max(s@.take(1).drop_last()) == 0);
        }
        while i < s.len() && i < n
            invariant
                1 <= i <= s@.len(),
                i <= n,
                r == pings_max(s@.take(i as int)),
            decreases s@.len() - i,
        {
            proof {
                assert(s@.take(i + 1).drop_last() =~= s@.take(i as int));
            }
            if s[i].max > r {
                r = s[i].max;
            }
            i = i + 1;
        }
        proof {
            if i == s@.len() {
                assert(s@.take(i as int) =~= s@);
            }
            assert(newest(s@, n as int) =~= s@.take(i as int));
        }
        r
    }

    /// The lowest ping of the seconds that count.
    pub fn ping_min(&self) -> (r: u128)
        requires
            self.wf(),
        ensures
            r == pings_min(newest(self.pings(), farsight_of_jitter(self.jitter()) as int)),
    {
        let n = self.calc_farsight_of_jitter();
        let s = &self.last_secs_of_pings;
        let mut r: u128 = s[0].min;
        let mut i: usize = 1;
        proof {
            assert(s@.take(1).len() == 1);
        }
        while i < s.len() && i < n
            invariant
                1 <= i <= s@.len(),
                i <= n,
                r == pings_min(s@.take(i as int)),
            decreases s@.len() - i,
        {
            proof {
                assert(s@.take(i + 1).drop_last() =~= s@.take(i as int));
            }
            if s[i].min < r {
                r = s[i].min;
            }
            i = i + 1;
        }
        proof {
            if i == s@.len() {
                assert(s@.take(i as int) =~= s@);
            }
            assert(newest(s@, n as int) =~= s@.take(i as int));
        }
        r
    }

    /// The per-second averages of the seconds that count, summed and
    /// divided by the number of all kept seconds, cut to 64 bits of
    /// nanoseconds.
    pub fn ping_average(&self) -> (r: u128)
        requires
            self.wf(),
        ensures
            r == ((averages_sum(newest(self.pings(), farsight_of_jitter(self.jitter()) as int))
                / (self.pings().len() as int)) as u64) as u128,
    {
        let n = self.calc_farsight_of_jitter();
        let s = &self.last_secs_of_pings;
        let count: usize = if s.len() > 1 {
            s.len()
        } else {
            1
        };
        let mut sum: u128 = 0;
        let mut i: usize = 0;
        while i < s.len() && i < n
            invariant
                0 <= i <= s@.len(),
                i <= n,
                s@.len() <= 500,
                forall|j: int| 0 <= j < s@.len() ==> collection_ok(#[trigger] s@[j]),
                sum == averages_sum(s@.take(i as int)),
                sum <= i * MAX_DURATION_NANOS,
            decreases s@.len() - i,
        {
            proof {
                assert(s@.take(i + 1).drop_last() =~= s@.take(i as int));
            }
            let c = s[i];
            let part = c.average / (c.avg_count as u128);
            proof {
                assert(part <= c.average);
                assert((i + 1) * MAX_DURATION_NANOS == i * MAX_DURATION_NANOS + MAX_DURATION_NANOS)
                    by (nonlinear_arith);
                assert(i * MAX_DURATION_NANOS <= 499 * MAX_DURATION_NANOS) by (nonlinear_arith)
                    requires
                        i <= 499,
                ;
            }
            sum = sum + part;
            i = i + 1;
        }
        proof {
            if i == s@.len() {
                assert(s@.take(i as int) =~= s@);
            }
            assert(newest(s@, n as int) =~= s@.take(i as int));
        }
        ((sum / (count as u128)) as u64) as u128
    }

    /// Notes a frame time measured at `cur_time_secs`: a later second starts
    /// a new entry (the window keeps two seconds), else the current entry
    /// keeps the highest frame time.
    pub fn add_frametime(&mut self, time: u128, cur_time_secs: u64)
        requires
            old(self).wf(),
            is_duration(time),
        ensures
            final(self).wf(),
            final(self).frametime_second() == if cur_time_secs > old(self).frametime_second() {
                cur_time_secs
            } else {
                old(self).frametime_second()
            },
            cur_time_secs > old(self).frametime_second() ==> final(self).frame_times() == advance(
                old(self).frame_times(),
                2,
                cur_time_secs - old(self).frametime_second(),
                time,
            ),
            cur_time_secs <= old(self).frametime_second() ==> final(self).frame_times()
                == old(self).frame_times().update(
                0,
                if time > old(self).frame_times()[0] {
                    time
                } else {
                    old(self).frame_times()[0]
                },
            ),
            final(self).pings() == old(self).pings(),
            final(self).second() == old(self).second(),
            final(self).jitter() == old(self).jitter(),
    {
        let whole_second = if cur_time_secs > self.cur_whole_second_frametime {
            cur_time_secs
        } else {
            self.cur_whole_second_frametime
        };
        let ghost pre = self.frame_time_max@;
        if whole_second > self.cur_whole_second_frametime {
            let diff = whole_second - self.cur_whole_second_frametime;
            let keep: u64 = 2 - if diff < 2 {
                diff
            } else {
                2
            };
            self.frame_time_max.truncate(keep as usize);
            self.frame_time_max.push_front(time);
            proof {
                let post = self.frame_time_max@;
                assert(post =~= advance(pre, 2, diff as int, time));
                assert forall|i: int| 0 <= i < post.len() implies is_duration(#[trigger] post[i]) by {
                    if i > 0 {
                        assert(post[i] == pre[i - 1]);
                    }
                }
            }
        } else {
            let front = self.frame_time_max.pop_front();
            match front {
                Some(t) => {
                    self.frame_time_max.push_front(
                        if time > t {
                            time
                        } else {
                            t
                        },
                    );
                    proof {
                        let post = self.frame_time_max@;
                        assert(post =~= pre.update(0, if time > t { time } else { t }));
                        assert forall|i: int| 0 <= i < post.len() implies is_duration(
                            #[trigger] post[i],
                        ) by {
                            if i > 0 {
                                assert(post[i] == pre[i]);
                            }
                        }
                    }
                },
                None => {},
            }
        }
        self.cur_whole_second_frametime = whole_second;
    }

    /// The highest frame time of the window plus the prediction margin.
    pub fn max_frametime(&self) -> (r: u128)
        requires
            self.wf(),
            frame_times_max(self.frame_times()) + PREDICTION_MARGIN_NANOS <= MAX_DURATION_NANOS,
        ensures
            r == frame_times_max(self.frame_times()) + PREDICTION_MARGIN_NANOS,
    {
        let s = &self.frame_time_max;
        let mut m: u128 = 0;
        let mut i: usize = 0;
        while i < s.len()
            invariant
                0 <= i <= s@.len(),
                m == frame_times_max(s@.take(i as int)),
            decreases s@.len() - i,
        {
            proof {
                assert(s@.take(i + 1).drop_last() =~= s@.take(i as int));
            }
            if s[i] > m {
                m = s[i];
            }
            i = i + 1;
        }
        proof {
            assert(s@.take(i as int) =~= s@);
        }
        m + PREDICTION_MARGIN_NANOS
    }
}


/// The more the ping jitters, the more past seconds count, and the longer
/// snapshot timings are averaged.
pub proof fn law_farsight_grows_with_jitter(j1: u128, j2: u128)
    requires
        j1 <= j2,
    ensures
        farsight_of_jitter(j1) <= farsight_of_jitter(j2),
        snap_farsight_of_jitter(j1) <= snap_farsight_of_jitter(j2),
{
    assert(millis(j1) <= millis(j2)) by (nonlinear_arith)
        requires
            j1 <= j2,
    ;
}

} // verus!
