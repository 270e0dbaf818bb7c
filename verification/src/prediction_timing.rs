//! Ping and frame-time statistics of the last seconds, from which the
//! client predicts how far ahead of the server it has to run. Durations
//! are counted in nanoseconds, times in whole seconds.
use std::collections::VecDeque;
use vstd::prelude::*;

verus! {

/// The longest `Duration`, in nanoseconds.
pub const MAX_DURATION_NANOS: u128 = 18_446_744_073_709_551_615_999_999_999u128;

/// Small extra offset (1 ms) that smooths out normal jitter in frame times.
pub const PREDICTION_MARGIN_NANOS: u128 = 1_000_000u128;

/// Seconds of pings kept.
pub const PING_SECONDS: u64 = 10;

/// Seconds of frame times kept.
pub const FRAME_TIME_SECONDS: u64 = 10;

pub open spec fn is_duration(n: u128) -> bool {
    n <= MAX_DURATION_NANOS
}

/// The pings of one second: the highest, the lowest, their running sum (a
/// `Duration` rebuilt from 64 bits of nanoseconds at every ping) and how
/// many there were.
#[derive(Copy, Clone, PartialEq, Eq, Structural)]
pub struct PredictionTimingCollection {
    pub max: u128,
    pub min: u128,
    pub average: u128,
    pub avg_count: usize,
}

pub open spec fn first_of_second(ping: u128) -> PredictionTimingCollection {
    PredictionTimingCollection { max: ping, min: ping, average: ping, avg_count: 1 }
}

pub open spec fn collection_ok(c: PredictionTimingCollection) -> bool {
    &&& c.avg_count >= 1
    &&& c.min <= c.max
    &&& is_duration(c.max)
    &&& is_duration(c.average)
}

/// One more ping in the same second.
pub open spec fn collection_add(c: PredictionTimingCollection, ping: u128) -> PredictionTimingCollection {
    PredictionTimingCollection {
        max: if ping > c.max {
            ping
        } else {
            c.max
        },
        min: if ping < c.min {
            ping
        } else {
            c.min
        },
        average: ((c.average + ping) as u64) as u128,
        avg_count: (c.avg_count + 1) as usize,
    }
}

pub open spec fn pings_max(s: Seq<PredictionTimingCollection>) -> u128
    decreases s.len(),
{
    if s.len() == 0 {
        0
    } else {
        let m = pings_max(s.drop_last());
        if s.last().max > m {
            s.last().max
        } else {
            m
        }
    }
}

pub open spec fn pings_min(s: Seq<PredictionTimingCollection>) -> u128
    decreases s.len(),
{
    if s.len() <= 1 {
        if s.len() == 0 {
            MAX_DURATION_NANOS
        } else {
            s[0].min
        }
    } else {
        let m = pings_min(s.drop_last());
        if s.last().min < m {
            s.last().min
        } else {
            m
        }
    }
}

/// Sum of the per-second averages.
pub open spec fn averages_sum(s: Seq<PredictionTimingCollection>) -> int
    decreases s.len(),
{
    if s.len() == 0 {
        0
    } else {
        averages_sum(s.drop_last()) + s.last().average / (s.last().avg_count as u128)
    }
}

pub open spec fn frame_times_max(s: Seq<u128>) -> u128
    decreases s.len(),
{
    if s.len() == 0 {
        0
    } else {
        let m = frame_times_max(s.drop_last());
        if s.last() > m {
            s.last()
        } else {
            m
        }
    }
}

/// A window of the newest `keep` entries after `diff` seconds have passed,
/// with the new second in front.
pub open spec fn advance<T>(s: Seq<T>, keep: int, diff: int, first: T) -> Seq<T> {
    let n = keep - if diff < keep {
        diff
    } else {
        keep
    };
    seq![first] + if n <= s.len() {
        s.take(n)
    } else {
        s
    }
}

/// How many of the oldest-last entries, stamped with the seconds `secs`,
/// are still newer than `now - keep`: the oldest entries go first.
pub open spec fn recent_len(secs: Seq<u64>, now: int, keep: int) -> nat
    decreases secs.len(),
{
    if secs.len() == 0 {
        0
    } else if secs.last() + keep > now {
        secs.len()
    } else {
        recent_len(secs.drop_last(), now, keep)
    }
}

/// The seconds go strictly down from the front.
pub open spec fn newest_first(secs: Seq<u64>) -> bool {
    forall|i: int, j: int| 0 <= i < j < secs.len() ==> secs[i] > secs[j]
}

/// A window whose entries, newest first, are stamped with the seconds
/// `secs`: the front is the second `now`, and every entry is newer than
/// `now - keep`.
pub open spec fn window_ok(secs: Seq<u64>, now: u64, keep: u64) -> bool {
    &&& 1 <= secs.len() <= keep
    &&& secs[0] == now
    &&& newest_first(secs)
    &&& forall|i: int| 0 <= i < secs.len() ==> #[trigger] secs[i] + keep > now
}

/// The ping statistics of the last ten seconds and the highest frame time
/// of each of the last ten seconds, each entry stamped with its second,
/// newest first.
pub struct PredictionTiming {
    last_10_secs_of_pings: VecDeque<PredictionTimingCollection>,
    ping_secs: VecDeque<u64>,
    frame_time_max: VecDeque<u128>,
    frame_secs: VecDeque<u64>,
    cur_whole_second: u64,
    cur_whole_second_frametime: u64,
}

impl PredictionTiming {
    pub closed spec fn pings(&self) -> Seq<PredictionTimingCollection> {
        self.last_10_secs_of_pings@
    }

    /// The second of each entry of `pings`.
    pub closed spec fn ping_seconds(&self) -> Seq<u64> {
        self.ping_secs@
    }

    pub closed spec fn frame_times(&self) -> Seq<u128> {
        self.frame_time_max@
    }

    /// The second of each entry of `frame_times`.
    pub closed spec fn frame_seconds(&self) -> Seq<u64> {
        self.frame_secs@
    }

    pub closed spec fn second(&self) -> u64 {
        self.cur_whole_second
    }

    pub closed spec fn frametime_second(&self) -> u64 {
        self.cur_whole_second_frametime
    }

    /// Both windows start at their current second and hold only seconds of
    /// the last ten.
    pub open spec fn wf(&self) -> bool {
        &&& self.pings().len() == self.ping_seconds().len()
        &&& window_ok(self.ping_seconds(), self.second(), PING_SECONDS)
        &&& forall|i: int| 0 <= i < self.pings().len() ==> collection_ok(#[trigger] self.pings()[i])
        &&& self.frame_times().len() == self.frame_seconds().len()
        &&& window_ok(self.frame_seconds(), self.frametime_second(), FRAME_TIME_SECONDS)
        &&& forall|i: int| 0 <= i < self.frame_times().len() ==> is_duration(#[trigger] self.frame_times()[i])
    }

    pub fn new(first_ping: u128, cur_time_secs: u64) -> (r: PredictionTiming)
        requires
            is_duration(first_ping),
        ensures
            r.wf(),
            r.pings() == seq![first_of_second(first_ping)],
            r.ping_seconds() == seq![cur_time_secs],
            r.frame_times() == seq![0u128],
            r.frame_seconds() == seq![cur_time_secs],
            r.second() == cur_time_secs,
            r.frametime_second() == cur_time_secs,
    {
        let mut pings: VecDeque<PredictionTimingCollection> = VecDeque::new();
        pings.push_back(
            PredictionTimingCollection {
                max: first_ping,
                min: first_ping,
                average: first_ping,
                avg_count: 1,
            },
        );
        let mut ping_secs: VecDeque<u64> = VecDeque::new();
        ping_secs.push_back(cur_time_secs);
        let mut frames: VecDeque<u128> = VecDeque::new();
        frames.push_back(0);
        let mut frame_secs: VecDeque<u64> = VecDeque::new();
        frame_secs.push_back(cur_time_secs);
        PredictionTiming {
            last_10_secs_of_pings: pings,
            ping_secs,
            frame_time_max: frames,
            frame_secs,
            cur_whole_second: cur_time_secs,
            cur_whole_second_frametime: cur_time_secs,
        }
    }

    /// Adds a ping measured at `cur_time_secs`. A later second starts a new
    /// entry and drops the seconds that are not newer than ten seconds
    /// before it; a ping of the current (or an earlier) second goes into the
    /// current entry.
    pub fn add(&mut self, ping: u128, cur_time_secs: u64)
        requires
            old(self).wf(),
            is_duration(ping),
            cur_time_secs <= old(self).second() ==> old(self).pings()[0].avg_count < usize::MAX,
        ensures
            final(self).wf(),
            final(self).second() == if cur_time_secs > old(self).second() {
                cur_time_secs
            } else {
                old(self).second()
            },
            cur_time_secs > old(self).second() ==> {
                let k = recent_len(old(self).ping_seconds(), cur_time_secs as int, PING_SECONDS as int) as int;
                &&& final(self).pings() == seq![first_of_second(ping)] + old(self).pings().take(k)
                &&& final(self).ping_seconds() == seq![cur_time_secs] + old(self).ping_seconds().take(k)
            },
            cur_time_secs <= old(self).second() ==> final(self).pings() == old(self).pings().update(
                0,
                collection_add(old(self).pings()[0], ping),
            ),
            cur_time_secs <= old(self).second() ==> final(self).ping_seconds() == old(self).ping_seconds(),
            final(self).frame_times() == old(self).frame_times(),
            final(self).frame_seconds() == old(self).frame_seconds(),
            final(self).frametime_second() == old(self).frametime_second(),
    {
        let ghost pre = self.last_10_secs_of_pings@;
        let ghost pre_secs = self.ping_secs@;
        if cur_time_secs > self.cur_whole_second {
            drop_old_seconds(&mut self.ping_secs, &mut self.last_10_secs_of_pings, cur_time_secs, PING_SECONDS);
            let ghost k = recent_len(pre_secs, cur_time_secs as int, PING_SECONDS as int) as int;
            self.last_10_secs_of_pings.push_front(
                PredictionTimingCollection { max: ping, min: ping, average: ping, avg_count: 1 },
            );
            self.ping_secs.push_front(cur_time_secs);
            proof {
                let post = self.last_10_secs_of_pings@;
                let post_secs = self.ping_secs@;
                assert(post =~= seq![first_of_second(ping)] + pre.take(k));
                assert(post_secs =~= seq![cur_time_secs] + pre_secs.take(k));
                lemma_window_after_new_second(pre_secs, self.cur_whole_second, cur_time_secs, PING_SECONDS);
                assert forall|i: int| 0 <= i < post.len() implies collection_ok(#[trigger] post[i]) by {
                    if i > 0 {
                        assert(post[i] == pre[i - 1]);
                    }
                }
            }
            self.cur_whole_second = cur_time_secs;
        } else {
            let front = self.last_10_secs_of_pings.pop_front();
            match front {
                Some(c) => {
                    let average: u128 = ((c.average + ping) as u64) as u128;
                    let updated = PredictionTimingCollection {
                        max: if ping > c.max {
                            ping
                        } else {
                            c.max
                        },
                        min: if ping < c.min {
                            ping
                        } else {
                            c.min
                        },
                        average,
                        avg_count: c.avg_count + 1,
                    };
                    self.last_10_secs_of_pings.push_front(updated);
                    proof {
                        let post = self.last_10_secs_of_pings@;
                        assert(post =~= pre.update(0, collection_add(pre[0], ping)));
                        assert forall|i: int| 0 <= i < post.len() implies collection_ok(
                            #[trigger] post[i],
                        ) by {
                            if i > 0 {
                                assert(post[i] == pre[i]);
                            }
                        }
                    }
                },
                None => {},
            }
        }
    }

    /// The highest ping of the window.
    pub fn max(&self) -> (r: u128)
        requires
            self.wf(),
        ensures
            r == pings_max(self.pings()),
            exists|i: int| 0 <= i < self.pings().len() && r == #[trigger] self.pings()[i].max,
            forall|i: int| 0 <= i < self.pings().len() ==> #[trigger] self.pings()[i].max <= r,
    {
        let s = &self.last_10_secs_of_pings;
        let mut r: u128 = s[0].max;
        let mut i: usize = 1;
        proof {
            assert(s@.take(1).drop_last() =~= Seq::<PredictionTimingCollection>::empty());
            assert(s@.take(1).last() == s@[0]);
            assert(pings_max(s@.take(1).drop_last()) == 0);
        }
        while i < s.len()
            invariant
                1 <= i <= s@.len(),
                r == pings_max(s@.take(i as int)),
                exists|j: int| 0 <= j < i && r == #[trigger] s@[j].max,
                forall|j: int| 0 <= j < i ==> #[trigger] s@[j].max <= r,
            decreases s@.len() - i,
        {
            proof {
                assert(s@.take(i + 1).drop_last() =~= s@.take(i as int));
            }
            if s[i].max > r {
                r = s[i].max;
            }
            i = i + 1;
        }
        proof {
            assert(s@.take(i as int) =~= s@);
        }
        r
    }

    /// The lowest ping of the window.
    pub fn min(&self) -> (r: u128)
        requires
            self.wf(),
        ensures
            r == pings_min(self.pings()),
            exists|i: int| 0 <= i < self.pings().len() && r == #[trigger] self.pings()[i].min,
            forall|i: int| 0 <= i < self.pings().len() ==> r <= #[trigger] self.pings()[i].min,
    {
        let s = &self.last_10_secs_of_pings;
        let mut r: u128 = s[0].min;
        let mut i: usize = 1;
        proof {
            assert(s@.take(1).len() == 1);
        }
        while i < s.len()
            invariant
                1 <= i <= s@.len(),
                r == pings_min(s@.take(i as int)),
                exists|j: int| 0 <= j < i && r == #[trigger] s@[j].min,
                forall|j: int| 0 <= j < i ==> r <= #[trigger] s@[j].min,
            decreases s@.len() - i,
        {
            proof {
                assert(s@.take(i + 1).drop_last() =~= s@.take(i as int));
            }
            if s[i].min < r {
                r = s[i].min;
            }
            i = i + 1;
        }
        proof {
            assert(s@.take(i as int) =~= s@);
        }
        r
    }

    /// The mean of the per-second averages, cut to 64 bits of nanoseconds.
    pub fn average(&self) -> (r: u128)
        requires
            self.wf(),
        ensures
            r == ((averages_sum(self.pings()) / (self.pings().len() as int)) as u64) as u128,
    {
        let s = &self.last_10_secs_of_pings;
        let count: usize = if s.len() > 1 {
            s.len()
        } else {
            1
        };
        let mut sum: u128 = 0;
        let mut i: usize = 0;
        while i < s.len()
            invariant
                0 <= i <= s@.len(),
                s@.len() <= 10,
                forall|j: int| 0 <= j < s@.len() ==> collection_ok(#[trigger] s@[j]),
                sum == averages_sum(s@.take(i as int)),
                sum <= i * MAX_DURATION_NANOS,
            decreases s@.len() - i,
        {
            proof {
                assert(s@.take(i + 1).drop_last() =~= s@.take(i as int));
            }
            let c = s[i];
            let part = c.average / (c.avg_count as u128);
            proof {
                assert(part <= c.average);
                assert((i + 1) * MAX_DURATION_NANOS == i * MAX_DURATION_NANOS + MAX_DURATION_NANOS) by (nonlinear_arith);
                assert(i * MAX_DURATION_NANOS <= 9 * MAX_DURATION_NANOS) by (nonlinear_arith)
                    requires
                        i <= 9,
                ;
            }
            sum = sum + part;
            i = i + 1;
        }
        proof {
            assert(s@.take(i as int) =~= s@);
        }
        ((sum / (count as u128)) as u64) as u128
    }

    /// Notes a frame time measured at `cur_time_secs`: a later second starts
    /// a new entry and drops the seconds that are not newer than ten seconds
    /// before it, else the current entry keeps the highest frame time.
    pub fn add_frametime(&mut self, time: u128, cur_time_secs: u64)
        requires
            old(self).wf(),
            is_duration(time),
        ensures
            final(self).wf(),
            final(self).frametime_second() == if cur_time_secs > old(self).frametime_second() {
                cur_time_secs
            } else {
                old(self).frametime_second()
            },
            cur_time_secs > old(self).frametime_second() ==> {
                let k = recent_len(
                    old(self).frame_seconds(),
                    cur_time_secs as int,
                    FRAME_TIME_SECONDS as int,
                ) as int;
                &&& final(self).frame_times() == seq![time] + old(self).frame_times().take(k)
                &&& final(self).frame_seconds() == seq![cur_time_secs] + old(self).frame_seconds().take(k)
            },
            cur_time_secs <= old(self).frametime_second() ==> final(self).frame_times()
                == old(self).frame_times().update(
                0,
                if time > old(self).frame_times()[0] {
                    time
                } else {
                    old(self).frame_times()[0]
                },
            ),
            cur_time_secs <= old(self).frametime_second() ==> final(self).frame_seconds()
                == old(self).frame_seconds(),
            final(self).pings() == old(self).pings(),
            final(self).ping_seconds() == old(self).ping_seconds(),
            final(self).second() == old(self).second(),
    {
        let ghost pre = self.frame_time_max@;
        let ghost pre_secs = self.frame_secs@;
        if cur_time_secs > self.cur_whole_second_frametime {
            drop_old_seconds(&mut self.frame_secs, &mut self.frame_time_max, cur_time_secs, FRAME_TIME_SECONDS);
            let ghost k = recent_len(pre_secs, cur_time_secs as int, FRAME_TIME_SECONDS as int) as int;
            self.frame_time_max.push_front(time);
            self.frame_secs.push_front(cur_time_secs);
            proof {
                let post = self.frame_time_max@;
                assert(post =~= seq![time] + pre.take(k));
                assert(self.frame_secs@ =~= seq![cur_time_secs] + pre_secs.take(k));
                lemma_window_after_new_second(
                    pre_secs,
                    self.cur_whole_second_frametime,
                    cur_time_secs,
                    FRAME_TIME_SECONDS,
                );
                assert forall|i: int| 0 <= i < post.len() implies is_duration(#[trigger] post[i]) by {
                    if i > 0 {
                        assert(post[i] == pre[i - 1]);
                    }
                }
            }
            self.cur_whole_second_frametime = cur_time_secs;
        } else {
            let front = self.frame_time_max.pop_front();
            match front {
                Some(t) => {
                    self.frame_time_max.push_front(
                        if time > t {
                            time
                        } else {
                            t
                        },
                    );
                    proof {
                        let post = self.frame_time_max@;
                        assert(post =~= pre.update(0, if time > t { time } else { t }));
                        assert forall|i: int| 0 <= i < post.len() implies is_duration(#[trigger] post[i]) by {
                            if i > 0 {
                                assert(post[i] == pre[i]);
                            }
                        }
                    }
                },
                None => {},
            }
        }
    }

    /// The highest frame time of the window plus the prediction margin.
    pub fn max_frametime(&self) -> (r: u128)
        requires
            self.wf(),
            frame_times_max(self.frame_times()) + PREDICTION_MARGIN_NANOS <= MAX_DURATION_NANOS,
        ensures
            r == frame_times_max(self.frame_times()) + PREDICTION_MARGIN_NANOS,
    {
        let s = &self.frame_time_max;
        let mut m: u128 = 0;
        let mut i: usize = 0;
        while i < s.len()
            invariant
                0 <= i <= s@.len(),
                m == frame_times_max(s@.take(i as int)),
            decreases s@.len() - i,
        {
            proof {
                assert(s@.take(i + 1).drop_last() =~= s@.take(i as int));
            }
            if s[i] > m {
                m = s[i];
            }
            i = i + 1;
        }
        proof {
            assert(s@.take(i as int) =~= s@);
        }
        m + PREDICTION_MARGIN_NANOS
    }
}


/// Drops from the back of a window (oldest last) the entries whose second
/// is not newer than `now - keep`, keeping `vals` beside `secs`.
fn drop_old_seconds<T>(secs: &mut VecDeque<u64>, vals: &mut VecDeque<T>, now: u64, keep: u64)
    requires
        old(secs)@.len() == old(vals)@.len(),
    ensures
        final(secs)@ == old(secs)@.take(recent_len(old(secs)@, now as int, keep as int) as int),
        final(vals)@ == old(vals)@.take(recent_len(old(secs)@, now as int, keep as int) as int),
        recent_len(old(secs)@, now as int, keep as int) <= old(secs)@.len(),
{
    let ghost s0 = secs@;
    let ghost v0 = vals@;
    proof {
        assert(s0.take(s0.len() as int) =~= s0);
        assert(v0.take(v0.len() as int) =~= v0);
        lemma_recent_len_bound(s0, now as int, keep as int);
    }
    loop
        invariant
            secs@.len() == vals@.len(),
            secs@.len() <= s0.len(),
            s0.len() == v0.len(),
            secs@ == s0.take(secs@.len() as int),
            vals@ == v0.take(secs@.len() as int),
            recent_len(s0, now as int, keep as int) == recent_len(secs@, now as int, keep as int),
            recent_len(secs@, now as int, keep as int) <= secs@.len(),
        ensures
            secs@.len() == recent_len(s0, now as int, keep as int),
            secs@ == s0.take(secs@.len() as int),
            vals@ == v0.take(secs@.len() as int),
        decreases secs@.len(),
    {
        let n = secs.len();
        if n == 0 {
            break;
        }
        let last = secs[n - 1];
        if !(now >= keep && last <= now - keep) {
            break;
        }
        let ghost before = secs@;
        secs.pop_back();
        vals.pop_back();
        proof {
            assert(secs@ =~= before.drop_last());
            assert(secs@ =~= s0.take(secs@.len() as int));
            assert(vals@ =~= v0.take(secs@.len() as int));
            lemma_recent_len_bound(secs@, now as int, keep as int);
        }
    }
}

proof fn lemma_recent_len_bound(secs: Seq<u64>, now: int, keep: int)
    ensures
        recent_len(secs, now, keep) <= secs.len(),
    decreases secs.len(),
{
    if secs.len() > 0 {
        lemma_recent_len_bound(secs.drop_last(), now, keep);
    }
}

/// In a window whose seconds go down from the front, exactly the first
/// `recent_len` entries are newer than `now - keep`.
pub proof fn lemma_recent_len(secs: Seq<u64>, now: int, keep: int)
    requires
        newest_first(secs),
    ensures
        recent_len(secs, now, keep) <= secs.len(),
        forall|i: int|
            0 <= i < secs.len() ==> (i < recent_len(secs, now, keep) <==> #[trigger] secs[i] + keep
                > now),
    decreases secs.len(),
{
    if secs.len() > 0 {
        let p = secs.drop_last();
        assert forall|i: int, j: int| 0 <= i < j < p.len() implies p[i] > p[j] by {
            assert(p[i] == secs[i] && p[j] == secs[j]);
        }
        lemma_recent_len(p, now, keep);
        assert forall|i: int| 0 <= i < secs.len() implies (i < recent_len(secs, now, keep)
            <==> #[trigger] secs[i] + keep > now) by {
            if i < p.len() {
                assert(p[i] == secs[i]);
                assert(secs[i] > secs.last());
            }
        }
    }
}

/// Strictly falling seconds lose at least one a step.
proof fn lemma_falling_gap(secs: Seq<u64>, i: int)
    requires
        newest_first(secs),
        0 <= i < secs.len(),
    ensures
        secs[i] <= secs[0] - i,
    decreases i,
{
    if i > 0 {
        lemma_falling_gap(secs, i - 1);
        assert(secs[i - 1] > secs[i]);
    }
}

/// After a new second `now` (later than the window's second `cur`), the
/// front plus the recent entries form a window again.
proof fn lemma_window_after_new_second(secs: Seq<u64>, cur: u64, now: u64, keep: u64)
    requires
        window_ok(secs, cur, keep),
        cur < now,
    ensures
        window_ok(seq![now] + secs.take(recent_len(secs, now as int, keep as int) as int), now, keep),
{
    lemma_recent_len(secs, now as int, keep as int);
    let k = recent_len(secs, now as int, keep as int) as int;
    let w = seq![now] + secs.take(k);
    assert(w.len() == k + 1);
    assert forall|i: int| 0 <= i < w.len() implies #[trigger] w[i] + keep > now by {
        if i > 0 {
            assert(w[i] == secs[i - 1]);
        }
    }
    assert forall|i: int, j: int| 0 <= i < j < w.len() implies w[i] > w[j] by {
        assert(w[j] == secs[j - 1]);
        if i > 0 {
            assert(w[i] == secs[i - 1]);
        } else {
            assert(secs[j - 1] <= secs[0]) by {
                if j - 1 > 0 {
                    assert(secs[0] > secs[j - 1]);
                }
            }
        }
    }
    if k > 0 {
        lemma_falling_gap(secs, k - 1);
        assert(secs[k - 1] + keep > now);
    }
}

/// The ping window after a new second holds exactly the seconds of the
/// last ten: an old entry stays if and only if its second is newer than
/// the new second minus ten, and then keeps its statistics.
pub proof fn law_pings_of_the_last_ten_seconds(
    pings: Seq<PredictionTimingCollection>,
    secs: Seq<u64>,
    now: u64,
    ping: u128,
    i: int,
)
    requires
        newest_first(secs),
        pings.len() == secs.len(),
        0 <= i < secs.len(),
    ensures
        ({
            let k = recent_len(secs, now as int, PING_SECONDS as int) as int;
            let new_secs = seq![now] + secs.take(k);
            let new_pings = seq![first_of_second(ping)] + pings.take(k);
            &&& (secs[i] + PING_SECONDS > now <==> (new_secs.len() > i + 1 && new_secs[i + 1]
                == secs[i]))
            &&& secs[i] + PING_SECONDS > now ==> new_pings[i + 1] == pings[i]
            &&& forall|j: int| 0 <= j < new_secs.len() ==> #[trigger] new_secs[j] + PING_SECONDS
                > now
        }),
{
    lemma_recent_len(secs, now as int, PING_SECONDS as int);
}

proof fn lemma_pings_bounds(s: Seq<PredictionTimingCollection>)
    requires
        s.len() >= 1,
    ensures
        forall|i: int| 0 <= i < s.len() ==> #[trigger] s[i].max <= pings_max(s),
        forall|i: int| 0 <= i < s.len() ==> pings_min(s) <= #[trigger] s[i].min,
    decreases s.len(),
{
    if s.len() > 1 {
        let p = s.drop_last();
        lemma_pings_bounds(p);
        assert forall|i: int| 0 <= i < s.len() implies #[trigger] s[i].max <= pings_max(s) by {
            if i < p.len() {
                assert(s[i] == p[i]);
            }
        }
        assert forall|i: int| 0 <= i < s.len() implies pings_min(s) <= #[trigger] s[i].min by {
            if i < p.len() {
                assert(s[i] == p[i]);
            }
        }
    } else {
        assert(pings_max(s.drop_last()) == 0);
    }
}

/// The lowest ping of the window is never above the highest.
pub proof fn law_ping_min_not_above_max(t: PredictionTiming)
    requires
        t.wf(),
    ensures
        pings_min(t.pings()) <= pings_max(t.pings()),
{
    lemma_pings_bounds(t.pings());
    assert(collection_ok(t.pings()[0]));
}

/// Once the window's length in seconds has passed without an entry, the
/// next entry is the only one left: old measurements stop counting.
pub proof fn law_window_forgets_old_seconds<T>(s: Seq<T>, keep: int, diff: int, first: T)
    requires
        0 <= keep <= diff,
    ensures
        advance(s, keep, diff, first) == seq![first],
{
    assert(s.take(0) =~= Seq::<T>::empty());
    assert(seq![first] + s.take(0) =~= seq![first]);
}

/// A new second keeps at most the window's length of entries: the newest
/// and the `keep - 1` before it (fewer when more seconds have passed).
pub proof fn law_window_keeps_newest<T>(s: Seq<T>, keep: int, diff: int, first: T)
    requires
        1 <= diff,
        1 <= keep,
        s.len() <= keep,
    ensures
        advance(s, keep, diff, first).len() <= keep,
        advance(s, keep, diff, first)[0] == first,
        forall|i: int|
            1 <= i < advance(s, keep, diff, first).len() ==> #[trigger] advance(
                s,
                keep,
                diff,
                first,
            )[i] == s[i - 1],
{
}

/// The sum of pings.
pub open spec fn ping_sum(pings: Seq<u128>) -> int
    decreases pings.len(),
{
    if pings.len() == 0 {
        0
    } else {
        ping_sum(pings.drop_last()) + pings.last()
    }
}

/// The entry of a second in which the pings `pings` were measured, in
/// order: the first starts it, the others are added to it.
pub open spec fn second_of_pings(pings: Seq<u128>) -> PredictionTimingCollection
    decreases pings.len(),
{
    if pings.len() <= 1 {
        first_of_second(pings[0])
    } else {
        collection_add(second_of_pings(pings.drop_last()), pings.last())
    }
}

/// A second's entry counts its pings, keeps their highest and lowest and
/// their sum, so that its part of the average is the mean of its pings
/// (while the sum fits the 64 bits of nanoseconds a `Duration` is rebuilt
/// from).
pub proof fn law_second_averages_its_pings(pings: Seq<u128>)
    requires
        1 <= pings.len() < usize::MAX,
        ping_sum(pings) <= u64::MAX,
    ensures
        second_of_pings(pings).avg_count == pings.len(),
        second_of_pings(pings).average == ping_sum(pings),
        averages_sum(seq![second_of_pings(pings)]) == ping_sum(pings) / (pings.len() as int),
        forall|i: int| 0 <= i < pings.len() ==> second_of_pings(pings).min <= #[trigger] pings[i]
            && pings[i] <= second_of_pings(pings).max,
        exists|i: int| 0 <= i < pings.len() && second_of_pings(pings).max == #[trigger] pings[i],
        exists|i: int| 0 <= i < pings.len() && second_of_pings(pings).min == #[trigger] pings[i],
    decreases pings.len(),
{
    let c = second_of_pings(pings);
    if pings.len() == 1 {
        assert(pings.drop_last().len() == 0);
        assert(ping_sum(pings.drop_last()) == 0);
        assert(pings.last() == pings[0]);
        assert(ping_sum(pings) == pings[0]);
        assert(pings.last() == pings[0]);
    } else {
        let pre = pings.drop_last();
        assert(ping_sum(pre) <= ping_sum(pings));
        law_second_averages_its_pings(pre);
        let cp = second_of_pings(pre);
        assert(cp.average + pings.last() == ping_sum(pings));
        assert(((cp.average + pings.last()) as u64) as u128 == cp.average + pings.last());
        assert forall|i: int| 0 <= i < pings.len() implies c.min <= #[trigger] pings[i] && pings[i]
            <= c.max by {
            if i < pre.len() {
                assert(pre[i] == pings[i]);
            }
        }
        if pings.last() > cp.max {
            assert(c.max == pings[pings.len() - 1]);
        } else {
            let j = choose|j: int| 0 <= j < pre.len() && cp.max == #[trigger] pre[j];
            assert(c.max == pings[j]);
        }
        if pings.last() < cp.min {
            assert(c.min == pings[pings.len() - 1]);
        } else {
            let j = choose|j: int| 0 <= j < pre.len() && cp.min == #[trigger] pre[j];
            assert(c.min == pings[j]);
        }
    }
    let one = seq![c];
    assert(one.drop_last() =~= Seq::<PredictionTimingCollection>::empty());
    assert(one.last() == c);
    assert(averages_sum(one.drop_last()) == 0);
    assert(averages_sum(one) == c.average / (c.avg_count as u128));
    assert(c.avg_count as u128 == pings.len());
}

proof fn lemma_extremes_attained(s: Seq<PredictionTimingCollection>)
    requires
        s.len() >= 1,
    ensures
        exists|i: int| 0 <= i < s.len() && pings_max(s) == #[trigger] s[i].max,
        exists|i: int| 0 <= i < s.len() && pings_min(s) == #[trigger] s[i].min,
    decreases s.len(),
{
    if s.len() == 1 {
        assert(s.drop_last().len() == 0);
        assert(pings_max(s.drop_last()) == 0);
        assert(s.last() == s[0]);
        assert(pings_max(s) == s[0].max);
        assert(pings_min(s) == s[0].min);
    } else {
        let p = s.drop_last();
        lemma_extremes_attained(p);
        let i = choose|i: int| 0 <= i < p.len() && pings_max(p) == #[trigger] p[i].max;
        let j = choose|j: int| 0 <= j < p.len() && pings_min(p) == #[trigger] p[j].min;
        assert(s[i] == p[i]);
        assert(s[j] == p[j]);
        assert(s[s.len() - 1] == s.last());
    }
}

proof fn lemma_frame_times_max(s: Seq<u128>)
    ensures
        forall|i: int| 0 <= i < s.len() ==> #[trigger] s[i] <= frame_times_max(s),
        s.len() >= 1 ==> exists|i: int| 0 <= i < s.len() && frame_times_max(s) == #[trigger] s[i],
    decreases s.len(),
{
    if s.len() > 0 {
        let p = s.drop_last();
        lemma_frame_times_max(p);
        assert forall|i: int| 0 <= i < s.len() implies #[trigger] s[i] <= frame_times_max(s) by {
            if i < p.len() {
                assert(s[i] == p[i]);
            }
        }
        if p.len() == 0 || s.last() > frame_times_max(p) {
            assert(s[s.len() - 1] == s.last());
            if p.len() == 0 {
                assert(frame_times_max(p) == 0);
            }
        } else {
            let i = choose|i: int| 0 <= i < p.len() && frame_times_max(p) == #[trigger] p[i];
            assert(s[i] == p[i]);
        }
    }
}

/// The highest ping of a window is the highest of its seconds' highest
/// pings and the lowest the lowest of their lowest; the highest frame time
/// is the highest of the window's frame times.
pub proof fn law_window_extremes(s: Seq<PredictionTimingCollection>, f: Seq<u128>)
    requires
        s.len() >= 1,
        f.len() >= 1,
    ensures
        forall|i: int| 0 <= i < s.len() ==> #[trigger] s[i].max <= pings_max(s),
        exists|i: int| 0 <= i < s.len() && pings_max(s) == #[trigger] s[i].max,
        forall|i: int| 0 <= i < s.len() ==> pings_min(s) <= #[trigger] s[i].min,
        exists|i: int| 0 <= i < s.len() && pings_min(s) == #[trigger] s[i].min,
        forall|i: int| 0 <= i < f.len() ==> #[trigger] f[i] <= frame_times_max(f),
        exists|i: int| 0 <= i < f.len() && frame_times_max(f) == #[trigger] f[i],
{
    lemma_pings_bounds(s);
    lemma_extremes_attained(s);
    lemma_frame_times_max(f);
}

} // verus!
