//! Sliding-window admission control.
//!
//! The limiter keeps the instants (milliseconds on the caller's clock) of
//! the admissions that still fall inside the window.  A call is admitted
//! exactly when, after instants older than the window are dropped, fewer
//! than `max_requests` remain.  Waiting between attempts is the caller's
//! affair; abandoning an attempt consumes no slot.

use vstd::prelude::*;

verus! {

pub struct RateLimiter {
    pub max_requests: usize,
    /// Window width in milliseconds.
    pub time_window: u64,
    pub requests: Vec<u64>,
}

/// The stamps of `s` that are still inside the window, in order: those
/// strictly after `cutoff`.
pub open spec fn retained(s: Seq<u64>, cutoff: u64) -> Seq<u64>
    decreases s.len(),
{
    if s.len() == 0 {
        Seq::empty()
    } else if s.last() > cutoff {
        retained(s.drop_last(), cutoff).push(s.last())
    } else {
        retained(s.drop_last(), cutoff)
    }
}

/// The stamps still inside the window that ends at `now`: younger than
/// the window width.  While the clock has run for less than one window,
/// every stamp is inside it.
pub open spec fn inside_window(s: Seq<u64>, now: u64, w: u64) -> Seq<u64> {
    if now >= w {
        retained(s, (now - w) as u64)
    } else {
        s
    }
}

/// What one admission attempt at `now` does to the stamps, and whether it
/// is admitted.
pub open spec fn admit_spec(s: Seq<u64>, now: u64, max: int, w: u64) -> (Seq<u64>, bool) {
    let kept = inside_window(s, now, w);
    if kept.len() < max {
        (kept.push(now), true)
    } else {
        (kept, false)
    }
}

pub proof fn lemma_retained_len_le(s: Seq<u64>, cutoff: u64)
    ensures
        retained(s, cutoff).len() <= s.len(),
    decreases s.len(),
{
    if s.len() > 0 {
        lemma_retained_len_le(s.drop_last(), cutoff);
    }
}

impl RateLimiter {
    /// At most `max_requests` admissions are on the books.
    pub open spec fn wf(self) -> bool {
        self.requests@.len() <= self.max_requests
    }

    pub fn new(max_requests: usize, time_window_ms: u64) -> (r: RateLimiter)
        ensures
            r.wf(),
            r.max_requests == max_requests,
            r.time_window == time_window_ms,
            r.requests@ == Seq::<u64>::empty(),
    {
        RateLimiter { max_requests, time_window: time_window_ms, requests: Vec::new() }
    }

    /// Tries to take a slot at instant `now`: stamps that left the window
    /// are dropped, and the attempt succeeds exactly when fewer than
    /// `max_requests` stamps remain.
    pub fn try_acquire_at(&mut self, now: u64) -> (r: bool)
        requires
            old(self).wf(),
        ensures
            final(self).wf(),
            final(self).max_requests == old(self).max_requests,
            final(self).time_window == old(self).time_window,
            ({
                let step = admit_spec(
                    old(self).requests@,
                    now,
                    old(self).max_requests as int,
                    old(self).time_window,
                );
                final(self).requests@ == step.0 && r == step.1
            }),
    {
        if now < self.time_window {
            if self.requests.len() < self.max_requests {
                self.requests.push(now);
                return true;
            }
            return false;
        }
        let cutoff: u64 = now - self.time_window;
        let ghost orig = self.requests@;
        let mut i: usize = 0;
        let ghost mut p: int = 0;
        while i < self.requests.len()
            invariant
                0 <= p <= orig.len(),
                i == retained(orig.take(p), cutoff).len(),
                self.requests@ == retained(orig.take(p), cutoff) + orig.skip(p),
                self.max_requests == old(self).max_requests,
                self.time_window == old(self).time_window,
                cutoff == now - old(self).time_window,
                now >= old(self).time_window,
            decreases orig.len() - p,
        {
            proof {
                assert(orig.take(p + 1).drop_last() =~= orig.take(p));
                assert(orig.take(p + 1).last() == orig[p]);
                assert(self.requests@[i as int] == orig[p]);
            }
            if self.requests[i] <= cutoff {
                self.requests.remove(i);
                proof {
                    assert(self.requests@ =~= retained(orig.take(p + 1), cutoff) + orig.skip(
                        p + 1,
                    ));
                    p = p + 1;
                }
            } else {
                i = i + 1;
                proof {
                    assert(self.requests@ =~= retained(orig.take(p + 1), cutoff) + orig.skip(
                        p + 1,
                    ));
                    p = p + 1;
                }
            }
        }
        proof {
            assert(orig.take(p) =~= orig);
            assert(orig.skip(p) =~= Seq::<u64>::empty());
            assert(self.requests@ =~= retained(orig, cutoff));
            lemma_retained_len_le(orig, cutoff);
        }
        if self.requests.len() < self.max_requests {
            self.requests.push(now);
            true
        } else {
            false
        }
    }
}

} // verus!

verus! {

/// The stamps of `s` strictly after `c`, in order (`c` as a mathematical
/// integer, so that no window start is too early to speak of).
pub open spec fn after(s: Seq<u64>, c: int) -> Seq<u64>
    decreases s.len(),
{
    if s.len() == 0 {
        Seq::empty()
    } else if s.last() > c {
        after(s.drop_last(), c).push(s.last())
    } else {
        after(s.drop_last(), c)
    }
}

/// How many stamps of `s` lie inside the window `(lo, hi]`.
pub open spec fn count_window(s: Seq<u64>, lo: int, hi: int) -> int
    decreases s.len(),
{
    if s.len() == 0 {
        0
    } else {
        count_window(s.drop_last(), lo, hi) + (if lo < s.last() && s.last() <= hi {
            1int
        } else {
            0int
        })
    }
}

/// Times are attempted in order.
pub open spec fn monotone(times: Seq<u64>) -> bool {
    forall|i: int, j: int| 0 <= i <= j < times.len() ==> (#[trigger] times[i]) <= #[trigger] times[j]
}

/// The limiter's stamps after attempts at the given times, starting
/// empty.
pub open spec fn run_stamps(times: Seq<u64>, max: int, w: u64) -> Seq<u64>
    decreases times.len(),
{
    if times.len() == 0 {
        Seq::empty()
    } else {
        admit_spec(run_stamps(times.drop_last(), max, w), times.last(), max, w).0
    }
}

/// The attempt times that were admitted, in order.
pub open spec fn admitted(times: Seq<u64>, max: int, w: u64) -> Seq<u64>
    decreases times.len(),
{
    if times.len() == 0 {
        Seq::empty()
    } else {
        let prev = admitted(times.drop_last(), max, w);
        if admit_spec(run_stamps(times.drop_last(), max, w), times.last(), max, w).1 {
            prev.push(times.last())
        } else {
            prev
        }
    }
}

proof fn lemma_after_compose(s: Seq<u64>, c1: int, c2: int)
    requires
        c1 <= c2,
    ensures
        after(after(s, c1), c2) == after(s, c2),
    decreases s.len(),
{
    if s.len() > 0 {
        lemma_after_compose(s.drop_last(), c1, c2);
        if s.last() > c1 {
            assert(after(s, c1).drop_last() =~= after(s.drop_last(), c1));
        }
    }
}

proof fn lemma_retained_is_after(s: Seq<u64>, c: u64)
    ensures
        retained(s, c) == after(s, c as int),
    decreases s.len(),
{
    if s.len() > 0 {
        lemma_retained_is_after(s.drop_last(), c);
    }
}

proof fn lemma_after_low(s: Seq<u64>, c: int)
    requires
        forall|i: int| 0 <= i < s.len() ==> (#[trigger] s[i]) > c,
    ensures
        after(s, c) == s,
    decreases s.len(),
{
    if s.len() > 0 {
        assert(forall|i: int|
            0 <= i < s.drop_last().len() ==> (#[trigger] s.drop_last()[i]) == s[i]);
        lemma_after_low(s.drop_last(), c);
        assert(after(s, c) =~= s);
    }
}

proof fn lemma_count_window_le_after(s: Seq<u64>, lo: int, hi: int, c: int)
    requires
        c <= lo,
    ensures
        count_window(s, lo, hi) <= after(s, c).len(),
    decreases s.len(),
{
    if s.len() > 0 {
        lemma_count_window_le_after(s.drop_last(), lo, hi, c);
    }
}

proof fn lemma_count_window_high(s: Seq<u64>, lo: int, hi: int)
    requires
        forall|i: int| 0 <= i < s.len() ==> (#[trigger] s[i]) <= lo,
    ensures
        count_window(s, lo, hi) == 0,
    decreases s.len(),
{
    if s.len() > 0 {
        assert(forall|i: int|
            0 <= i < s.drop_last().len() ==> (#[trigger] s.drop_last()[i]) == s[i]);
        lemma_count_window_high(s.drop_last(), lo, hi);
    }
}

/// Admitted times never exceed the last attempt.
proof fn lemma_admitted_bounded(times: Seq<u64>, max: int, w: u64, b: u64)
    requires
        monotone(times),
        forall|i: int| 0 <= i < times.len() ==> (#[trigger] times[i]) <= b,
    ensures
        forall|i: int|
            0 <= i < admitted(times, max, w).len() ==> (#[trigger] admitted(times, max, w)[i])
                <= b,
    decreases times.len(),
{
    if times.len() > 0 {
        let d = times.drop_last();
        assert(forall|i: int| 0 <= i < d.len() ==> (#[trigger] d[i]) == times[i]);
        lemma_admitted_bounded(d, max, w, b);
        assert forall|i: int|
            0 <= i < admitted(times, max, w).len() implies (#[trigger] admitted(
            times,
            max,
            w,
        )[i]) <= b by {
            let prev = admitted(d, max, w);
            if i < prev.len() {
                assert(admitted(times, max, w)[i] == prev[i]);
            }
        }
    }
}

/// The limiter's stamps are exactly the admitted times still inside the
/// window ending at the last attempt.
proof fn lemma_run_is_window(times: Seq<u64>, max: int, w: u64)
    requires
        monotone(times),
        times.len() > 0,
        w >= 1,
    ensures
        run_stamps(times, max, w) == after(admitted(times, max, w), times.last() - w),
    decreases times.len(),
{
    let d = times.drop_last();
    let t = times.last();
    let prev_run = run_stamps(d, max, w);
    let prev_adm = admitted(d, max, w);
    assert(forall|i: int| 0 <= i < d.len() ==> (#[trigger] d[i]) == times[i]);
    assert(monotone(d));
    if d.len() == 0 {
        assert(prev_run =~= Seq::<u64>::empty());
        assert(prev_adm =~= Seq::<u64>::empty());
        assert(after(prev_adm, t - w) =~= Seq::<u64>::empty());
        if admit_spec(prev_run, t, max, w).1 {
            assert(inside_window(prev_run, t, w) =~= Seq::<u64>::empty());
            assert(admitted(times, max, w) =~= seq![t]);
            assert(seq![t].drop_last() =~= Seq::<u64>::empty());
            assert(t > t - w);
            assert(after(seq![t], t - w) =~= seq![t]);
        } else {
            assert(inside_window(prev_run, t, w).len() >= max);
        }
    } else {
        lemma_run_is_window(d, max, w);
        let lastd = d.last();
        assert(lastd <= t);
        lemma_admitted_bounded(d, max, w, lastd);
        let kept = inside_window(prev_run, t, w);
        assert(kept == after(prev_adm, t - w)) by {
            if t >= w {
                lemma_retained_is_after(prev_run, (t - w) as u64);
                lemma_after_compose(prev_adm, lastd - w, t - w);
            } else {
                assert(forall|i: int|
                    0 <= i < prev_run.len() ==> (#[trigger] prev_run[i]) > t - w);
                lemma_after_low(prev_run, t - w);
                assert(forall|i: int|
                    0 <= i < prev_adm.len() ==> (#[trigger] prev_adm[i]) > t - w);
                lemma_after_low(prev_adm, t - w);
                lemma_after_compose(prev_adm, lastd - w, t - w);
            }
        }
        if admit_spec(prev_run, t, max, w).1 {
            assert(admitted(times, max, w) == prev_adm.push(t));
            assert(prev_adm.push(t).drop_last() =~= prev_adm);
            assert(prev_adm.push(t).last() == t && t > t - w);
            assert(after(prev_adm.push(t), t - w) == after(prev_adm, t - w).push(t));
        } else {
            assert(admitted(times, max, w) == prev_adm);
        }
    }
}

/// Law: across any window of exactly the limiter's width, at most
/// `max_requests` attempts are admitted.  The attempt times must come in
/// order, as one clock hands them out.
pub proof fn lemma_sliding_window_bound(times: Seq<u64>, max: int, w: u64, t: int)
    requires
        monotone(times),
        max >= 0,
        w >= 1,
    ensures
        count_window(admitted(times, max, w), t - w, t) <= max,
    decreases times.len(),
{
    if times.len() == 0 {
    } else {
        let d = times.drop_last();
        let tn = times.last();
        assert(forall|i: int| 0 <= i < d.len() ==> (#[trigger] d[i]) == times[i]);
        assert(monotone(d));
        lemma_sliding_window_bound(d, max, w, t);
        let prev_run = run_stamps(d, max, w);
        let prev_adm = admitted(d, max, w);
        if admit_spec(prev_run, tn, max, w).1 {
            let adm = prev_adm.push(tn);
            assert(admitted(times, max, w) == adm);
            assert(count_window(adm, t - w, t) == count_window(prev_adm, t - w, t) + (if t - w
                < tn && tn <= t {
                1int
            } else {
                0int
            })) by {
                assert(adm.drop_last() =~= prev_adm);
            }
            if t - w < tn && tn <= t {
                lemma_run_is_window(times, max, w);
                lemma_admitted_bounded(d, max, w, tn);
                assert forall|i: int| 0 <= i < adm.len() implies (#[trigger] adm[i]) <= tn by {
                    if i < prev_adm.len() {
                        assert(adm[i] == prev_adm[i]);
                    }
                }
                assert(count_window(adm, t - w, t) <= count_window(adm, tn - w, tn as int)) by {
                    lemma_count_window_monotone(adm, t - w, t, tn - w, tn as int);
                }
                assert(count_window(adm, tn - w, tn as int) <= after(adm, tn - w).len()) by {
                    lemma_count_window_le_after(adm, tn - w, tn as int, tn - w);
                }
                assert(after(adm, tn - w).len() == run_stamps(times, max, w).len());
                assert(run_stamps(times, max, w).len() <= max) by {
                    let kept = inside_window(prev_run, tn, w);
                    assert(kept.len() < max);
                }
            }
        } else {
            assert(admitted(times, max, w) == prev_adm);
        }
    }
}

/// With every stamp at most `hi2` and the windows nested on the left,
/// the earlier window counts no more.
proof fn lemma_count_window_monotone(s: Seq<u64>, lo1: int, hi1: int, lo2: int, hi2: int)
    requires
        lo2 <= lo1,
        forall|i: int| 0 <= i < s.len() ==> (#[trigger] s[i]) <= hi2,
        hi2 <= hi1,
    ensures
        count_window(s, lo1, hi1) <= count_window(s, lo2, hi2),
    decreases s.len(),
{
    if s.len() > 0 {
        assert(forall|i: int|
            0 <= i < s.drop_last().len() ==> (#[trigger] s.drop_last()[i]) == s[i]);
        lemma_count_window_monotone(s.drop_last(), lo1, hi1, lo2, hi2);
    }
}

} // verus!
