use vstd::prelude::*;

verus! {

/// How many values of `s` lie in the closed interval `[lo, hi]`.
pub open spec fn count_in(s: Seq<u64>, lo: int, hi: int) -> int
    decreases s.len(),
{
    if s.len() == 0 {
        0
    } else {
        count_in(s.drop_last(), lo, hi) + if lo <= s.last() <= hi {
            1int
        } else {
            0int
        }
    }
}

pub open spec fn sorted(s: Seq<u64>) -> bool {
    forall|i: int, j: int| 0 <= i <= j < s.len() ==> s[i] <= s[j]
}

pub proof fn lemma_count_in_push(s: Seq<u64>, v: u64, lo: int, hi: int)
    ensures
        count_in(s.push(v), lo, hi) == count_in(s, lo, hi) + if lo <= v <= hi {
            1int
        } else {
            0int
        },
{
    assert(s.push(v).drop_last() =~= s);
}

pub proof fn lemma_count_in_concat(a: Seq<u64>, b: Seq<u64>, lo: int, hi: int)
    ensures
        count_in(a + b, lo, hi) == count_in(a, lo, hi) + count_in(b, lo, hi),
    decreases b.len(),
{
    if b.len() == 0 {
        assert(a + b =~= a);
    } else {
        assert((a + b).drop_last() =~= a + b.drop_last());
        assert((a + b).last() == b.last());
        lemma_count_in_concat(a, b.drop_last(), lo, hi);
    }
}

pub proof fn lemma_count_in_all(s: Seq<u64>, lo: int, hi: int)
    requires
        forall|i: int| 0 <= i < s.len() ==> lo <= #[trigger] s[i] <= hi,
    ensures
        count_in(s, lo, hi) == s.len(),
    decreases s.len(),
{
    if s.len() > 0 {
        lemma_count_in_all(s.drop_last(), lo, hi);
    }
}

pub proof fn lemma_count_in_none(s: Seq<u64>, lo: int, hi: int)
    requires
        forall|i: int| 0 <= i < s.len() ==> !(lo <= #[trigger] s[i] <= hi),
    ensures
        count_in(s, lo, hi) == 0,
    decreases s.len(),
{
    if s.len() > 0 {
        lemma_count_in_none(s.drop_last(), lo, hi);
    }
}

pub proof fn lemma_count_in_nonneg(s: Seq<u64>, lo: int, hi: int)
    ensures
        count_in(s, lo, hi) >= 0,
    decreases s.len(),
{
    if s.len() > 0 {
        lemma_count_in_nonneg(s.drop_last(), lo, hi);
    }
}

/// If membership of the first interval implies membership of the second
/// for every value of `s`, the first count is no larger.
pub proof fn lemma_count_in_subset(s: Seq<u64>, lo1: int, hi1: int, lo2: int, hi2: int)
    requires
        forall|i: int|
            0 <= i < s.len() ==> ((lo1 <= #[trigger] s[i] <= hi1) ==> (lo2 <= s[i] <= hi2)),
    ensures
        count_in(s, lo1, hi1) <= count_in(s, lo2, hi2),
    decreases s.len(),
{
    if s.len() > 0 {
        assert forall|i: int|
            0 <= i < s.drop_last().len() implies ((lo1 <= #[trigger] s.drop_last()[i] <= hi1) ==> (
        lo2 <= s.drop_last()[i] <= hi2)) by {
            assert(s.drop_last()[i] == s[i]);
        }
        lemma_count_in_subset(s.drop_last(), lo1, hi1, lo2, hi2);
    }
}

/// Widening the interval never lowers the count.
pub proof fn lemma_count_in_widen(s: Seq<u64>, lo1: int, hi1: int, lo2: int, hi2: int)
    requires
        lo2 <= lo1,
        hi1 <= hi2,
    ensures
        count_in(s, lo1, hi1) <= count_in(s, lo2, hi2),
    decreases s.len(),
{
    if s.len() > 0 {
        lemma_count_in_widen(s.drop_last(), lo1, hi1, lo2, hi2);
    }
}

/// For a sorted grant history in which every window ending at a grant
/// holds at most `max` grants, every window anywhere holds at most `max`
/// grants.
proof fn lemma_sorted_window_bound(s: Seq<u64>, w: int, max: int, t: int)
    requires
        sorted(s),
        max >= 0,
        forall|j: int|
            0 <= j < s.len() ==> count_in(s, (#[trigger] s[j]) - w, s[j] as int) <= max,
    ensures
        count_in(s, t - w, t) <= max,
    decreases s.len(),
{
    if s.len() == 0 {
        return ;
    }
    let last = s.last() as int;
    if last > t {
        assert(sorted(s.drop_last()));
        assert forall|j: int| 0 <= j < s.drop_last().len() implies count_in(
            s.drop_last(),
            (#[trigger] s.drop_last()[j]) - w,
            s.drop_last()[j] as int,
        ) <= max by {
            assert(s.drop_last()[j] == s[j]);
            assert(count_in(s, s[j] - w, s[j] as int) <= max);
        }
        lemma_sorted_window_bound(s.drop_last(), w, max, t);
    } else if last < t - w {
        assert forall|i: int| 0 <= i < s.len() implies !(t - w <= #[trigger] s[i] <= t) by {
            assert(s[i] <= s.last());
        }
        lemma_count_in_none(s, t - w, t);
        lemma_count_in_nonneg(s, t - w, t);
    } else {
        assert forall|i: int|
            0 <= i < s.len() implies ((t - w <= #[trigger] s[i] <= t) ==> (last - w <= s[i]
            <= last)) by {
            assert(s[i] <= s.last());
        }
        lemma_count_in_subset(s, t - w, t, last - w, last);
        assert(count_in(s, last - w, last) <= max);
    }
}

/// Admission control over a sliding time window: a call is granted only
/// while fewer than `max_per_minute` grants have been given in the window
/// of `window_millis` milliseconds ending now.
///
/// Time is supplied by the caller in milliseconds; a clock reading older
/// than one already seen is treated as the latest reading seen, so the
/// effective clock never runs backwards.
pub struct OrderRateLimiter {
    pub max_per_minute: u32,
    pub window_millis: u64,
    pub times: Vec<u64>,
    pub latest: u64,
    pub admitted: Ghost<Seq<u64>>,
}

impl OrderRateLimiter {
    pub open spec fn wf(&self) -> bool {
        &&& sorted(self.admitted@)
        &&& self.times@.len() <= self.admitted@.len()
        &&& self.times@ == self.admitted@.skip(self.admitted@.len() - self.times@.len())
        &&& forall|i: int|
            0 <= i < self.admitted@.len() ==> #[trigger] self.admitted@[i] <= self.latest
        &&& forall|i: int|
            0 <= i < self.admitted@.len() - self.times@.len() ==> #[trigger] self.admitted@[i]
                + self.window_millis < self.latest
        &&& forall|j: int|
            0 <= j < self.admitted@.len() ==> count_in(
                self.admitted@,
                (#[trigger] self.admitted@[j]) - self.window_millis,
                self.admitted@[j] as int,
            ) <= self.max_per_minute
        &&& self.times@.len() <= self.max_per_minute
    }

    pub fn new(window_seconds: u32, max_per_minute: u32) -> (r: Self)
        ensures
            r.wf(),
            r.admitted@ == Seq::<u64>::empty(),
            r.max_per_minute == max_per_minute,
            r.window_millis == window_seconds * 1000,
            r.latest == 0,
    {
        let r = OrderRateLimiter {
            max_per_minute,
            window_millis: (window_seconds as u64) * 1000,
            times: Vec::new(),
            latest: 0,
            admitted: Ghost(Seq::empty()),
        };
        proof {
            assert(r.times@ =~= r.admitted@.skip(0));
        }
        r
    }

    /// Evicts grants older than the window, then grants exactly when fewer
    /// than the maximum remain inside it, recording the grant time.
    pub fn allow(&mut self, now_ms: u64) -> (granted: bool)
        requires
            old(self).wf(),
        ensures
            final(self).wf(),
            final(self).max_per_minute == old(self).max_per_minute,
            final(self).window_millis == old(self).window_millis,
            final(self).latest == if now_ms > old(self).latest {
                now_ms
            } else {
                old(self).latest
            },
            granted <==> count_in(
                old(self).admitted@,
                final(self).latest - old(self).window_millis,
                final(self).latest as int,
            ) < old(self).max_per_minute,
            final(self).admitted@ == if granted {
                old(self).admitted@.push(final(self).latest)
            } else {
                old(self).admitted@
            },
    {
        let eff: u64 = if now_ms > self.latest {
            now_ms
        } else {
            self.latest
        };
        self.latest = eff;
        let ghost pre = self.admitted@;
        let w = self.window_millis;
        if eff > w {
            let cutoff: u64 = eff - w;
            while self.times.len() > 0 && self.times[0] < cutoff
                invariant
                    self.admitted@ == pre,
                    sorted(pre),
                    self.times@.len() <= pre.len(),
                    self.times@ == pre.skip(pre.len() - self.times@.len()),
                    cutoff == eff - w,
                    w == self.window_millis,
                    eff == self.latest,
                    self.max_per_minute == old(self).max_per_minute,
                    self.window_millis == old(self).window_millis,
                    forall|i: int|
                        0 <= i < pre.len() ==> #[trigger] pre[i] <= eff,
                    forall|i: int|
                        0 <= i < pre.len() - self.times@.len() ==> #[trigger] pre[i] + w < eff,
                decreases self.times@.len(),
            {
                proof {
                    let k = pre.len() - self.times@.len();
                    assert(self.times@[0] == pre[k]);
                    assert(self.times@.skip(1) =~= pre.skip(k + 1));
                    assert(self.times@.remove(0) =~= self.times@.skip(1));
                }
                self.times.remove(0);
            }
        }
        proof {
            let k = pre.len() - self.times@.len();
            assert(pre =~= pre.take(k) + pre.skip(k));
            assert forall|i: int| 0 <= i < k implies !(eff - w <= #[trigger] pre[i] <= eff) by {
                assert(pre[i] + w < eff);
            }
            lemma_count_in_none(pre.take(k), eff - w, eff as int);
            assert forall|i: int| 0 <= i < self.times@.len() implies eff - w
                <= #[trigger] self.times@[i] <= eff by {
                assert(self.times@[i] == pre[k + i]);
                if eff > w {
                    assert(self.times@[0] == pre[k]);
                    assert(pre[k] <= pre[k + i]);
                }
            }
            lemma_count_in_all(pre.skip(k), eff - w, eff as int);
            lemma_count_in_concat(pre.take(k), pre.skip(k), eff - w, eff as int);
            assert(count_in(pre, eff - w, eff as int) == self.times@.len());
        }
        if self.times.len() < self.max_per_minute as usize {
            self.times.push(eff);
            proof {
                let k = pre.len() - (self.times@.len() - 1);
                let grown = pre.push(eff);
                self.admitted@ = grown;
                assert(self.times@ =~= grown.skip(grown.len() - self.times@.len()));
                assert(sorted(grown)) by {
                    assert forall|i: int, j: int|
                        0 <= i <= j < grown.len() implies grown[i] <= grown[j] by {
                        if j < grown.len() - 1 {
                            assert(pre[i] <= pre[j]);
                        } else if i < grown.len() - 1 {
                            assert(pre[i] <= eff);
                        }
                    }
                }
                lemma_count_in_push(pre, eff, eff - w, eff as int);
                assert forall|j: int| 0 <= j < grown.len() implies count_in(
                    grown,
                    (#[trigger] grown[j]) - w,
                    grown[j] as int,
                ) <= self.max_per_minute by {
                    lemma_count_in_push(pre, eff, grown[j] - w, grown[j] as int);
                    if j < grown.len() - 1 {
                        assert(grown[j] == pre[j]);
                        assert(count_in(pre, pre[j] - w, pre[j] as int) <= self.max_per_minute);
                        if grown[j] - w <= eff <= grown[j] {
                            assert(eff == pre[j]);
                            lemma_count_in_widen(
                                grown,
                                grown[j] - w,
                                grown[j] as int,
                                eff - w,
                                eff as int,
                            );
                            lemma_count_in_push(pre, eff, eff - w, eff as int);
                        }
                    } else {
                        assert(grown[j] == eff);
                    }
                }
            }
            true
        } else {
            false
        }
    }
}

/// In any sliding window of the configured duration, at most
/// `max_per_minute` calls have ever been granted: for every instant `t`,
/// the grants lying in `[t - window_millis, t]` number at most the maximum.
pub proof fn lemma_rate_limit_sliding_window(lim: &OrderRateLimiter, t: int)
    requires
        lim.wf(),
    ensures
        count_in(lim.admitted@, t - lim.window_millis, t) <= lim.max_per_minute,
{
    lemma_sorted_window_bound(
        lim.admitted@,
        lim.window_millis as int,
        lim.max_per_minute as int,
        t,
    );
}

} // verus!
