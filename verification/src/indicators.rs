use vstd::prelude::*;

use crate::math::{simple_moving_average, sum_of, MeanValue};

verus! {

/// The window after one observation is pushed: the oldest value is evicted
/// when the window would exceed the period.
pub open spec fn ma_next(w: Seq<i64>, period: nat, v: i64) -> Seq<i64> {
    if w.len() < period {
        w.push(v)
    } else {
        w.push(v).skip(1)
    }
}

/// The window after a whole sequence of observations, oldest first.
pub open spec fn ma_next_many(w: Seq<i64>, period: nat, values: Seq<i64>) -> Seq<i64>
    decreases values.len(),
{
    if values.len() == 0 {
        w
    } else {
        ma_next_many(ma_next(w, period, values.first()), period, values.drop_first())
    }
}

/// Folding one more observation extends the window by one step.
pub proof fn lemma_ma_next_many_snoc(w: Seq<i64>, period: nat, s: Seq<i64>, v: i64)
    ensures
        ma_next_many(w, period, s.push(v)) == ma_next(ma_next_many(w, period, s), period, v),
    decreases s.len(),
{
    if s.len() == 0 {
        assert(s.push(v).first() == v);
        assert(s.push(v).drop_first() =~= Seq::<i64>::empty());
        assert(ma_next_many(ma_next(w, period, v), period, Seq::<i64>::empty()) == ma_next(
            w,
            period,
            v,
        ));
    } else {
        assert(s.push(v).first() == s.first());
        assert(s.push(v).drop_first() =~= s.drop_first().push(v));
        lemma_ma_next_many_snoc(ma_next(w, period, s.first()), period, s.drop_first(), v);
    }
}

/// Whatever history of observations flows through a window, it holds
/// exactly the most recent `period` of them, or all of them while fewer
/// have arrived.  With `update`'s contract, a mean it returns is over
/// exactly the last `period` observations pushed.
pub proof fn lemma_window_holds_last_period(w: Seq<i64>, period: nat, values: Seq<i64>)
    requires
        w.len() <= period,
    ensures
        w.len() + values.len() <= period ==> ma_next_many(w, period, values) == w + values,
        w.len() + values.len() > period ==> ma_next_many(w, period, values) == (w + values).skip(
            w.len() + values.len() - period,
        ),
    decreases values.len(),
{
    if values.len() == 0 {
        assert(w + values =~= w);
    } else {
        let s = values.drop_last();
        let v = values.last();
        assert(s.push(v) =~= values);
        lemma_ma_next_many_snoc(w, period, s, v);
        lemma_window_holds_last_period(w, period, s);
        let window_s = ma_next_many(w, period, s);
        if w.len() + s.len() < period {
            assert(window_s == w + s);
            assert((w + s).push(v) =~= w + values);
        } else if w.len() + s.len() == period {
            assert(window_s == w + s);
            if period == 0 {
                assert(ma_next(window_s, period, v) =~= (w + values).skip(1));
            } else {
                assert((w + s).push(v).skip(1) =~= (w + values).skip(1));
            }
        } else {
            let d = w.len() + s.len() - period;
            assert(window_s == (w + s).skip(d));
            if period == 0 {
                assert(window_s.len() == 0);
                assert(ma_next(window_s, period, v) =~= (w + values).skip(d + 1));
            } else {
                assert(window_s.len() == period);
                assert(window_s.push(v) =~= (w + s.push(v)).skip(d));
                assert((w + s.push(v)).skip(d).skip(1) =~= (w + values).skip(d + 1));
                assert(ma_next(window_s, period, v) =~= (w + values).skip(d + 1));
            }
        }
    }
}

/// The window a seeding call leaves behind: the supplied history truncated
/// to the period.
pub open spec fn seeded(values: Seq<i64>, period: nat) -> Seq<i64> {
    if values.len() <= period {
        values
    } else {
        values.take(period as int)
    }
}

/// A moving window over the most recent `period` fixed-point observations,
/// exposing their arithmetic mean only while the window is exactly full.
#[derive(Debug)]
pub struct MovingAverage {
    pub window: Vec<i64>,
    pub period: usize,
}

impl MovingAverage {
    /// The window never holds more than `period` observations.
    pub open spec fn wf(&self) -> bool {
        self.window@.len() <= self.period
    }

    /// Whether the mean is available: the window is full and non-empty.
    pub open spec fn spec_full(&self) -> bool {
        self.window@.len() == self.period && self.period > 0
    }

    pub fn new(period: usize) -> (r: Self)
        ensures
            r.window@.len() == 0,
            r.period == period,
            r.wf(),
    {
        MovingAverage { window: Vec::new(), period }
    }

    /// Replaces the window with the supplied history, truncated to the
    /// period; older state is discarded.
    pub fn seed(&mut self, values: &[i64])
        ensures
            final(self).period == old(self).period,
            final(self).window@ == seeded(values@, old(self).period as nat),
            final(self).wf(),
    {
        self.window.clear();
        let mut i: usize = 0;
        while i < values.len() && i < self.period
            invariant
                i <= values@.len(),
                i <= self.period,
                self.window@ == values@.take(i as int),
                self.period == old(self).period,
            decreases values@.len() - i,
        {
            self.window.push(values[i]);
            proof {
                assert(values@.take(i as int).push(values@[i as int]) =~= values@.take(
                    i as int + 1,
                ));
            }
            i = i + 1;
        }
    }

    /// Pushes one observation, evicting the oldest when the window would
    /// exceed the period, and returns the mean exactly when the window is
    /// full and non-empty.
    pub fn update(&mut self, value: i64) -> (r: Option<MeanValue>)
        requires
            old(self).wf(),
        ensures
            final(self).period == old(self).period,
            final(self).window@ == ma_next(old(self).window@, old(self).period as nat, value),
            final(self).wf(),
            r is Some <==> final(self).spec_full(),
            r matches Some(m) ==> m.sum == sum_of(final(self).window@) && m.count
                == final(self).period,
    {
        self.window.push(value);
        if self.window.len() > self.period {
            self.window.remove(0);
            proof {
                assert(self.window@ =~= old(self).window@.push(value).skip(1));
            }
        }
        if self.window.len() == self.period {
            simple_moving_average(self.window.as_slice())
        } else {
            None
        }
    }

    /// The mean of the current window, exactly when it is full and
    /// non-empty.
    pub fn current(&self) -> (r: Option<MeanValue>)
        ensures
            r is Some <==> self.spec_full(),
            r matches Some(m) ==> m.sum == sum_of(self.window@) && m.count == self.period,
    {
        if self.window.len() == self.period {
            simple_moving_average(self.window.as_slice())
        } else {
            None
        }
    }

    /// A copy of the window, oldest observation first.
    pub fn values(&self) -> (r: Vec<i64>)
        ensures
            r@ == self.window@,
    {
        let mut out: Vec<i64> = Vec::new();
        let mut i: usize = 0;
        while i < self.window.len()
            invariant
                i <= self.window@.len(),
                out@ == self.window@.take(i as int),
            decreases self.window@.len() - i,
        {
            out.push(self.window[i]);
            proof {
                assert(self.window@.take(i as int).push(self.window@[i as int])
                    =~= self.window@.take(i as int + 1));
            }
            i = i + 1;
        }
        proof {
            assert(self.window@.take(self.window@.len() as int) =~= self.window@);
        }
        out
    }

    /// Whether the window holds exactly `period` observations.
    pub fn is_ready(&self) -> (r: bool)
        ensures
            r == (self.window@.len() == self.period),
    {
        self.window.len() == self.period
    }
}

} // verus!
