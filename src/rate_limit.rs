//! Sliding-window admission control over notification emission.

use std::collections::VecDeque;
use vstd::prelude::*;

verus! {

/// Whether a sample taken at `t` has left the window of width `window` at
/// time `now`. A sample from the future never expires.
pub open spec fn expired(t: u64, now: u64, window: u64) -> bool {
    now > t && now - t > window
}

/// The samples left after dropping expired ones from the front.
pub open spec fn purge(s: Seq<u64>, now: u64, window: u64) -> Seq<u64>
    decreases s.len(),
{
    if s.len() > 0 && expired(s[0], now, window) {
        purge(s.drop_first(), now, window)
    } else {
        s
    }
}

/// Outcome of one admission attempt on samples `s`: whether it is allowed,
/// and the samples afterwards.
pub open spec fn acquire_outcome(s: Seq<u64>, max: nat, window: u64, now: u64) -> (bool, Seq<u64>) {
    let p = purge(s, now, window);
    if p.len() >= max {
        (false, p)
    } else {
        (true, p.push(now))
    }
}

/// `k` samples all taken at `t`.
pub open spec fn burst(t: u64, k: nat) -> Seq<u64> {
    Seq::new(k, |i: int| t)
}

/// Sliding-window admission control: at most `max` admissions within any
/// trailing window of `window` time units.
pub struct LeakyBucket {
    window: u64,
    max: usize,
    samples: VecDeque<u64>,
}

impl LeakyBucket {
    pub closed spec fn spec_window(&self) -> u64 {
        self.window
    }

    pub closed spec fn spec_max(&self) -> nat {
        self.max as nat
    }

    /// Times of the admissions still remembered, oldest first.
    pub closed spec fn spec_samples(&self) -> Seq<u64> {
        self.samples@
    }

    pub fn new(max: usize, window: u64) -> (r: LeakyBucket)
        ensures
            r.spec_max() == max,
            r.spec_window() == window,
            r.spec_samples() == Seq::<u64>::empty(),
    {
        let cap = if max > 1 { max } else { 1 };
        LeakyBucket { window, max, samples: VecDeque::with_capacity(cap) }
    }

    /// Drops the expired samples at the front, then admits `now` when fewer
    /// than `max` samples remain.
    pub fn try_acquire(&mut self, now: u64) -> (r: bool)
        ensures
            final(self).spec_max() == old(self).spec_max(),
            final(self).spec_window() == old(self).spec_window(),
            (r, final(self).spec_samples()) == acquire_outcome(
                old(self).spec_samples(),
                old(self).spec_max(),
                old(self).spec_window(),
                now,
            ),
            old(self).spec_samples().len() <= old(self).spec_max() ==> final(self).spec_samples().len() <= final(self).spec_max(),
    {
        proof {
            lemma_purge_shrinks(self.samples@, now, self.window);
        }
        while self.samples.len() > 0 && now > self.samples[0] && now - self.samples[0] > self.window
            invariant
                self.max == old(self).max,
                self.window == old(self).window,
                purge(self.samples@, now, self.window) == purge(old(self).samples@, now, old(self).window),
            decreases self.samples@.len(),
        {
            let _ = self.samples.pop_front();
        }
        if self.samples.len() >= self.max {
            return false;
        }
        self.samples.push_back(now);
        true
    }
}

proof fn lemma_purge_shrinks(s: Seq<u64>, now: u64, window: u64)
    ensures
        purge(s, now, window).len() <= s.len(),
    decreases s.len(),
{
    if s.len() > 0 && expired(s[0], now, window) {
        lemma_purge_shrinks(s.drop_first(), now, window);
    }
}

proof fn lemma_purge_fresh(t: u64, k: nat, window: u64)
    ensures
        purge(burst(t, k), t, window) == burst(t, k),
{
}

proof fn lemma_purge_all_expired(s: Seq<u64>, now: u64, window: u64)
    requires
        forall|i: int| 0 <= i < s.len() ==> expired(#[trigger] s[i], now, window),
    ensures
        purge(s, now, window).len() == 0,
    decreases s.len(),
{
    if s.len() > 0 {
        assert(expired(s[0], now, window));
        let rest = s.drop_first();
        assert forall|i: int| 0 <= i < rest.len() implies expired(#[trigger] rest[i], now, window) by {
            assert(rest[i] == s[i + 1]);
        }
        lemma_purge_all_expired(rest, now, window);
    }
}

/// A burst of arrivals at one instant `t` on an empty bucket: each of the
/// first `max` attempts is admitted and extends the burst by one sample, the
/// next one at `t` is refused, and an attempt more than `window` after `t`
/// is admitted again.
pub proof fn lemma_burst_boundary(max: nat, window: u64, t: u64, later: u64)
    requires
        max >= 1,
        later > t,
        later - t > window,
    ensures
        forall|k: nat| k < max ==> #[trigger] acquire_outcome(burst(t, k), max, window, t) == (true, burst(t, k + 1)),
        acquire_outcome(burst(t, max), max, window, t) == (false, burst(t, max)),
        acquire_outcome(burst(t, max), max, window, later) == (true, seq![later]),
{
    assert forall|k: nat| k < max implies #[trigger] acquire_outcome(burst(t, k), max, window, t) == (true, burst(t, k + 1)) by {
        lemma_purge_fresh(t, k, window);
        assert(burst(t, k).push(t) =~= burst(t, k + 1));
    }
    lemma_purge_fresh(t, max, window);
    lemma_purge_all_expired(burst(t, max), later, window);
    assert(purge(burst(t, max), later, window) =~= Seq::<u64>::empty());
    assert(Seq::<u64>::empty().push(later) =~= seq![later]);
}

} // verus!
