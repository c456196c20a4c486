//! A running estimate of the time taken per `SCALE` items.
//!
//! Times are plain nanosecond counts taken from one monotonic clock.
use vstd::prelude::*;

verus! {

/// The number of whole scale boundaries ("marks") that `total` has passed.
pub open spec fn marks_of(total: u64, scale: u64) -> int {
    total as int / scale as int
}

/// The part of `elapsed` that is charged to the time after the last mark, when an
/// update from `last_total` to `curr_total` crossed at least one mark.
pub open spec fn time_after_mark(elapsed: u64, last_total: u64, curr_total: u64, scale: u64) -> int {
    let delta = curr_total - last_total;
    let complete = delta - (curr_total % scale) as int;
    elapsed - (elapsed * complete) / delta
}

/// Estimates the time per `SCALE` items from a sequence of cumulative totals and
/// timestamps.
pub struct TimingBucket<const SCALE: u64> {
    /// The cumulative total at the last update.
    pub last_total: u64,
    /// The timestamp of the last update, in nanoseconds.
    pub last_update: u64,
    /// Nanoseconds between the start and the last update.
    pub since_start: u64,
    /// Nanoseconds accrued since the last mark was crossed.
    pub since_mark: u64,
}

impl<const SCALE: u64> TimingBucket<SCALE> {
    /// The bucket's consistency: the times accrued fit in the time elapsed.
    pub open spec fn wf(&self) -> bool {
        &&& self.since_mark <= self.since_start
        &&& self.since_start <= self.last_update
    }

    /// The bucket after an update to `curr_total` at timestamp `now`: the elapsed
    /// time adds to the time since the start; when the update crosses a mark, the
    /// time since the mark becomes the part of the elapsed time that falls after
    /// the last mark crossed, else the elapsed time adds to it.
    pub open spec fn after_update(self, now: u64, curr_total: u64) -> Self {
        let elapsed = (now - self.last_update) as u64;
        TimingBucket {
            last_total: curr_total,
            last_update: now,
            since_start: (self.since_start + elapsed) as u64,
            since_mark: if marks_of(curr_total, SCALE) > marks_of(self.last_total, SCALE) {
                time_after_mark(elapsed, self.last_total, curr_total, SCALE) as u64
            } else {
                (self.since_mark + elapsed) as u64
            },
        }
    }

    /// A bucket at timestamp `start` that has counted nothing.
    pub open spec fn started(start: u64) -> Self {
        TimingBucket { last_total: 0, last_update: start, since_start: 0, since_mark: 0 }
    }

    /// A bucket that starts counting at timestamp `start`.
    pub fn new(start: u64) -> (r: Self)
        ensures
            r.wf(),
            r == Self::started(start),
    {
        TimingBucket { last_total: 0, last_update: start, since_start: 0, since_mark: 0 }
    }

    /// The number of marks that the running total has passed.
    pub fn marks_passed(&self) -> (r: u64)
        requires
            SCALE > 0,
        ensures
            r == marks_of(self.last_total, SCALE),
    {
        self.last_total / SCALE
    }

    /// Records that the running total is `curr_total` at timestamp `now`.
    ///
    /// When the update crosses a mark, the elapsed time is split in proportion to
    /// the items before and after the last mark crossed; the part after it starts
    /// the time since the mark anew.
    pub fn update(&mut self, now: u64, curr_total: u64)
        requires
            SCALE > 0,
            old(self).wf(),
            curr_total >= old(self).last_total,
            now >= old(self).last_update,
        ensures
            final(self).wf(),
            *final(self) == old(self).after_update(now, curr_total),
    {
        let delta = curr_total - self.last_total;
        let elapsed = now - self.last_update;
        self.last_update = now;
        self.since_start = self.since_start + elapsed;

        let last_mark = self.marks_passed();
        let last_total = self.last_total;
        self.last_total = curr_total;
        let curr_mark = self.marks_passed();

        if curr_mark > last_mark {
            let progress = curr_total % SCALE;
            proof {
                lemma_progress_within_delta(last_total, curr_total, SCALE);
            }
            let complete = delta - progress;
            let elapsed_ns = elapsed as u128;
            proof {
                lemma_attributed_bounded(elapsed as nat, complete as nat, delta as nat);
            }
            let product = elapsed_ns * (complete as u128);
            let attributed = product / (delta as u128);
            let since_mark = elapsed_ns - attributed;
            self.since_mark = since_mark as u64;
        } else {
            self.since_mark = self.since_mark + elapsed;
        }
    }

    /// The time per `SCALE` items over the marks passed so far, or `None` before
    /// the first mark.
    pub fn average_rate(&self) -> (r: Option<u64>)
        requires
            SCALE > 0,
            self.wf(),
        ensures
            marks_of(self.last_total, SCALE) == 0 <==> r.is_none(),
            r matches Some(v) ==> v == (self.since_start - self.since_mark) / marks_of(
                self.last_total,
                SCALE,
            ),
    {
        let marks = self.marks_passed();
        if marks == 0 {
            None
        } else {
            let time_to_mark = self.since_start - self.since_mark;
            Some(time_to_mark / marks)
        }
    }

    /// The time per `SCALE` items extrapolated from the whole run so far, or `None`
    /// before the first item.
    pub fn average_rate_predictive(&self) -> (r: Option<u128>)
        ensures
            self.last_total == 0 <==> r.is_none(),
            r matches Some(v) ==> v == (self.since_start * SCALE) / self.last_total as int,
    {
        if self.last_total == 0 {
            None
        } else {
            let elapsed = self.since_start as u128;
            proof {
                lemma_u64_product_fits(self.since_start, SCALE);
            }
            let rate = elapsed * (SCALE as u128) / (self.last_total as u128);
            Some(rate)
        }
    }
}

/// When an update crosses a mark, the items past the last mark crossed are fewer
/// than the items the update added.
proof fn lemma_progress_within_delta(last_total: u64, curr_total: u64, scale: u64)
    requires
        scale > 0,
        curr_total as int / scale as int > last_total as int / scale as int,
    ensures
        curr_total % scale < curr_total - last_total,
{
    let s = scale as int;
    let c = curr_total as int;
    let l = last_total as int;
    assert(c == s * (c / s) + c % s) by (nonlinear_arith)
        requires s > 0;
    assert(l == s * (l / s) + l % s) by (nonlinear_arith)
        requires s > 0;
    assert(l % s < s) by (nonlinear_arith)
        requires s > 0;
    assert(s * (c / s) >= s * (l / s) + s) by (nonlinear_arith)
        requires s > 0, c / s >= l / s + 1;
}

/// The share of the elapsed time charged to the items before a mark is no more
/// than the elapsed time.
proof fn lemma_attributed_bounded(elapsed: nat, complete: nat, delta: nat)
    requires
        complete <= delta,
        delta > 0,
        elapsed < 0x1_0000_0000_0000_0000,
        delta < 0x1_0000_0000_0000_0000,
    ensures
        elapsed * complete <= elapsed * delta,
        elapsed * complete < 0x1_0000_0000_0000_0000_0000_0000_0000_0000,
        (elapsed * complete) / delta <= elapsed,
{
    assert(elapsed * complete <= elapsed * delta) by (nonlinear_arith)
        requires complete <= delta;
    assert(elapsed * delta < 0x1_0000_0000_0000_0000_0000_0000_0000_0000) by (nonlinear_arith)
        requires elapsed < 0x1_0000_0000_0000_0000, delta < 0x1_0000_0000_0000_0000;
    assert((elapsed * complete) / delta <= (elapsed * delta) / delta) by (nonlinear_arith)
        requires elapsed * complete <= elapsed * delta, delta > 0;
    assert((elapsed * delta) / delta == elapsed) by (nonlinear_arith)
        requires delta > 0;
}

proof fn lemma_u64_product_fits(a: u64, b: u64)
    ensures
        (a as int) * (b as int) < 0x1_0000_0000_0000_0000_0000_0000_0000_0000,
{
    assert((a as int) * (b as int) < 0x1_0000_0000_0000_0000_0000_0000_0000_0000) by (nonlinear_arith)
        requires a < 0x1_0000_0000_0000_0000, b < 0x1_0000_0000_0000_0000, a >= 0, b >= 0;
}

/// The running totals of the harvest and the time per thousand, ten thousand and
/// hundred thousand hashes.
pub struct RateReporter {
    pub total_drvs: u64,
    pub total_hashes: u64,
    pub per_1k: TimingBucket<1000>,
    pub per_10k: TimingBucket<10000>,
    pub per_100k: TimingBucket<100000>,
}

impl RateReporter {
    pub open spec fn wf(&self) -> bool {
        &&& self.per_1k.wf()
        &&& self.per_10k.wf()
        &&& self.per_100k.wf()
        &&& self.per_1k.last_total == self.total_hashes
        &&& self.per_10k.last_total == self.total_hashes
        &&& self.per_100k.last_total == self.total_hashes
        &&& self.per_10k.last_update == self.per_1k.last_update
        &&& self.per_100k.last_update == self.per_1k.last_update
    }

    /// The timestamp of the last progress taken.
    pub open spec fn last_update(&self) -> u64 {
        self.per_1k.last_update
    }

    /// A reporter that starts at timestamp `start` with nothing counted.
    pub fn new(start: u64) -> (r: Self)
        ensures
            r.wf(),
            r.total_drvs == 0,
            r.total_hashes == 0,
            r.per_1k == TimingBucket::<1000>::started(start),
            r.per_10k == TimingBucket::<10000>::started(start),
            r.per_100k == TimingBucket::<100000>::started(start),
    {
        RateReporter {
            total_drvs: 0,
            total_hashes: 0,
            per_1k: TimingBucket::new(start),
            per_10k: TimingBucket::new(start),
            per_100k: TimingBucket::new(start),
        }
    }

    /// Takes the summary of one batch, of `drvs` derivations and `hashes` hashes,
    /// completed at timestamp `now`.
    pub fn on_progress(&mut self, drvs: usize, hashes: usize, now: u64)
        requires
            old(self).wf(),
            now >= old(self).last_update(),
            old(self).total_drvs + drvs <= u64::MAX,
            old(self).total_hashes + hashes <= u64::MAX,
        ensures
            final(self).wf(),
            final(self).total_drvs == old(self).total_drvs + drvs,
            final(self).total_hashes == old(self).total_hashes + hashes,
            final(self).per_1k == old(self).per_1k.after_update(now, final(self).total_hashes),
            final(self).per_10k == old(self).per_10k.after_update(now, final(self).total_hashes),
            final(self).per_100k == old(self).per_100k.after_update(now, final(self).total_hashes),
    {
        self.total_drvs = self.total_drvs + drvs as u64;
        self.total_hashes = self.total_hashes + hashes as u64;
        self.per_1k.update(now, self.total_hashes);
        self.per_10k.update(now, self.total_hashes);
        self.per_100k.update(now, self.total_hashes);
    }
}

} // verus!
