//! Time-bucketed rolling window of success/failure counts.
//!
//! The window owns a fixed ring of buckets, each spanning
//! `bucket_size_in_ms` milliseconds. Recording an outcome first rotates the
//! ring past every bucket whose time slice has fully elapsed (clearing them),
//! then increments the counter of the now-current bucket. A ghost history of
//! every recorded outcome ties the counters to the exact set of outcomes
//! that still fall inside the live span of the window.

use vstd::prelude::*;

verus! {

use vstd::arithmetic::div_mod::lemma_basic_div;
use vstd::arithmetic::div_mod::lemma_fundamental_div_mod;
use vstd::arithmetic::div_mod::lemma_mod_bound;
use vstd::arithmetic::mul::lemma_mul_inequality;

/// The outcome of one allowed invocation.
#[derive(Clone, Copy, PartialEq, Eq, Structural, Debug)]
pub enum Outcome {
    Success,
    Failure,
}

/// One time slice's counters.
#[derive(Clone, Copy, PartialEq, Eq, Structural, Debug)]
pub struct Bucket {
    pub successes: u64,
    pub failures: u64,
}

/// A recorded outcome together with the monotonic timestamp (in ms) at which
/// it was recorded.
pub type Record = (Outcome, u64);

/// Does record `r` carry outcome `o` with a timestamp in `[lo, hi)`?
pub open spec fn is_hit(r: Record, lo: int, hi: int, o: Outcome) -> bool {
    r.0 == o && lo <= r.1 < hi
}

/// How many records of `h` carry outcome `o` with a timestamp in `[lo, hi)`.
pub open spec fn count_between(h: Seq<Record>, lo: int, hi: int, o: Outcome) -> int
    decreases h.len(),
{
    if h.len() == 0 {
        0
    } else {
        count_between(h.drop_last(), lo, hi, o) + (if is_hit(h.last(), lo, hi, o) {
            1int
        } else {
            0int
        })
    }
}

/// How many records of `h` carry outcome `o` with a timestamp at or after `lo`.
pub open spec fn count_since(h: Seq<Record>, lo: int, o: Outcome) -> int
    decreases h.len(),
{
    if h.len() == 0 {
        0
    } else {
        count_since(h.drop_last(), lo, o) + (if h.last().0 == o && lo <= h.last().1 {
            1int
        } else {
            0int
        })
    }
}

pub proof fn lemma_count_between_bounds(h: Seq<Record>, lo: int, hi: int, o: Outcome)
    ensures
        0 <= count_between(h, lo, hi, o) <= h.len(),
    decreases h.len(),
{
    if h.len() > 0 {
        lemma_count_between_bounds(h.drop_last(), lo, hi, o);
    }
}

/// Counting over `[lo, hi)` splits at any `mid` between the two ends.
pub proof fn lemma_count_split(h: Seq<Record>, lo: int, mid: int, hi: int, o: Outcome)
    requires
        lo <= mid <= hi,
    ensures
        count_between(h, lo, hi, o) == count_between(h, lo, mid, o) + count_between(
            h,
            mid,
            hi,
            o,
        ),
    decreases h.len(),
{
    if h.len() > 0 {
        lemma_count_split(h.drop_last(), lo, mid, hi, o);
    }
}

/// A range that no record's timestamp falls into counts nothing.
pub proof fn lemma_count_none(h: Seq<Record>, lo: int, hi: int, o: Outcome)
    requires
        forall|j: int| 0 <= j < h.len() ==> !(lo <= #[trigger] h[j].1 < hi),
    ensures
        count_between(h, lo, hi, o) == 0,
    decreases h.len(),
{
    if h.len() > 0 {
        assert(h.drop_last() =~= h.subrange(0, h.len() - 1));
        lemma_count_none(h.drop_last(), lo, hi, o);
    }
}

/// When every record's timestamp is below `hi`, counting from `lo` on is the
/// same as counting inside `[lo, hi)`.
pub proof fn lemma_count_since_eq(h: Seq<Record>, lo: int, hi: int, o: Outcome)
    requires
        forall|j: int| 0 <= j < h.len() ==> (#[trigger] h[j].1 as int) < hi,
    ensures
        count_since(h, lo, o) == count_between(h, lo, hi, o),
    decreases h.len(),
{
    if h.len() > 0 {
        assert(h.drop_last() =~= h.subrange(0, h.len() - 1));
        lemma_count_since_eq(h.drop_last(), lo, hi, o);
    }
}

/// Appending a record adjusts the count by exactly its own contribution.
pub proof fn lemma_count_push(h: Seq<Record>, r: Record, lo: int, hi: int, o: Outcome)
    ensures
        count_between(h.push(r), lo, hi, o) == count_between(h, lo, hi, o) + (if is_hit(
            r,
            lo,
            hi,
            o,
        ) {
            1int
        } else {
            0int
        }),
{
    assert(h.push(r).drop_last() =~= h);
    assert(h.push(r).last() == r);
}

/// Appending a record adjusts the tail count by exactly its own contribution.
pub proof fn lemma_count_since_push(h: Seq<Record>, r: Record, lo: int, o: Outcome)
    ensures
        count_since(h.push(r), lo, o) == count_since(h, lo, o) + (if r.0 == o && lo <= r.1 {
            1int
        } else {
            0int
        }),
{
    assert(h.push(r).drop_last() =~= h);
    assert(h.push(r).last() == r);
}

/// Outcomes recorded before the span's lower edge never count: a record whose
/// timestamp lies below `lo` contributes nothing to `count_since(h, lo, _)`.
pub proof fn lemma_stale_records_never_count(h: Seq<Record>, lo: int, o: Outcome)
    requires
        forall|j: int| 0 <= j < h.len() ==> (#[trigger] h[j].1 as int) < lo,
    ensures
        count_since(h, lo, o) == 0,
    decreases h.len(),
{
    if h.len() > 0 {
        assert(h.drop_last() =~= h.subrange(0, h.len() - 1));
        lemma_stale_records_never_count(h.drop_last(), lo, o);
    }
}

/// The anchor of the current bucket after rotating a window whose anchor was
/// `anchor` up to time `now`: the cursor advances one whole bucket per fully
/// elapsed slice; once at least `n` slices have elapsed, all data is stale and
/// the anchor snaps to `now`.
pub open spec fn rotated_anchor(anchor: int, size: int, n: int, now: int) -> int {
    let k = (now - anchor) / size;
    if k >= n {
        now
    } else {
        anchor + k * size
    }
}

/// The rolling window: a ring of `bucket_count` buckets ordered by age
/// (index 0 is the current bucket, index `i` became current `i` slices
/// earlier), the time at which the current bucket became current, and the
/// ghost history of every outcome recorded since construction or the last
/// clear.
pub struct Window {
    buckets: Vec<Bucket>,
    anchor_ms: u64,
    bucket_size_ms: u64,
    hist: Ghost<Seq<Record>>,
}

impl Window {
    /// Every outcome recorded since construction or the last clear, in order,
    /// with its timestamp.
    pub closed spec fn history(self) -> Seq<Record> {
        self.hist@
    }

    /// The time (ms) at which the current bucket became current.
    pub closed spec fn anchor(self) -> int {
        self.anchor_ms as int
    }

    /// Milliseconds spanned by one bucket.
    pub closed spec fn size(self) -> int {
        self.bucket_size_ms as int
    }

    /// Number of buckets in the ring.
    pub closed spec fn bucket_count(self) -> int {
        self.buckets@.len() as int
    }

    /// Lower edge of the time slice of the bucket that became current `i`
    /// slices ago.
    pub open spec fn slice_lo(self, i: int) -> int {
        self.anchor() - i * self.size()
    }

    /// Inclusive lower edge of the live span: the oldest instant whose
    /// outcomes still count.
    pub open spec fn span_lo(self) -> int {
        self.slice_lo(self.bucket_count() - 1)
    }

    /// Exclusive upper edge of the live span.
    pub open spec fn span_hi(self) -> int {
        self.anchor() + self.size()
    }

    /// Successes recorded at or after the live span's lower edge.
    pub open spec fn live_successes(self) -> int {
        count_since(self.history(), self.span_lo(), Outcome::Success)
    }

    /// Failures recorded at or after the live span's lower edge.
    pub open spec fn live_failures(self) -> int {
        count_since(self.history(), self.span_lo(), Outcome::Failure)
    }

    pub open spec fn live_total(self) -> int {
        self.live_successes() + self.live_failures()
    }

    /// Well-formedness: each bucket holds exactly the outcomes recorded in
    /// its own time slice, every recorded timestamp lies below the live
    /// span's upper edge, and the live totals fit in the counters.
    pub closed spec fn wf(self) -> bool {
        &&& self.buckets@.len() >= 1
        &&& self.bucket_size_ms >= 1
        &&& forall|j: int|
            0 <= j < self.hist@.len() ==> (#[trigger] self.hist@[j].1 as int) < self.span_hi()
        &&& forall|i: int|
            0 <= i < self.buckets@.len() ==> (#[trigger] self.buckets@[i]).successes
                == count_between(
                self.hist@,
                self.slice_lo(i),
                self.slice_lo(i) + self.size(),
                Outcome::Success,
            ) && self.buckets@[i].failures == count_between(
                self.hist@,
                self.slice_lo(i),
                self.slice_lo(i) + self.size(),
                Outcome::Failure,
            )
        &&& count_between(self.hist@, self.span_lo(), self.span_hi(), Outcome::Success)
            + count_between(self.hist@, self.span_lo(), self.span_hi(), Outcome::Failure)
            <= u64::MAX
    }

    /// The records counted from slice `i`'s lower edge up to the span's upper
    /// edge are among the records of the whole live span, so their number is
    /// bounded by the live totals.
    proof fn lemma_partial_sums(self, i: int)
        requires
            self.wf(),
            0 <= i < self.bucket_count(),
        ensures
            count_between(self.hist@, self.slice_lo(i), self.span_hi(), Outcome::Success)
                + count_between(self.hist@, self.slice_lo(i), self.span_hi(), Outcome::Failure)
                <= count_between(self.hist@, self.span_lo(), self.span_hi(), Outcome::Success)
                + count_between(self.hist@, self.span_lo(), self.span_hi(), Outcome::Failure),
            self.span_lo() <= self.slice_lo(i) <= self.anchor(),
    {
        lemma_mul_inequality(i, self.bucket_count() - 1, self.size());
        lemma_mul_inequality(0, i, self.size());
        lemma_count_split(
            self.hist@,
            self.span_lo(),
            self.slice_lo(i),
            self.span_hi(),
            Outcome::Success,
        );
        lemma_count_split(
            self.hist@,
            self.span_lo(),
            self.slice_lo(i),
            self.span_hi(),
            Outcome::Failure,
        );
        lemma_count_between_bounds(self.hist@, self.span_lo(), self.slice_lo(i), Outcome::Success);
        lemma_count_between_bounds(self.hist@, self.span_lo(), self.slice_lo(i), Outcome::Failure);
    }

    /// The live span covers exactly `bucket_count * size` milliseconds: the
    /// snapshot reports outcomes from the most recent whole-window stretch
    /// ending at the current slice's upper edge, and nothing older.
    pub proof fn lemma_live_span_width(self)
        ensures
            self.span_hi() - self.span_lo() == self.bucket_count() * self.size(),
    {
        assert((self.anchor() + self.size()) - (self.anchor() - (self.bucket_count() - 1)
            * self.size()) == self.bucket_count() * self.size()) by (nonlinear_arith);
    }

    /// Builds an empty window of `buckets_in_window` buckets, each spanning
    /// `bucket_size_in_ms` milliseconds, anchored at `now`.
    pub fn new(buckets_in_window: usize, bucket_size_in_ms: u64, now: u64) -> (w: Window)
        requires
            buckets_in_window >= 1,
            bucket_size_in_ms >= 1,
        ensures
            w.wf(),
            w.history() == Seq::<Record>::empty(),
            w.anchor() == now,
            w.size() == bucket_size_in_ms,
            w.bucket_count() == buckets_in_window,
    {
        let buckets: Vec<Bucket> = vec![Bucket { successes: 0, failures: 0 }; buckets_in_window];
        let w = Window {
            buckets,
            anchor_ms: now,
            bucket_size_ms: bucket_size_in_ms,
            hist: Ghost(Seq::empty()),
        };
        proof {
            assert(w.hist@.len() == 0);
            assert(forall|lo: int, hi: int, o: Outcome| count_between(w.hist@, lo, hi, o) == 0);
        }
        w
    }

    /// The time at which the current bucket became current; timestamps handed
    /// to `add_point` must not lie before it.
    pub fn anchor_time_ms(&self) -> (a: u64)
        ensures
            a as int == self.anchor(),
    {
        self.anchor_ms
    }

    /// Zeroes every bucket, leaving the anchor, the slice size and the bucket
    /// count as they are; the recorded history starts afresh.
    pub fn clear(&mut self)
        requires
            old(self).wf(),
        ensures
            final(self).wf(),
            final(self).history() == Seq::<Record>::empty(),
            final(self).anchor() == old(self).anchor(),
            final(self).size() == old(self).size(),
            final(self).bucket_count() == old(self).bucket_count(),
            final(self).live_successes() == 0,
            final(self).live_failures() == 0,
    {
        self.zero_all_buckets();
        self.hist = Ghost(Seq::empty());
        proof {
            assert(forall|lo: int, hi: int, o: Outcome| count_between(self.hist@, lo, hi, o) == 0);
            assert(forall|lo: int, o: Outcome| count_since(self.hist@, lo, o) == 0);
        }
    }

    /// Zeroes every bucket and nothing else.
    fn zero_all_buckets(&mut self)
        ensures
            final(self).buckets@.len() == old(self).buckets@.len(),
            forall|i: int|
                0 <= i < final(self).buckets@.len() ==> #[trigger] final(self).buckets@[i]
                    == (Bucket { successes: 0, failures: 0 }),
            final(self).anchor_ms == old(self).anchor_ms,
            final(self).bucket_size_ms == old(self).bucket_size_ms,
            final(self).hist == old(self).hist,
    {
        let n = self.buckets.len();
        let mut i: usize = 0;
        while i < n
            invariant
                i <= n,
                n == self.buckets@.len(),
                forall|j: int|
                    0 <= j < i ==> #[trigger] self.buckets@[j] == (Bucket {
                        successes: 0,
                        failures: 0,
                    }),
                self.anchor_ms == old(self).anchor_ms,
                self.bucket_size_ms == old(self).bucket_size_ms,
                self.hist == old(self).hist,
            decreases n - i,
        {
            self.buckets[i] = Bucket { successes: 0, failures: 0 };
            i += 1;
        }
    }

    /// Returns the total `(successes, failures)` currently held: exactly the
    /// outcomes recorded at or after the live span's lower edge. Nothing
    /// older counts.
    pub fn snapshot(&self) -> (r: (u64, u64))
        requires
            self.wf(),
        ensures
            r.0 == self.live_successes(),
            r.1 == self.live_failures(),
            r.0 + r.1 <= u64::MAX,
    {
        let ghost h = self.hist@;
        let n = self.buckets.len();
        let mut succ: u64 = 0;
        let mut fail: u64 = 0;
        let mut i: usize = 0;
        proof {
            lemma_count_none(h, self.span_hi(), self.span_hi(), Outcome::Success);
            lemma_count_none(h, self.span_hi(), self.span_hi(), Outcome::Failure);
            assert(self.slice_lo(-1) == self.span_hi()) by (nonlinear_arith)
                requires
                    self.slice_lo(-1) == self.anchor() - (-1int) * self.size(),
                    self.span_hi() == self.anchor() + self.size(),
            ;
        }
        while i < n
            invariant
                self.wf(),
                h == self.hist@,
                i <= n,
                n == self.bucket_count(),
                succ as int == count_between(h, self.slice_lo(i - 1), self.span_hi(), Outcome::Success),
                fail as int == count_between(h, self.slice_lo(i - 1), self.span_hi(), Outcome::Failure),
                succ + fail <= u64::MAX,
            decreases n - i,
        {
            proof {
                let ii = i as int;
                assert(self.slice_lo(ii) + self.size() == self.slice_lo(ii - 1)) by (nonlinear_arith)
                    requires
                        self.slice_lo(ii) == self.anchor() - ii * self.size(),
                        self.slice_lo(ii - 1) == self.anchor() - (ii - 1) * self.size(),
                ;
                lemma_mul_inequality(ii - 1, ii, self.size());
                self.lemma_partial_sums(ii);
                lemma_count_split(h, self.slice_lo(ii), self.slice_lo(ii - 1), self.span_hi(), Outcome::Success);
                lemma_count_split(h, self.slice_lo(ii), self.slice_lo(ii - 1), self.span_hi(), Outcome::Failure);
            }
            let b = self.buckets[i];
            succ = succ + b.successes;
            fail = fail + b.failures;
            i += 1;
        }
        proof {
            lemma_count_since_eq(h, self.span_lo(), self.span_hi(), Outcome::Success);
            lemma_count_since_eq(h, self.span_lo(), self.span_hi(), Outcome::Failure);
        }
        (succ, fail)
    }

    /// Advances the cursor past every bucket whose time slice has fully
    /// elapsed by `now`, clearing each bucket passed over; if at least a full
    /// window's worth of slices has elapsed, every bucket is cleared and the
    /// anchor snaps to `now`. Nothing is recorded.
    fn rotate(&mut self, now: u64)
        requires
            old(self).wf(),
            now as int >= old(self).anchor(),
        ensures
            final(self).wf(),
            final(self).history() == old(self).history(),
            final(self).size() == old(self).size(),
            final(self).bucket_count() == old(self).bucket_count(),
            final(self).anchor() == rotated_anchor(
                old(self).anchor(),
                old(self).size(),
                old(self).bucket_count(),
                now as int,
            ),
            final(self).anchor() <= now < final(self).span_hi(),
            final(self).live_total() <= old(self).live_total(),
    {
        let ghost h = self.hist@;
        let ghost anchor0 = self.anchor() as int;
        let ghost size = self.size() as int;
        let ghost n = self.bucket_count() as int;
        let elapsed = now - self.anchor_ms;
        if elapsed < self.bucket_size_ms {
            proof {
                lemma_basic_div(elapsed as int, size);
                assert(0int * size == 0) by (nonlinear_arith);
            }
            return ;
        }
        let size_ms = self.bucket_size_ms;
        let k64 = elapsed / size_ms;
        let n_usize = self.buckets.len();
        proof {
            lemma_fundamental_div_mod(elapsed as int, size);
            lemma_mod_bound(elapsed as int, size);
            let k = k64 as int;
            assert(size * k == k * size) by (nonlinear_arith);
            // a fully elapsed slice means the cursor advances at least once
            if k == 0 {
                assert(0int * size == 0) by (nonlinear_arith);
                assert(false);
            }
        }
        if k64 >= n_usize as u64 {
            self.zero_all_buckets();
            self.anchor_ms = now;
            proof {
                let k = k64 as int;
                lemma_mul_inequality(n, k, size);
                assert(n * size == (n - 1) * size + size) by (nonlinear_arith);
                // every record predates the new span entirely
                assert(anchor0 + size <= now - (n - 1) * size);
                assert forall|i: int| 0 <= i < n implies count_between(
                    h,
                    self.slice_lo(i),
                    self.slice_lo(i) + size,
                    Outcome::Success,
                ) == 0 && count_between(
                    h,
                    self.slice_lo(i),
                    self.slice_lo(i) + size,
                    Outcome::Failure,
                ) == 0 by {
                    lemma_mul_inequality(i, n - 1, size);
                    lemma_count_none(h, self.slice_lo(i), self.slice_lo(i) + size, Outcome::Success);
                    lemma_count_none(h, self.slice_lo(i), self.slice_lo(i) + size, Outcome::Failure);
                }
                lemma_count_none(h, self.span_lo(), self.span_hi(), Outcome::Success);
                lemma_count_none(h, self.span_lo(), self.span_hi(), Outcome::Failure);
                lemma_stale_records_never_count(h, self.span_lo(), Outcome::Success);
                lemma_stale_records_never_count(h, self.span_lo(), Outcome::Failure);
                lemma_count_since_bounds(h, old(self).span_lo(), Outcome::Success);
                lemma_count_since_bounds(h, old(self).span_lo(), Outcome::Failure);
            }
            return ;
        }
        let k = k64 as usize;
        let mut fresh: Vec<Bucket> = Vec::new();
        let mut i: usize = 0;
        while i < k
            invariant
                i <= k,
                fresh@.len() == i,
                forall|j: int|
                    0 <= j < i ==> #[trigger] fresh@[j] == (Bucket { successes: 0, failures: 0 }),
            decreases k - i,
        {
            fresh.push(Bucket { successes: 0, failures: 0 });
            i += 1;
        }
        let mut j: usize = 0;
        while j < n_usize - k
            invariant
                j <= n_usize - k,
                k <= n_usize,
                n_usize == self.buckets@.len(),
                fresh@.len() == k + j,
                forall|m: int|
                    0 <= m < k ==> #[trigger] fresh@[m] == (Bucket { successes: 0, failures: 0 }),
                forall|m: int| 0 <= m < j ==> #[trigger] fresh@[k + m] == self.buckets@[m],
            decreases n_usize - k - j,
        {
            fresh.push(self.buckets[j]);
            j += 1;
        }
        let ghost old_buckets = self.buckets@;
        let ghost newb = fresh@;
        self.buckets = fresh;
        self.anchor_ms = self.anchor_ms + k64 * size_ms;
        proof {
            let kk = k as int;
            lemma_mul_inequality(0, kk, size);
            assert(0int * size == 0) by (nonlinear_arith);
            lemma_mul_inequality(kk, n, size);
            lemma_mul_inequality(1, kk, size);
            assert(1int * size == size) by (nonlinear_arith);
            // the slices of the surviving buckets keep their edges
            assert forall|i: int| k <= i < n implies self.slice_lo(i) == anchor0 - (i - kk)
                * size by {
                assert((anchor0 + kk * size) - i * size == anchor0 - (i - kk) * size)
                    by (nonlinear_arith);
            }
            // buckets passed over cover slices that end before any record
            assert forall|i: int| 0 <= i < k implies anchor0 + size <= self.slice_lo(i) by {
                assert((anchor0 + kk * size) - i * size == anchor0 + (kk - i) * size)
                    by (nonlinear_arith);
                lemma_mul_inequality(1, kk - i, size);
                assert(1int * size == size) by (nonlinear_arith);
            }
            // each bucket of the rotated ring counts its own slice
            assert forall|i: int| 0 <= i < n implies (#[trigger] self.buckets@[i]).successes
                == count_between(h, self.slice_lo(i), self.slice_lo(i) + size, Outcome::Success)
                && self.buckets@[i].failures == count_between(
                h,
                self.slice_lo(i),
                self.slice_lo(i) + size,
                Outcome::Failure,
            ) by {
                if i < kk {
                    assert(self.buckets@[i] == (Bucket { successes: 0, failures: 0 }));
                    lemma_count_none(
                        h,
                        self.slice_lo(i),
                        self.slice_lo(i) + size,
                        Outcome::Success,
                    );
                    lemma_count_none(
                        h,
                        self.slice_lo(i),
                        self.slice_lo(i) + size,
                        Outcome::Failure,
                    );
                } else {
                    assert(self.buckets@[i] == newb[kk + (i - kk)]);
                    assert(newb[kk + (i - kk)] == old_buckets[i - kk]);
                    assert(old(self).buckets@[i - kk].successes == count_between(
                        h,
                        old(self).slice_lo(i - kk),
                        old(self).slice_lo(i - kk) + size,
                        Outcome::Success,
                    ));
                    assert(old(self).slice_lo(i - kk) == anchor0 - (i - kk) * size);
                    assert(self.slice_lo(i) == anchor0 - (i - kk) * size);
                }
            }
            // the live span's edges both advance by k slices
            let lo0 = anchor0 - (n - 1) * size;
            let hi0 = anchor0 + size;
            let lo1 = self.span_lo();
            let hi1 = self.span_hi();
            assert(lo1 == lo0 + kk * size);
            assert(hi1 == hi0 + kk * size);
            lemma_count_none(h, hi0, hi1, Outcome::Success);
            lemma_count_none(h, hi0, hi1, Outcome::Failure);
            lemma_count_split(h, lo1, hi0, hi1, Outcome::Success);
            lemma_count_split(h, lo1, hi0, hi1, Outcome::Failure);
            lemma_count_split(h, lo0, lo1, hi0, Outcome::Success);
            lemma_count_split(h, lo0, lo1, hi0, Outcome::Failure);
            lemma_count_between_bounds(h, lo0, lo1, Outcome::Success);
            lemma_count_between_bounds(h, lo0, lo1, Outcome::Failure);
            lemma_count_since_eq(h, lo0, hi1, Outcome::Success);
            lemma_count_since_eq(h, lo0, hi1, Outcome::Failure);
            lemma_count_since_eq(h, lo1, hi1, Outcome::Success);
            lemma_count_since_eq(h, lo1, hi1, Outcome::Failure);
            lemma_count_split(h, lo0, lo1, hi1, Outcome::Success);
            lemma_count_split(h, lo0, lo1, hi1, Outcome::Failure);
        }
    }

    /// Records one outcome at monotonic time `now` (ms), first rotating the
    /// ring past every fully elapsed slice: the recorded history grows by
    /// exactly this outcome, and the anchor advances as rotation dictates.
    pub fn add_point(&mut self, outcome: Outcome, now: u64)
        requires
            old(self).wf(),
            now as int >= old(self).anchor(),
            old(self).live_total() < u64::MAX,
        ensures
            final(self).wf(),
            final(self).history() == old(self).history().push((outcome, now)),
            final(self).anchor() == rotated_anchor(
                old(self).anchor(),
                old(self).size(),
                old(self).bucket_count(),
                now as int,
            ),
            final(self).size() == old(self).size(),
            final(self).bucket_count() == old(self).bucket_count(),
            // within the current slice no bucket ages out, so the live counts
            // grow by exactly this outcome
            (now as int) < old(self).anchor() + old(self).size() ==> final(self).live_successes()
                == old(self).live_successes() + (if outcome == Outcome::Success {
                1int
            } else {
                0int
            }) && final(self).live_failures() == old(self).live_failures() + (
            if outcome == Outcome::Failure {
                1int
            } else {
                0int
            }),
    {
        proof {
            if (now as int) < old(self).anchor() + old(self).size() {
                lemma_basic_div(now as int - old(self).anchor(), old(self).size());
            }
        }
        self.rotate(now);
        let ghost h = self.hist@;
        let ghost size = self.size() as int;
        let ghost n = self.bucket_count() as int;
        let ghost r: Record = (outcome, now);
        proof {
            lemma_count_since_eq(h, self.span_lo(), self.span_hi(), Outcome::Success);
            lemma_count_since_eq(h, self.span_lo(), self.span_hi(), Outcome::Failure);
            lemma_mul_inequality(0, n - 1, size);
            assert(0int * size == 0) by (nonlinear_arith);
            // the current slice holds `now`; the current bucket's counters
            // stay below the live totals, so the increment cannot overflow
            self.lemma_partial_sums(0);
            lemma_count_split(h, self.slice_lo(0), self.slice_lo(-1), self.span_hi(), Outcome::Success);
            lemma_count_split(h, self.slice_lo(0), self.slice_lo(-1), self.span_hi(), Outcome::Failure);
            lemma_count_none(h, self.slice_lo(-1), self.span_hi(), Outcome::Success);
            lemma_count_none(h, self.slice_lo(-1), self.span_hi(), Outcome::Failure);
            assert(self.slice_lo(-1) == self.span_hi()) by (nonlinear_arith)
                requires
                    self.slice_lo(-1) == self.anchor() - (-1int) * self.size(),
                    self.span_hi() == self.anchor() + self.size(),
            ;
        }
        let b = self.buckets[0];
        let updated = match outcome {
            Outcome::Success => Bucket { successes: b.successes + 1, failures: b.failures },
            Outcome::Failure => Bucket { successes: b.successes, failures: b.failures + 1 },
        };
        self.buckets[0] = updated;
        self.hist = Ghost(h.push(r));
        proof {
            assert forall|i: int| 0 <= i < n implies count_between(
                h.push(r),
                self.slice_lo(i),
                self.slice_lo(i) + size,
                Outcome::Success,
            ) == count_between(h, self.slice_lo(i), self.slice_lo(i) + size, Outcome::Success) + (
            if i == 0 && outcome == Outcome::Success {
                1int
            } else {
                0int
            }) && count_between(
                h.push(r),
                self.slice_lo(i),
                self.slice_lo(i) + size,
                Outcome::Failure,
            ) == count_between(h, self.slice_lo(i), self.slice_lo(i) + size, Outcome::Failure) + (
            if i == 0 && outcome == Outcome::Failure {
                1int
            } else {
                0int
            }) by {
                lemma_count_push(h, r, self.slice_lo(i), self.slice_lo(i) + size, Outcome::Success);
                lemma_count_push(h, r, self.slice_lo(i), self.slice_lo(i) + size, Outcome::Failure);
                if i > 0 {
                    lemma_mul_inequality(1, i, size);
                    assert(1int * size == size) by (nonlinear_arith);
                    assert((i - 1) * size == i * size - size) by (nonlinear_arith);
                }
            }
            lemma_count_push(h, r, self.span_lo(), self.span_hi(), Outcome::Success);
            lemma_count_push(h, r, self.span_lo(), self.span_hi(), Outcome::Failure);
            lemma_count_since_push(h, r, self.span_lo(), Outcome::Success);
            lemma_count_since_push(h, r, self.span_lo(), Outcome::Failure);
        }
    }
}

/// `count_since` counts a subset of the records, never more, never negatively.
pub proof fn lemma_count_since_bounds(h: Seq<Record>, lo: int, o: Outcome)
    ensures
        0 <= count_since(h, lo, o) <= h.len(),
    decreases h.len(),
{
    if h.len() > 0 {
        lemma_count_since_bounds(h.drop_last(), lo, o);
    }
}

} // verus!
