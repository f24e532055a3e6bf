//! Burn rates: a bounded window of usage samples per account, and the
//! consumption velocity and its dispersion derived from it. Shares are in
//! points (hundredths of a percent), times in milliseconds, rates in points
//! per minute.

use vstd::prelude::*;
use crate::cycle::str_equal;
use crate::percent::POINTS_LIMIT;

verus! {

/// Samples kept per account; the oldest is dropped beyond this.
pub const SAMPLE_CAPACITY: usize = 30;

/// One poll's used shares of the three windows.
#[derive(Clone, Copy, Debug, PartialEq, Eq, Structural)]
pub struct UsageSample {
    pub timestamp_ms: u64,
    pub primary_used: i64,
    pub secondary_used: i64,
    pub code_review_used: i64,
}

/// Velocities and their dispersions, in points per minute.
#[derive(Clone, Copy, Debug, PartialEq, Eq, Structural)]
pub struct BurnRateStats {
    pub primary_burn: i64,
    pub primary_stddev: i64,
    pub secondary_burn: i64,
    pub secondary_stddev: i64,
    pub code_review_burn: i64,
    pub code_review_stddev: i64,
}

/// The window a figure is taken from.
#[derive(Clone, Copy, Debug, PartialEq, Eq, Structural)]
pub enum Quota {
    Primary,
    Secondary,
    CodeReview,
}

/// The used share of the chosen window in a sample.
pub open spec fn used_in(s: UsageSample, q: Quota) -> int {
    match q {
        Quota::Primary => s.primary_used as int,
        Quota::Secondary => s.secondary_used as int,
        Quota::CodeReview => s.code_review_used as int,
    }
}

/// A share clamped into the range a tracker stores.
pub open spec fn clamp_points(p: int) -> int {
    if p > POINTS_LIMIT { POINTS_LIMIT as int } else if p < -POINTS_LIMIT { -POINTS_LIMIT } else { p }
}

/// The sample as a tracker stores it: every share clamped.
pub open spec fn stored_sample(s: UsageSample) -> UsageSample {
    UsageSample {
        timestamp_ms: s.timestamp_ms,
        primary_used: clamp_points(s.primary_used as int) as i64,
        secondary_used: clamp_points(s.secondary_used as int) as i64,
        code_review_used: clamp_points(s.code_review_used as int) as i64,
    }
}

/// Whether a sample's shares lie in the stored range.
pub open spec fn sample_in_range(s: UsageSample) -> bool {
    &&& -POINTS_LIMIT <= s.primary_used <= POINTS_LIMIT
    &&& -POINTS_LIMIT <= s.secondary_used <= POINTS_LIMIT
    &&& -POINTS_LIMIT <= s.code_review_used <= POINTS_LIMIT
}

/// A change of `delta` points over `dt_ms` milliseconds as points per
/// minute, truncated toward zero.
pub open spec fn per_minute(delta: int, dt_ms: int) -> int
    recommends
        dt_ms > 0,
{
    if delta >= 0 {
        (delta * 60000) / dt_ms
    } else {
        -(((-delta) * 60000) / dt_ms)
    }
}

/// The velocity over a window: from the first sample to the last; `None`
/// with fewer than two samples or when no time has passed between them.
pub open spec fn velocity(s: Seq<UsageSample>, q: Quota) -> Option<int> {
    if s.len() < 2 {
        None
    } else {
        let dt = s.last().timestamp_ms - s[0].timestamp_ms;
        if dt <= 0 {
            None
        } else {
            Some(per_minute(used_in(s.last(), q) - used_in(s[0], q), dt))
        }
    }
}

/// The velocity of each consecutive pair whose interval is positive, each
/// over its own interval; a zero-length interval contributes nothing.
pub open spec fn interval_rates(s: Seq<UsageSample>, q: Quota) -> Seq<int>
    decreases s.len(),
{
    if s.len() < 2 {
        seq![]
    } else {
        let prev = s[s.len() - 2];
        let dt = s.last().timestamp_ms - prev.timestamp_ms;
        let rest = interval_rates(s.drop_last(), q);
        if dt > 0 {
            rest.push(per_minute(used_in(s.last(), q) - used_in(prev, q), dt))
        } else {
            rest
        }
    }
}

/// The sum of a sequence.
pub open spec fn total(xs: Seq<int>) -> int
    decreases xs.len(),
{
    if xs.len() == 0 { 0 } else { total(xs.drop_last()) + xs.last() }
}

/// The sum of `(n * x - t)^2` over the sequence: `n^3` times the population
/// variance when `n` is the length and `t` the sum.
pub open spec fn scaled_square_deviation(xs: Seq<int>, n: int, t: int) -> int
    decreases xs.len(),
{
    if xs.len() == 0 {
        0
    } else {
        scaled_square_deviation(xs.drop_last(), n, t) + (n * xs.last() - t) * (n * xs.last() - t)
    }
}

/// The population variance of a sequence, rounded down: zero for fewer than
/// two values.
pub open spec fn variance_floor(xs: Seq<int>) -> int {
    let n = xs.len() as int;
    if n < 2 {
        0
    } else {
        scaled_square_deviation(xs, n, total(xs)) / (n * n * n)
    }
}

/// Whether `r` is the population standard deviation of `xs` rounded down:
/// the integer square root of the variance.
pub open spec fn is_stddev(xs: Seq<int>, r: int) -> bool {
    r >= 0 && r * r <= variance_floor(xs) < (r + 1) * (r + 1)
}

/// The integer square root of `v`.
pub fn isqrt(v: u128) -> (r: u64)
    requires
        v < 0x4000_0000_0000_0000_0000_0000_0000_0000,
    ensures
        r as int * r as int <= v < (r as int + 1) * (r as int + 1),
{
    let mut lo: u128 = 0;
    let mut hi: u128 = 0x8000_0000_0000_0000;
    assert(hi * hi == 0x4000_0000_0000_0000_0000_0000_0000_0000) by (nonlinear_arith)
        requires hi == 0x8000_0000_0000_0000u128;
    while hi - lo > 1
        invariant
            lo < hi <= 0x8000_0000_0000_0000,
            lo * lo <= v,
            v < hi * hi,
        decreases hi - lo,
    {
        let mid = lo + (hi - lo) / 2;
        assert(mid * mid <= 0x4000_0000_0000_0000_0000_0000_0000_0000) by (nonlinear_arith)
            requires mid <= 0x8000_0000_0000_0000u128;
        if mid * mid <= v {
            lo = mid;
        } else {
            hi = mid;
        }
    }
    assert(hi == lo + 1);
    lo as u64
}

/// A bound on the magnitude of any velocity computed from stored samples.
pub const RATE_BOUND: i64 = 0x8000_0000_0000;

/// The integers of a sequence of `i64`.
pub open spec fn ints(v: Seq<i64>) -> Seq<int> {
    v.map_values(|x: i64| x as int)
}

/// The change of `delta` points over `dt_ms` milliseconds, per minute; see
/// `per_minute`.
pub fn rate_per_minute(delta: i64, dt_ms: u64) -> (r: i64)
    requires
        -2 * POINTS_LIMIT <= delta <= 2 * POINTS_LIMIT,
        dt_ms > 0,
    ensures
        r as int == per_minute(delta as int, dt_ms as int),
        -RATE_BOUND <= r <= RATE_BOUND,
{
    let m: u64 = if delta < 0 { (0 - delta) as u64 } else { delta as u64 };
    let scaled = m * 60000;
    let q = scaled / dt_ms;
    assert(q <= scaled) by (nonlinear_arith)
        requires q == scaled / dt_ms, dt_ms > 0;
    if delta < 0 {
        0 - (q as i64)
    } else {
        q as i64
    }
}

/// The per-interval velocities of the chosen window; see `interval_rates`.
pub fn rates_of(samples: &Vec<UsageSample>, q: Quota) -> (r: Vec<i64>)
    requires
        forall|i: int| 0 <= i < samples@.len() ==> sample_in_range(#[trigger] samples@[i]),
    ensures
        ints(r@) == interval_rates(samples@, q),
        r@.len() < samples@.len() || r@.len() == 0,
        forall|i: int| 0 <= i < r@.len() ==> -RATE_BOUND <= #[trigger] r@[i] <= RATE_BOUND,
{
    let mut r: Vec<i64> = Vec::new();
    if samples.len() < 2 {
        assert(ints(r@) =~= interval_rates(samples@, q));
        return r;
    }
    let mut i: usize = 1;
    proof {
        assert(samples@.take(1).len() == 1);
        assert(ints(r@) =~= interval_rates(samples@.take(1), q));
    }
    while i < samples.len()
        invariant
            1 <= i <= samples@.len(),
            forall|k: int| 0 <= k < samples@.len() ==> sample_in_range(#[trigger] samples@[k]),
            ints(r@) == interval_rates(samples@.take(i as int), q),
            r@.len() < i,
            forall|k: int| 0 <= k < r@.len() ==> -RATE_BOUND <= #[trigger] r@[k] <= RATE_BOUND,
        decreases samples.len() - i,
    {
        let prev = samples[i - 1];
        let cur = samples[i];
        let ghost t = samples@.take(i + 1);
        proof {
            assert(t.drop_last() =~= samples@.take(i as int));
            assert(t.last() == cur);
            assert(t[t.len() - 2] == prev);
            assert(sample_in_range(prev) && sample_in_range(cur));
        }
        let ghost before = r@;
        if cur.timestamp_ms > prev.timestamp_ms {
            let (a, b) = match q {
                Quota::Primary => (cur.primary_used, prev.primary_used),
                Quota::Secondary => (cur.secondary_used, prev.secondary_used),
                Quota::CodeReview => (cur.code_review_used, prev.code_review_used),
            };
            let x = rate_per_minute(a - b, cur.timestamp_ms - prev.timestamp_ms);
            r.push(x);
            assert(ints(r@) =~= ints(before).push(x as int));
        }
        i = i + 1;
        assert(ints(r@) =~= interval_rates(samples@.take(i as int), q));
    }
    assert(samples@.take(samples@.len() as int) =~= samples@);
    r
}

/// The population standard deviation of `xs`, rounded down; zero for fewer
/// than two values.
#[verifier::rlimit(40)]
pub fn stddev_of(xs: &Vec<i64>) -> (r: i64)
    requires
        xs@.len() < 32,
        forall|i: int| 0 <= i < xs@.len() ==> -RATE_BOUND <= #[trigger] xs@[i] <= RATE_BOUND,
    ensures
        is_stddev(ints(xs@), r as int),
{
    let n = xs.len();
    if n < 2 {
        return 0;
    }
    let ghost v = ints(xs@);
    let mut t: i128 = 0;
    let mut i: usize = 0;
    while i < n
        invariant
            n == xs@.len() < 32,
            v == ints(xs@),
            i <= n,
            forall|k: int| 0 <= k < xs@.len() ==> -RATE_BOUND <= #[trigger] xs@[k] <= RATE_BOUND,
            t as int == total(v.take(i as int)),
            -(i as int) * RATE_BOUND <= t <= (i as int) * RATE_BOUND,
        decreases n - i,
    {
        assert(v.take(i + 1).drop_last() =~= v.take(i as int));
        t = t + xs[i] as i128;
        i = i + 1;
    }
    assert(v.take(n as int) =~= v);
    let nn = n as i128;
    let mut acc: u128 = 0;
    let mut j: usize = 0;
    let bound: u128 = 0x400_0000_0000_0000_0000_0000_0000;
    while j < n
        invariant
            n == xs@.len() < 32,
            nn == n,
            v == ints(xs@),
            j <= n,
            forall|k: int| 0 <= k < xs@.len() ==> -RATE_BOUND <= #[trigger] xs@[k] <= RATE_BOUND,
            t as int == total(v),
            -32 * RATE_BOUND <= t <= 32 * RATE_BOUND,
            bound == 0x400_0000_0000_0000_0000_0000_0000,
            acc as int == scaled_square_deviation(v.take(j as int), n as int, t as int),
            acc <= (j as int) * bound,
        decreases n - j,
    {
        assert(v.take(j + 1).drop_last() =~= v.take(j as int));
        let x = xs[j] as i128;
        assert(-32 * RATE_BOUND <= nn * x <= 32 * RATE_BOUND) by (nonlinear_arith)
            requires -RATE_BOUND <= x <= RATE_BOUND, 0 <= nn < 32;
        let d = nn * x - t;
        let m: u128 = if d < 0 { (0 - d) as u128 } else { d as u128 };
        assert(m * m <= bound && m * m == d * d) by (nonlinear_arith)
            requires m <= 64 * RATE_BOUND, bound == 0x400_0000_0000_0000_0000_0000_0000, m == d || m == -d, RATE_BOUND == 0x8000_0000_0000;
        acc = acc + m * m;
        j = j + 1;
    }
    assert(v.take(n as int) =~= v);
    let n128 = n as u128;
    assert(0 < n128 * n128 < 1024) by (nonlinear_arith)
        requires 2 <= n128 < 32;
    let n2 = n128 * n128;
    assert(0 < n2 * n128 < 32768) by (nonlinear_arith)
        requires 0 < n2 < 1024, 2 <= n128 < 32;
    let cube: u128 = n2 * n128;
    assert(cube as int == (n as int) * (n as int) * (n as int));
    assert(acc <= 0x8000_0000_0000_0000_0000_0000_0000) by (nonlinear_arith)
        requires acc <= (n as int) * 0x400_0000_0000_0000_0000_0000_0000, n < 32;
    let var = acc / cube;
    assert(var <= acc) by (nonlinear_arith)
        requires var == acc / cube, cube > 0;
    let s = isqrt(var);
    assert(s < 0x8000_0000_0000_0000u64) by (nonlinear_arith)
        requires s as int * s as int <= var, var <= 0x8000_0000_0000_0000_0000_0000_0000;
    s as i64
}

/// Velocity and dispersion of every window over a sample window; `None`
/// with fewer than two samples or when no time passed between the first and
/// the last.
pub fn calculate_burn_rate(samples: &Vec<UsageSample>) -> (r: Option<BurnRateStats>)
    requires
        samples@.len() <= SAMPLE_CAPACITY,
        forall|i: int| 0 <= i < samples@.len() ==> sample_in_range(#[trigger] samples@[i]),
    ensures
        r is None <==> velocity(samples@, Quota::Primary) is None,
        r matches Some(st) ==> {
            &&& st.primary_burn as int == velocity(samples@, Quota::Primary).unwrap()
            &&& st.secondary_burn as int == velocity(samples@, Quota::Secondary).unwrap()
            &&& st.code_review_burn as int == velocity(samples@, Quota::CodeReview).unwrap()
            &&& is_stddev(interval_rates(samples@, Quota::Primary), st.primary_stddev as int)
            &&& is_stddev(interval_rates(samples@, Quota::Secondary), st.secondary_stddev as int)
            &&& is_stddev(interval_rates(samples@, Quota::CodeReview), st.code_review_stddev as int)
        },
{
    let n = samples.len();
    if n < 2 {
        return None;
    }
    let first = samples[0];
    let last = samples[n - 1];
    assert(samples@.last() == last);
    if last.timestamp_ms <= first.timestamp_ms {
        return None;
    }
    assert(sample_in_range(first) && sample_in_range(last));
    let dt = last.timestamp_ms - first.timestamp_ms;
    let pr = rates_of(samples, Quota::Primary);
    let sr = rates_of(samples, Quota::Secondary);
    let cr = rates_of(samples, Quota::CodeReview);
    Some(BurnRateStats {
        primary_burn: rate_per_minute(last.primary_used - first.primary_used, dt),
        primary_stddev: stddev_of(&pr),
        secondary_burn: rate_per_minute(last.secondary_used - first.secondary_used, dt),
        secondary_stddev: stddev_of(&sr),
        code_review_burn: rate_per_minute(last.code_review_used - first.code_review_used, dt),
        code_review_stddev: stddev_of(&cr),
    })
}

/// The samples kept for one account, oldest first.
pub struct AccountSamples {
    pub account: String,
    pub samples: Vec<UsageSample>,
}

/// Bounded sample windows per account.
pub struct BurnRateTracker {
    pub windows: Vec<AccountSamples>,
}

/// The last `cap` items of `s` (all of it when shorter).
pub open spec fn keep_last(s: Seq<UsageSample>, cap: nat) -> Seq<UsageSample> {
    if s.len() > cap {
        s.subrange(s.len() - cap, s.len() as int)
    } else {
        s
    }
}

/// Index of the first window of `name`, or `w.len()`.
pub open spec fn window_index(w: Seq<AccountSamples>, name: Seq<char>) -> nat
    decreases w.len(),
{
    if w.len() == 0 {
        0
    } else if w[0].account@ == name {
        0
    } else {
        1 + window_index(w.drop_first(), name)
    }
}

proof fn lemma_window_index(w: Seq<AccountSamples>, name: Seq<char>, i: int)
    requires
        0 <= i <= w.len(),
        forall|j: int| 0 <= j < i ==> w[j].account@ != name,
        i == w.len() || w[i].account@ == name,
    ensures
        window_index(w, name) == i,
    decreases i,
{
    if i > 0 {
        lemma_window_index(w.drop_first(), name, i - 1);
    }
}

impl BurnRateTracker {
    /// The samples kept for `name`, oldest first.
    pub open spec fn samples_of(&self, name: Seq<char>) -> Seq<UsageSample> {
        let i = window_index(self.windows@, name);
        if i < self.windows@.len() { self.windows@[i as int].samples@ } else { seq![] }
    }

    /// Every window holds at most `SAMPLE_CAPACITY` samples, each in range.
    pub open spec fn wf(&self) -> bool {
        forall|i: int| 0 <= i < self.windows@.len() ==> {
            let w = #[trigger] self.windows@[i].samples@;
            &&& w.len() <= SAMPLE_CAPACITY
            &&& forall|k: int| 0 <= k < w.len() ==> sample_in_range(#[trigger] w[k])
        }
    }

    /// A tracker with no samples.
    pub fn new() -> (r: BurnRateTracker)
        ensures
            r.wf(),
            forall|name: Seq<char>| r.samples_of(name).len() == 0,
    {
        BurnRateTracker { windows: Vec::new() }
    }

    fn find(&self, name: &str) -> (r: usize)
        ensures
            r as nat == window_index(self.windows@, name@),
            r <= self.windows@.len(),
    {
        let mut i: usize = 0;
        while i < self.windows.len()
            invariant
                i <= self.windows@.len(),
                forall|j: int| 0 <= j < i ==> self.windows@[j].account@ != name@,
            decreases self.windows.len() - i,
        {
            if str_equal(self.windows[i].account.as_str(), name) {
                proof {
                    lemma_window_index(self.windows@, name@, i as int);
                }
                return i;
            }
            i = i + 1;
        }
        proof {
            lemma_window_index(self.windows@, name@, i as int);
        }
        i
    }

    /// Appends a sample for `account` (its shares clamped into range),
    /// dropping the oldest beyond `SAMPLE_CAPACITY`.
    #[verifier::rlimit(40)]
    pub fn record(&mut self, account: &str, sample: UsageSample)
        requires
            old(self).wf(),
        ensures
            final(self).wf(),
            final(self).samples_of(account@) == keep_last(old(self).samples_of(account@).push(stored_sample(sample)), SAMPLE_CAPACITY as nat),
            forall|other: Seq<char>| other != account@ ==> final(self).samples_of(other) == old(self).samples_of(other),
    {
        let clamped = UsageSample {
            timestamp_ms: sample.timestamp_ms,
            primary_used: clamp(sample.primary_used),
            secondary_used: clamp(sample.secondary_used),
            code_review_used: clamp(sample.code_review_used),
        };
        let i = self.find(account);
        let ghost before = self.windows@;
        if i < self.windows.len() {
            let mut w = self.windows.remove(i);
            let ghost ws = w.samples@;
            w.samples.push(clamped);
            if w.samples.len() > SAMPLE_CAPACITY {
                let ghost full = w.samples@;
                w.samples.remove(0);
                assert(w.samples@ =~= keep_last(full, SAMPLE_CAPACITY as nat));
            }
            self.windows.insert(i, w);
            proof {
                assert(self.windows@ =~= before.update(i as int, self.windows@[i as int]));
                lemma_window_facts(before, account@);
                assert forall|j: int| 0 <= j < i implies self.windows@[j].account@ != account@ by {
                    assert(self.windows@[j] == before[j]);
                }
                lemma_window_index(self.windows@, account@, i as int);
                assert forall|other: Seq<char>| other != account@ implies
                    #[trigger] self.samples_of(other) == old(self).samples_of(other) by {
                    lemma_same_index(before, self.windows@, i as int, other);
                    lemma_window_facts(before, other);
                }
            }
        } else {
            let mut samples: Vec<UsageSample> = Vec::new();
            samples.push(clamped);
            self.windows.push(AccountSamples { account: String::from_str(account), samples });
            proof {
                lemma_window_facts(before, account@);
                assert forall|j: int| 0 <= j < i implies self.windows@[j].account@ != account@ by {
                    assert(self.windows@[j] == before[j]);
                }
                lemma_window_index(self.windows@, account@, i as int);
                assert(self.windows@[i as int].samples@ =~= Seq::<UsageSample>::empty().push(stored_sample(sample)));
                assert forall|other: Seq<char>| other != account@ implies
                    #[trigger] self.samples_of(other) == old(self).samples_of(other) by {
                    lemma_push_index(before, self.windows@, other);
                    lemma_window_facts(before, other);
                }
            }
        }
    }

    /// Velocity and dispersion over the samples kept for `account`; see
    /// `calculate_burn_rate`.
    pub fn rate(&self, account: &str) -> (r: Option<BurnRateStats>)
        requires
            self.wf(),
        ensures
            r is None <==> velocity(self.samples_of(account@), Quota::Primary) is None,
            r matches Some(st) ==> {
                let s = self.samples_of(account@);
                &&& st.primary_burn as int == velocity(s, Quota::Primary).unwrap()
                &&& st.secondary_burn as int == velocity(s, Quota::Secondary).unwrap()
                &&& st.code_review_burn as int == velocity(s, Quota::CodeReview).unwrap()
                &&& is_stddev(interval_rates(s, Quota::Primary), st.primary_stddev as int)
                &&& is_stddev(interval_rates(s, Quota::Secondary), st.secondary_stddev as int)
                &&& is_stddev(interval_rates(s, Quota::CodeReview), st.code_review_stddev as int)
            },
    {
        let i = self.find(account);
        if i < self.windows.len() {
            assert(self.windows@[i as int].samples@ == self.samples_of(account@));
            calculate_burn_rate(&self.windows[i].samples)
        } else {
            None
        }
    }
}

proof fn lemma_same_index(a: Seq<AccountSamples>, b: Seq<AccountSamples>, i: int, name: Seq<char>)
    requires
        a.len() == b.len(),
        0 <= i < a.len(),
        b[i].account@ == a[i].account@,
        forall|j: int| 0 <= j < a.len() && j != i ==> b[j] == a[j],
    ensures
        window_index(b, name) == window_index(a, name),
    decreases a.len(),
{
    if a.len() > 0 && a[0].account@ != name {
        if i == 0 {
            assert(a.drop_first() =~= b.drop_first());
        } else {
            lemma_same_index(a.drop_first(), b.drop_first(), i - 1, name);
        }
    }
}

proof fn lemma_push_index(a: Seq<AccountSamples>, b: Seq<AccountSamples>, name: Seq<char>)
    requires
        b.len() == a.len() + 1,
        forall|j: int| 0 <= j < a.len() ==> b[j] == a[j],
        b[a.len() as int].account@ != name,
    ensures
        window_index(a, name) < a.len() ==> window_index(b, name) == window_index(a, name),
        window_index(a, name) >= a.len() ==> window_index(b, name) == b.len(),
    decreases a.len(),
{
    if a.len() == 0 {
        assert(window_index(b.drop_first(), name) == 0);
    } else if a[0].account@ != name {
        lemma_push_index(a.drop_first(), b.drop_first(), name);
    }
}

proof fn lemma_window_facts(w: Seq<AccountSamples>, name: Seq<char>)
    ensures
        window_index(w, name) <= w.len(),
        window_index(w, name) < w.len() ==> w[window_index(w, name) as int].account@ == name,
        forall|j: int| 0 <= j < window_index(w, name) ==> w[j].account@ != name,
    decreases w.len(),
{
    if w.len() > 0 && w[0].account@ != name {
        lemma_window_facts(w.drop_first(), name);
        assert forall|j: int| 0 <= j < window_index(w, name) implies w[j].account@ != name by {
            if j > 0 {
                assert(w[j] == w.drop_first()[j - 1]);
            }
        }
    }
}

fn clamp(p: i64) -> (r: i64)
    ensures
        r as int == clamp_points(p as int),
{
    if p > POINTS_LIMIT {
        POINTS_LIMIT
    } else if p < -POINTS_LIMIT {
        -POINTS_LIMIT
    } else {
        p
    }
}

} // verus!
