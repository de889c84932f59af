//! Token bucket rate limiter.
//!
//! Each client key owns a bucket that holds at most `burst_size` tokens and
//! refills at `requests_per_minute` tokens per minute.  A request takes one
//! token; when none is available the answer carries a Retry-After value in
//! seconds.
//!
//! Token counts are kept exactly as integers: one token is `TOKEN_UNIT`
//! units, so a refill rate of `rpm / 60000` tokens per millisecond is exactly
//! `rpm` units per millisecond.  Time is a monotonic nanosecond count.
//!
//! The number of buckets is bounded: when the table is full, buckets idle for
//! five minutes are dropped, and if that is not enough the older half is.

use vstd::prelude::*;
use crate::text::{chars_of, slice_eq};

verus! {

/// Maximum number of rate limit buckets before eviction.
pub const RATE_LIMIT_MAX_BUCKETS: usize = 10_000;

/// A bucket idle this long (milliseconds) is stale.
pub const STALE_THRESHOLD_MS: u64 = 5 * 60 * 1000;

/// Units per token: one token per minute is one unit per millisecond.
pub const TOKEN_UNIT: u64 = 60_000;

/// Nanoseconds per millisecond.
pub const NS_PER_MS: u64 = 1_000_000;

/// Rate limit strategy — how to identify clients.
pub enum RateLimitStrategy {
    /// Use remote IP address (default).
    Ip,
    /// Use value from a custom header. Falls back to IP if header absent.
    CustomHeader(String),
}

impl Clone for RateLimitStrategy {
    fn clone(&self) -> (r: Self)
        ensures
            r == *self,
    {
        match self {
            RateLimitStrategy::Ip => RateLimitStrategy::Ip,
            RateLimitStrategy::CustomHeader(h) => RateLimitStrategy::CustomHeader(h.clone()),
        }
    }
}

impl Default for RateLimitStrategy {
    fn default() -> (r: Self)
        ensures
            r is Ip,
    {
        RateLimitStrategy::Ip
    }
}

/// Rate limiter configuration.
pub struct RateLimitConfig {
    /// Requests allowed per minute.
    pub requests_per_minute: u32,
    /// Burst size (max tokens / bucket capacity).
    pub burst_size: u32,
    /// Strategy for identifying clients.
    pub strategy: RateLimitStrategy,
}

impl Default for RateLimitConfig {
    fn default() -> (r: Self)
        ensures
            r.requests_per_minute == 120,
            r.burst_size == 60,
            r.strategy is Ip,
    {
        RateLimitConfig { requests_per_minute: 120, burst_size: 60, strategy: RateLimitStrategy::Ip }
    }
}

/// Result of checking a rate limit.
#[derive(PartialEq, Eq, Structural, Debug, Clone, Copy)]
pub enum RateLimitResult {
    /// Request is allowed.
    Allowed,
    /// Request is rate limited. Contains Retry-After in seconds.
    Limited { retry_after_secs: u64 },
}

/// A single client's token bucket state.
#[derive(Clone, Copy, Debug)]
pub struct Bucket {
    /// Tokens held, in units of `1 / TOKEN_UNIT` token.
    pub tokens: u64,
    /// Monotonic time of the last refill, in nanoseconds.
    pub last_refill_ns: u64,
}

/// A bucket table entry: client key and bucket.
pub type Entry = (Seq<char>, Bucket);

/// Whole milliseconds from `last` to `now`, zero when `now` is earlier.
pub open spec fn elapsed_ms(now: u64, last: u64) -> nat {
    if now >= last { ((now - last) / (NS_PER_MS as int)) as nat } else { 0 }
}

/// A bucket is stale when it was last refilled five minutes or more ago.
pub open spec fn is_stale(b: Bucket, now: u64) -> bool {
    elapsed_ms(now, b.last_refill_ns) >= STALE_THRESHOLD_MS
}

/// Smallest integer not below `a / b`.
pub open spec fn ceil_div(a: nat, b: nat) -> nat {
    ((a + b - 1) / (b as int)) as nat
}

/// Retry-After for a bucket holding `tokens` units at `rate` units per ms:
/// the time to refill up to one token, rounded up to whole seconds and never
/// below one second; unbounded (`u64::MAX`) when nothing ever refills.
pub open spec fn retry_after(tokens: nat, rate: nat) -> u64 {
    if rate == 0 {
        u64::MAX
    } else {
        let ms = ceil_div((TOKEN_UNIT - tokens) as nat, rate);
        let secs = ceil_div(ms, 1000);
        if secs < 1 { 1 } else { secs as u64 }
    }
}

/// Tokens after refilling `b` up to `now`, capped at `cap`.
pub open spec fn refilled(b: Bucket, now: u64, cap: nat, rate: nat) -> nat {
    let t = b.tokens + elapsed_ms(now, b.last_refill_ns) * rate;
    if t < cap { t as nat } else { cap }
}

/// One request against a bucket: refill, then take a token if there is one.
pub open spec fn bucket_step(b: Bucket, now: u64, cap: nat, rate: nat) -> (Bucket, RateLimitResult) {
    let t = refilled(b, now, cap, rate);
    if t >= TOKEN_UNIT {
        (Bucket { tokens: (t - TOKEN_UNIT) as u64, last_refill_ns: now }, RateLimitResult::Allowed)
    } else {
        (
            Bucket { tokens: t as u64, last_refill_ns: now },
            RateLimitResult::Limited { retry_after_secs: retry_after(t, rate) },
        )
    }
}

/// Position of `key` in the table (the last one), or -1.
pub open spec fn key_index(s: Seq<Entry>, key: Seq<char>) -> int
    decreases s.len(),
{
    if s.len() == 0 {
        -1
    } else if s.last().0 == key {
        s.len() - 1
    } else {
        key_index(s.drop_last(), key)
    }
}

/// The table and the answer after a request for `key` at `now`, once any
/// eviction is done: the key's bucket (a full one for a new key) takes the
/// request.
pub open spec fn key_step(s: Seq<Entry>, key: Seq<char>, now: u64, cap: nat, rate: nat) -> (
    Seq<Entry>,
    RateLimitResult,
) {
    let i = key_index(s, key);
    let b = if i >= 0 { s[i].1 } else { Bucket { tokens: cap as u64, last_refill_ns: now } };
    let (b2, res) = bucket_step(b, now, cap, rate);
    if i >= 0 {
        (s.update(i, (key, b2)), res)
    } else {
        (s.push((key, b2)), res)
    }
}

/// `new` consists of the entries of `old` at the strictly increasing
/// positions `idx`.
pub open spec fn is_sub_by(old: Seq<Entry>, new: Seq<Entry>, idx: Seq<int>) -> bool {
    &&& idx.len() == new.len()
    &&& forall|k: int| 0 <= k < idx.len() ==> 0 <= #[trigger] idx[k] < old.len() && new[k] == old[idx[k]]
    &&& forall|k1: int, k2: int| 0 <= k1 < k2 < idx.len() ==> idx[k1] < idx[k2]
}

/// `new` keeps exactly the entries of `old` that are not stale at `now`.
pub open spec fn stale_evicted(old: Seq<Entry>, new: Seq<Entry>, now: u64) -> bool {
    exists|idx: Seq<int>|
        #![trigger is_sub_by(old, new, idx)]
        is_sub_by(old, new, idx) && forall|i: int|
            0 <= i < old.len() ==> (!is_stale(old[i].1, now) <==> idx.contains(i))
}

/// `new` drops the older half (rounded down) of `old`: every dropped entry
/// was refilled no later than every kept one.
pub open spec fn oldest_half_evicted(old: Seq<Entry>, new: Seq<Entry>) -> bool {
    exists|idx: Seq<int>|
        #![trigger is_sub_by(old, new, idx)]
        is_sub_by(old, new, idx) && new.len() == old.len() - old.len() / 2 && forall|i: int, k: int|
            0 <= i < old.len() && !idx.contains(i) && 0 <= k < new.len()
                ==> old[i].1.last_refill_ns <= new[k].1.last_refill_ns
}

/// Eviction before a request: nothing while the table has room; otherwise
/// stale buckets go, and if the table is still full the older half goes too.
pub open spec fn evicted(old: Seq<Entry>, mid: Seq<Entry>, now: u64) -> bool {
    if old.len() < RATE_LIMIT_MAX_BUCKETS {
        mid == old
    } else {
        exists|f: Seq<Entry>|
            #![trigger stale_evicted(old, f, now)]
            stale_evicted(old, f, now) && if f.len() < RATE_LIMIT_MAX_BUCKETS {
                mid == f
            } else {
                oldest_half_evicted(f, mid)
            }
    }
}

/// One request for `key` at `now` takes the table `before` to `after` with
/// answer `r`: eviction first, then the key's bucket takes the request.
pub open spec fn limiter_step(
    before: Seq<Entry>,
    after: Seq<Entry>,
    key: Seq<char>,
    now: u64,
    cap: nat,
    rate: nat,
    r: RateLimitResult,
) -> bool {
    exists|mid: Seq<Entry>|
        #![trigger evicted(before, mid, now)]
        evicted(before, mid, now) && key_step(mid, key, now, cap, rate) == (after, r)
}

/// No key occurs twice.
pub open spec fn distinct_keys(s: Seq<Entry>) -> bool {
    forall|i: int, j: int| 0 <= i < j < s.len() ==> s[i].0 != s[j].0
}

/// Every bucket holds at most `cap` units.
pub open spec fn bounded_tokens(s: Seq<Entry>, cap: nat) -> bool {
    forall|i: int| 0 <= i < s.len() ==> s[i].1.tokens <= cap
}

pub proof fn lemma_sub_preserves(old: Seq<Entry>, new: Seq<Entry>, idx: Seq<int>, cap: nat)
    requires
        is_sub_by(old, new, idx),
        distinct_keys(old),
        bounded_tokens(old, cap),
    ensures
        distinct_keys(new),
        bounded_tokens(new, cap),
        new.len() <= old.len(),
{
    assert forall|i: int, j: int| 0 <= i < j < new.len() implies new[i].0 != new[j].0 by {
        assert(idx[i] < idx[j]);
    }
    assert forall|i: int| 0 <= i < new.len() implies new[i].1.tokens <= cap by {
        assert(0 <= idx[i] < old.len());
    }
    lemma_increasing_bounded(idx, old.len() as int);
}

proof fn lemma_increasing_bounded(idx: Seq<int>, n: int)
    requires
        n >= 0,
        forall|k: int| 0 <= k < idx.len() ==> 0 <= #[trigger] idx[k] < n,
        forall|k1: int, k2: int| 0 <= k1 < k2 < idx.len() ==> idx[k1] < idx[k2],
    ensures
        idx.len() <= n,
    decreases idx.len(),
{
    if idx.len() > 0 {
        let rest = idx.drop_last();
        assert forall|k: int| 0 <= k < rest.len() implies 0 <= #[trigger] rest[k] < idx.last() by {
            assert(idx[k] < idx[idx.len() - 1]);
        }
        assert(0 <= idx[idx.len() - 1] < n);
        lemma_increasing_bounded(rest, idx.last());
    }
}

/// Token bucket rate limiter keyed by client.
pub struct RateLimiter {
    keys: Vec<Vec<char>>,
    states: Vec<Bucket>,
    capacity: u64,
    refill_rate: u64,
    origin: std::time::Instant,
}

#[verifier::external_type_specification]
#[verifier::external_body]
pub struct ExInstant(std::time::Instant);

/// Reads the monotonic clock (`std::time::Instant::now`).
#[verifier::external_body]
fn instant_now() -> (r: std::time::Instant) {
    std::time::Instant::now()
}

/// Nanoseconds elapsed since `origin` on the monotonic clock
/// (`Instant::elapsed`); nothing is promised of the value.
#[verifier::external_body]
fn nanos_since(origin: &std::time::Instant) -> (r: u64) {
    origin.elapsed().as_nanos() as u64
}

impl RateLimiter {
    /// The bucket table, in insertion order.
    pub closed spec fn entries(&self) -> Seq<Entry> {
        Seq::new(self.keys@.len(), |i: int| (self.keys@[i]@, self.states@[i]))
    }

    /// Bucket capacity in units (`burst_size * TOKEN_UNIT`).
    pub closed spec fn capacity(&self) -> nat {
        self.capacity as nat
    }

    /// Refill rate in units per millisecond (`requests_per_minute`).
    pub closed spec fn rate(&self) -> nat {
        self.refill_rate as nat
    }

    /// Internal consistency: no key twice, no bucket over capacity, and the
    /// table never exceeds `RATE_LIMIT_MAX_BUCKETS` entries.
    pub closed spec fn wf(&self) -> bool {
        &&& self.keys@.len() == self.states@.len()
        &&& self.keys@.len() <= RATE_LIMIT_MAX_BUCKETS
        &&& distinct_keys(self.entries())
        &&& bounded_tokens(self.entries(), self.capacity as nat)
        &&& self.capacity <= u32::MAX as u64 * TOKEN_UNIT
        &&& self.refill_rate <= u32::MAX
    }

    /// Create a new rate limiter with the given config.
    pub fn new(config: &RateLimitConfig) -> (r: Self)
        ensures
            r.wf(),
            r.entries() == Seq::<Entry>::empty(),
            r.capacity() == config.burst_size as nat * TOKEN_UNIT,
            r.rate() == config.requests_per_minute as nat,
    {
        let r = RateLimiter {
            keys: Vec::new(),
            states: Vec::new(),
            capacity: config.burst_size as u64 * TOKEN_UNIT,
            refill_rate: config.requests_per_minute as u64,
            origin: instant_now(),
        };
        assert(r.entries() =~= Seq::<Entry>::empty());
        r
    }

    /// Number of active buckets (for testing/monitoring).
    pub fn bucket_count(&self) -> (n: usize)
        requires
            self.wf(),
        ensures
            n == self.entries().len(),
    {
        self.keys.len()
    }

    /// Check if a request is allowed for the given key, now.
    ///
    /// The request is judged at the current monotonic time as `check_at`
    /// judges it; nothing is known of the time read.
    pub fn check(&mut self, key: &str) -> (r: RateLimitResult)
        requires
            old(self).wf(),
        ensures
            final(self).wf(),
            final(self).capacity() == old(self).capacity(),
            final(self).rate() == old(self).rate(),
            exists|now: u64|
                limiter_step(
                    old(self).entries(),
                    final(self).entries(),
                    key@,
                    now,
                    old(self).capacity(),
                    old(self).rate(),
                    r,
                ),
    {
        let now = nanos_since(&self.origin);
        let r = self.check_at(key, now);
        assert(limiter_step(old(self).entries(), self.entries(), key@, now, old(self).capacity(), old(self).rate(), r));
        r
    }

    /// Check if a request for `key` at monotonic time `now_ns` is allowed.
    ///
    /// When the table is full, stale buckets are evicted first, then the
    /// older half if still full; the key's bucket (a full new one if absent)
    /// is refilled for the elapsed whole milliseconds and takes one token.
    pub fn check_at(&mut self, key: &str, now_ns: u64) -> (r: RateLimitResult)
        requires
            old(self).wf(),
        ensures
            final(self).wf(),
            final(self).capacity() == old(self).capacity(),
            final(self).rate() == old(self).rate(),
            limiter_step(
                old(self).entries(),
                final(self).entries(),
                key@,
                now_ns,
                old(self).capacity(),
                old(self).rate(),
                r,
            ),
    {
        let ghost e0 = self.entries();
        if self.keys.len() >= RATE_LIMIT_MAX_BUCKETS {
            self.evict_stale_buckets(now_ns);
            let ghost f = self.entries();
            assert(stale_evicted(e0, f, now_ns));
            if self.keys.len() >= RATE_LIMIT_MAX_BUCKETS {
                self.evict_oldest_half();
            }
            assert(evicted(e0, self.entries(), now_ns));
        }
        let ghost mid = self.entries();
        assert(evicted(e0, mid, now_ns));
        let kc = chars_of(key);
        let i = self.find(&kc);
        let b = if i < self.keys.len() {
            self.states[i]
        } else {
            Bucket { tokens: self.capacity, last_refill_ns: now_ns }
        };
        let (b2, res) = step_bucket(b, now_ns, self.capacity, self.refill_rate);
        if i < self.keys.len() {
            proof {
                lemma_key_index_found(mid, key@);
            }
            self.states.set(i, b2);
            proof {
                assert(self.entries() =~= mid.update(i as int, (key@, b2)));
                assert forall|x: int, y: int| 0 <= x < y < self.entries().len() implies
                    self.entries()[x].0 != self.entries()[y].0 by {
                    assert(mid[x].0 != mid[y].0);
                }
            }
        } else {
            self.keys.push(kc);
            self.states.push(b2);
            proof {
                assert(self.entries() =~= mid.push((key@, b2)));
                assert forall|x: int, y: int| 0 <= x < y < self.entries().len() implies
                    self.entries()[x].0 != self.entries()[y].0 by {
                    if y == mid.len() {
                        lemma_key_index_absent(mid, key@, x);
                    } else {
                        assert(mid[x].0 != mid[y].0);
                    }
                }
            }
        }
        assert(key_step(mid, key@, now_ns, self.capacity as nat, self.refill_rate as nat) == (
            self.entries(),
            res,
        ));
        assert(limiter_step(e0, self.entries(), key@, now_ns, self.capacity as nat, self.refill_rate as nat, res));
        res
    }

    /// Position of `key` in the table, or the table length when absent.
    fn find(&self, key: &Vec<char>) -> (i: usize)
        requires
            self.wf(),
        ensures
            i <= self.keys@.len(),
            i < self.keys@.len() ==> i == key_index(self.entries(), key@),
            i == self.keys@.len() ==> key_index(self.entries(), key@) == -1,
    {
        let mut j: usize = self.keys.len();
        assert(self.entries().take(j as int) =~= self.entries());
        while j > 0
            invariant
                self.wf(),
                j <= self.keys@.len(),
                key_index(self.entries(), key@) == key_index(self.entries().take(j as int), key@),
            decreases j,
        {
            let ghost t = self.entries().take(j as int);
            assert(t.drop_last() =~= self.entries().take(j - 1));
            if slice_eq(self.keys[j - 1].as_slice(), key.as_slice()) {
                return j - 1;
            }
            j = j - 1;
        }
        assert(self.entries().take(0) =~= Seq::<Entry>::empty());
        self.keys.len()
    }

    /// Drop every bucket last refilled five minutes or more before `now`.
    fn evict_stale_buckets(&mut self, now: u64)
        requires
            old(self).wf(),
        ensures
            final(self).wf(),
            final(self).capacity == old(self).capacity,
            final(self).refill_rate == old(self).refill_rate,
            stale_evicted(old(self).entries(), final(self).entries(), now),
    {
        let mut keep: Vec<bool> = Vec::new();
        let mut i: usize = 0;
        while i < self.states.len()
            invariant
                self.wf(),
                i <= self.states@.len(),
                keep@.len() == i,
                forall|j: int| 0 <= j < i ==> keep@[j] == !is_stale(self.states@[j], now),
            decreases self.states@.len() - i,
        {
            let b = self.states[i];
            let fresh = if now >= b.last_refill_ns {
                (now - b.last_refill_ns) / NS_PER_MS < STALE_THRESHOLD_MS
            } else {
                true
            };
            keep.push(fresh);
            i = i + 1;
        }
        let ghost e0 = self.entries();
        let idx = self.retain_marked(&keep);
        assert(is_sub_by(e0, self.entries(), idx@));
    }

    /// Drop the older half (rounded down) of the buckets by refill time.
    fn evict_oldest_half(&mut self)
        requires
            old(self).wf(),
        ensures
            final(self).wf(),
            final(self).capacity == old(self).capacity,
            final(self).refill_rate == old(self).refill_rate,
            oldest_half_evicted(old(self).entries(), final(self).entries()),
    {
        let n = self.states.len();
        let remove_count = n / 2;
        let mut keep: Vec<bool> = Vec::new();
        let mut i: usize = 0;
        while i < n
            invariant
                n == self.states@.len(),
                i <= n,
                keep@.len() == i,
                forall|j: int| 0 <= j < i ==> keep@[j],
            decreases n - i,
        {
            keep.push(true);
            i = i + 1;
        }
        proof {
            lemma_count_all_true(keep@);
        }
        let mut round: usize = 0;
        while round < remove_count
            invariant
                self.wf(),
                n == self.states@.len(),
                remove_count == n / 2,
                round <= remove_count,
                keep@.len() == n,
                count_true(keep@) == n - round,
                forall|a: int, c: int|
                    0 <= a < n && 0 <= c < n && !keep@[a] && keep@[c]
                        ==> self.states@[a].last_refill_ns <= self.states@[c].last_refill_ns,
            decreases remove_count - round,
        {
            // Find the kept bucket with the oldest refill time.
            proof {
                lemma_count_true_has_true(keep@);
            }
            let mut m: usize = n;
            let mut j: usize = 0;
            while j < n
                invariant
                    n == self.states@.len(),
                    keep@.len() == n,
                    j <= n,
                    m == n || (m < j && keep@[m as int]),
                    m == n ==> forall|c: int| 0 <= c < j ==> !keep@[c],
                    m < n ==> forall|c: int|
                        0 <= c < j && keep@[c] ==> self.states@[m as int].last_refill_ns
                            <= self.states@[c].last_refill_ns,
                decreases n - j,
            {
                if keep[j] {
                    if m == n || self.states[j].last_refill_ns < self.states[m].last_refill_ns {
                        m = j;
                    }
                }
                j = j + 1;
            }
            assert(m < n) by {
                if m == n {
                    let w = choose|c: int| 0 <= c < keep@.len() && keep@[c];
                    assert(!keep@[w]);
                }
            }
            let ghost before = keep@;
            keep.set(m, false);
            proof {
                lemma_count_true_clear(before, m as int);
            }
            round = round + 1;
        }
        let ghost e0 = self.entries();
        let idx = self.retain_marked(&keep);
        proof {
            lemma_count_true_len(keep@, self.entries().len());
            assert forall|a: int, k: int|
                0 <= a < e0.len() && !idx@.contains(a) && 0 <= k < self.entries().len()
                    implies e0[a].1.last_refill_ns <= self.entries()[k].1.last_refill_ns by {
                assert(0 <= idx@[k] < n);
                assert(idx@.contains(idx@[k]));
                assert(keep@[idx@[k]]);
            }
            assert(is_sub_by(e0, self.entries(), idx@));
        }
    }

    /// Keep exactly the buckets marked in `keep`, in order.
    fn retain_marked(&mut self, keep: &Vec<bool>) -> (idx: Ghost<Seq<int>>)
        requires
            old(self).wf(),
            keep@.len() == old(self).states@.len(),
        ensures
            final(self).wf(),
            final(self).capacity == old(self).capacity,
            final(self).refill_rate == old(self).refill_rate,
            is_sub_by(old(self).entries(), final(self).entries(), idx@),
            forall|i: int| 0 <= i < keep@.len() ==> (keep@[i] <==> idx@.contains(i)),
            final(self).entries().len() == count_true(keep@),
    {
        let ghost e0 = self.entries();
        let mut nk: Vec<Vec<char>> = Vec::new();
        let mut ns: Vec<Bucket> = Vec::new();
        let ghost mut ix: Seq<int> = Seq::empty();
        let mut i: usize = 0;
        while i < keep.len()
            invariant
                self.wf(),
                e0 == self.entries(),
                keep@.len() == self.states@.len(),
                i <= keep@.len(),
                nk@.len() == ns@.len(),
                ix.len() == nk@.len(),
                nk@.len() == count_true(keep@.take(i as int)),
                forall|k: int| 0 <= k < ix.len() ==> 0 <= #[trigger] ix[k] < i && nk@[k]@ == e0[ix[k]].0
                    && ns@[k] == e0[ix[k]].1,
                forall|k1: int, k2: int| 0 <= k1 < k2 < ix.len() ==> ix[k1] < ix[k2],
                forall|j: int| 0 <= j < i ==> (keep@[j] <==> ix.contains(j)),
            decreases keep@.len() - i,
        {
            proof {
                assert(keep@.take(i + 1).drop_last() =~= keep@.take(i as int));
            }
            if keep[i] {
                nk.push(clone_chars(&self.keys[i]));
                ns.push(self.states[i]);
                proof {
                    let ghost prev = ix;
                    ix = ix.push(i as int);
                    assert forall|j: int| 0 <= j < i + 1 implies (keep@[j] <==> ix.contains(j)) by {
                        lemma_push_contains(prev, i as int, j);
                    }
                }
            } else {
                proof {
                    assert forall|j: int| 0 <= j < i + 1 implies (keep@[j] <==> ix.contains(j)) by {
                        if j == i && ix.contains(j) {
                            let w = choose|w: int| 0 <= w < ix.len() && ix[w] == j;
                            assert(ix[w] < i);
                        }
                    }
                }
            }
            i = i + 1;
        }
        proof {
            assert(keep@.take(keep@.len() as int) =~= keep@);
        }
        self.keys = nk;
        self.states = ns;
        proof {
            assert(is_sub_by(e0, self.entries(), ix));
            lemma_sub_preserves(e0, self.entries(), ix, self.capacity as nat);
        }
        Ghost(ix)
    }
}

proof fn lemma_push_contains(s: Seq<int>, x: int, j: int)
    ensures
        s.push(x).contains(j) <==> (s.contains(j) || x == j),
{
    let p = s.push(x);
    if s.contains(j) {
        let w = choose|w: int| 0 <= w < s.len() && s[w] == j;
        assert(p[w] == j);
    }
    if x == j {
        assert(p[s.len() as int] == j);
    }
    if p.contains(j) {
        let w = choose|w: int| 0 <= w < p.len() && p[w] == j;
        if w < s.len() {
            assert(s[w] == j);
        }
    }
}

proof fn lemma_key_index_found(s: Seq<Entry>, key: Seq<char>)
    ensures
        -1 <= key_index(s, key) < s.len(),
        key_index(s, key) >= 0 ==> s[key_index(s, key)].0 == key,
    decreases s.len(),
{
    if s.len() > 0 && s.last().0 != key {
        lemma_key_index_found(s.drop_last(), key);
    }
}

/// Number of `true` flags.
pub open spec fn count_true(s: Seq<bool>) -> nat
    decreases s.len(),
{
    if s.len() == 0 {
        0
    } else {
        count_true(s.drop_last()) + if s.last() { 1nat } else { 0nat }
    }
}

proof fn lemma_count_all_true(s: Seq<bool>)
    requires
        forall|j: int| 0 <= j < s.len() ==> s[j],
    ensures
        count_true(s) == s.len(),
    decreases s.len(),
{
    if s.len() > 0 {
        lemma_count_all_true(s.drop_last());
    }
}

proof fn lemma_count_true_len(s: Seq<bool>, n: nat)
    ensures
        count_true(s) <= s.len(),
    decreases s.len(),
{
    if s.len() > 0 {
        lemma_count_true_len(s.drop_last(), n);
    }
}

proof fn lemma_count_true_has_true(s: Seq<bool>)
    requires
        count_true(s) > 0,
    ensures
        exists|c: int| 0 <= c < s.len() && s[c],
    decreases s.len(),
{
    if !s.last() {
        lemma_count_true_has_true(s.drop_last());
        let c = choose|c: int| 0 <= c < s.drop_last().len() && s.drop_last()[c];
        assert(s[c]);
    } else {
        assert(s[s.len() - 1]);
    }
}

proof fn lemma_count_true_clear(s: Seq<bool>, m: int)
    requires
        0 <= m < s.len(),
        s[m],
    ensures
        count_true(s.update(m, false)) + 1 == count_true(s),
    decreases s.len(),
{
    let u = s.update(m, false);
    if m == s.len() - 1 {
        assert(u.drop_last() =~= s.drop_last());
    } else {
        assert(u.drop_last() =~= s.drop_last().update(m, false));
        lemma_count_true_clear(s.drop_last(), m);
    }
}

proof fn lemma_key_index_absent(s: Seq<Entry>, key: Seq<char>, x: int)
    requires
        key_index(s, key) == -1,
        0 <= x < s.len(),
    ensures
        s[x].0 != key,
    decreases s.len(),
{
    if x < s.len() - 1 {
        assert(s.drop_last()[x] == s[x]);
        lemma_key_index_absent(s.drop_last(), key, x);
    }
}

/// A copy of a character vector.
fn clone_chars(v: &Vec<char>) -> (r: Vec<char>)
    ensures
        r@ == v@,
{
    let mut r: Vec<char> = Vec::new();
    let mut i: usize = 0;
    while i < v.len()
        invariant
            i <= v@.len(),
            r@ == v@.take(i as int),
        decreases v@.len() - i,
    {
        r.push(v[i]);
        proof {
            assert(v@.take(i + 1) =~= v@.take(i as int).push(v@[i as int]));
        }
        i = i + 1;
    }
    proof {
        assert(v@.take(v@.len() as int) =~= v@);
    }
    r
}

/// One request against a bucket: refill for the elapsed whole milliseconds
/// (capped at `cap`), then take a token or compute Retry-After; the bucket
/// counts as refilled at `now`.
pub fn step_bucket(b: Bucket, now: u64, cap: u64, rate: u64) -> (r: (Bucket, RateLimitResult))
    requires
        rate <= u32::MAX,
        cap <= u32::MAX as u64 * TOKEN_UNIT,
    ensures
        r == bucket_step(b, now, cap as nat, rate as nat),
{
    let elapsed: u64 = if now >= b.last_refill_ns { (now - b.last_refill_ns) / NS_PER_MS } else { 0 };
    assert(elapsed as u128 * rate as u128 <= u64::MAX as u128 * u32::MAX as u128) by (nonlinear_arith)
        requires
            rate <= u32::MAX,
    ;
    let total: u128 = b.tokens as u128 + elapsed as u128 * rate as u128;
    let t: u64 = if total < cap as u128 { total as u64 } else { cap };
    assert(t as nat == refilled(b, now, cap as nat, rate as nat));
    if t >= TOKEN_UNIT {
        (Bucket { tokens: t - TOKEN_UNIT, last_refill_ns: now }, RateLimitResult::Allowed)
    } else {
        let retry = if rate == 0 {
            u64::MAX
        } else {
            let deficit = TOKEN_UNIT - t;
            let ms = (deficit + rate - 1) / rate;
            let secs = (ms + 999) / 1000;
            if secs < 1 { 1 } else { secs }
        };
        (Bucket { tokens: t, last_refill_ns: now }, RateLimitResult::Limited { retry_after_secs: retry })
    }
}


/// Per-view rate limit override config.
pub struct ViewRateLimitConfig {
    pub rate_limit_per_minute: Option<u32>,
    pub rate_limit_burst_size: Option<u32>,
}

impl Default for ViewRateLimitConfig {
    fn default() -> (r: Self)
        ensures
            r.rate_limit_per_minute is None,
            r.rate_limit_burst_size is None,
    {
        ViewRateLimitConfig { rate_limit_per_minute: None, rate_limit_burst_size: None }
    }
}

/// Whether a view config overrides the global limit.
pub open spec fn overrides(cfg: ViewRateLimitConfig) -> bool {
    cfg.rate_limit_per_minute is Some || cfg.rate_limit_burst_size is Some
}

/// The per-view key under which a client is counted: `"{view_id}:{key}"`.
pub open spec fn view_key(view_id: Seq<char>, key: Seq<char>) -> Seq<char> {
    view_id + seq![':'] + key
}

/// Per-view rate limiter that wraps a global limiter with view-specific
/// limiters, created on first use from the view's override config.
pub struct PerViewRateLimiter {
    /// Global rate limiter.
    pub global: RateLimiter,
    view_ids: Vec<Vec<char>>,
    view_limiters: Vec<RateLimiter>,
}

impl PerViewRateLimiter {
    /// Ids of the views that have their own limiter, in creation order.
    pub closed spec fn view_ids(&self) -> Seq<Seq<char>> {
        Seq::new(self.view_ids@.len(), |i: int| self.view_ids@[i]@)
    }

    /// The global limiter.
    pub closed spec fn global_limiter(&self) -> RateLimiter {
        self.global
    }

    /// The limiter of the `i`-th view.
    pub closed spec fn view_limiter(&self, i: int) -> RateLimiter {
        self.view_limiters@[i]
    }

    /// Consistency: the global limiter and every view limiter are
    /// consistent, and no view id occurs twice.
    pub closed spec fn wf(&self) -> bool {
        &&& self.global.wf()
        &&& self.view_ids@.len() == self.view_limiters@.len()
        &&& forall|i: int| 0 <= i < self.view_limiters@.len() ==> self.view_limiters@[i].wf()
        &&& forall|i: int, j: int| 0 <= i < j < self.view_ids@.len() ==> self.view_ids@[i]@ != self.view_ids@[j]@
    }

    pub fn new(global: RateLimiter) -> (r: Self)
        requires
            global.wf(),
        ensures
            r.wf(),
            r.global_limiter() == global,
            r.view_ids() == Seq::<Seq<char>>::empty(),
    {
        let r = PerViewRateLimiter { global, view_ids: Vec::new(), view_limiters: Vec::new() };
        assert(r.view_ids() =~= Seq::<Seq<char>>::empty());
        r
    }

    /// Check rate limit for a request, now. If the view has a per-view
    /// override, its own limiter counts the client under
    /// `"{view_id}:{key}"`; otherwise the global limiter counts `key`.
    pub fn check(
        &mut self,
        key: &str,
        view_id: Option<&str>,
        view_config: Option<&ViewRateLimitConfig>,
    ) -> (r: RateLimitResult)
        requires
            old(self).wf(),
        ensures
            final(self).wf(),
            exists|now: u64| per_view_step(*old(self), *final(self), key@, view_id, view_config, now, r),
    {
        let now = nanos_since(&self.global.origin);
        let r = self.check_at(key, view_id, view_config, now);
        assert(per_view_step(*old(self), *self, key@, view_id, view_config, now, r));
        r
    }

    /// Check rate limit for a request at monotonic time `now_ns`.
    pub fn check_at(
        &mut self,
        key: &str,
        view_id: Option<&str>,
        view_config: Option<&ViewRateLimitConfig>,
        now_ns: u64,
    ) -> (r: RateLimitResult)
        requires
            old(self).wf(),
        ensures
            final(self).wf(),
            per_view_step(*old(self), *final(self), key@, view_id, view_config, now_ns, r),
    {
        if let (Some(vid), Some(cfg)) = (view_id, view_config) {
            if cfg.rate_limit_per_minute.is_some() || cfg.rate_limit_burst_size.is_some() {
                let ghost before = *self;
                let i = self.get_or_create_view_limiter(vid, cfg);
                let mut vk = String::new();
                crate::text::push_str(&mut vk, vid);
                crate::text::push_char(&mut vk, ':');
                crate::text::push_str(&mut vk, key);
                assert(vk@ == view_key(vid@, key@));
                let ghost mid = *self;
                let mut l = self.view_limiters.remove(i);
                let r = l.check_at(vk.as_str(), now_ns);
                let ghost lafter = l;
                self.view_limiters.insert(i, l);
                proof {
                    assert(self.view_limiters@ =~= mid.view_limiters@.update(i as int, lafter));
                    assert(self.view_ids() =~= mid.view_ids());
                }
                return r;
            }
        }
        let r = self.global.check_at(key, now_ns);
        proof {
            assert(self.view_ids() =~= old(self).view_ids());
        }
        r
    }

    /// Position of the view's limiter, creating it from `cfg` (defaults:
    /// 120 requests per minute, burst 60) when the view has none yet.
    fn get_or_create_view_limiter(&mut self, view_id: &str, cfg: &ViewRateLimitConfig) -> (i: usize)
        requires
            old(self).wf(),
        ensures
            final(self).wf(),
            final(self).global_limiter() == old(self).global_limiter(),
            i < final(self).view_ids().len(),
            final(self).view_ids()[i as int] == view_id@,
            view_index(old(self).view_ids(), view_id@) >= 0 ==> {
                &&& i == view_index(old(self).view_ids(), view_id@)
                &&& final(self).view_ids() == old(self).view_ids()
                &&& final(self).view_limiters@ == old(self).view_limiters@
            },
            view_index(old(self).view_ids(), view_id@) < 0 ==> {
                &&& i == old(self).view_ids().len()
                &&& final(self).view_ids() == old(self).view_ids().push(view_id@)
                &&& final(self).view_limiters@.drop_last() == old(self).view_limiters@
                &&& fresh_view_limiter(final(self).view_limiters@.last(), *cfg)
            },
    {
        let vc = chars_of(view_id);
        let mut j: usize = self.view_ids.len();
        assert(self.view_ids().take(j as int) =~= self.view_ids());
        while j > 0
            invariant
                self.wf(),
                *self == *old(self),
                vc@ == view_id@,
                j <= self.view_ids@.len(),
                view_index(self.view_ids(), vc@) == view_index(self.view_ids().take(j as int), vc@),
            decreases j,
        {
            assert(self.view_ids().take(j as int).drop_last() =~= self.view_ids().take(j - 1));
            if slice_eq(self.view_ids[j - 1].as_slice(), vc.as_slice()) {
                assert(self.view_ids().take(j as int).last() == vc@);
                return j - 1;
            }
            j = j - 1;
        }
        assert(self.view_ids().take(0) =~= Seq::<Seq<char>>::empty());
        let config = RateLimitConfig {
            requests_per_minute: match cfg.rate_limit_per_minute { Some(v) => v, None => 120 },
            burst_size: match cfg.rate_limit_burst_size { Some(v) => v, None => 60 },
            strategy: RateLimitStrategy::Ip,
        };
        let limiter = RateLimiter::new(&config);
        let ghost prev = self.view_ids();
        self.view_ids.push(vc);
        self.view_limiters.push(limiter);
        proof {
            assert(self.view_ids() =~= prev.push(view_id@));
            assert(self.view_limiters@.drop_last() =~= old(self).view_limiters@);
            assert forall|a: int, b: int| 0 <= a < b < self.view_ids@.len() implies
                self.view_ids@[a]@ != self.view_ids@[b]@ by {
                if b == prev.len() {
                    lemma_view_index_absent(prev, view_id@, a);
                    assert(prev[a] == self.view_ids@[a]@);
                }
            }
        }
        self.view_ids.len() - 1
    }
}

/// A limiter freshly made for a view with override `cfg`.
pub open spec fn fresh_view_limiter(l: RateLimiter, cfg: ViewRateLimitConfig) -> bool {
    &&& l.entries() == Seq::<Entry>::empty()
    &&& l.capacity() == match cfg.rate_limit_burst_size { Some(b) => b as nat, None => 60nat } * TOKEN_UNIT
    &&& l.rate() == match cfg.rate_limit_per_minute { Some(r) => r as nat, None => 120nat }
}

/// Position of `id` among view ids (the last one), or -1.
pub open spec fn view_index(ids: Seq<Seq<char>>, id: Seq<char>) -> int
    decreases ids.len(),
{
    if ids.len() == 0 {
        -1
    } else if ids.last() == id {
        ids.len() - 1
    } else {
        view_index(ids.drop_last(), id)
    }
}

proof fn lemma_view_index_absent(ids: Seq<Seq<char>>, id: Seq<char>, x: int)
    requires
        view_index(ids, id) == -1,
        0 <= x < ids.len(),
    ensures
        ids[x] != id,
    decreases ids.len(),
{
    if x < ids.len() - 1 {
        assert(ids.drop_last()[x] == ids[x]);
        lemma_view_index_absent(ids.drop_last(), id, x);
    }
}

/// One request through the per-view limiter: with a view id and an
/// overriding config, the view's limiter (created fresh if missing) counts
/// the request under `view_key`, and nothing else changes; otherwise the
/// global limiter counts it under `key` and the view limiters stay as they
/// are.
pub closed spec fn per_view_step(
    before: PerViewRateLimiter,
    after: PerViewRateLimiter,
    key: Seq<char>,
    view_id: Option<&str>,
    cfg: Option<&ViewRateLimitConfig>,
    now: u64,
    r: RateLimitResult,
) -> bool {
    if view_id is Some && cfg is Some && overrides(*cfg->0) {
        let vid = view_id->0@;
        let i = view_index(before.view_ids(), vid);
        let pos = if i >= 0 { i } else { before.view_ids().len() as int };
        &&& after.global == before.global
        &&& after.view_ids() == (if i >= 0 { before.view_ids() } else { before.view_ids().push(vid) })
        &&& after.view_limiters@.len() == after.view_ids().len()
        &&& forall|j: int| 0 <= j < after.view_ids().len() && j != pos ==> after.view_limiter(j) == before.view_limiter(j)
        &&& (i < 0 ==> exists|f: RateLimiter| fresh_view_limiter(f, *cfg->0)
                && limiter_step(f.entries(), after.view_limiter(pos).entries(), view_key(vid, key), now, f.capacity(), f.rate(), r)
                && after.view_limiter(pos).capacity() == f.capacity() && after.view_limiter(pos).rate() == f.rate())
        &&& (i >= 0 ==> limiter_step(before.view_limiter(pos).entries(), after.view_limiter(pos).entries(),
                view_key(vid, key), now, before.view_limiter(pos).capacity(), before.view_limiter(pos).rate(), r)
                && after.view_limiter(pos).capacity() == before.view_limiter(pos).capacity()
                && after.view_limiter(pos).rate() == before.view_limiter(pos).rate())
    } else {
        &&& limiter_step(before.global.entries(), after.global.entries(), key, now, before.global.capacity(), before.global.rate(), r)
        &&& after.global.capacity() == before.global.capacity()
        &&& after.global.rate() == before.global.rate()
        &&& after.view_ids() == before.view_ids()
        &&& after.view_limiters@ == before.view_limiters@
    }
}

// ── Laws ────────────────────────────────────────────────────────────

/// Number of requests admitted among `n` made one after another at time
/// `t` against bucket `b`.
pub open spec fn admitted_at(b: Bucket, t: u64, n: nat, cap: nat, rate: nat) -> nat
    decreases n,
{
    if n == 0 {
        0
    } else {
        let (b2, res) = bucket_step(b, t, cap, rate);
        admitted_at(b2, t, (n - 1) as nat, cap, rate) + if res is Allowed { 1nat } else { 0nat }
    }
}

/// A bucket holding `k` whole tokens (within capacity) and refilled at
/// time `t` admits exactly `min(n, k)` of `n` requests made at time `t`: in
/// particular a full bucket lets exactly `burst_size` requests through at
/// one instant.
pub proof fn law_bucket_admits_its_tokens(b: Bucket, t: u64, n: nat, k: nat, cap: nat, rate: nat)
    requires
        b.last_refill_ns == t,
        b.tokens == k * TOKEN_UNIT,
        b.tokens <= cap,
    ensures
        admitted_at(b, t, n, cap, rate) == if n < k { n } else { k },
    decreases n,
{
    if n > 0 {
        let (b2, res) = bucket_step(b, t, cap, rate);
        assert(elapsed_ms(t, t) == 0);
        assert(refilled(b, t, cap, rate) == b.tokens) by (nonlinear_arith)
            requires
                elapsed_ms(t, t) == 0,
                b.tokens <= cap,
                refilled(b, t, cap, rate) == (if b.tokens + elapsed_ms(t, t) * rate < cap {
                    (b.tokens + elapsed_ms(t, t) * rate) as nat
                } else {
                    cap
                }),
        ;
        if k > 0 {
            assert(b.tokens >= TOKEN_UNIT) by (nonlinear_arith)
                requires b.tokens == k * TOKEN_UNIT, k > 0;
            assert(b2.tokens == (k - 1) * TOKEN_UNIT) by (nonlinear_arith)
                requires b2.tokens == b.tokens - TOKEN_UNIT, b.tokens == k * TOKEN_UNIT;
            law_bucket_admits_its_tokens(b2, t, (n - 1) as nat, (k - 1) as nat, cap, rate);
        } else {
            assert(b2.tokens == 0);
            law_bucket_admits_its_tokens(b2, t, (n - 1) as nat, 0, cap, rate);
        }
    }
}

/// Retry-After is honest: a client told to wait `s` seconds, that waits
/// exactly that long, is admitted (whenever anything refills and a bucket
/// holds at least one token), and `s` is never below one second.
pub proof fn law_retry_after_suffices(b: Bucket, t: u64, cap: nat, rate: nat, s: u64)
    requires
        rate > 0,
        cap >= TOKEN_UNIT,
        b.tokens <= cap,
        bucket_step(b, t, cap, rate).1 == (RateLimitResult::Limited { retry_after_secs: s }),
        t as int + s as int * NS_PER_MS as int * 1000 <= u64::MAX,
    ensures
        s >= 1,
        bucket_step(bucket_step(b, t, cap, rate).0, (t + s * NS_PER_MS * 1000) as u64, cap, rate).1
            == RateLimitResult::Allowed,
{
    let (b2, res) = bucket_step(b, t, cap, rate);
    let tk = refilled(b, t, cap, rate);
    assert(tk < TOKEN_UNIT);
    let m = b2.last_refill_ns;
    assert(b2.tokens == tk && m == t);
    let deficit: nat = (TOKEN_UNIT - tk) as nat;
    let ms = ceil_div(deficit, rate);
    let secs = ceil_div(ms, 1000);
    assert(ms * rate >= deficit) by (nonlinear_arith)
        requires ms == (deficit + rate - 1) / (rate as int), rate > 0;
    assert(secs * 1000 >= ms) by (nonlinear_arith)
        requires secs == (ms + 1000 - 1) / 1000int;
    assert(ms <= deficit) by (nonlinear_arith)
        requires ms == (deficit + rate - 1) / (rate as int), rate > 0;
    assert(secs <= ms + 1) by (nonlinear_arith)
        requires secs == (ms + 1000 - 1) / 1000int;
    assert(s as nat >= secs);
    let t2 = (t + s * NS_PER_MS * 1000) as u64;
    assert(elapsed_ms(t2, m) >= s * 1000) by (nonlinear_arith)
        requires
            t2 == t + s * 1000000 * 1000,
            m <= t,
            elapsed_ms(t2, m) == (t2 - m) / 1000000int,
    ;
    assert(elapsed_ms(t2, m) * rate >= deficit) by (nonlinear_arith)
        requires
            elapsed_ms(t2, m) >= s * 1000,
            s as nat >= secs,
            secs * 1000 >= ms,
            ms * rate >= deficit,
            rate > 0,
    ;
    assert(refilled(b2, t2, cap, rate) >= TOKEN_UNIT);
}

/// A request for one key leaves every other key's bucket as it was, when
/// the table had room (no eviction).
pub proof fn law_other_keys_untouched(s: Seq<Entry>, key: Seq<char>, now: u64, cap: nat, rate: nat, j: int)
    requires
        0 <= j < s.len(),
        s[j].0 != key,
    ensures
        key_step(s, key, now, cap, rate).0[j] == s[j],
{
    lemma_key_index_found(s, key);
}

/// The bucket table never holds more than `RATE_LIMIT_MAX_BUCKETS` buckets,
/// and no bucket ever holds more than its capacity.
pub proof fn law_bucket_table_bounded(l: &RateLimiter)
    requires
        l.wf(),
    ensures
        l.entries().len() <= RATE_LIMIT_MAX_BUCKETS,
        bounded_tokens(l.entries(), l.capacity()),
        distinct_keys(l.entries()),
{
}

} // verus!
