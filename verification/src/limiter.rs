//! Token-bucket rate limiting: one limiter per tier, one lazily created
//! bucket per identity key, a fixed refill rate of one token per second and
//! a per-tier burst capacity. Token amounts are held in millitokens so that
//! refill arithmetic over millisecond timestamps stays exact.

use vstd::prelude::*;

verus! {

/// Millitokens that make up one whole token; admitting a request costs one
/// token.
pub const MILLITOKENS_PER_TOKEN: u64 = 1000;

/// One token bucket: its current content and the timestamp of its last
/// refill, in milliseconds.
#[derive(Clone, Copy, Debug, PartialEq, Eq, Structural)]
pub struct RateBucket {
    pub millitokens: u64,
    pub last_refill_ms: u64,
}

/// The bucket content after refilling at `now_ms`: one millitoken per
/// elapsed millisecond, capped at the capacity. A clock that appears to run
/// backwards refills nothing.
pub open spec fn spec_refilled(prev: RateBucket, now_ms: u64, cap: u64) -> int {
    let elapsed = if now_ms >= prev.last_refill_ms {
        now_ms - prev.last_refill_ms
    } else {
        0
    };
    if prev.millitokens + elapsed >= cap {
        cap as int
    } else {
        prev.millitokens + elapsed
    }
}

/// One attempt to take a token from a bucket at `now_ms`: whether the
/// request is admitted, and the bucket afterwards.
pub open spec fn spec_consume(prev: RateBucket, now_ms: u64, cap: u64) -> (bool, RateBucket) {
    let refilled = spec_refilled(prev, now_ms, cap);
    let admitted = refilled >= MILLITOKENS_PER_TOKEN;
    let left = if admitted {
        refilled - MILLITOKENS_PER_TOKEN
    } else {
        refilled
    };
    (admitted, RateBucket { millitokens: left as u64, last_refill_ms: now_ms })
}

/// A bucket a key gets on first use: full.
pub open spec fn spec_fresh_bucket(cap: u64, now_ms: u64) -> RateBucket {
    RateBucket { millitokens: cap, last_refill_ms: now_ms }
}

/// The bucket of `key` in the table, if one exists.
pub open spec fn spec_find(s: Seq<(String, RateBucket)>, key: Seq<char>) -> Option<RateBucket>
    decreases s.len(),
{
    if s.len() == 0 {
        Option::None
    } else if s.first().0@ == key {
        Option::Some(s.first().1)
    } else {
        spec_find(s.drop_first(), key)
    }
}

/// One tier's rate limiter: its capacity and its bucket table, keyed by
/// identity key.
pub struct RateLimiter {
    pub capacity_millitokens: u64,
    pub buckets: Vec<(String, RateBucket)>,
}

/// How one `try_consume` call relates a limiter before and after: `key`'s
/// bucket (full on first use) is refilled and charged per `spec_consume`,
/// and every other key's bucket is untouched.
pub open spec fn spec_limiter_step(
    pre: RateLimiter,
    post: RateLimiter,
    key: Seq<char>,
    now_ms: u64,
    admitted: bool,
) -> bool {
    let cap = pre.capacity_millitokens;
    let prev = match spec_find(pre.buckets@, key) {
        Option::Some(b) => b,
        Option::None => spec_fresh_bucket(cap, now_ms),
    };
    &&& post.capacity_millitokens == cap
    &&& admitted == spec_consume(prev, now_ms, cap).0
    &&& spec_find(post.buckets@, key) == Option::Some(spec_consume(prev, now_ms, cap).1)
    &&& forall|k2: Seq<char>|
        k2 != key ==> #[trigger] spec_find(post.buckets@, k2) == spec_find(pre.buckets@, k2)
}

impl RateLimiter {
    /// Well-formed limiter: capacity of at least one token, distinct keys,
    /// no bucket fuller than the capacity.
    pub open spec fn wf(self) -> bool {
        &&& self.capacity_millitokens >= MILLITOKENS_PER_TOKEN
        &&& forall|i: int, j: int|
            0 <= i < j < self.buckets@.len() ==> (#[trigger] self.buckets@[i]).0@ != (
            #[trigger] self.buckets@[j]).0@
        &&& forall|i: int|
            0 <= i < self.buckets@.len() ==> (#[trigger] self.buckets@[i]).1.millitokens
                <= self.capacity_millitokens
    }

    /// A fresh limiter for a tier with the given burst size in whole tokens.
    pub fn new(burst: u32) -> (l: RateLimiter)
        requires
            burst >= 1,
        ensures
            l.wf(),
            l.capacity_millitokens == burst as int * MILLITOKENS_PER_TOKEN,
            l.buckets@.len() == 0,
            forall|k: Seq<char>| spec_find(l.buckets@, k) is None,
    {
        RateLimiter { capacity_millitokens: burst as u64 * MILLITOKENS_PER_TOKEN, buckets: Vec::new() }
    }

    /// Takes one token for `key` at time `now_ms`, creating the bucket full
    /// on first use. Admission and the new bucket state follow
    /// `spec_consume`; every other key's bucket is untouched.
    pub fn try_consume(&mut self, key: &String, now_ms: u64) -> (admitted: bool)
        requires
            old(self).wf(),
        ensures
            final(self).wf(),
            spec_limiter_step(*old(self), *final(self), key@, now_ms, admitted),
    {
        let cap = self.capacity_millitokens;
        let n: usize = self.buckets.len();
        let mut i: usize = 0;
        loop
            invariant_except_break
                0 <= i <= n,
                n == self.buckets@.len(),
                forall|k: int| 0 <= k < i ==> (#[trigger] self.buckets@[k]).0@ != key@,
            ensures
                0 <= i <= n,
                n == self.buckets@.len(),
                forall|k: int| 0 <= k < i ==> (#[trigger] self.buckets@[k]).0@ != key@,
                i < n ==> self.buckets@[i as int].0@ == key@,
            decreases n - i,
        {
            if i == n {
                break;
            }
            if self.buckets[i].0 == *key {
                break;
            }
            i = i + 1;
        }
        if i < n {
            // existing bucket
            proof {
                lemma_spec_find_at(self.buckets@, key@, i as int);
            }
            let prev = self.buckets[i].1;
            let elapsed: u64 = if now_ms >= prev.last_refill_ms {
                now_ms - prev.last_refill_ms
            } else {
                0
            };
            let refilled: u64 = if elapsed >= cap - prev.millitokens {
                cap
            } else {
                prev.millitokens + elapsed
            };
            let admitted = refilled >= MILLITOKENS_PER_TOKEN;
            let left: u64 = if admitted {
                refilled - MILLITOKENS_PER_TOKEN
            } else {
                refilled
            };
            let ghost old_seq = self.buckets@;
            self.buckets[i].1 = RateBucket { millitokens: left, last_refill_ms: now_ms };
            proof {
                assert(self.buckets@ =~= old_seq.update(
                    i as int,
                    (old_seq[i as int].0, RateBucket { millitokens: left, last_refill_ms: now_ms }),
                ));
                lemma_spec_find_update(
                    old_seq,
                    i as int,
                    RateBucket { millitokens: left, last_refill_ms: now_ms },
                    key@,
                );
            }
            admitted
        } else {
            // first use of this key: lazily create a full bucket, then charge it
            proof {
                lemma_spec_find_none(self.buckets@, key@);
            }
            let admitted = cap >= MILLITOKENS_PER_TOKEN;
            let left: u64 = if admitted {
                cap - MILLITOKENS_PER_TOKEN
            } else {
                cap
            };
            let entry = (key.clone(), RateBucket { millitokens: left, last_refill_ms: now_ms });
            let ghost gentry = entry;
            let ghost old_seq = self.buckets@;
            self.buckets.push(entry);
            proof {
                lemma_spec_find_push(old_seq, key@, gentry);
            }
            admitted
        }
    }
}

/// `spec_find` returns the bucket at the first index whose key matches.
pub proof fn lemma_spec_find_at(s: Seq<(String, RateBucket)>, key: Seq<char>, i: int)
    requires
        0 <= i < s.len(),
        s[i].0@ == key,
        forall|k: int| 0 <= k < i ==> (#[trigger] s[k]).0@ != key,
    ensures
        spec_find(s, key) == Option::Some(s[i].1),
    decreases s.len(),
{
    if i > 0 {
        lemma_spec_find_at(s.drop_first(), key, i - 1);
    }
}

/// A key that matches no entry has no bucket.
pub proof fn lemma_spec_find_none(s: Seq<(String, RateBucket)>, key: Seq<char>)
    requires
        forall|k: int| 0 <= k < s.len() ==> (#[trigger] s[k]).0@ != key,
    ensures
        spec_find(s, key) is None,
    decreases s.len(),
{
    if s.len() > 0 {
        lemma_spec_find_none(s.drop_first(), key);
    }
}

/// Updating the bucket at the first matching index updates that key's
/// lookup and no other.
pub proof fn lemma_spec_find_update(
    s: Seq<(String, RateBucket)>,
    i: int,
    b: RateBucket,
    key: Seq<char>,
)
    requires
        0 <= i < s.len(),
        s[i].0@ == key,
        forall|k: int| 0 <= k < i ==> (#[trigger] s[k]).0@ != key,
    ensures
        spec_find(s.update(i, (s[i].0, b)), key) == Option::Some(b),
        forall|k2: Seq<char>|
            k2 != key ==> #[trigger] spec_find(s.update(i, (s[i].0, b)), k2) == spec_find(s, k2),
    decreases s.len(),
{
    let t = s.update(i, (s[i].0, b));
    if i == 0 {
        assert(t.drop_first() =~= s.drop_first());
        assert(t.first().0@ == key);
    } else {
        assert(t.first() == s.first());
        assert(t.drop_first() =~= s.drop_first().update(i - 1, (s.drop_first()[i - 1].0, b)));
        lemma_spec_find_update(s.drop_first(), i - 1, b, key);
        let u = s.drop_first().update(i - 1, (s.drop_first()[i - 1].0, b));
        assert forall|k2: Seq<char>| k2 != key implies #[trigger] spec_find(t, k2) == spec_find(
            s,
            k2,
        ) by {
            if s.first().0@ != k2 {
                assert(spec_find(u, k2) == spec_find(s.drop_first(), k2));
                assert(t.drop_first() == u);
            }
        }
    }
}

/// Appending an entry for an absent key makes that key's lookup find it and
/// leaves every other lookup unchanged.
pub proof fn lemma_spec_find_push(
    s: Seq<(String, RateBucket)>,
    key: Seq<char>,
    entry: (String, RateBucket),
)
    requires
        forall|k: int| 0 <= k < s.len() ==> (#[trigger] s[k]).0@ != key,
        entry.0@ == key,
    ensures
        spec_find(s.push(entry), key) == Option::Some(entry.1),
        forall|k2: Seq<char>|
            k2 != key ==> #[trigger] spec_find(s.push(entry), k2) == spec_find(s, k2),
    decreases s.len(),
{
    let t = s.push(entry);
    if s.len() == 0 {
        assert(t.first() == entry);
        assert(t.drop_first() =~= Seq::<(String, RateBucket)>::empty());
        assert forall|k2: Seq<char>| k2 != key implies #[trigger] spec_find(t, k2) == spec_find(
            s,
            k2,
        ) by {
            assert(spec_find(t.drop_first(), k2) is None);
        }
    } else {
        assert(t.first() == s.first());
        assert(t.drop_first() =~= s.drop_first().push(entry));
        lemma_spec_find_push(s.drop_first(), key, entry);
        let u = s.drop_first().push(entry);
        assert forall|k2: Seq<char>| k2 != key implies #[trigger] spec_find(t, k2) == spec_find(
            s,
            k2,
        ) by {
            if s.first().0@ != k2 {
                assert(spec_find(u, k2) == spec_find(s.drop_first(), k2));
                assert(t.drop_first() == u);
            }
        }
    }
}

/// The bucket of one fixed key after `n` immediate consume attempts at the
/// same instant, starting from first use.
pub open spec fn spec_after_immediate(cap: u64, now_ms: u64, n: nat) -> RateBucket
    decreases n,
{
    if n == 0 {
        RateBucket {
            millitokens: spec_consume(spec_fresh_bucket(cap, now_ms), now_ms, cap).1.millitokens,
            last_refill_ms: now_ms,
        }
    } else {
        spec_consume(spec_after_immediate(cap, now_ms, (n - 1) as nat), now_ms, cap).1
    }
}

/// After the first use and `n` further immediate attempts with burst `b`,
/// `min(n + 1, b)` tokens have been taken.
pub proof fn lemma_immediate_drain(b: nat, now_ms: u64, n: nat)
    requires
        1 <= b,
        b * MILLITOKENS_PER_TOKEN <= u64::MAX,
    ensures
        spec_after_immediate((b * MILLITOKENS_PER_TOKEN) as u64, now_ms, n).last_refill_ms
            == now_ms,
        spec_after_immediate((b * MILLITOKENS_PER_TOKEN) as u64, now_ms, n).millitokens == if n + 1
            <= b {
            ((b - n - 1) * MILLITOKENS_PER_TOKEN) as u64
        } else {
            0u64
        },
    decreases n,
{
    if n > 0 {
        lemma_immediate_drain(b, now_ms, (n - 1) as nat);
    }
}

/// Rate-limiter burst law: with burst `b` and one fixed key, the first `b`
/// immediate requests are admitted, the `(b + 1)`th is rejected, and after
/// waiting one second a further request is admitted again.
pub proof fn lemma_burst_behaviour(b: nat, now_ms: u64)
    requires
        1 <= b,
        b * MILLITOKENS_PER_TOKEN <= u64::MAX,
        now_ms + 1000 <= u64::MAX,
    ensures
        spec_consume(
            spec_fresh_bucket((b * MILLITOKENS_PER_TOKEN) as u64, now_ms),
            now_ms,
            (b * MILLITOKENS_PER_TOKEN) as u64,
        ).0,
        forall|n: nat|
            n + 1 < b ==> spec_consume(
                #[trigger] spec_after_immediate((b * MILLITOKENS_PER_TOKEN) as u64, now_ms, n),
                now_ms,
                (b * MILLITOKENS_PER_TOKEN) as u64,
            ).0,
        !spec_consume(
            spec_after_immediate((b * MILLITOKENS_PER_TOKEN) as u64, now_ms, (b - 1) as nat),
            now_ms,
            (b * MILLITOKENS_PER_TOKEN) as u64,
        ).0,
        spec_consume(
            spec_after_immediate((b * MILLITOKENS_PER_TOKEN) as u64, now_ms, (b - 1) as nat),
            (now_ms + 1000) as u64,
            (b * MILLITOKENS_PER_TOKEN) as u64,
        ).0,
{
    let cap = (b * MILLITOKENS_PER_TOKEN) as u64;
    assert forall|n: nat| n + 1 < b implies spec_consume(
        #[trigger] spec_after_immediate(cap, now_ms, n),
        now_ms,
        cap,
    ).0 by {
        lemma_immediate_drain(b, now_ms, n);
    }
    lemma_immediate_drain(b, now_ms, (b - 1) as nat);
}

} // verus!
