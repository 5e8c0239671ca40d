//! Fixed-window request counting per client key.
//!
//! Times are milliseconds on one monotonic clock; the caller reads the clock
//! and passes the reading in.

use vstd::prelude::*;
use crate::text::concat;

verus! {

/// The current window of one key: when it began and how many requests it allowed.
#[derive(Debug, Clone, Copy, PartialEq, Eq, Structural)]
pub struct Window {
    pub started: u64,
    pub count: u32,
}

struct Bucket {
    key: String,
    started: u64,
    count: u32,
}

pub struct RateLimiter {
    buckets: Vec<Bucket>,
}

/// The key under which requests of `key` in `scope` are counted.
pub open spec fn bucket_key(scope: Seq<char>, key: Seq<char>) -> Seq<char> {
    scope + ":"@ + key
}

/// Time gone by since `started`; zero if the clock reads earlier.
pub open spec fn elapsed(now: u64, started: u64) -> int {
    if now >= started {
        now - started
    } else {
        0
    }
}

/// The windows that survive a sweep at `now`: those begun at most two windows ago.
pub open spec fn retained(m: Map<Seq<char>, Window>, window: u64, now: u64) -> Map<
    Seq<char>,
    Window,
> {
    Map::new(
        |k: Seq<char>| m.contains_key(k) && elapsed(now, m[k].started) <= 2 * window,
        |k: Seq<char>| m[k],
    )
}

/// The windows after one request for `key` at `now`, and whether the request is allowed.
pub open spec fn allow_outcome(
    m: Map<Seq<char>, Window>,
    key: Seq<char>,
    limit: u32,
    window: u64,
    now: u64,
) -> (Map<Seq<char>, Window>, bool) {
    let kept = retained(m, window, now);
    let current = if kept.contains_key(key) {
        kept[key]
    } else {
        Window { started: now, count: 0 }
    };
    let fresh = if elapsed(now, current.started) > window {
        Window { started: now, count: 0 }
    } else {
        current
    };
    if fresh.count >= limit {
        (kept.insert(key, fresh), false)
    } else {
        (kept.insert(key, Window { started: fresh.started, count: (fresh.count + 1) as u32 }), true)
    }
}

spec fn window_of(b: Bucket) -> Window {
    Window { started: b.started, count: b.count }
}

spec fn map_of(s: Seq<Bucket>) -> Map<Seq<char>, Window>
    decreases s.len(),
{
    if s.len() == 0 {
        Map::empty()
    } else {
        map_of(s.drop_last()).insert(s.last().key@, window_of(s.last()))
    }
}

spec fn keys_unique(s: Seq<Bucket>) -> bool {
    forall|i: int, j: int| 0 <= i < j < s.len() ==> (#[trigger] s[i]).key@ != (#[trigger] s[j]).key@
}

impl View for RateLimiter {
    type V = Map<Seq<char>, Window>;

    closed spec fn view(&self) -> Map<Seq<char>, Window> {
        map_of(self.buckets@)
    }
}

proof fn lemma_map_of_domain(s: Seq<Bucket>, k: Seq<char>)
    ensures
        map_of(s).contains_key(k) <==> exists|i: int| 0 <= i < s.len() && (#[trigger] s[i]).key@ == k,
    decreases s.len(),
{
    if s.len() > 0 {
        lemma_map_of_domain(s.drop_last(), k);
        if map_of(s).contains_key(k) && s.last().key@ != k {
            let i = choose|i: int| 0 <= i < s.drop_last().len() && (#[trigger] s.drop_last()[i]).key@ == k;
            assert(s[i] == s.drop_last()[i]);
        }
        if exists|i: int| 0 <= i < s.len() && (#[trigger] s[i]).key@ == k {
            let i = choose|i: int| 0 <= i < s.len() && (#[trigger] s[i]).key@ == k;
            if i < s.len() - 1 {
                assert(s.drop_last()[i] == s[i]);
            }
        }
    }
}

proof fn lemma_map_of_lookup(s: Seq<Bucket>, i: int)
    requires
        keys_unique(s),
        0 <= i < s.len(),
    ensures
        map_of(s).contains_key(s[i].key@),
        map_of(s)[s[i].key@] == window_of(s[i]),
    decreases s.len(),
{
    if i < s.len() - 1 {
        let t = s.drop_last();
        assert(t[i] == s[i]);
        assert forall|a: int, b: int| 0 <= a < b < t.len() implies (#[trigger] t[a]).key@ != (
        #[trigger] t[b]).key@ by {
            assert(t[a] == s[a] && t[b] == s[b]);
        }
        lemma_map_of_lookup(t, i);
        assert(s.last() == s[s.len() - 1]);
    }
}

proof fn lemma_map_of_update(s: Seq<Bucket>, i: int, b: Bucket)
    requires
        keys_unique(s),
        0 <= i < s.len(),
        b.key@ == s[i].key@,
    ensures
        map_of(s.update(i, b)) =~= map_of(s).insert(b.key@, window_of(b)),
        keys_unique(s.update(i, b)),
    decreases s.len(),
{
    let u = s.update(i, b);
    assert forall|x: int, y: int| 0 <= x < y < u.len() implies (#[trigger] u[x]).key@ != (
    #[trigger] u[y]).key@ by {
        assert(u[x].key@ == s[x].key@ && u[y].key@ == s[y].key@);
    }
    if i == s.len() - 1 {
        assert(u.drop_last() == s.drop_last());
    } else {
        let t = s.drop_last();
        assert forall|x: int, y: int| 0 <= x < y < t.len() implies (#[trigger] t[x]).key@ != (
        #[trigger] t[y]).key@ by {
            assert(t[x] == s[x] && t[y] == s[y]);
        }
        assert(t[i] == s[i]);
        lemma_map_of_update(t, i, b);
        assert(u.drop_last() == t.update(i, b));
        assert(u.last() == s.last());
        assert(s.last().key@ != s[i].key@);
    }
}

impl RateLimiter {
    #[verifier::type_invariant]
    spec fn well_formed(self) -> bool {
        keys_unique(self.buckets@)
    }

    pub fn new() -> (r: RateLimiter)
        ensures
            r@ == Map::<Seq<char>, Window>::empty(),
    {
        RateLimiter { buckets: Vec::new() }
    }

    /// Counts one request of `key` in `scope` at `now_ms` against at most `limit`
    /// requests per `window_ms`, and says whether it is allowed.
    pub fn allow(&mut self, scope: &str, key: &str, limit: u32, window_ms: u64, now_ms: u64) -> (r:
        bool)
        requires
            window_ms <= u64::MAX / 2,
        ensures
            (final(self)@, r) == allow_outcome(
                old(self)@,
                bucket_key(scope@, key@),
                limit,
                window_ms,
                now_ms,
            ),
    {
        proof {
            use_type_invariant(&*self);
        }
        let scoped = concat(scope, ":");
        let k = concat(scoped.as_str(), key);
        let ghost old_buckets = self.buckets@;
        let ghost old_map = map_of(old_buckets);
        let horizon = window_ms * 2;
        let mut kept: Vec<Bucket> = Vec::new();
        let mut i: usize = 0;
        while i < self.buckets.len()
            invariant
                i <= old_buckets.len(),
                self.buckets@ == old_buckets,
                keys_unique(old_buckets),
                horizon == 2 * window_ms,
                keys_unique(kept@),
                forall|j: int|
                    0 <= j < kept@.len() ==> exists|a: int|
                        0 <= a < i && (#[trigger] kept@[j]).key@ == (#[trigger] old_buckets[a]).key@,
                map_of(kept@) =~= retained(map_of(old_buckets.take(i as int)), window_ms, now_ms),
            decreases old_buckets.len() - i,
        {
            let b = &self.buckets[i];
            let gone = if now_ms >= b.started {
                now_ms - b.started
            } else {
                0
            };
            let ghost pre = old_buckets.take(i as int);
            assert(old_buckets.take(i + 1).drop_last() == pre);
            assert(old_buckets.take(i + 1).last() == old_buckets[i as int]);
            proof {
                lemma_map_of_domain(pre, b.key@);
                if map_of(pre).contains_key(b.key@) {
                    let a = choose|a: int| 0 <= a < pre.len() && (#[trigger] pre[a]).key@ == b.key@;
                    assert(pre[a] == old_buckets[a]);
                }
            }
            if gone <= horizon {
                let ghost before = kept@;
                kept.push(Bucket { key: b.key.clone(), started: b.started, count: b.count });
                proof {
                    assert(kept@.drop_last() == before);
                    assert forall|x: int, y: int| 0 <= x < y < kept@.len() implies (
                    #[trigger] kept@[x]).key@ != (#[trigger] kept@[y]).key@ by {
                        if y == kept@.len() - 1 {
                            assert(kept@[x] == before[x]);
                            let a = choose|a: int|
                                0 <= a < i && (#[trigger] before[x]).key@ == (
                                #[trigger] old_buckets[a]).key@;
                            assert(old_buckets[a].key@ != old_buckets[i as int].key@);
                        } else {
                            assert(kept@[x] == before[x] && kept@[y] == before[y]);
                        }
                    }
                    assert forall|j: int| 0 <= j < kept@.len() implies exists|a: int|
                        0 <= a < i + 1 && (#[trigger] kept@[j]).key@ == (
                        #[trigger] old_buckets[a]).key@ by {
                        if j == kept@.len() - 1 {
                            assert(kept@[j].key@ == old_buckets[i as int].key@);
                        } else {
                            assert(kept@[j] == before[j]);
                        }
                    }
                }
            } else {
                proof {
                    assert forall|j: int| 0 <= j < kept@.len() implies exists|a: int|
                        0 <= a < i + 1 && (#[trigger] kept@[j]).key@ == (
                        #[trigger] old_buckets[a]).key@ by {
                        let a = choose|a: int|
                            0 <= a < i && (#[trigger] kept@[j]).key@ == (
                            #[trigger] old_buckets[a]).key@;
                    }
                }
            }
            i = i + 1;
        }
        assert(old_buckets.take(old_buckets.len() as int) == old_buckets);
        let ghost kept_map = map_of(kept@);
        assert(kept_map =~= retained(old_map, window_ms, now_ms));
        let mut idx: usize = 0;
        while idx < kept.len() && kept[idx].key != k
            invariant
                idx <= kept@.len(),
                forall|j: int| 0 <= j < idx ==> (#[trigger] kept@[j]).key@ != k@,
            decreases kept@.len() - idx,
        {
            idx = idx + 1;
        }
        proof {
            lemma_map_of_domain(kept@, k@);
        }
        let allowed;
        if idx < kept.len() {
            proof {
                lemma_map_of_lookup(kept@, idx as int);
            }
            let mut started = kept[idx].started;
            let mut count = kept[idx].count;
            let gone = if now_ms >= started {
                now_ms - started
            } else {
                0
            };
            if gone > window_ms {
                started = now_ms;
                count = 0;
            }
            if count >= limit {
                allowed = false;
            } else {
                count = count + 1;
                allowed = true;
            }
            let ghost before = kept@;
            let nb = Bucket { key: k, started: started, count: count };
            proof {
                lemma_map_of_update(before, idx as int, nb);
            }
            kept.set(idx, nb);
        } else {
            let mut count: u32 = 0;
            if count >= limit {
                allowed = false;
            } else {
                count = count + 1;
                allowed = true;
            }
            let ghost before = kept@;
            kept.push(Bucket { key: k, started: now_ms, count: count });
            proof {
                assert(kept@.drop_last() == before);
                assert forall|x: int, y: int| 0 <= x < y < kept@.len() implies (
                #[trigger] kept@[x]).key@ != (#[trigger] kept@[y]).key@ by {
                    if y == kept@.len() - 1 {
                        assert(kept@[x] == before[x]);
                    } else {
                        assert(kept@[x] == before[x] && kept@[y] == before[y]);
                    }
                }
            }
        }
        self.buckets = kept;
        allowed
    }
}

impl Default for RateLimiter {
    fn default() -> (r: RateLimiter)
        ensures
            r@ == Map::<Seq<char>, Window>::empty(),
    {
        RateLimiter::new()
    }
}

/// Law: a key that has used up its limit within the current window is refused,
/// and its window is left as it was.
pub proof fn lemma_refused_at_limit(
    m: Map<Seq<char>, Window>,
    key: Seq<char>,
    limit: u32,
    window: u64,
    now: u64,
)
    requires
        m.contains_key(key),
        m[key].count >= limit,
        elapsed(now, m[key].started) <= window,
    ensures
        allow_outcome(m, key, limit, window, now).1 == false,
        allow_outcome(m, key, limit, window, now).0[key] == m[key],
{
}

/// Law: a key with no current window is allowed whenever the limit is not zero,
/// and its new window counts that one request.
pub proof fn lemma_new_key_allowed(
    m: Map<Seq<char>, Window>,
    key: Seq<char>,
    limit: u32,
    window: u64,
    now: u64,
)
    requires
        !m.contains_key(key),
        limit > 0,
    ensures
        allow_outcome(m, key, limit, window, now).1,
        allow_outcome(m, key, limit, window, now).0[key] == (Window { started: now, count: 1 }),
{
}

/// Law: an allowed request counts itself, so no window ever holds more than `limit`
/// allowed requests: the count after an allowed request is at most `limit`.
pub proof fn lemma_allowed_within_limit(
    m: Map<Seq<char>, Window>,
    key: Seq<char>,
    limit: u32,
    window: u64,
    now: u64,
)
    requires
        allow_outcome(m, key, limit, window, now).1,
    ensures
        allow_outcome(m, key, limit, window, now).0[key].count <= limit,
        allow_outcome(m, key, limit, window, now).0[key].count >= 1,
{
}

/// Law: once a window has run out, the key starts afresh and is allowed again.
pub proof fn lemma_allowed_after_window(
    m: Map<Seq<char>, Window>,
    key: Seq<char>,
    limit: u32,
    window: u64,
    now: u64,
)
    requires
        m.contains_key(key),
        elapsed(now, m[key].started) > window,
        limit > 0,
    ensures
        allow_outcome(m, key, limit, window, now).1,
        allow_outcome(m, key, limit, window, now).0[key] == (Window { started: now, count: 1 }),
{
}

/// Law: a request for one key leaves every other key's surviving window untouched.
pub proof fn lemma_other_keys_untouched(
    m: Map<Seq<char>, Window>,
    key: Seq<char>,
    other: Seq<char>,
    limit: u32,
    window: u64,
    now: u64,
)
    requires
        other != key,
        m.contains_key(other),
        elapsed(now, m[other].started) <= 2 * window,
    ensures
        allow_outcome(m, key, limit, window, now).0.contains_key(other),
        allow_outcome(m, key, limit, window, now).0[other] == m[other],
{
}

/// The windows after a run of calls of `allow`, each given as (bucket key, limit,
/// window, clock reading), starting from `m`.
pub open spec fn replay(m: Map<Seq<char>, Window>, calls: Seq<(Seq<char>, u32, u64, u64)>) -> Map<
    Seq<char>,
    Window,
>
    decreases calls.len(),
{
    if calls.len() == 0 {
        m
    } else {
        let c = calls.last();
        allow_outcome(replay(m, calls.drop_last()), c.0, c.1, c.2, c.3).0
    }
}

/// Whether call `i` of the run is allowed.
pub open spec fn replay_allows(
    m: Map<Seq<char>, Window>,
    calls: Seq<(Seq<char>, u32, u64, u64)>,
    i: int,
) -> bool {
    let c = calls[i];
    allow_outcome(replay(m, calls.take(i)), c.0, c.1, c.2, c.3).1
}

/// How many of the first `i` calls count under `key`.
pub open spec fn calls_under(calls: Seq<(Seq<char>, u32, u64, u64)>, key: Seq<char>, i: int) -> nat
    decreases i,
{
    if i <= 0 {
        0
    } else {
        calls_under(calls, key, i - 1) + if calls[i - 1].0 == key {
            1nat
        } else {
            0nat
        }
    }
}

/// What the law below asks of a run: the first call opens a fresh window for its
/// key; every call for that key uses the same limit and window and comes at most
/// one window after the first; and no call for another key comes so late that
/// its own sweep drops that window.
pub open spec fn one_window_run(
    m: Map<Seq<char>, Window>,
    calls: Seq<(Seq<char>, u32, u64, u64)>,
    limit: u32,
    window: u64,
) -> bool {
    let key = calls[0].0;
    let t0 = calls[0].3;
    &&& calls.len() > 0
    &&& !m.contains_key(key) || elapsed(t0, m[key].started) > window
    &&& forall|j: int|
        0 <= j < calls.len() && (#[trigger] calls[j]).0 == key ==> calls[j].1 == limit
            && calls[j].2 == window && t0 <= calls[j].3 && calls[j].3 - t0 <= window
    &&& forall|j: int|
        0 <= j < calls.len() && (#[trigger] calls[j]).0 != key ==> elapsed(calls[j].3, t0) <= 2
            * calls[j].2
}

spec fn capped(n: nat, limit: u32) -> u32 {
    if n < limit {
        n as u32
    } else {
        limit
    }
}

proof fn lemma_one_window_prefix(
    m: Map<Seq<char>, Window>,
    calls: Seq<(Seq<char>, u32, u64, u64)>,
    limit: u32,
    window: u64,
    i: int,
)
    requires
        one_window_run(m, calls, limit, window),
        1 <= i <= calls.len(),
    ensures
        replay(m, calls.take(i)).contains_key(calls[0].0),
        replay(m, calls.take(i))[calls[0].0] == (Window {
            started: calls[0].3,
            count: capped(calls_under(calls, calls[0].0, i), limit),
        }),
    decreases i,
{
    let key = calls[0].0;
    let t0 = calls[0].3;
    let t = calls.take(i);
    let c = calls[i - 1];
    assert(t.drop_last() == calls.take(i - 1));
    assert(t.last() == c);
    let before = replay(m, calls.take(i - 1));
    assert(replay(m, t) == allow_outcome(before, c.0, c.1, c.2, c.3).0);
    let n = calls_under(calls, key, i - 1);
    assert(calls_under(calls, key, i) == n + if c.0 == key {
        1nat
    } else {
        0nat
    });
    if i == 1 {
        assert(calls.take(0) == Seq::<(Seq<char>, u32, u64, u64)>::empty());
        assert(before == m);
        assert(n == 0);
        let kept = retained(m, window, t0);
        assert(c == calls[0]);
        if kept.contains_key(key) {
            assert(kept[key] == m[key]);
        }
    } else {
        lemma_one_window_prefix(m, calls, limit, window, i - 1);
        assert(before[key] == Window { started: t0, count: capped(n, limit) });
        let kept = retained(before, c.2, c.3);
        if c.0 == key {
            assert(c.1 == limit && c.2 == window && t0 <= c.3 && c.3 - t0 <= window);
            assert(kept.contains_key(key));
            assert(kept[key] == before[key]);
        } else {
            assert(elapsed(c.3, t0) <= 2 * c.2);
            assert(kept.contains_key(key));
            assert(kept[key] == before[key]);
        }
    }
}

/// Law: within one window, the calls for a key are allowed exactly while fewer
/// than `limit` of them came before: the first `limit` calls are allowed and
/// every later one refused (none at all when `limit` is zero), however calls for
/// other keys, with whatever limit and window, fall in between.
pub proof fn lemma_window_admits_first_limit_calls(
    m: Map<Seq<char>, Window>,
    calls: Seq<(Seq<char>, u32, u64, u64)>,
    limit: u32,
    window: u64,
    i: int,
)
    requires
        one_window_run(m, calls, limit, window),
        0 <= i < calls.len(),
        calls[i].0 == calls[0].0,
    ensures
        replay_allows(m, calls, i) == (calls_under(calls, calls[0].0, i) < limit),
{
    let key = calls[0].0;
    if i == 0 {
        assert(calls.take(0) == Seq::<(Seq<char>, u32, u64, u64)>::empty());
    } else {
        lemma_one_window_prefix(m, calls, limit, window, i);
    }
}

} // verus!
