//! The sliding-window-log rate limiter. A tenant's window is the sorted
//! log of admitted-request timestamps still inside the trailing window;
//! one atomic `check` purges expired entries, counts the rest, and either
//! admits (recording the new timestamp and refreshing the key's time to
//! live) or rejects. The shared store executes exactly this step
//! server-side; here it is stated and proved over the window state itself.

use vstd::prelude::*;

verus! {

/// A decision returned by one rate check: whether the request was admitted
/// and how much quota remains in the current window.
#[derive(Clone, Copy, PartialEq, Eq, Structural, Debug)]
pub struct Decision {
    pub admitted: bool,
    pub remaining: u64,
}

/// One tenant's rate-window state as the shared store keeps it: the
/// timestamps (milliseconds since epoch) of admitted requests, oldest
/// first, and the key's remaining time to live in seconds (zero until the
/// first admission sets it).
pub struct RateWindow {
    pub timestamps: Vec<u64>,
    pub ttl_s: u64,
}

pub open spec fn sorted(s: Seq<u64>) -> bool {
    forall|i: int, j: int| 0 <= i <= j < s.len() ==> s[i] <= s[j]
}

/// Whether a recorded timestamp is still inside the trailing window ending
/// at `now`: it is not older than `now - window_ms`.
pub open spec fn in_window(ts: u64, now: u64, window_ms: u64) -> bool {
    now - window_ms <= ts
}

/// The window after purging: the entries still inside the trailing window
/// at `now`, in their original order.
pub open spec fn purged(s: Seq<u64>, now: u64, window_ms: u64) -> Seq<u64>
    decreases s.len(),
{
    if s.len() == 0 {
        Seq::empty()
    } else {
        let rest = purged(s.drop_last(), now, window_ms);
        if in_window(s.last(), now, window_ms) {
            rest.push(s.last())
        } else {
            rest
        }
    }
}

/// Whether a check at `now` admits, given the window state `s`: fewer than
/// `limit` admissions remain in the trailing window after the purge.
pub open spec fn spec_admits(s: Seq<u64>, now: u64, limit: u64, window_ms: u64) -> bool {
    purged(s, now, window_ms).len() < limit
}

/// The key's time to live after an admission: the window length rounded up
/// to whole seconds.
pub open spec fn ttl_seconds(window_ms: u64) -> u64 {
    (window_ms / 1000 + if window_ms % 1000 == 0 {
        0int
    } else {
        1int
    }) as u64
}

impl RateWindow {
    /// Well-formed window state: the log is sorted oldest first.
    pub open spec fn wf(&self) -> bool {
        sorted(self.timestamps@)
    }

    /// A tenant's state before any request: the empty log, no expiry set.
    pub fn new() -> (w: Self)
        ensures
            w.timestamps@ == Seq::<u64>::empty(),
            w.ttl_s == 0,
            w.wf(),
    {
        RateWindow { timestamps: Vec::new(), ttl_s: 0 }
    }
}

fn in_window_at(ts: u64, now: u64, window_ms: u64) -> (b: bool)
    ensures
        b == in_window(ts, now, window_ms),
{
    if now >= window_ms {
        ts >= now - window_ms
    } else {
        true
    }
}

/// Every purged entry is still in the window, and comes from the log.
pub proof fn lemma_purged_elems(s: Seq<u64>, now: u64, window_ms: u64)
    ensures
        purged(s, now, window_ms).len() <= s.len(),
        forall|j: int|
            0 <= j < purged(s, now, window_ms).len() ==> in_window(
                #[trigger] purged(s, now, window_ms)[j],
                now,
                window_ms,
            ) && s.contains(purged(s, now, window_ms)[j]),
    decreases s.len(),
{
    if s.len() > 0 {
        lemma_purged_elems(s.drop_last(), now, window_ms);
        assert(forall|x: u64| s.drop_last().contains(x) ==> s.contains(x));
        assert(s.contains(s.last()));
    }
}

/// Purging keeps the log sorted.
pub proof fn lemma_purged_sorted(s: Seq<u64>, now: u64, window_ms: u64)
    requires
        sorted(s),
    ensures
        sorted(purged(s, now, window_ms)),
    decreases s.len(),
{
    if s.len() > 0 {
        assert(sorted(s.drop_last()));
        lemma_purged_sorted(s.drop_last(), now, window_ms);
        lemma_purged_elems(s.drop_last(), now, window_ms);
    }
}

/// One atomic rate check against a tenant's window, the sliding-window-log
/// step: entries older than `now - window_ms` are purged; if fewer than
/// `limit` remain, `now` is recorded, the key's expiry is refreshed to the
/// window length, and the request is admitted with the leftover quota;
/// otherwise the window is left as purged and the request is rejected.
pub fn check(w: &mut RateWindow, now: u64, limit: u64, window_ms: u64) -> (d: Decision)
    requires
        old(w).wf(),
        limit > 0,
        window_ms > 0,
        forall|i: int| 0 <= i < old(w).timestamps@.len() ==> old(w).timestamps@[i] <= now,
    ensures
        final(w).wf(),
        d.admitted == spec_admits(old(w).timestamps@, now, limit, window_ms),
        d.admitted ==> {
            &&& final(w).timestamps@ == purged(old(w).timestamps@, now, window_ms).push(now)
            &&& d.remaining == limit - purged(old(w).timestamps@, now, window_ms).len() - 1
            &&& final(w).ttl_s == ttl_seconds(window_ms)
        },
        !d.admitted ==> {
            &&& final(w).timestamps@ == purged(old(w).timestamps@, now, window_ms)
            &&& d.remaining == 0
            &&& final(w).ttl_s == old(w).ttl_s
        },
        forall|i: int|
            0 <= i < final(w).timestamps@.len() ==> in_window(
                #[trigger] final(w).timestamps@[i],
                now,
                window_ms,
            ) && final(w).timestamps@[i] <= now,
{
    let ghost s = w.timestamps@;
    let n = w.timestamps.len();
    let mut kept: Vec<u64> = Vec::new();
    let mut i: usize = 0;
    while i < n
        invariant
            i <= n,
            n == s.len(),
            w.timestamps@ == s,
            kept@ == purged(s.take(i as int), now, window_ms),
        decreases n - i,
    {
        let ts = w.timestamps[i];
        proof {
            assert(s.take(i + 1 as int).drop_last() =~= s.take(i as int));
            assert(s.take(i + 1 as int).last() == s[i as int]);
        }
        if in_window_at(ts, now, window_ms) {
            kept.push(ts);
        }
        i = i + 1;
    }
    proof {
        assert(s.take(n as int) =~= s);
        lemma_purged_elems(s, now, window_ms);
        lemma_purged_sorted(s, now, window_ms);
    }
    let count = kept.len();
    if (count as u64) < limit {
        kept.push(now);
        let ttl = window_ms / 1000 + if window_ms % 1000 == 0 {
            0
        } else {
            1
        };
        w.timestamps = kept;
        w.ttl_s = ttl;
        Decision { admitted: true, remaining: limit - count as u64 - 1 }
    } else {
        w.timestamps = kept;
        Decision { admitted: false, remaining: 0 }
    }
}

/// The window state after a run of checks, one per entry of `times`, in
/// order, starting from the empty window. Each step is exactly the step
/// `check` takes.
pub open spec fn run_window(times: Seq<u64>, limit: u64, window_ms: u64) -> Seq<u64>
    decreases times.len(),
{
    if times.len() == 0 {
        Seq::empty()
    } else {
        let prev = run_window(times.drop_last(), limit, window_ms);
        let p = purged(prev, times.last(), window_ms);
        if p.len() < limit {
            p.push(times.last())
        } else {
            p
        }
    }
}

/// The times at which such a run admits a request, oldest first.
pub open spec fn admitted_times(times: Seq<u64>, limit: u64, window_ms: u64) -> Seq<u64>
    decreases times.len(),
{
    if times.len() == 0 {
        Seq::empty()
    } else {
        let prev_adm = admitted_times(times.drop_last(), limit, window_ms);
        if spec_admits(
            run_window(times.drop_last(), limit, window_ms),
            times.last(),
            limit,
            window_ms,
        ) {
            prev_adm.push(times.last())
        } else {
            prev_adm
        }
    }
}

/// How many of the times in `s` fall inside the trailing window ending at
/// `t`.
pub open spec fn count_in_window(s: Seq<u64>, t: u64, window_ms: u64) -> nat
    decreases s.len(),
{
    if s.len() == 0 {
        0
    } else {
        count_in_window(s.drop_last(), t, window_ms) + if in_window(s.last(), t, window_ms)
            && s.last() <= t {
            1nat
        } else {
            0nat
        }
    }
}

proof fn lemma_purged_push(s: Seq<u64>, x: u64, now: u64, window_ms: u64)
    ensures
        in_window(x, now, window_ms) ==> purged(s.push(x), now, window_ms) == purged(
            s,
            now,
            window_ms,
        ).push(x),
        !in_window(x, now, window_ms) ==> purged(s.push(x), now, window_ms) == purged(
            s,
            now,
            window_ms,
        ),
{
    assert(s.push(x).drop_last() =~= s);
    assert(s.push(x).last() == x);
}

/// Purging at a later instant subsumes an earlier purge: what an earlier
/// purge removed, a later one would remove too.
proof fn lemma_purge_at_later(s: Seq<u64>, a: u64, b: u64, window_ms: u64)
    requires
        a <= b,
    ensures
        purged(purged(s, a, window_ms), b, window_ms) == purged(s, b, window_ms),
    decreases s.len(),
{
    if s.len() > 0 {
        let d = s.drop_last();
        let x = s.last();
        lemma_purge_at_later(d, a, b, window_ms);
        if in_window(x, a, window_ms) {
            lemma_purged_push(purged(d, a, window_ms), x, b, window_ms);
        } else {
            assert(!in_window(x, b, window_ms));
        }
    }
}

/// A run never leaves more than `limit` entries in the window.
pub proof fn lemma_run_window_len(times: Seq<u64>, limit: u64, window_ms: u64)
    ensures
        run_window(times, limit, window_ms).len() <= limit,
    decreases times.len(),
{
    if times.len() > 0 {
        let d = times.drop_last();
        lemma_run_window_len(d, limit, window_ms);
        lemma_purged_elems(run_window(d, limit, window_ms), times.last(), window_ms);
    }
}

/// Every admitted time is one of the run's request times.
proof fn lemma_admitted_contains(times: Seq<u64>, limit: u64, window_ms: u64)
    ensures
        forall|j: int|
            0 <= j < admitted_times(times, limit, window_ms).len() ==> times.contains(
                #[trigger] admitted_times(times, limit, window_ms)[j],
            ),
    decreases times.len(),
{
    if times.len() > 0 {
        let d = times.drop_last();
        let adm = admitted_times(times, limit, window_ms);
        let prev_adm = admitted_times(d, limit, window_ms);
        lemma_admitted_contains(d, limit, window_ms);
        assert forall|x: u64| d.contains(x) implies times.contains(x) by {
            let k = choose|k: int| 0 <= k < d.len() && d[k] == x;
            assert(times[k] == x);
        }
        assert(times.contains(times.last())) by {
            assert(times[times.len() - 1] == times.last());
        }
        assert forall|j: int| 0 <= j < adm.len() implies times.contains(adm[j]) by {
            if j < prev_adm.len() {
                assert(adm[j] == prev_adm[j]);
            } else {
                assert(adm[j] == times.last());
            }
        }
    }
}

/// For a run at nondecreasing times, the window state is exactly the
/// admitted times purged at the last request time: the store's per-key
/// state is the in-window admitted log, nothing more and nothing less.
proof fn lemma_run_is_purged_admitted(times: Seq<u64>, limit: u64, window_ms: u64)
    requires
        sorted(times),
        times.len() > 0,
    ensures
        run_window(times, limit, window_ms) == purged(
            admitted_times(times, limit, window_ms),
            times.last(),
            window_ms,
        ),
    decreases times.len(),
{
    let d = times.drop_last();
    let x = times.last();
    let prev = run_window(d, limit, window_ms);
    let prev_adm = admitted_times(d, limit, window_ms);
    let p = purged(prev, x, window_ms);
    if d.len() == 0 {
        assert(prev =~= Seq::<u64>::empty());
        assert(prev_adm =~= Seq::<u64>::empty());
        assert(p =~= Seq::<u64>::empty());
        if 0 < limit {
            lemma_purged_push(Seq::<u64>::empty(), x, x, window_ms);
        }
    } else {
        assert(sorted(d));
        lemma_run_is_purged_admitted(d, limit, window_ms);
        assert(d.last() <= x) by {
            assert(d[d.len() - 1] == times[times.len() - 2]);
        }
        lemma_purge_at_later(prev_adm, d.last(), x, window_ms);
        assert(p == purged(prev_adm, x, window_ms));
        if p.len() < limit {
            lemma_purged_push(prev_adm, x, x, window_ms);
        }
    }
}

proof fn lemma_count_le_purged(s: Seq<u64>, t: u64, tn: u64, window_ms: u64)
    requires
        tn <= t,
        forall|i: int| 0 <= i < s.len() ==> s[i] <= tn,
    ensures
        count_in_window(s, t, window_ms) <= purged(s, tn, window_ms).len(),
    decreases s.len(),
{
    if s.len() > 0 {
        lemma_count_le_purged(s.drop_last(), t, tn, window_ms);
    }
}

/// Quota bound: over any run of rate checks for one key at nondecreasing
/// times, no trailing window of `window_ms` milliseconds ever contains
/// more than `limit` admitted requests, at any instant `t` and whatever
/// the interleaving of admissions and rejections was.
pub proof fn lemma_quota_bound(times: Seq<u64>, limit: u64, window_ms: u64, t: u64)
    requires
        sorted(times),
    ensures
        count_in_window(admitted_times(times, limit, window_ms), t, window_ms) <= limit,
    decreases times.len(),
{
    if times.len() > 0 {
        let d = times.drop_last();
        let x = times.last();
        assert(sorted(d));
        let adm = admitted_times(times, limit, window_ms);
        let prev_adm = admitted_times(d, limit, window_ms);
        if x > t {
            lemma_quota_bound(d, limit, window_ms, t);
            if spec_admits(run_window(d, limit, window_ms), x, limit, window_ms) {
                assert(adm.drop_last() =~= prev_adm);
                assert(adm.last() == x);
            }
        } else {
            lemma_admitted_contains(times, limit, window_ms);
            assert forall|j: int| 0 <= j < adm.len() implies adm[j] <= x by {
                let k = choose|k: int| 0 <= k < times.len() && times[k] == adm[j];
                assert(times[k] <= times[times.len() - 1]);
            }
            lemma_count_le_purged(adm, t, x, window_ms);
            lemma_run_is_purged_admitted(times, limit, window_ms);
            lemma_run_window_len(times, limit, window_ms);
        }
    }
}

} // verus!
