//! Per-key request rate limiting over a sliding one-minute window: a
//! request is refused while as many allowed requests of its key as the limit
//! lie within the last minute.
//!
//! Time is given to the limiter by its caller, in milliseconds of a
//! monotonic clock. The entries are kept in a `Vec` with one entry per key
//! rather than a `HashMap<String, _>`: Verus specifies no contents for a
//! hash map keyed by `String`, so nothing could be proved of its lookups,
//! while the `Vec` keeps the same one-entry-per-key rule as an invariant.
use vstd::prelude::*;
use crate::text::{str_eq, string_of};

verus! {

/// The length of a rate-limit window, in milliseconds.
pub const WINDOW_MS: u64 = 60_000;

/// The times of the allowed requests of one key that may still count.
struct RateLimitEntry {
    key: String,
    times: Vec<u64>,
}

/// Counts requests per key over a sliding window and refuses those beyond a
/// limit.
pub struct RateLimiter {
    entries: Vec<RateLimitEntry>,
    default_limit: u32,
    cleanup_interval_secs: u64,
}

/// Some entry has the key.
spec fn has_entry(s: Seq<RateLimitEntry>, k: Seq<char>) -> bool {
    exists|i: int| 0 <= i < s.len() && (#[trigger] s[i]).key@ == k
}

/// The position of an entry with the key (meaningful when there is one).
spec fn entry_index(s: Seq<RateLimitEntry>, k: Seq<char>) -> int {
    choose|i: int| 0 <= i < s.len() && (#[trigger] s[i]).key@ == k
}

/// No key has two entries.
spec fn entry_keys_distinct(s: Seq<RateLimitEntry>) -> bool {
    forall|i: int, j: int| 0 <= i < s.len() && 0 <= j < s.len() && i != j ==> (#[trigger] s[i]).key@ != (#[trigger] s[j]).key@
}

/// The entries as a map from key to the times of its allowed requests.
spec fn entries_map(s: Seq<RateLimitEntry>) -> Map<Seq<char>, Seq<u64>> {
    Map::new(|k: Seq<char>| has_entry(s, k), |k: Seq<char>| s[entry_index(s, k)].times@)
}

/// The times that lie within the window that ends at `now`: those after
/// one window before `now`, in their order.
pub open spec fn recent(times: Seq<u64>, now: u64) -> Seq<u64>
    decreases times.len(),
{
    if times.len() == 0 {
        Seq::empty()
    } else {
        let r = recent(times.drop_last(), now);
        if times.last() > now - WINDOW_MS {
            r.push(times.last())
        } else {
            r
        }
    }
}

/// The keys that have an allowed request within the window that ends at
/// `now`, with the times of those requests.
pub open spec fn live(m: Map<Seq<char>, Seq<u64>>, now: u64) -> Map<Seq<char>, Seq<u64>> {
    Map::new(
        |k: Seq<char>| m.contains_key(k) && recent(m[k], now).len() > 0,
        |k: Seq<char>| recent(m[k], now),
    )
}

/// Whether a request for `key` under `limit` is allowed at `now`: it is
/// refused when as many allowed requests of the key as the limit lie within
/// the last window.
pub open spec fn allows(m: Map<Seq<char>, Seq<u64>>, now: u64, key: Seq<char>, limit: u32) -> bool {
    !(live(m, now).contains_key(key) && live(m, now)[key].len() >= limit)
}

/// The record after a request: times that left the window are forgotten,
/// and an allowed request is recorded at `now`.
pub open spec fn after_check(m: Map<Seq<char>, Seq<u64>>, now: u64, key: Seq<char>, limit: u32) -> Map<Seq<char>, Seq<u64>> {
    let l = live(m, now);
    if !allows(m, now, key, limit) {
        l
    } else if l.contains_key(key) {
        l.insert(key, l[key].push(now))
    } else {
        l.insert(key, seq![now])
    }
}

impl View for RateLimiter {
    type V = Map<Seq<char>, Seq<u64>>;

    closed spec fn view(&self) -> Map<Seq<char>, Seq<u64>> {
        entries_map(self.entries@)
    }
}

proof fn lemma_push_entry(s: Seq<RateLimitEntry>, e: RateLimitEntry)
    requires
        entry_keys_distinct(s),
        !has_entry(s, e.key@),
    ensures
        entry_keys_distinct(s.push(e)),
        entries_map(s.push(e)) == entries_map(s).insert(e.key@, e.times@),
{
    let t = s.push(e);
    assert forall|i: int, j: int| 0 <= i < t.len() && 0 <= j < t.len() && i != j implies (#[trigger] t[i]).key@ != (#[trigger] t[j]).key@ by {
        if i < s.len() && j < s.len() {
            assert(t[i] == s[i] && t[j] == s[j]);
        } else if i < s.len() {
            assert(t[i] == s[i]);
        } else {
            assert(t[j] == s[j]);
        }
    }
    let a = entries_map(t);
    let b = entries_map(s).insert(e.key@, e.times@);
    assert forall|k: Seq<char>| a.contains_key(k) <==> b.contains_key(k) by {
        if has_entry(s, k) {
            let i = entry_index(s, k);
            assert(t[i] == s[i]);
        }
        if k == e.key@ {
            assert(t[s.len() as int] == e);
        }
        if has_entry(t, k) {
            let i = entry_index(t, k);
            if i < s.len() {
                assert(t[i] == s[i]);
            }
        }
    }
    assert forall|k: Seq<char>| #[trigger] a.contains_key(k) implies a[k] == b[k] by {
        let i = entry_index(t, k);
        if k == e.key@ {
            assert(t[s.len() as int].key@ == k);
            assert(i == s.len());
        } else {
            assert(i < s.len());
            assert(t[i] == s[i]);
            assert(has_entry(s, k));
            let i2 = entry_index(s, k);
            assert(t[i2] == s[i2]);
            assert(i == i2);
        }
    }
    assert(a =~= b);
}

proof fn lemma_update_entry(s: Seq<RateLimitEntry>, i: int, e: RateLimitEntry)
    requires
        entry_keys_distinct(s),
        0 <= i < s.len(),
        s[i].key@ == e.key@,
    ensures
        entry_keys_distinct(s.update(i, e)),
        entries_map(s.update(i, e)) == entries_map(s).insert(e.key@, e.times@),
{
    let t = s.update(i, e);
    assert forall|a: int, b: int| 0 <= a < t.len() && 0 <= b < t.len() && a != b implies (#[trigger] t[a]).key@ != (#[trigger] t[b]).key@ by {
        assert(t[a].key@ == s[a].key@);
        assert(t[b].key@ == s[b].key@);
    }
    let ma = entries_map(t);
    let mb = entries_map(s).insert(e.key@, e.times@);
    assert forall|k: Seq<char>| ma.contains_key(k) <==> mb.contains_key(k) by {
        if has_entry(s, k) {
            let j = entry_index(s, k);
            assert(t[j].key@ == s[j].key@);
        }
        if has_entry(t, k) {
            let j = entry_index(t, k);
            assert(t[j].key@ == s[j].key@);
        }
        if k == e.key@ {
            assert(t[i] == e);
        }
    }
    assert forall|k: Seq<char>| #[trigger] ma.contains_key(k) implies ma[k] == mb[k] by {
        let j = entry_index(t, k);
        assert(t[j].key@ == s[j].key@);
        if k == e.key@ {
            assert(t[i].key@ == k);
            assert(j == i);
        } else {
            assert(j != i);
            assert(t[j] == s[j]);
            assert(has_entry(s, k));
            let j2 = entry_index(s, k);
            assert(t[j2].key@ == s[j2].key@);
            assert(j == j2);
        }
    }
    assert(ma =~= mb);
}

/// The window slides: after an allowed request, at most `limit` allowed
/// requests of its key lie within the window that ends at it, one more than
/// before; a refused request records nothing and only forgets times that
/// left the window.
pub proof fn lemma_allowed_requests_stay_within_limit(m: Map<Seq<char>, Seq<u64>>, now: u64, key: Seq<char>, limit: u32)
    requires
        limit > 0,
    ensures
        allows(m, now, key, limit) ==> after_check(m, now, key, limit).contains_key(key)
            && after_check(m, now, key, limit)[key].len() <= limit
            && after_check(m, now, key, limit)[key].len() == (if live(m, now).contains_key(key) { live(m, now)[key].len() + 1 } else { 1 }),
        !allows(m, now, key, limit) ==> after_check(m, now, key, limit) == live(m, now),
{
}

/// A request for one key leaves every other key's times as they were, but
/// for those that left the window.
pub proof fn lemma_other_keys_unaffected(m: Map<Seq<char>, Seq<u64>>, now: u64, key: Seq<char>, other: Seq<char>, limit: u32)
    requires
        other != key,
    ensures
        after_check(m, now, key, limit).contains_key(other) == live(m, now).contains_key(other),
        live(m, now).contains_key(other) ==> after_check(m, now, key, limit)[other] == recent(m[other], now),
{
}

proof fn lemma_recent_empty(times: Seq<u64>, now: u64)
    requires
        forall|i: int| 0 <= i < times.len() ==> #[trigger] times[i] <= now - WINDOW_MS,
    ensures
        recent(times, now).len() == 0,
    decreases times.len(),
{
    if times.len() > 0 {
        lemma_recent_empty(times.drop_last(), now);
    }
}

/// Once no allowed request of a key lies within the last window, its next
/// request is allowed (under any positive limit) and starts a new count.
pub proof fn lemma_expired_window_resets(m: Map<Seq<char>, Seq<u64>>, now: u64, key: Seq<char>, limit: u32)
    requires
        limit > 0,
        m.contains_key(key) ==> forall|i: int| 0 <= i < m[key].len() ==> #[trigger] m[key][i] <= now - WINDOW_MS,
    ensures
        allows(m, now, key, limit),
        after_check(m, now, key, limit)[key] == seq![now],
{
    if m.contains_key(key) {
        lemma_recent_empty(m[key], now);
    }
}

impl RateLimiter {
    /// A limiter with no request counted yet.
    pub fn new(default_limit: u32, cleanup_interval_secs: u64) -> (r: RateLimiter)
        ensures
            r@ == Map::<Seq<char>, Seq<u64>>::empty(),
            r.wf(),
            r.configured_limit() == default_limit,
            r.configured_cleanup_secs() == cleanup_interval_secs,
    {
        proof {
            assert(entries_map(Seq::<RateLimitEntry>::empty()) =~= Map::<Seq<char>, Seq<u64>>::empty());
        }
        RateLimiter { entries: Vec::new(), default_limit, cleanup_interval_secs }
    }

    /// The default limit the limiter was made with.
    pub closed spec fn configured_limit(&self) -> u32 {
        self.default_limit
    }

    /// The cleanup interval, in seconds, the limiter was made with.
    pub closed spec fn configured_cleanup_secs(&self) -> u64 {
        self.cleanup_interval_secs
    }

    /// Each key has one entry.
    pub closed spec fn wf(&self) -> bool {
        entry_keys_distinct(self.entries@)
    }

    /// Decides a request for `key` under `limit` at time `now` (milliseconds
    /// of a monotonic clock): times that left the window are forgotten, the
    /// request is refused when as many allowed requests of its key as the
    /// limit lie within the last window, and otherwise it is recorded and
    /// allowed.
    pub fn check(&mut self, key: &str, limit: u32, now: u64) -> (allowed: bool)
        requires
            old(self).wf(),
            now >= WINDOW_MS,
        ensures
            final(self).wf(),
            allowed == allows(old(self)@, now, key@, limit),
            final(self)@ == after_check(old(self)@, now, key@, limit),
            final(self).configured_limit() == old(self).configured_limit(),
            final(self).configured_cleanup_secs() == old(self).configured_cleanup_secs(),
    {
        let mut kept: Vec<RateLimitEntry> = Vec::new();
        let mut n: usize = 0;
        while n < self.entries.len()
            invariant
                n <= self.entries@.len(),
                self.entries@ == old(self).entries@,
                entry_keys_distinct(self.entries@),
                now >= WINDOW_MS,
                entry_keys_distinct(kept@),
                entries_map(kept@) == live(entries_map(self.entries@.subrange(0, n as int)), now),
            decreases self.entries@.len() - n,
        {
            let ghost pre = self.entries@.subrange(0, n as int);
            let ghost e0 = self.entries@[n as int];
            proof {
                assert(self.entries@.subrange(0, n as int + 1) == pre.push(e0));
                assert(!has_entry(pre, e0.key@)) by {
                    if has_entry(pre, e0.key@) {
                        let k = entry_index(pre, e0.key@);
                        assert(pre[k] == self.entries@[k]);
                    }
                }
                assert(entry_keys_distinct(pre)) by {
                    assert forall|a: int, b: int| 0 <= a < pre.len() && 0 <= b < pre.len() && a != b
                        implies (#[trigger] pre[a]).key@ != (#[trigger] pre[b]).key@ by {
                        assert(pre[a] == self.entries@[a] && pre[b] == self.entries@[b]);
                    }
                }
                lemma_push_entry(pre, e0);
            }
            let times = recent_times(&self.entries[n].times, now);
            if times.len() > 0 {
                let e = RateLimitEntry { key: self.entries[n].key.clone(), times };
                proof {
                    assert(!has_entry(kept@, e.key@)) by {
                        if has_entry(kept@, e.key@) {
                            assert(entries_map(kept@).contains_key(e.key@));
                        }
                    }
                    lemma_push_entry(kept@, e);
                }
                kept.push(e);
                proof {
                    assert(entries_map(kept@) =~= live(entries_map(self.entries@.subrange(0, n as int + 1)), now));
                }
            } else {
                proof {
                    assert(entries_map(kept@) =~= live(entries_map(self.entries@.subrange(0, n as int + 1)), now));
                }
            }
            n = n + 1;
        }
        proof {
            assert(self.entries@.subrange(0, self.entries@.len() as int) == self.entries@);
        }
        let mut i: usize = 0;
        let mut found = false;
        while i < kept.len() && !found
            invariant
                i <= kept@.len(),
                found ==> i < kept@.len() && kept@[i as int].key@ == key@,
                forall|j: int| 0 <= j < i ==> (#[trigger] kept@[j]).key@ != key@,
            decreases kept@.len() - i + (if found { 0int } else { 1int }),
        {
            if str_eq(kept[i].key.as_str(), key) {
                found = true;
            } else {
                i = i + 1;
            }
        }
        proof {
            if !found {
                assert(!has_entry(kept@, key@));
            } else {
                assert(has_entry(kept@, key@));
                assert(entry_index(kept@, key@) == i as int);
            }
        }
        if found {
            if kept[i].times.len() >= limit as usize {
                self.entries = kept;
                return false;
            }
            let e = RateLimitEntry { key: string_of(key), times: times_with(&kept[i].times, now) };
            proof { lemma_update_entry(kept@, i as int, e); }
            kept.set(i, e);
        } else {
            let mut times: Vec<u64> = Vec::new();
            times.push(now);
            let e = RateLimitEntry { key: string_of(key), times };
            proof {
                assert(e.times@ =~= seq![now]);
                lemma_push_entry(kept@, e);
            }
            kept.push(e);
        }
        self.entries = kept;
        true
    }
}

/// The times of `times` that lie within the window that ends at `now`.
fn recent_times(times: &Vec<u64>, now: u64) -> (r: Vec<u64>)
    requires
        now >= WINDOW_MS,
    ensures
        r@ == recent(times@, now),
{
    let cutoff = now - WINDOW_MS;
    let mut r: Vec<u64> = Vec::new();
    let mut i: usize = 0;
    while i < times.len()
        invariant
            i <= times@.len(),
            cutoff == now - WINDOW_MS,
            r@ == recent(times@.subrange(0, i as int), now),
        decreases times@.len() - i,
    {
        proof {
            assert(times@.subrange(0, i as int + 1).drop_last() == times@.subrange(0, i as int));
            assert(times@.subrange(0, i as int + 1).last() == times@[i as int]);
        }
        if times[i] > cutoff {
            r.push(times[i]);
        }
        i = i + 1;
    }
    proof {
        assert(times@.subrange(0, times@.len() as int) == times@);
    }
    r
}

/// The times followed by `now`.
fn times_with(times: &Vec<u64>, now: u64) -> (r: Vec<u64>)
    ensures
        r@ == times@.push(now),
{
    let mut r: Vec<u64> = Vec::new();
    let mut i: usize = 0;
    while i < times.len()
        invariant
            i <= times@.len(),
            r@ == times@.subrange(0, i as int),
        decreases times@.len() - i,
    {
        r.push(times[i]);
        proof {
            assert(r@ =~= times@.subrange(0, i as int + 1));
        }
        i = i + 1;
    }
    proof {
        assert(times@.subrange(0, times@.len() as int) =~= times@);
    }
    r.push(now);
    r
}

} // verus!
