//! Fixed-window request quota per (client, resource) pair.

use vstd::prelude::*;

verus! {

/// The window length and the number of requests admitted in one window.
#[derive(Clone, Copy, Debug)]
pub struct RateLimiter {
    /// Length of a window, in the same unit as the timestamps handed to the tracker.
    pub window_size: u64,
    pub max_requests: u32,
}

impl RateLimiter {
    pub fn new(window_size: u64, max_requests: u32) -> (r: Self)
        ensures
            r.window_size == window_size,
            r.max_requests == max_requests,
    {
        RateLimiter { window_size, max_requests }
    }

    /// Whether a window that has already admitted `count` requests admits one more.
    pub fn is_allowed(&self, count: u32) -> (r: bool)
        ensures
            r == (count < self.max_requests),
    {
        count < self.max_requests
    }
}

/// A window counter: when the window began, and how many requests it admitted.
pub type WindowCounter = (u64, u32);

/// The unit of rate limiting, as a pair of client identity and resource key.
pub type SubjectView = (Seq<char>, Seq<char>);

/// Time elapsed from `start` to `now`; zero when `now` is not later.
pub open spec fn elapsed(start: u64, now: u64) -> nat {
    if now >= start { (now - start) as nat } else { 0 }
}

/// Whether a counter's window has run out at `now`.
pub open spec fn is_stale(lim: RateLimiter, c: WindowCounter, now: u64) -> bool {
    elapsed(c.0, now) > lim.window_size
}

/// The admission decision for a subject whose counter is `entry`, and its counter afterwards.
pub open spec fn quota_step(lim: RateLimiter, entry: Option<WindowCounter>, now: u64) -> (bool, WindowCounter) {
    match entry {
        None => (true, (now, 1u32)),
        Some(c) => {
            if is_stale(lim, c, now) {
                (true, (now, 1u32))
            } else if c.1 < lim.max_requests {
                (true, (c.0, (c.1 + 1) as u32))
            } else {
                (false, c)
            }
        },
    }
}

/// The counter of `k` in `m`, if it has one.
pub open spec fn counter_of(m: Map<SubjectView, WindowCounter>, k: SubjectView) -> Option<WindowCounter> {
    if m.contains_key(k) { Some(m[k]) } else { None }
}

/// The decisions taken for one subject, starting from counter `entry`, on requests at `times`.
pub open spec fn decisions(lim: RateLimiter, entry: Option<WindowCounter>, times: Seq<u64>) -> Seq<bool>
    decreases times.len(),
{
    if times.len() == 0 {
        Seq::empty()
    } else {
        let out = quota_step(lim, entry, times[0]);
        seq![out.0] + decisions(lim, Some(out.1), times.drop_first())
    }
}

proof fn lemma_decisions_in_window(lim: RateLimiter, start: u64, count: u32, times: Seq<u64>)
    requires
        count >= 1,
        forall|i: int| 0 <= i < times.len() ==> start <= #[trigger] times[i] && times[i] - start <= lim.window_size,
    ensures
        decisions(lim, Some((start, count)), times).len() == times.len(),
        forall|i: int| 0 <= i < times.len() ==>
            #[trigger] decisions(lim, Some((start, count)), times)[i] == (count + i < lim.max_requests),
    decreases times.len(),
{
    if times.len() > 0 {
        let rest = times.drop_first();
        assert forall|i: int| 0 <= i < rest.len() implies start <= #[trigger] rest[i] && rest[i] - start
            <= lim.window_size by {
            assert(rest[i] == times[i + 1]);
        }
        if count < lim.max_requests {
            lemma_decisions_in_window(lim, start, (count + 1) as u32, rest);
        } else {
            lemma_decisions_in_window(lim, start, count, rest);
        }
        let d = decisions(lim, Some((start, count)), times);
        assert forall|i: int| 0 <= i < times.len() implies #[trigger] d[i] == (count + i < lim.max_requests) by {
            if i > 0 {
                assert(d[i] == decisions(lim, Some(quota_step(lim, Some((start, count)), times[0]).1), rest)[i - 1]);
            }
        }
    }
}

/// Within one window that begins at the first request of a subject, the first
/// `max_requests` requests are admitted and every later one is denied.
pub proof fn lemma_fixed_window_admits_exactly_limit(lim: RateLimiter, times: Seq<u64>)
    requires
        lim.max_requests >= 1,
        times.len() >= 1,
        forall|i: int| 0 <= i < times.len() ==> times[0] <= #[trigger] times[i] && times[i] - times[0]
            <= lim.window_size,
    ensures
        decisions(lim, None, times).len() == times.len(),
        forall|i: int| 0 <= i < times.len() ==> #[trigger] decisions(lim, None, times)[i] == (i < lim.max_requests),
{
    let rest = times.drop_first();
    assert forall|i: int| 0 <= i < rest.len() implies times[0] <= #[trigger] rest[i] && rest[i] - times[0]
        <= lim.window_size by {
        assert(rest[i] == times[i + 1]);
    }
    lemma_decisions_in_window(lim, times[0], 1u32, rest);
    let d = decisions(lim, None, times);
    assert forall|i: int| 0 <= i < times.len() implies #[trigger] d[i] == (i < lim.max_requests) by {
        if i > 0 {
            assert(d[i] == decisions(lim, Some((times[0], 1u32)), rest)[i - 1]);
        }
    }
}

/// Successive calls of `QuotaTracker::check_request` for one subject, each described by its
/// contract (answer `ds[i]` at time `ts[i]`, counters going from `ms[i]` to `ms[i + 1]`), answer
/// exactly `decisions` from the subject's first counter. With
/// `lemma_fixed_window_admits_exactly_limit`, the first `max_requests` calls of a window are
/// admitted and the later ones are denied.
pub proof fn lemma_calls_follow_decisions(
    lim: RateLimiter,
    subject: SubjectView,
    ms: Seq<Map<SubjectView, WindowCounter>>,
    ts: Seq<u64>,
    ds: Seq<bool>,
)
    requires
        ms.len() == ts.len() + 1,
        ds.len() == ts.len(),
        forall|i: int| 0 <= i < ts.len() ==> #[trigger] ds[i] == quota_step(lim, counter_of(ms[i], subject), ts[i]).0
            && ms[i + 1] == ms[i].insert(subject, quota_step(lim, counter_of(ms[i], subject), ts[i]).1),
    ensures
        ds == decisions(lim, counter_of(ms[0], subject), ts),
    decreases ts.len(),
{
    if ts.len() > 0 {
        let out = quota_step(lim, counter_of(ms[0], subject), ts[0]);
        assert(ds[0] == out.0);
        assert(counter_of(ms[1], subject) == Some(out.1));
        let ms2 = ms.drop_first();
        let ts2 = ts.drop_first();
        let ds2 = ds.drop_first();
        assert forall|i: int| 0 <= i < ts2.len() implies #[trigger] ds2[i] == quota_step(lim, counter_of(ms2[i], subject), ts2[i]).0
            && ms2[i + 1] == ms2[i].insert(subject, quota_step(lim, counter_of(ms2[i], subject), ts2[i]).1) by {
            assert(ds[i + 1] == quota_step(lim, counter_of(ms[i + 1], subject), ts[i + 1]).0);
        }
        lemma_calls_follow_decisions(lim, subject, ms2, ts2, ds2);
        assert(ds =~= seq![out.0] + ds2);
    }
}

/// A request that comes after its subject's window has run out is admitted and opens a
/// new window holding one request, whatever the old count was.
pub proof fn lemma_stale_window_restarts(lim: RateLimiter, c: WindowCounter, now: u64)
    requires
        is_stale(lim, c, now),
    ensures
        quota_step(lim, Some(c), now) == (true, (now, 1u32)),
{
}

struct Slot {
    client: String,
    resource: String,
    window_start: u64,
    count: u32,
}

impl Slot {
    spec fn key(&self) -> SubjectView {
        (self.client@, self.resource@)
    }

    spec fn counter(&self) -> WindowCounter {
        (self.window_start, self.count)
    }
}

spec fn slot_matches(k: Slot, o: Slot, lim: RateLimiter, now: u64) -> bool {
    k.key() == o.key() && k.counter() == o.counter() && !is_stale(lim, o.counter(), now)
}

/// `k` copies a live slot among the first `i` of `slots`.
spec fn kept_from(k: Slot, slots: Seq<Slot>, i: int, lim: RateLimiter, now: u64) -> bool {
    exists|a: int| 0 <= a < i && #[trigger] slot_matches(k, slots[a], lim, now)
}

spec fn kept_has(kept: Seq<Slot>, key: SubjectView) -> bool {
    exists|j: int| 0 <= j < kept.len() && #[trigger] kept[j].key() == key
}

/// Window counters of every subject seen so far.
pub struct QuotaTracker {
    limiter: RateLimiter,
    slots: Vec<Slot>,
    counters: Ghost<Map<SubjectView, WindowCounter>>,
}

impl View for QuotaTracker {
    type V = Map<SubjectView, WindowCounter>;

    closed spec fn view(&self) -> Map<SubjectView, WindowCounter> {
        self.counters@
    }
}

impl QuotaTracker {
    /// One slot per subject, and the counters map each subject to its slot's counter.
    pub closed spec fn wf(&self) -> bool {
        &&& forall|i: int, j: int|
            0 <= i < j < self.slots@.len() ==> #[trigger] self.slots@[i].key() != #[trigger] self.slots@[j].key()
        &&& forall|i: int|
            0 <= i < self.slots@.len() ==> self.counters@.contains_key(#[trigger] self.slots@[i].key())
                && self.counters@[self.slots@[i].key()] == self.slots@[i].counter()
        &&& forall|k: SubjectView|
            #[trigger] self.counters@.contains_key(k) ==> exists|i: int|
                0 <= i < self.slots@.len() && #[trigger] self.slots@[i].key() == k
    }

    pub closed spec fn limiter(&self) -> RateLimiter {
        self.limiter
    }

    pub fn new(limiter: RateLimiter) -> (r: Self)
        ensures
            r.wf(),
            r.limiter() == limiter,
            r@ == Map::<SubjectView, WindowCounter>::empty(),
    {
        QuotaTracker { limiter, slots: Vec::new(), counters: Ghost(Map::empty()) }
    }

    pub fn get_limiter(&self) -> (r: RateLimiter)
        ensures
            r == self.limiter(),
    {
        self.limiter
    }

    /// Counts one request of `client` for `resource` at time `now`, and says whether it is
    /// admitted. A denied request leaves the counter as it was.
    pub fn check_request(&mut self, client: &String, resource: &String, now: u64) -> (r: bool)
        requires
            old(self).wf(),
        ensures
            final(self).wf(),
            final(self).limiter() == old(self).limiter(),
            ({
                let out = quota_step(old(self).limiter(), counter_of(old(self)@, (client@, resource@)), now);
                &&& r == out.0
                &&& final(self)@ == old(self)@.insert((client@, resource@), out.1)
            }),
    {
        let ghost key = (client@, resource@);
        let mut i: usize = 0;
        while i < self.slots.len()
            invariant
                self.wf(),
                self == old(self),
                key == (client@, resource@),
                i <= self.slots@.len(),
                forall|j: int| 0 <= j < i ==> #[trigger] self.slots@[j].key() != key,
            decreases self.slots@.len() - i,
        {
            let same_client = self.slots[i].client.eq(client);
            let same_resource = self.slots[i].resource.eq(resource);
            if same_client && same_resource {
                let start = self.slots[i].window_start;
                let count = self.slots[i].count;
                proof {
                    assert(self.slots@[i as int].key() == key);
                    assert(counter_of(self@, key) == Some((start, count)));
                }
                let stale = if now >= start { now - start > self.limiter.window_size } else { false };
                let (allowed, new_start, new_count) = if stale {
                    (true, now, 1u32)
                } else if self.limiter.is_allowed(count) {
                    (true, start, count + 1)
                } else {
                    (false, start, count)
                };
                let slot = Slot {
                    client: client.clone(),
                    resource: resource.clone(),
                    window_start: new_start,
                    count: new_count,
                };
                self.slots.set(i, slot);
                proof {
                    let ghost old_slots = old(self).slots@;
                    self.counters@ = self.counters@.insert(key, (new_start, new_count));
                    assert forall|a: int, b: int|
                        0 <= a < b < self.slots@.len() implies #[trigger] self.slots@[a].key()
                            != #[trigger] self.slots@[b].key() by {
                        assert(old_slots[a].key() != old_slots[b].key());
                    }
                    assert forall|k: SubjectView| #[trigger] self.counters@.contains_key(k) implies exists|j: int|
                        0 <= j < self.slots@.len() && #[trigger] self.slots@[j].key() == k by {
                        if k == key {
                            assert(self.slots@[i as int].key() == k);
                        } else {
                            let j = choose|j: int| 0 <= j < old_slots.len() && #[trigger] old_slots[j].key() == k;
                            assert(self.slots@[j].key() == k);
                        }
                    }
                    assert forall|j: int| 0 <= j < self.slots@.len() implies
                        self.counters@.contains_key(#[trigger] self.slots@[j].key())
                        && self.counters@[self.slots@[j].key()] == self.slots@[j].counter() by {
                        if j != i {
                            assert(old_slots[j].key() != old_slots[i as int].key());
                        }
                    }
                }
                return allowed;
            }
            i = i + 1;
        }
        proof {
            assert(!self@.contains_key(key));
        }
        let slot = Slot { client: client.clone(), resource: resource.clone(), window_start: now, count: 1 };
        self.slots.push(slot);
        proof {
            let ghost old_slots = old(self).slots@;
            let n = old_slots.len() as int;
            self.counters@ = self.counters@.insert(key, (now, 1u32));
            assert forall|a: int, b: int|
                0 <= a < b < self.slots@.len() implies #[trigger] self.slots@[a].key()
                    != #[trigger] self.slots@[b].key() by {
                if b < n {
                    assert(old_slots[a].key() != old_slots[b].key());
                }
            }
            assert forall|k: SubjectView| #[trigger] self.counters@.contains_key(k) implies exists|j: int|
                0 <= j < self.slots@.len() && #[trigger] self.slots@[j].key() == k by {
                if k == key {
                    assert(self.slots@[n].key() == k);
                } else {
                    let j = choose|j: int| 0 <= j < old_slots.len() && #[trigger] old_slots[j].key() == k;
                    assert(self.slots@[j].key() == k);
                }
            }
            assert forall|j: int| 0 <= j < self.slots@.len() implies
                self.counters@.contains_key(#[trigger] self.slots@[j].key())
                && self.counters@[self.slots@[j].key()] == self.slots@[j].counter() by {
                if j < n {
                    assert(old_slots[j].key() != key);
                }
            }
        }
        true
    }

    /// Removes the counters whose window has run out at `now`. A removed counter and an
    /// absent one lead to the same decision on any later request.
    #[verifier::rlimit(50)]
    pub fn purge_stale(&mut self, now: u64)
        requires
            old(self).wf(),
        ensures
            final(self).wf(),
            final(self).limiter() == old(self).limiter(),
            forall|k: SubjectView| #[trigger] final(self)@.contains_key(k) <==> (old(self)@.contains_key(k)
                && !is_stale(old(self).limiter(), old(self)@[k], now)),
            forall|k: SubjectView| #[trigger] final(self)@.contains_key(k) ==> final(self)@[k] == old(self)@[k],
    {
        let ghost lim = self.limiter;
        let ghost old_slots = self.slots@;
        let ghost old_map = self.counters@;
        let mut kept: Vec<Slot> = Vec::new();
        let n = self.slots.len();
        let mut i: usize = 0;
        while i < n
            invariant
                self == old(self),
                old_slots == self.slots@,
                old_map == self.counters@,
                lim == self.limiter,
                self.wf(),
                n == old_slots.len(),
                i <= n,
                forall|x: int, y: int| 0 <= x < y < kept@.len() ==> #[trigger] kept@[x].key() != #[trigger] kept@[y].key(),
                forall|j: int| 0 <= j < kept@.len() ==> #[trigger] kept_from(kept@[j], old_slots, i as int, lim, now),
                forall|x: int| 0 <= x < i && !is_stale(lim, (#[trigger] old_slots[x]).counter(), now) ==> kept_has(
                    kept@,
                    old_slots[x].key(),
                ),
            decreases n - i,
        {
            let start = self.slots[i].window_start;
            let stale = if now >= start { now - start > self.limiter.window_size } else { false };
            let ghost before = kept@;
            if !stale {
                let slot = Slot {
                    client: self.slots[i].client.clone(),
                    resource: self.slots[i].resource.clone(),
                    window_start: start,
                    count: self.slots[i].count,
                };
                kept.push(slot);
                proof {
                    let last = before.len() as int;
                    assert(kept@[last].key() == old_slots[i as int].key());
                    assert(slot_matches(kept@[last], old_slots[i as int], lim, now));
                    assert forall|x: int, y: int| 0 <= x < y < kept@.len() implies #[trigger] kept@[x].key()
                        != #[trigger] kept@[y].key() by {
                        if y == last {
                            assert(kept_from(before[x], old_slots, i as int, lim, now));
                            let w = choose|w: int| 0 <= w < i && #[trigger] slot_matches(before[x], old_slots[w], lim, now);
                            assert(old_slots[w].key() != old_slots[i as int].key());
                        } else {
                            assert(before[x].key() != before[y].key());
                        }
                    }
                    assert forall|j: int| 0 <= j < kept@.len() implies #[trigger] kept_from(kept@[j], old_slots, i + 1, lim, now) by {
                        if j == last {
                            assert(slot_matches(kept@[j], old_slots[i as int], lim, now));
                        } else {
                            assert(kept@[j] == before[j]);
                            assert(kept_from(before[j], old_slots, i as int, lim, now));
                            let w = choose|w: int| 0 <= w < i && #[trigger] slot_matches(before[j], old_slots[w], lim, now);
                            assert(slot_matches(kept@[j], old_slots[w], lim, now));
                        }
                    }
                    assert forall|x: int| 0 <= x < i + 1 && !is_stale(lim, (#[trigger] old_slots[x]).counter(), now)
                        implies kept_has(kept@, old_slots[x].key()) by {
                        if x == i {
                            assert(kept@[last].key() == old_slots[x].key());
                        } else {
                            assert(kept_has(before, old_slots[x].key()));
                            let j = choose|j: int| 0 <= j < before.len() && #[trigger] before[j].key() == old_slots[x].key();
                            assert(kept@[j] == before[j]);
                        }
                    }
                }
            } else {
                proof {
                    assert forall|j: int| 0 <= j < kept@.len() implies #[trigger] kept_from(kept@[j], old_slots, i + 1, lim, now) by {
                        assert(kept_from(kept@[j], old_slots, i as int, lim, now));
                        let w = choose|w: int| 0 <= w < i && #[trigger] slot_matches(kept@[j], old_slots[w], lim, now);
                        assert(slot_matches(kept@[j], old_slots[w], lim, now));
                    }
                }
            }
            i = i + 1;
        }
        let ghost new_map = Map::new(
            |k: SubjectView| old_map.contains_key(k) && !is_stale(lim, old_map[k], now),
            |k: SubjectView| old_map[k],
        );
        self.slots = kept;
        self.counters = Ghost(new_map);
        proof {
            assert forall|j: int| 0 <= j < self.slots@.len() implies self.counters@.contains_key(
                #[trigger] self.slots@[j].key(),
            ) && self.counters@[self.slots@[j].key()] == self.slots@[j].counter() by {
                assert(kept_from(self.slots@[j], old_slots, n as int, lim, now));
                let a = choose|a: int| 0 <= a < n && #[trigger] slot_matches(self.slots@[j], old_slots[a], lim, now);
                assert(old_map[old_slots[a].key()] == old_slots[a].counter());
            }
            assert forall|k: SubjectView| #[trigger] self.counters@.contains_key(k) implies exists|j: int|
                0 <= j < self.slots@.len() && #[trigger] self.slots@[j].key() == k by {
                let a = choose|a: int| 0 <= a < old_slots.len() && #[trigger] old_slots[a].key() == k;
                assert(old_map[old_slots[a].key()] == old_slots[a].counter());
                assert(!is_stale(lim, old_slots[a].counter(), now));
                assert(kept_has(self.slots@, old_slots[a].key()));
            }
        }
    }
}

/// Dropping a counter that is stale at `now` changes no decision at `now` or later.
pub proof fn lemma_purged_counter_decides_alike(lim: RateLimiter, c: WindowCounter, now: u64, later: u64)
    requires
        is_stale(lim, c, now),
        now <= later,
    ensures
        quota_step(lim, Some(c), later) == quota_step(lim, None, later),
{
}

} // verus!
