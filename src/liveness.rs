//! Last-seen times of connections, and eviction of the silent ones.
use vstd::prelude::*;

verus! {

/// How long a connection may stay silent, in milliseconds.
pub const TIMEOUT_MS: u64 = 20000;

/// A connection last seen at `last` has been silent too long at `now`.
pub open spec fn expired(last: u64, now: u64) -> bool {
    now as int - last as int > TIMEOUT_MS as int
}

/// The entry `e` is of a connection that has been silent too long at `now`.
pub open spec fn stale(e: Option<u64>, now: u64) -> bool {
    match e {
        Some(t) => expired(t, now),
        None => false,
    }
}

/// The table after a keepalive from `id` at `now`: a live entry is renewed.
pub open spec fn touched(s: Seq<Option<u64>>, id: int, now: u64) -> Seq<Option<u64>> {
    if 0 <= id < s.len() && s[id] is Some {
        s.update(id, Some(now))
    } else {
        s
    }
}

/// The table after a sweep at `now`: every expired entry is gone.
pub open spec fn swept(s: Seq<Option<u64>>, now: u64) -> Seq<Option<u64>> {
    Seq::new(
        s.len(),
        |i: int|
            match s[i] {
                Some(t) => if expired(t, now) {
                    None
                } else {
                    Some(t)
                },
                None => None,
            },
    )
}

/// A connection that has been silent for longer than the timeout is
/// evicted by the next sweep.
pub proof fn lemma_silent_evicted(s: Seq<Option<u64>>, id: int, now: u64)
    requires
        0 <= id < s.len(),
        stale(s[id], now),
    ensures
        swept(s, now)[id] is None,
{
}

/// A connection that sent a keepalive at `t`, swept at a `now` no more than
/// the timeout later, stays in the table with its keepalive time.
pub proof fn lemma_keepalive_survives(s: Seq<Option<u64>>, id: int, t: u64, now: u64)
    requires
        0 <= id < s.len(),
        s[id] is Some,
        now as int - t as int <= TIMEOUT_MS as int,
    ensures
        swept(touched(s, id, t), now)[id] == Some(t),
{
}

/// The table after a run of events that concern connection `id`: each is a
/// keepalive from it (`true`) or a sweep (`false`), at the time it carries.
pub open spec fn run_events(s: Seq<Option<u64>>, id: int, events: Seq<(bool, u64)>) -> Seq<
    Option<u64>,
>
    decreases events.len(),
{
    if events.len() == 0 {
        s
    } else {
        let next = if events[0].0 {
            touched(s, id, events[0].1)
        } else {
            swept(s, events[0].1)
        };
        run_events(next, id, events.drop_first())
    }
}

/// Every sweep in `events` comes no more than the timeout after the last
/// keepalive before it (or after `last`, where there is none).
pub open spec fn never_silent(last: u64, events: Seq<(bool, u64)>) -> bool
    decreases events.len(),
{
    if events.len() == 0 {
        true
    } else if events[0].0 {
        never_silent(events[0].1, events.drop_first())
    } else {
        events[0].1 as int - last as int <= TIMEOUT_MS as int && never_silent(
            last,
            events.drop_first(),
        )
    }
}

/// A connection last seen at `last` that keeps sending keepalives, so that
/// no sweep finds it silent for longer than the timeout, is never evicted.
pub proof fn lemma_keepalives_keep_alive(
    s: Seq<Option<u64>>,
    id: int,
    last: u64,
    events: Seq<(bool, u64)>,
)
    requires
        0 <= id < s.len(),
        s[id] == Some(last),
        never_silent(last, events),
    ensures
        run_events(s, id, events).len() == s.len(),
        run_events(s, id, events)[id] is Some,
    decreases events.len(),
{
    if events.len() > 0 {
        let t = events[0].1;
        if events[0].0 {
            lemma_keepalives_keep_alive(touched(s, id, t), id, t, events.drop_first());
        } else {
            lemma_keepalives_keep_alive(swept(s, t), id, last, events.drop_first());
        }
    }
}

/// Last-seen times by connection id (the index); `None` once the
/// connection has left.
#[derive(Debug)]
pub struct LivenessTable {
    pub last_seen: Vec<Option<u64>>,
}

impl LivenessTable {
    pub fn new() -> (r: LivenessTable)
        ensures
            r.last_seen@.len() == 0,
    {
        LivenessTable { last_seen: Vec::new() }
    }

    /// Gives a new connection, seen at `now`, the next id; `None` when ids
    /// run out.
    pub fn register(&mut self, now: u64) -> (r: Option<i32>)
        ensures
            old(self).last_seen.len() < i32::MAX ==> r == Some(old(self).last_seen.len() as i32)
                && final(self).last_seen@ == old(self).last_seen@.push(Some(now)),
            old(self).last_seen.len() >= i32::MAX ==> r is None && final(self).last_seen@ == old(
                self,
            ).last_seen@,
    {
        if self.last_seen.len() >= i32::MAX as usize {
            return None;
        }
        let id = self.last_seen.len() as i32;
        self.last_seen.push(Some(now));
        Some(id)
    }

    /// A keepalive from `id` at `now`.
    pub fn touch(&mut self, id: i32, now: u64)
        ensures
            final(self).last_seen@ == touched(old(self).last_seen@, id as int, now),
    {
        if id >= 0 && (id as usize) < self.last_seen.len() && self.last_seen[id as usize].is_some() {
            self.last_seen.set(id as usize, Some(now));
        }
    }

    /// Whether `id` is still in the table.
    pub fn contains(&self, id: i32) -> (r: bool)
        ensures
            r == (0 <= id < self.last_seen@.len() && self.last_seen@[id as int] is Some),
    {
        id >= 0 && (id as usize) < self.last_seen.len() && self.last_seen[id as usize].is_some()
    }

    /// Takes `id` out of the table.
    pub fn remove(&mut self, id: i32)
        ensures
            0 <= id < old(self).last_seen@.len() ==> final(self).last_seen@ == old(
                self,
            ).last_seen@.update(id as int, None),
            !(0 <= id < old(self).last_seen@.len()) ==> final(self).last_seen@ == old(
                self,
            ).last_seen@,
    {
        if id >= 0 && (id as usize) < self.last_seen.len() {
            self.last_seen.set(id as usize, None);
        }
    }

    /// Takes every connection that has been silent too long at `now` out of
    /// the table and returns their ids, in increasing order.
    pub fn sweep(&mut self, now: u64) -> (r: Vec<i32>)
        requires
            old(self).last_seen.len() <= i32::MAX,
        ensures
            final(self).last_seen@ == swept(old(self).last_seen@, now),
            forall|k: int|
                0 <= k < r.len() ==> 0 <= #[trigger] r@[k] < old(self).last_seen.len() && stale(
                    old(self).last_seen@[r@[k] as int],
                    now,
                ),
            forall|i: int|
                0 <= i < old(self).last_seen.len() && stale(old(self).last_seen@[i], now) ==> r@.contains(i as i32),
            forall|k: int, l: int| 0 <= k < l < r.len() ==> r@[k] < r@[l],
    {
        let ghost start = self.last_seen@;
        let mut evicted: Vec<i32> = Vec::new();
        let mut i: usize = 0;
        while i < self.last_seen.len()
            invariant
                self.last_seen.len() == start.len(),
                start.len() <= i32::MAX,
                i <= start.len(),
                forall|j: int|
                    0 <= j < start.len() ==> #[trigger] self.last_seen@[j] == if j < i {
                        swept(start, now)[j]
                    } else {
                        start[j]
                    },
                forall|k: int|
                    0 <= k < evicted.len() ==> 0 <= #[trigger] evicted@[k] < i && stale(
                        start[evicted@[k] as int],
                        now,
                    ),
                forall|j: int|
                    0 <= j < i && stale(start[j], now)
                        ==> evicted@.contains(j as i32),
                forall|k: int, l: int| 0 <= k < l < evicted.len() ==> evicted@[k] < evicted@[l],
            decreases start.len() - i,
        {
            if let Some(t) = self.last_seen[i] {
                if now >= t && now - t > TIMEOUT_MS {
                    self.last_seen.set(i, None);
                    let ghost before = evicted@;
                    evicted.push(i as i32);
                    assert(evicted@[evicted.len() - 1] == i as i32);
                    assert forall|j: int|
                        0 <= j < i + 1 && stale(start[j], now)
                            implies evicted@.contains(j as i32) by {
                        if j < i {
                            assert(before.contains(j as i32));
                            let k = choose|k: int| 0 <= k < before.len() && before[k] == j as i32;
                            assert(evicted@[k] == j as i32);
                        } else {
                            assert(evicted@[evicted.len() - 1] == j as i32);
                        }
                    }
                }
            }
            i = i + 1;
        }
        assert(self.last_seen@ =~= swept(start, now));
        evicted
    }
}

} // verus!
