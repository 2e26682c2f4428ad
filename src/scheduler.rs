use vstd::prelude::*;

verus! {

/// The greatest common divisor of `a` and `b`, by Euclid's algorithm; the
/// divisor of a number and zero is the number itself.
pub open spec fn gcd(a: nat, b: nat) -> nat
    decreases b,
{
    if b == 0 {
        a
    } else {
        gcd(b, a % b)
    }
}

/// The shared tick of a set of refresh intervals: the greatest common
/// divisor of those that are set. Zero when none is set, or all are zero.
pub open spec fn tick_of(intervals: Seq<Option<u64>>) -> nat
    decreases intervals.len(),
{
    if intervals.len() == 0 {
        0
    } else {
        let rest = tick_of(intervals.drop_last());
        match intervals.last() {
            Some(d) => gcd(rest, d as nat),
            None => rest,
        }
    }
}

/// Euclid's algorithm.
fn gcd_u64(a: u64, b: u64) -> (r: u64)
    ensures
        r == gcd(a as nat, b as nat),
{
    let mut x = a;
    let mut y = b;
    while y != 0
        invariant
            gcd(x as nat, y as nat) == gcd(a as nat, b as nat),
        decreases y,
    {
        let t = x % y;
        x = y;
        y = t;
    }
    x
}

/// The period, in milliseconds, of the one timer that drives every segment
/// with an interval: the greatest common divisor of the intervals. Segments
/// without an interval take no part. Zero means that no segment is refreshed
/// on a timer.
pub fn shared_tick(intervals: &Vec<Option<u64>>) -> (r: u64)
    ensures
        r == tick_of(intervals@),
{
    let mut tick: u64 = 0;
    let mut i: usize = 0;
    while i < intervals.len()
        invariant
            i <= intervals@.len(),
            tick == tick_of(intervals@.subrange(0, i as int)),
        decreases intervals@.len() - i,
    {
        assert(intervals@.subrange(0, i + 1).drop_last() == intervals@.subrange(0, i as int));
        match intervals[i] {
            Some(d) => {
                tick = gcd_u64(tick, d);
            },
            None => {},
        }
        i = i + 1;
    }
    assert(intervals@.subrange(0, i as int) == intervals@);
    tick
}

/// When one segment was last refreshed and whether a refresh is running.
#[derive(Debug, Clone, Copy, PartialEq, Eq, Structural)]
pub struct SegmentTimer {
    /// The refresh interval in milliseconds; `None` for a segment that only
    /// signals refresh.
    pub interval: Option<u64>,
    /// When the last refresh started, in milliseconds.
    pub last_update: u64,
    /// A refresh is running.
    pub in_flight: bool,
    /// A signal arrived while a refresh was running: refresh again when it ends.
    pub rerun: bool,
}

/// The segment's interval has passed since its last refresh started.
pub open spec fn is_stale(timer: SegmentTimer, now: u64) -> bool {
    match timer.interval {
        Some(d) => now >= timer.last_update && now - timer.last_update >= d,
        None => false,
    }
}

/// The segment is refreshed on a tick at `now`: it is stale and no refresh
/// of it is running.
pub open spec fn due_on_tick(timer: SegmentTimer, now: u64) -> bool {
    is_stale(timer, now) && !timer.in_flight
}

/// The timer of a segment whose refresh starts at `now`.
pub open spec fn started(timer: SegmentTimer, now: u64) -> SegmentTimer {
    SegmentTimer { last_update: now, in_flight: true, ..timer }
}

/// The ids of the segments that a tick at `now` refreshes, in order.
pub open spec fn due_ids(timers: Seq<SegmentTimer>, now: u64) -> Seq<usize>
    decreases timers.len(),
{
    if timers.len() == 0 {
        Seq::empty()
    } else {
        let rest = due_ids(timers.drop_last(), now);
        if due_on_tick(timers.last(), now) {
            rest.push((timers.len() - 1) as usize)
        } else {
            rest
        }
    }
}

/// What the end of a refresh asks of the caller.
#[derive(Debug, Clone, Copy, PartialEq, Eq, Structural)]
pub struct Completion {
    /// Start another refresh of the segment now: a signal arrived meanwhile.
    pub restart: bool,
    /// The refresh took longer than the segment's interval.
    pub overran: bool,
}

/// Decides when each segment is refreshed, on one shared tick and on
/// signals, never running two refreshes of one segment at once.
pub struct Scheduler {
    timers: Vec<SegmentTimer>,
    tick: u64,
}

impl Scheduler {
    /// The timers of the segments, in order.
    pub closed spec fn spec_timers(&self) -> Seq<SegmentTimer> {
        self.timers@
    }

    /// The period of the shared tick in milliseconds; zero for none.
    pub closed spec fn spec_tick(&self) -> u64 {
        self.tick
    }

    /// A scheduler for segments with these intervals, all of them computed
    /// once at `now`.
    pub fn new(intervals: &Vec<Option<u64>>, now: u64) -> (r: Scheduler)
        ensures
            r.spec_tick() == tick_of(intervals@),
            r.spec_timers().len() == intervals@.len(),
            forall|i: int|
                0 <= i < intervals@.len() ==> #[trigger] r.spec_timers()[i] == (SegmentTimer {
                    interval: intervals@[i],
                    last_update: now,
                    in_flight: false,
                    rerun: false,
                }),
    {
        let mut timers: Vec<SegmentTimer> = Vec::new();
        let mut i: usize = 0;
        while i < intervals.len()
            invariant
                i <= intervals@.len(),
                timers@.len() == i,
                forall|j: int|
                    0 <= j < i ==> #[trigger] timers@[j] == (SegmentTimer {
                        interval: intervals@[j],
                        last_update: now,
                        in_flight: false,
                        rerun: false,
                    }),
            decreases intervals@.len() - i,
        {
            timers.push(
                SegmentTimer {
                    interval: intervals[i],
                    last_update: now,
                    in_flight: false,
                    rerun: false,
                },
            );
            i = i + 1;
        }
        Scheduler { timers, tick: shared_tick(intervals) }
    }

    /// The period of the shared tick in milliseconds; zero when no segment
    /// is refreshed on a timer.
    pub fn tick(&self) -> (r: u64)
        ensures
            r == self.spec_tick(),
    {
        self.tick
    }

    /// A tick at `now`: starts a refresh of every segment whose interval has
    /// passed since its last refresh and that is not being refreshed, and
    /// returns their ids in order. Other segments are left alone.
    pub fn on_tick(&mut self, now: u64) -> (r: Vec<usize>)
        ensures
            r@ == due_ids(old(self).spec_timers(), now),
            final(self).spec_tick() == old(self).spec_tick(),
            final(self).spec_timers().len() == old(self).spec_timers().len(),
            forall|i: int|
                0 <= i < old(self).spec_timers().len() ==> #[trigger] final(self).spec_timers()[i]
                    == if due_on_tick(old(self).spec_timers()[i], now) {
                    started(old(self).spec_timers()[i], now)
                } else {
                    old(self).spec_timers()[i]
                },
    {
        let ghost timers = self.timers@;
        let mut due: Vec<usize> = Vec::new();
        let mut i: usize = 0;
        while i < self.timers.len()
            invariant
                i <= self.timers@.len(),
                self.timers@.len() == timers.len(),
                self.tick == old(self).tick,
                timers == old(self).timers@,
                due@ == due_ids(timers.subrange(0, i as int), now),
                forall|j: int|
                    0 <= j < timers.len() ==> #[trigger] self.timers@[j] == if j < i && due_on_tick(
                        timers[j],
                        now,
                    ) {
                        started(timers[j], now)
                    } else {
                        timers[j]
                    },
            decreases timers.len() - i,
        {
            assert(timers.subrange(0, i + 1).drop_last() == timers.subrange(0, i as int));
            let timer = self.timers[i];
            assert(timer == timers[i as int]);
            if is_due(&timer, now) {
                self.timers.set(i, SegmentTimer { last_update: now, in_flight: true, ..timer });
                due.push(i);
            }
            i = i + 1;
        }
        assert(timers.subrange(0, i as int) == timers);
        due
    }

    /// A signal at `now` that asks to refresh the segments `ids`: starts a
    /// refresh of each that is not being refreshed and returns those ids in
    /// order; each that is being refreshed is refreshed again once that
    /// refresh ends.
    pub fn on_signal(&mut self, ids: &Vec<usize>, now: u64) -> (r: Vec<usize>)
        requires
            ids@.no_duplicates(),
            forall|k: int| 0 <= k < ids@.len() ==> #[trigger] ids@[k] < old(self).spec_timers().len(),
        ensures
            r@ == ids@.filter(|id: usize| !old(self).spec_timers()[id as int].in_flight),
            final(self).spec_tick() == old(self).spec_tick(),
            final(self).spec_timers().len() == old(self).spec_timers().len(),
            forall|i: int|
                0 <= i < old(self).spec_timers().len() ==> #[trigger] final(self).spec_timers()[i]
                    == if !ids@.contains(i as usize) {
                    old(self).spec_timers()[i]
                } else if old(self).spec_timers()[i].in_flight {
                    SegmentTimer { rerun: true, ..old(self).spec_timers()[i] }
                } else {
                    started(old(self).spec_timers()[i], now)
                },
    {
        let ghost timers = self.timers@;
        let ghost pick = |id: usize| !timers[id as int].in_flight;
        let mut starts: Vec<usize> = Vec::new();
        let mut k: usize = 0;
        while k < ids.len()
            invariant
                k <= ids@.len(),
                ids@.no_duplicates(),
                forall|m: int| 0 <= m < ids@.len() ==> #[trigger] ids@[m] < timers.len(),
                self.timers@.len() == timers.len(),
                self.tick == old(self).tick,
                timers == old(self).timers@,
                pick == (|id: usize| !timers[id as int].in_flight),
                starts@ == ids@.subrange(0, k as int).filter(pick),
                forall|i: int|
                    0 <= i < timers.len() ==> #[trigger] self.timers@[i] == if !ids@.subrange(
                        0,
                        k as int,
                    ).contains(i as usize) {
                        timers[i]
                    } else if timers[i].in_flight {
                        SegmentTimer { rerun: true, ..timers[i] }
                    } else {
                        started(timers[i], now)
                    },
            decreases ids@.len() - k,
        {
            let id = ids[k];
            let timer = self.timers[id];
            let ghost seen = ids@.subrange(0, k as int);
            assert(ids@.subrange(0, k + 1) == seen.push(id));
            assert(seen.push(id).drop_last() == seen);
            assert(!seen.contains(id)) by {
                if seen.contains(id) {
                    let m = choose|m: int| 0 <= m < seen.len() && #[trigger] seen[m] == id;
                    assert(ids@[m] == ids@[k as int]);
                }
            }
            let ghost before = self.timers@;
            assert(before[id as int] == timers[id as int]);
            assert(timer == timers[id as int]);
            if timer.in_flight {
                self.timers.set(id, SegmentTimer { rerun: true, ..timer });
            } else {
                self.timers.set(id, SegmentTimer { last_update: now, in_flight: true, ..timer });
                starts.push(id);
            }
            proof {
                seen.lemma_filter_push(id, pick);
                assert forall|i: int| 0 <= i < timers.len() implies #[trigger] self.timers@[i] == if !ids@.subrange(
                    0,
                    k + 1,
                ).contains(i as usize) {
                    timers[i]
                } else if timers[i].in_flight {
                    SegmentTimer { rerun: true, ..timers[i] }
                } else {
                    started(timers[i], now)
                } by {
                    assert(before[i] == if !seen.contains(i as usize) {
                        timers[i]
                    } else if timers[i].in_flight {
                        SegmentTimer { rerun: true, ..timers[i] }
                    } else {
                        started(timers[i], now)
                    });
                    if seen.push(id).contains(i as usize) {
                        let m = choose|m: int|
                            0 <= m < seen.len() + 1 && #[trigger] seen.push(id)[m] == i as usize;
                        if m < seen.len() {
                            assert(seen[m] == i as usize);
                        }
                    }
                    if seen.contains(i as usize) {
                        let m = choose|m: int| 0 <= m < seen.len() && #[trigger] seen[m] == i as usize;
                        assert(seen.push(id)[m] == i as usize);
                    }
                    assert(i < self.timers.len());
                    if i as usize == id {
                        assert(seen.push(id)[seen.len() as int] == id);
                    } else {
                        assert(self.timers@[i] == before[i]);
                        assert(ids@.subrange(0, k + 1).contains(i as usize) == seen.contains(i as usize));
                    }
                }
            }
            k = k + 1;
        }
        assert(ids@.subrange(0, k as int) == ids@);
        starts
    }

    /// The refresh of segment `id` that was running ended at `now`. Starts
    /// another one at once when a signal asked for it meanwhile, and reports
    /// whether the refresh took longer than the segment's interval.
    pub fn on_done(&mut self, id: usize, now: u64) -> (r: Completion)
        requires
            id < old(self).spec_timers().len(),
        ensures
            ({
                let t = old(self).spec_timers()[id as int];
                &&& r.restart == t.rerun
                &&& r.overran == (t.interval matches Some(d) && now >= t.last_update && now
                    - t.last_update > d)
                &&& final(self).spec_timers() == old(self).spec_timers().update(
                    id as int,
                    if t.rerun {
                        SegmentTimer { rerun: false, ..started(t, now) }
                    } else {
                        SegmentTimer { in_flight: false, ..t }
                    },
                )
            }),
            final(self).spec_tick() == old(self).spec_tick(),
    {
        let timer = self.timers[id];
        let overran = match timer.interval {
            Some(d) => now >= timer.last_update && now - timer.last_update > d,
            None => false,
        };
        if timer.rerun {
            self.timers.set(id, SegmentTimer { last_update: now, in_flight: true, rerun: false, ..timer });
        } else {
            self.timers.set(id, SegmentTimer { in_flight: false, ..timer });
        }
        Completion { restart: timer.rerun, overran }
    }
}

/// A tick refreshes a segment exactly when its interval has passed since its
/// last refresh and it is not being refreshed: never a segment without an
/// interval, never one refreshed less than an interval ago. Ids come in
/// segment order, each once.
pub proof fn lemma_tick_refreshes_only_stale(timers: Seq<SegmentTimer>, now: u64)
    requires
        timers.len() <= usize::MAX,
    ensures
        forall|id: usize|
            #[trigger] due_ids(timers, now).contains(id) <==> (id < timers.len() && due_on_tick(
                timers[id as int],
                now,
            )),
        forall|a: int, b: int|
            0 <= a < b < due_ids(timers, now).len() ==> #[trigger] due_ids(timers, now)[a]
                < #[trigger] due_ids(timers, now)[b],
    decreases timers.len(),
{
    if timers.len() > 0 {
        let rest = due_ids(timers.drop_last(), now);
        lemma_tick_refreshes_only_stale(timers.drop_last(), now);
        let last = (timers.len() - 1) as usize;
        assert(timers.last() == timers[last as int]);
        assert forall|id: usize|
            #[trigger] due_ids(timers, now).contains(id) <==> (id < timers.len() && due_on_tick(
                timers[id as int],
                now,
            )) by {
            if due_ids(timers, now).contains(id) {
                let all = due_ids(timers, now);
                let m = choose|m: int| 0 <= m < all.len() && #[trigger] all[m] == id;
                if m < rest.len() {
                    assert(rest[m] == id);
                    assert(rest.contains(id));
                    assert(timers.drop_last()[id as int] == timers[id as int]);
                }
            }
            if id < timers.len() && due_on_tick(timers[id as int], now) {
                if id == last {
                    assert(rest.push(last)[rest.len() as int] == id);
                } else {
                    assert(timers.drop_last()[id as int] == timers[id as int]);
                    assert(rest.contains(id));
                    let m = choose|m: int| 0 <= m < rest.len() && #[trigger] rest[m] == id;
                    if due_on_tick(timers.last(), now) {
                        assert(rest.push(last)[m] == id);
                    }
                }
            }
        }
        if due_on_tick(timers.last(), now) {
            assert forall|a: int| 0 <= a < rest.len() implies #[trigger] rest[a] < last by {
                assert(rest.contains(rest[a]));
            }
        }
    }
}

/// Whether a tick at `now` refreshes the segment of `timer`.
pub fn is_due(timer: &SegmentTimer, now: u64) -> (r: bool)
    ensures
        r == due_on_tick(*timer, now),
{
    if timer.in_flight {
        return false;
    }
    match timer.interval {
        Some(d) => now >= timer.last_update && now - timer.last_update >= d,
        None => false,
    }
}

} // verus!
