use vstd::prelude::*;

use crate::segments::Segment;

verus! {

/// Relies on `libc::SIGRTMIN`: the lowest real-time signal number of this
/// process, as the C library reports it.
#[verifier::external_body]
pub(crate) fn sigrtmin() -> (r: i32) {
    libc::SIGRTMIN()
}

/// Relies on `libc::SIGRTMAX`: the highest real-time signal number of this
/// process, as the C library reports it.
#[verifier::external_body]
pub(crate) fn sigrtmax() -> (r: i32) {
    libc::SIGRTMAX()
}

/// Every offset, added to `rtmin`, gives a signal number no greater than `rtmax`.
pub open spec fn offsets_in_range(offsets: Seq<u32>, rtmin: i32, rtmax: i32) -> bool {
    forall|i: int| 0 <= i < offsets.len() ==> rtmin + #[trigger] offsets[i] <= rtmax
}

/// `signals` are the signal numbers that `offsets` name, counted from
/// `rtmin`, in the same order.
pub open spec fn resolved_signals(signals: Seq<i32>, offsets: Seq<u32>, rtmin: i32) -> bool {
    &&& signals.len() == offsets.len()
    &&& forall|i: int| 0 <= i < offsets.len() ==> #[trigger] signals[i] == rtmin + offsets[i]
}

/// Turns offsets from the first real-time signal `rtmin` into signal
/// numbers, refusing the whole list when one of them lies above `rtmax`.
pub fn convert_signal_offsets(signal_offsets: &Vec<u32>, rtmin: i32, rtmax: i32) -> (r: Result<
    Vec<i32>,
    String,
>)
    ensures
        r is Ok <==> offsets_in_range(signal_offsets@, rtmin, rtmax),
        r matches Err(e) ==> e@ == "A used signal is greater than SIGRTMAX."@,
        r matches Ok(v) ==> resolved_signals(v@, signal_offsets@, rtmin),
{
    let mut signals: Vec<i32> = Vec::new();
    let mut i: usize = 0;
    while i < signal_offsets.len()
        invariant
            i <= signal_offsets@.len(),
            signals@.len() == i,
            offsets_in_range(signal_offsets@.subrange(0, i as int), rtmin, rtmax),
            forall|j: int| 0 <= j < i ==> #[trigger] signals@[j] == rtmin + signal_offsets@[j],
        decreases signal_offsets@.len() - i,
    {
        let signal = rtmin as i64 + signal_offsets[i] as i64;
        if signal > rtmax as i64 {
            assert(!offsets_in_range(signal_offsets@, rtmin, rtmax)) by {
                assert(rtmin + signal_offsets@[i as int] > rtmax);
            }
            return Err(String::from_str("A used signal is greater than SIGRTMAX."));
        }
        signals.push(signal as i32);
        assert(offsets_in_range(signal_offsets@.subrange(0, i + 1), rtmin, rtmax)) by {
            assert forall|j: int| 0 <= j < i + 1 implies rtmin
                + #[trigger] signal_offsets@.subrange(0, i + 1)[j] <= rtmax by {
                if j < i {
                    assert(signal_offsets@.subrange(0, i + 1)[j] == signal_offsets@.subrange(
                        0,
                        i as int,
                    )[j]);
                }
            }
        }
        i = i + 1;
    }
    assert(signal_offsets@.subrange(0, i as int) == signal_offsets@);
    Ok(signals)
}

/// The signal lists of the segments, in order.
pub open spec fn signal_lists<K>(segments: Seq<Segment<K>>) -> Seq<Seq<i32>> {
    segments.map_values(|s: Segment<K>| s.signals@)
}

/// The ids of the segments whose signal list holds `signal`, in increasing
/// order; `lists` holds one signal list per segment.
pub open spec fn subscribers(lists: Seq<Seq<i32>>, signal: i32) -> Seq<usize>
    decreases lists.len(),
{
    if lists.len() == 0 {
        Seq::empty()
    } else {
        let rest = subscribers(lists.drop_last(), signal);
        if lists.last().contains(signal) {
            rest.push((lists.len() - 1) as usize)
        } else {
            rest
        }
    }
}

/// Every signal that some segment subscribes to.
pub open spec fn used_signals(lists: Seq<Seq<i32>>) -> Set<i32> {
    Set::new(|signal: i32| exists|i: int| 0 <= i < lists.len() && #[trigger] lists[i].contains(signal))
}

/// Which segments each signal refreshes.
pub struct SignalRouter {
    signals: Vec<i32>,
    targets: Vec<Vec<usize>>,
}

impl SignalRouter {
    /// The signals routed, each once.
    pub closed spec fn spec_signals(&self) -> Seq<i32> {
        self.signals@
    }

    /// Each routed signal appears once and has its list of segments.
    pub closed spec fn wf(&self) -> bool {
        &&& self.signals@.len() == self.targets@.len()
        &&& self.signals@.no_duplicates()
    }

    /// The segments that `signal` refreshes, in order.
    pub closed spec fn spec_route(&self, signal: i32) -> Seq<usize> {
        if exists|k: int| 0 <= k < self.signals@.len() && self.signals@[k] == signal {
            let k = choose|k: int| 0 <= k < self.signals@.len() && self.signals@[k] == signal;
            self.targets@[k]@
        } else {
            Seq::empty()
        }
    }

    /// The routing table of `segments`.
    pub fn new<K>(segments: &Vec<Segment<K>>) -> (r: SignalRouter)
        ensures
            r.wf(),
            r.spec_signals().no_duplicates(),
            r.spec_signals().to_set() == used_signals(signal_lists(segments@)),
            forall|signal: i32| #[trigger]
                r.spec_route(signal) == subscribers(signal_lists(segments@), signal),
    {
        let ghost lists = signal_lists(segments@);
        let mut signals: Vec<i32> = Vec::new();
        let mut i: usize = 0;
        while i < segments.len()
            invariant
                i <= segments@.len(),
                lists == signal_lists(segments@),
                signals@.no_duplicates(),
                forall|signal: i32|
                    signals@.contains(signal) <==> exists|k: int|
                        0 <= k < i && #[trigger] lists[k].contains(signal),
            decreases segments@.len() - i,
        {
            let own = &segments[i].signals;
            assert(own@ == lists[i as int]);
            let mut j: usize = 0;
            while j < own.len()
                invariant
                    i < segments@.len(),
                    j <= own@.len(),
                    own@ == lists[i as int],
                    lists == signal_lists(segments@),
                    signals@.no_duplicates(),
                    forall|signal: i32|
                        signals@.contains(signal) <==> (exists|k: int|
                            0 <= k < i && #[trigger] lists[k].contains(signal))
                            || own@.subrange(0, j as int).contains(signal),
                decreases own@.len() - j,
            {
                let signal = own[j];
                let ghost before = signals@;
                assert(forall|x: i32| before.contains(x) <==> (exists|k: int|
                            0 <= k < i && #[trigger] lists[k].contains(x))
                            || own@.subrange(0, j as int).contains(x));
                if !holds(&signals, signal) {
                    signals.push(signal);
                    proof {
                        assert forall|x: i32| signals@.contains(x) <==> before.contains(x) || x == signal by {
                            if signals@.contains(x) {
                                let m = choose|m: int| 0 <= m < signals@.len() && #[trigger] signals@[m] == x;
                                if m < before.len() {
                                    assert(before[m] == x);
                                }
                            }
                            if before.contains(x) {
                                let m = choose|m: int| 0 <= m < before.len() && #[trigger] before[m] == x;
                                assert(signals@[m] == x);
                            }
                            if x == signal {
                                assert(signals@[before.len() as int] == x);
                            }
                        }
                    }
                }
                proof {
                    let seen = own@.subrange(0, j as int);
                    assert(own@.subrange(0, j + 1) == seen.push(signal));
                    assert forall|x: i32|
                        #[trigger] seen.push(signal).contains(x) <==> seen.contains(x) || x
                            == signal by {
                        if seen.push(signal).contains(x) {
                            let m = choose|m: int|
                                0 <= m < seen.len() + 1 && #[trigger] seen.push(signal)[m] == x;
                            if m < seen.len() {
                                assert(seen[m] == x);
                            }
                        }
                        if seen.contains(x) {
                            let m = choose|m: int| 0 <= m < seen.len() && #[trigger] seen[m] == x;
                            assert(seen.push(signal)[m] == x);
                        }
                        if x == signal {
                            assert(seen.push(signal)[seen.len() as int] == x);
                        }
                    }
                    assert forall|x: i32|
                        signals@.contains(x) <==> (exists|k: int|
                            0 <= k < i && #[trigger] lists[k].contains(x))
                            || own@.subrange(0, j + 1).contains(x) by {
                        assert(before.contains(x) <==> (exists|k: int|
                            0 <= k < i && #[trigger] lists[k].contains(x))
                            || seen.contains(x));
                        assert(seen.push(signal).contains(x) <==> seen.contains(x) || x == signal);
                    }
                }
                j = j + 1;
            }
            proof {
                assert(own@.subrange(0, j as int) == own@);
                assert forall|signal: i32|
                    signals@.contains(signal) <==> exists|k: int|
                        0 <= k < i + 1 && #[trigger] lists[k].contains(signal) by {
                    if lists[i as int].contains(signal) {
                        assert(0 <= i < i + 1);
                    }
                }
            }
            i = i + 1;
        }
        proof {
            assert forall|signal: i32|
                signals@.to_set().contains(signal) <==> used_signals(lists).contains(signal) by {
                assert(signals@.to_set().contains(signal) == signals@.contains(signal));
            }
            assert(signals@.to_set() == used_signals(lists));
        }
        let mut targets: Vec<Vec<usize>> = Vec::new();
        let mut k: usize = 0;
        while k < signals.len()
            invariant
                k <= signals@.len(),
                lists == signal_lists(segments@),
                targets@.len() == k,
                forall|m: int| 0 <= m < k ==> #[trigger] targets@[m]@ == subscribers(lists, signals@[m]),
            decreases signals@.len() - k,
        {
            let ids = subscribers_of(segments, signals[k]);
            targets.push(ids);
            k = k + 1;
        }
        let r = SignalRouter { signals, targets };
        assert forall|signal: i32| #[trigger] r.spec_route(signal) == subscribers(lists, signal) by {
            if exists|k: int| 0 <= k < r.signals@.len() && r.signals@[k] == signal {
            } else {
                if subscribers(lists, signal).len() > 0 {
                    lemma_subscriber_uses(lists, signal, subscribers(lists, signal)[0]);
                    let id = subscribers(lists, signal)[0] as int;
                    assert(used_signals(lists).contains(signal));
                    assert(r.signals@.to_set().contains(signal));
                }
            }
        }
        r
    }

    /// The segments that `signal` refreshes, in order: one request for each.
    pub fn route(&self, signal: i32) -> (r: Vec<usize>)
        requires
            self.wf(),
        ensures
            r@ == self.spec_route(signal),
    {
        let mut k: usize = 0;
        while k < self.signals.len()
            invariant
                self.wf(),
                k <= self.signals@.len(),
                forall|m: int| 0 <= m < k ==> self.signals@[m] != signal,
            decreases self.signals@.len() - k,
        {
            if self.signals[k] == signal {
                assert(self.signals@.no_duplicates());
                return copy_ids(&self.targets[k]);
            }
            k = k + 1;
        }
        Vec::new()
    }

    /// The signals that some segment subscribes to, each once: the ones to
    /// listen for.
    pub fn used_signals(&self) -> (r: &Vec<i32>)
        ensures
            r@ == self.spec_signals(),
    {
        &self.signals
    }
}

/// Whether `v` holds `x`.
fn holds(v: &Vec<i32>, x: i32) -> (r: bool)
    ensures
        r == v@.contains(x),
{
    let mut i: usize = 0;
    while i < v.len()
        invariant
            i <= v@.len(),
            forall|m: int| 0 <= m < i ==> v@[m] != x,
        decreases v@.len() - i,
    {
        if v[i] == x {
            return true;
        }
        i = i + 1;
    }
    false
}

/// A copy of `ids`.
fn copy_ids(ids: &Vec<usize>) -> (r: Vec<usize>)
    ensures
        r@ == ids@,
{
    let mut r: Vec<usize> = Vec::new();
    let mut i: usize = 0;
    while i < ids.len()
        invariant
            i <= ids@.len(),
            r@ == ids@.subrange(0, i as int),
        decreases ids@.len() - i,
    {
        r.push(ids[i]);
        i = i + 1;
    }
    r
}

/// The ids of the segments that subscribe to `signal`.
fn subscribers_of<K>(segments: &Vec<Segment<K>>, signal: i32) -> (r: Vec<usize>)
    ensures
        r@ == subscribers(signal_lists(segments@), signal),
{
    let ghost lists = signal_lists(segments@);
    let mut r: Vec<usize> = Vec::new();
    let mut i: usize = 0;
    while i < segments.len()
        invariant
            i <= segments@.len(),
            lists == signal_lists(segments@),
            r@ == subscribers(lists.subrange(0, i as int), signal),
        decreases segments@.len() - i,
    {
        assert(lists.subrange(0, i + 1).drop_last() == lists.subrange(0, i as int));
        if holds(&segments[i].signals, signal) {
            r.push(i);
        }
        i = i + 1;
    }
    assert(lists.subrange(0, i as int) == lists);
    r
}

/// Signal fan-out: one arrival of `signal` asks for exactly one refresh of
/// each segment that subscribes to it, in segment order, and none of any
/// other segment.
pub proof fn lemma_fan_out(lists: Seq<Seq<i32>>, signal: i32)
    requires
        lists.len() <= usize::MAX,
    ensures
        forall|id: usize|
            #[trigger] subscribers(lists, signal).contains(id) <==> (id < lists.len()
                && lists[id as int].contains(signal)),
        forall|a: int, b: int|
            0 <= a < b < subscribers(lists, signal).len() ==> #[trigger] subscribers(lists, signal)[a]
                < #[trigger] subscribers(lists, signal)[b],
    decreases lists.len(),
{
    if lists.len() > 0 {
        let rest = subscribers(lists.drop_last(), signal);
        lemma_fan_out(lists.drop_last(), signal);
        let last = (lists.len() - 1) as usize;
        assert forall|id: usize|
            #[trigger] subscribers(lists, signal).contains(id) <==> (id < lists.len()
                && lists[id as int].contains(signal)) by {
            if subscribers(lists, signal).contains(id) {
                lemma_subscriber_uses(lists, signal, id);
            }
            if id < lists.len() && lists[id as int].contains(signal) {
                if id == last {
                    assert(lists.last() == lists[id as int]);
                    assert(rest.push(last)[rest.len() as int] == id);
                } else {
                    assert(lists.drop_last()[id as int] == lists[id as int]);
                    assert(rest.contains(id));
                    let m = choose|m: int| 0 <= m < rest.len() && #[trigger] rest[m] == id;
                    if lists.last().contains(signal) {
                        assert(rest.push(last)[m] == id);
                    }
                }
            }
        }
        if lists.last().contains(signal) {
            assert forall|a: int| 0 <= a < rest.len() implies #[trigger] rest[a] < last by {
                assert(rest.contains(rest[a]));
            }
        }
    }
}

/// Each id in the subscribers of `signal` is a segment that lists it.
proof fn lemma_subscriber_uses(lists: Seq<Seq<i32>>, signal: i32, id: usize)
    requires
        lists.len() <= usize::MAX,
        subscribers(lists, signal).contains(id),
    ensures
        0 <= id < lists.len(),
        lists[id as int].contains(signal),
    decreases lists.len(),
{
    if lists.len() > 0 {
        let rest = subscribers(lists.drop_last(), signal);
        if lists.last().contains(signal) && id == (lists.len() - 1) as usize {
            assert(lists.last() == lists[lists.len() - 1]);
        } else {
            if lists.last().contains(signal) {
                let pushed = rest.push((lists.len() - 1) as usize);
                assert(pushed.contains(id));
                let m = choose|m: int| 0 <= m < pushed.len() && #[trigger] pushed[m] == id;
                assert(rest[m] == id);
            }
            lemma_subscriber_uses(lists.drop_last(), signal, id);
            assert(lists.drop_last()[id as int] == lists[id as int]);
        }
    }
}

} // verus!
