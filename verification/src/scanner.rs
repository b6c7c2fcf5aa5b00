//! Scan orchestration: probing of every port in a range under a bounded
//! concurrency limit.
//!
//! The surrounding application performs the actual connects; `ScanState`
//! makes every decision — which port to probe next, how many probes may
//! be in flight, what each completion contributes to the event stream and
//! to the final count — and its invariant carries the guarantees: never
//! more than `concurrent_limit` probes in flight, at most one open-port
//! event per port, failed probes leave no trace.

use crate::service::ServiceInfo;
use crate::service::ServiceInfoV;
use vstd::prelude::*;
use vstd::set_lib::lemma_int_range;
use vstd::set_lib::lemma_len_subset;
use vstd::set_lib::set_int_range;

verus! {

/// A configured scan: a resolved target address (as text), an inclusive
/// port range, a connect timeout and a concurrency limit.  Immutable for
/// the scan's duration; nothing is validated on construction, and a range
/// with `start_port > end_port` yields an empty scan.
pub struct Scanner {
    /// The resolved address to probe, in textual form.
    pub target: String,
    /// First port of the inclusive range.
    pub start_port: u16,
    /// Last port of the inclusive range.
    pub end_port: u16,
    /// Connect timeout, in milliseconds.
    pub timeout_ms: u64,
    /// Greatest number of probes that may be in flight at once.
    pub concurrent_limit: usize,
}

impl Scanner {
    /// Record a scan's parameters.
    pub fn new(target: String, start_port: u16, end_port: u16, timeout_ms: u64, concurrent_limit: usize) -> (s: Self)
        ensures
            s.target@ == target@,
            s.start_port == start_port,
            s.end_port == end_port,
            s.timeout_ms == timeout_ms,
            s.concurrent_limit == concurrent_limit,
    {
        Scanner { target, start_port, end_port, timeout_ms, concurrent_limit }
    }
}

/// The orchestrating loop's whole state: a cursor over the unscanned
/// ports, the set of ports whose probes are in flight, the open-port
/// counter, and (in ghost state) the open-port events emitted so far, in
/// completion order.
pub struct ScanState {
    /// First port of the inclusive range.
    pub start_port: u16,
    /// Last port of the inclusive range.
    pub end_port: u16,
    /// Greatest number of probes that may be in flight at once.
    pub concurrent_limit: usize,
    /// The next unscanned port; one past `end_port` when all ports have
    /// been handed out (`u32`, so a range ending at 65535 terminates).
    pub next_port: u32,
    /// Ports handed out and not yet completed, each exactly once.
    pub pending: Vec<u16>,
    /// Open-port events emitted so far.
    pub open_count: u64,
    /// The events emitted so far: `(port, classification)` in completion
    /// order.
    pub events: Ghost<Seq<(u16, ServiceInfoV)>>,
}

impl ScanState {
    /// The state's invariant, established by `begin` and preserved by
    /// `spawn` and `complete`.
    pub open spec fn wf(&self) -> bool {
        &&& self.start_port as int <= self.next_port as int
        &&& self.next_port as int <= if self.start_port <= self.end_port {
            self.end_port as int + 1
        } else {
            self.start_port as int
        }
        &&& self.pending@.no_duplicates()
        &&& forall|k: int|
            0 <= k < self.pending@.len() ==> self.start_port <= #[trigger] self.pending@[k]
                && (self.pending@[k] as int) < self.next_port as int
        &&& self.pending@.len() <= self.concurrent_limit
        &&& self.open_count == self.events@.len()
        &&& forall|i: int|
            0 <= i < self.events@.len() ==> self.start_port <= (#[trigger] self.events@[i]).0 && (
            self.events@[i].0 as int) < self.next_port as int
        &&& forall|i: int|
            0 <= i < self.events@.len() ==> !self.pending@.contains(
                (#[trigger] self.events@[i]).0,
            )
        &&& forall|i: int, j: int|
            0 <= i < self.events@.len() && 0 <= j < self.events@.len() && i != j ==> (
            #[trigger] self.events@[i]).0 != (#[trigger] self.events@[j]).0
    }

    /// A fresh slot is free and a port remains to fill it with.
    pub open spec fn spec_can_spawn(&self) -> bool {
        self.pending@.len() < self.concurrent_limit && self.next_port as int
            <= self.end_port as int
    }

    /// All ports handed out and every probe completed: the loop's
    /// termination condition.
    pub open spec fn spec_done(&self) -> bool {
        self.next_port as int > self.end_port as int && self.pending@.len() == 0
    }

    /// Start a scan of `sc`'s range under `sc`'s concurrency limit.
    pub fn begin(sc: &Scanner) -> (s: ScanState)
        ensures
            s.wf(),
            s.start_port == sc.start_port,
            s.end_port == sc.end_port,
            s.concurrent_limit == sc.concurrent_limit,
            s.next_port == sc.start_port as u32,
            s.pending@ == Seq::<u16>::empty(),
            s.open_count == 0,
            s.events@ == Seq::<(u16, ServiceInfoV)>::empty(),
    {
        ScanState {
            start_port: sc.start_port,
            end_port: sc.end_port,
            concurrent_limit: sc.concurrent_limit,
            next_port: sc.start_port as u32,
            pending: Vec::new(),
            open_count: 0,
            events: Ghost(Seq::empty()),
        }
    }

    /// Whether a new probe may be launched now.
    pub fn can_spawn(&self) -> (r: bool)
        ensures
            r == self.spec_can_spawn(),
    {
        self.pending.len() < self.concurrent_limit && self.next_port <= self.end_port as u32
    }

    /// Hand out the next unscanned port, if a slot is free and one
    /// remains: the port joins the in-flight set and the cursor advances.
    /// Otherwise nothing changes.
    pub fn spawn(&mut self) -> (r: Option<u16>)
        requires
            old(self).wf(),
        ensures
            final(self).wf(),
            final(self).start_port == old(self).start_port,
            final(self).end_port == old(self).end_port,
            final(self).concurrent_limit == old(self).concurrent_limit,
            final(self).open_count == old(self).open_count,
            final(self).events@ == old(self).events@,
            match r {
                Some(p) => old(self).spec_can_spawn() && p as int == old(self).next_port as int
                    && final(self).next_port == old(self).next_port + 1 && final(self).pending@
                    == old(self).pending@.push(p),
                None => !old(self).spec_can_spawn() && final(self).next_port == old(
                    self,
                ).next_port && final(self).pending@ == old(self).pending@,
            },
    {
        if self.pending.len() < self.concurrent_limit && self.next_port <= self.end_port as u32 {
            let p: u16 = self.next_port as u16;
            self.pending.push(p);
            self.next_port = self.next_port + 1;
            proof {
                assert forall|i: int, j: int|
                    0 <= i < self.pending@.len() && 0 <= j < self.pending@.len() && i
                        != j implies self.pending@[i] != self.pending@[j] by {
                    if i < self.pending@.len() - 1 && j < self.pending@.len() - 1 {
                        assert(old(self).pending@[i] != old(self).pending@[j]);
                    }
                }
                assert forall|i: int| 0 <= i < self.events@.len() implies !self.pending@.contains(
                    (#[trigger] self.events@[i]).0,
                ) by {
                    assert(!old(self).pending@.contains(self.events@[i].0));
                    assert((self.events@[i].0 as int) < old(self).next_port as int);
                    assert(forall|k: int|
                        0 <= k < self.pending@.len() - 1 ==> self.pending@[k] == old(
                            self,
                        ).pending@[k]);
                }
            }
            Some(p)
        } else {
            None
        }
    }

    /// Fold one completed probe into the state.  If `port` is in flight
    /// it leaves the in-flight set; a classified outcome then becomes the
    /// returned open-port event and raises the count, while `None` — a
    /// refused, filtered or timed-out connect — leaves no trace.  A port
    /// not in flight changes nothing.
    pub fn complete(&mut self, port: u16, outcome: Option<ServiceInfo>) -> (r: Option<ServiceInfo>)
        requires
            old(self).wf(),
        ensures
            final(self).wf(),
            final(self).start_port == old(self).start_port,
            final(self).end_port == old(self).end_port,
            final(self).concurrent_limit == old(self).concurrent_limit,
            final(self).next_port == old(self).next_port,
            (!old(self).pending@.contains(port) ==> final(self).pending@ == old(self).pending@
                && final(self).events@ == old(self).events@ && final(self).open_count == old(
                self,
            ).open_count && r is None),
            (old(self).pending@.contains(port) ==> {
                &&& final(self).pending@.len() + 1 == old(self).pending@.len()
                &&& forall|q: u16|
                    final(self).pending@.contains(q) <==> (old(self).pending@.contains(q) && q
                        != port)
                &&& match outcome {
                    Some(info) => final(self).events@ == old(self).events@.push((port, info@))
                        && final(self).open_count == old(self).open_count + 1 && (r matches Some(
                        out,
                    ) && out@ == info@),
                    None => final(self).events@ == old(self).events@ && final(self).open_count
                        == old(self).open_count && r is None,
                }
            }),
    {
        let n = self.pending.len();
        let mut i: usize = 0;
        let mut at: Option<usize> = None;
        while i < n
            invariant
                n == self.pending@.len(),
                i <= n,
                match at {
                    Some(k) => k < n && self.pending@[k as int] == port,
                    None => forall|k: int| 0 <= k < i ==> self.pending@[k] != port,
                },
                at is Some ==> i == n,
            decreases n - i,
        {
            if self.pending[i] == port {
                at = Some(i);
                i = n;
            } else {
                i += 1;
            }
        }
        match at {
            None => {
                proof {
                    assert(!self.pending@.contains(port));
                }
                None
            },
            Some(idx) => {
                let ghost oldp = self.pending@;
                self.pending.remove(idx);
                proof {
                    assert(oldp.contains(port));
                    self.lemma_after_remove(oldp, idx as int, port);
                }
                match outcome {
                    Some(info) => {
                        proof {
                            Self::lemma_events_len_bound(
                                old(self).events@,
                                old(self).start_port as int,
                                old(self).next_port as int,
                            );
                        }
                        self.open_count = self.open_count + 1;
                        proof {
                            self.events@ = self.events@.push((port, info@));
                            assert forall|i2: int|
                                0 <= i2 < self.events@.len() implies !self.pending@.contains(
                                (#[trigger] self.events@[i2]).0,
                            ) by {
                                if i2 < self.events@.len() - 1 {
                                    assert(!oldp.contains(old(self).events@[i2].0));
                                }
                            }
                            assert forall|i2: int, j2: int|
                                0 <= i2 < self.events@.len() && 0 <= j2 < self.events@.len() && i2
                                    != j2 implies (self.events@[i2]).0 != (self.events@[j2]).0 by {
                                if i2 < self.events@.len() - 1 && j2 < self.events@.len() - 1 {
                                    assert(old(self).events@[i2].0 != old(self).events@[j2].0);
                                } else {
                                    let k = if i2 < j2 { i2 } else { j2 };
                                    assert(!oldp.contains(old(self).events@[k].0));
                                }
                            }
                        }
                        Some(info)
                    },
                    None => None,
                }
            },
        }
    }

    /// Whether the scan is finished: no unscanned port and no probe in
    /// flight.
    pub fn is_done(&self) -> (r: bool)
        ensures
            r == self.spec_done(),
    {
        self.next_port > self.end_port as u32 && self.pending.len() == 0
    }

    /// Number of probes in flight right now.
    pub fn in_flight(&self) -> (r: usize)
        ensures
            r == self.pending@.len(),
    {
        self.pending.len()
    }

    /// The final summary count: how many open-port events the scan
    /// emitted.
    pub fn open_ports(&self) -> (r: u64)
        ensures
            r == self.open_count,
    {
        self.open_count
    }

    /// Membership after removing index `idx` from a duplicate-free
    /// sequence: exactly the old members other than the removed one.
    proof fn lemma_after_remove(&self, oldp: Seq<u16>, idx: int, port: u16)
        requires
            oldp.no_duplicates(),
            0 <= idx < oldp.len(),
            oldp[idx] == port,
            self.pending@ == oldp.remove(idx),
        ensures
            self.pending@.no_duplicates(),
            forall|q: u16|
                self.pending@.contains(q) <==> (oldp.contains(q) && q != port),
            forall|k: int|
                0 <= k < self.pending@.len() ==> exists|k2: int|
                    0 <= k2 < oldp.len() && oldp[k2] == #[trigger] self.pending@[k],
    {
        let newp = self.pending@;
        assert forall|k: int| 0 <= k < newp.len() implies exists|k2: int|
            0 <= k2 < oldp.len() && oldp[k2] == #[trigger] newp[k] by {
            if k < idx {
                assert(oldp[k] == newp[k]);
            } else {
                assert(oldp[k + 1] == newp[k]);
            }
        }
        assert forall|i: int, j: int|
            0 <= i < newp.len() && 0 <= j < newp.len() && i != j implies newp[i] != newp[j] by {
            let i2 = if i < idx { i } else { i + 1 };
            let j2 = if j < idx { j } else { j + 1 };
            assert(oldp[i2] == newp[i]);
            assert(oldp[j2] == newp[j]);
        }
        assert forall|q: u16| newp.contains(q) implies (oldp.contains(q) && q != port) by {
            let k = choose|k: int| 0 <= k < newp.len() && newp[k] == q;
            let k2 = if k < idx { k } else { k + 1 };
            assert(oldp[k2] == q);
            if q == port {
                assert(oldp[k2] == oldp[idx]);
            }
        }
        assert forall|q: u16| (oldp.contains(q) && q != port) implies newp.contains(q) by {
            let k2 = choose|k2: int| 0 <= k2 < oldp.len() && oldp[k2] == q;
            if k2 < idx {
                assert(newp[k2] == q);
            } else {
                assert(k2 != idx);
                assert(newp[k2 - 1] == q);
            }
        }
    }

    /// Distinct ports drawn from `[start, next)` bound how many events
    /// there can be.
    proof fn lemma_events_len_bound(events: Seq<(u16, ServiceInfoV)>, start: int, next: int)
        requires
            0 <= start,
            next <= 0x10000,
            forall|i: int|
                0 <= i < events.len() ==> start <= (#[trigger] events[i]).0 as int && (
                events[i].0 as int) < next,
            forall|i: int, j: int|
                0 <= i < events.len() && 0 <= j < events.len() && i != j ==> (
                #[trigger] events[i]).0 != (#[trigger] events[j]).0,
        ensures
            events.len() <= 0x10000,
    {
        if events.len() > 0 {
            assert(start < next) by {
                assert(start <= (events[0].0 as int) && (events[0].0 as int) < next);
            }
            let ports = events.map_values(|e: (u16, ServiceInfoV)| e.0 as int);
            assert(ports.len() == events.len());
            assert forall|i: int, j: int|
                0 <= i < ports.len() && 0 <= j < ports.len() && i != j implies ports[i]
                != ports[j] by {
                assert(events[i].0 != events[j].0);
            }
            assert(ports.no_duplicates());
            ports.unique_seq_to_set();
            assert forall|p: int| ports.to_set().contains(p) implies set_int_range(
                start,
                next,
            ).contains(p) by {
                let k = choose|k: int| 0 <= k < ports.len() && ports[k] == p;
                assert(start <= (events[k].0 as int) && (events[k].0 as int) < next);
            }
            lemma_int_range(start, next);
            lemma_len_subset(ports.to_set(), set_int_range(start, next));
        }
    }
}

/// The per-port outcomes a whole scan observed, in completion order, as
/// the set of open-port events they give rise to: a pair `(p, info)` for
/// every port `p` whose outcome was an open, classified connection.
pub open spec fn open_event_set(outcomes: Seq<(u16, Option<ServiceInfoV>)>) -> Set<
    (u16, ServiceInfoV),
> {
    Set::new(|e: (u16, ServiceInfoV)| outcomes.contains((e.0, Some(e.1))))
}

/// Law: a scan's set of open-port events is a function of the per-port
/// outcomes alone.  Two runs that observe the same outcomes — however the
/// completion order differs — yield the same `(port, classification)`
/// set; so, against an unchanging set of listeners, scanning twice is
/// idempotent.
pub proof fn lemma_scan_idempotent(
    run1: Seq<(u16, Option<ServiceInfoV>)>,
    run2: Seq<(u16, Option<ServiceInfoV>)>,
)
    requires
        run1.to_multiset() == run2.to_multiset(),
    ensures
        open_event_set(run1) == open_event_set(run2),
{
    broadcast use vstd::seq_lib::group_to_multiset_ensures;

    assert forall|e: (u16, ServiceInfoV)|
        open_event_set(run1).contains(e) == open_event_set(run2).contains(e) by {
        assert(run1.contains((e.0, Some(e.1))) <==> run1.to_multiset().count((e.0, Some(e.1)))
            > 0);
        assert(run2.contains((e.0, Some(e.1))) <==> run2.to_multiset().count((e.0, Some(e.1)))
            > 0);
    }
    assert(open_event_set(run1) =~= open_event_set(run2));
}

/// Law: the scanner emits at most one open-port event per port — two
/// distinct events of one scan always name distinct ports.
pub proof fn lemma_at_most_one_event_per_port(s: ScanState, i: int, j: int)
    requires
        s.wf(),
        0 <= i < s.events@.len(),
        0 <= j < s.events@.len(),
        i != j,
    ensures
        s.events@[i].0 != s.events@[j].0,
{
}

/// Law: at no instant do the probes in flight exceed the concurrency
/// limit.
pub proof fn lemma_in_flight_bounded(s: ScanState)
    requires
        s.wf(),
    ensures
        s.pending@.len() <= s.concurrent_limit,
{
}

/// Law: every emitted event names a port of the scanned range.
pub proof fn lemma_events_within_range(s: ScanState, i: int)
    requires
        s.wf(),
        0 <= i < s.events@.len(),
    ensures
        s.start_port <= s.events@[i].0 <= s.end_port,
{
}

} // verus!
