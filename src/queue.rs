use vstd::prelude::*;

use crate::crd::ObjectRef;

verus! {

/// Identity of a queued object: namespace and name.
pub type RefKey = (Seq<char>, Seq<char>);

/// The queue's contents: pending entries with the time before which they
/// are not handed out, and the entries whose pass is in flight, each with
/// whether a notification came in meanwhile.
pub struct QueueView {
    pub pending: Seq<(RefKey, u64)>,
    pub in_flight: Seq<(RefKey, bool)>,
}

pub open spec fn pending_at(q: QueueView, k: RefKey, i: int) -> bool {
    0 <= i < q.pending.len() && q.pending[i].0 == k
}

pub open spec fn in_flight_at(q: QueueView, k: RefKey, j: int) -> bool {
    0 <= j < q.in_flight.len() && q.in_flight[j].0 == k
}

pub open spec fn is_pending(q: QueueView, k: RefKey) -> bool {
    exists|i: int| pending_at(q, k, i)
}

pub open spec fn is_in_flight(q: QueueView, k: RefKey) -> bool {
    exists|j: int| in_flight_at(q, k, j)
}

/// At most one live entry per object: no object is pending twice, in flight
/// twice, or both pending and in flight.
pub open spec fn queue_wf(q: QueueView) -> bool {
    &&& forall|i: int, j: int|
        0 <= i < j < q.pending.len() ==> #[trigger] q.pending[i].0 != #[trigger] q.pending[j].0
    &&& forall|i: int, j: int|
        0 <= i < j < q.in_flight.len() ==> #[trigger] q.in_flight[i].0 != #[trigger] q.in_flight[j].0
    &&& forall|i: int, j: int|
        0 <= i < q.pending.len() && 0 <= j < q.in_flight.len() ==> #[trigger] q.pending[i].0
            != #[trigger] q.in_flight[j].0
}

/// `k` has exactly one live entry: one pending and none in flight, or the
/// other way round.
pub open spec fn has_single_live_entry(q: QueueView, k: RefKey) -> bool {
    ||| is_pending(q, k) && !is_in_flight(q, k) && forall|i1: int, i2: int|
        pending_at(q, k, i1) && pending_at(q, k, i2) ==> i1 == i2
    ||| is_in_flight(q, k) && !is_pending(q, k) && forall|j1: int, j2: int|
        in_flight_at(q, k, j1) && in_flight_at(q, k, j2) ==> j1 == j2
}

pub open spec fn earlier(a: u64, b: u64) -> u64 {
    if a < b {
        a
    } else {
        b
    }
}

pub open spec fn saturating_sum(a: u64, b: u64) -> u64 {
    if a + b > u64::MAX {
        u64::MAX
    } else {
        (a + b) as u64
    }
}

/// The queue after a notification for `k` at time `now`: a pending entry
/// becomes due no later than `now`, an entry in flight is marked for another
/// pass, and an object with no live entry gets one, due at `now`.
pub open spec fn enqueued(q: QueueView, k: RefKey, now: u64) -> QueueView {
    if is_pending(q, k) {
        let i = choose|i: int| pending_at(q, k, i);
        QueueView {
            pending: q.pending.update(i, (k, earlier(q.pending[i].1, now))),
            in_flight: q.in_flight,
        }
    } else if is_in_flight(q, k) {
        let j = choose|j: int| in_flight_at(q, k, j);
        QueueView { pending: q.pending, in_flight: q.in_flight.update(j, (k, true)) }
    } else {
        QueueView { pending: q.pending.push((k, now)), in_flight: q.in_flight }
    }
}

/// `i` is the first pending entry that is due at `now`.
pub open spec fn first_due(q: QueueView, now: u64, i: int) -> bool {
    &&& 0 <= i < q.pending.len()
    &&& q.pending[i].1 <= now
    &&& forall|j: int| 0 <= j < i ==> q.pending[j].1 > now
}

/// `q2` and `r` are what a dequeue at `now` leaves and returns: the first due
/// entry moves to the in-flight set, or nothing happens when none is due.
pub open spec fn dequeued(q: QueueView, now: u64, r: Option<RefKey>, q2: QueueView) -> bool {
    match r {
        None => {
            &&& forall|i: int| 0 <= i < q.pending.len() ==> q.pending[i].1 > now
            &&& q2 == q
        },
        Some(k) => exists|i: int|
            {
                &&& #[trigger] first_due(q, now, i)
                &&& q.pending[i].0 == k
                &&& q2 == QueueView {
                    pending: q.pending.remove(i),
                    in_flight: q.in_flight.push((k, false)),
                }
            },
    }
}

/// The queue after the pass of `k` completed at `now`: an object notified
/// during the pass is due at once, else it is due after `requeue_after`
/// seconds, or dropped when there is none.
pub open spec fn completed(q: QueueView, k: RefKey, requeue_after: Option<u64>, now: u64) -> QueueView {
    let j = choose|j: int| in_flight_at(q, k, j);
    let in_flight = q.in_flight.remove(j);
    if q.in_flight[j].1 {
        QueueView { pending: q.pending.push((k, now)), in_flight }
    } else {
        match requeue_after {
            Some(d) => QueueView { pending: q.pending.push((k, saturating_sum(now, d))), in_flight },
            None => QueueView { pending: q.pending, in_flight },
        }
    }
}

/// The identity of the object a dequeue handed out, if any.
pub open spec fn key_of_handed(r: Option<ObjectRef>) -> Option<RefKey> {
    match r {
        Some(t) => Some(t@),
        None => None,
    }
}

struct PendingEntry {
    target: ObjectRef,
    not_before: u64,
}

struct InFlightEntry {
    target: ObjectRef,
    notified: bool,
}

/// Work queue of objects to reconcile: notifications for one object
/// coalesce into one live entry, and an object is handed to at most one
/// pass at a time.
pub struct WorkQueue {
    pending: Vec<PendingEntry>,
    in_flight: Vec<InFlightEntry>,
}

impl View for WorkQueue {
    type V = QueueView;

    closed spec fn view(&self) -> QueueView {
        QueueView {
            pending: self.pending@.map_values(|e: PendingEntry| (e.target@, e.not_before)),
            in_flight: self.in_flight@.map_values(|e: InFlightEntry| (e.target@, e.notified)),
        }
    }
}

impl WorkQueue {
    pub fn new() -> (r: WorkQueue)
        ensures
            queue_wf(r@),
            r@.pending.len() == 0,
            r@.in_flight.len() == 0,
    {
        let r = WorkQueue { pending: Vec::new(), in_flight: Vec::new() };
        r
    }

    pub fn pending_len(&self) -> (r: usize)
        ensures
            r == self@.pending.len(),
    {
        self.pending.len()
    }

    pub fn in_flight_len(&self) -> (r: usize)
        ensures
            r == self@.in_flight.len(),
    {
        self.in_flight.len()
    }

    fn find_pending(&self, target: &ObjectRef) -> (r: Option<usize>)
        requires
            queue_wf(self@),
        ensures
            match r {
                Some(i) => pending_at(self@, target@, i as int) && i as int == choose|i: int|
                    pending_at(self@, target@, i),
                None => !is_pending(self@, target@),
            },
    {
        let mut i: usize = 0;
        while i < self.pending.len()
            invariant
                i <= self@.pending.len(),
                queue_wf(self@),
                forall|j: int| 0 <= j < i ==> !pending_at(self@, target@, j),
            decreases self@.pending.len() - i,
        {
            assert(self@.pending[i as int].0 == self.pending@[i as int].target@);
            if self.pending[i].target.same_as(target) {
                let ghost c = choose|c: int| pending_at(self@, target@, c);
                assert(pending_at(self@, target@, i as int));
                assert(pending_at(self@, target@, c));
                assert(c == i) by {
                    if c < i {
                        assert(self@.pending[c].0 != self@.pending[i as int].0);
                    } else if c > i {
                        assert(self@.pending[i as int].0 != self@.pending[c].0);
                    }
                }
                return Some(i);
            }
            i = i + 1;
        }
        None
    }

    fn find_in_flight(&self, target: &ObjectRef) -> (r: Option<usize>)
        requires
            queue_wf(self@),
        ensures
            match r {
                Some(j) => in_flight_at(self@, target@, j as int) && j as int == choose|j: int|
                    in_flight_at(self@, target@, j),
                None => !is_in_flight(self@, target@),
            },
    {
        let mut i: usize = 0;
        while i < self.in_flight.len()
            invariant
                i <= self@.in_flight.len(),
                queue_wf(self@),
                forall|j: int| 0 <= j < i ==> !in_flight_at(self@, target@, j),
            decreases self@.in_flight.len() - i,
        {
            assert(self@.in_flight[i as int].0 == self.in_flight@[i as int].target@);
            if self.in_flight[i].target.same_as(target) {
                let ghost c = choose|c: int| in_flight_at(self@, target@, c);
                assert(in_flight_at(self@, target@, i as int));
                assert(in_flight_at(self@, target@, c));
                assert(c == i) by {
                    if c < i {
                        assert(self@.in_flight[c].0 != self@.in_flight[i as int].0);
                    } else if c > i {
                        assert(self@.in_flight[i as int].0 != self@.in_flight[c].0);
                    }
                }
                return Some(i);
            }
            i = i + 1;
        }
        None
    }

    /// Whether a pass of `target` is in flight.
    pub fn in_flight(&self, target: &ObjectRef) -> (r: bool)
        requires
            queue_wf(self@),
        ensures
            r == is_in_flight(self@, target@),
    {
        self.find_in_flight(target).is_some()
    }

    /// Records a notification for `target` at time `now`.
    pub fn enqueue(&mut self, target: &ObjectRef, now: u64)
        requires
            queue_wf(old(self)@),
        ensures
            queue_wf(final(self)@),
            final(self)@ == enqueued(old(self)@, target@, now),
    {
        let ghost q = self@;
        proof {
            lemma_enqueue_keeps_wf(q, target@, now);
        }
        match self.find_pending(target) {
            Some(i) => {
                let nb = self.pending[i].not_before;
                let t = self.pending[i].target.duplicate();
                let e = PendingEntry { target: t, not_before: if nb < now { nb } else { now } };
                self.pending.set(i, e);
                assert(self@.pending =~= enqueued(q, target@, now).pending);
            },
            None => match self.find_in_flight(target) {
                Some(j) => {
                    let t = self.in_flight[j].target.duplicate();
                    self.in_flight.set(j, InFlightEntry { target: t, notified: true });
                    assert(self@.in_flight =~= enqueued(q, target@, now).in_flight);
                },
                None => {
                    self.pending.push(PendingEntry { target: target.duplicate(), not_before: now });
                    assert(self@.pending =~= enqueued(q, target@, now).pending);
                },
            },
        }
    }

    /// Hands out the first entry that is due at `now` and marks its pass in
    /// flight; `None` when no entry is due.
    pub fn dequeue(&mut self, now: u64) -> (r: Option<ObjectRef>)
        requires
            queue_wf(old(self)@),
        ensures
            queue_wf(final(self)@),
            dequeued(old(self)@, now, key_of_handed(r), final(self)@),
    {
        let ghost q = self@;
        let mut i: usize = 0;
        while i < self.pending.len()
            invariant
                self@ == q,
                q == old(self)@,
                queue_wf(q),
                i <= q.pending.len(),
                forall|j: int| 0 <= j < i ==> q.pending[j].1 > now,
            decreases q.pending.len() - i,
        {
            assert(q.pending[i as int].1 == self.pending@[i as int].not_before);
            if self.pending[i].not_before <= now {
                assert(first_due(q, now, i as int));
                let e = self.pending.remove(i);
                let handed = e.target.duplicate();
                self.in_flight.push(InFlightEntry { target: e.target, notified: false });
                let ghost k = handed@;
                assert(q.pending[i as int].0 == k);
                assert(self@.pending =~= q.pending.remove(i as int));
                assert(self@.in_flight =~= q.in_flight.push((k, false)));
                proof {
                    lemma_dequeue_keeps_wf(q, i as int);
                }
                assert(self@ == QueueView {
                    pending: q.pending.remove(i as int),
                    in_flight: q.in_flight.push((k, false)),
                });
                assert(dequeued(q, now, Some(k), self@));
                return Some(handed);
            }
            i = i + 1;
        }
        None
    }

    /// Ends the pass of `target` at time `now`, scheduling the next one
    /// `requeue_after` seconds later (none when it is `None`), or at once if
    /// a notification came in during the pass.
    pub fn complete(&mut self, target: &ObjectRef, requeue_after: Option<u64>, now: u64)
        requires
            queue_wf(old(self)@),
            is_in_flight(old(self)@, target@),
        ensures
            queue_wf(final(self)@),
            final(self)@ == completed(old(self)@, target@, requeue_after, now),
    {
        let ghost q = self@;
        proof {
            lemma_complete_keeps_wf(q, target@, requeue_after, now);
        }
        match self.find_in_flight(target) {
            Some(j) => {
                let e = self.in_flight.remove(j);
                assert(self@.in_flight =~= completed(q, target@, requeue_after, now).in_flight);
                assert(q.in_flight[j as int].1 == e.notified);
                if e.notified {
                    self.pending.push(PendingEntry { target: e.target, not_before: now });
                } else {
                    match requeue_after {
                        Some(d) => {
                            self.pending.push(
                                PendingEntry { target: e.target, not_before: now.saturating_add(d) },
                            );
                        },
                        None => {},
                    }
                }
                assert(self@.pending =~= completed(q, target@, requeue_after, now).pending);
            },
            None => {},
        }
    }
}

proof fn lemma_enqueue_keeps_wf(q: QueueView, k: RefKey, now: u64)
    requires
        queue_wf(q),
    ensures
        queue_wf(enqueued(q, k, now)),
{
    let q2 = enqueued(q, k, now);
    if is_pending(q, k) {
        let i = choose|i: int| pending_at(q, k, i);
        assert forall|a: int, b: int| 0 <= a < b < q2.pending.len() implies #[trigger] q2.pending[a].0
            != #[trigger] q2.pending[b].0 by {
            assert(q2.pending[a].0 == q.pending[a].0);
            assert(q2.pending[b].0 == q.pending[b].0);
        }
        assert forall|a: int, b: int|
            0 <= a < q2.pending.len() && 0 <= b < q2.in_flight.len() implies #[trigger] q2.pending[a].0
            != #[trigger] q2.in_flight[b].0 by {
            assert(q2.pending[a].0 == q.pending[a].0);
        }
    } else if is_in_flight(q, k) {
        let j = choose|j: int| in_flight_at(q, k, j);
        assert forall|a: int, b: int|
            0 <= a < b < q2.in_flight.len() implies #[trigger] q2.in_flight[a].0
            != #[trigger] q2.in_flight[b].0 by {
            assert(q2.in_flight[a].0 == q.in_flight[a].0);
            assert(q2.in_flight[b].0 == q.in_flight[b].0);
        }
        assert forall|a: int, b: int|
            0 <= a < q2.pending.len() && 0 <= b < q2.in_flight.len() implies #[trigger] q2.pending[a].0
            != #[trigger] q2.in_flight[b].0 by {
            assert(q2.in_flight[b].0 == q.in_flight[b].0);
        }
    } else {
        assert forall|a: int, b: int| 0 <= a < b < q2.pending.len() implies #[trigger] q2.pending[a].0
            != #[trigger] q2.pending[b].0 by {
            if b == q.pending.len() {
                assert(!pending_at(q, k, a));
            }
        }
        assert forall|a: int, b: int|
            0 <= a < q2.pending.len() && 0 <= b < q2.in_flight.len() implies #[trigger] q2.pending[a].0
            != #[trigger] q2.in_flight[b].0 by {
            if a == q.pending.len() {
                assert(!in_flight_at(q, k, b));
            }
        }
    }
}

proof fn lemma_dequeue_keeps_wf(q: QueueView, i: int)
    requires
        queue_wf(q),
        0 <= i < q.pending.len(),
    ensures
        queue_wf(
            QueueView {
                pending: q.pending.remove(i),
                in_flight: q.in_flight.push((q.pending[i].0, false)),
            },
        ),
{
    let k = q.pending[i].0;
    let q2 = QueueView { pending: q.pending.remove(i), in_flight: q.in_flight.push((k, false)) };
    assert forall|a: int, b: int| 0 <= a < b < q2.pending.len() implies #[trigger] q2.pending[a].0
        != #[trigger] q2.pending[b].0 by {
        let a0 = if a < i { a } else { a + 1 };
        let b0 = if b < i { b } else { b + 1 };
        assert(q2.pending[a] == q.pending[a0]);
        assert(q2.pending[b] == q.pending[b0]);
    }
    assert forall|a: int, b: int|
        0 <= a < b < q2.in_flight.len() implies #[trigger] q2.in_flight[a].0
        != #[trigger] q2.in_flight[b].0 by {
        if b == q.in_flight.len() {
            assert(q.pending[i].0 != q.in_flight[a].0);
        }
    }
    assert forall|a: int, b: int|
        0 <= a < q2.pending.len() && 0 <= b < q2.in_flight.len() implies #[trigger] q2.pending[a].0
        != #[trigger] q2.in_flight[b].0 by {
        let a0 = if a < i { a } else { a + 1 };
        assert(q2.pending[a] == q.pending[a0]);
        if b == q.in_flight.len() {
            if a0 < i {
                assert(q.pending[a0].0 != q.pending[i].0);
            } else {
                assert(q.pending[i].0 != q.pending[a0].0);
            }
        }
    }
}

proof fn lemma_complete_keeps_wf(q: QueueView, k: RefKey, requeue_after: Option<u64>, now: u64)
    requires
        queue_wf(q),
        is_in_flight(q, k),
    ensures
        queue_wf(completed(q, k, requeue_after, now)),
{
    let j = choose|j: int| in_flight_at(q, k, j);
    let q2 = completed(q, k, requeue_after, now);
    assert forall|a: int, b: int|
        0 <= a < b < q2.in_flight.len() implies #[trigger] q2.in_flight[a].0
        != #[trigger] q2.in_flight[b].0 by {
        let a0 = if a < j { a } else { a + 1 };
        let b0 = if b < j { b } else { b + 1 };
        assert(q2.in_flight[a] == q.in_flight[a0]);
        assert(q2.in_flight[b] == q.in_flight[b0]);
    }
    assert forall|a: int, b: int| 0 <= a < b < q2.pending.len() implies #[trigger] q2.pending[a].0
        != #[trigger] q2.pending[b].0 by {
        if b == q.pending.len() {
            assert(q.pending[a].0 != q.in_flight[j].0);
        }
    }
    assert forall|a: int, b: int|
        0 <= a < q2.pending.len() && 0 <= b < q2.in_flight.len() implies #[trigger] q2.pending[a].0
        != #[trigger] q2.in_flight[b].0 by {
        let b0 = if b < j { b } else { b + 1 };
        assert(q2.in_flight[b] == q.in_flight[b0]);
        if a == q.pending.len() {
            if b0 < j {
                assert(q.in_flight[b0].0 != q.in_flight[j].0);
            } else {
                assert(q.in_flight[j].0 != q.in_flight[b0].0);
            }
        }
    }
}

/// With at most one live entry per object, a live object has exactly one.
proof fn lemma_single_from_wf(q: QueueView, k: RefKey)
    requires
        queue_wf(q),
        is_pending(q, k) || is_in_flight(q, k),
    ensures
        has_single_live_entry(q, k),
{
    if is_pending(q, k) {
        let i = choose|i: int| pending_at(q, k, i);
        assert(!is_in_flight(q, k)) by {
            if is_in_flight(q, k) {
                let j = choose|j: int| in_flight_at(q, k, j);
                assert(q.pending[i].0 != q.in_flight[j].0);
            }
        }
        assert forall|i1: int, i2: int| pending_at(q, k, i1) && pending_at(q, k, i2) implies i1
            == i2 by {
            if i1 < i2 {
                assert(q.pending[i1].0 != q.pending[i2].0);
            } else if i2 < i1 {
                assert(q.pending[i2].0 != q.pending[i1].0);
            }
        }
    } else {
        assert forall|j1: int, j2: int| in_flight_at(q, k, j1) && in_flight_at(q, k, j2) implies j1
            == j2 by {
            if j1 < j2 {
                assert(q.in_flight[j1].0 != q.in_flight[j2].0);
            } else if j2 < j1 {
                assert(q.in_flight[j2].0 != q.in_flight[j1].0);
            }
        }
    }
}

/// After a notification for `k`, `k` is live; a pending entry is due no
/// later than the notification.
proof fn lemma_enqueue_makes_live(q: QueueView, k: RefKey, now: u64)
    requires
        queue_wf(q),
    ensures
        is_pending(enqueued(q, k, now), k) || is_in_flight(enqueued(q, k, now), k),
        is_in_flight(q, k) == is_in_flight(enqueued(q, k, now), k),
        !is_in_flight(q, k) ==> exists|i: int|
            pending_at(enqueued(q, k, now), k, i) && enqueued(q, k, now).pending[i].1 <= now,
{
    let q2 = enqueued(q, k, now);
    if is_pending(q, k) {
        let i = choose|i: int| pending_at(q, k, i);
        assert(pending_at(q2, k, i));
        assert(!is_in_flight(q, k)) by {
            if is_in_flight(q, k) {
                let j = choose|j: int| in_flight_at(q, k, j);
                assert(q.pending[i].0 != q.in_flight[j].0);
            }
        }
        assert(q2.in_flight == q.in_flight);
        assert(!is_in_flight(q2, k)) by {
            if is_in_flight(q2, k) {
                let b = choose|b: int| in_flight_at(q2, k, b);
                assert(in_flight_at(q, k, b));
            }
        }
    } else if is_in_flight(q, k) {
        let j = choose|j: int| in_flight_at(q, k, j);
        assert(in_flight_at(q2, k, j));
        assert(is_in_flight(q2, k));
    } else {
        assert(pending_at(q2, k, q.pending.len() as int));
        assert(q2.in_flight == q.in_flight);
        assert(!is_in_flight(q2, k)) by {
            if is_in_flight(q2, k) {
                let b = choose|b: int| in_flight_at(q2, k, b);
                assert(in_flight_at(q, k, b));
            }
        }
    }
}

/// The queue after notifications for `k` at each of `times`, in order.
pub open spec fn enqueued_all(q: QueueView, k: RefKey, times: Seq<u64>) -> QueueView
    decreases times.len(),
{
    if times.len() == 0 {
        q
    } else {
        enqueued(enqueued_all(q, k, times.drop_last()), k, times.last())
    }
}

/// Notifications coalesce: after any number of notifications for `k`, one
/// or more, the queue holds exactly one live entry for `k`.
pub proof fn lemma_notifications_coalesce(q: QueueView, k: RefKey, times: Seq<u64>)
    requires
        queue_wf(q),
        times.len() > 0,
    ensures
        queue_wf(enqueued_all(q, k, times)),
        has_single_live_entry(enqueued_all(q, k, times), k),
    decreases times.len(),
{
    let before = enqueued_all(q, k, times.drop_last());
    if times.len() > 1 {
        lemma_notifications_coalesce(q, k, times.drop_last());
    }
    lemma_enqueue_keeps_wf(before, k, times.last());
    lemma_enqueue_makes_live(before, k, times.last());
    lemma_single_from_wf(enqueued_all(q, k, times), k);
}

/// Once the pass of `k` completes, a later notification for `k` leaves one
/// live entry, pending and due no later than the notification, whatever the
/// requeue delay was.
pub proof fn lemma_notification_after_completion(
    q: QueueView,
    k: RefKey,
    requeue_after: Option<u64>,
    now: u64,
    later: u64,
)
    requires
        queue_wf(q),
        is_in_flight(q, k),
    ensures
        ({
            let q2 = enqueued(completed(q, k, requeue_after, now), k, later);
            &&& queue_wf(q2)
            &&& has_single_live_entry(q2, k)
            &&& !is_in_flight(q2, k)
            &&& exists|i: int| pending_at(q2, k, i) && q2.pending[i].1 <= later
        }),
{
    let q1 = completed(q, k, requeue_after, now);
    let j = choose|j: int| in_flight_at(q, k, j);
    lemma_complete_keeps_wf(q, k, requeue_after, now);
    assert(!is_in_flight(q1, k)) by {
        if is_in_flight(q1, k) {
            let b = choose|b: int| in_flight_at(q1, k, b);
            let b0 = if b < j { b } else { b + 1 };
            assert(q1.in_flight[b] == q.in_flight[b0]);
            if b0 < j {
                assert(q.in_flight[b0].0 != q.in_flight[j].0);
            } else {
                assert(q.in_flight[j].0 != q.in_flight[b0].0);
            }
        }
    }
    lemma_enqueue_keeps_wf(q1, k, later);
    lemma_enqueue_makes_live(q1, k, later);
    lemma_single_from_wf(enqueued(q1, k, later), k);
}

/// While the pass of `k` is in flight, a dequeue never hands `k` out, and
/// neither a dequeue nor a notification for any object takes `k` out of
/// the in-flight set or makes it pending.
pub proof fn lemma_in_flight_stays_exclusive(
    q: QueueView,
    k: RefKey,
    now: u64,
    r: Option<RefKey>,
    q2: QueueView,
    other: RefKey,
    at: u64,
)
    requires
        queue_wf(q),
        is_in_flight(q, k),
        dequeued(q, now, r, q2),
    ensures
        r != Some(k),
        queue_wf(q2),
        is_in_flight(q2, k),
        !is_pending(q2, k),
        queue_wf(enqueued(q, other, at)),
        is_in_flight(enqueued(q, other, at), k),
        !is_pending(enqueued(q, other, at), k),
{
    let j = choose|j: int| in_flight_at(q, k, j);
    assert(!is_pending(q, k)) by {
        if is_pending(q, k) {
            let i = choose|i: int| pending_at(q, k, i);
            assert(q.pending[i].0 != q.in_flight[j].0);
        }
    }
    if r is Some {
        let i = choose|i: int|
            {
                &&& #[trigger] first_due(q, now, i)
                &&& q.pending[i].0 == r->Some_0
                &&& q2 == QueueView {
                    pending: q.pending.remove(i),
                    in_flight: q.in_flight.push((r->Some_0, false)),
                }
            };
        assert(q.pending[i].0 != q.in_flight[j].0);
        lemma_dequeue_keeps_wf(q, i);
        assert(in_flight_at(q2, k, j));
        assert(!is_pending(q2, k)) by {
            if is_pending(q2, k) {
                let b = choose|b: int| pending_at(q2, k, b);
                let b0 = if b < i { b } else { b + 1 };
                assert(q2.pending[b] == q.pending[b0]);
                assert(pending_at(q, k, b0));
            }
        }
    }
    let q3 = enqueued(q, other, at);
    lemma_enqueue_keeps_wf(q, other, at);
    if other == k {
        lemma_enqueue_makes_live(q, k, at);
        lemma_single_from_wf(q3, k);
    } else {
        if is_pending(q, other) {
            let i = choose|i: int| pending_at(q, other, i);
            assert(in_flight_at(q3, k, j));
            assert(!is_pending(q3, k)) by {
                if is_pending(q3, k) {
                    let b = choose|b: int| pending_at(q3, k, b);
                    assert(pending_at(q, k, b));
                }
            }
        } else if is_in_flight(q, other) {
            let i = choose|i: int| in_flight_at(q, other, i);
            assert(in_flight_at(q3, k, j));
            assert(q3.pending == q.pending);
        } else {
            assert(in_flight_at(q3, k, j));
            assert(!is_pending(q3, k)) by {
                if is_pending(q3, k) {
                    let b = choose|b: int| pending_at(q3, k, b);
                    assert(pending_at(q, k, b));
                }
            }
        }
    }
}

/// Two dequeues in a row never hand out the same object: the first one's
/// pass is still in flight.
pub proof fn lemma_dequeue_exclusive(
    q0: QueueView,
    t1: u64,
    k: RefKey,
    q1: QueueView,
    t2: u64,
    r2: Option<RefKey>,
    q2: QueueView,
)
    requires
        queue_wf(q0),
        dequeued(q0, t1, Some(k), q1),
        dequeued(q1, t2, r2, q2),
    ensures
        r2 != Some(k),
{
    let i = choose|i: int|
        {
            &&& #[trigger] first_due(q0, t1, i)
            &&& q0.pending[i].0 == k
            &&& q1 == QueueView {
                pending: q0.pending.remove(i),
                in_flight: q0.in_flight.push((k, false)),
            }
        };
    lemma_dequeue_keeps_wf(q0, i);
    assert(in_flight_at(q1, k, q0.in_flight.len() as int));
    lemma_in_flight_stays_exclusive(q1, k, t2, r2, q2, k, t2);
}

} // verus!
