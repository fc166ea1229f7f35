//! Delayed tasks and the queue that hands them out in firing order.
//!
//! A timer is ordered by its deadline and, among equal deadlines, by the
//! sequence number it was given on insertion. The payload takes no part in
//! the order.

use std::cmp::Ordering;
use std::collections::VecDeque;
use vstd::prelude::*;
use vstd::std_specs::cmp::PartialEqSpecImpl;
use vstd::std_specs::cmp::PartialOrdSpecImpl;

verus! {

/// A task that becomes runnable once the clock reaches `when`.
pub struct Timer<T> {
    /// Deadline on the loop's monotonic clock, in nanoseconds.
    pub when: u64,
    /// Insertion counter of the loop that created the timer.
    pub seq: u64,
    /// What to run.
    pub task: T,
}

impl<T> Timer<T> {
    /// Strict firing order: earlier deadline first, then lower sequence.
    pub open spec fn before(self, other: Timer<T>) -> bool {
        self.when < other.when || (self.when == other.when && self.seq < other.seq)
    }

    /// Same deadline and same sequence number.
    pub open spec fn same_key(self, other: Timer<T>) -> bool {
        self.when == other.when && self.seq == other.seq
    }

    /// The three-way comparison that `before` and `same_key` induce.
    pub open spec fn order(self, other: Timer<T>) -> Ordering {
        if self.before(other) {
            Ordering::Less
        } else if self.same_key(other) {
            Ordering::Equal
        } else {
            Ordering::Greater
        }
    }

    /// Compares two timers by `(when, seq)`.
    pub fn cmp(&self, other: &Self) -> (o: Ordering)
        ensures
            o == self.order(*other),
    {
        if self.when < other.when {
            Ordering::Less
        } else if self.when > other.when {
            Ordering::Greater
        } else if self.seq < other.seq {
            Ordering::Less
        } else if self.seq > other.seq {
            Ordering::Greater
        } else {
            Ordering::Equal
        }
    }
}

impl<T> PartialEq for Timer<T> {
    fn eq(&self, other: &Self) -> (r: bool) {
        self.when == other.when && self.seq == other.seq
    }
}

impl<T> PartialEqSpecImpl for Timer<T> {
    open spec fn obeys_eq_spec() -> bool {
        true
    }

    open spec fn eq_spec(&self, other: &Self) -> bool {
        self.same_key(*other)
    }
}

impl<T> PartialOrd for Timer<T> {
    fn partial_cmp(&self, other: &Self) -> (r: Option<Ordering>) {
        Some(self.cmp(other))
    }
}

impl<T> PartialOrdSpecImpl for Timer<T> {
    open spec fn obeys_partial_cmp_spec() -> bool {
        true
    }

    open spec fn partial_cmp_spec(&self, other: &Self) -> Option<Ordering> {
        Some(self.order(*other))
    }
}

/// Every element fires no later than the ones behind it.
pub open spec fn in_firing_order<T>(s: Seq<Timer<T>>) -> bool {
    forall|i: int, j: int| 0 <= i < j < s.len() ==> !(#[trigger] s[j]).before(#[trigger] s[i])
}

/// Where a new timer goes: behind every queued timer that does not fire
/// strictly after it. Timers with the same key keep their insertion order.
pub open spec fn slot<T>(s: Seq<Timer<T>>, t: Timer<T>) -> int
    decreases s.len(),
{
    if s.len() == 0 {
        0
    } else if t.before(s.last()) {
        slot(s.drop_last(), t)
    } else {
        s.len() as int
    }
}

/// The queue after `t` was added.
pub open spec fn enqueue<T>(s: Seq<Timer<T>>, t: Timer<T>) -> Seq<Timer<T>> {
    s.insert(slot(s, t), t)
}

/// `slot` lies inside the queue, everything before it fires no later than
/// `t`, and everything from it on fires strictly after `t`.
pub proof fn lemma_slot<T>(s: Seq<Timer<T>>, t: Timer<T>)
    requires
        in_firing_order(s),
    ensures
        0 <= slot(s, t) <= s.len(),
        forall|i: int| 0 <= i < slot(s, t) ==> !t.before(#[trigger] s[i]),
        forall|i: int| slot(s, t) <= i < s.len() ==> t.before(#[trigger] s[i]),
    decreases s.len(),
{
    if s.len() > 0 && t.before(s.last()) {
        let p = s.drop_last();
        assert forall|i: int, j: int| 0 <= i < j < p.len() implies !(#[trigger] p[j]).before(
            #[trigger] p[i],
        ) by {
            assert(p[i] == s[i] && p[j] == s[j]);
        }
        lemma_slot(p, t);
        assert forall|i: int| 0 <= i < slot(s, t) implies !t.before(#[trigger] s[i]) by {
            assert(s[i] == p[i]);
        }
        assert forall|i: int| slot(s, t) <= i < s.len() implies t.before(#[trigger] s[i]) by {
            if i < p.len() {
                assert(s[i] == p[i]);
            }
        }
    } else if s.len() > 0 {
        assert forall|i: int| 0 <= i < s.len() implies !t.before(#[trigger] s[i]) by {
            if i < s.len() - 1 {
                assert(!s.last().before(s[i]));
            }
        }
    }
}

/// Adding a timer keeps the queue in firing order.
pub proof fn lemma_enqueue_keeps_order<T>(s: Seq<Timer<T>>, t: Timer<T>)
    requires
        in_firing_order(s),
    ensures
        in_firing_order(enqueue(s, t)),
        enqueue(s, t).len() == s.len() + 1,
{
    lemma_slot(s, t);
    let p = slot(s, t);
    let r = enqueue(s, t);
    assert forall|i: int, j: int| 0 <= i < j < r.len() implies !(#[trigger] r[j]).before(
        #[trigger] r[i],
    ) by {
        if j < p {
            assert(r[i] == s[i] && r[j] == s[j]);
        } else if j == p {
            assert(r[i] == s[i]);
        } else if i == p {
            assert(r[j] == s[j - 1]);
        } else if i < p {
            assert(r[i] == s[i] && r[j] == s[j - 1]);
        } else {
            assert(r[i] == s[i - 1] && r[j] == s[j - 1]);
        }
    }
}

/// In a queue in firing order, of two timers with the same deadline the
/// one with the lower sequence number stands ahead.
pub proof fn lemma_equal_deadlines_by_seq<T>(s: Seq<Timer<T>>, i: int, j: int)
    requires
        in_firing_order(s),
        0 <= i < s.len(),
        0 <= j < s.len(),
        s[i].when == s[j].when,
        s[i].seq < s[j].seq,
    ensures
        i < j,
{
    if j < i {
        assert(!s[i].before(s[j]));
    }
}

/// Two timers with the same deadline that are added one after the other,
/// the first with the lower sequence number, end up in that order.
pub proof fn lemma_insertion_order_kept<T>(s: Seq<Timer<T>>, a: Timer<T>, b: Timer<T>)
    requires
        in_firing_order(s),
        a.when == b.when,
        a.seq < b.seq,
    ensures
        0 <= slot(s, a) < slot(enqueue(s, a), b) < enqueue(enqueue(s, a), b).len(),
        enqueue(enqueue(s, a), b)[slot(s, a)] == a,
        enqueue(enqueue(s, a), b)[slot(enqueue(s, a), b)] == b,
{
    lemma_slot(s, a);
    lemma_enqueue_keeps_order(s, a);
    let q1 = enqueue(s, a);
    lemma_slot(q1, b);
    lemma_enqueue_keeps_order(q1, b);
    let i = slot(s, a);
    let j = slot(q1, b);
    assert(q1[i] == a);
    if j <= i {
        assert(b.before(q1[i]));
    }
}

/// Pending timers, kept in firing order.
pub struct TimerQueue<T> {
    items: VecDeque<Timer<T>>,
}

impl<T> View for TimerQueue<T> {
    type V = Seq<Timer<T>>;

    closed spec fn view(&self) -> Seq<Timer<T>> {
        self.items@
    }
}

impl<T> TimerQueue<T> {
    /// The queue is in firing order.
    pub closed spec fn wf(&self) -> bool {
        in_firing_order(self.items@)
    }

    /// A well-formed queue is in firing order.
    pub proof fn lemma_wf(&self)
        requires
            self.wf(),
        ensures
            in_firing_order(self@),
    {
    }

    /// An empty queue.
    pub fn new() -> (q: Self)
        ensures
            q.wf(),
            q@ == Seq::<Timer<T>>::empty(),
    {
        TimerQueue { items: VecDeque::new() }
    }

    /// Number of pending timers.
    pub fn len(&self) -> (n: usize)
        ensures
            n == self@.len(),
    {
        self.items.len()
    }

    /// True when no timer is pending.
    pub fn is_empty(&self) -> (b: bool)
        ensures
            b == (self@.len() == 0),
    {
        self.items.len() == 0
    }

    /// Adds a timer behind every pending timer that does not fire strictly
    /// after it.
    pub fn push(&mut self, timer: Timer<T>)
        requires
            old(self).wf(),
        ensures
            final(self).wf(),
            final(self)@ == enqueue(old(self)@, timer),
    {
        proof {
            lemma_slot(self.items@, timer);
            lemma_enqueue_keeps_order(self.items@, timer);
        }
        let ghost s = self.items@;
        let mut i: usize = self.items.len();
        assert(s.take(s.len() as int) == s);
        while i > 0 && Self::fires_before(&timer, &self.items[i - 1])
            invariant
                self.items@ == s,
                i <= s.len(),
                slot(s, timer) == slot(s.take(i as int), timer),
            decreases i,
        {
            proof {
                assert(s.take(i as int).last() == s[i - 1]);
                assert(s.take(i as int).drop_last() == s.take(i - 1));
            }
            i -= 1;
        }
        proof {
            if i > 0 {
                assert(s.take(i as int).last() == s[i - 1]);
            }
        }
        self.items.insert(i, timer);
    }

    /// The timer that fires next, if any. No pending timer fires strictly
    /// before it.
    pub fn peek(&self) -> (r: Option<&Timer<T>>)
        ensures
            self@.len() == 0 ==> r is None,
            self@.len() > 0 ==> r == Some(&self@[0]),
    {
        if self.items.len() == 0 {
            None
        } else {
            Some(&self.items[0])
        }
    }

    /// Removes and returns the timer that fires next, if any.
    pub fn pop(&mut self) -> (r: Option<Timer<T>>)
        requires
            old(self).wf(),
        ensures
            final(self).wf(),
            old(self)@.len() == 0 ==> r is None && final(self)@ == old(self)@,
            old(self)@.len() > 0 ==> r == Some(old(self)@[0]) && final(self)@ == old(self)@.drop_first(),
    {
        let ghost s = self.items@;
        let r = self.items.pop_front();
        proof {
            if s.len() > 0 {
                assert(self.items@ == s.drop_first());
                assert forall|i: int, j: int| 0 <= i < j < self.items@.len() implies !(
                #[trigger] self.items@[j]).before(#[trigger] self.items@[i]) by {
                    assert(self.items@[i] == s[i + 1] && self.items@[j] == s[j + 1]);
                }
            }
        }
        r
    }

    /// Removes and returns the next timer if its deadline has been reached.
    pub fn pop_expired(&mut self, now: u64) -> (r: Option<Timer<T>>)
        requires
            old(self).wf(),
        ensures
            final(self).wf(),
            r == next_expired(old(self)@, now),
            final(self)@ == after_expired(old(self)@, now),
    {
        if self.items.len() == 0 {
            return None;
        }
        if self.items[0].when > now {
            return None;
        }
        self.pop()
    }

    fn fires_before(a: &Timer<T>, b: &Timer<T>) -> (r: bool)
        ensures
            r == a.before(*b),
    {
        a.when < b.when || (a.when == b.when && a.seq < b.seq)
    }
}

/// The timer that `pop_expired` hands out at time `now`.
pub open spec fn next_expired<T>(s: Seq<Timer<T>>, now: u64) -> Option<Timer<T>> {
    if s.len() > 0 && s[0].when <= now {
        Some(s[0])
    } else {
        None
    }
}

/// The queue that `pop_expired` leaves behind at time `now`.
pub open spec fn after_expired<T>(s: Seq<Timer<T>>, now: u64) -> Seq<Timer<T>> {
    if s.len() > 0 && s[0].when <= now {
        s.drop_first()
    } else {
        s
    }
}

} // verus!
