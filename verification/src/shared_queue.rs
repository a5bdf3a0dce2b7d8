//! The shared queue: a chain of shared processes that clients acquire one at
//! a time.  The head process keeps its value and passes new values on to the
//! rest of the chain, so values come out first in, first out; dequeuing from
//! the empty queue answers that it is empty and leaves it in place.
use vstd::prelude::*;

verus! {

/// A shared queue, its front first.
pub struct SharedQueue<T> {
    items: Vec<T>,
}

impl<T> View for SharedQueue<T> {
    /// The values in the order in which they come out.
    type V = Seq<T>;

    closed spec fn view(&self) -> Seq<T> {
        self.items@
    }
}

/// The queue `s` after `val` was enqueued: `val` joins the back.
pub open spec fn enqueued<T>(s: Seq<T>, val: T) -> Seq<T> {
    s.push(val)
}

/// What a dequeue from `s` answers, and the queue it leaves.
pub open spec fn dequeued<T>(s: Seq<T>) -> (Option<T>, Seq<T>) {
    if s.len() == 0 {
        (None, s)
    } else {
        (Some(s[0]), s.drop_first())
    }
}

/// The empty queue.
pub fn empty_queue<T>() -> (q: SharedQueue<T>)
    ensures
        q@ == Seq::<T>::empty(),
{
    SharedQueue { items: Vec::new() }
}

/// A head process holding `val1` in front of the queue `tail`.
pub fn head_queue<T>(val1: T, tail: SharedQueue<T>) -> (q: SharedQueue<T>)
    ensures
        q@ == seq![val1] + tail@,
{
    let mut items = tail.items;
    items.insert(0, val1);
    let q = SharedQueue { items };
    assert(q@ =~= seq![val1] + tail@);
    q
}

impl<T> SharedQueue<T> {
    /// Puts `val` at the back of the queue.
    pub fn enqueue(&mut self, val: T)
        ensures
            final(self)@ == enqueued(old(self)@, val),
    {
        self.items.push(val);
    }

    /// Takes the front value, or answers `None` when the queue is empty.
    pub fn dequeue(&mut self) -> (r: Option<T>)
        ensures
            (r, final(self)@) == dequeued(old(self)@),
    {
        if self.items.len() == 0 {
            None
        } else {
            let val = self.items.remove(0);
            assert(self.items@ =~= old(self)@.drop_first());
            Some(val)
        }
    }
}

/// Enqueuing goes to the back: a dequeue after it answers as it would have
/// before it, and the enqueued value stays at the back of what is left.
pub proof fn lemma_enqueue_keeps_front<T>(s: Seq<T>, val: T)
    ensures
        s.len() == 0 ==> dequeued(enqueued(s, val)) == (Some(val), s),
        s.len() > 0 ==> dequeued(enqueued(s, val)) == (dequeued(s).0, enqueued(dequeued(s).1, val)),
{
    if s.len() == 0 {
        assert(enqueued(s, val).drop_first() =~= s);
    } else {
        assert(enqueued(s, val).drop_first() =~= enqueued(s.drop_first(), val));
    }
}

/// A dequeue from the empty queue answers `None` and leaves it empty.
pub proof fn lemma_dequeue_empty<T>()
    ensures
        dequeued(Seq::<T>::empty()) == (None::<T>, Seq::<T>::empty()),
{
}

/// Values come out in the order in which they went in: enqueuing `vals` one
/// by one onto the empty queue leaves exactly `vals`, front first.
pub proof fn lemma_first_in_first_out<T>(vals: Seq<T>)
    ensures
        enqueue_each(Seq::<T>::empty(), vals) == vals,
    decreases vals.len(),
{
    if vals.len() > 0 {
        lemma_first_in_first_out(vals.drop_last());
        assert(vals.drop_last().push(vals.last()) =~= vals);
    } else {
        assert(vals =~= Seq::<T>::empty());
    }
}

/// The queue `s` after each of `vals` was enqueued, in order.
pub open spec fn enqueue_each<T>(s: Seq<T>, vals: Seq<T>) -> Seq<T>
    decreases vals.len(),
{
    if vals.len() == 0 {
        s
    } else {
        enqueued(enqueue_each(s, vals.drop_last()), vals.last())
    }
}

/// The answers of `n` dequeues from `s`, one after the other.
pub open spec fn dequeue_answers<T>(s: Seq<T>, n: nat) -> Seq<Option<T>>
    decreases n,
{
    if n == 0 {
        Seq::empty()
    } else {
        seq![dequeued(s).0] + dequeue_answers(dequeued(s).1, (n - 1) as nat)
    }
}

/// Dequeuing one more time than the queue holds answers with each value,
/// front first, and then `None`.
pub proof fn lemma_dequeues_drain_in_order<T>(s: Seq<T>)
    ensures
        dequeue_answers(s, s.len() + 1) == s.map_values(|v: T| Some(v)).push(None),
    decreases s.len(),
{
    if s.len() == 0 {
        assert(dequeue_answers(s, 0) == Seq::<Option<T>>::empty());
        assert(dequeue_answers(s, 1) =~= s.map_values(|v: T| Some(v)).push(None));
    } else {
        let rest = s.drop_first();
        lemma_dequeues_drain_in_order(rest);
        assert(dequeued(s) == (Some(s[0]), rest));
        assert(dequeue_answers(s, s.len() + 1) == seq![Some(s[0])] + dequeue_answers(rest, rest.len() + 1));
        assert(seq![Some(s[0])] + rest.map_values(|v: T| Some(v)).push(None)
            =~= s.map_values(|v: T| Some(v)).push(None));
    }
}

/// First in, first out over a whole run: after `vals` are enqueued one by
/// one onto the empty queue, `vals.len() + 1` dequeues answer with each of
/// `vals` in the order they went in, and then `None`.
pub proof fn lemma_enqueued_values_come_out_in_order<T>(vals: Seq<T>)
    ensures
        dequeue_answers(enqueue_each(Seq::<T>::empty(), vals), vals.len() + 1)
            == vals.map_values(|v: T| Some(v)).push(None),
{
    lemma_first_in_first_out(vals);
    lemma_dequeues_drain_in_order(vals);
}

} // verus!
