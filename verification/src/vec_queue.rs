//! The queue held in one shared process as a vector: values are pushed onto
//! it and popped off it, so the latest value comes out first; dequeuing from
//! the empty queue answers `None`.
use vstd::prelude::*;

verus! {

/// A queue held as a vector, the next value to come out last.
pub struct VecQueue<T> {
    queue: Vec<T>,
}

impl<T> View for VecQueue<T> {
    /// The values in the order in which they went in.
    type V = Seq<T>;

    closed spec fn view(&self) -> Seq<T> {
        self.queue@
    }
}

/// What a dequeue from `s` answers, and the queue it leaves: the latest
/// value, or `None` from the empty queue.
pub open spec fn dequeued<T>(s: Seq<T>) -> (Option<T>, Seq<T>) {
    if s.len() == 0 {
        (None, s)
    } else {
        (Some(s.last()), s.drop_last())
    }
}

/// The shared process serving the values of `queue`, the last one first.
pub fn shared_queue<T>(queue: Vec<T>) -> (q: VecQueue<T>)
    ensures
        q@ == queue@,
{
    VecQueue { queue }
}

/// The shared process serving an empty queue.
pub fn create_shared_queue<T>() -> (q: VecQueue<T>)
    ensures
        q@ == Seq::<T>::empty(),
{
    shared_queue(Vec::new())
}

impl<T> VecQueue<T> {
    /// Pushes `val` onto the queue.
    pub fn enqueue(&mut self, val: T)
        ensures
            final(self)@ == old(self)@.push(val),
    {
        self.queue.push(val);
    }

    /// Pops the latest value, or answers `None` when the queue is empty.
    pub fn dequeue(&mut self) -> (r: Option<T>)
        ensures
            (r, final(self)@) == dequeued(old(self)@),
    {
        let r = self.queue.pop();
        proof {
            if old(self)@.len() > 0 {
                assert(self.queue@ =~= old(self)@.drop_last());
            }
        }
        r
    }
}

/// A dequeue right after an enqueue gives back the enqueued value and the
/// queue as it was before.
pub proof fn lemma_dequeue_undoes_enqueue<T>(s: Seq<T>, val: T)
    ensures
        dequeued(s.push(val)) == (Some(val), s),
{
    assert(s.push(val).drop_last() =~= s);
}

/// A dequeue from the empty queue answers `None` and leaves it empty.
pub proof fn lemma_dequeue_empty<T>()
    ensures
        dequeued(Seq::<T>::empty()) == (None::<T>, Seq::<T>::empty()),
{
}

} // verus!
