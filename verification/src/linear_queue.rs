//! The linear queue: a chain of processes, one per element, each holding a
//! value and the rest of the chain.  A new value becomes the new head of the
//! chain, so values come out last in, first out; dequeuing from the empty
//! chain ends it.
use vstd::prelude::*;
use vstd::string::*;

verus! {

/// A chain of element processes, its head first.
pub struct LinearQueue<T> {
    items: Vec<T>,
}

impl<T> View for LinearQueue<T> {
    /// The values in the order in which they come out.
    type V = Seq<T>;

    closed spec fn view(&self) -> Seq<T> {
        self.items@
    }
}

/// The chain `s` after `val` was enqueued: `val` heads it.
pub open spec fn enqueued<T>(s: Seq<T>, val: T) -> Seq<T> {
    seq![val] + s
}

/// The answer to a dequeue: the head value and the rest of the chain, or the
/// end of an empty chain.
pub enum DequeueOps<T> {
    Elem(T, LinearQueue<T>),
    Empty,
}

/// The empty chain.
pub fn empty<T>() -> (q: LinearQueue<T>)
    ensures
        q@ == Seq::<T>::empty(),
{
    LinearQueue { items: Vec::new() }
}

/// An element process holding `val` in front of `tail`.
pub fn elem<T>(val: T, tail: LinearQueue<T>) -> (q: LinearQueue<T>)
    ensures
        q@ == enqueued(tail@, val),
{
    let mut q = tail;
    q.enqueue(val);
    q
}

impl<T> LinearQueue<T> {
    /// Puts `val` in front of the chain.
    pub fn enqueue(&mut self, val: T)
        ensures
            final(self)@ == enqueued(old(self)@, val),
    {
        self.items.insert(0, val);
        assert(self.items@ =~= enqueued(old(self)@, val));
    }

    /// Takes the head value and hands back the rest of the chain; an empty
    /// chain answers that it is empty and ends.
    pub fn dequeue(self) -> (r: DequeueOps<T>)
        ensures
            match r {
                DequeueOps::Elem(val, rest) => {
                    &&& self@.len() > 0
                    &&& val == self@[0]
                    &&& rest@ == self@.drop_first()
                },
                DequeueOps::Empty => self@.len() == 0,
            },
    {
        let mut items = self.items;
        if items.len() == 0 {
            DequeueOps::Empty
        } else {
            let val = items.remove(0);
            let rest = LinearQueue { items };
            assert(rest@ =~= self@.drop_first());
            DequeueOps::Elem(val, rest)
        }
    }
}

/// Dequeues until the chain is empty and returns the values in the order in
/// which they came out.
pub fn dequeue_all<T>(queue: LinearQueue<T>) -> (vals: Vec<T>)
    ensures
        vals@ == queue@,
{
    let mut vals: Vec<T> = Vec::new();
    let mut q = queue;
    loop
        invariant
            vals@ + q@ == queue@,
        decreases q@.len(),
    {
        match q.dequeue() {
            DequeueOps::Elem(val, rest) => {
                proof {
                    assert(vals@.push(val) + rest@ =~= vals@ + q@);
                }
                vals.push(val);
                q = rest;
            },
            DequeueOps::Empty => {
                assert(vals@ =~= queue@);
                return vals;
            },
        }
    }
}

/// Enqueues "Hello" and then "World".
pub fn enqueue_hello_world(queue: LinearQueue<String>) -> (q: LinearQueue<String>)
    ensures
        q@.len() == queue@.len() + 2,
        q@[0]@ == "World"@,
        q@[1]@ == "Hello"@,
        q@.skip(2) == queue@,
{
    let mut q = queue;
    q.enqueue(String::from_str("Hello"));
    q.enqueue(String::from_str("World"));
    assert(q@.skip(2) =~= queue@);
    q
}

/// Dequeuing right after an enqueue gives back the enqueued value and the
/// chain as it was before.
pub proof fn lemma_dequeue_undoes_enqueue<T>(s: Seq<T>, val: T)
    ensures
        enqueued(s, val).len() > 0,
        enqueued(s, val)[0] == val,
        enqueued(s, val).drop_first() == s,
{
    assert(enqueued(s, val).drop_first() =~= s);
}

/// Values come out in the reverse of the order in which they went in: after
/// enqueuing `vals` one by one, the chain holds them last first.
pub proof fn lemma_last_in_first_out<T>(s: Seq<T>, vals: Seq<T>)
    ensures
        enqueue_each(s, vals) == vals.reverse() + s,
    decreases vals.len(),
{
    if vals.len() > 0 {
        let init = vals.drop_last();
        lemma_last_in_first_out(s, init);
        assert(vals.reverse() =~= seq![vals.last()] + init.reverse());
        assert(enqueue_each(s, vals) =~= vals.reverse() + s);
    } else {
        assert(vals.reverse() + s =~= s);
    }
}

/// The chain `s` after each of `vals` was enqueued, in order.
pub open spec fn enqueue_each<T>(s: Seq<T>, vals: Seq<T>) -> Seq<T>
    decreases vals.len(),
{
    if vals.len() == 0 {
        s
    } else {
        enqueued(enqueue_each(s, vals.drop_last()), vals.last())
    }
}

} // verus!
