use session_demos::linear_queue::{dequeue_all, elem, empty, enqueue_hello_world, DequeueOps, LinearQueue};
use session_demos::shared_queue::{empty_queue, head_queue, SharedQueue};
use session_demos::vec_queue::{create_shared_queue, shared_queue, VecQueue};

fn s(v: &str) -> String {
    v.to_string()
}

#[test]
fn linear_queue_gives_world_then_hello() {
    let q = enqueue_hello_world(empty());
    assert_eq!(dequeue_all(q), vec![s("World"), s("Hello")]);
}

#[test]
fn linear_queue_is_last_in_first_out() {
    let mut q: LinearQueue<u32> = empty();
    q.enqueue(1);
    q.enqueue(2);
    q.enqueue(3);
    assert_eq!(dequeue_all(q), vec![3, 2, 1]);
}

#[test]
fn linear_dequeue_undoes_enqueue() {
    let mut q = elem(10u32, elem(20, empty()));
    q.enqueue(5);
    match q.dequeue() {
        DequeueOps::Elem(v, rest) => {
            assert_eq!(v, 5);
            assert_eq!(dequeue_all(rest), vec![10, 20]);
        }
        DequeueOps::Empty => panic!("empty"),
    }
}

#[test]
fn linear_empty_queue_ends() {
    let q: LinearQueue<u32> = empty();
    assert!(matches!(q.dequeue(), DequeueOps::Empty));
    assert_eq!(dequeue_all(empty::<u32>()), Vec::<u32>::new());
}

#[test]
fn shared_queue_scenario() {
    let mut q: SharedQueue<String> = empty_queue();
    q.enqueue(s("Foo"));
    q.enqueue(s("Bar"));
    assert_eq!(q.dequeue(), Some(s("Foo")));
    assert_eq!(q.dequeue(), Some(s("Bar")));
    assert_eq!(q.dequeue(), None);
    q.enqueue(s("Baz"));
    assert_eq!(q.dequeue(), Some(s("Baz")));
    assert_eq!(q.dequeue(), None);
}

#[test]
fn shared_queue_head_keeps_front() {
    let mut q = head_queue(1u32, head_queue(2, empty_queue()));
    q.enqueue(3);
    assert_eq!(q.dequeue(), Some(1));
    assert_eq!(q.dequeue(), Some(2));
    assert_eq!(q.dequeue(), Some(3));
    assert_eq!(q.dequeue(), None);
    assert_eq!(q.dequeue(), None);
}

#[test]
fn vec_queue_scenario() {
    let mut q: VecQueue<String> = create_shared_queue();
    q.enqueue(s("Hello"));
    q.enqueue(s("World"));
    assert_eq!(q.dequeue(), Some(s("World")));
    assert_eq!(q.dequeue(), Some(s("Hello")));
    assert_eq!(q.dequeue(), None);
}

#[test]
fn vec_queue_dequeue_undoes_enqueue() {
    let mut q = shared_queue(vec![1u32, 2]);
    q.enqueue(9);
    assert_eq!(q.dequeue(), Some(9));
    assert_eq!(q.dequeue(), Some(2));
    assert_eq!(q.dequeue(), Some(1));
    assert_eq!(q.dequeue(), None);
}

#[test]
fn shared_queue_gives_back_every_value_in_order_then_none() {
    let vals = vec![3u32, 1, 4, 1, 5];
    let mut q = empty_queue();
    for v in vals.iter() {
        q.enqueue(*v);
    }
    let mut answers = Vec::new();
    for _ in 0..vals.len() + 1 {
        answers.push(q.dequeue());
    }
    let mut expected: Vec<Option<u32>> = vals.iter().map(|v| Some(*v)).collect();
    expected.push(None);
    assert_eq!(answers, expected);
}
