//! The intent queue: ordering, paging and isolation of topics.
use formation::queue::{IntentQueue, QueueResponse};

fn topic(n: u8) -> Vec<u8> {
    vec![n; 32]
}

#[test]
fn write_then_get_after_returns_the_suffix_in_order() {
    let mut q = IntentQueue::new();
    let t = topic(1);
    let first = vec![0u8, 10, 11];
    let second = vec![1u8, 20, 21];
    assert!(matches!(
        q.write_local(t.clone(), first.clone()),
        QueueResponse::OpSuccess
    ));
    assert!(matches!(
        q.write_local(t.clone(), second.clone()),
        QueueResponse::OpSuccess
    ));

    // entries carry indices 1 and 2; strictly after 0 means both, in order
    let after0 = q.get_after(&t, 0);
    assert_eq!(after0, vec![first.clone(), second.clone()]);

    // at most one of them
    let first_only = q.get_n_after(&t, 0, 1);
    assert_eq!(first_only, vec![first.clone()]);

    // strictly after index 1: only the second, no gaps
    let after1 = q.get_after(&t, 1);
    assert_eq!(after1, vec![second.clone()]);

    // beyond the end: nothing
    assert!(q.get_after(&t, 2).is_empty());
    assert!(q.get_after(&t, 99).is_empty());
}

#[test]
fn get_and_get_n_page_from_the_front() {
    let mut q = IntentQueue::new();
    let t = topic(2);
    for i in 0..5u8 {
        q.write_local(t.clone(), vec![i]);
    }
    assert_eq!(q.get(&t).len(), 5);
    assert_eq!(q.get_n(&t, 2), vec![vec![0u8], vec![1u8]]);
    assert_eq!(q.get_n(&t, 50).len(), 5);
}

#[test]
fn topics_are_isolated() {
    let mut q = IntentQueue::new();
    let a = topic(3);
    let b = topic(4);
    q.write_local(a.clone(), vec![1]);
    q.write_local(b.clone(), vec![2]);
    q.write_local(a.clone(), vec![3]);
    assert_eq!(q.get(&a), vec![vec![1u8], vec![3u8]]);
    assert_eq!(q.get(&b), vec![vec![2u8]]);
    assert!(q.get(&topic(5)).is_empty());
}
