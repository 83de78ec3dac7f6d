use linked_stack::stack::{drain_count, drain_to_vec, push_all, List};

#[test]
fn bad_stack_test_new() {
    let l = List::<i32>::new();
    assert_eq!(l.size(), 0);
}

#[test]
fn bad_stack_test_push() {
    let mut l = List::new();
    l.push(1);
    assert_eq!(l.size(), 1);
    assert_eq!(l.pop(), Some(1));
}

#[test]
fn bad_stack_test_pop() {
    let mut l = List::new();
    l.push(1);
    assert_eq!(l.size(), 1);
    let v = l.pop();
    assert_eq!(l.size(), 0);
    assert_eq!(v, Some(1));
}

#[test]
fn ok_stack_test_new() {
    let l = List::<i32>::new();
    assert_eq!(l.size(), 0);
}

#[test]
fn ok_stack_test_push() {
    let mut l = List::new();
    l.push(1);
    assert_eq!(l.size(), 1);
    assert_eq!(l.pop(), Some(1));
}

#[test]
fn ok_stack_test_pop() {
    let mut l = List::new();
    l.push(1);
    assert_eq!(l.size(), 1);
    let v = l.pop();
    assert_eq!(l.size(), 0);
    assert_eq!(v, Some(1));
}

#[test]
fn test_peek() {
    let mut l = List::new();
    l.push(1);
    assert_eq!(l.peek(), Some(&1));
}

#[test]
fn test_peek_mut() {
    let mut l = List::new();
    l.push(1);

    l.peek_mut().map(|value| {
        *value = 42;
    });

    assert_eq!(l.peek_mut(), Some(&mut 42));
}

#[test]
fn test_into_iter() {
    let mut l = List::new();
    l.push(1);
    l.push(2);
    l.push(3);

    let mut iter = l.into_iter();
    assert_eq!(iter.next(), Some(3));
    assert_eq!(iter.next(), Some(2));
    assert_eq!(iter.next(), Some(1));
    assert_eq!(iter.next(), None);
}

#[test]
fn test_iter() {
    let mut l = List::new();
    l.push(1);
    l.push(2);
    l.push(3);

    let mut iter = l.iter();
    assert_eq!(iter.next(), Some(&3));
    assert_eq!(iter.next(), Some(&2));
    assert_eq!(iter.next(), Some(&1));
    assert_eq!(iter.next(), None);
}

#[test]
fn test_iter_mut() {
    let mut l = List::new();
    l.push(1);
    l.push(2);
    l.push(3);

    let mut iter = l.iter_mut();
    assert_eq!(iter.next(), Some(&mut 3));
    assert_eq!(iter.next(), Some(&mut 2));
    assert_eq!(iter.next(), Some(&mut 1));
    assert_eq!(iter.next(), None);
}

#[test]
fn size_counts_pushes_and_pops() {
    let mut l = List::new();
    l.push(10);
    l.push(20);
    l.push(30);
    l.pop();
    l.push(40);
    assert_eq!(l.size(), 3);
    assert_eq!(drain_count(l), 3);
}

#[test]
fn drain_count_of_empty_is_zero() {
    let l = List::<i32>::new();
    assert_eq!(drain_count(l), 0);
}

#[test]
fn lifo_order_of_pops() {
    let mut l = List::new();
    for v in [1, 2, 3, 4, 5] {
        l.push(v);
    }
    assert_eq!(l.pop(), Some(5));
    assert_eq!(l.pop(), Some(4));
    assert_eq!(l.pop(), Some(3));
    assert_eq!(l.pop(), Some(2));
    assert_eq!(l.pop(), Some(1));
    assert_eq!(l.pop(), None);
}

#[test]
fn draining_yields_reverse_push_order() {
    let mut l = List::new();
    for v in [1, 2, 3] {
        l.push(v);
    }
    assert_eq!(drain_to_vec(l), vec![3, 2, 1]);
}

#[test]
fn push_all_stacks_in_reverse_order() {
    let mut l = List::new();
    l.push(0);
    push_all(&mut l, vec![1, 2, 3]);
    assert_eq!(l.pop(), Some(3));
    assert_eq!(l.pop(), Some(2));
    assert_eq!(l.pop(), Some(1));
    assert_eq!(l.pop(), Some(0));
    assert_eq!(l.pop(), None);
}

#[test]
fn empty_list_reports_no_value() {
    let mut l = List::<u64>::new();
    assert_eq!(l.size(), 0);
    assert_eq!(l.peek(), None);
    assert_eq!(l.peek_mut(), None);
    assert_eq!(l.pop(), None);
    assert_eq!(l.size(), 0);
}

#[test]
fn peek_agrees_with_pop() {
    let mut l = List::new();
    l.push(7);
    l.push(8);
    let peeked = l.peek().copied();
    let popped = l.pop();
    assert_eq!(peeked, Some(8));
    assert_eq!(popped, Some(8));
    assert_eq!(l.peek(), Some(&7));
    let _ = l.pop();
    assert_eq!(l.peek(), None);
}

#[test]
fn peek_mut_write_reaches_pop() {
    let mut l = List::new();
    l.push(5);
    l.push(6);
    if let Some(value) = l.peek_mut() {
        *value = 99;
    }
    assert_eq!(l.peek(), Some(&99));
    assert_eq!(l.pop(), Some(99));
    assert_eq!(l.pop(), Some(5));
}

#[test]
fn iter_mut_writes_reach_the_list() {
    let mut l = List::new();
    l.push(1);
    l.push(2);
    l.push(3);
    let mut iter = l.iter_mut();
    while let Some(value) = iter.next() {
        *value *= 10;
    }
    assert_eq!(l.pop(), Some(30));
    assert_eq!(l.pop(), Some(20));
    assert_eq!(l.pop(), Some(10));
    assert_eq!(l.pop(), None);
}

#[test]
fn clear_empties_the_list() {
    let mut l = List::new();
    l.push(1);
    l.push(2);
    l.clear();
    assert_eq!(l.size(), 0);
    assert_eq!(l.pop(), None);
    l.push(9);
    assert_eq!(l.pop(), Some(9));
}

#[test]
fn teardown_of_long_list_does_not_recurse() {
    let mut l = List::new();
    for v in 0..100_000u64 {
        l.push(v);
    }
    assert_eq!(l.size(), 100_000);
    drop(l);

    let mut m = List::new();
    for v in 0..100_000u64 {
        m.push(v);
    }
    m.clear();
    assert_eq!(m.size(), 0);
}

#[test]
fn strings_move_through_the_stack() {
    let mut l = List::new();
    l.push(String::from("a"));
    l.push(String::from("b"));
    assert_eq!(l.peek(), Some(&String::from("b")));
    assert_eq!(l.pop(), Some(String::from("b")));
    assert_eq!(l.pop(), Some(String::from("a")));
    assert_eq!(l.pop(), None);
}
