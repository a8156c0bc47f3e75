use clox::stack::{Stack, StackFault};

#[test]
fn pop_after_push_returns_the_value() {
    let mut s: Stack<i32> = Stack::new(4);
    s.push(7).unwrap();
    assert_eq!(s.pop(), Ok(7));
    assert_eq!(s.len(), 0);
}

#[test]
fn push_beyond_capacity_faults() {
    let mut s: Stack<i32> = Stack::new(2);
    assert_eq!(s.push(1), Ok(()));
    assert_eq!(s.push(2), Ok(()));
    assert_eq!(s.push(3), Err(StackFault::Overflow));
    assert_eq!(s.iter(), &[1, 2]);
}

#[test]
fn zero_capacity_stack_refuses_every_push() {
    let mut s: Stack<i32> = Stack::new(0);
    assert_eq!(s.push(1), Err(StackFault::Overflow));
}

#[test]
fn pop_on_empty_faults() {
    let mut s: Stack<i32> = Stack::new(1024);
    assert_eq!(s.pop(), Err(StackFault::Underflow));
    s.push(1).unwrap();
    s.pop().unwrap();
    assert_eq!(s.pop(), Err(StackFault::Underflow));
}

#[test]
fn values_come_off_last_in_first_out() {
    let mut s: Stack<u32> = Stack::new(8);
    for v in 1..=5 {
        s.push(v).unwrap();
    }
    assert_eq!(s.iter(), &[1, 2, 3, 4, 5]);
    for v in (1..=5).rev() {
        assert_eq!(s.pop(), Ok(v));
    }
    assert_eq!(s.pop(), Err(StackFault::Underflow));
}
