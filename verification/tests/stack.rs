use chip8::stack::{Stack, StackError, STACK_DEPTH};

#[test]
fn new_stack_is_empty() {
    let mut stack = Stack::new();
    assert_eq!(stack.depth(), 0);
    assert_eq!(stack.pop(), Err(StackError::Underflow));
    assert_eq!(stack.depth(), 0);
}

#[test]
fn default_stack_is_empty() {
    let stack = Stack::default();
    assert_eq!(stack.depth(), 0);
}

#[test]
fn push_then_pop_returns_the_value() {
    let mut stack = Stack::new();
    assert_eq!(stack.push(0x0ABC), Ok(()));
    assert_eq!(stack.depth(), 1);
    assert_eq!(stack.pop(), Ok(0x0ABC));
    assert_eq!(stack.depth(), 0);
}

#[test]
fn sixteen_pushes_then_sixteen_pops_come_back_in_reverse() {
    let mut stack = Stack::new();
    for i in 0..16u16 {
        assert_eq!(stack.push(0x200 + 2 * i), Ok(()));
    }
    assert_eq!(stack.depth(), STACK_DEPTH);
    for i in (0..16u16).rev() {
        assert_eq!(stack.pop(), Ok(0x200 + 2 * i));
    }
    assert_eq!(stack.depth(), 0);
    assert_eq!(stack.pop(), Err(StackError::Underflow));
}

#[test]
fn seventeenth_push_overflows_and_changes_nothing() {
    let mut stack = Stack::new();
    for i in 0..16u16 {
        assert_eq!(stack.push(i), Ok(()));
    }
    assert_eq!(stack.push(99), Err(StackError::Overflow));
    assert_eq!(stack.depth(), 16);
    assert_eq!(stack.pop(), Ok(15));
    assert_eq!(stack.push(77), Ok(()));
    assert_eq!(stack.pop(), Ok(77));
    assert_eq!(stack.pop(), Ok(14));
}

#[test]
fn pops_interleaved_with_pushes_are_last_in_first_out() {
    let mut stack = Stack::new();
    stack.push(1).unwrap();
    stack.push(2).unwrap();
    assert_eq!(stack.pop(), Ok(2));
    stack.push(3).unwrap();
    assert_eq!(stack.pop(), Ok(3));
    assert_eq!(stack.pop(), Ok(1));
    assert_eq!(stack.pop(), Err(StackError::Underflow));
}
