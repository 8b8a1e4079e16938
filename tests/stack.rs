use hexchess::stack::Stack;

#[test]
fn stack_pops_in_reverse_order() {
    let mut s: Stack<u8, 3> = Stack::new(0);
    assert_eq!(s.capacity(), 3);
    assert_eq!(s.current(), None);
    s.push(4);
    s.push(5);
    assert_eq!(s.current(), Some(5));
    s.push(6);
    assert_eq!(s.pop(), Some(6));
    assert_eq!(s.pop(), Some(5));
    assert_eq!(s.current(), Some(4));
    assert_eq!(s.pop(), Some(4));
    assert_eq!(s.pop(), None);
    assert_eq!(s.current(), None);
}

#[test]
fn stack_incr_and_decr_move_the_top() {
    let mut s: Stack<u8, 2> = Stack::new(9);
    s.incr();
    assert_eq!(s.current(), Some(9));
    s.push(1);
    assert_eq!(s.current(), Some(1));
    s.decr();
    assert_eq!(s.current(), Some(9));
    s.decr();
    assert_eq!(s.current(), None);
}

#[test]
fn popped_slot_reappears_on_incr() {
    let mut s: Stack<u8, 2> = Stack::new(0);
    s.push(7);
    assert_eq!(s.pop(), Some(7));
    s.incr();
    assert_eq!(s.current(), Some(7));
}
