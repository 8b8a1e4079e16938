use hexchess::range::{Range, RangeInc};
use hexchess::rank::Rank;

#[test]
fn test_inc() {
    assert_eq!(RangeInc::new(0_isize, 1).to_vec(), vec![0, 1]);
    assert_eq!(RangeInc::new(0_isize, 0).to_vec(), vec![0]);
    assert_eq!(RangeInc::new(0_isize, -1).to_vec(), vec![]);
}

#[test]
fn test_non_inc() {
    assert_eq!(Range::new(0_isize, 2).to_vec(), vec![0, 1]);
    assert_eq!(Range::new(0_isize, 1).to_vec(), vec![0]);
    assert_eq!(Range::new(0_isize, 0).to_vec(), vec![]);
    assert_eq!(Range::new(0_isize, -1).to_vec(), vec![]);
}

#[test]
fn range_inc_steps_one_value_at_a_time() {
    let mut r = RangeInc::new(3_isize, 5);
    assert_eq!(r.next(), Some(3));
    assert_eq!(r.next(), Some(4));
    assert_eq!(r.next(), Some(5));
    assert_eq!(r.next(), None);
    assert_eq!(r.next(), None);
}

#[test]
fn range_inc_bounds_and_membership() {
    let r = RangeInc::new(-2_isize, 4);
    assert_eq!(r.lo(), -2);
    assert_eq!(r.hi(), 4);
    assert_eq!(r.remaning(), 7);
    assert!(r.contains(-2));
    assert!(r.contains(4));
    assert!(!r.contains(5));
    assert!(!r.contains(-3));
}

#[test]
fn range_inc_clamp_takes_the_overlap() {
    let a = RangeInc::new(0_isize, 10);
    let b = RangeInc::new(4_isize, 20);
    let c = a.clamp(b);
    assert_eq!(c.lo(), 4);
    assert_eq!(c.hi(), 10);
    assert_eq!(c.to_vec(), vec![4, 5, 6, 7, 8, 9, 10]);
}

#[test]
fn range_remaning_excludes_the_end() {
    assert_eq!(Range::new(2_isize, 7).remaning(), 5);
    assert_eq!(Range::new(7_isize, 2).remaning(), -5);
}

#[test]
fn range_over_ranks_walks_the_axis() {
    assert_eq!(
        RangeInc::new(Rank::Rank9, Rank::Rank11).to_vec(),
        vec![Rank::Rank9, Rank::Rank10, Rank::Rank11]
    );
    assert_eq!(Range::new(Rank::Rank1, Rank::Rank3).to_vec(), vec![Rank::Rank1, Rank::Rank2]);
}

#[test]
fn range_inc_stops_at_the_end_of_the_axis() {
    assert_eq!(RangeInc::new(isize::MAX - 1, isize::MAX).to_vec(), vec![isize::MAX - 1, isize::MAX]);
}
