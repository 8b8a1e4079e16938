use hexchess::axis::{Predecessor, Sucessor};
use hexchess::cell::{Cell, CellError};
use hexchess::depth::{Depth, DepthError};
use hexchess::direction::Direction;
use hexchess::file::File;
use hexchess::rank::Rank;
use hexchess::repr::{Repr, ReprError};

fn all_directions() -> Vec<Direction> {
    (1..=12).map(Direction::from_hour).collect()
}

fn all_cells() -> Vec<Cell> {
    let mut out = Vec::new();
    for f in 0..11u8 {
        for r in 0..11u8 {
            if let Ok(c) = Cell::try_new(Rank::from_index(r), File::from_index(f)) {
                out.push(c);
            }
        }
    }
    out
}

#[test]
fn exactly_91_cells_are_valid() {
    assert_eq!(all_cells().len(), 91);
}

#[test]
fn each_rank_keeps_the_hexagon_cutoff() {
    // For each rank from 7 to 11, the files allowed narrow by one on each side.
    let expected: [(Rank, File, File); 6] = [
        (Rank::Rank6, File::FileA, File::FileL),
        (Rank::Rank7, File::FileB, File::FileK),
        (Rank::Rank8, File::FileC, File::FileI),
        (Rank::Rank9, File::FileD, File::FileH),
        (Rank::Rank10, File::FileE, File::FileG),
        (Rank::Rank11, File::FileF, File::FileF),
    ];
    for (rank, lo, hi) in expected {
        let files: Vec<File> = all_cells().into_iter().filter(|c| c.rank == rank).map(|c| c.file).collect();
        assert_eq!(files.first(), Some(&lo));
        assert_eq!(files.last(), Some(&hi));
        assert_eq!(files.len() as isize, hi.sub(lo) + 1);
    }
    for r in 0..5u8 {
        let rank = Rank::from_index(r);
        assert_eq!(all_cells().into_iter().filter(|c| c.rank == rank).count(), 11);
    }
}

#[test]
fn invalid_coordinate_is_rejected() {
    assert_eq!(
        Cell::try_new(Rank::Rank11, File::FileA),
        Err(CellError::InvalidCoordinate { rank: Rank::Rank11, file: File::FileA })
    );
    assert_eq!(
        Cell::try_new(Rank::Rank7, File::FileL),
        Err(CellError::InvalidCoordinate { rank: Rank::Rank7, file: File::FileL })
    );
    assert!(Cell::try_new(Rank::Rank7, File::FileK).is_ok());
}

#[test]
fn every_step_can_be_walked_back() {
    for c in all_cells() {
        for d in all_directions() {
            if let Some(n) = c.next_cell(d) {
                assert_eq!(n.next_cell(d.reverse()), Some(c), "{:?} {:?}", c, d);
            }
        }
    }
}

#[test]
fn rotations_close_after_six_turns() {
    for d in all_directions() {
        let mut cw = d;
        let mut ccw = d;
        for _ in 0..6 {
            cw = cw.turn_clockwise();
            ccw = ccw.turn_counter_clockwise();
        }
        assert_eq!(cw, d);
        assert_eq!(ccw, d);
        assert_eq!(d.reverse().reverse(), d);
    }
    assert_eq!(Direction::Clock1.reverse(), Direction::Clock7);
    assert_eq!(Direction::Clock11.turn_clockwise(), Direction::Clock1);
    assert_eq!(Direction::Clock2.turn_counter_clockwise(), Direction::Clock12);
}

#[test]
fn diagonal_steps_depend_on_the_side_of_the_centre_file() {
    let d5 = Cell::new(Rank::Rank5, File::FileD);
    assert_eq!(d5.next_cell(Direction::Clock1), Some(Cell::new(Rank::Rank7, File::FileE)));
    let g5 = Cell::new(Rank::Rank5, File::FileG);
    assert_eq!(g5.next_cell(Direction::Clock1), Some(Cell::new(Rank::Rank6, File::FileH)));
    let e5 = Cell::new(Rank::Rank5, File::FileE);
    assert_eq!(e5.next_cell(Direction::Clock3), Some(Cell::new(Rank::Rank5, File::FileG)));
    let d5b = Cell::new(Rank::Rank5, File::FileD);
    assert_eq!(d5b.next_cell(Direction::Clock3), Some(Cell::new(Rank::Rank6, File::FileF)));
    let g5b = Cell::new(Rank::Rank5, File::FileG);
    assert_eq!(g5b.next_cell(Direction::Clock9), Some(Cell::new(Rank::Rank5, File::FileE)));
    let f6 = Cell::new(Rank::Rank6, File::FileF);
    assert_eq!(f6.next_cell(Direction::Clock2), Some(Cell::new(Rank::Rank6, File::FileG)));
    assert_eq!(f6.next_cell(Direction::Clock10), Some(Cell::new(Rank::Rank6, File::FileE)));
    assert_eq!(f6.next_cell(Direction::Clock4), Some(Cell::new(Rank::Rank5, File::FileG)));
    assert_eq!(f6.next_cell(Direction::Clock8), Some(Cell::new(Rank::Rank5, File::FileE)));
}

#[test]
fn steps_off_the_board_give_none() {
    assert_eq!(Cell::new(Rank::Rank11, File::FileF).next_cell(Direction::Clock12), None);
    assert_eq!(Cell::new(Rank::Rank1, File::FileA).next_cell(Direction::Clock6), None);
    assert_eq!(Cell::new(Rank::Rank6, File::FileL).next_cell(Direction::Clock2), None);
    assert_eq!(Cell::new(Rank::Rank10, File::FileE).next_cell(Direction::Clock1), None);
}

#[test]
fn axes_step_and_stop_at_their_ends() {
    assert_eq!(Rank::Rank1.pred(), None);
    assert_eq!(Rank::Rank11.succ(), None);
    assert_eq!(Rank::Rank5.succ(), Some(Rank::Rank6));
    assert_eq!(File::FileI.succ(), Some(File::FileK));
    assert_eq!(File::FileK.pred(), Some(File::FileI));
    assert_eq!(File::FileL.next(), None);
    assert_eq!(File::FileA.previous(), None);
    assert_eq!(Rank::Rank3.next(), Some(Rank::Rank4));
    assert_eq!(Rank::Rank3.previous(), Some(Rank::Rank2));
    assert_eq!(Rank::Rank9.sub(Rank::Rank2), 7);
    assert_eq!(File::FileA.sub(File::FileL), -10);
    assert_eq!(Rank::default(), Rank::Rank6);
    assert_eq!(File::default(), File::FileF);
}

#[test]
fn depth_outside_one_to_six_is_rejected() {
    assert!(matches!(Depth::new(0), Err(DepthError::OutOfRange { found: 0 })));
    assert!(matches!(Depth::new(7), Err(DepthError::OutOfRange { found: 7 })));
    for d in 1..=6u8 {
        assert_eq!(Depth::new(d).unwrap().level_of(), d);
    }
}

#[test]
fn depth_ranges_shrink_around_the_centre() {
    let d = Depth::new(3).unwrap();
    assert_eq!(d.first_file(), File::FileD);
    assert_eq!(d.first_rank(), Rank::Rank4);
    assert_eq!(d.file_range().to_vec(), vec![File::FileD, File::FileE, File::FileF, File::FileG, File::FileH]);
    assert_eq!(d.rank_range(File::FileF).to_vec(), vec![Rank::Rank4, Rank::Rank5, Rank::Rank6, Rank::Rank7, Rank::Rank8]);
    assert_eq!(d.rank_range(File::FileH).to_vec(), vec![Rank::Rank4, Rank::Rank5, Rank::Rank6]);
    let full = Depth::new(6).unwrap();
    assert_eq!(full.rank_range(File::FileA).hi(), Rank::Rank6);
    assert_eq!(full.rank_range(File::FileF).hi(), Rank::Rank11);
}

#[test]
fn hex_coordinates_of_cells() {
    let centre = Repr::from_cell(Cell::new(Rank::Rank6, File::FileF));
    assert_eq!((centre.x(), centre.y()), (0, 0));
    let a1 = Repr::from_cell(Cell::new(Rank::Rank1, File::FileA));
    assert_eq!((a1.x(), a1.y()), (-5, -5));
    let f11 = Repr::from_cell(Cell::new(Rank::Rank11, File::FileF));
    assert_eq!((f11.x(), f11.y()), (0, 10));
    let h7 = Repr::from_cell(Cell::new(Rank::Rank7, File::FileH));
    assert_eq!(h7.sub(centre), (2, 4));
    assert_eq!(centre.next(Direction::Clock1), Repr::new(1, 3));
    assert_eq!(centre.next(Direction::Clock9), Repr::new(-2, 0));
    assert_eq!(Repr::try_new(1, 2), Err(ReprError::MixedParity { x: 1, y: 2 }));
    assert_eq!(Repr::try_new(-3, 1).map(|r| (r.x(), r.y())), Ok((-3, 1)));
}

#[test]
fn coordinates_follow_every_step() {
    for c in all_cells() {
        for d in all_directions() {
            if let Some(n) = c.next_cell(d) {
                assert_eq!(Repr::from_cell(c).next(d), Repr::from_cell(n));
            }
        }
    }
}

#[test]
fn file_rank_range_follows_the_rim() {
    assert_eq!(File::FileA.rank_range().hi(), Rank::Rank6);
    assert_eq!(File::FileF.rank_range().hi(), Rank::Rank11);
    assert_eq!(File::FileK.rank_range().hi(), Rank::Rank7);
    assert_eq!(File::FileC.rank_range().lo(), Rank::Rank1);
    assert_eq!(File::FileH.rank_range().to_vec().len(), 9);
}

#[test]
fn coordinates_step_out_and_back_near_the_limit() {
    let p = Repr::new(isize::MAX - 4, 0);
    let q = p.next(Direction::Clock3);
    assert_eq!((q.x(), q.y()), (isize::MAX - 2, 0));
    assert_eq!(q.next(Direction::Clock9), p);
}
