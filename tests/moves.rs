use hexchess::board::{starting_piece_at, Board, Entry, Status};
use hexchess::cell::Cell;
use hexchess::depth::Depth;
use hexchess::direction::Direction;
use hexchess::file::File;
use hexchess::movegen::{gather_moves, is_pawn_start, is_promotion_cell, single_direction_moves, Rays, Reach};
use hexchess::moves::{Move, MoveType, PawnMoveType, RestMoveType};
use hexchess::piece::{
    Bishop, Color, King, Knight, Pawn, PawnFirstMoveState, PawnMoveState, Piece, PieceType, Queen, Rook,
};
use hexchess::state::{State, Turn};

fn cell(rank: u8, file: File) -> Cell {
    Cell::new(hexchess::rank::Rank::from_index(rank - 1), file)
}

fn empty_board() -> Board {
    Board::empty(Depth::new(6).unwrap(), false)
}

fn entries(board: &Board) -> Vec<Entry> {
    (0..board.len()).map(|i| *board.entry_at(i)).collect()
}

fn non_capture(to: Cell) -> Move {
    Move::new(to, MoveType::Rest(RestMoveType::NonCapture))
}

fn capture(to: Cell) -> Move {
    Move::new(to, MoveType::Rest(RestMoveType::Capture))
}

#[test]
fn board_sizes_follow_the_depth() {
    let sizes: Vec<usize> = (1..=6u8).map(|d| Board::empty(Depth::new(d).unwrap(), false).len()).collect();
    assert_eq!(sizes, vec![1, 7, 19, 37, 61, 91]);
}

#[test]
fn every_entry_is_stored_at_its_index() {
    for d in 1..=6u8 {
        let board = Board::new(Depth::new(d).unwrap(), false, false);
        for i in 0..board.len() {
            let c = board.entry_at(i).cell;
            assert_eq!(board.board_index(c), i);
            assert_eq!(board.get(c).map(|e| e.cell), Some(c));
        }
    }
    let small = Board::empty(Depth::new(2).unwrap(), false);
    assert!(small.get(cell(1, File::FileF)).is_none());
    assert!(!small.contains(cell(8, File::FileF)));
    assert!(small.contains(cell(7, File::FileF)));
}

#[test]
fn new_board_holds_the_opening_position() {
    let board = Board::new(Depth::new(6).unwrap(), false, false);
    let pieces = entries(&board).iter().filter(|e| e.occupant.is_some()).count();
    assert_eq!(pieces, 36);
    assert_eq!(board.occupant(cell(1, File::FileG)), Some(Piece::King(King::new(Color::White))));
    assert_eq!(board.occupant(cell(10, File::FileE)), Some(Piece::Queen(Queen::new(Color::Black))));
    assert_eq!(board.occupant(cell(8, File::FileI)), Some(Piece::Rook(Rook::new(Color::Black))));
    assert_eq!(board.occupant(cell(5, File::FileF)), Some(Piece::Pawn(Pawn::new(Color::White))));
    assert_eq!(board.occupant(cell(6, File::FileF)), None);
    assert_eq!(starting_piece_at(cell(2, File::FileF)), Some(Piece::Bishop(Bishop::new(Color::White))));
    let current: Vec<Cell> = entries(&board).iter().filter(|e| e.mode.current).map(|e| e.cell).collect();
    assert_eq!(current, vec![cell(6, File::FileF)]);
    assert!(entries(&board).iter().all(|e| e.mode.status == Status::Unmarked));
    let hidden = Board::new(Depth::new(6).unwrap(), true, false);
    assert!(entries(&hidden).iter().all(|e| e.occupant.is_none()));
}

#[test]
fn rook_on_empty_board_reaches_every_edge() {
    let mut board = empty_board();
    let centre = cell(6, File::FileF);
    board.set_occupant(centre, Some(Piece::Rook(Rook::new(Color::White))));
    let moves = Rook::new(Color::White).valid_moves(&board, centre);
    assert_eq!(moves.len(), 30);
    assert!(moves.iter().all(|m| m.move_type == MoveType::Rest(RestMoveType::NonCapture)));
    let up: Vec<Cell> = single_direction_moves(centre, Color::White, Direction::Clock12, &board)
        .iter()
        .map(|m| m.move_to)
        .collect();
    assert_eq!(up, vec![cell(7, File::FileF), cell(8, File::FileF), cell(9, File::FileF), cell(10, File::FileF), cell(11, File::FileF)]);
    for d in [Direction::Clock2, Direction::Clock4, Direction::Clock6, Direction::Clock8, Direction::Clock10] {
        let ray = single_direction_moves(centre, Color::White, d, &board);
        assert_eq!(ray.len(), 5);
        assert_eq!(ray.last().unwrap().move_to.next_cell(d), None);
    }
}

#[test]
fn a_piece_two_cells_away_blocks_the_ray() {
    let centre = cell(6, File::FileF);
    let blocker = cell(8, File::FileF);
    for (color, expected) in [
        (Color::Black, vec![non_capture(cell(7, File::FileF)), capture(blocker)]),
        (Color::White, vec![non_capture(cell(7, File::FileF))]),
    ] {
        let mut board = empty_board();
        board.set_occupant(centre, Some(Piece::Rook(Rook::new(Color::White))));
        board.set_occupant(blocker, Some(Piece::Knight(Knight::new(color))));
        let ray = single_direction_moves(centre, Color::White, Direction::Clock12, &board);
        assert_eq!(ray, expected);
        let all = Rook::new(Color::White).valid_moves(&board, centre);
        assert_eq!(all.len(), 25 + expected.len());
    }
}

#[test]
fn bishop_and_queen_slide_along_their_rays() {
    let board = empty_board();
    let centre = cell(6, File::FileF);
    let bishop = Bishop::new(Color::White).valid_moves(&board, centre);
    assert_eq!(bishop.len(), 12);
    assert_eq!(bishop[0], non_capture(cell(7, File::FileG)));
    assert_eq!(bishop[1], non_capture(cell(8, File::FileH)));
    let queen = Queen::new(Color::White).valid_moves(&board, centre);
    assert_eq!(queen.len(), 42);
}

#[test]
fn knight_in_the_centre_has_twelve_leaps() {
    let board = empty_board();
    let centre = cell(6, File::FileF);
    let moves = Knight::new(Color::White).valid_moves(&board, centre);
    assert_eq!(moves.len(), 12);
    assert_eq!(moves[0], non_capture(cell(5, File::FileI)));
    assert_eq!(moves[1], non_capture(cell(7, File::FileH)));
    let mut targets: Vec<Cell> = moves.iter().map(|m| m.move_to).collect();
    targets.sort_by_key(|c| (c.file.index_of(), c.rank.index_of()));
    targets.dedup();
    assert_eq!(targets.len(), 12);
}

#[test]
fn knight_from_its_start_avoids_its_own_pieces() {
    let board = Board::new(Depth::new(6).unwrap(), false, false);
    let moves = Knight::new(Color::White).valid_moves(&board, cell(1, File::FileD));
    assert!(moves.iter().all(|m| m.move_type == MoveType::Rest(RestMoveType::NonCapture)));
    assert!(moves.iter().all(|m| board.occupant(m.move_to).is_none()));
    assert_eq!(moves.len(), 4);
}

#[test]
fn king_steps_once_in_twelve_directions() {
    let mut board = empty_board();
    let centre = cell(6, File::FileF);
    board.set_occupant(cell(7, File::FileF), Some(Piece::Pawn(Pawn::new(Color::White))));
    board.set_occupant(cell(5, File::FileF), Some(Piece::Pawn(Pawn::new(Color::Black))));
    let moves = King::new(Color::White).valid_moves(&board, centre);
    assert_eq!(moves.len(), 11);
    assert!(moves.contains(&capture(cell(5, File::FileF))));
    assert!(!moves.iter().any(|m| m.move_to == cell(7, File::FileF)));
}

#[test]
fn pawn_from_its_start_advances_two() {
    let board = Board::new(Depth::new(6).unwrap(), false, false);
    let e4 = cell(4, File::FileE);
    assert!(is_pawn_start(Color::White, e4));
    let moves = Pawn::new(Color::White).valid_moves(&board, e4);
    assert_eq!(
        moves,
        vec![
            Move::new(cell(5, File::FileE), MoveType::Pawn(PawnMoveType::NonCapture)),
            Move::new(cell(6, File::FileE), MoveType::Pawn(PawnMoveType::NonCapture)),
        ]
    );
    // The black pawn on F7 stops the white F5 pawn after one step.
    let f5 = Pawn::new(Color::White).valid_moves(&board, cell(5, File::FileF));
    assert_eq!(f5, vec![Move::new(cell(6, File::FileF), MoveType::Pawn(PawnMoveType::NonCapture))]);
    let black = Pawn::new(Color::Black).valid_moves(&board, cell(7, File::FileF));
    assert_eq!(black, vec![Move::new(cell(6, File::FileF), MoveType::Pawn(PawnMoveType::NonCapture))]);
}

#[test]
fn pawn_is_stopped_by_any_piece_ahead() {
    let mut board = empty_board();
    let e4 = cell(4, File::FileE);
    board.set_occupant(cell(5, File::FileE), Some(Piece::Rook(Rook::new(Color::Black))));
    let moves = Pawn::new(Color::White).valid_moves(&board, e4);
    assert!(moves.is_empty());
}

#[test]
fn pawn_promotes_on_the_far_edge() {
    let mut board = empty_board();
    let f10 = cell(10, File::FileF);
    let moves = Pawn::new(Color::White).valid_moves(&board, f10);
    assert_eq!(moves, vec![Move::new(cell(11, File::FileF), MoveType::Pawn(PawnMoveType::NonCapturePromotion))]);

    let e9 = cell(9, File::FileE);
    board.set_occupant(cell(9, File::FileD), Some(Piece::Knight(Knight::new(Color::Black))));
    let moves = Pawn::new(Color::White).valid_moves(&board, e9);
    assert_eq!(
        moves,
        vec![
            Move::new(cell(10, File::FileE), MoveType::Pawn(PawnMoveType::NonCapturePromotion)),
            Move::new(cell(9, File::FileD), MoveType::Pawn(PawnMoveType::CapturePromotion)),
        ]
    );
    assert!(is_promotion_cell(Color::White, cell(6, File::FileA)));
    assert!(!is_promotion_cell(Color::White, cell(10, File::FileF)));
    assert!(is_promotion_cell(Color::Black, cell(1, File::FileK)));
    let black = Pawn::new(Color::Black).valid_moves(&board, cell(2, File::FileC));
    assert_eq!(black, vec![Move::new(cell(1, File::FileC), MoveType::Pawn(PawnMoveType::NonCapturePromotion))]);
}

#[test]
fn pawn_captures_diagonally_forward() {
    let mut board = empty_board();
    let e5 = cell(5, File::FileE);
    board.set_occupant(cell(6, File::FileF), Some(Piece::Bishop(Bishop::new(Color::Black))));
    board.set_occupant(cell(5, File::FileD), Some(Piece::Bishop(Bishop::new(Color::White))));
    let moves = Pawn::new(Color::White).valid_moves(&board, e5);
    assert_eq!(
        moves,
        vec![
            Move::new(cell(6, File::FileE), MoveType::Pawn(PawnMoveType::NonCapture)),
            Move::new(cell(6, File::FileF), MoveType::Pawn(PawnMoveType::NormalCapture)),
        ]
    );
}

#[test]
fn en_passant_only_while_the_window_is_open() {
    let mut board = empty_board();
    let e5 = cell(5, File::FileE);
    let d4 = cell(4, File::FileD);
    let mut victim = Pawn::new(Color::Black);
    victim.record_advance(true);
    assert!(victim.en_passant_able());
    board.set_occupant(d4, Some(Piece::Pawn(victim)));
    let en_passant = Move::new(cell(5, File::FileD), MoveType::Pawn(PawnMoveType::EnPassant { remove_piece_on: d4 }));
    let moves = Pawn::new(Color::White).valid_moves(&board, e5);
    assert_eq!(moves, vec![Move::new(cell(6, File::FileE), MoveType::Pawn(PawnMoveType::NonCapture)), en_passant]);

    board.expire_en_passant(Color::White);
    assert!(Pawn::new(Color::White).valid_moves(&board, e5).contains(&en_passant));

    board.expire_en_passant(Color::Black);
    let moves = Pawn::new(Color::White).valid_moves(&board, e5);
    assert!(!moves.iter().any(|m| matches!(m.move_type, MoveType::Pawn(PawnMoveType::EnPassant { .. }))));
    assert_eq!(moves.len(), 1);
}

#[test]
fn single_first_step_gives_no_en_passant() {
    let mut board = empty_board();
    let mut victim = Pawn::new(Color::Black);
    victim.record_advance(false);
    assert_eq!(victim.en_passant_state, PawnMoveState::First(PawnFirstMoveState::Single));
    board.set_occupant(cell(4, File::FileD), Some(Piece::Pawn(victim)));
    let moves = Pawn::new(Color::White).valid_moves(&board, cell(5, File::FileE));
    assert_eq!(moves.len(), 1);
    victim.record_advance(true);
    assert_eq!(victim.en_passant_state, PawnMoveState::After);
}

#[test]
fn piece_dispatch_matches_each_role() {
    let board = Board::new(Depth::new(6).unwrap(), false, false);
    let queen = board.occupant(cell(1, File::FileE)).unwrap();
    assert_eq!(queen.ty(), PieceType::Queen);
    assert_eq!(queen.mark(), 'Q');
    assert_eq!(queen.color(), Color::White);
    assert_eq!(queen.valid_moves(&board, cell(1, File::FileE)), Queen::new(Color::White).valid_moves(&board, cell(1, File::FileE)));
    let all_white = gather_moves(&board, cell(6, File::FileF), Color::White, Reach::Single, Rays::All);
    // Twelve neighbours, less the three white pawns on F5, G4 and E4.
    assert_eq!(all_white.len(), 9);
}

#[test]
fn toggling_twice_restores_the_highlights() {
    let mut board = Board::new(Depth::new(6).unwrap(), false, false);
    let mut state = State::new();
    state.move_current(&mut board, Direction::Clock6);
    assert_eq!(state.current_cell(), cell(5, File::FileF));
    let before = entries(&board);
    state.toggle_valid_moves(&mut board);
    assert_eq!(state.displaying_valid_moves(), Some(cell(5, File::FileF)));
    let shown = entries(&board);
    assert_eq!(shown.iter().filter(|e| e.mode.status == Status::Movable).count(), 1);
    state.toggle_valid_moves(&mut board);
    assert_eq!(state.displaying_valid_moves(), None);
    assert_eq!(entries(&board), before);
}

#[test]
fn toggling_on_an_empty_cell_shows_nothing() {
    let mut board = Board::new(Depth::new(6).unwrap(), false, false);
    let mut state = State::new();
    let before = entries(&board);
    state.toggle_valid_moves(&mut board);
    assert_eq!(state.displaying_valid_moves(), None);
    assert_eq!(entries(&board), before);
}

#[test]
fn preview_stays_open_while_the_cursor_moves() {
    let mut board = Board::new(Depth::new(6).unwrap(), false, false);
    let mut state = State::new();
    state.move_current(&mut board, Direction::Clock6);
    state.toggle_valid_moves(&mut board);
    state.move_current(&mut board, Direction::Clock12);
    assert_eq!(state.displaying_valid_moves(), Some(cell(5, File::FileF)));
    assert!(board.get(cell(6, File::FileF)).unwrap().mode.current);
    assert!(!board.get(cell(5, File::FileF)).unwrap().mode.current);
    state.toggle_valid_moves(&mut board);
    assert!(entries(&board).iter().all(|e| e.mode.status == Status::Unmarked));
}

#[test]
fn en_passant_preview_marks_the_taken_pawn() {
    let mut board = Board::empty(Depth::new(6).unwrap(), false);
    let mut victim = Pawn::new(Color::Black);
    victim.record_advance(true);
    board.set_occupant(cell(6, File::FileF), Some(Piece::Pawn(Pawn::new(Color::White))));
    board.set_occupant(cell(5, File::FileE), Some(Piece::Pawn(victim)));
    let mut state = State::new();
    state.toggle_valid_moves(&mut board);
    assert_eq!(board.get(cell(6, File::FileE)).unwrap().mode.status, Status::Movable);
    assert_eq!(board.get(cell(5, File::FileE)).unwrap().mode.status, Status::Capturable);
    state.toggle_valid_moves(&mut board);
    assert!(entries(&board).iter().all(|e| e.mode.status == Status::Unmarked));
}

#[test]
fn cursor_stays_put_at_the_edge() {
    let mut board = Board::new(Depth::new(1).unwrap(), false, false);
    let mut state = State::new();
    state.move_current(&mut board, Direction::Clock12);
    assert_eq!(state.current_cell(), cell(6, File::FileF));
    assert_eq!(board.len(), 1);
    assert!(board.entry_at(0).occupant.is_none());
}

#[test]
fn turns_alternate() {
    let mut state = State::new();
    assert_eq!(state.turn_of(), Turn::White);
    state.toggle();
    assert_eq!(state.turn_of(), Turn::Black);
    state.toggle();
    assert_eq!(state.turn_of(), Turn::White);
    assert!(Color::White.is_same(&Color::White));
    assert!(!Color::White.is_same(&Color::Black));
}

#[test]
fn cursor_move_shifts_the_marker_and_keeps_the_rest() {
    let mut board = Board::new(Depth::new(6).unwrap(), false, false);
    let mut state = State::new();
    state.move_current(&mut board, Direction::Clock6);
    state.toggle_valid_moves(&mut board);
    let before = entries(&board);
    state.move_current(&mut board, Direction::Clock2);
    let after = entries(&board);
    let g5 = cell(5, File::FileG);
    let f5 = cell(5, File::FileF);
    for (b, a) in before.iter().zip(after.iter()) {
        assert_eq!(a.cell, b.cell);
        assert_eq!(a.occupant, b.occupant);
        assert_eq!(a.mode.status, b.mode.status);
        assert_eq!(a.mode.current, a.cell == g5);
    }
    assert!(!board.get(f5).unwrap().mode.current);
    assert_eq!(state.turn_of(), Turn::White);
}

#[test]
fn cursor_move_off_the_board_changes_nothing() {
    let mut board = Board::new(Depth::new(6).unwrap(), false, false);
    let mut state = State::new();
    for _ in 0..5 {
        state.move_current(&mut board, Direction::Clock12);
    }
    assert_eq!(state.current_cell(), cell(11, File::FileF));
    let before = entries(&board);
    state.move_current(&mut board, Direction::Clock12);
    assert_eq!(state.current_cell(), cell(11, File::FileF));
    assert_eq!(entries(&board), before);
}
