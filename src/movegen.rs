//! Move generation: the destinations each piece can reach from a cell.
//!
//! Every generator is stated as a spec function over the board's depth and
//! its occupancy (what stands on each entry, in storage order), so the moves
//! of a piece depend on nothing else on the board.
use vstd::prelude::*;

use crate::board::{on_board, slot, step, Board};
use crate::cell::{abs, lemma_hex_of_cell_at, Cell};
use crate::direction::{from_hour, Direction};
use crate::moves::{Move, MoveType, PawnMoveType, RestMoveType};
use crate::piece::{Bishop, Color, King, Knight, Pawn, Piece, Queen, Rook};
use crate::file::File;
use crate::rank::Rank;

verus! {

/// What stands on `c`, read from an occupancy in storage order.
pub open spec fn occupant_of(level: int, occ: Seq<Option<Piece>>, c: Cell) -> Option<Piece> {
    occ[slot(level, c)]
}

/// Landing on `t`: a quiet move onto an empty cell, a capture of an enemy
/// piece, nothing onto a piece of one's own colour.
pub open spec fn landing(level: int, occ: Seq<Option<Piece>>, color: Color, t: Cell) -> Seq<Move> {
    match occupant_of(level, occ, t) {
        None => seq![Move { move_to: t, move_type: MoveType::Rest(RestMoveType::NonCapture) }],
        Some(p) => if p.color_of() != color {
            seq![Move { move_to: t, move_type: MoveType::Rest(RestMoveType::Capture) }]
        } else {
            Seq::empty()
        },
    }
}

pub open spec fn landing_opt(
    level: int,
    occ: Seq<Option<Piece>>,
    color: Color,
    t: Option<Cell>,
) -> Seq<Move> {
    match t {
        Some(t) => landing(level, occ, color, t),
        None => Seq::empty(),
    }
}

/// How far along direction `d` the cell `c` lies; one step in `d` adds
/// the squared length of the step.
pub open spec fn progress(c: Cell, d: Direction) -> int {
    let x = c.hex_x();
    let y = c.hex_y();
    match d {
        Direction::Clock1 => x + 3 * y,
        Direction::Clock2 => x + y,
        Direction::Clock3 => 2 * x,
        Direction::Clock4 => x - y,
        Direction::Clock5 => x - 3 * y,
        Direction::Clock6 => -2 * y,
        Direction::Clock7 => -x - 3 * y,
        Direction::Clock8 => -x - y,
        Direction::Clock9 => -2 * x,
        Direction::Clock10 => -x + y,
        Direction::Clock11 => -x + 3 * y,
        Direction::Clock12 => 2 * y,
    }
}

/// A step that stays in play moves forward along its direction, and stays
/// within the board's reach.
pub proof fn lemma_step_progress(level: int, c: Cell, d: Direction)
    requires
        step(level, c, d) is Some,
    ensures
        progress(c, d) < progress(step(level, c, d).unwrap(), d) <= 35,
        step(level, c, d).unwrap().is_valid(),
{
    let x = c.hex_x() + crate::cell::delta_x(d);
    let y = c.hex_y() + crate::cell::delta_y(d);
    lemma_hex_of_cell_at(x, y);
    let t = step(level, c, d).unwrap();
    assert(t.hex_x() == x && t.hex_y() == y);
    assert(-5 <= x <= 5 && -10 <= y <= 10);
    assert(abs(x) <= 5 && abs(y) <= 10 - abs(x));
    match d {
        Direction::Clock1 => {
            assert(x == c.hex_x() + 1 && y == c.hex_y() + 3);
            assert(progress(t, d) == t.hex_x() + 3 * t.hex_y());
            assert(progress(c, d) == c.hex_x() + 3 * c.hex_y());
            assert(progress(t, d) <= 35);
            assert(progress(c, d) < progress(t, d));
        },
        Direction::Clock2 => {
            assert(x == c.hex_x() + 1 && y == c.hex_y() + 1);
            assert(progress(t, d) == t.hex_x() + t.hex_y());
            assert(progress(c, d) == c.hex_x() + c.hex_y());
            assert(progress(t, d) <= 35);
            assert(progress(c, d) < progress(t, d));
        },
        Direction::Clock3 => {
            assert(x == c.hex_x() + 2 && y == c.hex_y() + 0);
            assert(progress(t, d) == 2 * t.hex_x());
            assert(progress(c, d) == 2 * c.hex_x());
            assert(progress(t, d) <= 35);
            assert(progress(c, d) < progress(t, d));
        },
        Direction::Clock4 => {
            assert(x == c.hex_x() + 1 && y == c.hex_y() - 1);
            assert(progress(t, d) == t.hex_x() - t.hex_y());
            assert(progress(c, d) == c.hex_x() - c.hex_y());
            assert(progress(t, d) <= 35);
            assert(progress(c, d) < progress(t, d));
        },
        Direction::Clock5 => {
            assert(x == c.hex_x() + 1 && y == c.hex_y() - 3);
            assert(progress(t, d) == t.hex_x() - 3 * t.hex_y());
            assert(progress(c, d) == c.hex_x() - 3 * c.hex_y());
            assert(progress(t, d) <= 35);
            assert(progress(c, d) < progress(t, d));
        },
        Direction::Clock6 => {
            assert(x == c.hex_x() + 0 && y == c.hex_y() - 2);
            assert(progress(t, d) == -2 * t.hex_y());
            assert(progress(c, d) == -2 * c.hex_y());
            assert(progress(t, d) <= 35);
            assert(progress(c, d) < progress(t, d));
        },
        Direction::Clock7 => {
            assert(x == c.hex_x() - 1 && y == c.hex_y() - 3);
            assert(progress(t, d) == -t.hex_x() - 3 * t.hex_y());
            assert(progress(c, d) == -c.hex_x() - 3 * c.hex_y());
            assert(progress(t, d) <= 35);
            assert(progress(c, d) < progress(t, d));
        },
        Direction::Clock8 => {
            assert(x == c.hex_x() - 1 && y == c.hex_y() - 1);
            assert(progress(t, d) == -t.hex_x() - t.hex_y());
            assert(progress(c, d) == -c.hex_x() - c.hex_y());
            assert(progress(t, d) <= 35);
            assert(progress(c, d) < progress(t, d));
        },
        Direction::Clock9 => {
            assert(x == c.hex_x() - 2 && y == c.hex_y() + 0);
            assert(progress(t, d) == -2 * t.hex_x());
            assert(progress(c, d) == -2 * c.hex_x());
            assert(progress(t, d) <= 35);
            assert(progress(c, d) < progress(t, d));
        },
        Direction::Clock10 => {
            assert(x == c.hex_x() - 1 && y == c.hex_y() + 1);
            assert(progress(t, d) == -t.hex_x() + t.hex_y());
            assert(progress(c, d) == -c.hex_x() + c.hex_y());
            assert(progress(t, d) <= 35);
            assert(progress(c, d) < progress(t, d));
        },
        Direction::Clock11 => {
            assert(x == c.hex_x() - 1 && y == c.hex_y() + 3);
            assert(progress(t, d) == -t.hex_x() + 3 * t.hex_y());
            assert(progress(c, d) == -c.hex_x() + 3 * c.hex_y());
            assert(progress(t, d) <= 35);
            assert(progress(c, d) < progress(t, d));
        },
        Direction::Clock12 => {
            assert(x == c.hex_x() + 0 && y == c.hex_y() + 2);
            assert(progress(t, d) == 2 * t.hex_y());
            assert(progress(c, d) == 2 * c.hex_y());
            assert(progress(t, d) <= 35);
            assert(progress(c, d) < progress(t, d));
        },
    }
}

/// The moves of a sliding piece along one ray: every empty cell up to the
/// first occupied one, which is taken if it holds an enemy piece.
pub open spec fn ray(level: int, occ: Seq<Option<Piece>>, color: Color, c: Cell, d: Direction) -> Seq<
    Move,
>
    decreases 36 - progress(c, d),
    via ray_decreases
{
    match step(level, c, d) {
        None => Seq::empty(),
        Some(t) => match occupant_of(level, occ, t) {
            None => seq![
                Move { move_to: t, move_type: MoveType::Rest(RestMoveType::NonCapture) },
            ].add(ray(level, occ, color, t, d)),
            Some(p) => if p.color_of() != color {
                seq![Move { move_to: t, move_type: MoveType::Rest(RestMoveType::Capture) }]
            } else {
                Seq::empty()
            },
        },
    }
}

#[via_fn]
proof fn ray_decreases(level: int, occ: Seq<Option<Piece>>, color: Color, c: Cell, d: Direction) {
    if step(level, c, d) is Some {
        lemma_step_progress(level, c, d);
    }
}

/// A knight's two landings in direction `d`: two steps along `d`, then one
/// step turned a sixth either way.
pub open spec fn knight_toward(
    level: int,
    occ: Seq<Option<Piece>>,
    color: Color,
    c: Cell,
    d: Direction,
) -> Seq<Move> {
    match step(level, c, d) {
        Some(a) => match step(level, a, d) {
            Some(b) => landing_opt(level, occ, color, step(level, b, d.clockwise())).add(
                landing_opt(level, occ, color, step(level, b, d.counter_clockwise())),
            ),
            None => Seq::empty(),
        },
        None => Seq::empty(),
    }
}

/// How a piece covers a direction.
#[derive(Clone, Copy, Debug, PartialEq, Eq, Structural)]
pub enum Reach {
    /// Along the whole ray.
    Slide,
    /// A knight's leap.
    Leap,
    /// One step.
    Single,
}

/// A set of directions, in clock order.
#[derive(Clone, Copy, Debug, PartialEq, Eq, Structural)]
pub enum Rays {
    /// The six edge neighbours, hours 2, 4, ..., 12.
    Straight,
    /// The six diagonals, hours 1, 3, ..., 11.
    Diagonal,
    /// All twelve, hours 1 to 12.
    All,
}

pub open spec fn directions(rays: Rays) -> Seq<Direction> {
    match rays {
        Rays::Straight => Seq::new(6, |i: int| from_hour(2 * i + 2)),
        Rays::Diagonal => Seq::new(6, |i: int| from_hour(2 * i + 1)),
        Rays::All => Seq::new(12, |i: int| from_hour(i + 1)),
    }
}

pub open spec fn toward(
    reach: Reach,
    level: int,
    occ: Seq<Option<Piece>>,
    color: Color,
    c: Cell,
    d: Direction,
) -> Seq<Move> {
    match reach {
        Reach::Slide => ray(level, occ, color, c, d),
        Reach::Leap => knight_toward(level, occ, color, c, d),
        Reach::Single => landing_opt(level, occ, color, step(level, c, d)),
    }
}

/// The moves toward each of `dirs` in turn, concatenated.
pub open spec fn gather(
    reach: Reach,
    level: int,
    occ: Seq<Option<Piece>>,
    color: Color,
    c: Cell,
    dirs: Seq<Direction>,
) -> Seq<Move>
    decreases dirs.len(),
{
    if dirs.len() == 0 {
        Seq::empty()
    } else {
        gather(reach, level, occ, color, c, dirs.drop_last()).add(
            toward(reach, level, occ, color, c, dirs.last()),
        )
    }
}

impl Direction {
    pub fn from_hour(h: u8) -> (r: Direction)
        requires
            1 <= h <= 12,
        ensures
            r == from_hour(h as int),
    {
        match h {
            1 => Direction::Clock1,
            2 => Direction::Clock2,
            3 => Direction::Clock3,
            4 => Direction::Clock4,
            5 => Direction::Clock5,
            6 => Direction::Clock6,
            7 => Direction::Clock7,
            8 => Direction::Clock8,
            9 => Direction::Clock9,
            10 => Direction::Clock10,
            11 => Direction::Clock11,
            _ => Direction::Clock12,
        }
    }
}

/// The moves of a sliding piece of `color` from `cell` along `direction`.
pub fn single_direction_moves(cell: Cell, color: Color, direction: Direction, board: &Board) -> (r:
    Vec<Move>)
    requires
        board.wf(),
        on_board(board.level(), cell),
    ensures
        r@ == ray(board.level(), board.occupancy(), color, cell, direction),
{
    let ghost level = board.level();
    let ghost occ = board.occupancy();
    let mut out: Vec<Move> = Vec::new();
    let mut cur = cell;
    proof {
        board.lemma_lookup(cell);
    }
    loop
        invariant_except_break
            out@ + ray(level, occ, color, cur, direction) == ray(level, occ, color, cell, direction),
        invariant
            board.wf(),
            level == board.level(),
            occ == board.occupancy(),
            on_board(level, cur),
            cur.is_valid(),
        ensures
            out@ == ray(level, occ, color, cell, direction),
        decreases 36 - progress(cur, direction),
    {
        match board.next(cur, direction) {
            None => {
                assert(out@ + ray(level, occ, color, cur, direction) =~= out@);
                break ;
            },
            Some(t) => {
                proof {
                    lemma_step_progress(level, cur, direction);
                }
                match board.occupant(t) {
                    None => {
                        let m = Move::new(t, MoveType::Rest(RestMoveType::NonCapture));
                        let ghost before = out@;
                        out.push(m);
                        assert(before + ray(level, occ, color, cur, direction) =~= out@ + ray(
                            level,
                            occ,
                            color,
                            t,
                            direction,
                        ));
                        cur = t;
                    },
                    Some(p) => {
                        let ghost before = out@;
                        if !p.color().is_same(&color) {
                            out.push(Move::new(t, MoveType::Rest(RestMoveType::Capture)));
                        }
                        assert(before + ray(level, occ, color, cur, direction) =~= out@);
                        break ;
                    },
                }
            },
        }
    }
    out
}

/// The moves of landing on `t`, where `t` is a cell in play or `None`.
fn landing_moves(board: &Board, color: Color, t: Option<Cell>) -> (r: Vec<Move>)
    requires
        board.wf(),
        t matches Some(t) ==> on_board(board.level(), t),
    ensures
        r@ == landing_opt(board.level(), board.occupancy(), color, t),
{
    let mut out: Vec<Move> = Vec::new();
    if let Some(t) = t {
        match board.occupant(t) {
            None => out.push(Move::new(t, MoveType::Rest(RestMoveType::NonCapture))),
            Some(p) => if !p.color().is_same(&color) {
                out.push(Move::new(t, MoveType::Rest(RestMoveType::Capture)));
            },
        }
        assert(out@ =~= landing_opt(board.level(), board.occupancy(), color, Some(t)));
    }
    out
}

/// A knight's landings from `cell` in direction `direction`.
fn knight_toward_moves(board: &Board, cell: Cell, color: Color, direction: Direction) -> (r: Vec<
    Move,
>)
    requires
        board.wf(),
        on_board(board.level(), cell),
    ensures
        r@ == knight_toward(board.level(), board.occupancy(), color, cell, direction),
{
    proof {
        board.lemma_lookup(cell);
    }
    let a = match board.next(cell, direction) {
        Some(a) => a,
        None => return Vec::new(),
    };
    proof {
        lemma_step_progress(board.level(), cell, direction);
    }
    let b = match board.next(a, direction) {
        Some(b) => b,
        None => return Vec::new(),
    };
    proof {
        lemma_step_progress(board.level(), a, direction);
    }
    let mut first = landing_moves(board, color, board.next(b, direction.turn_clockwise()));
    let mut second = landing_moves(board, color, board.next(b, direction.turn_counter_clockwise()));
    first.append(&mut second);
    first
}

/// The moves toward one direction.
fn toward_moves(board: &Board, cell: Cell, color: Color, reach: Reach, direction: Direction) -> (r:
    Vec<Move>)
    requires
        board.wf(),
        on_board(board.level(), cell),
    ensures
        r@ == toward(reach, board.level(), board.occupancy(), color, cell, direction),
{
    proof {
        board.lemma_lookup(cell);
    }
    match reach {
        Reach::Slide => single_direction_moves(cell, color, direction, board),
        Reach::Leap => knight_toward_moves(board, cell, color, direction),
        Reach::Single => landing_moves(board, color, board.next(cell, direction)),
    }
}

/// The moves toward each direction of `rays` in clock order, concatenated.
pub fn gather_moves(board: &Board, cell: Cell, color: Color, reach: Reach, rays: Rays) -> (r: Vec<
    Move,
>)
    requires
        board.wf(),
        on_board(board.level(), cell),
    ensures
        r@ == gather(reach, board.level(), board.occupancy(), color, cell, directions(rays)),
{
    let ghost dirs = directions(rays);
    let count: u8 = match rays {
        Rays::All => 12,
        _ => 6,
    };
    let mut out: Vec<Move> = Vec::new();
    let mut i: u8 = 0;
    assert(dirs.take(0) =~= Seq::<Direction>::empty());
    while i < count
        invariant
            board.wf(),
            on_board(board.level(), cell),
            dirs == directions(rays),
            count as int == dirs.len(),
            i <= count,
            out@ == gather(reach, board.level(), board.occupancy(), color, cell, dirs.take(i as int)),
        decreases count - i,
    {
        let h: u8 = match rays {
            Rays::Straight => 2 * i + 2,
            Rays::Diagonal => 2 * i + 1,
            Rays::All => i + 1,
        };
        let d = Direction::from_hour(h);
        assert(d == dirs[i as int]);
        let mut part = toward_moves(board, cell, color, reach, d);
        out.append(&mut part);
        assert(dirs.take(i + 1).drop_last() =~= dirs.take(i as int));
        i = i + 1;
    }
    assert(dirs.take(count as int) =~= dirs);
    out
}

pub open spec fn rook_moves(level: int, occ: Seq<Option<Piece>>, color: Color, c: Cell) -> Seq<Move> {
    gather(Reach::Slide, level, occ, color, c, directions(Rays::Straight))
}

pub open spec fn bishop_moves(level: int, occ: Seq<Option<Piece>>, color: Color, c: Cell) -> Seq<
    Move,
> {
    gather(Reach::Slide, level, occ, color, c, directions(Rays::Diagonal))
}

pub open spec fn queen_moves(level: int, occ: Seq<Option<Piece>>, color: Color, c: Cell) -> Seq<
    Move,
> {
    gather(Reach::Slide, level, occ, color, c, directions(Rays::All))
}

pub open spec fn king_moves(level: int, occ: Seq<Option<Piece>>, color: Color, c: Cell) -> Seq<Move> {
    gather(Reach::Single, level, occ, color, c, directions(Rays::All))
}

pub open spec fn knight_moves(level: int, occ: Seq<Option<Piece>>, color: Color, c: Cell) -> Seq<
    Move,
> {
    gather(Reach::Leap, level, occ, color, c, directions(Rays::Straight))
}

impl Rook {
    /// Slides along the six edge directions.
    pub fn valid_moves(&self, board: &Board, current: Cell) -> (r: Vec<Move>)
        requires
            board.wf(),
            on_board(board.level(), current),
        ensures
            r@ == rook_moves(board.level(), board.occupancy(), self.color, current),
    {
        gather_moves(board, current, self.color, Reach::Slide, Rays::Straight)
    }
}

impl Bishop {
    /// Slides along the six diagonals.
    pub fn valid_moves(&self, board: &Board, current: Cell) -> (r: Vec<Move>)
        requires
            board.wf(),
            on_board(board.level(), current),
        ensures
            r@ == bishop_moves(board.level(), board.occupancy(), self.color, current),
    {
        gather_moves(board, current, self.color, Reach::Slide, Rays::Diagonal)
    }
}

impl Queen {
    /// Slides along all twelve directions.
    pub fn valid_moves(&self, board: &Board, current: Cell) -> (r: Vec<Move>)
        requires
            board.wf(),
            on_board(board.level(), current),
        ensures
            r@ == queen_moves(board.level(), board.occupancy(), self.color, current),
    {
        gather_moves(board, current, self.color, Reach::Slide, Rays::All)
    }
}

impl King {
    /// One step in any of the twelve directions.
    pub fn valid_moves(&self, board: &Board, current: Cell) -> (r: Vec<Move>)
        requires
            board.wf(),
            on_board(board.level(), current),
        ensures
            r@ == king_moves(board.level(), board.occupancy(), self.color, current),
    {
        gather_moves(board, current, self.color, Reach::Single, Rays::All)
    }
}

impl Knight {
    /// Two steps along an edge direction, then one step a sixth of a turn
    /// to either side.
    pub fn valid_moves(&self, board: &Board, current: Cell) -> (r: Vec<Move>)
        requires
            board.wf(),
            on_board(board.level(), current),
        ensures
            r@ == knight_moves(board.level(), board.occupancy(), self.color, current),
    {
        gather_moves(board, current, self.color, Reach::Leap, Rays::Straight)
    }
}

/// The direction in which pawns of `color` advance.
pub open spec fn forward(color: Color) -> Direction {
    match color {
        Color::White => Direction::Clock12,
        Color::Black => Direction::Clock6,
    }
}

/// The starting cells of the pawns: for white a chevron pointing up from
/// B1 and K1 to F5, for black the row B7 to K7.
pub open spec fn pawn_start(color: Color, c: Cell) -> bool {
    let x = c.hex_x();
    let r = c.rank.index();
    abs(x) <= 4 && match color {
        Color::White => r == 4 - abs(x),
        Color::Black => r == 6,
    }
}

/// The cells where pawns are promoted: the far edge of the full board, the
/// upper rim for white and the first rank for black.
pub open spec fn promotion_cell(color: Color, c: Cell) -> bool {
    match color {
        Color::White => c.rank.index() + abs(c.hex_x()) == 10,
        Color::Black => c.rank.index() == 0,
    }
}

pub open spec fn advance_move(color: Color, t: Cell) -> Move {
    Move {
        move_to: t,
        move_type: MoveType::Pawn(
            if promotion_cell(color, t) {
                PawnMoveType::NonCapturePromotion
            } else {
                PawnMoveType::NonCapture
            },
        ),
    }
}

/// Up to `n` forward steps onto empty cells; the first occupied cell stops
/// the advance and is not entered.
pub open spec fn pawn_advance(
    level: int,
    occ: Seq<Option<Piece>>,
    color: Color,
    c: Cell,
    n: nat,
) -> Seq<Move>
    decreases n,
{
    if n == 0 {
        Seq::empty()
    } else {
        match step(level, c, forward(color)) {
            None => Seq::empty(),
            Some(t) => if occupant_of(level, occ, t) is Some {
                Seq::empty()
            } else {
                seq![advance_move(color, t)].add(pawn_advance(level, occ, color, t, (n - 1) as nat))
            },
        }
    }
}

/// The diagonal move toward `side`: a capture of an enemy piece standing
/// there, or, onto an empty cell, an en passant capture of the enemy pawn
/// just behind it if that pawn has only now made a double step.
pub open spec fn pawn_capture(
    level: int,
    occ: Seq<Option<Piece>>,
    color: Color,
    c: Cell,
    side: Direction,
) -> Seq<Move> {
    match step(level, c, side) {
        None => Seq::empty(),
        Some(t) => match occupant_of(level, occ, t) {
            Some(p) => if p.color_of() != color {
                seq![
                    Move {
                        move_to: t,
                        move_type: MoveType::Pawn(
                            if promotion_cell(color, t) {
                                PawnMoveType::CapturePromotion
                            } else {
                                PawnMoveType::NormalCapture
                            },
                        ),
                    },
                ]
            } else {
                Seq::empty()
            },
            None => match step(level, t, forward(color).reversed()) {
                Some(e) => match occupant_of(level, occ, e) {
                    Some(Piece::Pawn(q)) => if q.color != color && q.is_en_passant_able() {
                        seq![
                            Move {
                                move_to: t,
                                move_type: MoveType::Pawn(
                                    PawnMoveType::EnPassant { remove_piece_on: e },
                                ),
                            },
                        ]
                    } else {
                        Seq::empty()
                    },
                    _ => Seq::empty(),
                },
                None => Seq::empty(),
            },
        },
    }
}

/// A pawn's moves: its advance, two cells from a starting cell and one
/// otherwise, then its captures turned a sixth clockwise and counter-clockwise
/// from the forward direction.
pub open spec fn pawn_moves(level: int, occ: Seq<Option<Piece>>, pawn: Pawn, c: Cell) -> Seq<Move> {
    let f = forward(pawn.color);
    pawn_advance(level, occ, pawn.color, c, if pawn_start(pawn.color, c) {
        2
    } else {
        1
    }).add(pawn_capture(level, occ, pawn.color, c, f.clockwise())).add(
        pawn_capture(level, occ, pawn.color, c, f.counter_clockwise()),
    )
}

/// Whether `cell` is one of the starting cells of `color`'s pawns, from
/// which a pawn may advance two cells.
pub fn is_pawn_start(color: Color, cell: Cell) -> (r: bool)
    ensures
        r == pawn_start(color, cell),
{
    match color {
        Color::White => match (cell.file, cell.rank) {
            (File::FileB, Rank::Rank1) => true,
            (File::FileC, Rank::Rank2) => true,
            (File::FileD, Rank::Rank3) => true,
            (File::FileE, Rank::Rank4) => true,
            (File::FileF, Rank::Rank5) => true,
            (File::FileG, Rank::Rank4) => true,
            (File::FileH, Rank::Rank3) => true,
            (File::FileI, Rank::Rank2) => true,
            (File::FileK, Rank::Rank1) => true,
            _ => false,
        },
        Color::Black => match (cell.file, cell.rank) {
            (File::FileB, Rank::Rank7) => true,
            (File::FileC, Rank::Rank7) => true,
            (File::FileD, Rank::Rank7) => true,
            (File::FileE, Rank::Rank7) => true,
            (File::FileF, Rank::Rank7) => true,
            (File::FileG, Rank::Rank7) => true,
            (File::FileH, Rank::Rank7) => true,
            (File::FileI, Rank::Rank7) => true,
            (File::FileK, Rank::Rank7) => true,
            _ => false,
        },
    }
}

/// Whether a `color` pawn reaching `cell` is promoted.
pub fn is_promotion_cell(color: Color, cell: Cell) -> (r: bool)
    requires
        cell.is_valid(),
    ensures
        r == promotion_cell(color, cell),
{
    match color {
        Color::White => match (cell.file, cell.rank) {
            (File::FileA, Rank::Rank6) => true,
            (File::FileB, Rank::Rank7) => true,
            (File::FileC, Rank::Rank8) => true,
            (File::FileD, Rank::Rank9) => true,
            (File::FileE, Rank::Rank10) => true,
            (File::FileF, Rank::Rank11) => true,
            (File::FileG, Rank::Rank10) => true,
            (File::FileH, Rank::Rank9) => true,
            (File::FileI, Rank::Rank8) => true,
            (File::FileK, Rank::Rank7) => true,
            (File::FileL, Rank::Rank6) => true,
            _ => false,
        },
        Color::Black => match cell.rank {
            Rank::Rank1 => true,
            _ => false,
        },
    }
}

/// The diagonal move of a `color` pawn on `cell` toward `side`.
fn pawn_capture_moves(board: &Board, color: Color, cell: Cell, side: Direction) -> (r: Vec<Move>)
    requires
        board.wf(),
        on_board(board.level(), cell),
    ensures
        r@ == pawn_capture(board.level(), board.occupancy(), color, cell, side),
{
    proof {
        board.lemma_lookup(cell);
    }
    let mut out: Vec<Move> = Vec::new();
    let t = match board.next(cell, side) {
        Some(t) => t,
        None => return out,
    };
    proof {
        lemma_step_progress(board.level(), cell, side);
    }
    match board.occupant(t) {
        Some(p) => {
            if !p.color().is_same(&color) {
                let kind = if is_promotion_cell(color, t) {
                    PawnMoveType::CapturePromotion
                } else {
                    PawnMoveType::NormalCapture
                };
                out.push(Move::new(t, MoveType::Pawn(kind)));
            }
        },
        None => {
            let back = match color {
                Color::White => Direction::Clock12,
                Color::Black => Direction::Clock6,
            }.reverse();
            if let Some(e) = board.next(t, back) {
                if let Some(Piece::Pawn(q)) = board.occupant(e) {
                    if !q.color.is_same(&color) && q.en_passant_able() {
                        out.push(
                            Move::new(
                                t,
                                MoveType::Pawn(PawnMoveType::EnPassant { remove_piece_on: e }),
                            ),
                        );
                    }
                }
            }
        },
    }
    assert(out@ =~= pawn_capture(board.level(), board.occupancy(), color, cell, side));
    out
}

impl Pawn {
    pub fn valid_moves(&self, board: &Board, current: Cell) -> (r: Vec<Move>)
        requires
            board.wf(),
            on_board(board.level(), current),
        ensures
            r@ == pawn_moves(board.level(), board.occupancy(), *self, current),
    {
        let ghost level = board.level();
        let ghost occ = board.occupancy();
        let color = self.color;
        let forward = match color {
            Color::White => Direction::Clock12,
            Color::Black => Direction::Clock6,
        };
        let steps: u8 = if is_pawn_start(color, current) {
            2
        } else {
            1
        };
        let mut out: Vec<Move> = Vec::new();
        let mut cur = current;
        let mut left: u8 = steps;
        proof {
            board.lemma_lookup(current);
        }
        loop
            invariant_except_break
                out@ + pawn_advance(level, occ, color, cur, left as nat) == pawn_advance(
                    level,
                    occ,
                    color,
                    current,
                    steps as nat,
                ),
            invariant
                board.wf(),
                level == board.level(),
                occ == board.occupancy(),
                forward == crate::movegen::forward(color),
                on_board(level, cur),
                cur.is_valid(),
                left <= 2,
            ensures
                out@ == pawn_advance(level, occ, color, current, steps as nat),
            decreases left,
        {
            if left == 0 {
                assert(out@ + pawn_advance(level, occ, color, cur, left as nat) =~= out@);
                break ;
            }
            match board.next(cur, forward) {
                None => {
                    assert(out@ + pawn_advance(level, occ, color, cur, left as nat) =~= out@);
                    break ;
                },
                Some(t) => {
                    proof {
                        lemma_step_progress(level, cur, forward);
                    }
                    if board.occupant(t).is_some() {
                        assert(out@ + pawn_advance(level, occ, color, cur, left as nat) =~= out@);
                        break ;
                    }
                    let kind = if is_promotion_cell(color, t) {
                        PawnMoveType::NonCapturePromotion
                    } else {
                        PawnMoveType::NonCapture
                    };
                    let ghost before = out@;
                    out.push(Move::new(t, MoveType::Pawn(kind)));
                    assert(before + pawn_advance(level, occ, color, cur, left as nat) =~= out@
                        + pawn_advance(level, occ, color, t, (left - 1) as nat));
                    cur = t;
                    left = left - 1;
                },
            }
        }
        let mut right = pawn_capture_moves(board, color, current, forward.turn_clockwise());
        let mut left_side = pawn_capture_moves(
            board,
            color,
            current,
            forward.turn_counter_clockwise(),
        );
        out.append(&mut right);
        out.append(&mut left_side);
        out
    }
}

/// The moves of `piece` standing on `c`.
pub open spec fn piece_moves(level: int, occ: Seq<Option<Piece>>, piece: Piece, c: Cell) -> Seq<
    Move,
> {
    match piece {
        Piece::Pawn(p) => pawn_moves(level, occ, p, c),
        Piece::Knight(p) => knight_moves(level, occ, p.color, c),
        Piece::Bishop(p) => bishop_moves(level, occ, p.color, c),
        Piece::Rook(p) => rook_moves(level, occ, p.color, c),
        Piece::Queen(p) => queen_moves(level, occ, p.color, c),
        Piece::King(p) => king_moves(level, occ, p.color, c),
    }
}

impl Piece {
    /// The destinations this piece can reach from `current`.
    pub fn valid_moves(&self, board: &Board, current: Cell) -> (r: Vec<Move>)
        requires
            board.wf(),
            on_board(board.level(), current),
        ensures
            r@ == piece_moves(board.level(), board.occupancy(), *self, current),
    {
        match self {
            Piece::Pawn(p) => p.valid_moves(board, current),
            Piece::Knight(p) => p.valid_moves(board, current),
            Piece::Bishop(p) => p.valid_moves(board, current),
            Piece::Rook(p) => p.valid_moves(board, current),
            Piece::Queen(p) => p.valid_moves(board, current),
            Piece::King(p) => p.valid_moves(board, current),
        }
    }
}

/// Whether a move lands in play, and, for en passant, takes a pawn in play.
pub open spec fn in_play(level: int, m: Move) -> bool {
    &&& on_board(level, m.move_to)
    &&& (m.move_type matches MoveType::Pawn(PawnMoveType::EnPassant { remove_piece_on: e })
        ==> on_board(level, e))
}

pub open spec fn all_in_play(level: int, moves: Seq<Move>) -> bool {
    forall|i: int| 0 <= i < moves.len() ==> in_play(level, #[trigger] moves[i])
}

proof fn lemma_ray_in_play(level: int, occ: Seq<Option<Piece>>, color: Color, c: Cell, d: Direction)
    ensures
        all_in_play(level, ray(level, occ, color, c, d)),
    decreases 36 - progress(c, d),
{
    if let Some(t) = step(level, c, d) {
        lemma_step_progress(level, c, d);
        lemma_ray_in_play(level, occ, color, t, d);
        let rest = ray(level, occ, color, t, d);
        let here = seq![Move { move_to: t, move_type: MoveType::Rest(RestMoveType::NonCapture) }];
        assert forall|i: int| 0 <= i < here.add(rest).len() implies in_play(
            level,
            #[trigger] here.add(rest)[i],
        ) by {
            if i > 0 {
                assert(here.add(rest)[i] == rest[i - 1]);
            }
        }
    }
}

proof fn lemma_gather_in_play(
    reach: Reach,
    level: int,
    occ: Seq<Option<Piece>>,
    color: Color,
    c: Cell,
    dirs: Seq<Direction>,
)
    ensures
        all_in_play(level, gather(reach, level, occ, color, c, dirs)),
    decreases dirs.len(),
{
    if dirs.len() > 0 {
        lemma_gather_in_play(reach, level, occ, color, c, dirs.drop_last());
        let d = dirs.last();
        match reach {
            Reach::Slide => lemma_ray_in_play(level, occ, color, c, d),
            _ => {},
        }
        let a = gather(reach, level, occ, color, c, dirs.drop_last());
        let b = toward(reach, level, occ, color, c, d);
        assert(all_in_play(level, b)) by {
            if reach == Reach::Leap {
                if let Some(x) = step(level, c, d) {
                    if let Some(y) = step(level, x, d) {
                        let p = landing_opt(level, occ, color, step(level, y, d.clockwise()));
                        let q = landing_opt(level, occ, color, step(level, y, d.counter_clockwise()));
                        assert forall|i: int| 0 <= i < p.add(q).len() implies in_play(
                            level,
                            #[trigger] p.add(q)[i],
                        ) by {
                            if i >= p.len() {
                                assert(p.add(q)[i] == q[i - p.len()]);
                            }
                        }
                    }
                }
            }
        }
        assert forall|i: int| 0 <= i < a.add(b).len() implies in_play(
            level,
            #[trigger] a.add(b)[i],
        ) by {
            if i >= a.len() {
                assert(a.add(b)[i] == b[i - a.len()]);
            }
        }
    }
}

proof fn lemma_advance_in_play(level: int, occ: Seq<Option<Piece>>, color: Color, c: Cell, n: nat)
    ensures
        all_in_play(level, pawn_advance(level, occ, color, c, n)),
    decreases n,
{
    if n > 0 {
        if let Some(t) = step(level, c, forward(color)) {
            lemma_advance_in_play(level, occ, color, t, (n - 1) as nat);
            let here = seq![advance_move(color, t)];
            let rest = pawn_advance(level, occ, color, t, (n - 1) as nat);
            assert forall|i: int| 0 <= i < here.add(rest).len() implies in_play(
                level,
                #[trigger] here.add(rest)[i],
            ) by {
                if i > 0 {
                    assert(here.add(rest)[i] == rest[i - 1]);
                }
            }
        }
    }
}

/// Every move a piece is offered lands in play, and an en passant capture
/// takes a pawn in play.
pub proof fn lemma_moves_in_play(level: int, occ: Seq<Option<Piece>>, piece: Piece, c: Cell)
    ensures
        all_in_play(level, piece_moves(level, occ, piece, c)),
{
    match piece {
        Piece::Pawn(p) => {
            let f = forward(p.color);
            let a = pawn_advance(level, occ, p.color, c, if pawn_start(p.color, c) {
                2
            } else {
                1
            });
            let b = pawn_capture(level, occ, p.color, c, f.clockwise());
            let d = pawn_capture(level, occ, p.color, c, f.counter_clockwise());
            lemma_advance_in_play(level, occ, p.color, c, if pawn_start(p.color, c) {
                2
            } else {
                1
            });
            assert forall|i: int| 0 <= i < a.add(b).add(d).len() implies in_play(
                level,
                #[trigger] a.add(b).add(d)[i],
            ) by {
                if i >= a.len() + b.len() {
                    assert(a.add(b).add(d)[i] == d[i - a.len() - b.len()]);
                } else if i >= a.len() {
                    assert(a.add(b).add(d)[i] == b[i - a.len()]);
                } else {
                    assert(a.add(b).add(d)[i] == a[i]);
                }
            }
        },
        Piece::Knight(p) => lemma_gather_in_play(
            Reach::Leap,
            level,
            occ,
            p.color,
            c,
            directions(Rays::Straight),
        ),
        Piece::Bishop(p) => lemma_gather_in_play(
            Reach::Slide,
            level,
            occ,
            p.color,
            c,
            directions(Rays::Diagonal),
        ),
        Piece::Rook(p) => lemma_gather_in_play(
            Reach::Slide,
            level,
            occ,
            p.color,
            c,
            directions(Rays::Straight),
        ),
        Piece::Queen(p) => lemma_gather_in_play(
            Reach::Slide,
            level,
            occ,
            p.color,
            c,
            directions(Rays::All),
        ),
        Piece::King(p) => lemma_gather_in_play(
            Reach::Single,
            level,
            occ,
            p.color,
            c,
            directions(Rays::All),
        ),
    }
}

/// A piece two cells along a ray blocks it: the ray holds the empty cell
/// before the piece, then the piece's cell if it is an enemy, and nothing
/// beyond.
pub proof fn lemma_ray_blocked(
    level: int,
    occ: Seq<Option<Piece>>,
    color: Color,
    c: Cell,
    d: Direction,
    a: Cell,
    b: Cell,
    blocker: Piece,
)
    requires
        step(level, c, d) == Some(a),
        occupant_of(level, occ, a) is None,
        step(level, a, d) == Some(b),
        occupant_of(level, occ, b) == Some(blocker),
    ensures
        ray(level, occ, color, c, d) == seq![
            Move { move_to: a, move_type: MoveType::Rest(RestMoveType::NonCapture) },
        ].add(
            if blocker.color_of() != color {
                seq![Move { move_to: b, move_type: MoveType::Rest(RestMoveType::Capture) }]
            } else {
                Seq::empty()
            },
        ),
{
    assert(ray(level, occ, color, a, d) == if blocker.color_of() != color {
        seq![Move { move_to: b, move_type: MoveType::Rest(RestMoveType::Capture) }]
    } else {
        Seq::<Move>::empty()
    });
}

/// On an empty board every move of a ray is a quiet move.
pub proof fn lemma_ray_on_empty_board(
    level: int,
    occ: Seq<Option<Piece>>,
    color: Color,
    c: Cell,
    d: Direction,
)
    requires
        forall|i: int| 0 <= i < occ.len() ==> (#[trigger] occ[i]) is None,
        1 <= level <= 6,
        occ.len() == crate::board::cell_count(level - 1),
    ensures
        forall|i: int|
            0 <= i < ray(level, occ, color, c, d).len() ==> (#[trigger] ray(
                level,
                occ,
                color,
                c,
                d,
            )[i]).move_type == MoveType::Rest(RestMoveType::NonCapture),
    decreases 36 - progress(c, d),
{
    reveal(quiet_to_rim);
    if let Some(t) = step(level, c, d) {
        lemma_step_progress(level, c, d);
        crate::board::lemma_slot_bounds(level, t);
        lemma_ray_on_empty_board(level, occ, color, t, d);
        let rest = ray(level, occ, color, t, d);
        assert forall|i: int| 0 <= i < ray(level, occ, color, c, d).len() implies (#[trigger] ray(
            level,
            occ,
            color,
            c,
            d,
        )[i]).move_type == MoveType::Rest(RestMoveType::NonCapture) by {
            if i > 0 {
                assert(ray(level, occ, color, c, d)[i] == rest[i - 1]);
            }
        }
    }
}

/// The step from `c` in direction `d`, kept only where it lands in play;
/// named apart so that statements about whole walks stay readable.
#[verifier::opaque]
pub open spec fn next_in_play(level: int, c: Cell, d: Direction) -> Option<Cell> {
    step(level, c, d)
}

/// Whether `moves` walk one cell at a time along `d` from `c`, every move
/// quiet, up to a cell with no further step in play.
#[verifier::opaque]
pub open spec fn quiet_to_rim(level: int, c: Cell, d: Direction, moves: Seq<Move>) -> bool {
    &&& forall|i: int|
        0 <= i < moves.len() ==> (#[trigger] moves[i]).move_type == MoveType::Rest(
            RestMoveType::NonCapture,
        )
    &&& moves.len() == 0 ==> next_in_play(level, c, d) is None
    &&& moves.len() > 0 ==> next_in_play(level, c, d) == Some(moves[0].move_to)
    &&& forall|i: int|
        0 <= i < moves.len() - 1 ==> #[trigger] next_in_play(level, moves[i].move_to, d) == Some(
            moves[i + 1].move_to,
        )
    &&& moves.len() > 0 ==> next_in_play(level, moves.last().move_to, d) is None
}

proof fn lemma_ray_alone_from(
    level: int,
    occ: Seq<Option<Piece>>,
    color: Color,
    origin: Cell,
    c: Cell,
    d: Direction,
)
    requires
        1 <= level <= 6,
        occ.len() == crate::board::cell_count(level - 1),
        on_board(level, origin),
        progress(origin, d) <= progress(c, d),
        forall|i: int| 0 <= i < occ.len() && i != slot(level, origin) ==> (#[trigger] occ[i]) is None,
    ensures
        quiet_to_rim(level, c, d, ray(level, occ, color, c, d)),
    decreases 36 - progress(c, d),
{
    match step(level, c, d) {
        None => {
            assert(ray(level, occ, color, c, d) =~= Seq::<Move>::empty());
            reveal(quiet_to_rim);
            reveal(next_in_play);
        },
        Some(t) => {
            lemma_step_progress(level, c, d);
            assert(occupant_of(level, occ, t) is None) by {
                crate::board::lemma_slot_bounds(level, t);
                if slot(level, t) == slot(level, origin) {
                    crate::board::lemma_slot_injective(level, t, origin);
                }
            }
            lemma_ray_alone_from(level, occ, color, origin, t, d);
            let rest = ray(level, occ, color, t, d);
            let here = seq![Move { move_to: t, move_type: MoveType::Rest(RestMoveType::NonCapture) }];
            let all = ray(level, occ, color, c, d);
            assert(all == here.add(rest));
            assert(next_in_play(level, c, d) == Some(t)) by {
                reveal(next_in_play);
            }
            lemma_quiet_prepend(level, c, d, t, rest);
        },
    }
}

proof fn lemma_quiet_prepend(level: int, c: Cell, d: Direction, t: Cell, rest: Seq<Move>)
    requires
        next_in_play(level, c, d) == Some(t),
        quiet_to_rim(level, t, d, rest),
    ensures
        quiet_to_rim(
            level,
            c,
            d,
            seq![Move { move_to: t, move_type: MoveType::Rest(RestMoveType::NonCapture) }].add(rest),
        ),
{
    reveal(quiet_to_rim);
    let here = seq![Move { move_to: t, move_type: MoveType::Rest(RestMoveType::NonCapture) }];
    let all = here.add(rest);
    assert forall|i: int| 0 <= i < all.len() implies (#[trigger] all[i]).move_type
        == MoveType::Rest(RestMoveType::NonCapture) by {
        if i > 0 {
            assert(all[i] == rest[i - 1]);
        }
    }
    assert forall|i: int| 0 <= i < all.len() - 1 implies #[trigger] next_in_play(
        level,
        all[i].move_to,
        d,
    ) == Some(all[i + 1].move_to) by {
        if i > 0 {
            assert(all[i] == rest[i - 1]);
            assert(all[i + 1] == rest[i]);
        } else {
            assert(all[1] == rest[0]);
        }
    }
    if rest.len() > 0 {
        assert(all.last() == rest.last());
    }
}

/// A piece alone on the board slides to the rim: along each direction its
/// ray is every cell in turn, one step at a time, all quiet moves, up to the
/// last cell before the edge.
pub proof fn lemma_ray_alone(level: int, occ: Seq<Option<Piece>>, color: Color, c: Cell, d: Direction)
    requires
        1 <= level <= 6,
        occ.len() == crate::board::cell_count(level - 1),
        on_board(level, c),
        forall|i: int| 0 <= i < occ.len() && i != slot(level, c) ==> (#[trigger] occ[i]) is None,
    ensures
        quiet_to_rim(level, c, d, ray(level, occ, color, c, d)),
{
    lemma_ray_alone_from(level, occ, color, c, c, d);
}

/// En passant is gated by the enemy pawn's window alone: with an empty
/// diagonal cell `t` and an enemy pawn just behind it, the diagonal move is
/// the en passant capture while that pawn's window is open, and nothing once
/// it has closed.
pub proof fn lemma_en_passant_gate(
    level: int,
    occ: Seq<Option<Piece>>,
    color: Color,
    c: Cell,
    side: Direction,
    t: Cell,
    e: Cell,
    q: Pawn,
)
    requires
        step(level, c, side) == Some(t),
        occupant_of(level, occ, t) is None,
        step(level, t, forward(color).reversed()) == Some(e),
        occupant_of(level, occ, e) == Some(Piece::Pawn(q)),
        q.color != color,
    ensures
        pawn_capture(level, occ, color, c, side) == if q.is_en_passant_able() {
            seq![
                Move {
                    move_to: t,
                    move_type: MoveType::Pawn(PawnMoveType::EnPassant { remove_piece_on: e }),
                },
            ]
        } else {
            Seq::<Move>::empty()
        },
{
}

/// Whether a pawn move's kind agrees with its destination: onto a
/// promotion cell a quiet move or a capture always promotes, elsewhere it
/// never does.
pub open spec fn promotes_correctly(color: Color, m: Move) -> bool {
    match m.move_type {
        MoveType::Pawn(PawnMoveType::NonCapture) => !promotion_cell(color, m.move_to),
        MoveType::Pawn(PawnMoveType::NormalCapture) => !promotion_cell(color, m.move_to),
        MoveType::Pawn(PawnMoveType::NonCapturePromotion) => promotion_cell(color, m.move_to),
        MoveType::Pawn(PawnMoveType::CapturePromotion) => promotion_cell(color, m.move_to),
        MoveType::Pawn(PawnMoveType::EnPassant { .. }) => true,
        MoveType::Rest(_) => false,
    }
}

/// An en passant move takes an enemy pawn whose window is open.
pub open spec fn en_passant_allowed(level: int, occ: Seq<Option<Piece>>, color: Color, m: Move) -> bool {
    m.move_type matches MoveType::Pawn(PawnMoveType::EnPassant { remove_piece_on: e }) ==> (
    occupant_of(level, occ, e) matches Some(Piece::Pawn(q)) && q.color != color
        && q.is_en_passant_able())
}

proof fn lemma_advance_kinds(level: int, occ: Seq<Option<Piece>>, color: Color, c: Cell, n: nat)
    ensures
        forall|i: int|
            0 <= i < pawn_advance(level, occ, color, c, n).len() ==> {
                &&& promotes_correctly(color, #[trigger] pawn_advance(level, occ, color, c, n)[i])
                &&& en_passant_allowed(level, occ, color, pawn_advance(level, occ, color, c, n)[i])
            },
    decreases n,
{
    if n > 0 {
        if let Some(t) = step(level, c, forward(color)) {
            lemma_advance_kinds(level, occ, color, t, (n - 1) as nat);
            let here = seq![advance_move(color, t)];
            let rest = pawn_advance(level, occ, color, t, (n - 1) as nat);
            assert forall|i: int| 0 <= i < here.add(rest).len() implies {
                &&& promotes_correctly(color, #[trigger] here.add(rest)[i])
                &&& en_passant_allowed(level, occ, color, here.add(rest)[i])
            } by {
                if i > 0 {
                    assert(here.add(rest)[i] == rest[i - 1]);
                }
            }
        }
    }
}

/// A pawn's moves onto promotion cells always promote and no other move
/// does; and an en passant capture is offered only against an enemy pawn
/// whose window is open, so once that window closes the capture is gone.
pub proof fn lemma_pawn_move_kinds(level: int, occ: Seq<Option<Piece>>, pawn: Pawn, c: Cell)
    ensures
        forall|i: int|
            0 <= i < pawn_moves(level, occ, pawn, c).len() ==> {
                &&& promotes_correctly(pawn.color, #[trigger] pawn_moves(level, occ, pawn, c)[i])
                &&& en_passant_allowed(level, occ, pawn.color, pawn_moves(level, occ, pawn, c)[i])
            },
{
    let f = forward(pawn.color);
    let n: nat = if pawn_start(pawn.color, c) {
        2
    } else {
        1
    };
    let a = pawn_advance(level, occ, pawn.color, c, n);
    let b = pawn_capture(level, occ, pawn.color, c, f.clockwise());
    let d = pawn_capture(level, occ, pawn.color, c, f.counter_clockwise());
    lemma_advance_kinds(level, occ, pawn.color, c, n);
    assert forall|i: int| 0 <= i < a.add(b).add(d).len() implies {
        &&& promotes_correctly(pawn.color, #[trigger] a.add(b).add(d)[i])
        &&& en_passant_allowed(level, occ, pawn.color, a.add(b).add(d)[i])
    } by {
        if i >= a.len() + b.len() {
            assert(a.add(b).add(d)[i] == d[i - a.len() - b.len()]);
        } else if i >= a.len() {
            assert(a.add(b).add(d)[i] == b[i - a.len()]);
        } else {
            assert(a.add(b).add(d)[i] == a[i]);
        }
    }
}

} // verus!
