//! The twelve clock-face directions of the hexagonal board.
use vstd::prelude::*;

verus! {

/// A direction on the board, named after the hour hand of a clock.
/// Even hours step to an edge-adjacent hex; odd hours step diagonally,
/// between two edge neighbours.
#[derive(Clone, Copy, Debug, PartialEq, Eq, Structural)]
pub enum Direction {
    Clock1,
    Clock2,
    Clock3,
    Clock4,
    Clock5,
    Clock6,
    Clock7,
    Clock8,
    Clock9,
    Clock10,
    Clock11,
    Clock12,
}

/// The direction whose hour is `h`, for `1 <= h <= 12`.
pub open spec fn from_hour(h: int) -> Direction {
    if h == 1 {
        Direction::Clock1
    } else if h == 2 {
        Direction::Clock2
    } else if h == 3 {
        Direction::Clock3
    } else if h == 4 {
        Direction::Clock4
    } else if h == 5 {
        Direction::Clock5
    } else if h == 6 {
        Direction::Clock6
    } else if h == 7 {
        Direction::Clock7
    } else if h == 8 {
        Direction::Clock8
    } else if h == 9 {
        Direction::Clock9
    } else if h == 10 {
        Direction::Clock10
    } else if h == 11 {
        Direction::Clock11
    } else {
        Direction::Clock12
    }
}

impl Direction {
    /// The hour on the clock face, from 1 to 12.
    pub open spec fn hour(self) -> int {
        match self {
            Direction::Clock1 => 1,
            Direction::Clock2 => 2,
            Direction::Clock3 => 3,
            Direction::Clock4 => 4,
            Direction::Clock5 => 5,
            Direction::Clock6 => 6,
            Direction::Clock7 => 7,
            Direction::Clock8 => 8,
            Direction::Clock9 => 9,
            Direction::Clock10 => 10,
            Direction::Clock11 => 11,
            Direction::Clock12 => 12,
        }
    }

    /// Even hours are the six edge neighbours.
    pub open spec fn is_straight(self) -> bool {
        self.hour() % 2 == 0
    }

    /// Half a turn: the hour advanced by six, modulo twelve.
    pub open spec fn reversed(self) -> Direction {
        match self {
            Direction::Clock1 => Direction::Clock7,
            Direction::Clock2 => Direction::Clock8,
            Direction::Clock3 => Direction::Clock9,
            Direction::Clock4 => Direction::Clock10,
            Direction::Clock5 => Direction::Clock11,
            Direction::Clock6 => Direction::Clock12,
            Direction::Clock7 => Direction::Clock1,
            Direction::Clock8 => Direction::Clock2,
            Direction::Clock9 => Direction::Clock3,
            Direction::Clock10 => Direction::Clock4,
            Direction::Clock11 => Direction::Clock5,
            Direction::Clock12 => Direction::Clock6,
        }
    }

    /// A sixth of a turn clockwise: the hour advanced by two, modulo twelve.
    pub open spec fn clockwise(self) -> Direction {
        match self {
            Direction::Clock1 => Direction::Clock3,
            Direction::Clock2 => Direction::Clock4,
            Direction::Clock3 => Direction::Clock5,
            Direction::Clock4 => Direction::Clock6,
            Direction::Clock5 => Direction::Clock7,
            Direction::Clock6 => Direction::Clock8,
            Direction::Clock7 => Direction::Clock9,
            Direction::Clock8 => Direction::Clock10,
            Direction::Clock9 => Direction::Clock11,
            Direction::Clock10 => Direction::Clock12,
            Direction::Clock11 => Direction::Clock1,
            Direction::Clock12 => Direction::Clock2,
        }
    }

    /// A sixth of a turn counter-clockwise: the hour moved back by two, modulo twelve.
    pub open spec fn counter_clockwise(self) -> Direction {
        match self {
            Direction::Clock1 => Direction::Clock11,
            Direction::Clock2 => Direction::Clock12,
            Direction::Clock3 => Direction::Clock1,
            Direction::Clock4 => Direction::Clock2,
            Direction::Clock5 => Direction::Clock3,
            Direction::Clock6 => Direction::Clock4,
            Direction::Clock7 => Direction::Clock5,
            Direction::Clock8 => Direction::Clock6,
            Direction::Clock9 => Direction::Clock7,
            Direction::Clock10 => Direction::Clock8,
            Direction::Clock11 => Direction::Clock9,
            Direction::Clock12 => Direction::Clock10,
        }
    }

    pub fn reverse(&self) -> (r: Direction)
        ensures
            r == self.reversed(),
    {
        match self {
            Direction::Clock1 => Direction::Clock7,
            Direction::Clock3 => Direction::Clock9,
            Direction::Clock5 => Direction::Clock11,
            Direction::Clock7 => Direction::Clock1,
            Direction::Clock9 => Direction::Clock3,
            Direction::Clock11 => Direction::Clock5,
            Direction::Clock2 => Direction::Clock8,
            Direction::Clock4 => Direction::Clock10,
            Direction::Clock6 => Direction::Clock12,
            Direction::Clock8 => Direction::Clock2,
            Direction::Clock10 => Direction::Clock4,
            Direction::Clock12 => Direction::Clock6,
        }
    }

    pub fn turn_clockwise(&self) -> (r: Direction)
        ensures
            r == self.clockwise(),
    {
        match self {
            Direction::Clock1 => Direction::Clock3,
            Direction::Clock3 => Direction::Clock5,
            Direction::Clock5 => Direction::Clock7,
            Direction::Clock7 => Direction::Clock9,
            Direction::Clock9 => Direction::Clock11,
            Direction::Clock11 => Direction::Clock1,
            Direction::Clock2 => Direction::Clock4,
            Direction::Clock4 => Direction::Clock6,
            Direction::Clock6 => Direction::Clock8,
            Direction::Clock8 => Direction::Clock10,
            Direction::Clock10 => Direction::Clock12,
            Direction::Clock12 => Direction::Clock2,
        }
    }

    pub fn turn_counter_clockwise(&self) -> (r: Direction)
        ensures
            r == self.counter_clockwise(),
    {
        match self {
            Direction::Clock1 => Direction::Clock11,
            Direction::Clock3 => Direction::Clock1,
            Direction::Clock5 => Direction::Clock3,
            Direction::Clock7 => Direction::Clock5,
            Direction::Clock9 => Direction::Clock7,
            Direction::Clock11 => Direction::Clock9,
            Direction::Clock2 => Direction::Clock12,
            Direction::Clock4 => Direction::Clock2,
            Direction::Clock6 => Direction::Clock4,
            Direction::Clock8 => Direction::Clock6,
            Direction::Clock10 => Direction::Clock8,
            Direction::Clock12 => Direction::Clock10,
        }
    }
}

/// The turns and the reversal, read as arithmetic on hours.
pub proof fn lemma_turn_hours(d: Direction)
    ensures
        1 <= d.hour() <= 12,
        from_hour(d.hour()) == d,
        d.clockwise().hour() == (d.hour() + 1) % 12 + 1,
        d.counter_clockwise().hour() == (d.hour() + 9) % 12 + 1,
        d.reversed().hour() == (d.hour() + 5) % 12 + 1,
{
    match d {
        Direction::Clock1 => {},
        Direction::Clock2 => {},
        Direction::Clock3 => {},
        Direction::Clock4 => {},
        Direction::Clock5 => {},
        Direction::Clock6 => {},
        Direction::Clock7 => {},
        Direction::Clock8 => {},
        Direction::Clock9 => {},
        Direction::Clock10 => {},
        Direction::Clock11 => {},
        Direction::Clock12 => {},
    }
}

/// Six sixth-turns in either sense bring every direction back to itself,
/// a turn keeps the parity of the hour, and the two senses undo each other.
pub proof fn lemma_rotation_closure(d: Direction)
    ensures
        d.clockwise().clockwise().clockwise().clockwise().clockwise().clockwise() == d,
        d.counter_clockwise().counter_clockwise().counter_clockwise().counter_clockwise().counter_clockwise().counter_clockwise()
            == d,
        d.clockwise().is_straight() == d.is_straight(),
        d.counter_clockwise().is_straight() == d.is_straight(),
        d.clockwise().counter_clockwise() == d,
        d.reversed().reversed() == d,
{
    match d {
        Direction::Clock1 => {},
        Direction::Clock2 => {},
        Direction::Clock3 => {},
        Direction::Clock4 => {},
        Direction::Clock5 => {},
        Direction::Clock6 => {},
        Direction::Clock7 => {},
        Direction::Clock8 => {},
        Direction::Clock9 => {},
        Direction::Clock10 => {},
        Direction::Clock11 => {},
        Direction::Clock12 => {},
    }
}

} // verus!
