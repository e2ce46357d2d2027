//! Cells of the grid, headings and relative turns.

use vstd::math::abs;
use vstd::prelude::*;

verus! {

/// A cell of the grid. `x` grows to the east, `y` grows to the south.
#[derive(Hash, PartialEq, Eq, Structural, Clone, Copy, Debug)]
pub struct Coordinate {
    pub x: i32,
    pub y: i32,
}

/// A turn relative to the current heading.
#[derive(PartialEq, Eq, Structural, Clone, Copy, Debug)]
pub enum Turn {
    Left,
    Right,
}

/// A heading on the grid.
#[derive(PartialEq, Eq, Structural, Clone, Copy, Debug)]
pub enum Direction {
    North,
    South,
    East,
    West,
}

/// The heading reached from `d` by turning 90 degrees as `t` says.
pub open spec fn turned(d: Direction, t: Turn) -> Direction {
    match (d, t) {
        (Direction::East, Turn::Left) => Direction::North,
        (Direction::East, Turn::Right) => Direction::South,
        (Direction::West, Turn::Left) => Direction::South,
        (Direction::West, Turn::Right) => Direction::North,
        (Direction::North, Turn::Left) => Direction::West,
        (Direction::North, Turn::Right) => Direction::East,
        (Direction::South, Turn::Left) => Direction::East,
        (Direction::South, Turn::Right) => Direction::West,
    }
}

impl Direction {
    /// Change of `x` for one step in this heading.
    pub open spec fn dx(self) -> int {
        match self {
            Direction::East => 1,
            Direction::West => -1,
            _ => 0,
        }
    }

    /// Change of `y` for one step in this heading (`y` grows to the south).
    pub open spec fn dy(self) -> int {
        match self {
            Direction::North => -1,
            Direction::South => 1,
            _ => 0,
        }
    }

    /// Rotates the heading by a quarter turn.
    pub fn turn(&self, turn: &Turn) -> (r: Direction)
        ensures
            r == turned(*self, *turn),
    {
        match (self, turn) {
            (Direction::East, Turn::Left) => Direction::North,
            (Direction::East, Turn::Right) => Direction::South,
            (Direction::West, Turn::Left) => Direction::South,
            (Direction::West, Turn::Right) => Direction::North,
            (Direction::North, Turn::Left) => Direction::West,
            (Direction::North, Turn::Right) => Direction::East,
            (Direction::South, Turn::Left) => Direction::East,
            (Direction::South, Turn::Right) => Direction::West,
        }
    }
}

impl Coordinate {
    /// One step from this cell in heading `d` stays within the range of `i32`.
    pub open spec fn can_advance(self, d: Direction) -> bool {
        &&& i32::MIN <= self.x + d.dx() <= i32::MAX
        &&& i32::MIN <= self.y + d.dy() <= i32::MAX
    }

    /// The neighbouring cell in heading `d`.
    pub open spec fn next(self, d: Direction) -> Coordinate {
        Coordinate { x: (self.x + d.dx()) as i32, y: (self.y + d.dy()) as i32 }
    }

    /// The neighbouring cell in heading `direction`.
    pub fn advance(&self, direction: &Direction) -> (r: Coordinate)
        requires
            self.can_advance(*direction),
        ensures
            r == self.next(*direction),
            r.x == self.x + direction.dx(),
            r.y == self.y + direction.dy(),
    {
        match direction {
            Direction::North => Coordinate { x: self.x, y: self.y - 1 },
            Direction::South => Coordinate { x: self.x, y: self.y + 1 },
            Direction::East => Coordinate { x: self.x + 1, y: self.y },
            Direction::West => Coordinate { x: self.x - 1, y: self.y },
        }
    }
}

/// A left turn always changes the heading, a right turn undoes a left turn,
/// and four left turns bring the heading back to where it started.
pub proof fn lemma_turns(d: Direction)
    ensures
        turned(d, Turn::Left) != d,
        turned(turned(d, Turn::Left), Turn::Right) == d,
        turned(turned(turned(turned(d, Turn::Left), Turn::Left), Turn::Left), Turn::Left) == d,
{
}

/// One step in any heading moves to a different cell at Manhattan distance one.
pub proof fn lemma_step_is_unit(c: Coordinate, d: Direction)
    requires
        c.can_advance(d),
    ensures
        c.next(d) != c,
        abs(c.next(d).x - c.x) + abs(c.next(d).y - c.y) == 1,
{
}

/// Steps north, east, south and west, in that order, lead back to the start.
pub proof fn lemma_closed_loop(c: Coordinate)
    requires
        c.can_advance(Direction::North),
        c.can_advance(Direction::East),
    ensures
        c.next(Direction::North).can_advance(Direction::East),
        c.next(Direction::North).next(Direction::East).can_advance(Direction::South),
        c.next(Direction::North).next(Direction::East).next(Direction::South).can_advance(
            Direction::West,
        ),
        c.next(Direction::North).next(Direction::East).next(Direction::South).next(
            Direction::West,
        ) == c,
{
}

} // verus!
