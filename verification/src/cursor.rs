//! A bounded position in a two-dimensional grid.

use vstd::prelude::*;

verus! {

/// A location within a 2D grid.
/// The origin is at the top left of the grid.
#[derive(Copy, Clone, Debug, PartialEq, Eq, Structural)]
pub struct Cursor {
    pub max_x: usize,
    pub max_y: usize,
    pub x: usize,
    pub y: usize,
}

/// `value` pulled into `[0, max]`.
pub open spec fn clamp_to(value: int, max: int) -> int {
    if value <= 0 {
        0
    } else if value >= max {
        max
    } else {
        value
    }
}

/// One relative move along an axis.
pub enum Move {
    Horizontal(int),
    Vertical(int),
}

impl Cursor {
    /// The position lies within the inclusive bounds.
    pub open spec fn wf(self) -> bool {
        self.x <= self.max_x && self.y <= self.max_y
    }

    /// The cursor after a horizontal move by `delta`, saturating at both ends.
    pub open spec fn moved_x(self, delta: int) -> Cursor {
        Cursor { x: clamp_to(self.x + delta, self.max_x as int) as usize, ..self }
    }

    /// The cursor after a vertical move by `delta`, saturating at both ends.
    pub open spec fn moved_y(self, delta: int) -> Cursor {
        Cursor { y: clamp_to(self.y + delta, self.max_y as int) as usize, ..self }
    }

    /// The cursor with `x` at the left edge.
    pub open spec fn at_left(self) -> Cursor {
        Cursor { x: 0, ..self }
    }

    /// The cursor with `x` at the right edge.
    pub open spec fn at_right(self) -> Cursor {
        Cursor { x: self.max_x, ..self }
    }

    /// The cursor after one move.
    pub open spec fn moved(self, m: Move) -> Cursor {
        match m {
            Move::Horizontal(delta) => self.moved_x(delta),
            Move::Vertical(delta) => self.moved_y(delta),
        }
    }

    /// The cursor after a sequence of moves, applied first to last.
    pub open spec fn moved_all(self, moves: Seq<Move>) -> Cursor
        decreases moves.len(),
    {
        if moves.len() == 0 {
            self
        } else {
            self.moved_all(moves.drop_last()).moved(moves.last())
        }
    }

    /// `max_x` and `max_y` are inclusive.
    pub fn new(max_x: usize, max_y: usize) -> (cursor: Cursor)
        ensures
            cursor == (Cursor { max_x, max_y, x: 0, y: 0 }),
            cursor.wf(),
    {
        Cursor { max_x, max_y, x: 0, y: 0 }
    }

    /// A positive `delta` moves right.
    pub fn move_x(&mut self, delta: isize)
        requires
            old(self).wf(),
        ensures
            *final(self) == old(self).moved_x(delta as int),
            final(self).wf(),
    {
        self.x = saturating_step(self.x, delta, self.max_x);
    }

    /// A positive `delta` moves down.
    pub fn move_y(&mut self, delta: isize)
        requires
            old(self).wf(),
        ensures
            *final(self) == old(self).moved_y(delta as int),
            final(self).wf(),
    {
        self.y = saturating_step(self.y, delta, self.max_y);
    }

    pub fn move_to_left_boundary(&mut self)
        ensures
            *final(self) == old(self).at_left(),
            old(self).wf() ==> final(self).wf(),
    {
        self.x = 0;
    }

    pub fn move_to_right_boundary(&mut self)
        ensures
            *final(self) == old(self).at_right(),
            old(self).wf() ==> final(self).wf(),
    {
        self.x = self.max_x;
    }
}

/// `position + delta`, held within `[0, max]`.
fn saturating_step(position: usize, delta: isize, max: usize) -> (next: usize)
    requires
        position <= max,
    ensures
        next == clamp_to(position + delta, max as int),
        next <= max,
{
    let target: i128 = position as i128 + delta as i128;
    if target <= 0 {
        0
    } else if target >= max as i128 {
        max
    } else {
        target as usize
    }
}

/// Whatever moves are made, in whatever order, the cursor stays within its
/// bounds, and the bounds themselves never change.
pub proof fn lemma_moves_stay_in_bounds(cursor: Cursor, moves: Seq<Move>)
    requires
        cursor.wf(),
    ensures
        cursor.moved_all(moves).wf(),
        cursor.moved_all(moves).max_x == cursor.max_x,
        cursor.moved_all(moves).max_y == cursor.max_y,
    decreases moves.len(),
{
    if moves.len() > 0 {
        lemma_moves_stay_in_bounds(cursor, moves.drop_last());
    }
}

/// At the left edge a step to the left changes nothing.
pub proof fn lemma_left_boundary_then_step_left(cursor: Cursor)
    ensures
        cursor.at_left().moved_x(-1) == cursor.at_left(),
{
}

} // verus!
