use vstd::prelude::*;

use crate::grid::Point;

verus! {

/// `p` one row up, stopping at the top row.
pub open spec fn step_up(p: Point) -> Point {
    Point(p.0, if p.1 > 0 { (p.1 - 1) as usize } else { 0 })
}

/// `p` one column left, stopping at the first column.
pub open spec fn step_left(p: Point) -> Point {
    Point(if p.0 > 0 { (p.0 - 1) as usize } else { 0 }, p.1)
}

/// `p` one row down on a board of `rows` rows, stopping at the last row.
pub open spec fn step_down(p: Point, rows: usize) -> Point {
    Point(p.0, if p.1 + 1 < rows { (p.1 + 1) as usize } else { (rows - 1) as usize })
}

/// `p` one column right on a board of `cols` columns, stopping at the last
/// column.
pub open spec fn step_right(p: Point, cols: usize) -> Point {
    Point(if p.0 + 1 < cols { (p.0 + 1) as usize } else { (cols - 1) as usize }, p.1)
}

/// A selected point on a board of `cols` × `rows` cells, moved one step at
/// a time and kept on the board.
#[derive(Debug)]
pub struct Cursor {
    pub cols: usize,
    pub rows: usize,
    pub point: Point,
}

impl Cursor {
    /// A cursor at the middle of the board.
    pub fn new(cols: usize, rows: usize) -> (r: Cursor)
        ensures
            r.cols == cols,
            r.rows == rows,
            r.point == Point(cols / 2, rows / 2),
    {
        Cursor { cols, rows, point: Point(cols / 2, rows / 2) }
    }

    /// One row up, stopping at the top row.
    pub fn up(&mut self)
        ensures
            final(self).cols == old(self).cols,
            final(self).rows == old(self).rows,
            final(self).point == step_up(old(self).point),
    {
        self.point = Point(self.point.0, self.point.1.saturating_sub(1));
    }

    /// One column left, stopping at the first column.
    pub fn left(&mut self)
        ensures
            final(self).cols == old(self).cols,
            final(self).rows == old(self).rows,
            final(self).point == step_left(old(self).point),
    {
        self.point = Point(self.point.0.saturating_sub(1), self.point.1);
    }

    /// One row down, stopping at the last row.
    pub fn down(&mut self)
        requires
            old(self).rows > 0,
        ensures
            final(self).cols == old(self).cols,
            final(self).rows == old(self).rows,
            final(self).point == step_down(old(self).point, old(self).rows),
    {
        let next = self.point.1.saturating_add(1);
        let last = self.rows - 1;
        self.point = Point(self.point.0, if next < last { next } else { last });
    }

    /// One column right, stopping at the last column.
    pub fn right(&mut self)
        requires
            old(self).cols > 0,
        ensures
            final(self).cols == old(self).cols,
            final(self).rows == old(self).rows,
            final(self).point == step_right(old(self).point, old(self).cols),
    {
        let next = self.point.0.saturating_add(1);
        let last = self.cols - 1;
        self.point = Point(if next < last { next } else { last }, self.point.1);
    }
}

} // verus!
