//! The wall grid and its point-in-wall query.

use vstd::prelude::*;
use crate::fixed::{cell_of, cell_index};

verus! {

/// Largest number of cells a grid may have along one side.
pub const MAX_SIDE: usize = 1073741824;

/// Kind of one grid cell.
#[derive(Clone, Copy, Debug, PartialEq, Eq)]
pub enum Cell {
    Empty,
    Wall,
}

/// Mathematical model of a grid: its size and its cells in row-major order.
pub struct Grid {
    pub width: nat,
    pub height: nat,
    pub cells: Seq<Cell>,
}

impl Grid {
    /// The grid stores exactly one cell per position and respects the size limit.
    pub open spec fn wf(self) -> bool {
        &&& self.cells.len() == self.width * self.height
        &&& self.width <= MAX_SIDE
        &&& self.height <= MAX_SIDE
    }

    /// The cell position `(cx, cy)` lies inside the grid.
    pub open spec fn contains(self, cx: int, cy: int) -> bool {
        0 <= cx < self.width && 0 <= cy < self.height
    }

    /// The kind of the cell at `(cx, cy)`, for a position inside the grid.
    pub open spec fn cell(self, cx: int, cy: int) -> Cell {
        self.cells[cy * self.width + cx]
    }

    /// Whether the cell position `(cx, cy)` is solid. Every position outside
    /// the grid is solid.
    pub open spec fn wall_at(self, cx: int, cy: int) -> bool {
        !self.contains(cx, cy) || self.cell(cx, cy) == Cell::Wall
    }

    /// Whether the world point `(x, y)` lies in a solid cell.
    pub open spec fn wall_at_point(self, x: int, y: int) -> bool {
        self.wall_at(cell_of(x), cell_of(y))
    }

    /// Every cell position outside the grid is solid, and so is every world
    /// point whose cell lies outside the grid.
    pub proof fn lemma_outside_is_wall(self, x: int, y: int)
        requires
            !self.contains(cell_of(x), cell_of(y)),
        ensures
            self.wall_at_point(x, y),
    {
    }
}

/// A rectangular grid of wall and empty cells, fixed at construction.
pub struct GridMap {
    width: usize,
    height: usize,
    cells: Vec<Cell>,
}

impl View for GridMap {
    type V = Grid;

    closed spec fn view(&self) -> Grid {
        Grid { width: self.width as nat, height: self.height as nat, cells: self.cells@ }
    }
}

impl GridMap {
    /// Every grid map is well formed.
    #[verifier::type_invariant]
    pub open spec fn inv(self) -> bool {
        self@.wf()
    }

    /// Builds a grid from its cells in row-major order. Fails when the number
    /// of cells is not `width * height` or a side exceeds `MAX_SIDE`.
    pub fn new(width: usize, height: usize, cells: Vec<Cell>) -> (m: Option<GridMap>)
        ensures
            m is Some <==> (cells@.len() == width * height && width <= MAX_SIDE && height
                <= MAX_SIDE),
            m is Some ==> m->0@ == (Grid { width: width as nat, height: height as nat, cells: cells@ }),
    {
        if width > MAX_SIDE || height > MAX_SIDE {
            return None;
        }
        let count: usize = cells.len();
        match width.checked_mul(height) {
            Some(n) => {
                if n == count {
                    Some(GridMap { width, height, cells })
                } else {
                    None
                }
            },
            None => None,
        }
    }

    /// Number of cells along the x axis.
    pub fn width(&self) -> (w: usize)
        ensures
            w == self@.width,
            w <= MAX_SIDE,
    {
        proof {
            use_type_invariant(self);
        }
        self.width
    }

    /// Number of cells along the y axis.
    pub fn height(&self) -> (h: usize)
        ensures
            h == self@.height,
            h <= MAX_SIDE,
    {
        proof {
            use_type_invariant(self);
        }
        self.height
    }

    /// Whether the cell position `(cx, cy)` is solid; positions outside the
    /// grid are.
    pub fn is_wall_cell(&self, cx: i64, cy: i64) -> (b: bool)
        ensures
            b == self@.wall_at(cx as int, cy as int),
            !self@.contains(cx as int, cy as int) ==> b,
    {
        proof {
            use_type_invariant(self);
        }
        if cx < 0 || cy < 0 || cx >= self.width as i64 || cy >= self.height as i64 {
            return true;
        }
        let col: usize = cx as usize;
        let row: usize = cy as usize;
        let count: usize = self.cells.len();
        assert(count == self.width * self.height);
        assert(0 <= row * self.width && row * self.width + col < self.width * self.height)
            by (nonlinear_arith)
            requires
                0 <= col < self.width,
                0 <= row < self.height,
        ;
        let index: usize = row * self.width + col;
        match self.cells[index] {
            Cell::Wall => true,
            Cell::Empty => false,
        }
    }

    /// Whether the world point `(x, y)` lies in a solid cell. The point is
    /// attributed to the cell that contains it; every point outside the grid
    /// is solid.
    pub fn is_wall(&self, x: i64, y: i64) -> (b: bool)
        ensures
            b == self@.wall_at_point(x as int, y as int),
            !self@.contains(cell_of(x as int), cell_of(y as int)) ==> b,
    {
        self.is_wall_cell(cell_index(x), cell_index(y))
    }
}

} // verus!
