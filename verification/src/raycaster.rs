//! Grid traversal of one camera ray.

use vstd::prelude::*;
use crate::fixed::{cell_index, cell_of, frac_of, lemma_cell_bounds, UNIT};
use crate::grid::{Grid, GridMap, MAX_SIDE};
use crate::player::{Heading, Player, Vector, HEADING_LIMIT};

verus! {

/// Mathematical model of a ray: its origin and its direction, in fixed-point units.
pub struct Ray {
    pub px: int,
    pub py: int,
    pub dx: int,
    pub dy: int,
}

/// Progress of a ray through the grid: how many vertical and how many
/// horizontal grid lines it has crossed, and whether the line crossed last
/// was a horizontal one.
pub struct Walk {
    pub xs: nat,
    pub ys: nat,
    pub horizontal: bool,
}

impl Ray {
    /// The ray has a direction.
    pub open spec fn valid(self) -> bool {
        self.dx != 0 || self.dy != 0
    }

    /// Change of the cell column at each crossing of a vertical grid line.
    pub open spec fn step_x(self) -> int {
        if self.dx < 0 {
            -1
        } else {
            1
        }
    }

    /// Change of the cell row at each crossing of a horizontal grid line.
    pub open spec fn step_y(self) -> int {
        if self.dy < 0 {
            -1
        } else {
            1
        }
    }

    /// Magnitude of the direction along x.
    pub open spec fn speed_x(self) -> int {
        if self.dx < 0 {
            -self.dx
        } else {
            self.dx
        }
    }

    /// Magnitude of the direction along y.
    pub open spec fn speed_y(self) -> int {
        if self.dy < 0 {
            -self.dy
        } else {
            self.dy
        }
    }

    /// Distance along x from the origin to the first vertical grid line ahead.
    pub open spec fn gap_x(self) -> int {
        if self.dx < 0 {
            frac_of(self.px)
        } else {
            UNIT - frac_of(self.px)
        }
    }

    /// Distance along y from the origin to the first horizontal grid line ahead.
    pub open spec fn gap_y(self) -> int {
        if self.dy < 0 {
            frac_of(self.py)
        } else {
            UNIT - frac_of(self.py)
        }
    }

    /// Cell column after crossing `xs` vertical grid lines.
    pub open spec fn cell_x(self, xs: nat) -> int {
        if self.dx < 0 {
            cell_of(self.px) - xs
        } else {
            cell_of(self.px) + xs
        }
    }

    /// Cell row after crossing `ys` horizontal grid lines.
    pub open spec fn cell_y(self, ys: nat) -> int {
        if self.dy < 0 {
            cell_of(self.py) - ys
        } else {
            cell_of(self.py) + ys
        }
    }

    /// Ray parameter at which the next vertical grid line is reached after
    /// `xs` of them were crossed, scaled by `speed_x() * speed_y()`. A ray
    /// that does not move along x never reaches one: the other axis then
    /// always comes first.
    pub open spec fn reach_x(self, xs: nat) -> int {
        (self.gap_x() + xs * UNIT) * self.speed_y()
    }

    /// Ray parameter at which the next horizontal grid line is reached after
    /// `ys` of them were crossed, scaled by `speed_x() * speed_y()`.
    pub open spec fn reach_y(self, ys: nat) -> int {
        (self.gap_y() + ys * UNIT) * self.speed_x()
    }

    /// One step of the traversal: cross whichever grid line comes first, a
    /// horizontal one when both are reached together.
    pub open spec fn advance(self, w: Walk) -> Walk {
        if self.reach_x(w.xs) < self.reach_y(w.ys) {
            Walk { xs: w.xs + 1, ys: w.ys, horizontal: false }
        } else {
            Walk { xs: w.xs, ys: w.ys + 1, horizontal: true }
        }
    }

    /// Whether the cell reached by `w` is solid.
    pub open spec fn blocked(self, grid: Grid, w: Walk) -> bool {
        grid.wall_at(self.cell_x(w.xs), self.cell_y(w.ys))
    }

    /// Number of cells between the column `cx` and the edge of the grid that
    /// the ray moves toward, counting `cx` itself.
    pub open spec fn room_x(self, grid: Grid, cx: int) -> nat {
        let r = if self.dx < 0 {
            cx + 1
        } else {
            grid.width - cx
        };
        if r < 0 {
            0
        } else {
            r as nat
        }
    }

    /// Number of cells between the row `cy` and the edge of the grid that the
    /// ray moves toward, counting `cy` itself.
    pub open spec fn room_y(self, grid: Grid, cy: int) -> nat {
        let r = if self.dy < 0 {
            cy + 1
        } else {
            grid.height - cy
        };
        if r < 0 {
            0
        } else {
            r as nat
        }
    }

    /// Bound on the number of steps left before the ray leaves the grid.
    pub open spec fn room(self, grid: Grid, w: Walk) -> nat {
        self.room_x(grid, self.cell_x(w.xs)) + self.room_y(grid, self.cell_y(w.ys))
    }

    /// The traversal from `w` on: step until the cell reached is solid. The
    /// cell of `w` itself is not examined.
    pub open spec fn march(self, grid: Grid, w: Walk) -> Walk
        decreases self.room(grid, w),
    {
        let next = self.advance(w);
        if self.blocked(grid, next) {
            next
        } else {
            self.march(grid, next)
        }
    }

    /// Where the ray first meets a solid cell after leaving the cell of its origin.
    pub open spec fn end(self, grid: Grid) -> Walk {
        self.march(grid, Walk { xs: 0, ys: 0, horizontal: false })
    }

    /// Offset from the origin to the face of the cell reached by `w` through
    /// which the ray entered it, measured along the axis of the last
    /// crossing in the direction in which the ray travels: the near face of
    /// the cell is its low side for a ray toward larger coordinates and its
    /// high side for a ray toward smaller ones.
    pub open spec fn offset(self, w: Walk) -> int {
        if w.horizontal {
            if self.dy < 0 {
                self.py - (self.cell_y(w.ys) + 1) * UNIT
            } else {
                self.cell_y(w.ys) * UNIT - self.py
            }
        } else {
            if self.dx < 0 {
                self.px - (self.cell_x(w.xs) + 1) * UNIT
            } else {
                self.cell_x(w.xs) * UNIT - self.px
            }
        }
    }

    /// Whether the origin lies on the grid line of the face through which
    /// the ray entered the cell reached by `w`: the ray then starts on that
    /// face, and the offset to it is zero.
    pub open spec fn starts_on_face(self, w: Walk) -> bool {
        if w.horizontal {
            self.dy < 0 && frac_of(self.py) == 0 && w.ys == 1
        } else {
            self.dx < 0 && frac_of(self.px) == 0 && w.xs == 1
        }
    }

    /// Magnitude of the direction along the axis of the last crossing.
    pub open spec fn speed(self, w: Walk) -> int {
        if w.horizontal {
            self.speed_y()
        } else {
            self.speed_x()
        }
    }

    /// Inner product of the direction of the ray and a heading: the length
    /// of the direction along the heading, times the length of the heading.
    pub open spec fn along(self, heading: Vector) -> int {
        self.dx * heading.x + self.dy * heading.y
    }

    /// Whether the ray looks ahead of a viewer who faces `heading`: the two
    /// make less than a right angle.
    pub open spec fn ahead(self, heading: Vector) -> bool {
        self.along(heading) > 0
    }

    /// Wall distance of the ray at `w` for a viewer who faces `heading`: the
    /// distance, along the heading, from the origin to the point at which
    /// the ray crosses the face named by `w`. That point is the origin moved
    /// by the direction of the ray, `offset / speed` times; its distance
    /// along a heading of length one is that factor times the length of the
    /// direction along the heading. This is the perpendicular distance of
    /// the point from the viewer, not the length of the ray, and it does not
    /// depend on the length of the direction. It is rounded up, so that it
    /// is zero only where the offset is.
    pub open spec fn depth(self, heading: Vector, w: Walk) -> int {
        (self.offset(w) * self.along(heading) + self.speed(w) * UNIT - 1) / (self.speed(w) * UNIT)
    }
}

impl Ray {
    /// What holds of every state from which the traversal goes on: after the
    /// first step the cell reached lies inside the grid, and so did the cell
    /// reached by the first crossing along each axis.
    pub open spec fn en_route(self, grid: Grid, w: Walk) -> bool {
        &&& w.xs + w.ys > 0 ==> grid.contains(self.cell_x(w.xs), self.cell_y(w.ys))
        &&& w.xs >= 1 ==> 0 <= self.cell_x(1) < grid.width
        &&& w.ys >= 1 ==> 0 <= self.cell_y(1) < grid.height
        &&& w.xs + w.ys > 0 ==> (w.horizontal ==> w.ys >= 1 && self.dy != 0)
        &&& w.xs + w.ys > 0 ==> (!w.horizontal ==> w.xs >= 1 && self.dx != 0)
    }

    /// What holds of the state in which the traversal stops: the cell reached
    /// is solid, the ray moves along the axis of its last crossing, and it
    /// has crossed at most one grid line more than the grid has cells along
    /// each axis.
    pub open spec fn arrived(self, grid: Grid, w: Walk) -> bool {
        &&& self.blocked(grid, w)
        &&& w.xs <= grid.width + 1
        &&& w.ys <= grid.height + 1
        &&& w.horizontal ==> w.ys >= 1 && self.dy != 0
        &&& !w.horizontal ==> w.xs >= 1 && self.dx != 0
    }

    /// One step from a state that is en route either stops at a solid cell or
    /// leads to a state that is en route again, with less room left.
    pub proof fn lemma_advance(self, grid: Grid, w: Walk)
        requires
            self.valid(),
            self.en_route(grid, w),
        ensures
            self.blocked(grid, self.advance(w)) ==> self.arrived(grid, self.advance(w)),
            !self.blocked(grid, self.advance(w)) ==> self.en_route(grid, self.advance(w))
                && self.room(grid, self.advance(w)) < self.room(grid, w),
    {
        let next = self.advance(w);
        if self.reach_x(w.xs) < self.reach_y(w.ys) {
            // A vertical line comes first: the ray moves along x.
            if self.dx == 0 {
                assert(self.reach_y(w.ys) == 0) by (nonlinear_arith)
                    requires
                        self.reach_y(w.ys) == (self.gap_y() + w.ys * UNIT) * self.speed_x(),
                        self.speed_x() == 0,
                ;
                lemma_reach_bounds(self.gap_x(), w.xs as int, self.speed_y());
                assert(false);
            }
        } else {
            // A horizontal line comes first: the ray moves along y.
            if self.dy == 0 {
                assert(self.reach_x(w.xs) == 0) by (nonlinear_arith)
                    requires
                        self.reach_x(w.xs) == (self.gap_x() + w.xs * UNIT) * self.speed_y(),
                        self.speed_y() == 0,
                ;
                lemma_reach_positive(self.gap_y(), w.ys as int, self.speed_x());
                assert(false);
            }
        }
    }

    /// The traversal from a state that is en route stops in a state that has arrived.
    pub proof fn lemma_march_arrives(self, grid: Grid, w: Walk)
        requires
            self.valid(),
            self.en_route(grid, w),
        ensures
            self.arrived(grid, self.march(grid, w)),
        decreases self.room(grid, w),
    {
        let next = self.advance(w);
        self.lemma_advance(grid, w);
        if !self.blocked(grid, next) {
            self.lemma_march_arrives(grid, next);
        }
    }

    /// The traversal of a ray with a direction stops at a solid cell.
    pub proof fn lemma_end_arrives(self, grid: Grid)
        requires
            self.valid(),
        ensures
            self.arrived(grid, self.end(grid)),
    {
        self.lemma_march_arrives(grid, Walk { xs: 0, ys: 0, horizontal: false });
    }
}

impl Ray {
    /// The offset to the face of a cell that was entered by a crossing is
    /// the gap to the first grid line and one cell for each further line. It
    /// is never negative, and it is zero only for a ray that starts on that
    /// face.
    pub proof fn lemma_offset(self, w: Walk)
        requires
            w.horizontal ==> w.ys >= 1,
            !w.horizontal ==> w.xs >= 1,
        ensures
            w.horizontal ==> self.offset(w) == self.gap_y() + (w.ys - 1) * UNIT,
            !w.horizontal ==> self.offset(w) == self.gap_x() + (w.xs - 1) * UNIT,
            self.offset(w) >= 0,
            self.offset(w) == 0 <==> self.starts_on_face(w),
    {
        lemma_cell_bounds(self.px);
        lemma_cell_bounds(self.py);
    }

    /// The wall distance of a ray that looks ahead is never negative, and it
    /// is positive unless the ray starts on the face that it is said to hit:
    /// positive, then, for every origin strictly inside a cell.
    pub proof fn lemma_depth_sign(self, grid: Grid, heading: Vector)
        requires
            self.valid(),
            self.ahead(heading),
        ensures
            self.depth(heading, self.end(grid)) >= 0,
            self.depth(heading, self.end(grid)) > 0 <==> !self.starts_on_face(self.end(grid)),
            frac_of(self.px) != 0 && frac_of(self.py) != 0 ==> self.depth(heading, self.end(grid))
                > 0,
    {
        let w = self.end(grid);
        self.lemma_end_arrives(grid);
        self.lemma_offset(w);
        lemma_rounded_up(self.offset(w) * self.along(heading), self.speed(w) * UNIT);
        assert(self.offset(w) * self.along(heading) >= 0 && (self.offset(w) * self.along(heading)
            == 0 <==> self.offset(w) == 0)) by (nonlinear_arith)
            requires
                self.offset(w) >= 0,
                self.along(heading) > 0,
        ;
    }

    /// For a viewer who faces along x with a heading of length one, the wall
    /// distance of a ray that ends on a vertical face is the offset to that
    /// face, exactly, whatever the direction of the ray: every point of a
    /// wall that faces the viewer is seen at the distance of its plane.
    pub proof fn lemma_depth_facing_x(self, heading: Vector, w: Walk)
        requires
            self.ahead(heading),
            heading.y == 0,
            heading.x == UNIT || heading.x == -UNIT,
            !w.horizontal,
            self.offset(w) >= 0,
        ensures
            self.depth(heading, w) == self.offset(w),
    {
        lemma_facing(self.offset(w), self.dx, self.speed_x(), heading.x, self.dy, heading.y);
    }

    /// For a viewer who faces along y with a heading of length one, the wall
    /// distance of a ray that ends on a horizontal face is the offset to
    /// that face, exactly, whatever the direction of the ray.
    pub proof fn lemma_depth_facing_y(self, heading: Vector, w: Walk)
        requires
            self.ahead(heading),
            heading.x == 0,
            heading.y == UNIT || heading.y == -UNIT,
            w.horizontal,
            self.offset(w) >= 0,
        ensures
            self.depth(heading, w) == self.offset(w),
    {
        lemma_facing(self.offset(w), self.dy, self.speed_y(), heading.y, self.dx, heading.x);
        assert(self.dx * heading.x + self.dy * heading.y == self.dy * heading.y + self.dx
            * heading.x);
    }

    /// The traversal along a corridor: a ray that runs straight along x,
    /// having crossed `done` vertical lines, with open cells ahead of it up
    /// to a solid cell `ahead` columns from its origin, ends at that cell.
    proof fn lemma_corridor_march(self, grid: Grid, ahead: nat, done: nat, horizontal: bool)
        requires
            self.dx != 0,
            self.dy == 0,
            done < ahead,
            forall|i: nat|
                1 <= i < ahead ==> !#[trigger] grid.wall_at(self.cell_x(i), cell_of(self.py)),
            grid.wall_at(self.cell_x(ahead), cell_of(self.py)),
        ensures
            self.march(grid, Walk { xs: done, ys: 0, horizontal }) == (Walk {
                xs: ahead,
                ys: 0,
                horizontal: false,
            }),
        decreases ahead - done,
    {
        let w = Walk { xs: done, ys: 0, horizontal };
        lemma_cell_bounds(self.py);
        assert(self.reach_x(done) == 0) by (nonlinear_arith)
            requires
                self.reach_x(done) == (self.gap_x() + done * UNIT) * self.speed_y(),
                self.speed_y() == 0,
        ;
        lemma_reach_positive(self.gap_y(), 0, self.speed_x());
        let next = Walk { xs: done + 1, ys: 0, horizontal: false };
        assert(self.advance(w) == next);
        if done + 1 < ahead {
            assert(!grid.wall_at(self.cell_x((done + 1) as nat), cell_of(self.py)));
            self.lemma_corridor_march(grid, ahead, done + 1, false);
        }
    }

    /// A ray cast straight down a corridor along x, toward larger or toward
    /// smaller coordinates, with open cells ahead of it up to a solid cell
    /// `ahead` columns from its origin, ends on the near face of that cell.
    /// For a viewer who looks down the corridor with a heading of length
    /// one, its wall distance is the offset to that face, exactly.
    pub proof fn lemma_corridor(self, grid: Grid, heading: Vector, ahead: nat)
        requires
            self.dx != 0,
            self.dy == 0,
            ahead >= 1,
            forall|i: nat|
                1 <= i < ahead ==> !#[trigger] grid.wall_at(self.cell_x(i), cell_of(self.py)),
            grid.wall_at(self.cell_x(ahead), cell_of(self.py)),
            heading.y == 0,
            heading.x == UNIT || heading.x == -UNIT,
            self.ahead(heading),
        ensures
            self.end(grid) == (Walk { xs: ahead, ys: 0, horizontal: false }),
            self.offset(self.end(grid)) == self.gap_x() + (ahead - 1) * UNIT,
            self.depth(heading, self.end(grid)) == self.gap_x() + (ahead - 1) * UNIT,
    {
        self.lemma_corridor_march(grid, ahead, 0, false);
        self.lemma_offset(self.end(grid));
        self.lemma_depth_facing_x(heading, self.end(grid));
    }

    /// The traversal along a corridor along y: the mirror of
    /// `lemma_corridor_march`.
    proof fn lemma_corridor_march_y(self, grid: Grid, ahead: nat, done: nat, horizontal: bool)
        requires
            self.dx == 0,
            self.dy != 0,
            done < ahead,
            forall|i: nat|
                1 <= i < ahead ==> !#[trigger] grid.wall_at(cell_of(self.px), self.cell_y(i)),
            grid.wall_at(cell_of(self.px), self.cell_y(ahead)),
        ensures
            self.march(grid, Walk { xs: 0, ys: done, horizontal }) == (Walk {
                xs: 0,
                ys: ahead,
                horizontal: true,
            }),
        decreases ahead - done,
    {
        let w = Walk { xs: 0, ys: done, horizontal };
        lemma_cell_bounds(self.px);
        assert(self.reach_y(done) == 0) by (nonlinear_arith)
            requires
                self.reach_y(done) == (self.gap_y() + done * UNIT) * self.speed_x(),
                self.speed_x() == 0,
        ;
        lemma_reach_bounds(self.gap_x(), 0, self.speed_y());
        let next = Walk { xs: 0, ys: done + 1, horizontal: true };
        assert(self.advance(w) == next);
        if done + 1 < ahead {
            assert(!grid.wall_at(cell_of(self.px), self.cell_y((done + 1) as nat)));
            self.lemma_corridor_march_y(grid, ahead, done + 1, true);
        }
    }

    /// A ray cast straight down a corridor along y, with open cells ahead of
    /// it up to a solid cell `ahead` rows from its origin, ends on the near
    /// face of that cell. For a viewer who looks down the corridor with a
    /// heading of length one, its wall distance is the offset to that face,
    /// exactly.
    pub proof fn lemma_corridor_y(self, grid: Grid, heading: Vector, ahead: nat)
        requires
            self.dx == 0,
            self.dy != 0,
            ahead >= 1,
            forall|i: nat|
                1 <= i < ahead ==> !#[trigger] grid.wall_at(cell_of(self.px), self.cell_y(i)),
            grid.wall_at(cell_of(self.px), self.cell_y(ahead)),
            heading.x == 0,
            heading.y == UNIT || heading.y == -UNIT,
            self.ahead(heading),
        ensures
            self.end(grid) == (Walk { xs: 0, ys: ahead, horizontal: true }),
            self.offset(self.end(grid)) == self.gap_y() + (ahead - 1) * UNIT,
            self.depth(heading, self.end(grid)) == self.gap_y() + (ahead - 1) * UNIT,
    {
        self.lemma_corridor_march_y(grid, ahead, 0, false);
        self.lemma_offset(self.end(grid));
        self.lemma_depth_facing_y(heading, self.end(grid));
    }

    /// A flat wall that faces the viewer is seen at one distance: for a
    /// viewer who faces along x with a heading of length one, two rays from
    /// one origin that look ahead and enter solid cells of one column
    /// through a vertical face have the same wall distance, the offset to
    /// the plane of the wall, whatever their directions.
    pub proof fn lemma_flat_wall(self, other: Ray, grid: Grid, heading: Vector)
        requires
            self.valid(),
            other.valid(),
            self.px == other.px,
            self.ahead(heading),
            other.ahead(heading),
            heading.y == 0,
            heading.x == UNIT || heading.x == -UNIT,
            !self.end(grid).horizontal,
            !other.end(grid).horizontal,
            self.cell_x(self.end(grid).xs) == other.cell_x(other.end(grid).xs),
        ensures
            self.depth(heading, self.end(grid)) == other.depth(heading, other.end(grid)),
            self.depth(heading, self.end(grid)) == self.offset(self.end(grid)),
    {
        self.lemma_end_arrives(grid);
        other.lemma_end_arrives(grid);
        self.lemma_offset(self.end(grid));
        other.lemma_offset(other.end(grid));
        self.lemma_depth_facing_x(heading, self.end(grid));
        other.lemma_depth_facing_x(heading, other.end(grid));
        assert(self.dy * heading.y == 0 && other.dy * heading.y == 0) by (nonlinear_arith)
            requires
                heading.y == 0,
        ;
        lemma_same_sign(self.dx, other.dx, heading.x);
    }

    /// The mirror of `lemma_flat_wall` for a viewer who faces along y and a
    /// wall with a horizontal face.
    pub proof fn lemma_flat_wall_y(self, other: Ray, grid: Grid, heading: Vector)
        requires
            self.valid(),
            other.valid(),
            self.py == other.py,
            self.ahead(heading),
            other.ahead(heading),
            heading.x == 0,
            heading.y == UNIT || heading.y == -UNIT,
            self.end(grid).horizontal,
            other.end(grid).horizontal,
            self.cell_y(self.end(grid).ys) == other.cell_y(other.end(grid).ys),
        ensures
            self.depth(heading, self.end(grid)) == other.depth(heading, other.end(grid)),
            self.depth(heading, self.end(grid)) == self.offset(self.end(grid)),
    {
        self.lemma_end_arrives(grid);
        other.lemma_end_arrives(grid);
        self.lemma_offset(self.end(grid));
        other.lemma_offset(other.end(grid));
        self.lemma_depth_facing_y(heading, self.end(grid));
        other.lemma_depth_facing_y(heading, other.end(grid));
        assert(self.dx * heading.x == 0 && other.dx * heading.x == 0) by (nonlinear_arith)
            requires
                heading.x == 0,
        ;
        lemma_same_sign(self.dy, other.dy, heading.y);
    }
}

impl Ray {
    /// The ray passes through the cell reached by `w`: it enters the column
    /// of the cell no later than it leaves the row, and the row no later
    /// than it leaves the column. Both are stated over the scaled ray
    /// parameters.
    pub open spec fn passes(self, w: Walk) -> bool {
        &&& self.reach_x(w.xs) - UNIT * self.speed_y() <= self.reach_y(w.ys)
        &&& self.reach_y(w.ys) - UNIT * self.speed_x() <= self.reach_x(w.xs)
    }

    /// The ray enters the cell reached by `w` through the face that `w`
    /// names: when it crosses the line of that face, it is between the two
    /// lines that bound the cell along the other axis.
    pub open spec fn enters_by_face(self, w: Walk) -> bool {
        if w.horizontal {
            self.reach_x(w.xs) - UNIT * self.speed_y() <= self.reach_y(w.ys) - UNIT
                * self.speed_x() <= self.reach_x(w.xs)
        } else {
            self.reach_y(w.ys) - UNIT * self.speed_x() <= self.reach_x(w.xs) - UNIT
                * self.speed_y() <= self.reach_y(w.ys)
        }
    }

    /// World coordinate along the face, scaled by the speed across it, of
    /// the point at which the ray crosses the face named by `w`: the origin
    /// moved along the ray until the offset to the face is covered.
    pub open spec fn crossing(self, w: Walk) -> int {
        if w.horizontal {
            self.px * self.speed_y() + self.offset(w) * self.dx
        } else {
            self.py * self.speed_x() + self.offset(w) * self.dy
        }
    }

    /// The point at which the ray crosses the face named by `w` lies on the
    /// cell reached by `w`, between its two corners on that face.
    pub open spec fn crosses_within_cell(self, w: Walk) -> bool {
        if w.horizontal {
            self.cell_x(w.xs) * UNIT * self.speed_y() <= self.crossing(w) <= (self.cell_x(w.xs)
                + 1) * UNIT * self.speed_y()
        } else {
            self.cell_y(w.ys) * UNIT * self.speed_x() <= self.crossing(w) <= (self.cell_y(w.ys)
                + 1) * UNIT * self.speed_x()
        }
    }

    /// A step from a cell that the ray passes through leads to a cell that
    /// the ray passes through, entered by the face that the step names.
    pub proof fn lemma_advance_passes(self, w: Walk)
        requires
            self.passes(w),
        ensures
            self.passes(self.advance(w)),
            self.enters_by_face(self.advance(w)),
    {
        lemma_reach_next(self.gap_x(), w.xs as int, self.speed_y());
        lemma_reach_next(self.gap_y(), w.ys as int, self.speed_x());
        assert(UNIT * self.speed_x() >= 0 && UNIT * self.speed_y() >= 0);
    }

    /// The traversal from a cell that the ray passes through ends in a cell
    /// that the ray passes through, entered by the face that the end names.
    pub proof fn lemma_march_passes(self, grid: Grid, w: Walk)
        requires
            self.passes(w),
        ensures
            self.passes(self.march(grid, w)),
            self.enters_by_face(self.march(grid, w)),
        decreases self.room(grid, w),
    {
        let next = self.advance(w);
        self.lemma_advance_passes(w);
        if !self.blocked(grid, next) {
            self.lemma_march_passes(grid, next);
        }
    }

    /// The wall distance belongs to a point of the wall: the ray enters the
    /// solid cell at which it ends through the face that the end names, and
    /// the point at which it crosses that face lies on the cell.
    pub proof fn lemma_end_on_face(self, grid: Grid)
        requires
            self.valid(),
        ensures
            self.enters_by_face(self.end(grid)),
            self.crosses_within_cell(self.end(grid)),
    {
        let start = Walk { xs: 0, ys: 0, horizontal: false };
        lemma_cell_bounds(self.px);
        lemma_cell_bounds(self.py);
        assert(self.passes(start)) by {
            lemma_reach_limit(self.gap_x(), 0, self.speed_y(), 0, self.speed_y());
            lemma_reach_limit(self.gap_y(), 0, self.speed_x(), 0, self.speed_x());
            lemma_reach_bounds(self.gap_x(), 0, self.speed_y());
            lemma_reach_bounds(self.gap_y(), 0, self.speed_x());
        }
        self.lemma_march_passes(grid, start);
        self.lemma_end_arrives(grid);
        self.lemma_face_crossing(self.end(grid));
    }

    /// Entering by a face, stated over ray parameters, is crossing the face
    /// within the cell, stated over world coordinates.
    pub proof fn lemma_face_crossing(self, w: Walk)
        requires
            w.horizontal ==> w.ys >= 1,
            !w.horizontal ==> w.xs >= 1,
            self.enters_by_face(w),
        ensures
            self.crosses_within_cell(w),
    {
        lemma_cell_bounds(self.px);
        lemma_cell_bounds(self.py);
        let unit = UNIT as int;
        let ax = self.speed_x();
        let ay = self.speed_y();
        let fx = frac_of(self.px);
        let fy = frac_of(self.py);
        let cx0 = cell_of(self.px);
        let cy0 = cell_of(self.py);
        let xs = w.xs as int;
        let ys = w.ys as int;
        if w.horizontal {
            // covered along y: gap_y + (ys - 1) * UNIT
            let covered = self.gap_y() + (ys - 1) * unit;
            assert(self.offset(w) == covered);
            assert(self.reach_y(w.ys) - unit * ax == covered * ax) by (nonlinear_arith)
                requires
                    self.reach_y(w.ys) == (self.gap_y() + ys * unit) * ax,
                    covered == self.gap_y() + (ys - 1) * unit,
            ;
            if self.dx < 0 {
                lemma_crossing_backward(self.px, cx0, fx, xs, unit, ay, covered, ax, self.dx);
            } else {
                lemma_crossing_forward(self.px, cx0, fx, xs, unit, ay, covered, ax, self.dx);
            }
        } else {
            let covered = self.gap_x() + (xs - 1) * unit;
            assert(self.offset(w) == covered);
            assert(self.reach_x(w.xs) - unit * ay == covered * ay) by (nonlinear_arith)
                requires
                    self.reach_x(w.xs) == (self.gap_x() + xs * unit) * ay,
                    covered == self.gap_x() + (xs - 1) * unit,
            ;
            if self.dy < 0 {
                lemma_crossing_backward(self.py, cy0, fy, ys, unit, ax, covered, ay, self.dy);
            } else {
                lemma_crossing_forward(self.py, cy0, fy, ys, unit, ax, covered, ay, self.dy);
            }
        }
    }
}

impl Ray {
    /// Whether the cell reached after `xs` vertical and `ys` horizontal
    /// crossings lies on the path of the ray: the ray crosses its `xs`-th
    /// vertical line before its next horizontal one, and its `ys`-th
    /// horizontal line no later than its next vertical one. This says which
    /// cells the ray visits without walking there.
    pub open spec fn on_path(self, xs: nat, ys: nat) -> bool {
        &&& xs >= 1 ==> self.reach_x((xs - 1) as nat) < self.reach_y(ys)
        &&& ys >= 1 ==> self.reach_y((ys - 1) as nat) <= self.reach_x(xs)
    }

    /// Whether the ray runs through the inside of the cell reached after
    /// `xs` vertical and `ys` horizontal crossings: it enters the column of
    /// the cell before it leaves the row, and the row before it leaves the
    /// column.
    pub open spec fn runs_through(self, xs: nat, ys: nat) -> bool {
        &&& self.reach_x(xs) - UNIT * self.speed_y() < self.reach_y(ys)
        &&& self.reach_y(ys) - UNIT * self.speed_x() < self.reach_x(xs)
    }

    /// Every cell that the ray runs through lies on its path.
    pub proof fn lemma_runs_through_on_path(self, xs: nat, ys: nat)
        requires
            self.runs_through(xs, ys),
        ensures
            self.on_path(xs, ys),
    {
        if xs >= 1 {
            lemma_reach_next(self.gap_x(), xs - 1, self.speed_y());
        }
        if ys >= 1 {
            lemma_reach_next(self.gap_y(), ys - 1, self.speed_x());
        }
    }

    /// The path of the ray holds one cell for each number of crossings.
    pub proof fn lemma_path_unique(self, xs: nat, ys: nat, other_xs: nat, other_ys: nat)
        requires
            self.on_path(xs, ys),
            self.on_path(other_xs, other_ys),
            xs + ys == other_xs + other_ys,
        ensures
            xs == other_xs,
            ys == other_ys,
    {
        if xs < other_xs {
            lemma_reach_monotone(self.gap_x(), xs as int, other_xs - 1, self.speed_y());
            lemma_reach_monotone(self.gap_y(), other_ys as int, ys - 1, self.speed_x());
        } else if xs > other_xs {
            lemma_reach_monotone(self.gap_x(), other_xs as int, xs - 1, self.speed_y());
            lemma_reach_monotone(self.gap_y(), ys as int, other_ys - 1, self.speed_x());
        }
    }

    /// A step from a cell on the path leads to the next cell on the path.
    pub proof fn lemma_advance_on_path(self, w: Walk)
        requires
            self.on_path(w.xs, w.ys),
        ensures
            self.on_path(self.advance(w).xs, self.advance(w).ys),
            self.advance(w).xs + self.advance(w).ys == w.xs + w.ys + 1,
    {
        lemma_reach_monotone(self.gap_x(), w.xs as int, w.xs as int + 1, self.speed_y());
        lemma_reach_monotone(self.gap_y(), w.ys as int, w.ys as int + 1, self.speed_x());
    }

    /// The traversal from a cell on the path ends at a cell on the path, and
    /// every cell of the path between the two is open.
    pub proof fn lemma_march_first_solid(self, grid: Grid, w: Walk)
        requires
            self.on_path(w.xs, w.ys),
        ensures
            self.on_path(self.march(grid, w).xs, self.march(grid, w).ys),
            self.march(grid, w).xs + self.march(grid, w).ys > w.xs + w.ys,
            self.blocked(grid, self.march(grid, w)),
            forall|xs: nat, ys: nat|
                #![trigger self.on_path(xs, ys)]
                self.on_path(xs, ys) && w.xs + w.ys < xs + ys < self.march(grid, w).xs
                    + self.march(grid, w).ys ==> !grid.wall_at(self.cell_x(xs), self.cell_y(ys)),
        decreases self.room(grid, w),
    {
        let next = self.advance(w);
        let end = self.march(grid, w);
        self.lemma_advance_on_path(w);
        if !self.blocked(grid, next) {
            self.lemma_march_first_solid(grid, next);
            assert forall|xs: nat, ys: nat|
                #![trigger self.on_path(xs, ys)]
                self.on_path(xs, ys) && w.xs + w.ys < xs + ys < end.xs + end.ys implies !grid.wall_at(
                self.cell_x(xs),
                self.cell_y(ys),
            ) by {
                if xs + ys == next.xs + next.ys {
                    self.lemma_path_unique(xs, ys, next.xs, next.ys);
                }
            }
        }
    }

    /// The ray ends at the first solid cell on its path: the cell at which
    /// it ends is solid and lies on the path, and every cell of the path
    /// between the cell of the origin and that cell is open. With
    /// `lemma_runs_through_on_path`, no solid cell that the ray runs through
    /// lies before the cell at which it ends.
    pub proof fn lemma_first_solid(self, grid: Grid)
        ensures
            self.on_path(self.end(grid).xs, self.end(grid).ys),
            self.end(grid).xs + self.end(grid).ys >= 1,
            self.blocked(grid, self.end(grid)),
            forall|xs: nat, ys: nat|
                #![trigger self.on_path(xs, ys)]
                self.on_path(xs, ys) && 1 <= xs + ys < self.end(grid).xs + self.end(grid).ys
                    ==> !grid.wall_at(self.cell_x(xs), self.cell_y(ys)),
    {
        self.lemma_march_first_solid(grid, Walk { xs: 0, ys: 0, horizontal: false });
    }
}

/// A scaled ray parameter does not shrink as more lines are crossed.
proof fn lemma_reach_monotone(gap: int, fewer: int, more: int, speed: int)
    by (nonlinear_arith)
    requires
        fewer <= more,
        0 <= speed,
    ensures
        (gap + fewer * UNIT) * speed <= (gap + more * UNIT) * speed,
{
}

/// The algebra of a crossing for a ray that moves toward larger coordinates
/// along the face: `p` is the origin along the face, in the cell `c0` at the
/// offset `f`; `k` lines were crossed along the face, at the speed `a`; the
/// ray covered `covered` across the face, at the speed `b`.
proof fn lemma_crossing_forward(
    p: int,
    c0: int,
    f: int,
    k: int,
    unit: int,
    b: int,
    covered: int,
    a: int,
    d: int,
)
    by (nonlinear_arith)
    requires
        p == c0 * unit + f,
        d == a,
        ((unit - f) + k * unit) * b - unit * b <= covered * a <= ((unit - f) + k * unit) * b,
    ensures
        (c0 + k) * unit * b <= p * b + covered * d <= (c0 + k + 1) * unit * b,
{
}

/// The algebra of a crossing for a ray that moves toward smaller coordinates
/// along the face.
proof fn lemma_crossing_backward(
    p: int,
    c0: int,
    f: int,
    k: int,
    unit: int,
    b: int,
    covered: int,
    a: int,
    d: int,
)
    by (nonlinear_arith)
    requires
        p == c0 * unit + f,
        d == -a,
        (f + k * unit) * b - unit * b <= covered * a <= (f + k * unit) * b,
    ensures
        (c0 - k) * unit * b <= p * b + covered * d <= (c0 - k + 1) * unit * b,
{
}

/// A scaled ray parameter is never negative.
proof fn lemma_reach_bounds(gap: int, crossed: int, speed: int)
    by (nonlinear_arith)
    requires
        0 <= gap,
        0 <= crossed,
        0 <= speed,
    ensures
        0 <= (gap + crossed * UNIT) * speed,
{
}

/// A scaled ray parameter is positive when the gap and the speed are.
proof fn lemma_reach_positive(gap: int, crossed: int, speed: int)
    by (nonlinear_arith)
    requires
        0 < gap,
        0 <= crossed,
        0 < speed,
    ensures
        0 < (gap + crossed * UNIT) * speed,
{
}

/// The ray that leaves the player's position in the direction `direction`.
pub open spec fn ray_from(player: Player, direction: Vector) -> Ray {
    Ray { px: player.x as int, py: player.y as int, dx: direction.x, dy: direction.y }
}

/// The ray along the heading itself looks ahead: the middle of the view is
/// always cast.
pub proof fn lemma_heading_looks_ahead(player: Player, heading: Vector)
    requires
        heading.x != 0 || heading.y != 0,
    ensures
        ray_from(player, heading).ahead(heading),
        ray_from(player, heading).valid(),
{
    assert(heading.x * heading.x + heading.y * heading.y > 0) by (nonlinear_arith)
        requires
            heading.x != 0 || heading.y != 0,
    ;
}

/// Crossing one more grid line moves the scaled ray parameter on by `UNIT * speed`.
proof fn lemma_reach_next(gap: int, crossed: int, speed: int)
    by (nonlinear_arith)
    ensures
        (gap + (crossed + 1) * UNIT) * speed == (gap + crossed * UNIT) * speed + UNIT * speed,
{
}

/// A scaled ray parameter stays below the product of the bounds of its parts.
proof fn lemma_reach_limit(gap: int, crossed: int, speed: int, most: int, fastest: int)
    by (nonlinear_arith)
    requires
        0 <= gap <= UNIT,
        0 <= crossed <= most,
        0 <= speed <= fastest,
    ensures
        0 <= (gap + crossed * UNIT) * speed <= (UNIT + most * UNIT) * fastest,
{
}

/// A quotient that is rounded up is never negative, and zero only where the
/// numerator is.
proof fn lemma_rounded_up(top: int, bottom: int)
    by (nonlinear_arith)
    requires
        top >= 0,
        bottom > 0,
    ensures
        (top + bottom - 1) / bottom >= 0,
        (top + bottom - 1) / bottom == 0 <==> top == 0,
{
}

/// Two directions that both look ahead along one axis point the same way
/// along that axis.
proof fn lemma_same_sign(first: int, second: int, heading: int)
    by (nonlinear_arith)
    requires
        first * heading > 0,
        second * heading > 0,
    ensures
        (first < 0) == (second < 0),
        first != 0,
        second != 0,
{
}

/// The algebra of a wall that faces the viewer: `offset` toward the wall,
/// along an axis on which the ray moves by `across` at the speed `speed` and
/// the heading has the length one; `beside` and `none` are the components
/// along the other axis, of which the heading has none.
proof fn lemma_facing(offset: int, across: int, speed: int, heading: int, beside: int, none: int)
    requires
        offset >= 0,
        speed == across || speed == -across,
        speed >= 0,
        heading == UNIT || heading == -UNIT,
        none == 0,
        across * heading + beside * none > 0,
    ensures
        (offset * (across * heading + beside * none) + speed * UNIT - 1) / (speed * UNIT) == offset,
{
    let unit = UNIT as int;
    let dot = across * heading + beside * none;
    assert(dot == speed * unit && speed > 0) by (nonlinear_arith)
        requires
            dot == across * heading + beside * none,
            none == 0,
            dot > 0,
            speed == across || speed == -across,
            speed >= 0,
            heading == unit || heading == -unit,
            unit == 65536,
    ;
    let bottom = speed * unit;
    assert((offset * bottom + bottom - 1) / bottom == offset) by (nonlinear_arith)
        requires
            bottom > 0,
            offset >= 0,
    ;
}

/// The part of a ray between two lines: a length `part` that, added to the
/// origin `from` scaled by `speed`, lies between `low` and `high` scaled by
/// `speed`, is at most `most` times `speed` where both lines are within
/// `most` of the origin.
proof fn lemma_between(part: int, from: int, low: int, high: int, speed: int, most: int)
    by (nonlinear_arith)
    requires
        low * speed <= from * speed + part <= high * speed,
        -most <= low - from,
        high - from <= most,
        speed >= 0,
    ensures
        -most * speed <= part <= most * speed,
{
}

/// Bound of the wall distance by the extent of the grid: the point of the
/// wall lies `offset` from the origin along one axis and at most `most`
/// along the other, and no component of the heading exceeds `limit`.
proof fn lemma_depth_limit(
    offset: int,
    across: int,
    speed: int,
    heading: int,
    part: int,
    beside: int,
    other: int,
    most: int,
    limit: int,
)
    requires
        offset >= 0,
        speed > 0,
        speed == across || speed == -across,
        part == offset * beside,
        -most * speed <= part <= most * speed,
        most >= 0,
        -limit <= heading <= limit,
        -limit <= other <= limit,
        limit == 2 * UNIT,
    ensures
        (offset * (across * heading + beside * other) + speed * UNIT - 1) / (speed * UNIT) <= 2 * (
        offset + most) + 1,
{
    let unit = UNIT as int;
    let top = offset * (across * heading + beside * other);
    assert(top == offset * across * heading + part * other) by (nonlinear_arith)
        requires
            top == offset * (across * heading + beside * other),
            part == offset * beside,
    ;
    assert(offset * across * heading <= offset * speed * limit) by (nonlinear_arith)
        requires
            offset >= 0,
            speed > 0,
            speed == across || speed == -across,
            -limit <= heading <= limit,
    ;
    assert(part * other <= most * speed * limit) by (nonlinear_arith)
        requires
            -most * speed <= part <= most * speed,
            most >= 0,
            speed > 0,
            -limit <= other <= limit,
            limit >= 0,
    ;
    let bottom = speed * unit;
    let room = offset + most;
    assert(top <= 2 * room * bottom) by (nonlinear_arith)
        requires
            top <= offset * speed * limit + most * speed * limit,
            limit == 2 * unit,
            bottom == speed * unit,
            room == offset + most,
    ;
    assert((top + bottom - 1) / bottom <= 2 * room + 1) by (nonlinear_arith)
        requires
            top <= 2 * room * bottom,
            bottom > 0,
    ;
}

/// Where a ray met the wall: the offset from the origin to the face through
/// which the ray entered the solid cell, measured along the axis of the last
/// crossing in the direction of travel; the magnitude of the direction of
/// the ray along that axis; and whether the line crossed last was a
/// horizontal one.
#[derive(Clone, Copy, Debug)]
pub struct WallHit {
    pub offset: i64,
    pub speed: i64,
    pub horizontal: bool,
}

/// Walks the ray that leaves the player's position in the direction `ray`
/// through the grid, one grid line at a time, to the first solid cell after
/// the cell it starts in. Cells outside the grid are solid, so the walk
/// always ends.
pub fn trace_ray(map: &GridMap, player: &Player, ray: &Heading) -> (hit: WallHit)
    ensures
        hit.offset == ray_from(*player, ray@).offset(ray_from(*player, ray@).end(map@)),
        hit.speed == ray_from(*player, ray@).speed(ray_from(*player, ray@).end(map@)),
        hit.horizontal == ray_from(*player, ray@).end(map@).horizontal,
        ray_from(*player, ray@).arrived(map@, ray_from(*player, ray@).end(map@)),
        0 <= hit.offset <= (MAX_SIDE + 1) * UNIT,
        0 < hit.speed <= HEADING_LIMIT,
        hit.offset == 0 <==> ray_from(*player, ray@).starts_on_face(
            ray_from(*player, ray@).end(map@),
        ),
{
    let (rx, ry) = ray.components();
    let width: usize = map.width();
    let height: usize = map.height();
    let ghost r = ray_from(*player, ray@);
    let ghost grid = map@;
    let dx: i128 = rx as i128;
    let dy: i128 = ry as i128;
    let ax: i128 = if dx < 0 {
        -dx
    } else {
        dx
    };
    let ay: i128 = if dy < 0 {
        -dy
    } else {
        dy
    };
    let cx0: i64 = cell_index(player.x);
    let cy0: i64 = cell_index(player.y);
    let fx: i128 = player.x as i128 - cx0 as i128 * (UNIT as i128);
    let fy: i128 = player.y as i128 - cy0 as i128 * (UNIT as i128);
    let gap_x: i128 = if dx < 0 {
        fx
    } else {
        UNIT as i128 - fx
    };
    let gap_y: i128 = if dy < 0 {
        fy
    } else {
        UNIT as i128 - fy
    };
    let step_x: i64 = if dx < 0 {
        -1
    } else {
        1
    };
    let step_y: i64 = if dy < 0 {
        -1
    } else {
        1
    };
    assert(fx == frac_of(player.x as int) && fy == frac_of(player.y as int));
    proof {
        lemma_reach_limit(gap_x as int, 0, ay as int, MAX_SIDE as int + 1, 131072);
        lemma_reach_limit(gap_y as int, 0, ax as int, MAX_SIDE as int + 1, 131072);
    }
    let mut cx: i64 = cx0;
    let mut cy: i64 = cy0;
    let mut tx: i128 = gap_x * ay;
    let mut ty: i128 = gap_y * ax;
    let mut horizontal: bool = false;
    let ghost mut w = Walk { xs: 0, ys: 0, horizontal: false };
    loop
        invariant_except_break
            r.en_route(grid, w),
            r.march(grid, w) == r.end(grid),
        invariant
            r == ray_from(*player, ray@),
            grid == map@,
            r.valid(),
            grid.width <= MAX_SIDE,
            grid.height <= MAX_SIDE,
            dx == r.dx,
            dy == r.dy,
            ax == r.speed_x(),
            ay == r.speed_y(),
            0 <= ax <= 131072,
            0 <= ay <= 131072,
            step_x == r.step_x(),
            step_y == r.step_y(),
            cx == r.cell_x(w.xs),
            cy == r.cell_y(w.ys),
            tx == r.reach_x(w.xs),
            ty == r.reach_y(w.ys),
            horizontal == w.horizontal,
            -140737488355328 <= cx0 < 140737488355328,
            -140737488355328 <= cy0 < 140737488355328,
            cx0 == cell_of(r.px),
            cy0 == cell_of(r.py),
            0 <= r.gap_x() <= UNIT,
            0 <= r.gap_y() <= UNIT,
        ensures
            w == r.end(grid),
            r.arrived(grid, w),
        decreases r.room(grid, w),
    {
        proof {
            r.lemma_advance(grid, w);
            lemma_reach_next(r.gap_x(), w.xs as int, ay as int);
            lemma_reach_next(r.gap_y(), w.ys as int, ax as int);
            lemma_reach_limit(r.gap_x(), w.xs as int + 1, ay as int, MAX_SIDE as int + 1, 131072);
            lemma_reach_limit(r.gap_y(), w.ys as int + 1, ax as int, MAX_SIDE as int + 1, 131072);
        }
        if tx < ty {
            tx = tx + (UNIT as i128) * ay;
            cx = cx + step_x;
            horizontal = false;
            proof {
                w = Walk { xs: w.xs + 1, ys: w.ys, horizontal: false };
            }
        } else {
            ty = ty + (UNIT as i128) * ax;
            cy = cy + step_y;
            horizontal = true;
            proof {
                w = Walk { xs: w.xs, ys: w.ys + 1, horizontal: true };
            }
        }
        if map.is_wall_cell(cx, cy) {
            break ;
        }
    }
    let offset: i128 = if horizontal {
        if dy < 0 {
            player.y as i128 - (cy as i128 + 1) * (UNIT as i128)
        } else {
            cy as i128 * (UNIT as i128) - player.y as i128
        }
    } else {
        if dx < 0 {
            player.x as i128 - (cx as i128 + 1) * (UNIT as i128)
        } else {
            cx as i128 * (UNIT as i128) - player.x as i128
        }
    };
    let speed: i128 = if horizontal {
        ay
    } else {
        ax
    };
    proof {
        r.lemma_offset(w);
    }
    assert(offset == r.offset(w));
    assert(speed == r.speed(w) && speed > 0);
    assert(0 <= offset <= (MAX_SIDE + 1) * UNIT);
    WallHit { offset: offset as i64, speed: speed as i64, horizontal }
}

/// Casts the ray that leaves the player's position in the direction `ray`
/// and finds the wall that it meets, for a player who faces `heading`, the
/// unit vector of the angle faced. Returns the wall distance, as `cast_ray`
/// does, together with the place of the hit; nothing for a ray that does
/// not look ahead of the player.
pub fn cast_to_wall(map: &GridMap, player: &Player, heading: &Heading, ray: &Heading) -> (hit:
    Option<(i64, WallHit)>)
    ensures
        hit is Some <==> ray_from(*player, ray@).ahead(heading@),
        hit matches Some(found) ==> {
            let r = ray_from(*player, ray@);
            &&& found.0 == r.depth(heading@, r.end(map@))
            &&& found.1.offset == r.offset(r.end(map@))
            &&& found.1.speed == r.speed(r.end(map@))
            &&& found.1.horizontal == r.end(map@).horizontal
            &&& r.arrived(map@, r.end(map@))
            &&& found.1.speed > 0
            &&& 0 <= found.1.offset <= (MAX_SIDE + 1) * UNIT
            &&& found.0 >= 0
            &&& found.0 > 0 <==> !r.starts_on_face(r.end(map@))
        },
{
    let (hx, hy) = heading.components();
    let (rx, ry) = ray.components();
    let width: usize = map.width();
    let height: usize = map.height();
    let ghost r = ray_from(*player, ray@);
    assert(-17179869184 <= rx * hx <= 17179869184 && -17179869184 <= ry * hy <= 17179869184)
        by (nonlinear_arith)
        requires
            -131072 <= rx <= 131072,
            -131072 <= ry <= 131072,
            -131072 <= hx <= 131072,
            -131072 <= hy <= 131072,
    ;
    let along: i128 = (rx as i128) * (hx as i128) + (ry as i128) * (hy as i128);
    if along <= 0 {
        return None;
    }
    let found: WallHit = trace_ray(map, player, ray);
    let offset: i128 = found.offset as i128;
    let speed: i128 = found.speed as i128;
    let bottom: i128 = speed * (UNIT as i128);
    proof {
        r.lemma_depth_sign(map@, heading@);
        lemma_depth_in_range(r, map@, heading@);
    }
    assert(0 <= offset * along <= 4835703278458516698824704) by (nonlinear_arith)
        requires
            0 <= offset <= 140737488355328,
            0 < along <= 34359738368,
    ;
    let depth: i128 = (offset * along + bottom - 1) / bottom;
    Some((depth as i64, found))
}

/// Casts the ray that leaves the player's position in the direction `ray`
/// and finds the wall that it meets, for a player who faces `heading`, the
/// unit vector of the angle faced.
///
/// Returns the wall distance and whether the line crossed last was a
/// horizontal one; nothing for a ray that does not look ahead of the
/// player. The distance is the perpendicular distance of the point of the
/// wall from the player, measured along the heading, not the length of the
/// ray: it is the offset to the face through which the ray entered the
/// solid cell, divided by the magnitude of the direction of the ray along
/// that axis, times the length of that direction along the heading. It is
/// never negative, and zero only for a ray that starts on that face.
pub fn cast_ray(map: &GridMap, player: &Player, heading: &Heading, ray: &Heading) -> (hit: Option<
    (i64, bool),
>)
    ensures
        hit is Some <==> ray_from(*player, ray@).ahead(heading@),
        hit matches Some(found) ==> {
            let r = ray_from(*player, ray@);
            &&& found.0 == r.depth(heading@, r.end(map@))
            &&& found.1 == r.end(map@).horizontal
            &&& r.arrived(map@, r.end(map@))
            &&& found.0 >= 0
            &&& found.0 > 0 <==> !r.starts_on_face(r.end(map@))
        },
{
    match cast_to_wall(map, player, heading, ray) {
        Some(found) => Some((found.0, found.1.horizontal)),
        None => None,
    }
}

/// The wall distance of a ray that looks ahead is bounded by the extent of
/// the grid, so that it is a fixed-point number.
proof fn lemma_depth_in_range(r: Ray, grid: Grid, heading: Vector)
    requires
        r.valid(),
        grid.width <= MAX_SIDE,
        grid.height <= MAX_SIDE,
        heading.is_heading(),
        r.ahead(heading),
    ensures
        r.depth(heading, r.end(grid)) <= 4 * (MAX_SIDE + 2) * UNIT + 1,
{
    let w = r.end(grid);
    let unit = UNIT as int;
    let most = (MAX_SIDE + 2) * unit;
    r.lemma_end_arrives(grid);
    r.lemma_end_on_face(grid);
    r.lemma_offset(w);
    lemma_cell_bounds(r.px);
    lemma_cell_bounds(r.py);
    let n = r.offset(w);
    if w.horizontal {
        let part = n * r.dx;
        lemma_between(
            part,
            r.px,
            r.cell_x(w.xs) * unit,
            (r.cell_x(w.xs) + 1) * unit,
            r.speed_y(),
            most,
        );
        lemma_depth_limit(
            n,
            r.dy,
            r.speed_y(),
            heading.y,
            part,
            r.dx,
            heading.x,
            most,
            2 * unit,
        );
        assert(r.dx * heading.x + r.dy * heading.y == r.dy * heading.y + r.dx * heading.x);
    } else {
        let part = n * r.dy;
        lemma_between(
            part,
            r.py,
            r.cell_y(w.ys) * unit,
            (r.cell_y(w.ys) + 1) * unit,
            r.speed_x(),
            most,
        );
        lemma_depth_limit(
            n,
            r.dx,
            r.speed_x(),
            heading.x,
            part,
            r.dy,
            heading.y,
            most,
            2 * unit,
        );
    }
}

} // verus!
