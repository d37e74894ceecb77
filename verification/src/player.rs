//! The player's pose and the direction vectors that steer it.

use vstd::prelude::*;
use crate::fixed::{div_toward_zero, fixed_mul, lemma_cell_bounds, lemma_fixed_mul_odd, UNIT};
use crate::grid::{Grid, GridMap, MAX_SIDE};

verus! {

/// The field of view, 66 degrees, in fixed-point radians.
pub const FIELD_OF_VIEW: i64 = 75492;

/// Half the field of view: the length of the camera plane for a heading of
/// length one.
pub const HALF_FIELD_OF_VIEW: i64 = 37746;

/// Mathematical model of a direction: a vector in fixed-point units.
pub struct Vector {
    pub x: int,
    pub y: int,
}

/// Largest magnitude of a component of a heading: twice the length one.
pub const HEADING_LIMIT: i32 = 131072;

/// A direction in the plane: a vector in fixed-point units that is not zero
/// and has no component beyond `HEADING_LIMIT`. The vector `(UNIT, 0)`
/// points along the x axis with length one; the unit vector of every angle
/// is a heading.
#[derive(Clone, Copy, Debug)]
pub struct Heading {
    x: i32,
    y: i32,
}

impl View for Heading {
    type V = Vector;

    closed spec fn view(&self) -> Vector {
        Vector { x: self.x as int, y: self.y as int }
    }
}

impl Vector {
    /// Whether the vector is a direction: not zero, and no component beyond
    /// `HEADING_LIMIT`.
    pub open spec fn is_heading(self) -> bool {
        &&& self.x != 0 || self.y != 0
        &&& -HEADING_LIMIT <= self.x <= HEADING_LIMIT
        &&& -HEADING_LIMIT <= self.y <= HEADING_LIMIT
    }
}

impl Heading {
    /// Every heading is a direction.
    #[verifier::type_invariant]
    pub open spec fn inv(self) -> bool {
        self@.is_heading()
    }

    /// The direction of the vector `(x, y)`. The zero vector has none, and a
    /// vector with a component beyond `HEADING_LIMIT` is refused.
    pub fn new(x: i32, y: i32) -> (h: Option<Heading>)
        ensures
            h is Some <==> (Vector { x: x as int, y: y as int }).is_heading(),
            h is Some ==> h->0@ == (Vector { x: x as int, y: y as int }),
    {
        if (x != 0 || y != 0) && -HEADING_LIMIT <= x && x <= HEADING_LIMIT && -HEADING_LIMIT <= y
            && y <= HEADING_LIMIT {
            Some(Heading { x, y })
        } else {
            None
        }
    }

    /// Both components of the direction.
    pub fn components(&self) -> (c: (i32, i32))
        ensures
            c.0 == self@.x,
            c.1 == self@.y,
            self@.is_heading(),
    {
        proof {
            use_type_invariant(self);
        }
        (self.x, self.y)
    }
}

/// The player's pose: position, facing angle, field of view and camera plane,
/// all in fixed-point units (positions in cells, angles in radians).
#[derive(Clone, Copy, Debug)]
pub struct Player {
    pub x: i64,
    pub y: i64,
    pub direction: i64,
    pub fov: i64,
    pub plane_x: i64,
    pub plane_y: i64,
}

/// The camera plane that belongs to a heading: the heading turned by a
/// quarter turn and scaled by half the field of view.
pub open spec fn plane_of(heading: Vector) -> Vector {
    Vector {
        x: -fixed_mul(heading.y, FIELD_OF_VIEW as int / 2),
        y: fixed_mul(heading.x, FIELD_OF_VIEW as int / 2),
    }
}

/// Where a point ends up after a move by `(sx, sy)` in which each axis is
/// checked on its own: the step along x is taken if the point moved along x
/// alone is not in a wall, and then the step along y is taken if the point
/// reached so far, moved along y, is not in a wall. A step that is refused
/// leaves its coordinate as it was, so the point slides along a wall that it
/// meets at an angle.
pub open spec fn slide(grid: Grid, x: int, y: int, sx: int, sy: int) -> (int, int) {
    let x1 = if grid.wall_at_point(x + sx, y) {
        x
    } else {
        x + sx
    };
    let y1 = if grid.wall_at_point(x1, y + sy) {
        y
    } else {
        y + sy
    };
    (x1, y1)
}

/// A point that is not in a wall is not in a wall after a move, and a point
/// that moved along either axis is not in a wall, wherever it came from.
pub proof fn lemma_slide_stays_open(grid: Grid, x: int, y: int, sx: int, sy: int)
    ensures
        !grid.wall_at_point(x, y) ==> !grid.wall_at_point(
            slide(grid, x, y, sx, sy).0,
            slide(grid, x, y, sx, sy).1,
        ),
        !grid.wall_at_point(x + sx, y) || !grid.wall_at_point(slide(grid, x, y, sx, sy).0, y + sy)
            ==> !grid.wall_at_point(slide(grid, x, y, sx, sy).0, slide(grid, x, y, sx, sy).1),
{
}

/// A move toward a wall leaves the coordinate of each blocked axis as it was.
pub proof fn lemma_slide_blocked(grid: Grid, x: int, y: int, sx: int, sy: int)
    ensures
        grid.wall_at_point(x + sx, y) ==> slide(grid, x, y, sx, sy).0 == x,
        grid.wall_at_point(slide(grid, x, y, sx, sy).0, y + sy) ==> slide(grid, x, y, sx, sy).1
            == y,
        grid.wall_at_point(x + sx, y) && grid.wall_at_point(x, y + sy) ==> slide(
            grid,
            x,
            y,
            sx,
            sy,
        ) == (x, y),
{
}

/// A move followed by the opposite move leads back to the start, exactly,
/// when no wall is met on the way: none at the start, none after the step
/// along x, none at the far end, and none after the step back along x.
pub proof fn lemma_slide_round_trip(grid: Grid, x: int, y: int, sx: int, sy: int)
    requires
        !grid.wall_at_point(x, y),
        !grid.wall_at_point(x + sx, y),
        !grid.wall_at_point(x + sx, y + sy),
        !grid.wall_at_point(x, y + sy),
    ensures
        slide(grid, x, y, sx, sy) == (x + sx, y + sy),
        slide(grid, x + sx, y + sy, -sx, -sy) == (x, y),
{
}

/// A point that is not in a wall lies inside the grid, so its coordinates
/// stay far inside the range of `i64`.
proof fn lemma_open_point_bounds(grid: Grid, x: int, y: int)
    requires
        grid.wf(),
        !grid.wall_at_point(x, y),
    ensures
        0 <= x < MAX_SIDE * UNIT,
        0 <= y < MAX_SIDE * UNIT,
{
    lemma_cell_bounds(x);
    lemma_cell_bounds(y);
}

impl Player {
    /// The step along x of a move by `distance` in the direction `heading`.
    pub open spec fn step_x(heading: Vector, distance: int) -> int {
        fixed_mul(heading.x, distance)
    }

    /// The step along y of a move by `distance` in the direction `heading`.
    pub open spec fn step_y(heading: Vector, distance: int) -> int {
        fixed_mul(heading.y, distance)
    }

    /// The steps of a move by `-distance` are the steps of a move by
    /// `distance`, reversed: moving backward is moving forward by the
    /// negated distance.
    pub proof fn lemma_steps_reverse(heading: Vector, distance: int)
        ensures
            Self::step_x(heading, -distance) == -Self::step_x(heading, distance),
            Self::step_y(heading, -distance) == -Self::step_y(heading, distance),
    {
        lemma_fixed_mul_odd(heading.x, distance);
        lemma_fixed_mul_odd(heading.y, distance);
    }

    /// The pose after a move by `(sx, sy)` checked against the grid: the
    /// position slides, everything else stays.
    pub open spec fn moved(self, grid: Grid, sx: int, sy: int) -> Player {
        Player {
            x: slide(grid, self.x as int, self.y as int, sx, sy).0 as i64,
            y: slide(grid, self.x as int, self.y as int, sx, sy).1 as i64,
            ..self
        }
    }

    /// Whether the player stands in a cell that is not solid.
    pub open spec fn in_open(self, grid: Grid) -> bool {
        !grid.wall_at_point(self.x as int, self.y as int)
    }

    /// Whether the camera plane of the player is the one that belongs to `heading`.
    pub open spec fn faces(self, heading: Vector) -> bool {
        self.plane_x == plane_of(heading).x && self.plane_y == plane_of(heading).y
    }

    /// The camera plane that belongs to `heading`.
    fn plane(heading: &Heading) -> (plane: (i64, i64))
        ensures
            plane.0 == plane_of(heading@).x,
            plane.1 == plane_of(heading@).y,
    {
        let (hx, hy) = heading.components();
        let length: i128 = HALF_FIELD_OF_VIEW as i128;
        assert(length == FIELD_OF_VIEW as int / 2);
        assert(-91396904058880 <= hy * length <= 91396904058880 && -91396904058880 <= hx * length
            <= 91396904058880) by (nonlinear_arith)
            requires
                length == 37746,
                -2147483648 <= hx <= 2147483648,
                -2147483648 <= hy <= 2147483648,
        ;
        let across: i128 = div_toward_zero((hy as i128) * length, UNIT as i128);
        let ahead: i128 = div_toward_zero((hx as i128) * length, UNIT as i128);
        ((-across) as i64, ahead as i64)
    }

    /// A player at `(x, y)` who faces the angle `direction`, of which
    /// `heading` is the unit vector. The field of view is `FIELD_OF_VIEW`;
    /// the camera plane is the one that belongs to the heading.
    pub fn new(x: i64, y: i64, direction: i64, heading: &Heading) -> (player: Player)
        ensures
            player.x == x,
            player.y == y,
            player.direction == direction,
            player.fov == FIELD_OF_VIEW,
            player.faces(heading@),
            player.plane_x == -fixed_mul(heading@.y, FIELD_OF_VIEW as int / 2),
            player.plane_y == fixed_mul(heading@.x, FIELD_OF_VIEW as int / 2),
    {
        let plane = Self::plane(heading);
        Player { x, y, direction, fov: FIELD_OF_VIEW, plane_x: plane.0, plane_y: plane.1 }
    }

    /// Moves along one axis pair by `(sx, sy)`, each axis checked on its own.
    fn shift(&mut self, sx: i128, sy: i128, map: &GridMap) -> (moved: (bool, bool))
        ensures
            *final(self) == old(self).moved(map@, sx as int, sy as int),
            final(self).x == slide(map@, old(self).x as int, old(self).y as int, sx as int, sy as int).0,
            final(self).y == slide(map@, old(self).x as int, old(self).y as int, sx as int, sy as int).1,
            moved.0 == !map@.wall_at_point(old(self).x + sx, old(self).y as int),
            moved.1 == !map@.wall_at_point(final(self).x as int, old(self).y + sy),
            !moved.0 ==> final(self).x == old(self).x,
            !moved.1 ==> final(self).y == old(self).y,
            old(self).in_open(map@) || moved.0 || moved.1 ==> final(self).in_open(map@),
    {
        proof {
            use_type_invariant(map);
            lemma_slide_stays_open(map@, self.x as int, self.y as int, sx as int, sy as int);
        }
        let ghost grid = map@;
        let ghost x0 = self.x as int;
        let ghost y0 = self.y as int;
        let mut moved_x: bool = false;
        let mut moved_y: bool = false;
        let new_x: Option<i128> = (self.x as i128).checked_add(sx);
        match new_x {
            Some(nx) => {
                if -9223372036854775808 <= nx && nx <= 9223372036854775807 {
                    if !map.is_wall(nx as i64, self.y) {
                        self.x = nx as i64;
                        moved_x = true;
                    }
                } else {
                    proof {
                        if !grid.wall_at_point(x0 + sx, y0) {
                            lemma_open_point_bounds(grid, x0 + sx, y0);
                        }
                    }
                }
            },
            None => {
                proof {
                    if !grid.wall_at_point(x0 + sx, y0) {
                        lemma_open_point_bounds(grid, x0 + sx, y0);
                    }
                }
            },
        }
        let ghost x1 = self.x as int;
        let new_y: Option<i128> = (self.y as i128).checked_add(sy);
        match new_y {
            Some(ny) => {
                if -9223372036854775808 <= ny && ny <= 9223372036854775807 {
                    if !map.is_wall(self.x, ny as i64) {
                        self.y = ny as i64;
                        moved_y = true;
                    }
                } else {
                    proof {
                        if !grid.wall_at_point(x1, y0 + sy) {
                            lemma_open_point_bounds(grid, x1, y0 + sy);
                        }
                    }
                }
            },
            None => {
                proof {
                    if !grid.wall_at_point(x1, y0 + sy) {
                        lemma_open_point_bounds(grid, x1, y0 + sy);
                    }
                }
            },
        }
        (moved_x, moved_y)
    }

    /// Moves the player by `distance` in the direction `heading`. Each axis
    /// is checked against the map on its own, so the player slides along a
    /// wall instead of stopping at it. Returns, for x and for y, whether the
    /// step along that axis was taken: each step taken is the cue for one
    /// footstep sound.
    pub fn move_forward(&mut self, distance: i64, heading: &Heading, map: &GridMap) -> (moved: (
        bool,
        bool,
    ))
        ensures
            *final(self) == old(self).moved(
                map@,
                Self::step_x(heading@, distance as int),
                Self::step_y(heading@, distance as int),
            ),
            moved.0 == !map@.wall_at_point(
                old(self).x + Self::step_x(heading@, distance as int),
                old(self).y as int,
            ),
            moved.1 == !map@.wall_at_point(
                final(self).x as int,
                old(self).y + Self::step_y(heading@, distance as int),
            ),
            final(self).x == slide(
                map@,
                old(self).x as int,
                old(self).y as int,
                Self::step_x(heading@, distance as int),
                Self::step_y(heading@, distance as int),
            ).0,
            final(self).y == slide(
                map@,
                old(self).x as int,
                old(self).y as int,
                Self::step_x(heading@, distance as int),
                Self::step_y(heading@, distance as int),
            ).1,
            !moved.0 ==> final(self).x == old(self).x,
            !moved.1 ==> final(self).y == old(self).y,
            old(self).in_open(map@) || moved.0 || moved.1 ==> final(self).in_open(map@),
    {
        let (hx, hy) = heading.components();
        assert(-19807040628566084398385987584 <= hx * distance <= 19807040628566084398385987584
            && -19807040628566084398385987584 <= hy * distance <= 19807040628566084398385987584)
            by (nonlinear_arith)
            requires
                -9223372036854775808 <= distance <= 9223372036854775808,
                -2147483648 <= hx <= 2147483648,
                -2147483648 <= hy <= 2147483648,
        ;
        let sx: i128 = div_toward_zero((hx as i128) * (distance as i128), UNIT as i128);
        let sy: i128 = div_toward_zero((hy as i128) * (distance as i128), UNIT as i128);
        self.shift(sx, sy, map)
    }

    /// Moves the player by `distance` against the direction `heading`, with
    /// the same steps as `move_forward` takes, reversed, and the same check
    /// of each axis: a move backward by `distance` is a move forward by
    /// `-distance`.
    pub fn move_backward(&mut self, distance: i64, heading: &Heading, map: &GridMap) -> (moved: (
        bool,
        bool,
    ))
        ensures
            *final(self) == old(self).moved(
                map@,
                -Self::step_x(heading@, distance as int),
                -Self::step_y(heading@, distance as int),
            ),
            *final(self) == old(self).moved(
                map@,
                Self::step_x(heading@, -distance),
                Self::step_y(heading@, -distance),
            ),
            moved.0 == !map@.wall_at_point(
                old(self).x - Self::step_x(heading@, distance as int),
                old(self).y as int,
            ),
            moved.1 == !map@.wall_at_point(
                final(self).x as int,
                old(self).y - Self::step_y(heading@, distance as int),
            ),
            final(self).x == slide(
                map@,
                old(self).x as int,
                old(self).y as int,
                -Self::step_x(heading@, distance as int),
                -Self::step_y(heading@, distance as int),
            ).0,
            final(self).y == slide(
                map@,
                old(self).x as int,
                old(self).y as int,
                -Self::step_x(heading@, distance as int),
                -Self::step_y(heading@, distance as int),
            ).1,
            !moved.0 ==> final(self).x == old(self).x,
            !moved.1 ==> final(self).y == old(self).y,
            old(self).in_open(map@) || moved.0 || moved.1 ==> final(self).in_open(map@),
    {
        let (hx, hy) = heading.components();
        assert(-19807040628566084398385987584 <= hx * distance <= 19807040628566084398385987584
            && -19807040628566084398385987584 <= hy * distance <= 19807040628566084398385987584)
            by (nonlinear_arith)
            requires
                -9223372036854775808 <= distance <= 9223372036854775808,
                -2147483648 <= hx <= 2147483648,
                -2147483648 <= hy <= 2147483648,
        ;
        let sx: i128 = div_toward_zero((hx as i128) * (distance as i128), UNIT as i128);
        let sy: i128 = div_toward_zero((hy as i128) * (distance as i128), UNIT as i128);
        proof {
            lemma_fixed_mul_odd(heading@.x, distance as int);
            lemma_fixed_mul_odd(heading@.y, distance as int);
        }
        self.shift(-sx, -sy, map)
    }

    /// Turns the player to the left by `angle`: the facing angle decreases.
    /// `heading` is the unit vector of the angle faced after the turn; the
    /// camera plane becomes the one that belongs to it.
    pub fn turn_left(&mut self, angle: i64, heading: &Heading)
        requires
            i64::MIN <= old(self).direction - angle <= i64::MAX,
        ensures
            final(self).direction == old(self).direction - angle,
            final(self).faces(heading@),
            final(self).x == old(self).x,
            final(self).y == old(self).y,
            final(self).fov == old(self).fov,
    {
        let plane = Self::plane(heading);
        self.direction = self.direction - angle;
        self.plane_x = plane.0;
        self.plane_y = plane.1;
    }

    /// Turns the player to the right by `angle`: the facing angle increases.
    /// `heading` is the unit vector of the angle faced after the turn; the
    /// camera plane becomes the one that belongs to it.
    pub fn turn_right(&mut self, angle: i64, heading: &Heading)
        requires
            i64::MIN <= old(self).direction + angle <= i64::MAX,
        ensures
            final(self).direction == old(self).direction + angle,
            final(self).faces(heading@),
            final(self).x == old(self).x,
            final(self).y == old(self).y,
            final(self).fov == old(self).fov,
    {
        let plane = Self::plane(heading);
        self.direction = self.direction + angle;
        self.plane_x = plane.0;
        self.plane_y = plane.1;
    }
}

} // verus!
