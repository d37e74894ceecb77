use raycaster::fixed::UNIT;
use raycaster::grid::{Cell, GridMap};
use raycaster::player::{Heading, Player};
use raycaster::raycaster::{cast_ray, cast_to_wall, trace_ray};

/// A 20 by 20 grid with a solid border and one more solid cell at (18, 12).
fn arena() -> GridMap {
    let mut cells = Vec::new();
    for y in 0..20 {
        for x in 0..20 {
            let edge = x == 0 || y == 0 || x == 19 || y == 19;
            let pillar = x == 18 && y == 12;
            cells.push(if edge || pillar { Cell::Wall } else { Cell::Empty });
        }
    }
    GridMap::new(20, 20, cells).unwrap()
}

/// A 20 by 20 grid with a solid border.
fn hall() -> GridMap {
    let mut cells = Vec::new();
    for y in 0..20 {
        for x in 0..20 {
            let edge = x == 0 || y == 0 || x == 19 || y == 19;
            cells.push(if edge { Cell::Wall } else { Cell::Empty });
        }
    }
    GridMap::new(20, 20, cells).unwrap()
}

fn heading(x: i32, y: i32) -> Heading {
    Heading::new(x, y).unwrap()
}

fn east() -> Heading {
    heading(UNIT as i32, 0)
}

fn west() -> Heading {
    heading(-(UNIT as i32), 0)
}

fn north() -> Heading {
    heading(0, UNIT as i32)
}

fn south() -> Heading {
    heading(0, -(UNIT as i32))
}

fn player_at(x: i64, y: i64) -> Player {
    Player::new(x, y, 0, &east())
}

#[test]
fn ray_along_x_meets_the_wall_six_cells_ahead() {
    let map = arena();
    let player = player_at(12 * UNIT, 12 * UNIT);
    assert_eq!(cast_ray(&map, &player, &east(), &east()), Some((6 * UNIT, false)));
}

#[test]
fn corridor_distance_counts_from_the_position_inside_the_cell() {
    let map = arena();
    let player = player_at(12 * UNIT + UNIT / 4, 12 * UNIT + UNIT / 2);
    assert_eq!(cast_ray(&map, &player, &east(), &east()), Some((6 * UNIT - UNIT / 4, false)));
}

#[test]
fn ray_along_y_meets_the_border() {
    let map = arena();
    let player = player_at(12 * UNIT, 12 * UNIT);
    assert_eq!(cast_ray(&map, &player, &north(), &north()), Some((7 * UNIT, true)));
}

#[test]
fn ray_toward_smaller_x_measures_to_the_near_face() {
    let map = arena();
    let player = player_at(12 * UNIT, 12 * UNIT);
    assert_eq!(cast_ray(&map, &player, &west(), &west()), Some((11 * UNIT, false)));
    let inside = player_at(12 * UNIT + UNIT / 2, 12 * UNIT + UNIT / 2);
    assert_eq!(cast_ray(&hall(), &inside, &west(), &west()), Some((11 * UNIT + UNIT / 2, false)));
}

#[test]
fn ray_toward_smaller_y_measures_to_the_near_face() {
    let map = arena();
    let player = player_at(12 * UNIT + UNIT / 2, 12 * UNIT + UNIT / 2);
    assert_eq!(cast_ray(&map, &player, &south(), &south()), Some((11 * UNIT + UNIT / 2, true)));
}

#[test]
fn ray_on_a_cell_edge_toward_an_adjacent_wall_has_distance_zero() {
    let map = arena();
    let player = player_at(UNIT, 5 * UNIT + 7);
    assert_eq!(cast_ray(&map, &player, &west(), &west()), Some((0, false)));
    let hit = trace_ray(&map, &player, &west());
    assert_eq!((hit.offset, hit.speed, hit.horizontal), (0, UNIT, false));
}

#[test]
fn the_length_of_the_ray_vector_does_not_matter() {
    let map = arena();
    let player = player_at(12 * UNIT, 12 * UNIT);
    assert_eq!(cast_ray(&map, &player, &east(), &heading((UNIT / 2) as i32, 0)), Some((6 * UNIT, false)));
    assert_eq!(cast_ray(&map, &player, &east(), &heading(2 * UNIT as i32, 0)), Some((6 * UNIT, false)));
    assert_eq!(cast_ray(&map, &player, &east(), &heading(1, 0)), Some((6 * UNIT, false)));
    let hit = trace_ray(&map, &player, &heading((UNIT / 2) as i32, 0));
    assert_eq!((hit.offset, hit.speed, hit.horizontal), (6 * UNIT, UNIT / 2, false));
}

#[test]
fn diagonal_ray_crosses_horizontal_lines_first_on_a_tie() {
    let map = arena();
    let player = player_at(12 * UNIT + UNIT / 2, 12 * UNIT + UNIT / 2);
    let diagonal = heading(46341, 46341);
    // 6.5 cells along y; along its own direction the ray is 6.5 times the root of two long
    assert_eq!(cast_ray(&map, &player, &diagonal, &diagonal), Some((602433, true)));
    let hit = trace_ray(&map, &player, &diagonal);
    assert_eq!((hit.offset, hit.speed, hit.horizontal), (6 * UNIT + UNIT / 2, 46341, true));
}

#[test]
fn angled_rays_report_the_perpendicular_distance() {
    let map = hall();
    let player = player_at(12 * UNIT + UNIT / 2, 12 * UNIT + UNIT / 2);
    // unit vectors of the angles 0.3, -0.3 and 0.1: all meet the face x = 19
    assert_eq!(cast_ray(&map, &player, &east(), &heading(62609, 19367)), Some((6 * UNIT + UNIT / 2, false)));
    assert_eq!(cast_ray(&map, &player, &east(), &heading(62609, -19367)), Some((6 * UNIT + UNIT / 2, false)));
    assert_eq!(cast_ray(&map, &player, &east(), &heading(65209, 6543)), Some((6 * UNIT + UNIT / 2, false)));
    assert_eq!(cast_ray(&map, &player, &east(), &east()), Some((6 * UNIT + UNIT / 2, false)));
}

#[test]
fn a_flat_wall_along_y_is_seen_at_one_distance() {
    let map = hall();
    let player = player_at(12 * UNIT + UNIT / 2, 12 * UNIT + UNIT / 2);
    // unit vectors a little left and right of north: all meet the face y = 19
    for ray in [heading(19367, 62609), heading(-19367, 62609), heading(6543, 65209), north()] {
        assert_eq!(cast_ray(&map, &player, &north(), &ray), Some((6 * UNIT + UNIT / 2, true)));
    }
    for ray in [heading(19367, -62609), heading(-6543, -65209), south()] {
        assert_eq!(cast_ray(&map, &player, &south(), &ray), Some((11 * UNIT + UNIT / 2, true)));
    }
}

#[test]
fn a_wall_seen_at_an_angle_is_nearer_than_along_the_ray() {
    let map = arena();
    let player = player_at(12 * UNIT + UNIT / 2, 12 * UNIT + UNIT / 2);
    // the player faces the diagonal; the ray along x meets the pillar 5.5 cells away
    let hit = cast_ray(&map, &player, &heading(46341, 46341), &east());
    assert_eq!(hit, Some((254876, false)));
}

#[test]
fn a_ray_that_does_not_look_ahead_is_not_cast() {
    let map = arena();
    let player = player_at(12 * UNIT, 12 * UNIT);
    assert_eq!(cast_ray(&map, &player, &east(), &north()), None);
    assert_eq!(cast_ray(&map, &player, &east(), &south()), None);
    assert_eq!(cast_ray(&map, &player, &east(), &west()), None);
    assert_eq!(cast_ray(&map, &player, &east(), &heading(-1, 131072)), None);
    assert!(cast_ray(&map, &player, &east(), &heading(1, 131072)).is_some());
    assert!(cast_to_wall(&map, &player, &east(), &north()).is_none());
}

#[test]
fn the_place_of_the_hit_comes_with_the_distance() {
    let map = hall();
    let player = player_at(12 * UNIT + UNIT / 2, 12 * UNIT + UNIT / 2);
    let (distance, hit) = cast_to_wall(&map, &player, &east(), &heading(62609, 19367)).unwrap();
    assert_eq!(distance, 6 * UNIT + UNIT / 2);
    assert_eq!((hit.offset, hit.speed, hit.horizontal), (6 * UNIT + UNIT / 2, 62609, false));
}

#[test]
fn ray_from_outside_the_grid_stops_at_once() {
    let map = arena();
    let player = player_at(-5 * UNIT + 100, 3 * UNIT);
    assert_eq!(cast_ray(&map, &player, &east(), &east()), Some((UNIT - 100, false)));
}

#[test]
fn ray_from_the_far_corner_of_the_number_range_ends() {
    let map = arena();
    let player = player_at(i64::MAX, i64::MIN);
    let limit = 131072;
    for (x, y) in [(-limit, limit), (limit, -limit), (limit, limit), (-limit, -limit), (1, 0)] {
        let ray = heading(x, y);
        let hit = cast_ray(&map, &player, &ray, &ray).unwrap();
        assert!(hit.0 >= 0);
    }
}

#[test]
fn ray_that_starts_in_a_wall_cell_ignores_that_cell() {
    let map = arena();
    let player = player_at(0, 5 * UNIT);
    assert_eq!(cast_ray(&map, &player, &east(), &east()), Some((19 * UNIT, false)));
}

#[test]
fn rays_from_inside_a_cell_have_positive_distances() {
    let map = arena();
    let directions = [
        (65536, 0),
        (0, 65536),
        (-65536, 0),
        (0, -65536),
        (46341, 46341),
        (-46341, 46341),
        (46341, -46341),
        (-46341, -46341),
        (65535, 1),
        (1, -65535),
        (-30000, 58000),
        (-2, -1),
    ];
    for px in 1..19 {
        for py in 1..19 {
            if px == 18 && py == 12 {
                continue;
            }
            for (ox, oy) in [(12345, 54321), (1, 1), (UNIT - 1, UNIT - 1), (1, UNIT - 1)] {
                let player = player_at(px * UNIT + ox, py * UNIT + oy);
                for (dx, dy) in directions {
                    let ray = heading(dx, dy);
                    for (hx, hy) in directions {
                        let facing = heading(hx, hy);
                        let dot = dx as i64 * hx as i64 + dy as i64 * hy as i64;
                        let hit = cast_ray(&map, &player, &facing, &ray);
                        assert_eq!(hit.is_some(), dot > 0);
                        if let Some(found) = hit {
                            assert!(found.0 > 0);
                        }
                    }
                }
            }
        }
    }
}
