use raycaster::fixed::{cell_index, floor_div, UNIT};
use raycaster::grid::{Cell, GridMap, MAX_SIDE};

fn bordered(width: usize, height: usize) -> GridMap {
    let mut cells = Vec::new();
    for y in 0..height {
        for x in 0..width {
            let edge = x == 0 || y == 0 || x + 1 == width || y + 1 == height;
            cells.push(if edge { Cell::Wall } else { Cell::Empty });
        }
    }
    GridMap::new(width, height, cells).unwrap()
}

#[test]
fn cell_index_floors_toward_negative_infinity() {
    assert_eq!(cell_index(0), 0);
    assert_eq!(cell_index(UNIT - 1), 0);
    assert_eq!(cell_index(UNIT), 1);
    assert_eq!(cell_index(-1), -1);
    assert_eq!(cell_index(-UNIT), -1);
    assert_eq!(cell_index(-UNIT - 1), -2);
    assert_eq!(cell_index(i64::MIN), -140737488355328);
    assert_eq!(cell_index(i64::MAX), 140737488355327);
}

#[test]
fn floor_div_rounds_down() {
    assert_eq!(floor_div(7, 2), 3);
    assert_eq!(floor_div(-7, 2), -4);
    assert_eq!(floor_div(-8, 2), -4);
    assert_eq!(floor_div(0, 5), 0);
    assert_eq!(floor_div(-1, 65536), -1);
}

#[test]
fn new_rejects_a_wrong_cell_count() {
    assert!(GridMap::new(3, 3, vec![Cell::Empty; 8]).is_none());
    assert!(GridMap::new(3, 3, vec![Cell::Empty; 10]).is_none());
    assert!(GridMap::new(3, 3, vec![Cell::Empty; 9]).is_some());
}

#[test]
fn new_rejects_a_side_over_the_limit() {
    assert!(GridMap::new(MAX_SIDE + 1, 0, Vec::new()).is_none());
    assert!(GridMap::new(0, MAX_SIDE + 1, Vec::new()).is_none());
    assert!(GridMap::new(MAX_SIDE, 0, Vec::new()).is_some());
}

#[test]
fn new_keeps_the_size() {
    let map = GridMap::new(4, 2, vec![Cell::Empty; 8]).unwrap();
    assert_eq!(map.width(), 4);
    assert_eq!(map.height(), 2);
}

#[test]
fn cells_are_stored_row_by_row() {
    let mut cells = vec![Cell::Empty; 6];
    cells[1 * 3 + 2] = Cell::Wall;
    let map = GridMap::new(3, 2, cells).unwrap();
    assert!(map.is_wall_cell(2, 1));
    assert!(!map.is_wall_cell(1, 1));
    assert!(!map.is_wall_cell(2, 0));
    assert!(!map.is_wall_cell(0, 0));
}

#[test]
fn every_cell_outside_the_grid_is_a_wall() {
    let map = GridMap::new(3, 2, vec![Cell::Empty; 6]).unwrap();
    assert!(map.is_wall_cell(-1, 0));
    assert!(map.is_wall_cell(0, -1));
    assert!(map.is_wall_cell(3, 0));
    assert!(map.is_wall_cell(0, 2));
    assert!(map.is_wall_cell(i64::MIN, i64::MIN));
    assert!(map.is_wall_cell(i64::MAX, i64::MAX));
}

#[test]
fn every_point_outside_the_grid_is_a_wall() {
    let map = GridMap::new(3, 2, vec![Cell::Empty; 6]).unwrap();
    assert!(map.is_wall(-1, 0));
    assert!(map.is_wall(0, -1));
    assert!(map.is_wall(3 * UNIT, 0));
    assert!(map.is_wall(0, 2 * UNIT));
    assert!(map.is_wall(i64::MIN, 0));
    assert!(map.is_wall(i64::MAX, i64::MAX));
    assert!(!map.is_wall(3 * UNIT - 1, 2 * UNIT - 1));
    assert!(!map.is_wall(0, 0));
}

#[test]
fn an_empty_grid_is_solid_everywhere() {
    let map = GridMap::new(0, 0, Vec::new()).unwrap();
    assert!(map.is_wall(0, 0));
    assert!(map.is_wall_cell(0, 0));
}

#[test]
fn a_point_belongs_to_the_cell_that_contains_it() {
    let map = bordered(5, 5);
    assert!(map.is_wall(UNIT - 1, 2 * UNIT));
    assert!(!map.is_wall(UNIT, 2 * UNIT));
    assert!(!map.is_wall(4 * UNIT - 1, 2 * UNIT));
    assert!(map.is_wall(4 * UNIT, 2 * UNIT));
    assert!(map.is_wall(2 * UNIT + UNIT / 2, UNIT / 2));
    assert!(!map.is_wall(2 * UNIT + UNIT / 2, UNIT + UNIT / 2));
}
