use raycaster::fixed::UNIT;
use raycaster::game::{
    collect, generate_random_position, is_near, position_at, Controls, Game, GameState, Item,
    PICKUP_RANGE, TURN_STEP, WALK_STEP,
};
use raycaster::grid::{Cell, GridMap};
use raycaster::player::{Heading, Player};

fn bordered(width: usize, height: usize) -> GridMap {
    let mut cells = Vec::new();
    for y in 0..height {
        for x in 0..width {
            let edge = x == 0 || y == 0 || x + 1 == width || y + 1 == height;
            cells.push(if edge { Cell::Wall } else { Cell::Empty });
        }
    }
    GridMap::new(width, height, cells).unwrap()
}

fn east() -> Heading {
    Heading::new(UNIT as i32, 0).unwrap()
}

fn player_at(x: i64, y: i64) -> Player {
    Player::new(x, y, 0, &east())
}

fn idle() -> Controls {
    Controls {
        start: false,
        forward: false,
        backward: false,
        turn_left: false,
        turn_right: false,
        mouse_turn: 0,
    }
}

#[test]
fn reach_is_half_a_cell_along_both_axes() {
    assert_eq!(PICKUP_RANGE, UNIT / 2);
    let item = Item::new(5 * UNIT, 5 * UNIT);
    assert!(is_near(&player_at(5 * UNIT, 5 * UNIT), &item));
    assert!(is_near(&player_at(5 * UNIT + UNIT / 2 - 1, 5 * UNIT - UNIT / 2 + 1), &item));
    assert!(!is_near(&player_at(5 * UNIT + UNIT / 2, 5 * UNIT), &item));
    assert!(!is_near(&player_at(5 * UNIT, 5 * UNIT - UNIT / 2), &item));
    assert!(!is_near(&player_at(i64::MIN, i64::MAX), &Item::new(i64::MAX, i64::MIN)));
}

#[test]
fn a_new_item_is_not_collected() {
    let item = Item::new(3, 4);
    assert_eq!((item.x, item.y, item.collected), (3, 4, false));
}

#[test]
fn the_key_is_collected_within_reach() {
    let mut key = Item::new(5 * UNIT, 5 * UNIT);
    let goal = Item::new(9 * UNIT, 9 * UNIT);
    let won = collect(&player_at(5 * UNIT + 100, 5 * UNIT - 100), &mut key, &goal);
    assert!(key.collected);
    assert!(!won);
    assert_eq!((key.x, key.y), (5 * UNIT, 5 * UNIT));
}

#[test]
fn the_key_stays_where_it_is_out_of_reach() {
    let mut key = Item::new(5 * UNIT, 5 * UNIT);
    let goal = Item::new(9 * UNIT, 9 * UNIT);
    let won = collect(&player_at(7 * UNIT, 5 * UNIT), &mut key, &goal);
    assert!(!key.collected);
    assert!(!won);
}

#[test]
fn the_goal_without_the_key_wins_nothing() {
    let mut key = Item::new(5 * UNIT, 5 * UNIT);
    let goal = Item::new(9 * UNIT, 9 * UNIT);
    let won = collect(&player_at(9 * UNIT, 9 * UNIT), &mut key, &goal);
    assert!(!won);
    assert!(!key.collected);
}

#[test]
fn the_goal_with_the_key_wins() {
    let mut key = Item::new(5 * UNIT, 5 * UNIT);
    let goal = Item::new(9 * UNIT, 9 * UNIT);
    collect(&player_at(5 * UNIT, 5 * UNIT), &mut key, &goal);
    assert!(key.collected);
    let won = collect(&player_at(9 * UNIT + 10, 9 * UNIT - 10), &mut key, &goal);
    assert!(won);
    assert!(key.collected);
}

#[test]
fn a_collected_key_stays_collected() {
    let mut key = Item::new(5 * UNIT, 5 * UNIT);
    let goal = Item::new(9 * UNIT, 9 * UNIT);
    collect(&player_at(5 * UNIT, 5 * UNIT), &mut key, &goal);
    collect(&player_at(15 * UNIT, 15 * UNIT), &mut key, &goal);
    assert!(key.collected);
}

#[test]
fn key_and_goal_in_one_place_win_in_one_frame() {
    let mut key = Item::new(5 * UNIT, 5 * UNIT);
    let goal = Item::new(5 * UNIT + 10, 5 * UNIT);
    let won = collect(&player_at(5 * UNIT, 5 * UNIT), &mut key, &goal);
    assert!(won);
}

#[test]
fn position_at_gives_the_corner_of_an_open_cell() {
    let map = bordered(5, 5);
    assert_eq!(position_at(&map, 2, 3), Some((2 * UNIT, 3 * UNIT)));
    assert_eq!(position_at(&map, 0, 3), None);
    assert_eq!(position_at(&map, 5, 3), None);
    assert_eq!(position_at(&map, 2, usize::MAX), None);
}

#[test]
fn random_positions_are_open_cells_off_the_border() {
    let map = bordered(6, 4);
    let mut seen = Vec::new();
    for _ in 0..200 {
        let (x, y) = generate_random_position(&map).unwrap();
        assert_eq!(x % UNIT, 0);
        assert_eq!(y % UNIT, 0);
        assert!(1 <= x / UNIT && x / UNIT < 5);
        assert!(1 <= y / UNIT && y / UNIT < 3);
        assert!(!map.is_wall(x, y));
        if !seen.contains(&(x, y)) {
            seen.push((x, y));
        }
    }
    assert!(seen.len() > 1);
}

#[test]
fn random_position_fails_on_a_grid_without_an_interior() {
    assert_eq!(generate_random_position(&bordered(2, 9)), None);
    assert_eq!(generate_random_position(&bordered(9, 2)), None);
    assert_eq!(generate_random_position(&GridMap::new(0, 0, Vec::new()).unwrap()), None);
}

#[test]
fn random_position_fails_on_a_solid_grid() {
    let map = GridMap::new(4, 4, vec![Cell::Wall; 16]).unwrap();
    assert_eq!(generate_random_position(&map), None);
}

#[test]
fn a_new_game_waits_on_the_welcome_screen() {
    let game = Game::new(player_at(2 * UNIT, 2 * UNIT), (3 * UNIT, 3 * UNIT), (4 * UNIT, 4 * UNIT));
    assert_eq!(game.state, GameState::WelcomeScreen);
    assert_eq!((game.key.x, game.key.y, game.key.collected), (3 * UNIT, 3 * UNIT, false));
    assert_eq!((game.goal.x, game.goal.y, game.goal.collected), (4 * UNIT, 4 * UNIT, false));
}

#[test]
fn the_welcome_screen_waits_for_the_start() {
    let map = bordered(8, 8);
    let mut game = Game::new(player_at(2 * UNIT, 2 * UNIT), (3 * UNIT, 3 * UNIT), (4 * UNIT, 4 * UNIT));
    let mut controls = idle();
    controls.forward = true;
    assert_eq!(game.update(&controls, &east(), &east(), &map), 0);
    assert_eq!(game.state, GameState::WelcomeScreen);
    assert_eq!(game.player.x, 2 * UNIT);
    controls.start = true;
    assert_eq!(game.update(&controls, &east(), &east(), &map), 0);
    assert_eq!(game.state, GameState::Playing);
    assert_eq!(game.player.x, 2 * UNIT);
}

#[test]
fn a_frame_walks_and_turns() {
    let map = bordered(8, 8);
    let mut game = Game::new(player_at(2 * UNIT, 2 * UNIT), (6 * UNIT, 6 * UNIT), (4 * UNIT, 6 * UNIT));
    game.state = GameState::Playing;
    let mut controls = idle();
    controls.forward = true;
    controls.turn_right = true;
    controls.mouse_turn = 10;
    assert_eq!(game.update(&controls, &east(), &east(), &map), 2);
    assert_eq!((game.player.x, game.player.y), (2 * UNIT + WALK_STEP, 2 * UNIT));
    assert_eq!(game.player.direction, TURN_STEP + 10);
    controls.forward = false;
    controls.backward = true;
    controls.turn_right = false;
    controls.turn_left = true;
    controls.mouse_turn = 0;
    assert_eq!(game.update(&controls, &east(), &east(), &map), 2);
    assert_eq!((game.player.x, game.player.y), (2 * UNIT, 2 * UNIT));
    assert_eq!(game.player.direction, 10);
    assert_eq!(game.state, GameState::Playing);
}

#[test]
fn forward_and_backward_in_one_frame_give_four_cues() {
    let map = bordered(8, 8);
    let mut game = Game::new(player_at(2 * UNIT, 2 * UNIT), (6 * UNIT, 6 * UNIT), (4 * UNIT, 6 * UNIT));
    game.state = GameState::Playing;
    let mut controls = idle();
    controls.forward = true;
    controls.backward = true;
    assert_eq!(game.update(&controls, &east(), &east(), &map), 4);
    assert_eq!((game.player.x, game.player.y), (2 * UNIT, 2 * UNIT));
}

#[test]
fn a_frame_turns_the_camera_plane_to_the_new_heading() {
    let map = bordered(8, 8);
    let mut game = Game::new(player_at(2 * UNIT, 2 * UNIT), (6 * UNIT, 6 * UNIT), (4 * UNIT, 6 * UNIT));
    let mut controls = idle();
    controls.turn_right = true;
    controls.mouse_turn = 7;
    assert_eq!(game.next_direction(&controls), 0);
    game.state = GameState::Playing;
    assert_eq!(game.next_direction(&controls), TURN_STEP + 7);
    let turned = Heading::new(0, UNIT as i32).unwrap();
    game.update(&controls, &east(), &turned, &map);
    assert_eq!(game.player.direction, TURN_STEP + 7);
    assert_eq!((game.player.plane_x, game.player.plane_y), (-37746, 0));
    controls.turn_left = true;
    controls.mouse_turn = -7;
    assert_eq!(game.next_direction(&controls), TURN_STEP);
}

#[test]
fn a_blocked_axis_gives_no_cue() {
    let map = bordered(8, 8);
    let mut game = Game::new(player_at(7 * UNIT - 10, 2 * UNIT), (6 * UNIT, 6 * UNIT), (4 * UNIT, 6 * UNIT));
    game.state = GameState::Playing;
    let mut controls = idle();
    controls.forward = true;
    assert_eq!(game.update(&controls, &east(), &east(), &map), 1);
    assert_eq!((game.player.x, game.player.y), (7 * UNIT - 10, 2 * UNIT));
}

#[test]
fn the_game_is_won_with_the_key_only() {
    let map = bordered(8, 8);
    let mut game = Game::new(player_at(4 * UNIT, 4 * UNIT), (2 * UNIT, 2 * UNIT), (4 * UNIT, 4 * UNIT));
    game.state = GameState::Playing;
    assert_eq!(game.update(&idle(), &east(), &east(), &map), 0);
    assert_eq!(game.state, GameState::Playing);
    assert!(!game.key.collected);
    game.player.x = 2 * UNIT;
    game.player.y = 2 * UNIT;
    game.update(&idle(), &east(), &east(), &map);
    assert!(game.key.collected);
    assert_eq!(game.state, GameState::Playing);
    game.player.x = 4 * UNIT;
    game.player.y = 4 * UNIT;
    game.update(&idle(), &east(), &east(), &map);
    assert_eq!(game.state, GameState::WinScreen);
}

#[test]
fn the_win_screen_stays() {
    let map = bordered(8, 8);
    let mut game = Game::new(player_at(4 * UNIT, 4 * UNIT), (2 * UNIT, 2 * UNIT), (5 * UNIT, 5 * UNIT));
    game.state = GameState::WinScreen;
    let mut controls = idle();
    controls.forward = true;
    controls.start = true;
    controls.mouse_turn = 99;
    assert_eq!(game.update(&controls, &east(), &east(), &map), 0);
    assert_eq!(game.state, GameState::WinScreen);
    assert_eq!((game.player.x, game.player.y, game.player.direction), (4 * UNIT, 4 * UNIT, 0));
}

#[test]
fn random_position_succeeds_where_the_interior_is_open() {
    let single = bordered(3, 3);
    for _ in 0..50 {
        assert_eq!(generate_random_position(&single), Some((UNIT, UNIT)));
    }
    let open = GridMap::new(5, 4, vec![Cell::Empty; 20]).unwrap();
    for _ in 0..50 {
        assert!(generate_random_position(&open).is_some());
    }
}
