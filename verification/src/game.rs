//! Pickups, the state of the game, and the update of one frame.

use vstd::prelude::*;
use rand::Rng;
use crate::fixed::UNIT;
use crate::grid::{Grid, GridMap};
use crate::player::{plane_of, Heading, Player, Vector};

verus! {

/// A pickup marker: a world position and whether it was collected.
#[derive(Clone, Copy, Debug)]
pub struct Item {
    pub x: i64,
    pub y: i64,
    pub collected: bool,
}

/// The screens of the game.
#[derive(Clone, Copy, Debug, PartialEq, Eq)]
pub enum GameState {
    WelcomeScreen,
    Playing,
    WinScreen,
}

/// What the player asks for in one frame: to start the game, to walk, to
/// turn by the keys, and to turn by the mouse (an angle to the right).
#[derive(Clone, Copy, Debug)]
pub struct Controls {
    pub start: bool,
    pub forward: bool,
    pub backward: bool,
    pub turn_left: bool,
    pub turn_right: bool,
    pub mouse_turn: i64,
}

/// The game: its screen, the player, and the two pickups.
#[derive(Clone, Copy, Debug)]
pub struct Game {
    pub state: GameState,
    pub player: Player,
    pub key: Item,
    pub goal: Item,
}

/// A pickup is reached from less than this far away along both axes: half a cell.
pub const PICKUP_RANGE: i64 = 32768;

/// Distance walked in one frame: a twentieth of a cell.
pub const WALK_STEP: i64 = 3277;

/// Angle turned by the keys in one frame: 0.03 radians.
pub const TURN_STEP: i64 = 1966;

/// Bound on the facing angle, and on the mouse turn, under which a frame
/// cannot overflow the angle.
pub const TURN_LIMIT: i64 = 2305843009213693952;

/// Number of random cells tried before the placement of a pickup gives up.
pub const PLACEMENT_ATTEMPTS: usize = 10000;

/// Whether the player is within reach of the item: closer than
/// `PICKUP_RANGE` along x and along y.
pub open spec fn near(player: Player, item: Item) -> bool {
    &&& -PICKUP_RANGE < player.x - item.x < PICKUP_RANGE
    &&& -PICKUP_RANGE < player.y - item.y < PICKUP_RANGE
}

/// Whether the player is within reach of the item.
pub fn is_near(player: &Player, item: &Item) -> (b: bool)
    ensures
        b == near(*player, *item),
{
    let dx: i128 = player.x as i128 - item.x as i128;
    let dy: i128 = player.y as i128 - item.y as i128;
    let range: i128 = PICKUP_RANGE as i128;
    -range < dx && dx < range && -range < dy && dy < range
}

/// The pickups of one frame: the key is collected when the player is within
/// its reach, and stays collected; the game is won when the key is
/// collected and the player is within reach of the goal. Reaching the goal
/// without the key wins nothing.
pub fn collect(player: &Player, key: &mut Item, goal: &Item) -> (won: bool)
    ensures
        final(key).collected == (old(key).collected || near(*player, *old(key))),
        final(key).x == old(key).x,
        final(key).y == old(key).y,
        won == (final(key).collected && near(*player, *goal)),
        old(key).collected ==> final(key).collected,
        near(*player, *old(key)) ==> final(key).collected,
        !final(key).collected ==> !won,
        final(key).collected && near(*player, *goal) ==> won,
{
    if is_near(player, key) {
        key.collected = true;
    }
    key.collected && is_near(player, goal)
}

impl Item {
    /// A pickup at `(x, y)` that is not collected yet.
    pub fn new(x: i64, y: i64) -> (item: Item)
        ensures
            item == (Item { x, y, collected: false }),
    {
        Item { x, y, collected: false }
    }
}

/// Whether a pickup may be placed in the cell `(cx, cy)`: the cell is not
/// solid and does not lie on the border of the grid.
pub open spec fn placeable(grid: Grid, cx: int, cy: int) -> bool {
    &&& 1 <= cx < grid.width - 1
    &&& 1 <= cy < grid.height - 1
    &&& !grid.wall_at(cx, cy)
}

/// Whether the grid has cells off its border, and none of them is solid:
/// then every cell that can be drawn for a pickup is free.
pub open spec fn interior_open(grid: Grid) -> bool {
    &&& grid.width >= 3
    &&& grid.height >= 3
    &&& forall|cx: int, cy: int|
        1 <= cx < grid.width - 1 && 1 <= cy < grid.height - 1 ==> !#[trigger] grid.wall_at(cx, cy)
}

/// The world position of a pickup in the cell `(cx, cy)`, if the cell is not solid.
pub fn position_at(map: &GridMap, cx: usize, cy: usize) -> (position: Option<(i64, i64)>)
    ensures
        position == (if map@.wall_at(cx as int, cy as int) {
            None
        } else {
            Some(((cx * UNIT) as i64, (cy * UNIT) as i64))
        }),
        position matches Some(at) ==> at.0 == cx * UNIT && at.1 == cy * UNIT,
{
    if cx >= map.width() || cy >= map.height() {
        return None;
    }
    if map.is_wall_cell(cx as i64, cy as i64) {
        None
    } else {
        Some(((cx as i64) * UNIT, (cy as i64) * UNIT))
    }
}

/// Calls `Rng::gen_range` on `rand::thread_rng()` with the half-open range
/// from `low` to `high`, which panics on an empty range and returns a number
/// inside the range otherwise. Which number is left open.
#[verifier::external_body]
fn random_between(low: usize, high: usize) -> (n: usize)
    requires
        low < high,
    ensures
        low <= n < high,
{
    rand::thread_rng().gen_range(low..high)
}

/// Picks a random cell for a pickup: draws cells that do not lie on the
/// border until one is not solid, `PLACEMENT_ATTEMPTS` times at most, and
/// returns its world position. Fails when the grid has no cell off its
/// border, and when no cell drawn was open. Where no cell off the border is
/// solid, the first cell drawn is free, so the placement succeeds; where
/// some are, the draws decide.
pub fn generate_random_position(map: &GridMap) -> (position: Option<(i64, i64)>)
    ensures
        position matches Some(at) ==> exists|cx: int, cy: int|
            #![trigger placeable(map@, cx, cy)]
            placeable(map@, cx, cy) && at.0 == cx * UNIT && at.1 == cy * UNIT,
        map@.width < 3 || map@.height < 3 ==> position is None,
        interior_open(map@) ==> position is Some,
        position is None ==> map@.width < 3 || map@.height < 3 || exists|cx: int, cy: int|
            1 <= cx < map@.width - 1 && 1 <= cy < map@.height - 1 && #[trigger] map@.wall_at(cx, cy),
{
    let width: usize = map.width();
    let height: usize = map.height();
    if width < 3 || height < 3 {
        return None;
    }
    let mut attempt: usize = 0;
    while attempt < PLACEMENT_ATTEMPTS
        invariant
            width == map@.width,
            height == map@.height,
            width >= 3,
            height >= 3,
            attempt <= PLACEMENT_ATTEMPTS,
            attempt > 0 ==> exists|cx: int, cy: int|
                1 <= cx < map@.width - 1 && 1 <= cy < map@.height - 1 && #[trigger] map@.wall_at(
                    cx,
                    cy,
                ),
        decreases PLACEMENT_ATTEMPTS - attempt,
    {
        let cx: usize = random_between(1, width - 1);
        let cy: usize = random_between(1, height - 1);
        let position: Option<(i64, i64)> = position_at(map, cx, cy);
        if position.is_some() {
            assert(placeable(map@, cx as int, cy as int));
            return position;
        }
        assert(map@.wall_at(cx as int, cy as int));
        attempt = attempt + 1;
    }
    assert(attempt == PLACEMENT_ATTEMPTS);
    None
}

impl Game {
    /// A game on its welcome screen, with neither pickup collected.
    pub fn new(player: Player, key: (i64, i64), goal: (i64, i64)) -> (game: Game)
        ensures
            game == (Game {
                state: GameState::WelcomeScreen,
                player,
                key: Item { x: key.0, y: key.1, collected: false },
                goal: Item { x: goal.0, y: goal.1, collected: false },
            }),
    {
        Game {
            state: GameState::WelcomeScreen,
            player,
            key: Item::new(key.0, key.1),
            goal: Item::new(goal.0, goal.1),
        }
    }

    /// The angle that the player turns to the right in one frame: the turns
    /// by the keys and the turn by the mouse.
    pub open spec fn turn(controls: Controls) -> int {
        (if controls.turn_left {
            -TURN_STEP
        } else {
            0
        }) + (if controls.turn_right {
            TURN_STEP as int
        } else {
            0
        }) + controls.mouse_turn
    }

    /// The angle that the player faces after the frame, while the game is
    /// played; on the other screens the player does not turn.
    pub open spec fn turned_direction(self, controls: Controls) -> int {
        if self.state == GameState::Playing {
            self.player.direction + Self::turn(controls)
        } else {
            self.player.direction as int
        }
    }

    /// The player after the walking and turning of one frame: a step forward
    /// and a step backward along `heading`, each if asked for and each
    /// checked against the grid, then the turns by the keys and the mouse,
    /// after which the player faces along `turned`.
    pub open spec fn walked(
        self,
        grid: Grid,
        controls: Controls,
        heading: Vector,
        turned: Vector,
    ) -> Player {
        let sx = Player::step_x(heading, WALK_STEP as int);
        let sy = Player::step_y(heading, WALK_STEP as int);
        let ahead = if controls.forward {
            self.player.moved(grid, sx, sy)
        } else {
            self.player
        };
        let back = if controls.backward {
            ahead.moved(grid, -sx, -sy)
        } else {
            ahead
        };
        Player {
            direction: (back.direction + Self::turn(controls)) as i64,
            plane_x: plane_of(turned).x as i64,
            plane_y: plane_of(turned).y as i64,
            ..back
        }
    }

    /// The game after one frame. The welcome screen waits for the start;
    /// the win screen stays. While playing, the player walks and turns,
    /// then the key is collected if it is within reach, and the game is
    /// won if the key is collected and the goal is within reach.
    pub open spec fn stepped(
        self,
        grid: Grid,
        controls: Controls,
        heading: Vector,
        turned: Vector,
    ) -> Game {
        match self.state {
            GameState::WelcomeScreen => Game {
                state: if controls.start {
                    GameState::Playing
                } else {
                    GameState::WelcomeScreen
                },
                ..self
            },
            GameState::WinScreen => self,
            GameState::Playing => {
                let player = self.walked(grid, controls, heading, turned);
                let key = Item {
                    collected: self.key.collected || near(player, self.key),
                    ..self.key
                };
                Game {
                    state: if key.collected && near(player, self.goal) {
                        GameState::WinScreen
                    } else {
                        GameState::Playing
                    },
                    player,
                    key,
                    goal: self.goal,
                }
            },
        }
    }

    /// Number of footstep cues of one frame: one for each step along an axis
    /// that the walking of the frame takes.
    pub open spec fn cues(self, grid: Grid, controls: Controls, heading: Vector) -> int {
        let sx = Player::step_x(heading, WALK_STEP as int);
        let sy = Player::step_y(heading, WALK_STEP as int);
        let start = self.player;
        let ahead = if controls.forward {
            start.moved(grid, sx, sy)
        } else {
            start
        };
        let back = if controls.backward {
            ahead.moved(grid, -sx, -sy)
        } else {
            ahead
        };
        if self.state != GameState::Playing {
            0
        } else {
            (if controls.forward && !grid.wall_at_point(start.x + sx, start.y as int) {
                1int
            } else {
                0
            }) + (if controls.forward && !grid.wall_at_point(ahead.x as int, start.y + sy) {
                1int
            } else {
                0
            }) + (if controls.backward && !grid.wall_at_point(ahead.x - sx, ahead.y as int) {
                1int
            } else {
                0
            }) + (if controls.backward && !grid.wall_at_point(back.x as int, ahead.y - sy) {
                1int
            } else {
                0
            })
        }
    }

    /// The angle that the player will face after the frame under `controls`:
    /// the angle whose unit vector `update` asks for as `turned`.
    pub fn next_direction(&self, controls: &Controls) -> (direction: i64)
        requires
            -TURN_LIMIT <= self.player.direction <= TURN_LIMIT,
            -TURN_LIMIT <= controls.mouse_turn <= TURN_LIMIT,
        ensures
            direction == self.turned_direction(*controls),
    {
        match self.state {
            GameState::Playing => {
                let mut turn: i64 = controls.mouse_turn;
                if controls.turn_left {
                    turn = turn - TURN_STEP;
                }
                if controls.turn_right {
                    turn = turn + TURN_STEP;
                }
                self.player.direction + turn
            },
            _ => self.player.direction,
        }
    }

    /// Advances the game by one frame under `controls`, where `heading` is
    /// the unit vector of the angle that the player faces before the frame
    /// and `turned` the unit vector of the angle faced after it, which
    /// `next_direction` gives. Returns the number of footstep cues of the
    /// frame.
    pub fn update(
        &mut self,
        controls: &Controls,
        heading: &Heading,
        turned: &Heading,
        map: &GridMap,
    ) -> (cues: u8)
        requires
            -TURN_LIMIT <= old(self).player.direction <= TURN_LIMIT,
            -TURN_LIMIT <= controls.mouse_turn <= TURN_LIMIT,
        ensures
            *final(self) == old(self).stepped(map@, *controls, heading@, turned@),
            cues == old(self).cues(map@, *controls, heading@),
            final(self).player.direction == old(self).turned_direction(*controls),
            old(self).state == GameState::Playing ==> final(self).player.faces(turned@),
            old(self).key.collected ==> final(self).key.collected,
            final(self).state == GameState::WinScreen && old(self).state != GameState::WinScreen
                ==> final(self).key.collected && near(final(self).player, final(self).goal),
            old(self).state == GameState::Playing && old(self).player.in_open(map@)
                ==> final(self).player.in_open(map@),
    {
        match self.state {
            GameState::WelcomeScreen => {
                if controls.start {
                    self.state = GameState::Playing;
                }
                0
            },
            GameState::WinScreen => 0,
            GameState::Playing => {
                let mut cues: u8 = 0;
                let mut player: Player = self.player;
                if controls.forward {
                    let moved = player.move_forward(WALK_STEP, heading, map);
                    if moved.0 {
                        cues = cues + 1;
                    }
                    if moved.1 {
                        cues = cues + 1;
                    }
                }
                if controls.backward {
                    let moved = player.move_backward(WALK_STEP, heading, map);
                    if moved.0 {
                        cues = cues + 1;
                    }
                    if moved.1 {
                        cues = cues + 1;
                    }
                }
                let mut turn: i64 = controls.mouse_turn;
                if controls.turn_left {
                    turn = turn - TURN_STEP;
                }
                if controls.turn_right {
                    turn = turn + TURN_STEP;
                }
                player.turn_right(turn, turned);
                let mut key: Item = self.key;
                let won: bool = collect(&player, &mut key, &self.goal);
                self.player = player;
                self.key = key;
                if won {
                    self.state = GameState::WinScreen;
                }
                cues
            },
        }
    }
}

} // verus!
