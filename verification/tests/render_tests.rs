use image::{DynamicImage, GrayImage, Luma, Rgb, Rgb32FImage, RgbImage};
use raycaster::fixed::UNIT;
use raycaster::framebuffer::Framebuffer;
use raycaster::grid::{Cell, GridMap};
use raycaster::player::{Heading, Player};
use raycaster::render::{
    column_offset, pack_rgb, render_column, render_scene, wall_height, FLOOR_COLOR, SKY_COLOR,
};

/// A 20 by 20 grid with a solid border and one more solid cell at (18, 12).
fn arena() -> GridMap {
    let mut cells = Vec::new();
    for y in 0..20 {
        for x in 0..20 {
            let edge = x == 0 || y == 0 || x == 19 || y == 19;
            let pillar = x == 18 && y == 12;
            cells.push(if edge || pillar { Cell::Wall } else { Cell::Empty });
        }
    }
    GridMap::new(20, 20, cells).unwrap()
}

fn east() -> Heading {
    Heading::new(UNIT as i32, 0).unwrap()
}

fn west() -> Heading {
    Heading::new(-(UNIT as i32), 0).unwrap()
}

fn north() -> Heading {
    Heading::new(0, UNIT as i32).unwrap()
}

fn player_at(x: i64, y: i64, heading: &Heading) -> Player {
    Player::new(x, y, 0, heading)
}

/// A texture whose pixel at `(x, y)` is red `10 x`, green `20 y`, blue 7.
fn texture(width: u32, height: u32) -> DynamicImage {
    DynamicImage::ImageRgb8(RgbImage::from_fn(width, height, |x, y| {
        Rgb([(10 * x) as u8, (20 * y) as u8, 7])
    }))
}

fn texel(x: u32, y: u32) -> u32 {
    ((10 * x) << 16) | ((20 * y) << 8) | 7
}

fn column(fb: &Framebuffer, x: usize) -> Vec<u32> {
    (0..fb.height()).map(|y| fb.pixel(x, y).unwrap()).collect()
}

/// Sky down to `start`, the texel `wall` down to `end`, floor below.
fn strip(height: usize, start: usize, end: usize, wall: u32) -> Vec<u32> {
    let mut rows = vec![SKY_COLOR; start];
    rows.extend(vec![wall; end - start]);
    rows.extend(vec![FLOOR_COLOR; height - end]);
    rows
}

#[test]
fn colours_are_packed_red_first() {
    assert_eq!(pack_rgb((0x12, 0x34, 0x56)), 0x123456);
    assert_eq!(pack_rgb((255, 255, 255)), 0xFFFFFF);
    assert_eq!(pack_rgb((0, 0, 0)), 0);
    assert_eq!(pack_rgb((1, 0, 0)), 0x010000);
    assert_eq!(SKY_COLOR, 0x87CEEB);
    assert_eq!(FLOOR_COLOR, 0x8B4513);
}

#[test]
fn column_angles_span_the_field_of_view() {
    assert_eq!(column_offset(75492, 0, 640), -37746);
    assert_eq!(column_offset(75492, 160, 640), -18873);
    assert_eq!(column_offset(75492, 320, 640), 0);
    assert_eq!(column_offset(75492, 639, 640), 37628);
    assert_eq!(column_offset(75492, 1, 3), -12582);
    assert_eq!(column_offset(75492, 2, 3), 12582);
    assert_eq!(column_offset(0, 5, 9), 0);
    assert_eq!(column_offset(i64::MAX, 0, usize::MAX), -4611686018427387903);
    assert_eq!(column_offset(i64::MIN, 0, 1), 4611686018427387904);
}

#[test]
fn wall_height_is_the_screen_height_over_the_distance() {
    assert_eq!(wall_height(480, 6 * UNIT), 80);
    assert_eq!(wall_height(480, UNIT), 480);
    assert_eq!(wall_height(480, UNIT / 2), 480);
    assert_eq!(wall_height(480, 700 * UNIT), 0);
    assert_eq!(wall_height(480, 1), 480);
    assert_eq!(wall_height(480, UNIT + 1), 479);
    assert_eq!(wall_height(480, 6 * UNIT + UNIT / 2), 73);
    assert_eq!(wall_height(0, UNIT), 0);
    assert_eq!(wall_height(usize::MAX, i64::MAX), 131072);
    assert_eq!(wall_height(usize::MAX, 1), usize::MAX);
}

#[test]
fn a_column_shows_sky_wall_and_floor() {
    let map = arena();
    let player = player_at(12 * UNIT, 12 * UNIT + 3 * UNIT / 4, &east());
    let mut fb = Framebuffer::new(3, 12);
    render_column(&map, &player, &mut fb, &texture(4, 2), 1, &east(), &east());
    let sky = SKY_COLOR;
    let floor = FLOOR_COLOR;
    assert_eq!(
        column(&fb, 1),
        vec![sky, sky, sky, sky, sky, texel(3, 0), texel(3, 1), floor, floor, floor, floor, floor]
    );
    assert_eq!(column(&fb, 0), vec![0; 12]);
    assert_eq!(column(&fb, 2), vec![0; 12]);
}

#[test]
fn a_near_wall_fills_the_column() {
    let map = arena();
    let player = player_at(17 * UNIT + UNIT / 2, 12 * UNIT, &east());
    let mut fb = Framebuffer::new(1, 12);
    render_column(&map, &player, &mut fb, &texture(4, 2), 0, &east(), &east());
    let mut expected = vec![texel(0, 0); 6];
    expected.extend(vec![texel(0, 1); 6]);
    assert_eq!(column(&fb, 0), expected);
}

#[test]
fn a_far_wall_leaves_sky_and_floor_only() {
    let map = arena();
    let player = player_at(12 * UNIT, 12 * UNIT, &east());
    let mut fb = Framebuffer::new(1, 5);
    render_column(&map, &player, &mut fb, &texture(4, 2), 0, &east(), &east());
    assert_eq!(column(&fb, 0), vec![SKY_COLOR, SKY_COLOR, FLOOR_COLOR, FLOOR_COLOR, FLOOR_COLOR]);
}

#[test]
fn walls_show_in_every_direction() {
    let map = arena();
    let mut fb = Framebuffer::new(1, 44);
    // toward smaller x the border is 11 cells away: a strip of four rows
    let player = player_at(12 * UNIT, 12 * UNIT + UNIT / 2, &west());
    render_column(&map, &player, &mut fb, &texture(4, 1), 0, &west(), &west());
    assert_eq!(column(&fb, 0), strip(44, 20, 24, texel(2, 0)));
    // toward smaller y the border is 11 cells away as well
    let south = Heading::new(0, -(UNIT as i32)).unwrap();
    let player = player_at(12 * UNIT + UNIT / 4, 12 * UNIT, &south);
    render_column(&map, &player, &mut fb, &texture(4, 1), 0, &south, &south);
    assert_eq!(column(&fb, 0), strip(44, 20, 24, texel(1, 0)));
}

#[test]
fn a_distance_of_zero_leaves_the_column() {
    let map = arena();
    let player = player_at(UNIT, 5 * UNIT, &west());
    let mut fb = Framebuffer::new(1, 12);
    fb.clear(0x111111);
    render_column(&map, &player, &mut fb, &texture(4, 2), 0, &west(), &west());
    assert_eq!(column(&fb, 0), vec![0x111111; 12]);
}

#[test]
fn a_ray_that_does_not_look_ahead_leaves_the_column() {
    let map = arena();
    let player = player_at(12 * UNIT, 12 * UNIT, &east());
    let mut fb = Framebuffer::new(1, 12);
    fb.clear(0x111111);
    render_column(&map, &player, &mut fb, &texture(4, 2), 0, &east(), &north());
    assert_eq!(column(&fb, 0), vec![0x111111; 12]);
    render_column(&map, &player, &mut fb, &texture(4, 2), 0, &east(), &west());
    assert_eq!(column(&fb, 0), vec![0x111111; 12]);
}

#[test]
fn a_column_outside_the_framebuffer_is_ignored() {
    let map = arena();
    let player = player_at(12 * UNIT, 12 * UNIT, &east());
    let mut fb = Framebuffer::new(2, 12);
    render_column(&map, &player, &mut fb, &texture(4, 2), 2, &east(), &east());
    render_column(&map, &player, &mut fb, &texture(4, 2), usize::MAX, &east(), &east());
    assert!(fb.buffer().iter().all(|&c| c == 0));
}

#[test]
fn a_texture_without_pixels_leaves_the_wall_strip() {
    let map = arena();
    let player = player_at(12 * UNIT, 12 * UNIT, &east());
    let mut fb = Framebuffer::new(1, 12);
    fb.clear(0x111111);
    render_column(&map, &player, &mut fb, &texture(0, 0), 0, &east(), &east());
    assert_eq!(column(&fb, 0), strip(12, 5, 7, 0x111111));
}

#[test]
fn a_texture_of_floats_leaves_the_wall_strip() {
    let map = arena();
    let player = player_at(12 * UNIT, 12 * UNIT, &east());
    let floats = DynamicImage::ImageRgb32F(Rgb32FImage::from_pixel(2, 2, Rgb([f32::NAN, 0.5, 0.25])));
    let mut fb = Framebuffer::new(1, 12);
    fb.clear(0x111111);
    render_column(&map, &player, &mut fb, &floats, 0, &east(), &east());
    assert_eq!(column(&fb, 0), strip(12, 5, 7, 0x111111));
}

#[test]
fn the_texture_column_follows_the_point_of_the_hit() {
    let map = arena();
    let player = player_at(12 * UNIT + UNIT / 2, 12 * UNIT + UNIT / 2, &east());
    let mut fb = Framebuffer::new(1, 28);
    // the ray at the angle 0.3 meets the face x = 19 at y = 14.51, 6.5 cells
    // ahead: a strip of four rows from row 12 on
    let ray = Heading::new(62609, 19367).unwrap();
    render_column(&map, &player, &mut fb, &texture(4, 1), 0, &east(), &ray);
    assert_eq!(column(&fb, 0), strip(28, 12, 16, texel(2, 0)));
    // toward larger y the border is 7 cells ahead, met at x = 12.25 and x = 12.75
    let player = player_at(12 * UNIT + UNIT / 4, 12 * UNIT, &north());
    render_column(&map, &player, &mut fb, &texture(4, 1), 0, &north(), &north());
    assert_eq!(column(&fb, 0), strip(28, 12, 16, texel(1, 0)));
    let player = player_at(12 * UNIT + 3 * UNIT / 4, 12 * UNIT, &north());
    render_column(&map, &player, &mut fb, &texture(4, 1), 0, &north(), &north());
    assert_eq!(column(&fb, 0), strip(28, 12, 16, texel(3, 0)));
}

#[test]
fn a_grey_texture_is_read_as_rgb() {
    let map = arena();
    let player = player_at(12 * UNIT, 12 * UNIT, &east());
    let grey = DynamicImage::ImageLuma8(GrayImage::from_pixel(2, 2, Luma([100])));
    let mut fb = Framebuffer::new(1, 12);
    render_column(&map, &player, &mut fb, &grey, 0, &east(), &east());
    assert_eq!(fb.pixel(0, 5), Some(0x646464));
}

#[test]
fn a_flat_wall_is_drawn_flat() {
    let map = arena();
    let player = player_at(12 * UNIT + UNIT / 2, 12 * UNIT + UNIT / 2, &east());
    // unit vectors of the angles -0.3, 0.1, 0 and 0.3
    let rays = vec![
        Heading::new(62609, -19367).unwrap(),
        Heading::new(65209, 6543).unwrap(),
        east(),
        Heading::new(62609, 19367).unwrap(),
    ];
    let mut fb = Framebuffer::new(4, 130);
    render_scene(&map, &player, &mut fb, &texture(1, 1), &east(), &rays);
    // columns 0, 1 and 3 see the face x = 19, 6.5 cells ahead: twenty rows;
    // column 2 sees the pillar, 5.5 cells ahead: twenty-three rows
    assert_eq!(column(&fb, 0), strip(130, 55, 75, texel(0, 0)));
    assert_eq!(column(&fb, 1), strip(130, 55, 75, texel(0, 0)));
    assert_eq!(column(&fb, 3), strip(130, 55, 75, texel(0, 0)));
    assert_eq!(column(&fb, 2), strip(130, 54, 76, texel(0, 0)));
}

#[test]
fn the_scene_renders_every_column_by_its_own_ray() {
    let map = arena();
    let heading = Heading::new(46341, 46341).unwrap();
    let player = player_at(12 * UNIT + 1000, 12 * UNIT + UNIT / 3, &heading);
    let rays = vec![
        Heading::new(65536, 0).unwrap(),
        Heading::new(60000, 26000).unwrap(),
        heading,
        Heading::new(26000, 60000).unwrap(),
        Heading::new(0, 65536).unwrap(),
    ];
    let mut fb = Framebuffer::new(5, 60);
    fb.clear(0x111111);
    render_scene(&map, &player, &mut fb, &texture(4, 3), &heading, &rays);
    let mut single = Framebuffer::new(5, 60);
    single.clear(0x111111);
    for x in 0..5 {
        render_column(&map, &player, &mut single, &texture(4, 3), x, &heading, &rays[x]);
    }
    assert_eq!(fb.buffer(), single.buffer());
    assert!(fb.buffer().iter().all(|&c| c != 0x111111));
    assert!(column(&fb, 0) != column(&fb, 4));
}

#[test]
fn the_scene_of_an_empty_framebuffer_is_empty() {
    let map = arena();
    let player = player_at(12 * UNIT, 12 * UNIT, &east());
    let mut none = Framebuffer::new(0, 12);
    render_scene(&map, &player, &mut none, &texture(4, 2), &east(), &Vec::new());
    assert_eq!(none.buffer().len(), 0);
}
