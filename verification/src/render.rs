//! Projection of the rays onto the screen, one textured wall strip per column.

use vstd::prelude::*;
use image::GenericImageView;
use crate::fixed::{div_toward_zero, floor_div, frac_of, toward_zero, UNIT};
use crate::framebuffer::Framebuffer;
use crate::grid::{Grid, GridMap};
use crate::player::{Heading, Player, Vector};
use crate::raycaster::{cast_to_wall, ray_from, Ray, WallHit};

verus! {

/// Colour of the rows above the wall strip.
pub const SKY_COLOR: u32 = 0x87CEEB;

/// Colour of the rows below the wall strip.
pub const FLOOR_COLOR: u32 = 0x8B4513;

/// The image type of the `image` crate, opaque to the verifier.
#[verifier::external_type_specification]
#[verifier::external_body]
pub struct ExDynamicImage(image::DynamicImage);

/// Number of pixel columns of an image, as `DynamicImage::width` reports it.
pub uninterp spec fn image_width(texture: image::DynamicImage) -> nat;

/// Number of pixel rows of an image, as `DynamicImage::height` reports it.
pub uninterp spec fn image_height(texture: image::DynamicImage) -> nat;

/// Red, green and blue of every pixel of an image, by column and row, as
/// `GenericImageView::get_pixel` reports them.
pub uninterp spec fn image_pixels(texture: image::DynamicImage) -> Map<(int, int), (u8, u8, u8)>;

/// `DynamicImage::width` returns the number of pixel columns of the image.
pub assume_specification[ image::DynamicImage::width ](texture: &image::DynamicImage) -> (w: u32)
    ensures
        w == image_width(*texture),
;

/// `DynamicImage::height` returns the number of pixel rows of the image.
pub assume_specification[ image::DynamicImage::height ](texture: &image::DynamicImage) -> (h: u32)
    ensures
        h == image_height(*texture),
;

/// Whether an image holds its channels as 32-bit floating-point numbers:
/// whether it is one of the variants `ImageRgb32F` and `ImageRgba32F` of
/// `DynamicImage`.
pub uninterp spec fn image_is_float(texture: image::DynamicImage) -> bool;

/// Tells the variants of `DynamicImage` apart: whether the image is one of
/// the two that hold floating-point channels.
#[verifier::external_body]
fn holds_floats(texture: &image::DynamicImage) -> (floats: bool)
    ensures
        floats == image_is_float(*texture),
{
    match texture {
        image::DynamicImage::ImageRgb32F(_) => true,
        image::DynamicImage::ImageRgba32F(_) => true,
        _ => false,
    }
}

/// Calls `GenericImageView::get_pixel`, which converts the pixel at `(x, y)`
/// to 8-bit RGBA, and hands on the red, green and blue of what it returns.
/// The call panics for a position outside the image, and it can panic on a
/// floating-point channel that is not a number; the conversion of 8-bit and
/// of 16-bit channels cannot fail.
#[verifier::external_body]
fn texel(texture: &image::DynamicImage, x: u32, y: u32) -> (rgb: (u8, u8, u8))
    requires
        x < image_width(*texture),
        y < image_height(*texture),
        !image_is_float(*texture),
    ensures
        rgb == image_pixels(*texture)[(x as int, y as int)],
{
    let pixel = texture.get_pixel(x, y);
    (pixel[0], pixel[1], pixel[2])
}

/// A colour packed as `0xRRGGBB`.
pub open spec fn packed(rgb: (u8, u8, u8)) -> u32 {
    (rgb.0 as int * 65536 + rgb.1 as int * 256 + rgb.2 as int) as u32
}

/// Packs red, green and blue into one `0xRRGGBB` value.
pub fn pack_rgb(rgb: (u8, u8, u8)) -> (color: u32)
    ensures
        color == packed(rgb),
{
    let r: u32 = rgb.0 as u32;
    let g: u32 = rgb.1 as u32;
    let b: u32 = rgb.2 as u32;
    assert(((r << 16) | (g << 8) | b) == r * 65536 + g * 256 + b) by (bit_vector)
        requires
            r < 256,
            g < 256,
            b < 256,
    ;
    (r << 16) | (g << 8) | b
}

/// Angle between the heading and the ray through a screen column, as a
/// fixed-point number: half the field of view times the position of the
/// column on the screen, which runs from minus one at the left edge to just
/// under one at the right; rounded toward zero.
pub open spec fn column_angle(fov: int, column: int, width: int) -> int {
    toward_zero(fov * (2 * column - width), 2 * width)
}

/// Angle between the heading and the ray through the screen column `column`
/// of a screen `width` columns wide: the unit vector of the angle that the
/// player faces, turned by this angle, is the ray of the column.
pub fn column_offset(fov: i64, column: usize, width: usize) -> (offset: i64)
    requires
        column < width,
    ensures
        offset == column_angle(fov as int, column as int, width as int),
        fov >= 0 ==> -fov <= 2 * offset <= fov,
{
    let span: i128 = 2 * (column as i128) - (width as i128);
    let twice: i128 = 2 * (width as i128);
    assert(-9223372036854775808 * width <= fov * span <= 9223372036854775808 * width)
        by (nonlinear_arith)
        requires
            -9223372036854775808 <= fov <= 9223372036854775807,
            -width <= span <= width,
    ;
    let angle: i128 = div_toward_zero((fov as i128) * span, twice);
    assert(-9223372036854775808 <= angle <= 9223372036854775807 && (fov >= 0 ==> -fov <= 2
        * angle <= fov)) by (nonlinear_arith)
        requires
            angle == toward_zero(fov * span, twice as int),
            -9223372036854775808 * width <= fov * span <= 9223372036854775808 * width,
            -9223372036854775808 <= fov <= 9223372036854775807,
            -width <= span <= width,
            twice == 2 * width,
            width > 0,
    {
        let top = fov * span;
        let bottom = twice as int;
        if top >= 0 {
            assert(0 <= top / bottom && (top / bottom) * bottom <= top) by (nonlinear_arith)
                requires
                    top >= 0,
                    bottom > 0,
            ;
        } else {
            assert(0 <= (-top) / bottom && ((-top) / bottom) * bottom <= -top)
                by (nonlinear_arith)
                requires
                    -top >= 0,
                    bottom > 0,
            ;
        }
    }
    angle as i64
}

/// Height in pixels of the wall strip for a positive wall distance: the
/// screen height divided by the distance, and the screen height at most.
pub open spec fn wall_height_of(screen: int, distance: int) -> int {
    let h = (screen * UNIT) / distance;
    if h < screen {
        h
    } else {
        screen
    }
}

/// First row of the wall strip.
pub open spec fn strip_start(screen: int, distance: int) -> int {
    screen / 2 - wall_height_of(screen, distance) / 2
}

/// Row after the last row of the wall strip.
pub open spec fn strip_end(screen: int, distance: int) -> int {
    screen / 2 + wall_height_of(screen, distance) / 2
}

/// Height in pixels of the wall strip on a screen `screen_height` rows high
/// for a wall at the given distance.
pub fn wall_height(screen_height: usize, distance: i64) -> (h: usize)
    requires
        distance > 0,
    ensures
        h == wall_height_of(screen_height as int, distance as int),
        h <= screen_height,
{
    let unit: u128 = UNIT as u128;
    assert(unit == 65536);
    let scaled: u128 = (screen_height as u128) * unit / (distance as u128);
    if scaled < screen_height as u128 {
        scaled as usize
    } else {
        screen_height
    }
}

/// A flat wall that faces the player is drawn flat: for a player who faces
/// along x with a heading of length one, two rays that look ahead and enter
/// solid cells of one column through a vertical face are drawn as wall
/// strips of one height, whatever their directions.
pub proof fn lemma_flat_wall_projects_flat(
    player: Player,
    heading: Vector,
    first: Vector,
    second: Vector,
    grid: Grid,
    screen: int,
)
    requires
        heading.y == 0,
        heading.x == UNIT || heading.x == -UNIT,
        ray_from(player, first).ahead(heading),
        ray_from(player, second).ahead(heading),
        !ray_from(player, first).end(grid).horizontal,
        !ray_from(player, second).end(grid).horizontal,
        ray_from(player, first).cell_x(ray_from(player, first).end(grid).xs) == ray_from(
            player,
            second,
        ).cell_x(ray_from(player, second).end(grid).xs),
    ensures
        wall_height_of(
            screen,
            ray_from(player, first).depth(heading, ray_from(player, first).end(grid)),
        ) == wall_height_of(
            screen,
            ray_from(player, second).depth(heading, ray_from(player, second).end(grid)),
        ),
{
    let a = ray_from(player, first);
    let b = ray_from(player, second);
    assert(a.valid() && b.valid()) by (nonlinear_arith)
        requires
            a.dx * heading.x + a.dy * heading.y > 0,
            b.dx * heading.x + b.dy * heading.y > 0,
    ;
    a.lemma_flat_wall(b, grid, heading);
}

/// The mirror of `lemma_flat_wall_projects_flat` for a player who faces
/// along y and a wall with a horizontal face.
pub proof fn lemma_flat_wall_projects_flat_y(
    player: Player,
    heading: Vector,
    first: Vector,
    second: Vector,
    grid: Grid,
    screen: int,
)
    requires
        heading.x == 0,
        heading.y == UNIT || heading.y == -UNIT,
        ray_from(player, first).ahead(heading),
        ray_from(player, second).ahead(heading),
        ray_from(player, first).end(grid).horizontal,
        ray_from(player, second).end(grid).horizontal,
        ray_from(player, first).cell_y(ray_from(player, first).end(grid).ys) == ray_from(
            player,
            second,
        ).cell_y(ray_from(player, second).end(grid).ys),
    ensures
        wall_height_of(
            screen,
            ray_from(player, first).depth(heading, ray_from(player, first).end(grid)),
        ) == wall_height_of(
            screen,
            ray_from(player, second).depth(heading, ray_from(player, second).end(grid)),
        ),
{
    let a = ray_from(player, first);
    let b = ray_from(player, second);
    assert(a.valid() && b.valid()) by (nonlinear_arith)
        requires
            a.dx * heading.x + a.dy * heading.y > 0,
            b.dx * heading.x + b.dy * heading.y > 0,
    ;
    a.lemma_flat_wall_y(b, grid, heading);
}

/// World coordinate, along the wall's surface, of the point at which a ray
/// crosses a face at the offset `offset`, which it covers at the speed
/// `speed`: the origin moved along the ray until the offset is covered,
/// rounded toward the origin.
pub open spec fn wall_coordinate(ray: Ray, offset: int, speed: int, horizontal: bool) -> int {
    if horizontal {
        ray.px + toward_zero(offset * ray.dx, speed)
    } else {
        ray.py + toward_zero(offset * ray.dy, speed)
    }
}

/// Texture column for the wall strip: the fractional part of the wall
/// coordinate, scaled to the width of the texture.
pub open spec fn texture_column(
    ray: Ray,
    offset: int,
    speed: int,
    horizontal: bool,
    columns: int,
) -> int {
    (frac_of(wall_coordinate(ray, offset, speed, horizontal)) * columns) / (UNIT as int)
}

/// Texture row for the row `row` of a wall strip `strip` rows high.
pub open spec fn texture_row(row: int, strip: int, rows: int) -> int {
    ((row * rows) / strip) % rows
}

/// Whether a texture can be sampled: it has pixels, and it does not hold
/// floating-point channels.
pub open spec fn samplable(texture: image::DynamicImage) -> bool {
    image_width(texture) > 0 && image_height(texture) > 0 && !image_is_float(texture)
}

/// Colour of the row `y` of a screen column after the column was rendered
/// for a wall at the distance `distance` whose strip shows the column
/// `column` of the texture, where `prev` was the colour before. A distance
/// of zero leaves the column as it was. Otherwise the rows above the wall
/// strip show the sky and those below it the floor; the strip shows one
/// column of the texture, stretched over its height, and is left as it was
/// where the texture cannot be sampled.
pub open spec fn column_pixel(
    texture: image::DynamicImage,
    screen: int,
    distance: int,
    column: int,
    prev: u32,
    y: int,
) -> u32 {
    if distance <= 0 {
        prev
    } else if y < strip_start(screen, distance) {
        SKY_COLOR
    } else if y >= strip_end(screen, distance) {
        FLOOR_COLOR
    } else if !samplable(texture) {
        prev
    } else {
        packed(
            image_pixels(texture)[(
                column,
                texture_row(
                    y - strip_start(screen, distance),
                    wall_height_of(screen, distance),
                    image_height(texture) as int,
                ),
            )],
        )
    }
}

/// Colour of the row `y` of a screen column after the scene was rendered
/// through the ray that leaves the player in the direction `ray`, for a
/// player who faces `heading`. A ray that does not look ahead leaves the
/// column as it was.
pub open spec fn scene_pixel(
    grid: Grid,
    player: Player,
    texture: image::DynamicImage,
    screen: int,
    heading: Vector,
    ray: Vector,
    prev: u32,
    y: int,
) -> u32 {
    let r = ray_from(player, ray);
    let w = r.end(grid);
    if r.ahead(heading) {
        column_pixel(
            texture,
            screen,
            r.depth(heading, w),
            texture_column(
                r,
                r.offset(w),
                r.speed(w),
                w.horizontal,
                image_width(texture) as int,
            ),
            prev,
            y,
        )
    } else {
        prev
    }
}

/// Texture column for the wall strip of a ray with the given hit.
fn texture_x(player: &Player, ray: &Heading, hit: &WallHit, columns: u32) -> (tx: u32)
    requires
        columns > 0,
        0 <= hit.offset <= 140737488355328,
        hit.speed > 0,
    ensures
        tx < columns,
        tx == texture_column(
            ray_from(*player, ray@),
            hit.offset as int,
            hit.speed as int,
            hit.horizontal,
            columns as int,
        ),
{
    let (dx, dy) = ray.components();
    let origin: i64 = if hit.horizontal {
        player.x
    } else {
        player.y
    };
    let beside: i128 = if hit.horizontal {
        dx as i128
    } else {
        dy as i128
    };
    assert(-18446744073709551616 <= hit.offset * beside <= 18446744073709551616)
        by (nonlinear_arith)
        requires
            0 <= hit.offset <= 140737488355328,
            -131072 <= beside <= 131072,
    ;
    let moved: i128 = div_toward_zero((hit.offset as i128) * beside, hit.speed as i128);
    assert(-18446744073709551616 <= moved <= 18446744073709551616) by (nonlinear_arith)
        requires
            moved == toward_zero(hit.offset * beside, hit.speed as int),
            -18446744073709551616 <= hit.offset * beside <= 18446744073709551616,
            hit.speed > 0,
    {
        let top = hit.offset * beside;
        let bottom = hit.speed as int;
        if top >= 0 {
            assert(0 <= top / bottom <= top) by (nonlinear_arith)
                requires
                    top >= 0,
                    bottom > 0,
            ;
        } else {
            assert(0 <= (-top) / bottom <= -top) by (nonlinear_arith)
                requires
                    -top >= 0,
                    bottom > 0,
            ;
        }
    }
    let coordinate: i128 = origin as i128 + moved;
    let cell: i128 = floor_div(coordinate, UNIT as i128);
    let part: i128 = coordinate - cell * (UNIT as i128);
    assert(part == frac_of(coordinate as int));
    assert(0 <= part * columns < UNIT * columns) by (nonlinear_arith)
        requires
            0 <= part < UNIT,
            columns > 0,
    ;
    ((part * (columns as i128)) / (UNIT as i128)) as u32
}

/// Renders one screen column through the ray that leaves the player in the
/// direction `ray`: paints the sky, the textured wall strip and the floor of
/// the column `column`. `heading` is the unit vector of the angle that the
/// player faces. A column outside the framebuffer, a ray that does not look
/// ahead, or a wall distance of zero, leaves the framebuffer as it was.
pub fn render_column(
    map: &GridMap,
    player: &Player,
    framebuffer: &mut Framebuffer,
    wall_texture: &image::DynamicImage,
    column: usize,
    heading: &Heading,
    ray: &Heading,
)
    ensures
        final(framebuffer)@.same_size(old(framebuffer)@),
        forall|x: int, y: int|
            old(framebuffer)@.contains(x, y) ==> #[trigger] final(framebuffer)@.at(x, y) == (if x
                == column {
                scene_pixel(
                    map@,
                    *player,
                    *wall_texture,
                    old(framebuffer)@.height as int,
                    heading@,
                    ray@,
                    old(framebuffer)@.at(x, y),
                    y,
                )
            } else {
                old(framebuffer)@.at(x, y)
            }),
{
    proof {
        use_type_invariant(&*framebuffer);
    }
    let (distance, hit) = match cast_to_wall(map, player, heading, ray) {
        Some(found) => found,
        None => {
            return ;
        },
    };
    if distance > 0 {
        let screen: usize = framebuffer.height();
        let strip: usize = wall_height(screen, distance);
        let start: usize = screen / 2 - strip / 2;
        let end: usize = screen / 2 + strip / 2;
        framebuffer.fill_rect(column, 0, 1, start, SKY_COLOR);
        framebuffer.fill_rect(column, end, 1, screen - end, FLOOR_COLOR);
        let columns: u32 = wall_texture.width();
        let rows: u32 = wall_texture.height();
        if columns > 0 && rows > 0 && !holds_floats(wall_texture) {
            let tex_x: u32 = texture_x(player, ray, &hit, columns);
            let ghost r = ray_from(*player, ray@);
            let mut y: usize = start;
            while y < end
                invariant
                    framebuffer@.same_size(old(framebuffer)@),
                    screen == old(framebuffer)@.height,
                    r == ray_from(*player, ray@),
                    r.ahead(heading@),
                    distance > 0,
                    strip == wall_height_of(screen as int, distance as int),
                    start == strip_start(screen as int, distance as int),
                    end == strip_end(screen as int, distance as int),
                    start <= y <= end <= screen,
                    columns == image_width(*wall_texture),
                    rows == image_height(*wall_texture),
                    samplable(*wall_texture),
                    tex_x < columns,
                    tex_x == texture_column(
                        r,
                        r.offset(r.end(map@)),
                        r.speed(r.end(map@)),
                        r.end(map@).horizontal,
                        columns as int,
                    ),
                    distance == r.depth(heading@, r.end(map@)),
                    forall|i: int, j: int|
                        old(framebuffer)@.contains(i, j) ==> #[trigger] framebuffer@.at(i, j) == (if i
                            == column && !(y <= j < end) {
                            scene_pixel(
                                map@,
                                *player,
                                *wall_texture,
                                screen as int,
                                heading@,
                                ray@,
                                old(framebuffer)@.at(i, j),
                                j,
                            )
                        } else {
                            old(framebuffer)@.at(i, j)
                        }),
                decreases end - y,
            {
                assert(0 <= (y - start) * rows <= 18446744073709551616 * 4294967296)
                    by (nonlinear_arith)
                    requires
                        0 <= y - start <= 18446744073709551616,
                        0 <= rows <= 4294967296,
                ;
                let row: u128 = (((y - start) as u128) * (rows as u128)) / (strip as u128);
                let tex_y: u32 = (row % (rows as u128)) as u32;
                let color: u32 = pack_rgb(texel(wall_texture, tex_x, tex_y));
                let ghost before = framebuffer@;
                framebuffer.point(column, y, color);
                proof {
                    assert forall|i: int, j: int| old(framebuffer)@.contains(i, j) implies #[trigger] framebuffer@.at(
                        i,
                        j,
                    ) == (if i == column && !(y + 1 <= j < end) {
                        scene_pixel(
                            map@,
                            *player,
                            *wall_texture,
                            screen as int,
                            heading@,
                            ray@,
                            old(framebuffer)@.at(i, j),
                            j,
                        )
                    } else {
                        old(framebuffer)@.at(i, j)
                    }) by {
                        before.lemma_paint(column as int, y as int, color, i, j);
                    }
                }
                y = y + 1;
            }
        }
    }
}

/// Renders the scene: every screen column, from left to right, through its
/// own ray, `rays[x]` for the column `x`. `heading` is the unit vector of
/// the angle that the player faces, and the ray of a column is that vector
/// turned by the angle of the column, which `column_offset` gives.
pub fn render_scene(
    map: &GridMap,
    player: &Player,
    framebuffer: &mut Framebuffer,
    wall_texture: &image::DynamicImage,
    heading: &Heading,
    rays: &Vec<Heading>,
)
    requires
        rays@.len() == old(framebuffer)@.width,
    ensures
        final(framebuffer)@.same_size(old(framebuffer)@),
        forall|x: int, y: int|
            old(framebuffer)@.contains(x, y) ==> #[trigger] final(framebuffer)@.at(x, y)
                == scene_pixel(
                map@,
                *player,
                *wall_texture,
                old(framebuffer)@.height as int,
                heading@,
                rays@[x]@,
                old(framebuffer)@.at(x, y),
                y,
            ),
{
    proof {
        use_type_invariant(&*framebuffer);
    }
    let width: usize = framebuffer.width();
    let mut x: usize = 0;
    while x < width
        invariant
            framebuffer@.same_size(old(framebuffer)@),
            x <= width,
            width == old(framebuffer)@.width,
            width == rays@.len(),
            forall|i: int, j: int|
                old(framebuffer)@.contains(i, j) ==> #[trigger] framebuffer@.at(i, j) == (if i < x {
                    scene_pixel(
                        map@,
                        *player,
                        *wall_texture,
                        old(framebuffer)@.height as int,
                        heading@,
                        rays@[i]@,
                        old(framebuffer)@.at(i, j),
                        j,
                    )
                } else {
                    old(framebuffer)@.at(i, j)
                }),
        decreases width - x,
    {
        render_column(map, player, framebuffer, wall_texture, x, heading, &rays[x]);
        x = x + 1;
    }
}

} // verus!
