use crate::graphics::Graphics;
use vstd::prelude::*;

verus! {

/// A point given as `(x, y)`.
pub type Position = (u32, u32);

pub const TITLE_POSITION: Position = (20, 10);

pub const SPOTLIGHT_RADIUS_STEP: u32 = 5;

pub const STEAM_RENDER_RADIUS: u32 = 5;

pub const CRATE_RENDER_SIZE: u32 = 28;

/// Pixel position of a window's footer line.
pub fn get_bottom_text_position(resolution_y: u32) -> (r: Position)
    requires
        resolution_y >= 26,
    ensures
        r == (TITLE_POSITION.0, (resolution_y - 26) as u32),
{
    (TITLE_POSITION.0, resolution_y - 26)
}

/// Top-left pixel of tile `id` within an atlas `width` pixels wide.
pub fn get_tile_coordinates(id: u32, width: u32, tile_size: u32) -> (r: Position)
    requires
        width >= 1,
        id * tile_size <= u32::MAX,
        (id * tile_size) / (width as int) * tile_size <= u32::MAX,
    ensures
        r.0 == (id * tile_size) % (width as int),
        r.1 == (id * tile_size) / (width as int) * tile_size,
{
    let x = id * tile_size % width;
    let y = id * tile_size / width * tile_size;
    (x, y)
}

/// Tile coordinate of pixel `v` when the viewport is scrolled by `scroll` tiles.
pub open spec fn logical(g: Graphics, v: u32, scroll: u32) -> int {
    (v as int / g.render_multiplier as int) / g.tile_size as int + scroll
}

/// The scroll offset, `(0, 0)` when none is given.
pub open spec fn scroll_or_zero(scroll: Option<Position>) -> Position {
    match scroll {
        Some(s) => s,
        None => (0, 0),
    }
}

/// Level tile coordinates of a window pixel.
pub fn get_logical_coordinates(graphics: &Graphics, x: u32, y: u32, scroll: Option<Position>) -> (r:
    Position)
    requires
        graphics.wf(),
        logical(*graphics, x, scroll_or_zero(scroll).0) <= u32::MAX,
        logical(*graphics, y, scroll_or_zero(scroll).1) <= u32::MAX,
    ensures
        r.0 == logical(*graphics, x, scroll_or_zero(scroll).0),
        r.1 == logical(*graphics, y, scroll_or_zero(scroll).1),
{
    let render_multiplier = graphics.render_multiplier;
    let tile_size = graphics.tile_size;
    let s = match scroll {
        Some(s) => s,
        None => (0, 0),
    };
    (x / render_multiplier / tile_size + s.0, y / render_multiplier / tile_size + s.1)
}

/// Row-major tile id of a window pixel, in a grid `x_blocks` tiles wide.
pub fn get_tile_id_from_coordinates(
    graphics: &Graphics,
    coordinates: &Position,
    x_blocks: u32,
    scroll: Option<Position>,
) -> (r: u32)
    requires
        graphics.wf(),
        logical(*graphics, coordinates.1, scroll_or_zero(scroll).1) <= u32::MAX,
        logical(*graphics, coordinates.1, scroll_or_zero(scroll).1) * x_blocks + logical(
            *graphics,
            coordinates.0,
            scroll_or_zero(scroll).0,
        ) <= u32::MAX,
    ensures
        r == logical(*graphics, coordinates.0, scroll_or_zero(scroll).0) + logical(
            *graphics,
            coordinates.1,
            scroll_or_zero(scroll).1,
        ) * x_blocks,
{
    let (x_logical, y_logical) = get_logical_coordinates(
        graphics,
        coordinates.0,
        coordinates.1,
        scroll,
    );
    x_logical + y_logical * x_blocks
}


/// Array indexes of viewport tile `(x_index, y_index)` once the scroll offset is added.
pub fn get_scroll_corrected_indexes(scroll: Position, x_index: u32, y_index: u32) -> (r: (
    usize,
    usize,
))
    requires
        x_index + scroll.0 <= u32::MAX,
        y_index + scroll.1 <= u32::MAX,
    ensures
        r.0 == x_index + scroll.0,
        r.1 == y_index + scroll.1,
{
    ((x_index + scroll.0) as usize, (y_index + scroll.1) as usize)
}

/// Pixel position of viewport tile `(x, y)`.
pub fn get_absolute_coordinates_from_logical(x: u32, y: u32, render_size: u32) -> (r: (i32, i32))
    requires
        x * render_size <= i32::MAX,
        y * render_size <= i32::MAX,
    ensures
        r.0 == x * render_size,
        r.1 == y * render_size,
{
    ((x * render_size) as i32, (y * render_size) as i32)
}

/// Level-space pixel coordinate of window pixel `v`, the viewport being
/// scrolled by `scroll` tiles.
pub open spec fn level_pixel(g: Graphics, v: u32, scroll: u32) -> int {
    v as int / g.render_multiplier as int + scroll * g.tile_size
}

/// Level-space pixel coordinates of a window pixel: the window pixel is
/// floor-divided by the zoom factor and the scroll offset is added.
pub fn get_level_coordinates_from_screen_coordinates(
    graphics: &Graphics,
    coordinates: &Position,
    scroll: &Position,
) -> (r: Position)
    requires
        graphics.wf(),
        level_pixel(*graphics, coordinates.0, scroll.0) <= u32::MAX,
        level_pixel(*graphics, coordinates.1, scroll.1) <= u32::MAX,
    ensures
        r.0 == level_pixel(*graphics, coordinates.0, scroll.0),
        r.1 == level_pixel(*graphics, coordinates.1, scroll.1),
{
    let render_multiplier = graphics.render_multiplier;
    let tile_size = graphics.tile_size;
    proof {
        assert(scroll.0 * tile_size >= 0 && scroll.1 * tile_size >= 0) by (nonlinear_arith);
    }
    (
        coordinates.0 / render_multiplier + scroll.0 * tile_size,
        coordinates.1 / render_multiplier + scroll.1 * tile_size,
    )
}

/// Window pixel coordinate of level-space pixel `v`, the viewport being
/// scrolled by `scroll` tiles.
pub open spec fn screen_pixel(g: Graphics, v: u32, scroll: u32) -> int {
    v * g.render_multiplier - scroll * g.render_size()
}

/// Window pixel coordinates of a level-space pixel; negative when it lies
/// above or left of the viewport.
pub fn get_screen_coordinates_from_level_coordinates(
    graphics: &Graphics,
    coordinates: &Position,
    scroll: &Position,
) -> (r: (i32, i32))
    requires
        graphics.wf(),
        coordinates.0 * graphics.render_multiplier <= i32::MAX,
        coordinates.1 * graphics.render_multiplier <= i32::MAX,
        scroll.0 * graphics.render_size() <= i32::MAX,
        scroll.1 * graphics.render_size() <= i32::MAX,
    ensures
        r.0 == screen_pixel(*graphics, coordinates.0, scroll.0),
        r.1 == screen_pixel(*graphics, coordinates.1, scroll.1),
{
    let render_multiplier = graphics.render_multiplier;
    let render_size = graphics.get_render_size();
    (
        (coordinates.0 * render_multiplier) as i32 - (scroll.0 * render_size) as i32,
        (coordinates.1 * render_multiplier) as i32 - (scroll.1 * render_size) as i32,
    )
}

/// Radius in pixels of the circle drawn for a spotlight of the given intensity.
pub open spec fn spotlight_radius(intensity: u8) -> int {
    intensity * SPOTLIGHT_RADIUS_STEP + SPOTLIGHT_RADIUS_STEP
}

pub fn get_spotlight_render_radius(spotlight: &u8) -> (r: u32)
    ensures
        r == spotlight_radius(*spotlight),
{
    *spotlight as u32 * SPOTLIGHT_RADIUS_STEP + SPOTLIGHT_RADIUS_STEP
}

pub fn get_steam_render_radius() -> (r: u32)
    ensures
        r == STEAM_RENDER_RADIUS,
{
    STEAM_RENDER_RADIUS
}

pub fn get_crate_render_size() -> (r: u32)
    ensures
        r == CRATE_RENDER_SIZE,
{
    CRATE_RENDER_SIZE
}

/// Whether a point lies in the square box of side `size` whose top-left corner is `b`.
pub open spec fn in_box(p: Position, b: Position, size: int) -> bool {
    b.0 <= p.0 < b.0 + size && b.1 <= p.1 < b.1 + size
}

pub fn check_box_click(point_position: &Position, box_position: &Position, box_size: u32) -> (r:
    bool)
    ensures
        r == in_box(*point_position, *box_position, box_size as int),
{
    point_position.0 >= box_position.0 && (point_position.0 - box_position.0) < box_size
        && point_position.1 >= box_position.1 && (point_position.1 - box_position.1) < box_size
}

/// Clamps a pixel coordinate into `[0, limit - 1]` on both axes.
pub fn limit_coordinates(coordinates: &Position, limit: &Position) -> (r: Position)
    requires
        limit.0 >= 1,
        limit.1 >= 1,
    ensures
        r.0 == if coordinates.0 < limit.0 { coordinates.0 } else { (limit.0 - 1) as u32 },
        r.1 == if coordinates.1 < limit.1 { coordinates.1 } else { (limit.1 - 1) as u32 },
{
    (
        if coordinates.0 < limit.0 { coordinates.0 } else { limit.0 - 1 },
        if coordinates.1 < limit.1 { coordinates.1 } else { limit.1 - 1 },
    )
}

/// The ids of row `y` of a rectangle, from column `x0` to column `x1`, in a
/// grid `width` tiles wide.
pub open spec fn rect_row(x0: int, x1: int, y: int, width: int) -> Seq<u32> {
    Seq::new((x1 - x0 + 1) as nat, |i: int| (x0 + i + y * width) as u32)
}

/// The ids of the first `n` rows of a rectangle whose top row is `y0`, rows
/// top to bottom and each row left to right.
pub open spec fn rect_rows(x0: int, x1: int, y0: int, n: nat, width: int) -> Seq<u32>
    decreases n,
{
    if n == 0 {
        Seq::empty()
    } else {
        rect_rows(x0, x1, y0, (n - 1) as nat, width) + rect_row(x0, x1, y0 + n - 1, width)
    }
}

/// Every tile id of the rectangle spanned by tile corners `(x0, y0)` and
/// `(x1, y1)`, rows top to bottom and each row left to right.
pub open spec fn rect_ids(x0: int, y0: int, x1: int, y1: int, width: int) -> Seq<u32> {
    rect_rows(x0, x1, y0, (y1 - y0 + 1) as nat, width)
}

pub open spec fn min_u32(a: u32, b: u32) -> u32 {
    if a <= b { a } else { b }
}

pub open spec fn max_u32(a: u32, b: u32) -> u32 {
    if a >= b { a } else { b }
}

/// Every tile id in the rectangle that two window pixels span, rows top to
/// bottom and each row left to right; the corners are normalised per axis first.
pub fn get_selected_level_tiles(
    graphics: &Graphics,
    p0: &Position,
    p1: &Position,
    x_blocks: u32,
    scroll: Option<Position>,
) -> (r: Vec<u32>)
    requires
        graphics.wf(),
        logical(*graphics, max_u32(p0.0, p1.0), scroll_or_zero(scroll).0) < x_blocks,
        logical(*graphics, max_u32(p0.1, p1.1), scroll_or_zero(scroll).1) * x_blocks + x_blocks
            <= u32::MAX,
    ensures
        r@ == rect_ids(
            logical(*graphics, min_u32(p0.0, p1.0), scroll_or_zero(scroll).0),
            logical(*graphics, min_u32(p0.1, p1.1), scroll_or_zero(scroll).1),
            logical(*graphics, max_u32(p0.0, p1.0), scroll_or_zero(scroll).0),
            logical(*graphics, max_u32(p0.1, p1.1), scroll_or_zero(scroll).1),
            x_blocks as int,
        ),
{
    let lo = (
        if p0.0 <= p1.0 { p0.0 } else { p1.0 },
        if p0.1 <= p1.1 { p0.1 } else { p1.1 },
    );
    let hi = (
        if p0.0 >= p1.0 { p0.0 } else { p1.0 },
        if p0.1 >= p1.1 { p0.1 } else { p1.1 },
    );
    let ghost s = scroll_or_zero(scroll);
    proof {
        lemma_logical_monotonic(*graphics, lo.0, hi.0, s.0);
        lemma_logical_monotonic(*graphics, lo.1, hi.1, s.1);
        let ly = logical(*graphics, hi.1, s.1);
        assert(ly <= u32::MAX) by (nonlinear_arith)
            requires
                ly * x_blocks + x_blocks <= u32::MAX,
                ly >= 0,
                x_blocks >= 1,
        ;
        assert(ly < u32::MAX) by (nonlinear_arith)
            requires
                ly * x_blocks + x_blocks <= u32::MAX,
                ly >= 0,
                x_blocks >= 1,
        ;
    }
    let (x0, y0) = get_logical_coordinates(graphics, lo.0, lo.1, scroll);
    let (x1, y1) = get_logical_coordinates(graphics, hi.0, hi.1, scroll);
    let mut lines: Vec<u32> = Vec::new();
    let mut y: u32 = y0;
    while y <= y1
        invariant
            y0 <= y <= y1 + 1,
            x0 <= x1 < x_blocks,
            y1 < u32::MAX,
            y1 * x_blocks + x_blocks <= u32::MAX,
            lines@ == rect_rows(x0 as int, x1 as int, y0 as int, (y - y0) as nat, x_blocks as int),
        decreases y1 + 1 - y,
    {
        proof {
            assert(y * x_blocks + x_blocks <= u32::MAX) by (nonlinear_arith)
                requires
                    y1 * x_blocks + x_blocks <= u32::MAX,
                    y <= y1,
            ;
        }
        let base: u32 = y * x_blocks;
        let ghost before = lines@;
        let mut x: u32 = x0;
        while x <= x1
            invariant
                x0 <= x <= x1 + 1,
                x1 < x_blocks,
                base == y * x_blocks,
                base + x_blocks <= u32::MAX,
                lines@ == before + rect_row(x0 as int, x1 as int, y as int, x_blocks as int).take(
                    (x - x0) as int,
                ),
            decreases x1 + 1 - x,
        {
            lines.push(x + base);
            proof {
                assert(lines@ =~= before + rect_row(
                    x0 as int,
                    x1 as int,
                    y as int,
                    x_blocks as int,
                ).take((x + 1 - x0) as int));
            }
            x = x + 1;
        }
        proof {
            assert(rect_row(x0 as int, x1 as int, y as int, x_blocks as int).take(
                (x - x0) as int,
            ) =~= rect_row(x0 as int, x1 as int, y as int, x_blocks as int));
            assert((y + 1 - y0) as nat - 1 == (y - y0) as nat);
        }
        y = y + 1;
    }
    lines
}

/// Tile coordinates do not decrease as the pixel coordinate grows.
pub proof fn lemma_logical_monotonic(g: Graphics, a: u32, b: u32, scroll: u32)
    requires
        g.wf(),
        a <= b,
    ensures
        logical(g, a, scroll) <= logical(g, b, scroll),
{
    let m = g.render_multiplier as int;
    let t = g.tile_size as int;
    vstd::arithmetic::div_mod::lemma_div_is_ordered(a as int, b as int, m);
    vstd::arithmetic::div_mod::lemma_div_is_ordered(a as int / m, b as int / m, t);
}

} // verus!
