use crate::coord_map::CoordMap;
use crate::coords::{
    get_spotlight_render_radius, spotlight_radius, Position, CRATE_RENDER_SIZE,
    STEAM_RENDER_RADIUS,
};
use crate::crates::{CrateClass, RandomCrates, StaticCrateType};
use crate::types::{TextureType, Tile};
use vstd::prelude::*;

verus! {

pub const DIFF_ENEMIES: usize = 8;

/// Smallest level width, in tiles.
pub const MIN_LEVEL_WIDTH: u32 = 16;

/// Smallest level height, in tiles.
pub const MIN_LEVEL_HEIGHT: u32 = 12;

/// Spotlight intensities run from 0 to this value.
pub const MAX_SPOTLIGHT_INTENSITY: u8 = 9;

/// Steam ranges run from 0 to this value.
pub const MAX_STEAM_RANGE: u8 = 6;

/// Level metadata: a comment, a time limit in seconds and the number of
/// enemies of each kind.
#[derive(Debug)]
pub struct GeneralInfo {
    pub comment: String,
    pub time_limit: u32,
    pub enemy_table: [u32; 8],
}

/// A steam emitter: its range, and its angle in degrees (0 points down,
/// growing counter-clockwise).
#[derive(Clone, Copy, Debug, PartialEq, Eq, Structural)]
pub struct Steam {
    pub range: u8,
    pub angle: u16,
}

/// The random crate tables of both game modes.
#[derive(Clone, Copy, Debug)]
pub struct RandomCrateTables {
    pub normal: RandomCrates,
    pub deathmatch: RandomCrates,
}

/// Crates of a level: those placed at fixed positions and the random tables.
#[derive(Debug)]
pub struct LevelCrates {
    pub static_crates: CoordMap<StaticCrateType>,
    pub random: RandomCrateTables,
}

/// A level: its tile grid (rows of tiles), player start positions, viewport
/// scroll offset in tiles, decorations and metadata.
#[derive(Debug)]
pub struct Level {
    pub tiles: Vec<Vec<Tile>>,
    pub p1_position: Position,
    pub p2_position: Position,
    pub scroll: Position,
    pub spotlights: CoordMap<u8>,
    pub steams: CoordMap<Steam>,
    pub general_info: GeneralInfo,
    pub crates: LevelCrates,
}

#[derive(Clone, Copy, Debug, PartialEq, Eq, Structural)]
pub enum FileTypeError {
    InvalidVersion,
    InvalidLevelSize,
    InvalidTileType,
    InvalidCrateClass,
    InvalidDecoration,
}

#[derive(Clone, Copy, Debug, PartialEq, Eq, Structural)]
pub enum DeserializationError {
    /// The data ended before the level did.
    IOError,
    ContentError(FileTypeError),
}

impl From<FileTypeError> for DeserializationError {
    fn from(e: FileTypeError) -> (r: DeserializationError)
        ensures
            r == DeserializationError::ContentError(e),
    {
        DeserializationError::ContentError(e)
    }
}

impl vstd::std_specs::convert::FromSpecImpl<FileTypeError> for DeserializationError {
    open spec fn obeys_from_spec() -> bool {
        true
    }

    open spec fn from_spec(e: FileTypeError) -> DeserializationError {
        DeserializationError::ContentError(e)
    }
}

/// The tile grid as rows of tiles.
pub open spec fn grid(tiles: Vec<Vec<Tile>>) -> Seq<Seq<Tile>> {
    tiles@.map_values(|row: Vec<Tile>| row@)
}

/// A grid of `height` rows of `width` tiles, at least the minimum size, with
/// only floor and wall tiles.
pub open spec fn grid_wf(g: Seq<Seq<Tile>>) -> bool {
    &&& g.len() >= MIN_LEVEL_HEIGHT
    &&& g.len() <= u32::MAX
    &&& g[0].len() >= MIN_LEVEL_WIDTH
    &&& g[0].len() <= u32::MAX
    &&& forall|y: int| 0 <= y < g.len() ==> #[trigger] g[y].len() == g[0].len()
    &&& forall|y: int, x: int|
        0 <= y < g.len() && 0 <= x < g[y].len() ==> (#[trigger] g[y][x]).texture_type
            != TextureType::Shadow
}

/// Whether `(x, y)` lies in the grid and holds a wall; outside the grid is floor.
pub open spec fn is_wall(g: Seq<Seq<Tile>>, x: int, y: int) -> bool {
    0 <= y < g.len() && 0 <= x < g[y].len() && g[y][x].texture_type == TextureType::Walls
}

/// The shadow that the shadow engine gives tile `(x, y)`: walls get none; a
/// wall top-right, or walls both on top and on the right, give 1; else a wall
/// on top gives 3, a wall on the right gives 2, and none gives 0.
pub open spec fn shadow_value(g: Seq<Seq<Tile>>, x: int, y: int) -> u32 {
    if is_wall(g, x, y) {
        0
    } else if is_wall(g, x + 1, y - 1) || (is_wall(g, x + 1, y) && is_wall(g, x, y - 1)) {
        1
    } else if is_wall(g, x, y - 1) {
        3
    } else if is_wall(g, x + 1, y) {
        2
    } else {
        0
    }
}

/// The grid with every shadow recomputed from the wall/floor layout alone.
pub open spec fn with_shadows(g: Seq<Seq<Tile>>) -> Seq<Seq<Tile>> {
    Seq::new(
        g.len(),
        |y: int|
            Seq::new(g[y].len(), |x: int| Tile { shadow: shadow_value(g, x, y), ..g[y][x] }),
    )
}

/// Running the shadow engine on its own output changes nothing.
pub proof fn lemma_shadows_idempotent(g: Seq<Seq<Tile>>)
    ensures
        with_shadows(with_shadows(g)) == with_shadows(g),
{
    let h = with_shadows(g);
    assert forall|x: int, y: int| is_wall(h, x, y) == is_wall(g, x, y) by {}
    assert forall|y: int| 0 <= y < h.len() implies #[trigger] with_shadows(h)[y] =~= h[y] by {
        assert forall|x: int| 0 <= x < h[y].len() implies shadow_value(h, x, y) == shadow_value(
            g,
            x,
            y,
        ) by {
            assert(is_wall(h, x, y) == is_wall(g, x, y));
            assert(is_wall(h, x + 1, y - 1) == is_wall(g, x + 1, y - 1));
            assert(is_wall(h, x + 1, y) == is_wall(g, x + 1, y));
            assert(is_wall(h, x, y - 1) == is_wall(g, x, y - 1));
        }
    }
    assert(with_shadows(h) =~= h);
}

/// The grid after painting the tile with row-major id `pointed`: a floor or
/// wall brush sets pattern and surface and keeps the shadow; the shadow brush
/// sets shadow `n + 1` for pattern `n`, or 0 for none. Ids past the last row
/// change nothing.
pub open spec fn paint(
    g: Seq<Seq<Tile>>,
    pointed: u32,
    selected: Option<u32>,
    brush: TextureType,
) -> Seq<Seq<Tile>> {
    let w = g[0].len() as int;
    let x = pointed as int % w;
    let y = pointed as int / w;
    if y < g.len() {
        g.update(
            y,
            g[y].update(
                x,
                if brush != TextureType::Shadow {
                    Tile { texture_type: brush, id: selected->Some_0, shadow: g[y][x].shadow }
                } else {
                    Tile {
                        shadow: match selected {
                            Some(id) => (id + 1) as u32,
                            None => 0u32,
                        },
                        ..g[y][x]
                    }
                },
            ),
        )
    } else {
        g
    }
}

/// The grid after painting each of `ids` in turn.
pub open spec fn paint_all(
    g: Seq<Seq<Tile>>,
    ids: Seq<u32>,
    selected: Option<u32>,
    brush: TextureType,
) -> Seq<Seq<Tile>>
    decreases ids.len(),
{
    if ids.len() == 0 {
        g
    } else {
        paint(paint_all(g, ids.drop_last(), selected, brush), ids.last(), selected, brush)
    }
}

/// The tile of a generated level at `(x, y)`: a walled rectangle around a
/// floor interior, the border drawn with corner and edge patterns.
pub open spec fn default_tile(width: int, height: int, x: int, y: int) -> Tile {
    let (texture_type, id) = if y == 0 {
        (TextureType::Walls, if x == 0 { 0u32 } else if x == width - 1 { 2u32 } else { 1u32 })
    } else if y == height - 1 {
        (TextureType::Walls, if x == 0 { 32u32 } else if x == width - 1 { 18u32 } else { 1u32 })
    } else if x == 0 || x == width - 1 {
        (TextureType::Walls, 16u32)
    } else {
        (TextureType::Floor, 0u32)
    };
    Tile { texture_type, id, shadow: 0 }
}

pub open spec fn default_grid(width: int, height: int) -> Seq<Seq<Tile>> {
    Seq::new(
        height as nat,
        |y: int| Seq::new(width as nat, |x: int| default_tile(width, height, x, y)),
    )
}

/// Every spotlight intensity is at most 9 and every steam range at most 6.
pub open spec fn decorations_in_range(spotlights: Map<Position, u8>, steams: Map<Position, Steam>) -> bool {
    &&& forall|k: Position| #[trigger] spotlights.contains_key(k) ==> spotlights[k] <= MAX_SPOTLIGHT_INTENSITY
    &&& forall|k: Position| #[trigger] steams.contains_key(k) ==> steams[k].range <= MAX_STEAM_RANGE
}

/// Squared distance between two points.
pub open spec fn dist2(a: Position, b: Position) -> int {
    (a.0 - b.0) * (a.0 - b.0) + (a.1 - b.1) * (a.1 - b.1)
}

/// Whether a click at `c` lands in the circle of radius `radius` drawn around
/// `k` at zoom `m`: the radius is at least the distance times the zoom.
pub open spec fn within_radius(c: Position, k: Position, radius: int, m: u32) -> bool {
    radius * radius >= dist2(c, k) * (m * m)
}

/// Whether a click at `c` lands in the crate box drawn with its corner at `k`
/// at zoom `m`.
pub open spec fn in_crate_box(c: Position, k: Position, m: u32) -> bool {
    &&& k.0 <= c.0
    &&& k.1 <= c.1
    &&& (c.0 - k.0) * m < CRATE_RENDER_SIZE
    &&& (c.1 - k.1) * m < CRATE_RENDER_SIZE
}

/// The crate class with the given tag.
pub open spec fn class_of_tag(tag: u32) -> CrateClass {
    if tag == 0 {
        CrateClass::Weapon
    } else if tag == 1 {
        CrateClass::Bullet
    } else {
        CrateClass::Energy
    }
}

/// The crates after moving the class of the one at `c` a step forward or
/// back without wrapping; its item index restarts at 0.
pub open spec fn cycled_class(m: Map<Position, StaticCrateType>, c: Position, forward: bool) -> Map<
    Position,
    StaticCrateType,
> {
    let item = m[c];
    let tag = crate::crates::class_tag(item.crate_class);
    if m.contains_key(c) && forward && tag < 2 {
        m.insert(
            c,
            StaticCrateType { crate_class: class_of_tag((tag + 1) as u32), crate_type: 0, ..item },
        )
    } else if m.contains_key(c) && !forward && tag > 0 {
        m.insert(
            c,
            StaticCrateType { crate_class: class_of_tag((tag - 1) as u32), crate_type: 0, ..item },
        )
    } else {
        m
    }
}

/// The crates after moving the item index of the one at `c` a step forward
/// or back within its class's table, `lens` giving each class's table size.
pub open spec fn cycled_type(
    m: Map<Position, StaticCrateType>,
    c: Position,
    forward: bool,
    lens: Seq<nat>,
) -> Map<Position, StaticCrateType> {
    let item = m[c];
    let len = lens[crate::crates::class_tag(item.crate_class) as int];
    if m.contains_key(c) && forward && item.crate_type < 255 && item.crate_type + 1 < len {
        m.insert(c, StaticCrateType { crate_type: (item.crate_type + 1) as u8, ..item })
    } else if m.contains_key(c) && !forward && item.crate_type > 0 {
        m.insert(c, StaticCrateType { crate_type: (item.crate_type - 1) as u8, ..item })
    } else {
        m
    }
}

/// A generated level of `w` by `h` tiles, as `get_default_level` makes it.
pub open spec fn is_default_level(r: Level, w: int, h: int) -> bool {
    &&& r.wf()
    &&& grid(r.tiles) == with_shadows(default_grid(w, h))
    &&& r.p1_position == (1u32, 1u32)
    &&& r.p2_position == (1u32, 3u32)
    &&& r.scroll == (0u32, 0u32)
    &&& r.spotlights@ == Map::<Position, u8>::empty()
    &&& r.steams@ == Map::<Position, Steam>::empty()
    &&& r.crates.static_crates@ == Map::<Position, StaticCrateType>::empty()
    &&& r.general_info.comment@ == "Rust UTK editor"@
    &&& r.general_info.time_limit == 60
    &&& r.general_info.enemy_table@ == seq![1u32, 0, 0, 0, 0, 1, 0, 0]
    &&& forall|i: int|
        0 <= i < crate::crates::RANDOM_CRATE_ENTRIES ==> crate::crates::random_count(
            r.crates.random.normal,
            i,
        ) == crate::crates::random_count(r.crates.random.deathmatch, i) && (
        crate::crates::random_count(r.crates.random.normal, i) == if i == 0 || i
            == crate::crates::DIFF_WEAPONS || i == crate::crates::DIFF_WEAPONS
            + crate::crates::DIFF_BULLETS {
            1u32
        } else {
            0u32
        })
}

/// Squared distance, exact in a `u128`.
fn squared_distance(a: &Position, b: &Position) -> (r: u128)
    ensures
        r == dist2(*a, *b),
{
    let dx: u64 = if a.0 >= b.0 { (a.0 - b.0) as u64 } else { (b.0 - a.0) as u64 };
    let dy: u64 = if a.1 >= b.1 { (a.1 - b.1) as u64 } else { (b.1 - a.1) as u64 };
    proof {
        assert(dx * dx <= 0xffff_ffff * 0xffff_ffffu128) by (nonlinear_arith)
            requires
                dx <= 0xffff_ffff,
        ;
        assert(dy * dy <= 0xffff_ffff * 0xffff_ffffu128) by (nonlinear_arith)
            requires
                dy <= 0xffff_ffff,
        ;
        assert(dist2(*a, *b) == dx * dx + dy * dy) by (nonlinear_arith)
            requires
                dx == a.0 - b.0 || dx == b.0 - a.0,
                dy == a.1 - b.1 || dy == b.1 - a.1,
        ;
    }
    (dx as u128) * (dx as u128) + (dy as u128) * (dy as u128)
}

/// Whether the click at `c` lands within `radius` of `k` at zoom `m`.
fn is_within_radius(c: &Position, k: &Position, radius: u32, m: u32) -> (r: bool)
    ensures
        r == within_radius(*c, *k, radius as int, m),
{
    let d2 = squared_distance(c, k);
    proof {
        assert((radius as u128) * (radius as u128) <= 0xffff_ffff * 0xffff_ffffu128)
            by (nonlinear_arith)
            requires
                radius <= 0xffff_ffff,
        ;
        assert((m as u128) * (m as u128) <= 0xffff_ffff * 0xffff_ffffu128) by (nonlinear_arith)
            requires
                m <= 0xffff_ffff,
        ;
    }
    let r2: u128 = (radius as u128) * (radius as u128);
    if d2 > r2 {
        proof {
            if m >= 1 {
                assert(d2 * (m * m) >= d2) by (nonlinear_arith)
                    requires
                        m >= 1,
                        d2 >= 0,
                ;
            }
        }
        m == 0
    } else {
        proof {
            assert(r2 <= 0xffff_ffff * 0xffff_ffffu128) by (nonlinear_arith)
                requires
                    r2 == radius * radius,
                    radius <= 0xffff_ffff,
            ;
            assert(d2 * (m * m) <= 0xffff_ffff * 0xffff_ffffu128 * (0xffff_ffff
                * 0xffff_ffffu128)) by (nonlinear_arith)
                requires
                    d2 <= r2,
                    r2 <= 0xffff_ffff * 0xffff_ffffu128,
                    m <= 0xffff_ffff,
            ;
        }
        let mm: u128 = (m as u128) * (m as u128);
        r2 >= d2 * mm
    }
}

/// Whether the click at `c` lands in the crate box at `k` at zoom `m`.
fn crate_box_hit(c: &Position, k: &Position, m: u32) -> (r: bool)
    ensures
        r == in_crate_box(*c, *k, m),
{
    if c.0 < k.0 || c.1 < k.1 {
        return false;
    }
    let dx: u64 = (c.0 - k.0) as u64;
    let dy: u64 = (c.1 - k.1) as u64;
    let mm: u64 = m as u64;
    proof {
        assert(dx * mm <= 0xffff_ffff * 0xffff_ffffu64) by (nonlinear_arith)
            requires
                dx <= 0xffff_ffff,
                mm <= 0xffff_ffff,
        ;
        assert(dy * mm <= 0xffff_ffff * 0xffff_ffffu64) by (nonlinear_arith)
            requires
                dy <= 0xffff_ffff,
                mm <= 0xffff_ffff,
        ;
    }
    dx * mm < CRATE_RENDER_SIZE as u64 && dy * mm < CRATE_RENDER_SIZE as u64
}

impl Level {
    pub open spec fn width(&self) -> int {
        self.tiles@[0]@.len() as int
    }

    pub open spec fn height(&self) -> int {
        self.tiles@.len() as int
    }

    /// The grid is rectangular, at least the minimum size and free of shadow
    /// brushes, no position holds two decorations of one kind, and every
    /// spotlight intensity and steam range is within its range.
    pub open spec fn wf(&self) -> bool {
        &&& grid_wf(grid(self.tiles))
        &&& self.spotlights.wf()
        &&& self.steams.wf()
        &&& self.crates.static_crates.wf()
        &&& decorations_in_range(self.spotlights@, self.steams@)
    }

    /// The tile grid of a generated level: a walled rectangle with a floor interior.
    pub fn init_default_level(size: (u8, u8)) -> (r: Vec<Vec<Tile>>)
        requires
            size.0 >= 2,
            size.1 >= 2,
        ensures
            grid(r) == default_grid(size.0 as int, size.1 as int),
    {
        let w = size.0;
        let h = size.1;
        let mut tiles: Vec<Vec<Tile>> = Vec::new();
        let mut y: u8 = 0;
        while y < h
            invariant
                y <= h,
                w == size.0,
                h == size.1,
                w >= 2,
                grid(tiles) =~= default_grid(w as int, h as int).take(y as int),
            decreases h - y,
        {
            let mut row: Vec<Tile> = Vec::new();
            let mut x: u8 = 0;
            while x < w
                invariant
                    x <= w,
                    y < h,
                    w == size.0,
                    h == size.1,
                    w >= 2,
                    row@ =~= Seq::new(x as nat, |i: int| default_tile(w as int, h as int, i, y as int)),
                decreases w - x,
            {
                let (texture_type, id) = if y == 0 {
                    (TextureType::Walls, if x == 0 { 0u32 } else if x == w - 1 { 2u32 } else { 1u32 })
                } else if y == h - 1 {
                    (TextureType::Walls, if x == 0 { 32u32 } else if x == w - 1 { 18u32 } else { 1u32 })
                } else if x == 0 || x == w - 1 {
                    (TextureType::Walls, 16u32)
                } else {
                    (TextureType::Floor, 0u32)
                };
                row.push(Tile { texture_type, id, shadow: 0 });
                x = x + 1;
            }
            let ghost before = grid(tiles);
            tiles.push(row);
            proof {
                assert(grid(tiles) =~= before.push(row@));
            }
            y = y + 1;
        }
        tiles
    }

    /// Column and row of a row-major tile id.
    pub fn get_tile_index(&self, pointed_tile: u32) -> (r: (usize, usize))
        requires
            self.wf(),
        ensures
            r.0 == pointed_tile as int % self.width(),
            r.1 == pointed_tile as int / self.width(),
    {
        let w = self.tiles[0].len();
        (pointed_tile as usize % w, pointed_tile as usize / w)
    }

    /// Paints the tile with row-major id `pointed_tile`. A floor or wall brush
    /// replaces the pattern and surface and keeps the shadow; the shadow brush
    /// sets shadow `n + 1` for pattern `n`, or clears it for `None`. An id
    /// outside the grid changes nothing.
    pub fn put_tile_to_level(
        &mut self,
        pointed_tile: u32,
        selected_tile_id: Option<u32>,
        selected_texture: &TextureType,
    )
        requires
            old(self).wf(),
            *selected_texture != TextureType::Shadow ==> selected_tile_id is Some,
            *selected_texture == TextureType::Shadow && selected_tile_id is Some
                ==> selected_tile_id->Some_0 < u32::MAX,
        ensures
            final(self).wf(),
            grid(final(self).tiles) == paint(
                grid(old(self).tiles),
                pointed_tile,
                selected_tile_id,
                *selected_texture,
            ),
            final(self).width() == old(self).width(),
            final(self).height() == old(self).height(),
            *final(self) == (Level { tiles: final(self).tiles, ..*old(self) }),
    {
        let ghost g = grid(self.tiles);
        let (x, y) = self.get_tile_index(pointed_tile);
        if y < self.tiles.len() {
            proof {
                assert(g[y as int].len() == g[0].len());
            }
            let old_tile = self.tiles[y][x];
            let new_tile = if *selected_texture != TextureType::Shadow {
                Tile {
                    texture_type: *selected_texture,
                    id: match selected_tile_id {
                        Some(id) => id,
                        None => 0,
                    },
                    shadow: old_tile.shadow,
                }
            } else {
                Tile {
                    shadow: match selected_tile_id {
                        Some(id) => id + 1,
                        None => 0,
                    },
                    ..old_tile
                }
            };
            let mut row: Vec<Tile> = Vec::new();
            let n = self.tiles[y].len();
            let mut i: usize = 0;
            while i < n
                invariant
                    i <= n,
                    n == g[y as int].len(),
                    y < g.len(),
                    x < n,
                    g == grid(self.tiles),
                    row@ =~= g[y as int].update(x as int, new_tile).take(i as int),
                decreases n - i,
            {
                proof {
                    assert(g[y as int] == self.tiles@[y as int]@);
                }
                row.push(if i == x { new_tile } else { self.tiles[y][i] });
                i = i + 1;
            }
            proof {
                assert(row@ =~= g[y as int].update(x as int, new_tile));
            }
            let ghost old_tiles = self.tiles@;
            self.tiles.set(y, row);
            proof {
                assert(self.tiles@ == old_tiles.update(y as int, row));
                assert(grid(self.tiles) =~= g.update(y as int, g[y as int].update(x as int, new_tile)));
            }
        }
    }

    /// Stores a spotlight of the given intensity at a position, replacing one
    /// already there; an intensity above the maximum changes nothing.
    pub fn put_spotlight_to_level(&mut self, level_coordinates: &Position, spotlight: u8)
        requires
            old(self).wf(),
        ensures
            final(self).wf(),
            final(self).spotlights@ == if spotlight <= MAX_SPOTLIGHT_INTENSITY {
                old(self).spotlights@.insert(*level_coordinates, spotlight)
            } else {
                old(self).spotlights@
            },
            *final(self) == (Level { spotlights: final(self).spotlights, ..*old(self) }),
    {
        if spotlight <= MAX_SPOTLIGHT_INTENSITY {
            self.spotlights.insert(*level_coordinates, spotlight);
        }
    }

    pub fn get_spotlight_from_level(&self, level_coordinates: &Position) -> (r: u8)
        requires
            self.wf(),
            self.spotlights@.contains_key(*level_coordinates),
        ensures
            r == self.spotlights@[*level_coordinates],
    {
        match self.spotlights.get(level_coordinates) {
            Some(v) => v,
            None => 0,
        }
    }

    /// Deletes every spotlight whose drawn circle, at zoom `render_multiplier`,
    /// contains the click at `level_coordinates`.
    pub fn delete_spotlight_if_near(&mut self, level_coordinates: &Position, render_multiplier: u32)
        requires
            old(self).wf(),
        ensures
            final(self).wf(),
            final(self).spotlights@ == Map::new(
                |k: Position|
                    old(self).spotlights@.contains_key(k) && !within_radius(
                        *level_coordinates,
                        k,
                        spotlight_radius(old(self).spotlights@[k]),
                        render_multiplier,
                    ),
                |k: Position| old(self).spotlights@[k],
            ),
            *final(self) == (Level { spotlights: final(self).spotlights, ..*old(self) }),
    {
        let ghost pred = |k: Position, i: u8|
            !within_radius(*level_coordinates, k, spotlight_radius(i), render_multiplier);
        let mut keep: Vec<bool> = Vec::new();
        let n = self.spotlights.len();
        let mut i: usize = 0;
        while i < n
            invariant
                i <= n,
                n == self.spotlights.entries().len(),
                keep@.len() == i,
                forall|j: int|
                    0 <= j < i ==> keep@[j] == !within_radius(
                        *level_coordinates,
                        #[trigger] self.spotlights.entries()[j].0,
                        spotlight_radius(self.spotlights.entries()[j].1),
                        render_multiplier,
                    ),
            decreases n - i,
        {
            let (k, intensity) = self.spotlights.entry(i);
            let radius = get_spotlight_render_radius(&intensity);
            keep.push(!is_within_radius(level_coordinates, &k, radius, render_multiplier));
            i = i + 1;
        }
        self.spotlights.retain_flagged(&keep, Ghost(pred));
    }

    /// Stores a steam emitter at a position, replacing one already there; a
    /// range above the maximum changes nothing.
    pub fn put_steam_to_level(&mut self, level_coordinates: &Position, steam: &Steam)
        requires
            old(self).wf(),
        ensures
            final(self).wf(),
            final(self).steams@ == if steam.range <= MAX_STEAM_RANGE {
                old(self).steams@.insert(*level_coordinates, *steam)
            } else {
                old(self).steams@
            },
            *final(self) == (Level { steams: final(self).steams, ..*old(self) }),
    {
        if steam.range <= MAX_STEAM_RANGE {
            self.steams.insert(*level_coordinates, *steam);
        }
    }

    pub fn get_steam_from_level(&self, level_coordinates: &Position) -> (r: Steam)
        requires
            self.wf(),
            self.steams@.contains_key(*level_coordinates),
        ensures
            r == self.steams@[*level_coordinates],
    {
        match self.steams.get(level_coordinates) {
            Some(v) => v,
            None => Steam { range: 0, angle: 0 },
        }
    }

    /// Deletes every steam emitter whose drawn circle, at zoom
    /// `render_multiplier`, contains the click at `level_coordinates`.
    pub fn delete_steam_if_near(&mut self, level_coordinates: &Position, render_multiplier: u32)
        requires
            old(self).wf(),
        ensures
            final(self).wf(),
            final(self).steams@ == Map::new(
                |k: Position|
                    old(self).steams@.contains_key(k) && !within_radius(
                        *level_coordinates,
                        k,
                        STEAM_RENDER_RADIUS as int,
                        render_multiplier,
                    ),
                |k: Position| old(self).steams@[k],
            ),
            *final(self) == (Level { steams: final(self).steams, ..*old(self) }),
    {
        let ghost pred = |k: Position, v: Steam|
            !within_radius(*level_coordinates, k, STEAM_RENDER_RADIUS as int, render_multiplier);
        let mut keep: Vec<bool> = Vec::new();
        let n = self.steams.len();
        let mut i: usize = 0;
        while i < n
            invariant
                i <= n,
                n == self.steams.entries().len(),
                keep@.len() == i,
                forall|j: int|
                    0 <= j < i ==> keep@[j] == !within_radius(
                        *level_coordinates,
                        #[trigger] self.steams.entries()[j].0,
                        STEAM_RENDER_RADIUS as int,
                        render_multiplier,
                    ),
            decreases n - i,
        {
            let (k, _steam) = self.steams.entry(i);
            keep.push(
                !is_within_radius(level_coordinates, &k, STEAM_RENDER_RADIUS, render_multiplier),
            );
            i = i + 1;
        }
        self.steams.retain_flagged(&keep, Ghost(pred));
    }

    /// Stores a crate at a position, replacing one already there.
    pub fn put_crate_to_level(&mut self, level_coordinates: &Position, crate_item: &StaticCrateType)
        requires
            old(self).wf(),
        ensures
            final(self).wf(),
            final(self).crates.static_crates@ == old(self).crates.static_crates@.insert(
                *level_coordinates,
                *crate_item,
            ),
            final(self).crates.random == old(self).crates.random,
            *final(self) == (Level { crates: final(self).crates, ..*old(self) }),
    {
        self.crates.static_crates.insert(*level_coordinates, *crate_item);
    }

    pub fn get_crate_from_level(&self, level_coordinates: &Position) -> (r: StaticCrateType)
        requires
            self.wf(),
            self.crates.static_crates@.contains_key(*level_coordinates),
        ensures
            r == self.crates.static_crates@[*level_coordinates],
    {
        match self.crates.static_crates.get(level_coordinates) {
            Some(v) => v,
            None => StaticCrateType {
                crate_variant: crate::crates::StaticCrate::Normal,
                crate_class: CrateClass::Weapon,
                crate_type: 0,
            },
        }
    }

    /// Deletes every crate whose drawn box, at zoom `render_multiplier`,
    /// contains the click at `level_coordinates`.
    pub fn delete_crate_if_near(&mut self, level_coordinates: &Position, render_multiplier: u32)
        requires
            old(self).wf(),
        ensures
            final(self).wf(),
            final(self).crates.static_crates@ == Map::new(
                |k: Position|
                    old(self).crates.static_crates@.contains_key(k) && !in_crate_box(
                        *level_coordinates,
                        k,
                        render_multiplier,
                    ),
                |k: Position| old(self).crates.static_crates@[k],
            ),
            final(self).crates.random == old(self).crates.random,
            *final(self) == (Level { crates: final(self).crates, ..*old(self) }),
    {
        let ghost pred = |k: Position, v: StaticCrateType|
            !in_crate_box(*level_coordinates, k, render_multiplier);
        let mut keep: Vec<bool> = Vec::new();
        let n = self.crates.static_crates.len();
        let mut i: usize = 0;
        while i < n
            invariant
                i <= n,
                n == self.crates.static_crates.entries().len(),
                keep@.len() == i,
                forall|j: int|
                    0 <= j < i ==> keep@[j] == !in_crate_box(
                        *level_coordinates,
                        #[trigger] self.crates.static_crates.entries()[j].0,
                        render_multiplier,
                    ),
            decreases n - i,
        {
            let (k, _item) = self.crates.static_crates.entry(i);
            let hit = crate_box_hit(level_coordinates, &k, render_multiplier);
            keep.push(!hit);
            i = i + 1;
        }
        self.crates.static_crates.retain_flagged(&keep, Ghost(pred));
    }

    /// Whether `(x, y)` lies in the grid and holds a wall.
    fn is_wall_at(&self, x: usize, y: usize) -> (r: bool)
        requires
            self.wf(),
        ensures
            r == is_wall(grid(self.tiles), x as int, y as int),
    {
        y < self.tiles.len() && x < self.tiles[y].len() && self.tiles[y][x].texture_type
            == TextureType::Walls
    }

    /// Recomputes every tile's shadow from the wall/floor layout of the grid;
    /// stored shadows play no part.
    pub fn create_shadows(&mut self)
        requires
            old(self).wf(),
        ensures
            final(self).wf(),
            grid(final(self).tiles) == with_shadows(grid(old(self).tiles)),
            final(self).width() == old(self).width(),
            final(self).height() == old(self).height(),
            *final(self) == (Level { tiles: final(self).tiles, ..*old(self) }),
    {
        let ghost g = grid(self.tiles);
        let h = self.tiles.len();
        let mut new_tiles: Vec<Vec<Tile>> = Vec::new();
        let mut y: usize = 0;
        while y < h
            invariant
                self.wf(),
                g == grid(self.tiles),
                h == g.len(),
                y <= h,
                grid(new_tiles) =~= with_shadows(g).take(y as int),
            decreases h - y,
        {
            let w = self.tiles[y].len();
            proof {
                assert(g[y as int] == self.tiles@[y as int]@);
                assert(w <= u32::MAX);
            }
            let mut row: Vec<Tile> = Vec::new();
            let mut x: usize = 0;
            while x < w
                invariant
                    self.wf(),
                    g == grid(self.tiles),
                    h == g.len(),
                    y < h,
                    w == g[y as int].len(),
                    w <= u32::MAX,
                    x <= w,
                    row@ =~= with_shadows(g)[y as int].take(x as int),
                decreases w - x,
            {
                let tile = self.tiles[y][x];
                let shadow: u32 = if self.is_wall_at(x, y) {
                    0
                } else {
                    let on_right = self.is_wall_at(x + 1, y);
                    let on_top = y > 0 && self.is_wall_at(x, y - 1);
                    let on_top_right = y > 0 && self.is_wall_at(x + 1, y - 1);
                    proof {
                        assert(y == 0 ==> !is_wall(g, x as int, y - 1));
                        assert(y == 0 ==> !is_wall(g, x + 1, y - 1));
                    }
                    if on_top_right || (on_right && on_top) {
                        1
                    } else if on_top {
                        3
                    } else if on_right {
                        2
                    } else {
                        0
                    }
                };
                row.push(Tile { shadow, ..tile });
                x = x + 1;
            }
            let ghost before = grid(new_tiles);
            proof {
                assert(row@ =~= with_shadows(g)[y as int]);
            }
            new_tiles.push(row);
            proof {
                assert(grid(new_tiles) =~= before.push(row@));
                assert(with_shadows(g).take(y + 1) =~= with_shadows(g).take(y as int).push(
                    with_shadows(g)[y as int],
                ));
            }
            y = y + 1;
        }
        proof {
            assert(with_shadows(g).take(h as int) =~= with_shadows(g));
            let ng = grid(new_tiles);
            assert(ng =~= with_shadows(g));
            assert forall|y: int| 0 <= y < ng.len() implies #[trigger] ng[y].len() == ng[0].len() by {
                assert(g[y].len() == g[0].len());
            }
        }
        self.tiles = new_tiles;
    }

    /// A generated level of `size.0` by `size.1` tiles: a walled rectangle
    /// with a floor interior and computed shadows, players at `(1, 1)` and
    /// `(1, 3)`, no decorations, and default metadata and crate tables.
    pub fn get_default_level(size: (u8, u8)) -> (r: Level)
        requires
            size.0 >= MIN_LEVEL_WIDTH,
            size.1 >= MIN_LEVEL_HEIGHT,
        ensures
            is_default_level(r, size.0 as int, size.1 as int),
    {
        let tiles = Level::init_default_level(size);
        proof {
            let g = grid(tiles);
            assert(g[0].len() == size.0);
            assert forall|y: int| 0 <= y < g.len() implies #[trigger] g[y].len() == g[0].len() by {}
        }
        let mut level = Level {
            tiles,
            p1_position: (1, 1),
            p2_position: (1, 3),
            scroll: (0, 0),
            spotlights: CoordMap::new(),
            steams: CoordMap::new(),
            general_info: GeneralInfo {
                comment: "Rust UTK editor".to_owned(),
                time_limit: 60,
                enemy_table: [1, 0, 0, 0, 0, 1, 0, 0],
            },
            crates: LevelCrates {
                static_crates: CoordMap::new(),
                random: RandomCrateTables { normal: RandomCrates::new(), deathmatch: RandomCrates::new() },
            },
        };
        level.create_shadows();
        level
    }

    /// Moves the class of the crate at a position one step forward (weapon,
    /// bullet, energy) or back, without wrapping, and resets its item index to
    /// 0 when the class changes. Nothing changes where there is no crate.
    pub fn cycle_crate_class(&mut self, level_coordinates: &Position, forward: bool)
        requires
            old(self).wf(),
        ensures
            final(self).wf(),
            final(self).crates.static_crates@ == cycled_class(
                old(self).crates.static_crates@,
                *level_coordinates,
                forward,
            ),
            final(self).crates.random == old(self).crates.random,
            *final(self) == (Level { crates: final(self).crates, ..*old(self) }),
    {
        if let Some(item) = self.crates.static_crates.get(level_coordinates) {
            let tag = item.crate_class.to_u32();
            if forward && tag < 2 {
                let next = StaticCrateType { crate_class: CrateClass::from_u32(tag + 1), crate_type: 0, ..item };
                self.crates.static_crates.insert(*level_coordinates, next);
            } else if !forward && tag > 0 {
                let next = StaticCrateType { crate_class: CrateClass::from_u32(tag - 1), crate_type: 0, ..item };
                self.crates.static_crates.insert(*level_coordinates, next);
            }
        }
    }

    /// Moves the item index of the crate at a position one step forward or
    /// back within its class's name table in `crates`, without wrapping.
    /// Nothing changes where there is no crate.
    pub fn cycle_crate_type(
        &mut self,
        level_coordinates: &Position,
        forward: bool,
        crates: &[Vec<&'static str>; 3],
    )
        requires
            old(self).wf(),
        ensures
            final(self).wf(),
            final(self).crates.static_crates@ == cycled_type(
                old(self).crates.static_crates@,
                *level_coordinates,
                forward,
                crates@.map_values(|v: Vec<&'static str>| v@.len()),
            ),
            final(self).crates.random == old(self).crates.random,
            *final(self) == (Level { crates: final(self).crates, ..*old(self) }),
    {
        if let Some(item) = self.crates.static_crates.get(level_coordinates) {
            let len = crates[item.crate_class.to_u32() as usize].len();
            proof {
                let lens = crates@.map_values(|v: Vec<&'static str>| v@.len());
                assert(lens[crate::crates::class_tag(item.crate_class) as int] == len);
            }
            if forward && item.crate_type < 255 && (item.crate_type as usize) + 1 < len {
                let next = StaticCrateType { crate_type: item.crate_type + 1, ..item };
                self.crates.static_crates.insert(*level_coordinates, next);
            } else if !forward && item.crate_type > 0 {
                let next = StaticCrateType { crate_type: item.crate_type - 1, ..item };
                self.crates.static_crates.insert(*level_coordinates, next);
            }
        }
    }
}

} // verus!
