use crate::bytes::{enc_list, enc_u32, le_bytes, push_u32, read_u32_at, u32_at};
use crate::coord_map::{seq_to_map, CoordMap};
use crate::coords::Position;
use crate::crates::{class_tag, CrateClass, random_count, RandomCrates, StaticCrate, StaticCrateType, RANDOM_CRATE_ENTRIES};
use crate::level::{
    class_of_tag, grid, DeserializationError, FileTypeError, GeneralInfo, Level, LevelCrates,
    RandomCrateTables, Steam, MAX_SPOTLIGHT_INTENSITY, MAX_STEAM_RANGE, MIN_LEVEL_HEIGHT,
    MIN_LEVEL_WIDTH,
};
use crate::text::{push_char, to_uppercase, upper_of};
use crate::types::{texture_tag, TextureType, Tile};
use vstd::prelude::*;
use vstd::utf8::encode_utf8;

verus! {

broadcast use crate::bytes::lemma_le_bytes_len;

/// The file format version that is written and accepted.
pub const VERSION: u32 = 5;

/// Bytes the comment takes on disk.
pub const COMMENT_BYTES: usize = 20;

pub open spec fn enc_tile(t: Tile) -> Seq<u8> {
    le_bytes(texture_tag(t.texture_type)) + le_bytes(t.id) + le_bytes(t.shadow)
}

/// The tiles of a grid in row-major order.
pub open spec fn flat<T>(g: Seq<Seq<T>>) -> Seq<T>
    decreases g.len(),
{
    if g.len() == 0 {
        Seq::empty()
    } else {
        flat(g.drop_last()) + g.last()
    }
}

pub open spec fn enc_spotlight(e: (Position, u8)) -> Seq<u8> {
    le_bytes(e.0.0) + le_bytes(e.0.1) + le_bytes(e.1 as u32)
}

pub open spec fn enc_steam(e: (Position, Steam)) -> Seq<u8> {
    le_bytes(e.0.0) + le_bytes(e.0.1) + le_bytes(e.1.angle as u32) + le_bytes(e.1.range as u32)
}

pub open spec fn enc_crate(e: (Position, StaticCrateType)) -> Seq<u8> {
    le_bytes(e.0.0) + le_bytes(e.0.1) + le_bytes(class_tag(e.1.crate_class)) + le_bytes(
        e.1.crate_type as u32,
    )
}

pub open spec fn tile_enc() -> spec_fn(Tile) -> Seq<u8> {
    |t: Tile| enc_tile(t)
}

pub open spec fn spotlight_enc() -> spec_fn((Position, u8)) -> Seq<u8> {
    |e: (Position, u8)| enc_spotlight(e)
}

pub open spec fn steam_enc() -> spec_fn((Position, Steam)) -> Seq<u8> {
    |e: (Position, Steam)| enc_steam(e)
}

pub open spec fn crate_enc() -> spec_fn((Position, StaticCrateType)) -> Seq<u8> {
    |e: (Position, StaticCrateType)| enc_crate(e)
}

pub open spec fn u32_enc() -> spec_fn(u32) -> Seq<u8> {
    |n: u32| enc_u32(n)
}

/// The comment's UTF-8 bytes, cut to 20 bytes or padded to 20 with zeros.
pub open spec fn comment_bytes(c: Seq<char>) -> Seq<u8> {
    let b = encode_utf8(c);
    let n = if b.len() < COMMENT_BYTES { b.len() } else { COMMENT_BYTES as nat };
    b.take(n as int) + Seq::new((COMMENT_BYTES - n) as nat, |i: int| 0u8)
}

/// A random crate table as its 21 counts: weapons, bullets, energy.
pub open spec fn random_seq(c: RandomCrates) -> Seq<u32> {
    Seq::new(RANDOM_CRATE_ENTRIES as nat, |i: int| random_count(c, i))
}

/// The crates of one game mode, in order.
pub open spec fn crates_of(s: Seq<(Position, StaticCrateType)>, v: StaticCrate) -> Seq<
    (Position, StaticCrateType),
>
    decreases s.len(),
{
    if s.len() == 0 {
        Seq::empty()
    } else if s.last().1.crate_variant == v {
        crates_of(s.drop_last(), v).push(s.last())
    } else {
        crates_of(s.drop_last(), v)
    }
}

/// Version, grid size and the tiles row by row.
pub open spec fn enc_header(l: Level) -> Seq<u8> {
    let g = grid(l.tiles);
    le_bytes(VERSION) + le_bytes(g[0].len() as u32) + le_bytes(g.len() as u32) + enc_list(
        flat(g),
        tile_enc(),
    )
}

/// Player starts, then the spotlights and the steams, each list after its count.
pub open spec fn enc_decorations(l: Level) -> Seq<u8> {
    le_bytes(l.p1_position.0) + le_bytes(l.p1_position.1) + le_bytes(l.p2_position.0) + le_bytes(
        l.p2_position.1,
    ) + le_bytes(l.spotlights.entries().len() as u32) + enc_list(
        l.spotlights.entries(),
        spotlight_enc(),
    ) + le_bytes(l.steams.entries().len() as u32) + enc_list(l.steams.entries(), steam_enc())
}

/// Comment, time limit, enemy table and both random crate tables.
pub open spec fn enc_info(l: Level) -> Seq<u8> {
    comment_bytes(l.general_info.comment@) + le_bytes(l.general_info.time_limit) + enc_list(
        l.general_info.enemy_table@,
        u32_enc(),
    ) + enc_list(random_seq(l.crates.random.normal), u32_enc()) + enc_list(
        random_seq(l.crates.random.deathmatch),
        u32_enc(),
    )
}

/// The placed crates of the normal game, then those of deathmatch, each
/// list after its count.
pub open spec fn enc_static(l: Level) -> Seq<u8> {
    let normal = crates_of(l.crates.static_crates.entries(), StaticCrate::Normal);
    let deathmatch = crates_of(l.crates.static_crates.entries(), StaticCrate::Deathmatch);
    le_bytes(normal.len() as u32) + enc_list(normal, crate_enc()) + le_bytes(
        deathmatch.len() as u32,
    ) + enc_list(deathmatch, crate_enc())
}

/// The file's bytes for a level.
pub open spec fn encode(l: Level) -> Seq<u8> {
    enc_header(l) + enc_decorations(l) + enc_info(l) + enc_static(l)
}

/// Counts that the file stores in a `u32` fit there.
pub open spec fn counts_fit(l: Level) -> bool {
    &&& l.spotlights.entries().len() <= u32::MAX
    &&& l.steams.entries().len() <= u32::MAX
    &&& l.crates.static_crates.entries().len() <= u32::MAX
}

pub proof fn lemma_crates_of_len(s: Seq<(Position, StaticCrateType)>, v: StaticCrate)
    ensures
        crates_of(s, v).len() <= s.len(),
    decreases s.len(),
{
    if s.len() > 0 {
        lemma_crates_of_len(s.drop_last(), v);
    }
}

fn push_tile(out: &mut Vec<u8>, t: &Tile)
    ensures
        final(out)@ == old(out)@ + enc_tile(*t),
{
    push_u32(out, t.texture_type.to_u32());
    push_u32(out, t.id);
    push_u32(out, t.shadow);
    assert(final(out)@ =~= old(out)@ + enc_tile(*t));
}

fn push_crates(out: &mut Vec<u8>, crates: &CoordMap<StaticCrateType>, variant: StaticCrate)
    requires
        crates.entries().len() <= u32::MAX,
    ensures
        final(out)@ == old(out)@ + le_bytes(crates_of(crates.entries(), variant).len() as u32)
            + enc_list(
            crates_of(crates.entries(), variant),
            crate_enc(),
        ),
{
    let ghost s = crates.entries();
    let ghost f = crate_enc();
    let n = crates.len();
    let mut count: u32 = 0;
    let mut i: usize = 0;
    while i < n
        invariant
            n == s.len(),
            s == crates.entries(),
            n <= u32::MAX,
            i <= n,
            count == crates_of(s.take(i as int), variant).len(),
        decreases n - i,
    {
        proof {
            assert(s.take(i + 1).drop_last() =~= s.take(i as int));
            lemma_crates_of_len(s.take(i as int), variant);
        }
        let (_k, item) = crates.entry(i);
        if item.crate_variant == variant {
            count = count + 1;
        }
        i = i + 1;
    }
    proof {
        assert(s.take(n as int) =~= s);
    }
    push_u32(out, count);
    let ghost start = out@;
    let mut i: usize = 0;
    while i < n
        invariant
            n == s.len(),
            s == crates.entries(),
            i <= n,
            f == crate_enc(),
            out@ == start + enc_list(crates_of(s.take(i as int), variant), f),
        decreases n - i,
    {
        proof {
            assert(s.take(i + 1).drop_last() =~= s.take(i as int));
        }
        let (k, item) = crates.entry(i);
        if item.crate_variant == variant {
            let ghost before = out@;
            push_u32(out, k.0);
            push_u32(out, k.1);
            push_u32(out, item.crate_class.to_u32());
            push_u32(out, item.crate_type as u32);
            proof {
                let c = crates_of(s.take(i + 1), variant);
                assert(c.drop_last() =~= crates_of(s.take(i as int), variant));
                assert(out@ =~= start + enc_list(c, f));
            }
        }
        i = i + 1;
    }
    proof {
        assert(s.take(n as int) =~= s);
    }
}

fn push_random(out: &mut Vec<u8>, c: &RandomCrates)
    ensures
        final(out)@ == old(out)@ + enc_list(random_seq(*c), u32_enc()),
{
    let ghost f = u32_enc();
    let ghost start = out@;
    let ghost s = random_seq(*c);
    let mut i: usize = 0;
    while i < RANDOM_CRATE_ENTRIES
        invariant
            i <= RANDOM_CRATE_ENTRIES,
            s == random_seq(*c),
            f == u32_enc(),
            out@ == start + enc_list(s.take(i as int), f),
        decreases RANDOM_CRATE_ENTRIES - i,
    {
        proof {
            assert(s.take(i + 1).drop_last() =~= s.take(i as int));
        }
        push_u32(out, c.get(i));
        proof {
            assert(out@ =~= start + enc_list(s.take(i + 1), f));
        }
        i = i + 1;
    }
    proof {
        assert(s.take(RANDOM_CRATE_ENTRIES as int) =~= s);
    }
}


/// Whether a file name ends with the level extension `.LEV`, in any case.
pub open spec fn is_level_file(name: Seq<char>) -> bool {
    let u = upper_of(name);
    u.len() >= 4 && u.subrange(u.len() - 4, u.len() as int) == seq!['.', 'L', 'E', 'V']
}

/// Whether a file name ends with the level extension `.LEV`, in any case.
pub fn is_level_file_name(name: &str) -> (r: bool)
    ensures
        r == is_level_file(name@),
{
    let upper = to_uppercase(name);
    let text = upper.as_str();
    let n = text.unicode_len();
    if n < 4 {
        return false;
    }
    let r = text.get_char(n - 4) == '.' && text.get_char(n - 3) == 'L' && text.get_char(n - 2) == 'E'
        && text.get_char(n - 1) == 'V';
    proof {
        let u = upper_of(name@);
        let tail = u.subrange(n - 4, n as int);
        if r {
            assert(tail =~= seq!['.', 'L', 'E', 'V']);
        } else {
            if tail == seq!['.', 'L', 'E', 'V'] {
                assert(tail[0] == u[n - 4]);
                assert(tail[1] == u[n - 3]);
                assert(tail[2] == u[n - 2]);
                assert(tail[3] == u[n - 1]);
            }
        }
    }
    r
}

/// What a file holds of a level: everything but the scroll offset.
pub struct LevelData {
    pub tiles: Seq<Seq<Tile>>,
    pub p1_position: Position,
    pub p2_position: Position,
    pub spotlights: Map<Position, u8>,
    pub steams: Map<Position, Steam>,
    pub comment: Seq<char>,
    pub time_limit: u32,
    pub enemy_table: Seq<u32>,
    pub normal_crates: Seq<u32>,
    pub deathmatch_crates: Seq<u32>,
    pub static_crates: Map<Position, StaticCrateType>,
}

impl Level {
    pub open spec fn data(&self) -> LevelData {
        LevelData {
            tiles: grid(self.tiles),
            p1_position: self.p1_position,
            p2_position: self.p2_position,
            spotlights: self.spotlights@,
            steams: self.steams@,
            comment: self.general_info.comment@,
            time_limit: self.general_info.time_limit,
            enemy_table: self.general_info.enemy_table@,
            normal_crates: random_seq(self.crates.random.normal),
            deathmatch_crates: random_seq(self.crates.random.deathmatch),
            static_crates: self.crates.static_crates@,
        }
    }
}

/// The tile stored at `p`: surface tag, pattern id, shadow.
pub open spec fn tile_at(d: Seq<u8>, p: int) -> Tile {
    Tile {
        texture_type: if u32_at(d, p) == 0 {
            TextureType::Floor
        } else {
            TextureType::Walls
        },
        id: u32_at(d, p + 4),
        shadow: u32_at(d, p + 8),
    }
}

/// The grid of `h` rows of `w` tiles stored row by row from byte 12.
pub open spec fn parsed_grid(d: Seq<u8>, w: nat, h: nat) -> Seq<Seq<Tile>> {
    Seq::new(h, |y: int| Seq::new(w, |x: int| tile_at(d, 12 + 12 * (y * w + x))))
}

/// Every one of the first `n` tiles has the floor or the wall tag.
pub open spec fn tags_valid(d: Seq<u8>, n: int) -> bool {
    forall|k: int| 0 <= k < n ==> #[trigger] u32_at(d, 12 + 12 * k) <= 1
}

pub open spec fn spotlight_entries(d: Seq<u8>, q: int, n: nat) -> Seq<(Position, u8)> {
    Seq::new(
        n,
        |i: int| ((u32_at(d, q + 12 * i), u32_at(d, q + 12 * i + 4)), u32_at(d, q + 12 * i + 8) as u8),
    )
}

pub open spec fn steam_entries(d: Seq<u8>, q: int, n: nat) -> Seq<(Position, Steam)> {
    Seq::new(
        n,
        |i: int|
            (
                (u32_at(d, q + 16 * i), u32_at(d, q + 16 * i + 4)),
                Steam {
                    angle: u32_at(d, q + 16 * i + 8) as u16,
                    range: u32_at(d, q + 16 * i + 12) as u8,
                },
            ),
    )
}

pub open spec fn crate_entries(d: Seq<u8>, q: int, n: nat, v: StaticCrate) -> Seq<
    (Position, StaticCrateType),
> {
    Seq::new(
        n,
        |i: int|
            (
                (u32_at(d, q + 16 * i), u32_at(d, q + 16 * i + 4)),
                StaticCrateType {
                    crate_variant: v,
                    crate_class: class_of_tag(u32_at(d, q + 16 * i + 8)),
                    crate_type: u32_at(d, q + 16 * i + 12) as u8,
                },
            ),
    )
}

/// Every one of `n` spotlight records from `q` has an intensity of at most 9.
pub open spec fn spotlights_valid(d: Seq<u8>, q: int, n: nat) -> bool {
    forall|i: int| 0 <= i < n ==> #[trigger] u32_at(d, q + 12 * i + 8) <= MAX_SPOTLIGHT_INTENSITY
}

/// Every one of `n` steam records from `q` has a range of at most 6.
pub open spec fn steams_valid(d: Seq<u8>, q: int, n: nat) -> bool {
    forall|i: int| 0 <= i < n ==> #[trigger] u32_at(d, q + 16 * i + 12) <= MAX_STEAM_RANGE
}

/// Every one of `n` crate records from `q` has a known class tag.
pub open spec fn classes_valid(d: Seq<u8>, q: int, n: nat) -> bool {
    forall|i: int| 0 <= i < n ==> #[trigger] u32_at(d, q + 16 * i + 8) <= 2
}

/// The comment held in a padded byte field: its non-zero bytes as characters.
pub open spec fn comment_of(b: Seq<u8>) -> Seq<char>
    decreases b.len(),
{
    if b.len() == 0 {
        Seq::empty()
    } else if b.last() == 0 {
        comment_of(b.drop_last())
    } else {
        comment_of(b.drop_last()).push(b.last() as char)
    }
}

/// `n` numbers stored from `q`.
pub open spec fn u32_seq(d: Seq<u8>, q: int, n: nat) -> Seq<u32> {
    Seq::new(n, |i: int| u32_at(d, q + 4 * i))
}

/// Bytes between the steam records and the normal crate count: comment,
/// time limit, enemy table and both random crate tables.
pub const FIXED_BLOCK: usize = 224;

pub open spec fn io_error() -> Result<LevelData, DeserializationError> {
    Err(DeserializationError::IOError)
}

pub open spec fn content_error(e: FileTypeError) -> Result<LevelData, DeserializationError> {
    Err(DeserializationError::ContentError(e))
}

/// What reading a level file gives: the level, or the first problem met
/// reading it front to back (a short file is an `IOError`).
pub open spec fn parse(d: Seq<u8>) -> Result<LevelData, DeserializationError> {
    if d.len() < 4 {
        io_error()
    } else if u32_at(d, 0) != VERSION {
        content_error(FileTypeError::InvalidVersion)
    } else if d.len() < 8 {
        io_error()
    } else if u32_at(d, 4) < MIN_LEVEL_WIDTH {
        content_error(FileTypeError::InvalidLevelSize)
    } else if d.len() < 12 {
        io_error()
    } else if u32_at(d, 8) < MIN_LEVEL_HEIGHT {
        content_error(FileTypeError::InvalidLevelSize)
    } else {
        parse_body(d, u32_at(d, 4) as int, u32_at(d, 8) as int)
    }
}

pub open spec fn parse_body(d: Seq<u8>, w: int, h: int) -> Result<LevelData, DeserializationError> {
    let pp: int = 12 + 12 * (w * h);
    let ps: int = pp + 16;
    if d.len() < pp {
        io_error()
    } else if !tags_valid(d, w * h) {
        content_error(FileTypeError::InvalidTileType)
    } else if d.len() < ps + 4 {
        io_error()
    } else {
        let n1: int = u32_at(d, ps) as int;
        let q1: int = ps + 4;
        let pt: int = q1 + 12 * n1;
        if d.len() < pt + 4 {
            io_error()
        } else if !spotlights_valid(d, q1, n1 as nat) {
            content_error(FileTypeError::InvalidDecoration)
        } else {
            let n2: int = u32_at(d, pt) as int;
            let q2: int = pt + 4;
            let pc: int = q2 + 16 * n2;
            let pn: int = pc + FIXED_BLOCK;
            if d.len() < pn + 4 {
                io_error()
            } else if !steams_valid(d, q2, n2 as nat) {
                content_error(FileTypeError::InvalidDecoration)
            } else {
                let n3: int = u32_at(d, pn) as int;
                let q3: int = pn + 4;
                let pd: int = q3 + 16 * n3;
                if d.len() < pd {
                    io_error()
                } else if !classes_valid(d, q3, n3 as nat) {
                    content_error(FileTypeError::InvalidCrateClass)
                } else if d.len() < pd + 4 {
                    io_error()
                } else {
                    let n4: int = u32_at(d, pd) as int;
                    let q4: int = pd + 4;
                    if d.len() < q4 + 16 * n4 {
                        io_error()
                    } else if !classes_valid(d, q4, n4 as nat) {
                        content_error(FileTypeError::InvalidCrateClass)
                    } else {
                        Ok(
                            LevelData {
                                tiles: parsed_grid(d, w as nat, h as nat),
                                p1_position: (u32_at(d, pp), u32_at(d, pp + 4)),
                                p2_position: (u32_at(d, pp + 8), u32_at(d, pp + 12)),
                                spotlights: seq_to_map(spotlight_entries(d, q1, n1 as nat)),
                                steams: seq_to_map(steam_entries(d, q2, n2 as nat)),
                                comment: comment_of(d.subrange(pc, pc + 20)),
                                time_limit: u32_at(d, pc + 20),
                                enemy_table: u32_seq(d, pc + 24, 8),
                                normal_crates: u32_seq(d, pc + 56, 21),
                                deathmatch_crates: u32_seq(d, pc + 140, 21),
                                static_crates: seq_to_map(
                                    crate_entries(d, q3, n3 as nat, StaticCrate::Normal) + crate_entries(
                                        d,
                                        q4,
                                        n4 as nat,
                                        StaticCrate::Deathmatch,
                                    ),
                                ),
                            },
                        )
                    }
                }
            }
        }
    }
}


/// The grid stored from byte 12, or `None` when a tile has an unknown tag.
fn read_tiles(data: &[u8], w: u32, h: u32) -> (r: Option<Vec<Vec<Tile>>>)
    requires
        12 + 12 * (w * h) <= data@.len(),
    ensures
        r is Some <==> tags_valid(data@, w * h),
        r matches Some(t) ==> grid(t) == parsed_grid(data@, w as nat, h as nat),
{
    let ghost d = data@;
    let len = data.len();
    let ghost pg = parsed_grid(d, w as nat, h as nat);
    let mut tiles: Vec<Vec<Tile>> = Vec::new();
    let mut pos: usize = 12;
    let mut y: u32 = 0;
    while y < h
        invariant
            d == data@,
            len == d.len(),
            pg == parsed_grid(d, w as nat, h as nat),
            12 + 12 * (w * h) <= d.len(),
            y <= h,
            pos == 12 + 12 * (y * w),
            grid(tiles) =~= pg.take(y as int),
            tags_valid(d, y * w),
        decreases h - y,
    {
        let mut row: Vec<Tile> = Vec::new();
        let mut x: u32 = 0;
        while x < w
            invariant
                d == data@,
                len == d.len(),
                pg == parsed_grid(d, w as nat, h as nat),
                12 + 12 * (w * h) <= d.len(),
                y < h,
                x <= w,
                pos == 12 + 12 * (y * w + x),
                row@ =~= pg[y as int].take(x as int),
                tags_valid(d, y * w + x),
            decreases w - x,
        {
            proof {
                assert(y * w + x + 1 <= w * h) by (nonlinear_arith)
                    requires
                        y < h,
                        x < w,
                ;
            }
            let tag = read_u32_at(data, pos);
            if tag > 1 {
                proof {
                    assert(u32_at(d, 12 + 12 * (y * w + x)) > 1);
                }
                return None;
            }
            let id = read_u32_at(data, pos + 4);
            let shadow = read_u32_at(data, pos + 8);
            let texture_type = if tag == 0 { TextureType::Floor } else { TextureType::Walls };
            row.push(Tile { texture_type, id, shadow });
            proof {
                assert(tags_valid(d, y * w + x + 1)) by {
                    assert forall|k: int| 0 <= k < y * w + x + 1 implies #[trigger] u32_at(
                        d,
                        12 + 12 * k,
                    ) <= 1 by {
                        if k < y * w + x {
                        } else {
                            assert(k == y * w + x);
                        }
                    }
                }
            }
            pos = pos + 12;
            x = x + 1;
        }
        proof {
            assert(y * w + w == (y + 1) * w) by (nonlinear_arith);
            assert(row@ =~= pg[y as int]);
        }
        let ghost before = grid(tiles);
        tiles.push(row);
        proof {
            assert(grid(tiles) =~= before.push(row@));
            assert(pg.take(y + 1) =~= pg.take(y as int).push(pg[y as int]));
        }
        y = y + 1;
    }
    proof {
        assert(pg.take(h as int) =~= pg);
        assert(h * w == w * h) by (nonlinear_arith);
    }
    Some(tiles)
}

fn read_spotlights(data: &[u8], q: usize, n: u32) -> (r: CoordMap<u8>)
    requires
        q + 12 * n <= data@.len(),
        spotlights_valid(data@, q as int, n as nat),
    ensures
        r.wf(),
        forall|k: Position| #[trigger] r@.contains_key(k) ==> r@[k] <= MAX_SPOTLIGHT_INTENSITY,
        r@ == seq_to_map(spotlight_entries(data@, q as int, n as nat)),
{
    let ghost d = data@;
    let len = data.len();
    let mut map: CoordMap<u8> = CoordMap::new();
    let mut pos: usize = q;
    let mut i: u32 = 0;
    while i < n
        invariant
            d == data@,
            len == d.len(),
            q + 12 * n <= d.len(),
            i <= n,
            pos == q + 12 * i,
            map.wf(),
            spotlights_valid(d, q as int, n as nat),
            forall|k: Position| #[trigger] map@.contains_key(k) ==> map@[k] <= MAX_SPOTLIGHT_INTENSITY,
            map@ == seq_to_map(spotlight_entries(d, q as int, i as nat)),
        decreases n - i,
    {
        let x = read_u32_at(data, pos);
        let y = read_u32_at(data, pos + 4);
        let v = read_u32_at(data, pos + 8);
        proof {
            assert(u32_at(d, q + 12 * i + 8) <= MAX_SPOTLIGHT_INTENSITY);
        }
        map.insert((x, y), #[verifier::truncate] (v as u8));
        proof {
            let e = spotlight_entries(d, q as int, (i + 1) as nat);
            assert(e.drop_last() =~= spotlight_entries(d, q as int, i as nat));
        }
        pos = pos + 12;
        i = i + 1;
    }
    map
}

fn read_steams(data: &[u8], q: usize, n: u32) -> (r: CoordMap<Steam>)
    requires
        q + 16 * n <= data@.len(),
        steams_valid(data@, q as int, n as nat),
    ensures
        r.wf(),
        forall|k: Position| #[trigger] r@.contains_key(k) ==> r@[k].range <= MAX_STEAM_RANGE,
        r@ == seq_to_map(steam_entries(data@, q as int, n as nat)),
{
    let ghost d = data@;
    let len = data.len();
    let mut map: CoordMap<Steam> = CoordMap::new();
    let mut pos: usize = q;
    let mut i: u32 = 0;
    while i < n
        invariant
            d == data@,
            len == d.len(),
            q + 16 * n <= d.len(),
            i <= n,
            pos == q + 16 * i,
            map.wf(),
            steams_valid(d, q as int, n as nat),
            forall|k: Position| #[trigger] map@.contains_key(k) ==> map@[k].range <= MAX_STEAM_RANGE,
            map@ == seq_to_map(steam_entries(d, q as int, i as nat)),
        decreases n - i,
    {
        let x = read_u32_at(data, pos);
        let y = read_u32_at(data, pos + 4);
        let angle = read_u32_at(data, pos + 8);
        let range = read_u32_at(data, pos + 12);
        proof {
            assert(u32_at(d, q + 16 * i + 12) <= MAX_STEAM_RANGE);
        }
        map.insert((x, y), Steam {
                angle: #[verifier::truncate] (angle as u16),
                range: #[verifier::truncate] (range as u8),
            });
        proof {
            let e = steam_entries(d, q as int, (i + 1) as nat);
            assert(e.drop_last() =~= steam_entries(d, q as int, i as nat));
        }
        pos = pos + 16;
        i = i + 1;
    }
    map
}

/// Whether the number at offset `field` of each of `n` records of `size`
/// bytes from `q` is at most `max`.
fn records_at_most(data: &[u8], q: usize, n: u32, size: usize, field: usize, max: u32) -> (r: bool)
    requires
        4 <= size <= 16,
        field + 4 <= size,
        q + size * n <= data@.len(),
    ensures
        r == forall|i: int| 0 <= i < n ==> #[trigger] u32_at(data@, q + size * i + field) <= max,
{
    let len = data.len();
    let mut pos: usize = q;
    let mut i: u32 = 0;
    while i < n
        invariant
            len == data@.len(),
            4 <= size <= 16,
            field + 4 <= size,
            q + size * n <= data@.len(),
            i <= n,
            pos == q + size * i,
            forall|j: int| 0 <= j < i ==> #[trigger] u32_at(data@, q + size * j + field) <= max,
        decreases n - i,
    {
        proof {
            assert(size * i + size <= size * n) by (nonlinear_arith)
                requires
                    i < n,
            ;
            assert(size * (i + 1) == size * i + size) by (nonlinear_arith);
        }
        if read_u32_at(data, pos + field) > max {
            return false;
        }
        proof {
            assert forall|j: int| 0 <= j < i + 1 implies #[trigger] u32_at(
                data@,
                q + size * j + field,
            ) <= max by {
                if j == i {
                    assert(q + size * j + field == pos + field);
                }
            }
        }
        pos = pos + size;
        i = i + 1;
    }
    true
}

/// Whether every one of `n` crate records from `q` has a known class tag.
fn crate_classes_valid(data: &[u8], q: usize, n: u32) -> (r: bool)
    requires
        q + 16 * n <= data@.len(),
    ensures
        r == classes_valid(data@, q as int, n as nat),
{
    let len = data.len();
    let mut pos: usize = q;
    let mut i: u32 = 0;
    while i < n
        invariant
            len == data@.len(),
            q + 16 * n <= data@.len(),
            i <= n,
            pos == q + 16 * i,
            classes_valid(data@, q as int, i as nat),
        decreases n - i,
    {
        if read_u32_at(data, pos + 8) > 2 {
            return false;
        }
        proof {
            assert forall|j: int| 0 <= j < i + 1 implies #[trigger] u32_at(
                data@,
                q + 16 * j + 8,
            ) <= 2 by {
                if j < i {
                } else {
                    assert(j == i);
                }
            }
        }
        pos = pos + 16;
        i = i + 1;
    }
    true
}

/// Inserts `n` crate records from `q`, all of game mode `v`.
fn read_crates(
    data: &[u8],
    q: usize,
    n: u32,
    v: StaticCrate,
    map: &mut CoordMap<StaticCrateType>,
    pre: Ghost<Seq<(Position, StaticCrateType)>>,
)
    requires
        q + 16 * n <= data@.len(),
        classes_valid(data@, q as int, n as nat),
        old(map).wf(),
        old(map)@ == seq_to_map(pre@),
    ensures
        final(map).wf(),
        final(map)@ == seq_to_map(pre@ + crate_entries(data@, q as int, n as nat, v)),
{
    let ghost d = data@;
    let len = data.len();
    let mut pos: usize = q;
    let mut i: u32 = 0;
    while i < n
        invariant
            d == data@,
            len == d.len(),
            q + 16 * n <= d.len(),
            classes_valid(d, q as int, n as nat),
            i <= n,
            pos == q + 16 * i,
            map.wf(),
            map@ == seq_to_map(pre@ + crate_entries(d, q as int, i as nat, v)),
        decreases n - i,
    {
        let x = read_u32_at(data, pos);
        let y = read_u32_at(data, pos + 4);
        let class = read_u32_at(data, pos + 8);
        let kind = read_u32_at(data, pos + 12);
        proof {
            assert(u32_at(d, q + 16 * i + 8) <= 2);
        }
        let item = StaticCrateType {
            crate_variant: v,
            crate_class: CrateClass::from_u32(class),
            crate_type: #[verifier::truncate] (kind as u8),
        };
        map.insert((x, y), item);
        proof {
            let e = pre@ + crate_entries(d, q as int, (i + 1) as nat, v);
            assert(e.drop_last() =~= pre@ + crate_entries(d, q as int, i as nat, v));
            assert(item.crate_class == class_of_tag(class));
        }
        pos = pos + 16;
        i = i + 1;
    }
}

/// The comment held in the 20 bytes from `p`.
fn read_comment(data: &[u8], p: usize) -> (r: String)
    requires
        p + 20 <= data@.len(),
    ensures
        r@ == comment_of(data@.subrange(p as int, p + 20)),
{
    let ghost d = data@;
    let len = data.len();
    let mut comment = String::new();
    let mut i: usize = 0;
    while i < COMMENT_BYTES
        invariant
            d == data@,
            len == d.len(),
            p + 20 <= d.len(),
            i <= COMMENT_BYTES,
            comment@ == comment_of(d.subrange(p as int, p + i)),
        decreases COMMENT_BYTES - i,
    {
        let b = data[p + i];
        proof {
            assert(d.subrange(p as int, p + i + 1).drop_last() =~= d.subrange(p as int, p + i));
        }
        if b != 0 {
            push_char(&mut comment, b as char);
        }
        i = i + 1;
    }
    comment
}

/// The 21 counts of a random crate table stored from `q`.
fn read_random(data: &[u8], q: usize) -> (r: RandomCrates)
    requires
        q + 84 <= data@.len(),
    ensures
        random_seq(r) == u32_seq(data@, q as int, 21),
{
    let _len = data.len();
    let r = RandomCrates {
        weapons: [
            read_u32_at(data, q),
            read_u32_at(data, q + 4),
            read_u32_at(data, q + 8),
            read_u32_at(data, q + 12),
            read_u32_at(data, q + 16),
            read_u32_at(data, q + 20),
            read_u32_at(data, q + 24),
            read_u32_at(data, q + 28),
            read_u32_at(data, q + 32),
            read_u32_at(data, q + 36),
            read_u32_at(data, q + 40),
        ],
        bullets: [
            read_u32_at(data, q + 44),
            read_u32_at(data, q + 48),
            read_u32_at(data, q + 52),
            read_u32_at(data, q + 56),
            read_u32_at(data, q + 60),
            read_u32_at(data, q + 64),
            read_u32_at(data, q + 68),
            read_u32_at(data, q + 72),
            read_u32_at(data, q + 76),
        ],
        energy: read_u32_at(data, q + 80),
    };
    assert(random_seq(r) =~= u32_seq(data@, q as int, 21));
    r
}


/// Reads a level file; see `parse`.
#[verifier::rlimit(60)]
fn decode(data: &[u8]) -> (r: Result<Level, DeserializationError>)
    ensures
        match parse(data@) {
            Ok(ld) => r matches Ok(l) && l.wf() && l.data() == ld && l.scroll == (0u32, 0u32),
            Err(e) => r == Err::<Level, DeserializationError>(e),
        },
{
    let ghost d = data@;
    let len = data.len();
    if len < 4 {
        return Err(DeserializationError::IOError);
    }
    if read_u32_at(data, 0) != VERSION {
        return Err(DeserializationError::ContentError(FileTypeError::InvalidVersion));
    }
    if len < 8 {
        return Err(DeserializationError::IOError);
    }
    let w = read_u32_at(data, 4);
    if w < MIN_LEVEL_WIDTH {
        return Err(DeserializationError::ContentError(FileTypeError::InvalidLevelSize));
    }
    if len < 12 {
        return Err(DeserializationError::IOError);
    }
    let h = read_u32_at(data, 8);
    if h < MIN_LEVEL_HEIGHT {
        return Err(DeserializationError::ContentError(FileTypeError::InvalidLevelSize));
    }
    proof {
        assert((w as u128) * (h as u128) <= 0xffff_ffff * 0xffff_ffffu128) by (nonlinear_arith)
            requires
                w <= 0xffff_ffff,
                h <= 0xffff_ffff,
        ;
    }
    let need: u128 = 12 + 12 * ((w as u128) * (h as u128));
    if (len as u128) < need {
        return Err(DeserializationError::IOError);
    }
    let tiles = match read_tiles(data, w, h) {
        Some(t) => t,
        None => {
            return Err(DeserializationError::ContentError(FileTypeError::InvalidTileType));
        },
    };
    let pp: usize = need as usize;
    if len - pp < 20 {
        return Err(DeserializationError::IOError);
    }
    let p1_position = (read_u32_at(data, pp), read_u32_at(data, pp + 4));
    let p2_position = (read_u32_at(data, pp + 8), read_u32_at(data, pp + 12));
    let n1 = read_u32_at(data, pp + 16);
    let q1 = pp + 20;
    if ((len - q1) as u128) < 12 * (n1 as u128) + 4 {
        return Err(DeserializationError::IOError);
    }
    if !records_at_most(data, q1, n1, 12, 8, MAX_SPOTLIGHT_INTENSITY as u32) {
        return Err(DeserializationError::ContentError(FileTypeError::InvalidDecoration));
    }
    let spotlights = read_spotlights(data, q1, n1);
    let pt = q1 + 12 * (n1 as usize);
    let n2 = read_u32_at(data, pt);
    let q2 = pt + 4;
    if ((len - q2) as u128) < 16 * (n2 as u128) + (FIXED_BLOCK as u128) + 4 {
        return Err(DeserializationError::IOError);
    }
    if !records_at_most(data, q2, n2, 16, 12, MAX_STEAM_RANGE as u32) {
        return Err(DeserializationError::ContentError(FileTypeError::InvalidDecoration));
    }
    let steams = read_steams(data, q2, n2);
    let pc = q2 + 16 * (n2 as usize);
    let comment = read_comment(data, pc);
    let time_limit = read_u32_at(data, pc + 20);
    let enemy_table = [
        read_u32_at(data, pc + 24),
        read_u32_at(data, pc + 28),
        read_u32_at(data, pc + 32),
        read_u32_at(data, pc + 36),
        read_u32_at(data, pc + 40),
        read_u32_at(data, pc + 44),
        read_u32_at(data, pc + 48),
        read_u32_at(data, pc + 52),
    ];
    let normal = read_random(data, pc + 56);
    let deathmatch = read_random(data, pc + 140);
    let pn = pc + FIXED_BLOCK;
    let n3 = read_u32_at(data, pn);
    let q3 = pn + 4;
    if ((len - q3) as u128) < 16 * (n3 as u128) {
        return Err(DeserializationError::IOError);
    }
    if !crate_classes_valid(data, q3, n3) {
        return Err(DeserializationError::ContentError(FileTypeError::InvalidCrateClass));
    }
    let pd = q3 + 16 * (n3 as usize);
    if len - pd < 4 {
        return Err(DeserializationError::IOError);
    }
    let n4 = read_u32_at(data, pd);
    let q4 = pd + 4;
    if ((len - q4) as u128) < 16 * (n4 as u128) {
        return Err(DeserializationError::IOError);
    }
    if !crate_classes_valid(data, q4, n4) {
        return Err(DeserializationError::ContentError(FileTypeError::InvalidCrateClass));
    }
    let mut static_crates: CoordMap<StaticCrateType> = CoordMap::new();
    read_crates(data, q3, n3, StaticCrate::Normal, &mut static_crates, Ghost(Seq::empty()));
    proof {
        let e = crate_entries(d, q3 as int, n3 as nat, StaticCrate::Normal);
        assert(Seq::<(Position, StaticCrateType)>::empty() + e =~= e);
    }
    read_crates(
        data,
        q4,
        n4,
        StaticCrate::Deathmatch,
        &mut static_crates,
        Ghost(crate_entries(d, q3 as int, n3 as nat, StaticCrate::Normal)),
    );
    let level = Level {
        tiles,
        p1_position,
        p2_position,
        scroll: (0, 0),
        spotlights,
        steams,
        general_info: GeneralInfo { comment, time_limit, enemy_table },
        crates: LevelCrates {
            static_crates,
            random: RandomCrateTables { normal, deathmatch },
        },
    };
    proof {
        let g = grid(level.tiles);
        assert(g == parsed_grid(d, w as nat, h as nat));
        assert(g[0].len() == w);
        assert forall|y: int| 0 <= y < g.len() implies #[trigger] g[y].len() == g[0].len() by {}
        assert(level.general_info.enemy_table@ =~= u32_seq(d, pc + 24, 8));
        assert(level.data() == parse(d)->Ok_0);
    }
    Ok(level)
}

impl Level {
    /// Replaces this level with the one read from `data`; the scroll offset
    /// is reset. On any error the level is left as it was.
    pub fn deserialize(&mut self, data: &[u8]) -> (r: Result<(), DeserializationError>)
        ensures
            match parse(data@) {
                Ok(ld) => r is Ok && final(self).wf() && final(self).data() == ld
                    && final(self).scroll == (0u32, 0u32),
                Err(e) => r == Err::<(), DeserializationError>(e) && *final(self) == *old(self),
            },
    {
        match decode(data) {
            Ok(level) => {
                *self = level;
                Ok(())
            },
            Err(e) => Err(e),
        }
    }
}

impl Level {
    /// The level in the file format: version, grid size, tiles row by row,
    /// player starts, spotlights, steams, the comment in 20 bytes, time limit,
    /// enemy table, both random crate tables, then the placed crates of each
    /// game mode; every number a little-endian `u32`.
    pub fn serialize(&self) -> (r: Vec<u8>)
        requires
            self.wf(),
            counts_fit(*self),
        ensures
            r@ == encode(*self),
    {
        let ghost g = grid(self.tiles);
        let mut out: Vec<u8> = Vec::new();
        push_u32(&mut out, VERSION);
        push_u32(&mut out, self.tiles[0].len() as u32);
        push_u32(&mut out, self.tiles.len() as u32);
        let ghost start = out@;
        let ghost ft = tile_enc();
        let h = self.tiles.len();
        let mut y: usize = 0;
        while y < h
            invariant
                self.wf(),
                g == grid(self.tiles),
                h == g.len(),
                y <= h,
                ft == tile_enc(),
                out@ == start + enc_list(flat(g.take(y as int)), ft),
            decreases h - y,
        {
            let w = self.tiles[y].len();
            let ghost row_start = flat(g.take(y as int));
            proof {
                assert(g[y as int] == self.tiles@[y as int]@);
            }
            let mut x: usize = 0;
            while x < w
                invariant
                    self.wf(),
                    g == grid(self.tiles),
                    h == g.len(),
                    y < h,
                    w == g[y as int].len(),
                    x <= w,
                    ft == tile_enc(),
                    row_start == flat(g.take(y as int)),
                    out@ == start + enc_list(row_start + g[y as int].take(x as int), ft),
                decreases w - x,
            {
                proof {
                    assert((row_start + g[y as int].take(x + 1)).drop_last() =~= row_start + g[y as int].take(x as int));
                }
                push_tile(&mut out, &self.tiles[y][x]);
                proof {
                    assert(out@ =~= start + enc_list(row_start + g[y as int].take(x + 1), ft));
                }
                x = x + 1;
            }
            proof {
                assert(g.take(y + 1).drop_last() =~= g.take(y as int));
                assert(g[y as int].take(w as int) =~= g[y as int]);
                assert(flat(g.take(y + 1)) == row_start + g[y as int]);
            }
            y = y + 1;
        }
        proof {
            assert(g.take(h as int) =~= g);
            assert(out@ =~= enc_header(*self));
        }
        let ghost s1 = out@;
        push_u32(&mut out, self.p1_position.0);
        push_u32(&mut out, self.p1_position.1);
        push_u32(&mut out, self.p2_position.0);
        push_u32(&mut out, self.p2_position.1);

        let ghost fs = spotlight_enc();
        let ghost ss = self.spotlights.entries();
        let n = self.spotlights.len();
        push_u32(&mut out, n as u32);
        let ghost start = out@;
        let mut i: usize = 0;
        while i < n
            invariant
                n == ss.len(),
                ss == self.spotlights.entries(),
                i <= n,
                fs == spotlight_enc(),
                out@ == start + enc_list(ss.take(i as int), fs),
            decreases n - i,
        {
            proof {
                assert(ss.take(i + 1).drop_last() =~= ss.take(i as int));
            }
            let (k, v) = self.spotlights.entry(i);
            push_u32(&mut out, k.0);
            push_u32(&mut out, k.1);
            push_u32(&mut out, v as u32);
            proof {
                assert(out@ =~= start + enc_list(ss.take(i + 1), fs));
            }
            i = i + 1;
        }
        proof {
            assert(ss.take(n as int) =~= ss);
        }

        let ghost fst = steam_enc();
        let ghost st = self.steams.entries();
        let n = self.steams.len();
        push_u32(&mut out, n as u32);
        let ghost start = out@;
        let mut i: usize = 0;
        while i < n
            invariant
                n == st.len(),
                st == self.steams.entries(),
                i <= n,
                fst == steam_enc(),
                out@ == start + enc_list(st.take(i as int), fst),
            decreases n - i,
        {
            proof {
                assert(st.take(i + 1).drop_last() =~= st.take(i as int));
            }
            let (k, v) = self.steams.entry(i);
            push_u32(&mut out, k.0);
            push_u32(&mut out, k.1);
            push_u32(&mut out, v.angle as u32);
            push_u32(&mut out, v.range as u32);
            proof {
                assert(out@ =~= start + enc_list(st.take(i + 1), fst));
            }
            i = i + 1;
        }
        proof {
            assert(st.take(n as int) =~= st);
            assert(out@ =~= s1 + enc_decorations(*self));
        }
        let ghost s2 = out@;

        let bytes = self.general_info.comment.as_str().as_bytes();
        let ghost cb = encode_utf8(self.general_info.comment@);
        let m: usize = if bytes.len() < COMMENT_BYTES { bytes.len() } else { COMMENT_BYTES };
        let ghost start = out@;
        let mut i: usize = 0;
        while i < m
            invariant
                bytes@ == cb,
                m <= bytes@.len(),
                m <= COMMENT_BYTES,
                i <= m,
                out@ == start + cb.take(i as int),
            decreases m - i,
        {
            out.push(bytes[i]);
            proof {
                assert(out@ =~= start + cb.take(i + 1));
            }
            i = i + 1;
        }
        while i < COMMENT_BYTES
            invariant
                m <= i <= COMMENT_BYTES,
                out@ == start + cb.take(m as int) + Seq::new((i - m) as nat, |j: int| 0u8),
            decreases COMMENT_BYTES - i,
        {
            out.push(0u8);
            proof {
                assert(out@ =~= start + cb.take(m as int) + Seq::new((i + 1 - m) as nat, |j: int| 0u8));
            }
            i = i + 1;
        }
        proof {
            assert(out@ =~= start + comment_bytes(self.general_info.comment@));
        }

        push_u32(&mut out, self.general_info.time_limit);
        let ghost fu = u32_enc();
        let ghost et = self.general_info.enemy_table@;
        let ghost start = out@;
        let mut i: usize = 0;
        while i < 8
            invariant
                i <= 8,
                et == self.general_info.enemy_table@,
                et.len() == 8,
                fu == u32_enc(),
                out@ == start + enc_list(et.take(i as int), fu),
            decreases 8 - i,
        {
            proof {
                assert(et.take(i + 1).drop_last() =~= et.take(i as int));
            }
            push_u32(&mut out, self.general_info.enemy_table[i]);
            proof {
                assert(out@ =~= start + enc_list(et.take(i + 1), fu));
            }
            i = i + 1;
        }
        proof {
            assert(et.take(8) =~= et);
        }
        push_random(&mut out, &self.crates.random.normal);
        push_random(&mut out, &self.crates.random.deathmatch);
        proof {
            assert(out@ =~= s2 + enc_info(*self));
        }
        let ghost s3 = out@;
        push_crates(&mut out, &self.crates.static_crates, StaticCrate::Normal);
        push_crates(&mut out, &self.crates.static_crates, StaticCrate::Deathmatch);
        proof {
            assert(out@ =~= s3 + enc_static(*self));
            assert(out@ =~= encode(*self));
        }
        out
    }
}

} // verus!
