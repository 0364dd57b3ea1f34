use vstd::prelude::*;

verus! {

/// Surface classification of a tile, or the shadow atlas when used as a brush.
#[derive(Clone, Copy, Debug, PartialEq, Eq, Structural)]
pub enum TextureType {
    Floor,
    Walls,
    Shadow,
}

/// The numeric tag of a texture type, as stored on disk.
pub open spec fn texture_tag(t: TextureType) -> u32 {
    match t {
        TextureType::Floor => 0,
        TextureType::Walls => 1,
        TextureType::Shadow => 2,
    }
}

impl TextureType {
    pub fn from_u32(value: u32) -> (r: TextureType)
        requires
            value <= 2,
        ensures
            texture_tag(r) == value,
    {
        match value {
            0 => TextureType::Floor,
            1 => TextureType::Walls,
            _ => TextureType::Shadow,
        }
    }

    pub fn to_u32(&self) -> (r: u32)
        ensures
            r == texture_tag(*self),
    {
        match self {
            TextureType::Floor => 0,
            TextureType::Walls => 1,
            TextureType::Shadow => 2,
        }
    }

    /// The atlas shown after paging forward (floor, walls, shadows, floor)
    /// or back.
    pub fn scrolled(&self, forward: bool) -> (r: TextureType)
        ensures
            texture_tag(r) == if forward {
                (texture_tag(*self) + 1) % 3
            } else {
                (texture_tag(*self) + 2) % 3
            },
    {
        match (self, forward) {
            (TextureType::Floor, true) => TextureType::Walls,
            (TextureType::Walls, true) => TextureType::Shadow,
            (TextureType::Shadow, true) => TextureType::Floor,
            (TextureType::Floor, false) => TextureType::Shadow,
            (TextureType::Walls, false) => TextureType::Floor,
            (TextureType::Shadow, false) => TextureType::Walls,
        }
    }
}

/// Number of tiles of an atlas `width` by `height` pixels cut in squares of
/// `tile_size`: whole tiles per row times the rows' pixel height, over the
/// tile size.
pub fn tiles_in_atlas(width: u32, height: u32, tile_size: u32) -> (r: u64)
    requires
        tile_size >= 1,
    ensures
        r == (width as int / tile_size as int) * height as int / tile_size as int,
{
    let per_row: u64 = (width / tile_size) as u64;
    proof {
        assert(per_row * height <= 0xffff_ffff * 0xffff_ffffu64) by (nonlinear_arith)
            requires
                per_row <= 0xffff_ffff,
                height <= 0xffff_ffff,
        ;
    }
    per_row * (height as u64) / (tile_size as u64)
}

/// One cell of the level grid.
///
/// `shadow` is 0 for no shadow, or `n + 1` for shadow atlas pattern `n`.
#[derive(Clone, Copy, Debug, PartialEq, Eq, Structural)]
pub struct Tile {
    pub texture_type: TextureType,
    pub id: u32,
    pub shadow: u32,
}

/// Which random crate table, or which kind of game, a screen works on.
#[derive(Clone, Copy, Debug, PartialEq, Eq, Structural)]
pub enum GameType {
    Normal,
    Deathmatch,
}

/// The colours the renderer draws outlines and decorations in.
#[derive(Clone, Copy, Debug, PartialEq, Eq, Structural)]
pub enum RendererColor {
    White,
    Red,
    Blue,
    LightBlue,
    LightGreen,
}

/// The screen the application shows next.
#[derive(Clone, Copy, Debug, PartialEq, Eq, Structural)]
pub enum NextMode {
    Editor,
    TileSelect,
    Help,
    GeneralLevelInfo,
    RandomItemEditor(GameType),
    LoadLevel,
    Quit,
}

} // verus!
