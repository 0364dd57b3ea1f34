//! Authoring core of a tile-based level editor: the level model, its binary
//! file format, the shadow engine, the coordinate transforms and the
//! interaction protocol that turns input events into level edits.

pub mod bytes;
pub mod codec;
pub mod coord_map;
pub mod coords;
pub mod crates;
pub mod editor;
pub mod font;
pub mod graphics;
pub mod input;
pub mod laws;
pub mod level;
pub mod screens;
pub mod text;
pub mod types;

pub use codec::{is_level_file_name, VERSION};
pub use coord_map::CoordMap;
pub use coords::{
    check_box_click, get_absolute_coordinates_from_logical, get_bottom_text_position,
    get_crate_render_size, get_level_coordinates_from_screen_coordinates,
    get_logical_coordinates, get_screen_coordinates_from_level_coordinates,
    get_scroll_corrected_indexes, get_selected_level_tiles, get_spotlight_render_radius,
    get_steam_render_radius, get_tile_coordinates, get_tile_id_from_coordinates,
    limit_coordinates, Position, TITLE_POSITION,
};
pub use crates::{get_crates, CrateClass, RandomCrates, StaticCrate, StaticCrateType};
pub use editor::{
    get_limited_screen_level_size, Editor, EditorAction, InsertState, InsertType, Key,
    NewLevelState, PromptType, SaveLevelType, ShadowPromptType,
};
pub use font::{char_to_index, get_text_texture_size, load_font, Character, Line};
pub use graphics::Graphics;
pub use input::{
    parse_size, sanitize_level_comment_input, sanitize_level_name_input, sanitize_numeric_input,
};
pub use level::{
    DeserializationError, FileTypeError, GeneralInfo, Level, LevelCrates, RandomCrateTables,
    Steam,
};
pub use screens::{
    get_value, set_value, GeneralLevelInfoState, LoadLevelAction, LoadLevelState,
    RandomItemEditorState,
};
pub use types::{tiles_in_atlas, GameType, NextMode, RendererColor, TextureType, Tile};
