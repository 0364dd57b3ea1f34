use crate::codec::{counts_fit, encode};
use crate::coords::{
    get_level_coordinates_from_screen_coordinates, get_logical_coordinates,
    get_selected_level_tiles, level_pixel, limit_coordinates, logical, max_u32, min_u32, rect_ids,
    Position,
};
use crate::crates::{get_crates, CrateClass, StaticCrate, StaticCrateType};
use crate::graphics::Graphics;
use crate::input::{parse_size, sanitize_level_name_input, sanitize_numeric_input, size_value, typed, all_alphanumeric, is_decimal, NAME_INPUT_MAX, SIZE_INPUT_MAX};
use crate::level::{
    grid, in_crate_box, paint, paint_all, within_radius, with_shadows, Level, Steam,
    MAX_SPOTLIGHT_INTENSITY, MAX_STEAM_RANGE, MIN_LEVEL_HEIGHT, MIN_LEVEL_WIDTH,
};
use crate::text::{pop_char, to_uppercase, upper_of};
use crate::types::{GameType, NextMode, TextureType};
use vstd::prelude::*;

verus! {

/// Stages of the new-level prompt: confirm, then width, then height.
#[derive(Clone, Copy, Debug, PartialEq, Eq, Structural)]
pub enum NewLevelState {
    Prompt,
    XSize,
    YSize,
}

/// Stages of the save prompt: confirm, then the name.
#[derive(Clone, Copy, Debug, PartialEq, Eq, Structural)]
pub enum SaveLevelType {
    Prompt,
    NameInput,
}

/// Whether automatic shadows were on when their prompt opened.
#[derive(Clone, Copy, Debug, PartialEq, Eq, Structural)]
pub enum ShadowPromptType {
    Enabled,
    Disabled,
}

#[derive(Clone, Copy, Debug, PartialEq, Eq, Structural)]
pub enum PromptType {
    Closed,
    NewLevel(NewLevelState),
    Save(SaveLevelType),
    CreateShadows(ShadowPromptType),
    Quit,
}

/// A tool's sub-state: placing, deleting, or adjusting the item just placed
/// at level position `(x, y)`.
#[derive(Clone, Copy, Debug, PartialEq, Eq, Structural)]
pub enum InsertState {
    Instructions(u32, u32),
    Place,
    Delete,
}

/// The active tool.
#[derive(Clone, Copy, Debug, PartialEq, Eq, Structural)]
pub enum InsertType {
    Idle,
    Spotlight(InsertState),
    Steam(InsertState),
    NormalCrate(InsertState),
    DMCrate(InsertState),
}

/// The keys the editor reacts to.
#[derive(Clone, Copy, Debug, PartialEq, Eq, Structural)]
pub enum Key {
    Escape,
    Space,
    F1,
    F2,
    F3,
    F4,
    F6,
    F7,
    F8,
    F9,
    Num1,
    Num2,
    Q,
    W,
    A,
    S,
    Z,
    X,
    C,
    Y,
    Up,
    Down,
    Left,
    Right,
    Return,
    Backspace,
    Plus,
    Minus,
    Other,
}

/// What the editor asks of the application after an event.
#[derive(Debug)]
pub enum EditorAction {
    Continue,
    /// Leave the editor for another screen.
    Switch(NextMode),
    /// Write `data` to the file `file_name`.
    Save { file_name: String, data: Vec<u8> },
}

/// An editing session: the level, the viewport, the pointer and the state
/// of the interaction protocol.
#[derive(Debug)]
pub struct Editor {
    pub level: Level,
    pub graphics: Graphics,
    /// Last pointer position in window pixels.
    pub mouse: Position,
    pub selected_tile_id: u32,
    pub texture_type_selected: TextureType,
    pub level_save_name: String,
    /// Name of the file last saved, for display.
    pub saved_level_name: Option<String>,
    pub automatic_shadows: bool,
    /// 1 or 2 while the next click sets that player's start, else 0.
    pub set_position: u8,
    /// Where the left button went down, while it is held.
    pub mouse_left_click: Option<Position>,
    pub mouse_right_click: bool,
    pub prompt: PromptType,
    pub insert_item: InsertType,
    pub new_level_size_x: String,
    pub new_level_size_y: String,
    pub drag_tiles: bool,
}

/// The pointer clamped into the part of the window that shows the level,
/// then into the window.
pub open spec fn limited(g: Graphics, mouse: Position, l: Level, render_size: u32) -> Position {
    let lx = (l.width() - l.scroll.0) * render_size - 1;
    let ly = (l.height() - l.scroll.1) * render_size - 1;
    let m = (
        if mouse.0 <= lx { mouse.0 } else { lx as u32 },
        if mouse.1 <= ly { mouse.1 } else { ly as u32 },
    );
    (
        if m.0 < g.resolution_x { m.0 } else { (g.resolution_x - 1) as u32 },
        if m.1 < g.resolution_y { m.1 } else { (g.resolution_y - 1) as u32 },
    )
}

/// The pointer, in window pixels, clamped to the level's part of the window.
pub fn get_limited_screen_level_size(
    graphics: &Graphics,
    mouse: &Position,
    level: &Level,
    render_size: u32,
) -> (r: Position)
    requires
        graphics.wf(),
        level.wf(),
        level.scroll.0 < level.width(),
        level.scroll.1 < level.height(),
        render_size >= 1,
    ensures
        r == limited(*graphics, *mouse, *level, render_size),
{
    let cols = level.tiles[0].len() as u64;
    let rows = level.tiles.len() as u64;
    proof {
        assert((cols - level.scroll.0) * (render_size as u64) <= 0xffff_ffff * 0xffff_ffffu64)
            by (nonlinear_arith)
            requires
                cols - level.scroll.0 <= 0xffff_ffff,
                render_size <= 0xffff_ffff,
        ;
        assert((rows - level.scroll.1) * (render_size as u64) <= 0xffff_ffff * 0xffff_ffffu64)
            by (nonlinear_arith)
            requires
                rows - level.scroll.1 <= 0xffff_ffff,
                render_size <= 0xffff_ffff,
        ;
        assert((cols - level.scroll.0) * (render_size as u64) >= 1) by (nonlinear_arith)
            requires
                cols - level.scroll.0 >= 1,
                render_size >= 1,
        ;
        assert((rows - level.scroll.1) * (render_size as u64) >= 1) by (nonlinear_arith)
            requires
                rows - level.scroll.1 >= 1,
                render_size >= 1,
        ;
    }
    let lx: u64 = (cols - level.scroll.0 as u64) * (render_size as u64) - 1;
    let ly: u64 = (rows - level.scroll.1 as u64) * (render_size as u64) - 1;
    let m = (
        if (mouse.0 as u64) <= lx { mouse.0 } else { lx as u32 },
        if (mouse.1 as u64) <= ly { mouse.1 } else { ly as u32 },
    );
    limit_coordinates(&m, &(graphics.resolution_x, graphics.resolution_y))
}

/// The spotlight, steam or crate a tool places by default at a position.
pub open spec fn default_crate(v: StaticCrate) -> StaticCrateType {
    StaticCrateType { crate_variant: v, crate_class: CrateClass::Weapon, crate_type: 0 }
}


/// Escape clears any active tool, prompt or start-position mode; with none
/// active it opens the quit prompt.
pub open spec fn escape_post(o: Editor, n: Editor) -> bool {
    if o.prompt != PromptType::Closed || o.insert_item != InsertType::Idle || o.set_position > 0 {
        n == Editor {
            insert_item: InsertType::Idle,
            set_position: 0,
            prompt: PromptType::Closed,
            ..o
        }
    } else {
        n == Editor { prompt: PromptType::Quit, ..o }
    }
}

/// Typed text goes to the size or name field that the open prompt edits.
pub open spec fn text_post(o: Editor, n: Editor, t: Seq<char>) -> bool {
    if o.prompt == PromptType::NewLevel(NewLevelState::XSize) {
        n == Editor { new_level_size_x: n.new_level_size_x, ..o } && n.new_level_size_x@ == typed(
            o.new_level_size_x@,
            t,
            is_decimal(t),
            SIZE_INPUT_MAX as nat,
        )
    } else if o.prompt == PromptType::NewLevel(NewLevelState::YSize) {
        n == Editor { new_level_size_y: n.new_level_size_y, ..o } && n.new_level_size_y@ == typed(
            o.new_level_size_y@,
            t,
            is_decimal(t),
            SIZE_INPUT_MAX as nat,
        )
    } else if o.prompt == PromptType::Save(SaveLevelType::NameInput) {
        n == Editor { level_save_name: n.level_save_name, ..o } && n.level_save_name@ == typed(
            o.level_save_name@,
            t,
            all_alphanumeric(t),
            NAME_INPUT_MAX as nat,
        )
    } else {
        n == o
    }
}

/// The tool that a key selects.
pub open spec fn tool_of(key: Key) -> InsertType {
    match key {
        Key::Q => InsertType::Spotlight(InsertState::Place),
        Key::W => InsertType::Spotlight(InsertState::Delete),
        Key::A => InsertType::Steam(InsertState::Place),
        Key::S => InsertType::Steam(InsertState::Delete),
        Key::Z => InsertType::NormalCrate(InsertState::Place),
        Key::X => InsertType::DMCrate(InsertState::Place),
        _ => InsertType::NormalCrate(InsertState::Delete),
    }
}

pub open spec fn is_tool_key(key: Key) -> bool {
    key == Key::Q || key == Key::W || key == Key::A || key == Key::S || key == Key::Z || key
        == Key::X || key == Key::C
}

/// A tool key, unless a save prompt is open, selects its tool and closes any
/// prompt and start-position mode.
pub open spec fn tool_post(o: Editor, n: Editor, key: Key) -> bool {
    if o.prompt is Save {
        n == o
    } else {
        n == Editor {
            insert_item: tool_of(key),
            prompt: PromptType::Closed,
            set_position: 0,
            ..o
        }
    }
}

/// 1 or 2, unless a new-level or save prompt is open, makes the next click
/// set that player's start, and closes any prompt.
pub open spec fn start_key_post(o: Editor, n: Editor, player: u8) -> bool {
    if o.prompt is NewLevel || o.prompt is Save {
        n == o
    } else {
        n == Editor { set_position: player, prompt: PromptType::Closed, ..o }
    }
}

/// Y answers the open prompt: it moves a new-level or save prompt to its
/// input stage, toggles automatic shadows (computing them when turned on),
/// or confirms quitting.
pub open spec fn yes_post(o: Editor, n: Editor, r: EditorAction) -> bool {
    match o.prompt {
        PromptType::NewLevel(NewLevelState::Prompt) => r is Continue && n == Editor {
            prompt: PromptType::NewLevel(NewLevelState::XSize),
            ..o
        },
        PromptType::Save(SaveLevelType::Prompt) => r is Continue && n == Editor {
            prompt: PromptType::Save(SaveLevelType::NameInput),
            ..o
        },
        PromptType::CreateShadows(ShadowPromptType::Enabled) => r is Continue && n == Editor {
            automatic_shadows: false,
            prompt: PromptType::Closed,
            ..o
        },
        PromptType::CreateShadows(ShadowPromptType::Disabled) => r is Continue && n == Editor {
            level: n.level,
            automatic_shadows: true,
            prompt: PromptType::Closed,
            ..o
        } && n.level == Level { tiles: n.level.tiles, ..o.level } && grid(n.level.tiles)
            == with_shadows(grid(o.level.tiles)),
        PromptType::Quit => r == EditorAction::Switch(NextMode::Quit) && n == o,
        _ => r is Continue && n == o,
    }
}

/// Backspace removes the last character of the field that the open prompt edits.
pub open spec fn backspace_post(o: Editor, n: Editor) -> bool {
    if o.prompt == PromptType::NewLevel(NewLevelState::XSize) {
        n == Editor { new_level_size_x: n.new_level_size_x, ..o } && n.new_level_size_x@ == (
        if o.new_level_size_x@.len() > 0 {
            o.new_level_size_x@.drop_last()
        } else {
            o.new_level_size_x@
        })
    } else if o.prompt == PromptType::NewLevel(NewLevelState::YSize) {
        n == Editor { new_level_size_y: n.new_level_size_y, ..o } && n.new_level_size_y@ == (
        if o.new_level_size_y@.len() > 0 {
            o.new_level_size_y@.drop_last()
        } else {
            o.new_level_size_y@
        })
    } else if o.prompt == PromptType::Save(SaveLevelType::NameInput) {
        n == Editor { level_save_name: n.level_save_name, ..o } && n.level_save_name@ == (
        if o.level_save_name@.len() > 0 {
            o.level_save_name@.drop_last()
        } else {
            o.level_save_name@
        })
    } else {
        n == o
    }
}

/// Plus zooms in from 1 to 2, minus zooms out from 2 to 1; a change of
/// zoom resets the scroll.
pub open spec fn zoom_post(o: Editor, n: Editor, zoom_in: bool) -> bool {
    if zoom_in && o.graphics.render_multiplier == 1 {
        n == Editor {
            graphics: Graphics { render_multiplier: 2, ..o.graphics },
            level: Level { scroll: (0, 0), ..o.level },
            ..o
        }
    } else if !zoom_in && o.graphics.render_multiplier == 2 {
        n == Editor {
            graphics: Graphics { render_multiplier: 1, ..o.graphics },
            level: Level { scroll: (0, 0), ..o.level },
            ..o
        }
    } else {
        n == o
    }
}

/// Any other key closes a prompt that is not taking text.
pub open spec fn other_key_post(o: Editor, n: Editor) -> bool {
    if o.typing() {
        n == o
    } else {
        n == Editor { prompt: PromptType::Closed, ..o }
    }
}

/// The screen a key leaves the editor for, if any.
pub open spec fn mode_of(key: Key) -> Option<NextMode> {
    match key {
        Key::Space => Some(NextMode::TileSelect),
        Key::F1 => Some(NextMode::Help),
        Key::F3 => Some(NextMode::LoadLevel),
        Key::F7 => Some(NextMode::GeneralLevelInfo),
        Key::F8 => Some(NextMode::RandomItemEditor(GameType::Normal)),
        Key::F9 => Some(NextMode::RandomItemEditor(GameType::Deathmatch)),
        _ => None,
    }
}

/// F2 opens the save prompt, F4 the new-level prompt with empty size
/// fields, F6 the automatic-shadow prompt.
pub open spec fn prompt_key_post(o: Editor, n: Editor, key: Key) -> bool {
    if key == Key::F2 {
        n == Editor { prompt: PromptType::Save(SaveLevelType::Prompt), ..o }
    } else if key == Key::F4 {
        n == Editor {
            prompt: PromptType::NewLevel(NewLevelState::Prompt),
            new_level_size_x: n.new_level_size_x,
            new_level_size_y: n.new_level_size_y,
            ..o
        } && n.new_level_size_x@.len() == 0 && n.new_level_size_y@.len() == 0
    } else {
        n == Editor {
            prompt: PromptType::CreateShadows(
                if o.automatic_shadows {
                    ShadowPromptType::Enabled
                } else {
                    ShadowPromptType::Disabled
                },
            ),
            ..o
        }
    }
}


/// Only the spotlights changed, to `m`.
pub open spec fn spotlights_become(o: Editor, n: Editor, m: Map<Position, u8>) -> bool {
    &&& n == Editor { level: n.level, ..o }
    &&& n.level == Level { spotlights: n.level.spotlights, ..o.level }
    &&& n.level.spotlights@ == m
}

/// Only the steams changed, to `m`.
pub open spec fn steams_become(o: Editor, n: Editor, m: Map<Position, Steam>) -> bool {
    &&& n == Editor { level: n.level, ..o }
    &&& n.level == Level { steams: n.level.steams, ..o.level }
    &&& n.level.steams@ == m
}

/// Only the placed crates changed, to `m`.
pub open spec fn crates_become(o: Editor, n: Editor, m: Map<Position, StaticCrateType>) -> bool {
    &&& n == Editor { level: n.level, ..o }
    &&& n.level == Level { crates: n.level.crates, ..o.level }
    &&& n.level.crates.random == o.level.crates.random
    &&& n.level.crates.static_crates@ == m
}

/// Only the scroll offset changed, to `s`.
pub open spec fn scroll_becomes(o: Editor, n: Editor, s: Position) -> bool {
    n == Editor { level: Level { scroll: s, ..o.level }, ..o }
}

/// The spotlight at `c` with its intensity moved by one step, kept within range.
pub open spec fn spotlight_stepped(m: Map<Position, u8>, c: Position, up: bool) -> Map<Position, u8> {
    if m.contains_key(c) && up && m[c] < MAX_SPOTLIGHT_INTENSITY {
        m.insert(c, (m[c] + 1) as u8)
    } else if m.contains_key(c) && !up && m[c] > 0 && m[c] <= MAX_SPOTLIGHT_INTENSITY {
        m.insert(c, (m[c] - 1) as u8)
    } else {
        m
    }
}

/// The steam at `c` with its range moved by one step, kept within range.
pub open spec fn steam_ranged(m: Map<Position, Steam>, c: Position, up: bool) -> Map<Position, Steam> {
    if m.contains_key(c) && up && m[c].range < MAX_STEAM_RANGE {
        m.insert(c, Steam { range: (m[c].range + 1) as u8, ..m[c] })
    } else if m.contains_key(c) && !up && m[c].range > 0 && m[c].range <= MAX_STEAM_RANGE {
        m.insert(c, Steam { range: (m[c].range - 1) as u8, ..m[c] })
    } else {
        m
    }
}

/// The steam at `c` turned by 5 degrees, counter-clockwise or clockwise.
pub open spec fn steam_turned(m: Map<Position, Steam>, c: Position, ccw: bool) -> Map<Position, Steam> {
    if m.contains_key(c) && m[c].range <= MAX_STEAM_RANGE {
        m.insert(
            c,
            Steam {
                angle: (if ccw {
                    (m[c].angle + 5) % 360
                } else {
                    (m[c].angle + 355) % 360
                }) as u16,
                ..m[c]
            },
        )
    } else {
        m
    }
}

/// Number of names of each crate class.
pub open spec fn crate_name_counts() -> Seq<nat> {
    seq![11nat, 9nat, 1nat]
}

/// Up and down adjust the item being placed: spotlight intensity, steam
/// range, or crate class; with no tool they scroll the viewport.
pub open spec fn vertical_post(o: Editor, n: Editor, up: bool) -> bool {
    match o.insert_item {
        InsertType::Spotlight(InsertState::Instructions(x, y)) => spotlights_become(
            o,
            n,
            spotlight_stepped(o.level.spotlights@, (x, y), up),
        ),
        InsertType::Steam(InsertState::Instructions(x, y)) => steams_become(
            o,
            n,
            steam_ranged(o.level.steams@, (x, y), up),
        ),
        InsertType::NormalCrate(InsertState::Instructions(x, y)) => crates_become(
            o,
            n,
            crate::level::cycled_class(o.level.crates.static_crates@, (x, y), up),
        ),
        InsertType::DMCrate(InsertState::Instructions(x, y)) => crates_become(
            o,
            n,
            crate::level::cycled_class(o.level.crates.static_crates@, (x, y), up),
        ),
        InsertType::Idle => {
            let s = o.level.scroll;
            if up && s.1 > 0 {
                scroll_becomes(o, n, (s.0, (s.1 - 1) as u32))
            } else if !up && s.1 + o.graphics.resolution_y as int / o.graphics.render_size()
                < o.level.height() && s.1 + 1 < o.level.height() {
                scroll_becomes(o, n, (s.0, (s.1 + 1) as u32))
            } else {
                n == o
            }
        },
        _ => n == o,
    }
}

/// Left and right turn the steam being placed or step the crate item; with
/// no tool, or with the spotlight tool, they scroll the viewport.
pub open spec fn horizontal_post(o: Editor, n: Editor, right: bool) -> bool {
    match o.insert_item {
        InsertType::Steam(InsertState::Instructions(x, y)) => steams_become(
            o,
            n,
            steam_turned(o.level.steams@, (x, y), right),
        ),
        InsertType::NormalCrate(InsertState::Instructions(x, y)) => crates_become(
            o,
            n,
            crate::level::cycled_type(o.level.crates.static_crates@, (x, y), right, crate_name_counts()),
        ),
        InsertType::DMCrate(InsertState::Instructions(x, y)) => crates_become(
            o,
            n,
            crate::level::cycled_type(o.level.crates.static_crates@, (x, y), right, crate_name_counts()),
        ),
        InsertType::Idle | InsertType::Spotlight(_) => {
            let s = o.level.scroll;
            if !right && s.0 > 0 {
                scroll_becomes(o, n, ((s.0 - 1) as u32, s.1))
            } else if right && s.0 + o.graphics.resolution_x as int / o.graphics.render_size()
                < o.level.width() && s.0 + 1 < o.level.width() {
                scroll_becomes(o, n, ((s.0 + 1) as u32, s.1))
            } else {
                n == o
            }
        },
        _ => n == o,
    }
}


/// The tool after confirming: an item being adjusted is done, and its tool
/// is ready to place the next one.
pub open spec fn confirmed_tool(t: InsertType) -> InsertType {
    match t {
        InsertType::Spotlight(InsertState::Instructions(_, _)) => InsertType::Spotlight(
            InsertState::Place,
        ),
        InsertType::Steam(InsertState::Instructions(_, _)) => InsertType::Steam(InsertState::Place),
        InsertType::NormalCrate(InsertState::Instructions(_, _)) => InsertType::NormalCrate(
            InsertState::Place,
        ),
        InsertType::DMCrate(InsertState::Instructions(_, _)) => InsertType::DMCrate(
            InsertState::Place,
        ),
        _ => t,
    }
}

/// Whether a size field holds a size of at least `min`.
pub open spec fn size_at_least(s: Seq<char>, min: u8) -> bool {
    size_value(s) matches Some(v) && v >= min
}

/// Return confirms: it ends adjusting a placed item; it moves the new-level
/// prompt from width to height once the width is at least 16, and replaces
/// the level by a generated one once the height is at least 12 too; it
/// saves under the upper-cased name with the `.LEV` extension once the name
/// has two characters. Anything else leaves the prompt open.
pub open spec fn return_post(o: Editor, n: Editor, r: EditorAction) -> bool {
    let tool = confirmed_tool(o.insert_item);
    if o.prompt == PromptType::NewLevel(NewLevelState::XSize) && size_at_least(
        o.new_level_size_x@,
        MIN_LEVEL_WIDTH as u8,
    ) {
        r is Continue && n == Editor {
            insert_item: tool,
            prompt: PromptType::NewLevel(NewLevelState::YSize),
            ..o
        }
    } else if o.prompt == PromptType::NewLevel(NewLevelState::YSize) && size_at_least(
        o.new_level_size_x@,
        MIN_LEVEL_WIDTH as u8,
    ) && size_at_least(o.new_level_size_y@, MIN_LEVEL_HEIGHT as u8) {
        &&& r is Continue
        &&& n == Editor {
            insert_item: tool,
            level: n.level,
            prompt: PromptType::Closed,
            level_save_name: n.level_save_name,
            saved_level_name: None,
            ..o
        }
        &&& crate::level::is_default_level(
            n.level,
            size_value(o.new_level_size_x@)->Some_0 as int,
            size_value(o.new_level_size_y@)->Some_0 as int,
        )
        &&& n.level_save_name@.len() == 0
    } else if o.prompt == PromptType::Save(SaveLevelType::NameInput) && o.level_save_name@.len()
        > 1 && counts_fit(o.level) {
        &&& r matches EditorAction::Save { file_name, data }
        &&& file_name@ == upper_of(o.level_save_name@) + ".LEV"@
        &&& data@ == encode(o.level)
        &&& n == Editor {
            insert_item: tool,
            prompt: PromptType::Closed,
            saved_level_name: n.saved_level_name,
            ..o
        }
        &&& n.saved_level_name matches Some(f) && f@ == file_name@
    } else {
        r is Continue && n == Editor { insert_item: tool, ..o }
    }
}

/// What a key press does; see the predicate of each key.
pub open spec fn key_post(o: Editor, n: Editor, key: Key, r: EditorAction) -> bool {
    match key {
        Key::Escape => r is Continue && escape_post(o, n),
        Key::Num1 => r is Continue && start_key_post(o, n, 1),
        Key::Num2 => r is Continue && start_key_post(o, n, 2),
        Key::Q | Key::W | Key::A | Key::S | Key::Z | Key::X | Key::C => r is Continue && tool_post(
            o,
            n,
            key,
        ),
        Key::Y => yes_post(o, n, r),
        Key::Up => r is Continue && vertical_post(o, n, true),
        Key::Down => r is Continue && vertical_post(o, n, false),
        Key::Left => r is Continue && horizontal_post(o, n, false),
        Key::Right => r is Continue && horizontal_post(o, n, true),
        Key::Return => return_post(o, n, r),
        Key::Backspace => r is Continue && backspace_post(o, n),
        Key::Plus => r is Continue && zoom_post(o, n, true),
        Key::Minus => r is Continue && zoom_post(o, n, false),
        Key::F2 | Key::F4 | Key::F6 => r is Continue && prompt_key_post(o, n, key),
        Key::Other => r is Continue && other_key_post(o, n),
        _ => r == EditorAction::Switch(mode_of(key)->Some_0) && n == o,
    }
}


/// Only the spotlights and the tool changed.
pub open spec fn spotlight_placed(o: Editor, n: Editor, c: Position) -> bool {
    &&& n == Editor {
        level: n.level,
        insert_item: InsertType::Spotlight(InsertState::Instructions(c.0, c.1)),
        ..o
    }
    &&& n.level == Level { spotlights: n.level.spotlights, ..o.level }
    &&& n.level.spotlights@ == o.level.spotlights@.insert(c, 0)
}

/// Only the steams and the tool changed.
pub open spec fn steam_placed(o: Editor, n: Editor, c: Position) -> bool {
    &&& n == Editor {
        level: n.level,
        insert_item: InsertType::Steam(InsertState::Instructions(c.0, c.1)),
        ..o
    }
    &&& n.level == Level { steams: n.level.steams, ..o.level }
    &&& n.level.steams@ == o.level.steams@.insert(c, Steam { range: 1, angle: 0 })
}

/// Only the placed crates and the tool changed.
pub open spec fn crate_placed(o: Editor, n: Editor, c: Position, tool: InsertType, v: StaticCrate) -> bool {
    &&& n == Editor { level: n.level, insert_item: tool, ..o }
    &&& n.level == Level { crates: n.level.crates, ..o.level }
    &&& n.level.crates.random == o.level.crates.random
    &&& n.level.crates.static_crates@ == o.level.crates.static_crates@.insert(c, default_crate(v))
}

/// A click with the left button, at the pointer: it sets the pending
/// player's start to the clicked tile; or, with a tool, places a default
/// item at the clicked level pixel and starts adjusting it, or deletes the
/// items whose drawing contains that pixel; with no tool it starts a drag.
pub open spec fn left_down_post(o: Editor, n: Editor) -> bool {
    let g = o.graphics;
    let s = o.level.scroll;
    if o.drag_tiles {
        n == o
    } else if o.set_position > 0 {
        let lx = logical(g, o.mouse.0, s.0);
        let ly = logical(g, o.mouse.1, s.1);
        if lx <= u32::MAX && ly <= u32::MAX {
            if o.set_position == 1 {
                n == Editor {
                    level: Level { p1_position: (lx as u32, ly as u32), ..o.level },
                    set_position: 0,
                    ..o
                }
            } else {
                n == Editor {
                    level: Level { p2_position: (lx as u32, ly as u32), ..o.level },
                    set_position: 0,
                    ..o
                }
            }
        } else {
            n == Editor { set_position: 0, ..o }
        }
    } else {
        let cx = level_pixel(g, o.mouse.0, s.0);
        let cy = level_pixel(g, o.mouse.1, s.1);
        let c = (cx as u32, cy as u32);
        let m = g.render_multiplier;
        if cx > u32::MAX || cy > u32::MAX {
            n == o
        } else {
            match o.insert_item {
                InsertType::Spotlight(InsertState::Place) => spotlight_placed(o, n, c),
                InsertType::Spotlight(InsertState::Delete) => spotlights_become(
                    o,
                    n,
                    Map::new(
                        |k: Position|
                            o.level.spotlights@.contains_key(k) && !within_radius(
                                c,
                                k,
                                crate::coords::spotlight_radius(o.level.spotlights@[k]),
                                m,
                            ),
                        |k: Position| o.level.spotlights@[k],
                    ),
                ),
                InsertType::Steam(InsertState::Place) => steam_placed(o, n, c),
                InsertType::Steam(InsertState::Delete) => steams_become(
                    o,
                    n,
                    Map::new(
                        |k: Position|
                            o.level.steams@.contains_key(k) && !within_radius(
                                c,
                                k,
                                crate::coords::STEAM_RENDER_RADIUS as int,
                                m,
                            ),
                        |k: Position| o.level.steams@[k],
                    ),
                ),
                InsertType::NormalCrate(InsertState::Place) => crate_placed(
                    o,
                    n,
                    c,
                    InsertType::NormalCrate(InsertState::Instructions(c.0, c.1)),
                    StaticCrate::Normal,
                ),
                InsertType::DMCrate(InsertState::Place) => crate_placed(
                    o,
                    n,
                    c,
                    InsertType::DMCrate(InsertState::Instructions(c.0, c.1)),
                    StaticCrate::Deathmatch,
                ),
                InsertType::NormalCrate(InsertState::Delete) | InsertType::DMCrate(
                    InsertState::Delete,
                ) => crates_become(
                    o,
                    n,
                    Map::new(
                        |k: Position|
                            o.level.crates.static_crates@.contains_key(k) && !in_crate_box(
                                c,
                                k,
                                m,
                            ),
                        |k: Position| o.level.crates.static_crates@[k],
                    ),
                ),
                InsertType::Idle => n == Editor { drag_tiles: true, ..o },
                _ => n == o,
            }
        }
    }
}

/// The row-major id, in the level grid, of the tile under the pointer
/// clamped into the window.
pub open spec fn pointed_tile(o: Editor) -> int {
    let p = (
        if o.mouse.0 < o.graphics.resolution_x { o.mouse.0 } else { (o.graphics.resolution_x - 1) as u32 },
        if o.mouse.1 < o.graphics.resolution_y { o.mouse.1 } else { (o.graphics.resolution_y - 1) as u32 },
    );
    logical(o.graphics, p.0, o.level.scroll.0) + logical(o.graphics, p.1, o.level.scroll.1)
        * o.level.width()
}

/// A right click erases the shadow of the tile under the pointer and turns
/// automatic shadows off.
pub open spec fn right_down_post(o: Editor, n: Editor) -> bool {
    &&& n == Editor { level: n.level, automatic_shadows: false, ..o }
    &&& n.level == Level { tiles: n.level.tiles, ..o.level }
    &&& grid(n.level.tiles) == if pointed_tile(o) <= u32::MAX {
        paint(grid(o.level.tiles), pointed_tile(o) as u32, None, TextureType::Shadow)
    } else {
        grid(o.level.tiles)
    }
}

/// The tiles a finished drag paints: the rectangle between where the button
/// went down and the clamped pointer, when it lies within the grid's width.
pub open spec fn drag_tiles_of(o: Editor) -> Option<Seq<u32>> {
    let g = o.graphics;
    let start = o.mouse_left_click->Some_0;
    let end = limited(g, o.mouse, o.level, g.render_size() as u32);
    let s = o.level.scroll;
    let w = o.level.width();
    let x0 = logical(g, min_u32(start.0, end.0), s.0);
    let y0 = logical(g, min_u32(start.1, end.1), s.1);
    let x1 = logical(g, max_u32(start.0, end.0), s.0);
    let y1 = logical(g, max_u32(start.1, end.1), s.1);
    if x1 < w && y1 * w + w <= u32::MAX {
        Some(rect_ids(x0, y0, x1, y1, w))
    } else {
        None
    }
}

/// The session with the pointer at window pixel `(x, y)`.
pub open spec fn moved_to(e: Editor, x: i32, y: i32) -> Editor {
    Editor { mouse: (x as u32, y as u32), ..e }
}

/// A move of the pointer to where `moved` has it: a held left button
/// repeats its click there, giving `mid`, then a held right button repeats
/// its click, giving `n`.
pub open spec fn motion_post(moved: Editor, mid: Editor, n: Editor) -> bool {
    &&& if moved.mouse_left_click is Some {
        left_down_post(moved, mid)
    } else {
        mid == moved
    }
    &&& if moved.mouse_right_click {
        right_down_post(mid, n)
    } else {
        n == mid
    }
}

/// Releasing the left button after a drag paints every tile of the dragged
/// rectangle with the selected brush; then a shadow brush turns automatic
/// shadows off, and otherwise automatic shadows, if on, are recomputed.
pub open spec fn left_up_post(o: Editor, n: Editor) -> bool {
    if o.drag_tiles && o.mouse_left_click is Some {
        let painted = match drag_tiles_of(o) {
            Some(ids) => paint_all(
                grid(o.level.tiles),
                ids,
                Some(o.selected_tile_id),
                o.texture_type_selected,
            ),
            None => grid(o.level.tiles),
        };
        &&& n == Editor {
            level: n.level,
            automatic_shadows: n.automatic_shadows,
            drag_tiles: false,
            mouse_left_click: None,
            ..o
        }
        &&& n.level == Level { tiles: n.level.tiles, ..o.level }
        &&& if o.texture_type_selected == TextureType::Shadow {
            grid(n.level.tiles) == painted && !n.automatic_shadows
        } else if o.automatic_shadows {
            grid(n.level.tiles) == with_shadows(painted) && n.automatic_shadows
        } else {
            grid(n.level.tiles) == painted && !n.automatic_shadows
        }
    } else {
        n == Editor { drag_tiles: false, mouse_left_click: None, ..o }
    }
}

impl Editor {
    pub open spec fn wf(&self) -> bool {
        &&& self.level.wf()
        &&& self.graphics.wf()
        &&& self.level.scroll.0 < self.level.width()
        &&& self.level.scroll.1 < self.level.height()
        &&& self.set_position <= 2
        &&& self.selected_tile_id < u32::MAX
        &&& self.graphics.render_multiplier <= 2
        &&& self.graphics.tile_size * 2 <= u32::MAX
    }

    /// Whether a text prompt is taking typed text.
    pub open spec fn typing(&self) -> bool {
        self.prompt == PromptType::NewLevel(NewLevelState::XSize) || self.prompt
            == PromptType::NewLevel(NewLevelState::YSize) || self.prompt == PromptType::Save(
            SaveLevelType::NameInput,
        )
    }

    /// A session on a generated 32 by 22 level, with default viewport and no
    /// tool or prompt active.
    pub fn new() -> (r: Editor)
        ensures
            r.wf(),
            crate::level::is_default_level(r.level, 32, 22),
            r.graphics == Graphics::new_spec(),
            r.mouse == (0u32, 0u32),
            r.selected_tile_id == 0,
            r.texture_type_selected == TextureType::Floor,
            r.level_save_name@.len() == 0,
            r.saved_level_name is None,
            !r.mouse_right_click,
            r.new_level_size_x@.len() == 0,
            r.new_level_size_y@.len() == 0,
            r.prompt == PromptType::Closed,
            r.insert_item == InsertType::Idle,
            r.set_position == 0,
            r.automatic_shadows,
            !r.drag_tiles,
            r.mouse_left_click is None,
    {
        Editor {
            level: Level::get_default_level((32, 22)),
            graphics: Graphics::new(),
            mouse: (0, 0),
            selected_tile_id: 0,
            texture_type_selected: TextureType::Floor,
            level_save_name: String::new(),
            saved_level_name: None,
            automatic_shadows: true,
            set_position: 0,
            mouse_left_click: None,
            mouse_right_click: false,
            prompt: PromptType::Closed,
            insert_item: InsertType::Idle,
            new_level_size_x: String::new(),
            new_level_size_y: String::new(),
            drag_tiles: false,
        }
    }

    /// Whether the application should deliver typed text.
    pub fn text_input_active(&self) -> (r: bool)
        ensures
            r == self.typing(),
    {
        self.prompt == PromptType::NewLevel(NewLevelState::XSize) || self.prompt
            == PromptType::NewLevel(NewLevelState::YSize) || self.prompt == PromptType::Save(
            SaveLevelType::NameInput,
        )
    }
    pub fn press_escape(&mut self)
        requires
            old(self).wf(),
        ensures
            escape_post(*old(self), *final(self)),
            final(self).wf(),
    {
        if self.prompt != PromptType::Closed || self.insert_item != InsertType::Idle
            || self.set_position > 0 {
            self.insert_item = InsertType::Idle;
            self.set_position = 0;
            self.prompt = PromptType::Closed;
        } else {
            self.prompt = PromptType::Quit;
        }
    }

    /// Typed text, delivered while `text_input_active` holds.
    pub fn text_input(&mut self, text: &str)
        requires
            old(self).wf(),
        ensures
            text_post(*old(self), *final(self), text@),
            final(self).wf(),
    {
        if self.prompt == PromptType::NewLevel(NewLevelState::XSize) {
            sanitize_numeric_input(text, &mut self.new_level_size_x);
        } else if self.prompt == PromptType::NewLevel(NewLevelState::YSize) {
            sanitize_numeric_input(text, &mut self.new_level_size_y);
        } else if self.prompt == PromptType::Save(SaveLevelType::NameInput) {
            sanitize_level_name_input(text, &mut self.level_save_name);
        }
    }

    fn select_tool(&mut self, key: Key)
        requires
            old(self).wf(),
            is_tool_key(key),
        ensures
            tool_post(*old(self), *final(self), key),
            final(self).wf(),
    {
        if !matches!(self.prompt, PromptType::Save(_)) {
            self.insert_item = match key {
                Key::Q => InsertType::Spotlight(InsertState::Place),
                Key::W => InsertType::Spotlight(InsertState::Delete),
                Key::A => InsertType::Steam(InsertState::Place),
                Key::S => InsertType::Steam(InsertState::Delete),
                Key::Z => InsertType::NormalCrate(InsertState::Place),
                Key::X => InsertType::DMCrate(InsertState::Place),
                _ => InsertType::NormalCrate(InsertState::Delete),
            };
            self.prompt = PromptType::Closed;
            self.set_position = 0;
        }
    }

    fn select_start(&mut self, player: u8)
        requires
            old(self).wf(),
            1 <= player <= 2,
        ensures
            start_key_post(*old(self), *final(self), player),
            final(self).wf(),
    {
        if !matches!(self.prompt, PromptType::NewLevel(_)) && !matches!(
            self.prompt,
            PromptType::Save(_)
        ) {
            self.set_position = player;
            self.prompt = PromptType::Closed;
        }
    }

    fn press_yes(&mut self) -> (r: EditorAction)
        requires
            old(self).wf(),
        ensures
            yes_post(*old(self), *final(self), r),
            final(self).wf(),
    {
        match self.prompt {
            PromptType::NewLevel(NewLevelState::Prompt) => {
                self.prompt = PromptType::NewLevel(NewLevelState::XSize);
            },
            PromptType::Save(SaveLevelType::Prompt) => {
                self.prompt = PromptType::Save(SaveLevelType::NameInput);
            },
            PromptType::CreateShadows(ShadowPromptType::Enabled) => {
                self.automatic_shadows = false;
                self.prompt = PromptType::Closed;
            },
            PromptType::CreateShadows(ShadowPromptType::Disabled) => {
                self.level.create_shadows();
                self.automatic_shadows = true;
                self.prompt = PromptType::Closed;
            },
            PromptType::Quit => {
                return EditorAction::Switch(NextMode::Quit);
            },
            _ => {},
        }
        EditorAction::Continue
    }

    fn press_backspace(&mut self)
        requires
            old(self).wf(),
        ensures
            backspace_post(*old(self), *final(self)),
            final(self).wf(),
    {
        if self.prompt == PromptType::NewLevel(NewLevelState::XSize) {
            pop_char(&mut self.new_level_size_x);
        } else if self.prompt == PromptType::NewLevel(NewLevelState::YSize) {
            pop_char(&mut self.new_level_size_y);
        } else if self.prompt == PromptType::Save(SaveLevelType::NameInput) {
            pop_char(&mut self.level_save_name);
        }
    }

    fn zoom(&mut self, zoom_in: bool)
        requires
            old(self).wf(),
        ensures
            zoom_post(*old(self), *final(self), zoom_in),
            final(self).wf(),
    {
        if zoom_in && self.graphics.render_multiplier == 1 {
            self.graphics.render_multiplier = 2;
            self.level.scroll = (0, 0);
        } else if !zoom_in && self.graphics.render_multiplier == 2 {
            self.graphics.render_multiplier = 1;
            self.level.scroll = (0, 0);
        }
    }

    fn press_other(&mut self)
        requires
            old(self).wf(),
        ensures
            other_key_post(*old(self), *final(self)),
            final(self).wf(),
    {
        if !self.text_input_active() {
            self.prompt = PromptType::Closed;
        }
    }

    fn open_prompt(&mut self, key: Key)
        requires
            old(self).wf(),
        ensures
            prompt_key_post(*old(self), *final(self), key),
            final(self).wf(),
    {
        if key == Key::F2 {
            self.prompt = PromptType::Save(SaveLevelType::Prompt);
        } else if key == Key::F4 {
            self.prompt = PromptType::NewLevel(NewLevelState::Prompt);
            self.new_level_size_x = String::new();
            self.new_level_size_y = String::new();
        } else {
            self.prompt = PromptType::CreateShadows(
                if self.automatic_shadows {
                    ShadowPromptType::Enabled
                } else {
                    ShadowPromptType::Disabled
                },
            );
        }
    }
    fn press_vertical(&mut self, up: bool)
        requires
            old(self).wf(),
        ensures
            vertical_post(*old(self), *final(self), up),
            final(self).wf(),
    {
        match self.insert_item {
            InsertType::Spotlight(InsertState::Instructions(x, y)) => {
                if let Some(i) = self.level.spotlights.get(&(x, y)) {
                    if up && i < MAX_SPOTLIGHT_INTENSITY {
                        self.level.put_spotlight_to_level(&(x, y), i + 1);
                    } else if !up && i > 0 && i <= MAX_SPOTLIGHT_INTENSITY {
                        self.level.put_spotlight_to_level(&(x, y), i - 1);
                    }
                }
            },
            InsertType::Steam(InsertState::Instructions(x, y)) => {
                if let Some(st) = self.level.steams.get(&(x, y)) {
                    if up && st.range < MAX_STEAM_RANGE {
                        self.level.put_steam_to_level(&(x, y), &Steam { range: st.range + 1, ..st });
                    } else if !up && st.range > 0 && st.range <= MAX_STEAM_RANGE {
                        self.level.put_steam_to_level(&(x, y), &Steam { range: st.range - 1, ..st });
                    }
                }
            },
            InsertType::NormalCrate(InsertState::Instructions(x, y))
            | InsertType::DMCrate(InsertState::Instructions(x, y)) => {
                self.level.cycle_crate_class(&(x, y), up);
            },
            InsertType::Idle => {
                if up {
                    if self.level.scroll.1 > 0 {
                        self.level.scroll.1 = self.level.scroll.1 - 1;
                    }
                } else {
                    let tiles = self.graphics.get_y_tiles_per_screen() as u64;
                    let rows = self.level.tiles.len() as u64;
                    if (self.level.scroll.1 as u64) + tiles < rows && (self.level.scroll.1 as u64)
                        + 1 < rows {
                        self.level.scroll.1 = self.level.scroll.1 + 1;
                    }
                }
            },
            _ => {},
        }
    }

    fn press_horizontal(&mut self, right: bool)
        requires
            old(self).wf(),
        ensures
            horizontal_post(*old(self), *final(self), right),
            final(self).wf(),
    {
        match self.insert_item {
            InsertType::Steam(InsertState::Instructions(x, y)) => {
                if let Some(st) = self.level.steams.get(&(x, y)) {
                    if st.range <= MAX_STEAM_RANGE {
                        let a = st.angle as u32;
                        let angle = if right { (a + 5) % 360 } else { (a + 355) % 360 };
                        self.level.put_steam_to_level(&(x, y), &Steam { angle: angle as u16, ..st });
                    }
                }
            },
            InsertType::NormalCrate(InsertState::Instructions(x, y))
            | InsertType::DMCrate(InsertState::Instructions(x, y)) => {
                let crates = get_crates();
                proof {
                    assert(crates@.map_values(|v: Vec<&'static str>| v@.len()) =~= crate_name_counts());
                }
                self.level.cycle_crate_type(&(x, y), right, &crates);
            },
            InsertType::Idle | InsertType::Spotlight(_) => {
                if !right {
                    if self.level.scroll.0 > 0 {
                        self.level.scroll.0 = self.level.scroll.0 - 1;
                    }
                } else {
                    let tiles = self.graphics.get_x_tiles_per_screen() as u64;
                    let cols = self.level.tiles[0].len() as u64;
                    if (self.level.scroll.0 as u64) + tiles < cols && (self.level.scroll.0 as u64)
                        + 1 < cols {
                        self.level.scroll.0 = self.level.scroll.0 + 1;
                    }
                }
            },
            _ => {},
        }
    }
    fn press_return(&mut self) -> (r: EditorAction)
        requires
            old(self).wf(),
        ensures
            return_post(*old(self), *final(self), r),
            final(self).wf(),
    {
        self.insert_item = match self.insert_item {
            InsertType::Spotlight(InsertState::Instructions(_, _)) => InsertType::Spotlight(
                InsertState::Place,
            ),
            InsertType::Steam(InsertState::Instructions(_, _)) => InsertType::Steam(
                InsertState::Place,
            ),
            InsertType::NormalCrate(InsertState::Instructions(_, _)) => InsertType::NormalCrate(
                InsertState::Place,
            ),
            InsertType::DMCrate(InsertState::Instructions(_, _)) => InsertType::DMCrate(
                InsertState::Place,
            ),
            other => other,
        };
        if self.prompt == PromptType::NewLevel(NewLevelState::XSize) {
            if let Some(x) = parse_size(&self.new_level_size_x) {
                if x >= MIN_LEVEL_WIDTH as u8 {
                    self.prompt = PromptType::NewLevel(NewLevelState::YSize);
                }
            }
            return EditorAction::Continue;
        }
        if self.prompt == PromptType::NewLevel(NewLevelState::YSize) {
            if let Some(x) = parse_size(&self.new_level_size_x) {
                if let Some(y) = parse_size(&self.new_level_size_y) {
                    if x >= MIN_LEVEL_WIDTH as u8 && y >= MIN_LEVEL_HEIGHT as u8 {
                        self.level = Level::get_default_level((x, y));
                        self.saved_level_name = None;
                        self.level_save_name = String::new();
                        self.prompt = PromptType::Closed;
                    }
                }
            }
            return EditorAction::Continue;
        }
        if self.prompt == PromptType::Save(SaveLevelType::NameInput)
            && self.level_save_name.as_str().unicode_len() > 1
            && self.level.spotlights.len() <= u32::MAX as usize
            && self.level.steams.len() <= u32::MAX as usize
            && self.level.crates.static_crates.len() <= u32::MAX as usize {
            let mut file_name = to_uppercase(self.level_save_name.as_str());
            file_name.append(".LEV");
            let data = self.level.serialize();
            self.saved_level_name = Some(file_name.clone());
            self.prompt = PromptType::Closed;
            return EditorAction::Save { file_name, data };
        }
        EditorAction::Continue
    }

    /// A key press; see `key_post`.
    pub fn key_down(&mut self, key: Key) -> (r: EditorAction)
        requires
            old(self).wf(),
        ensures
            key_post(*old(self), *final(self), key, r),
            final(self).wf(),
    {
        match key {
            Key::Escape => {
                self.press_escape();
                EditorAction::Continue
            },
            Key::Num1 => {
                self.select_start(1);
                EditorAction::Continue
            },
            Key::Num2 => {
                self.select_start(2);
                EditorAction::Continue
            },
            Key::Q | Key::W | Key::A | Key::S | Key::Z | Key::X | Key::C => {
                self.select_tool(key);
                EditorAction::Continue
            },
            Key::Y => self.press_yes(),
            Key::Up => {
                self.press_vertical(true);
                EditorAction::Continue
            },
            Key::Down => {
                self.press_vertical(false);
                EditorAction::Continue
            },
            Key::Left => {
                self.press_horizontal(false);
                EditorAction::Continue
            },
            Key::Right => {
                self.press_horizontal(true);
                EditorAction::Continue
            },
            Key::Return => self.press_return(),
            Key::Backspace => {
                self.press_backspace();
                EditorAction::Continue
            },
            Key::Plus => {
                self.zoom(true);
                EditorAction::Continue
            },
            Key::Minus => {
                self.zoom(false);
                EditorAction::Continue
            },
            Key::F2 | Key::F4 | Key::F6 => {
                self.open_prompt(key);
                EditorAction::Continue
            },
            Key::Other => {
                self.press_other();
                EditorAction::Continue
            },
            Key::Space => EditorAction::Switch(NextMode::TileSelect),
            Key::F1 => EditorAction::Switch(NextMode::Help),
            Key::F3 => EditorAction::Switch(NextMode::LoadLevel),
            Key::F7 => EditorAction::Switch(NextMode::GeneralLevelInfo),
            Key::F8 => EditorAction::Switch(NextMode::RandomItemEditor(GameType::Normal)),
            Key::F9 => EditorAction::Switch(NextMode::RandomItemEditor(GameType::Deathmatch)),
        }
    }
    fn handle_mouse_left_down(&mut self)
        requires
            old(self).wf(),
        ensures
            left_down_post(*old(self), *final(self)),
            final(self).wf(),
    {
        if self.drag_tiles {
            return;
        }
        let g = self.graphics;
        let s = self.level.scroll;
        proof {
            g.lemma_render_size_positive();
        }
        if self.set_position > 0 {
            let lx: u64 = (self.mouse.0 / g.render_multiplier / g.tile_size) as u64 + s.0 as u64;
            let ly: u64 = (self.mouse.1 / g.render_multiplier / g.tile_size) as u64 + s.1 as u64;
            if lx <= u32::MAX as u64 && ly <= u32::MAX as u64 {
                let p = get_logical_coordinates(&g, self.mouse.0, self.mouse.1, Some(s));
                if self.set_position == 1 {
                    self.level.p1_position = p;
                } else {
                    self.level.p2_position = p;
                }
            }
            self.set_position = 0;
            return;
        }
        proof {
            assert(s.0 * g.tile_size <= 0xffff_ffff * 0xffff_ffffu64) by (nonlinear_arith)
                requires
                    s.0 <= 0xffff_ffff,
                    g.tile_size <= 0xffff_ffff,
            ;
            assert(s.1 * g.tile_size <= 0xffff_ffff * 0xffff_ffffu64) by (nonlinear_arith)
                requires
                    s.1 <= 0xffff_ffff,
                    g.tile_size <= 0xffff_ffff,
            ;
        }
        let cx: u64 = (self.mouse.0 / g.render_multiplier) as u64 + (s.0 as u64) * (g.tile_size as u64);
        let cy: u64 = (self.mouse.1 / g.render_multiplier) as u64 + (s.1 as u64) * (g.tile_size as u64);
        if cx > u32::MAX as u64 || cy > u32::MAX as u64 {
            return;
        }
        let c = get_level_coordinates_from_screen_coordinates(&g, &self.mouse, &s);
        let m = g.render_multiplier;
        match self.insert_item {
            InsertType::Spotlight(InsertState::Place) => {
                self.insert_item = InsertType::Spotlight(InsertState::Instructions(c.0, c.1));
                self.level.put_spotlight_to_level(&c, 0);
            },
            InsertType::Spotlight(InsertState::Delete) => {
                self.level.delete_spotlight_if_near(&c, m);
            },
            InsertType::Steam(InsertState::Place) => {
                self.insert_item = InsertType::Steam(InsertState::Instructions(c.0, c.1));
                self.level.put_steam_to_level(&c, &Steam { angle: 0, range: 1 });
            },
            InsertType::Steam(InsertState::Delete) => {
                self.level.delete_steam_if_near(&c, m);
            },
            InsertType::NormalCrate(InsertState::Place) => {
                self.insert_item = InsertType::NormalCrate(InsertState::Instructions(c.0, c.1));
                self.level.put_crate_to_level(
                    &c,
                    &StaticCrateType {
                        crate_variant: StaticCrate::Normal,
                        crate_class: CrateClass::Weapon,
                        crate_type: 0,
                    },
                );
            },
            InsertType::DMCrate(InsertState::Place) => {
                self.insert_item = InsertType::DMCrate(InsertState::Instructions(c.0, c.1));
                self.level.put_crate_to_level(
                    &c,
                    &StaticCrateType {
                        crate_variant: StaticCrate::Deathmatch,
                        crate_class: CrateClass::Weapon,
                        crate_type: 0,
                    },
                );
            },
            InsertType::NormalCrate(InsertState::Delete) | InsertType::DMCrate(InsertState::Delete) => {
                self.level.delete_crate_if_near(&c, m);
            },
            InsertType::Idle => {
                self.drag_tiles = true;
            },
            _ => {},
        }
    }

    fn handle_mouse_right_down(&mut self)
        requires
            old(self).wf(),
        ensures
            right_down_post(*old(self), *final(self)),
            final(self).wf(),
    {
        let g = self.graphics;
        let s = self.level.scroll;
        proof {
            g.lemma_render_size_positive();
        }
        let p = limit_coordinates(&self.mouse, &(g.resolution_x, g.resolution_y));
        let lx: u128 = (p.0 / g.render_multiplier / g.tile_size) as u128 + s.0 as u128;
        let ly: u128 = (p.1 / g.render_multiplier / g.tile_size) as u128 + s.1 as u128;
        let cols: u128 = self.level.tiles[0].len() as u128;
        proof {
            assert(ly * cols <= 0x1_ffff_ffff * 0xffff_ffffu128) by (nonlinear_arith)
                requires
                    ly <= 0x1_ffff_ffff,
                    cols <= 0xffff_ffff,
            ;
        }
        let id: u128 = lx + ly * cols;
        if id <= u32::MAX as u128 {
            self.level.put_tile_to_level(id as u32, None, &TextureType::Shadow);
        }
        self.automatic_shadows = false;
    }
    /// The left button went down at the pointer.
    pub fn left_button_down(&mut self)
        requires
            old(self).wf(),
        ensures
            left_down_post(
                Editor { mouse_left_click: Some(old(self).mouse), ..*old(self) },
                *final(self),
            ),
            final(self).wf(),
    {
        self.mouse_left_click = Some(self.mouse);
        self.handle_mouse_left_down();
    }

    /// The right button went down at the pointer.
    pub fn right_button_down(&mut self)
        requires
            old(self).wf(),
        ensures
            right_down_post(Editor { mouse_right_click: true, ..*old(self) }, *final(self)),
            final(self).wf(),
    {
        self.mouse_right_click = true;
        self.handle_mouse_right_down();
    }

    pub fn right_button_up(&mut self)
        ensures
            *final(self) == (Editor { mouse_right_click: false, ..*old(self) }),
    {
        self.mouse_right_click = false;
    }

    /// The pointer moved to window pixel `(x, y)`; positions left of or above
    /// the window are ignored. A held button repeats its action at the new
    /// position.
    pub fn mouse_motion(&mut self, x: i32, y: i32)
        requires
            old(self).wf(),
        ensures
            final(self).wf(),
            x < 0 || y < 0 ==> *final(self) == *old(self),
            x >= 0 && y >= 0 ==> exists|mid: Editor|
                #[trigger] motion_post(moved_to(*old(self), x, y), mid, *final(self)),
    {
        if x < 0 || y < 0 {
            return;
        }
        self.mouse = (x as u32, y as u32);
        if self.mouse_left_click.is_some() {
            self.handle_mouse_left_down();
        }
        let ghost mid = *self;
        if self.mouse_right_click {
            self.handle_mouse_right_down();
        }
        assert(motion_post(moved_to(*old(self), x, y), mid, *self));
    }

    /// The left button went up: a drag paints its rectangle.
    pub fn left_button_up(&mut self)
        requires
            old(self).wf(),
        ensures
            left_up_post(*old(self), *final(self)),
            final(self).wf(),
    {
        if self.drag_tiles {
            self.drag_tiles = false;
            if let Some(start) = self.mouse_left_click {
                let g = self.graphics;
                let s = self.level.scroll;
                proof {
                    g.lemma_render_size_positive();
                }
                let rs = g.get_render_size();
                let end = get_limited_screen_level_size(&g, &self.mouse, &self.level, rs);
                let w = self.level.tiles[0].len() as u32;
                let lo = (
                    if start.0 <= end.0 { start.0 } else { end.0 },
                    if start.1 <= end.1 { start.1 } else { end.1 },
                );
                let hi = (
                    if start.0 >= end.0 { start.0 } else { end.0 },
                    if start.1 >= end.1 { start.1 } else { end.1 },
                );
                let x1: u64 = (hi.0 / g.render_multiplier / g.tile_size) as u64 + s.0 as u64;
                let y1: u64 = (hi.1 / g.render_multiplier / g.tile_size) as u64 + s.1 as u64;
                proof {
                    crate::coords::lemma_logical_monotonic(g, lo.0, hi.0, s.0);
                    crate::coords::lemma_logical_monotonic(g, lo.1, hi.1, s.1);
                    assert((y1 as u128) * (w as u128) <= 0x1_ffff_ffff * 0xffff_ffffu128) by (nonlinear_arith)
                        requires
                            y1 <= 0x1_ffff_ffff,
                            w <= 0xffff_ffff,
                    ;
                }
                let ghost g0 = grid(self.level.tiles);
                if x1 < w as u64 && (y1 as u128) * (w as u128) + (w as u128) <= u32::MAX as u128 {
                    let ids = get_selected_level_tiles(&g, &start, &end, w, Some(s));
                    let brush = self.texture_type_selected;
                    let sel = self.selected_tile_id;
                    let ghost l0 = self.level;
                    let ghost e0 = *self;
                    let mut i: usize = 0;
                    while i < ids.len()
                        invariant
                            *self == (Editor { level: self.level, ..e0 }),
                            self.level.wf(),
                            self.level.width() == l0.width(),
                            self.level.height() == l0.height(),
                            self.level == (Level { tiles: self.level.tiles, ..l0 }),
                            g0 == grid(l0.tiles),
                            grid(self.level.tiles) == paint_all(g0, ids@.take(i as int), Some(sel), brush),
                            i <= ids@.len(),
                            sel < u32::MAX,
                        decreases ids@.len() - i,
                    {
                        proof {
                            assert(ids@.take(i + 1).drop_last() =~= ids@.take(i as int));
                        }
                        self.level.put_tile_to_level(ids[i], Some(sel), &brush);
                        i = i + 1;
                    }
                    proof {
                        assert(ids@.take(ids@.len() as int) =~= ids@);
                        assert(x1 == logical(g, max_u32(start.0, end.0), s.0));
                        assert(y1 == logical(g, max_u32(start.1, end.1), s.1));
                        assert(drag_tiles_of(*old(self)) == Some(ids@));
                    }
                } else {
                    proof {
                        assert(x1 == logical(g, max_u32(start.0, end.0), s.0));
                        assert(y1 == logical(g, max_u32(start.1, end.1), s.1));
                        assert(drag_tiles_of(*old(self)) is None);
                    }
                }
                if self.texture_type_selected == TextureType::Shadow {
                    self.automatic_shadows = false;
                } else if self.automatic_shadows {
                    self.level.create_shadows();
                }
            }
        }
        self.mouse_left_click = None;
    }

    /// The window now has the given size; a zero size is ignored.
    pub fn window_resized(&mut self, width: u32, height: u32)
        ensures
            width >= 1 && height >= 1 ==> *final(self) == (Editor {
                graphics: Graphics { resolution_x: width, resolution_y: height, ..old(self).graphics },
                ..*old(self)
            }),
            width < 1 || height < 1 ==> *final(self) == *old(self),
            old(self).wf() ==> final(self).wf(),
    {
        if width >= 1 && height >= 1 {
            self.graphics.resolution_x = width;
            self.graphics.resolution_y = height;
        }
    }

    /// Selects the brush: a pattern of the floor, wall or shadow atlas.
    pub fn select_tile(&mut self, tile_id: u32, texture_type: TextureType)
        ensures
            tile_id < u32::MAX ==> *final(self) == (Editor {
                selected_tile_id: tile_id,
                texture_type_selected: texture_type,
                ..*old(self)
            }),
            tile_id == u32::MAX ==> *final(self) == *old(self),
            old(self).wf() ==> final(self).wf(),
    {
        if tile_id < u32::MAX {
            self.selected_tile_id = tile_id;
            self.texture_type_selected = texture_type;
        }
    }
}

} // verus!
