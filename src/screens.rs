use crate::crates::{random_count, random_count_set, RandomCrates, RANDOM_CRATE_ENTRIES};
use crate::editor::Key;
use crate::input::{all_comment_chars, sanitize_level_comment_input, typed, COMMENT_INPUT_MAX};
use crate::level::Level;
use crate::text::pop_char;
use crate::types::{GameType, NextMode};
use vstd::prelude::*;

verus! {

/// The random crate table of a game mode.
pub open spec fn table_of(level: Level, game_type: GameType) -> RandomCrates {
    match game_type {
        GameType::Normal => level.crates.random.normal,
        GameType::Deathmatch => level.crates.random.deathmatch,
    }
}

/// The count at flat index `index` of a game mode's random crate table:
/// `[0, 11)` weapons, `[11, 20)` bullets, then energy.
pub fn get_value(level: &Level, game_type: &GameType, index: usize) -> (r: u32)
    ensures
        r == random_count(table_of(*level, *game_type), index as int),
{
    match game_type {
        GameType::Normal => level.crates.random.normal.get(index),
        GameType::Deathmatch => level.crates.random.deathmatch.get(index),
    }
}

/// Sets the count at flat index `index` of a game mode's random crate table.
pub fn set_value(level: &mut Level, game_type: &GameType, index: usize, value: u32)
    ensures
        table_of(*final(level), *game_type) == random_count_set(
            table_of(*old(level), *game_type),
            index as int,
            value,
        ),
        *game_type == GameType::Normal ==> final(level).crates.random.deathmatch == old(
            level,
        ).crates.random.deathmatch,
        *game_type == GameType::Deathmatch ==> final(level).crates.random.normal == old(
            level,
        ).crates.random.normal,
        *final(level) == (Level {
            crates: crate::level::LevelCrates { random: final(level).crates.random, ..old(level).crates },
            ..*old(level)
        }),
{
    match game_type {
        GameType::Normal => level.crates.random.normal.set(index, value),
        GameType::Deathmatch => level.crates.random.deathmatch.set(index, value),
    }
}

/// The screen that edits a random crate table: a selected entry whose
/// count the arrow keys change.
#[derive(Clone, Copy, Debug, PartialEq, Eq, Structural)]
pub struct RandomItemEditorState {
    pub selected: usize,
}

impl RandomItemEditorState {
    pub fn new() -> (r: RandomItemEditorState)
        ensures
            r.selected == 0,
    {
        RandomItemEditorState { selected: 0 }
    }

    /// Escape goes back to the editor; up and down move the selection within
    /// the 21 entries; right adds one to the selected count and left takes
    /// one off, down to 0.
    pub fn key_down(&mut self, level: &mut Level, game_type: GameType, key: Key) -> (r: Option<NextMode>)
        requires
            old(self).selected < RANDOM_CRATE_ENTRIES,
        ensures
            final(self).selected < RANDOM_CRATE_ENTRIES,
            key == Key::Escape ==> r == Some(NextMode::Editor) && *final(self) == *old(self)
                && *final(level) == *old(level),
            key != Key::Escape ==> r is None,
            key == Key::Down ==> final(self).selected == if old(self).selected + 1
                < RANDOM_CRATE_ENTRIES {
                old(self).selected + 1
            } else {
                old(self).selected as int
            },
            key == Key::Up ==> final(self).selected == if old(self).selected > 0 {
                old(self).selected - 1
            } else {
                0
            },
            key == Key::Down || key == Key::Up ==> *final(level) == *old(level),
            key == Key::Right || key == Key::Left ==> *final(self) == *old(self),
            game_type == GameType::Normal ==> final(level).crates.random.deathmatch == old(
                level,
            ).crates.random.deathmatch,
            game_type == GameType::Deathmatch ==> final(level).crates.random.normal == old(
                level,
            ).crates.random.normal,
            *final(level) == (Level {
                crates: crate::level::LevelCrates {
                    random: final(level).crates.random,
                    ..old(level).crates
                },
                ..*old(level)
            }),
            ({
                let v = random_count(table_of(*old(level), game_type), old(self).selected as int);
                key == Key::Right && v < u32::MAX ==> table_of(*final(level), game_type)
                    == random_count_set(table_of(*old(level), game_type), old(self).selected as int, (v + 1) as u32)
            }),
            ({
                let v = random_count(table_of(*old(level), game_type), old(self).selected as int);
                key == Key::Left && v > 0 ==> table_of(*final(level), game_type)
                    == random_count_set(table_of(*old(level), game_type), old(self).selected as int, (v - 1) as u32)
            }),
            ({
                let v = random_count(table_of(*old(level), game_type), old(self).selected as int);
                (key == Key::Right && v == u32::MAX) || (key == Key::Left && v == 0) || (key
                    != Key::Right && key != Key::Left) ==> *final(level) == *old(level)
            }),
    {
        match key {
            Key::Escape => Some(NextMode::Editor),
            Key::Down => {
                if self.selected + 1 < RANDOM_CRATE_ENTRIES {
                    self.selected = self.selected + 1;
                }
                None
            },
            Key::Up => {
                if self.selected > 0 {
                    self.selected = self.selected - 1;
                }
                None
            },
            Key::Right => {
                let v = get_value(level, &game_type, self.selected);
                if v < u32::MAX {
                    set_value(level, &game_type, self.selected, v + 1);
                }
                None
            },
            Key::Left => {
                let v = get_value(level, &game_type, self.selected);
                if v > 0 {
                    set_value(level, &game_type, self.selected, v - 1);
                }
                None
            },
            _ => None,
        }
    }
}

/// Number of options of the general information screen: the comment, the
/// time limit and one count per enemy kind.
pub const GENERAL_OPTIONS: usize = 10;

/// Step by which the time limit changes, in seconds.
pub const TIME_STEP: u32 = 10;

/// The screen that edits the level comment, time limit and enemy counts.
#[derive(Clone, Copy, Debug, PartialEq, Eq, Structural)]
pub struct GeneralLevelInfoState {
    /// 0 for the comment, 1 for the time limit, `2 + k` for enemy kind `k`.
    pub selected: usize,
}

impl GeneralLevelInfoState {
    pub fn new() -> (r: GeneralLevelInfoState)
        ensures
            r.selected == 0,
    {
        GeneralLevelInfoState { selected: 0 }
    }

    /// Whether typed text goes to the comment.
    pub fn text_input_active(&self) -> (r: bool)
        ensures
            r == (self.selected == 0),
    {
        self.selected == 0
    }

    /// Typed text, appended to the comment when it is selected; see
    /// `sanitize_level_comment_input`.
    pub fn text_input(&self, level: &mut Level, text: &str)
        ensures
            self.selected == 0 ==> final(level).general_info.comment@ == typed(
                old(level).general_info.comment@,
                text@,
                all_comment_chars(text@),
                COMMENT_INPUT_MAX as nat,
            ),
            self.selected != 0 ==> *final(level) == *old(level),
            final(level).general_info.time_limit == old(level).general_info.time_limit,
            final(level).general_info.enemy_table == old(level).general_info.enemy_table,
            *final(level) == (Level { general_info: final(level).general_info, ..*old(level) }),
    {
        if self.selected == 0 {
            sanitize_level_comment_input(text, &mut level.general_info.comment);
        }
    }

    /// Escape goes back to the editor; up and down move the selection;
    /// right adds one enemy or ten seconds, left takes one enemy or ten
    /// seconds off, down to 0; backspace deletes the comment's last character.
    pub fn key_down(&mut self, level: &mut Level, key: Key) -> (r: Option<NextMode>)
        requires
            old(self).selected < GENERAL_OPTIONS,
        ensures
            final(self).selected < GENERAL_OPTIONS,
            key == Key::Escape ==> r == Some(NextMode::Editor),
            key != Key::Escape ==> r is None,
            key == Key::Down ==> final(self).selected == if old(self).selected + 1 < GENERAL_OPTIONS {
                old(self).selected + 1
            } else {
                old(self).selected as int
            },
            key == Key::Up ==> final(self).selected == if old(self).selected > 0 {
                old(self).selected - 1
            } else {
                0
            },
            key != Key::Up && key != Key::Down ==> final(self).selected == old(self).selected,
            *final(level) == (Level { general_info: final(level).general_info, ..*old(level) }),
            ({
                let o = old(level).general_info;
                let n = final(level).general_info;
                let s = old(self).selected;
                if key == Key::Right && s == 1 {
                    n.comment == o.comment && n.enemy_table == o.enemy_table && n.time_limit == if o.time_limit <= u32::MAX - TIME_STEP {
                        (o.time_limit + TIME_STEP) as u32
                    } else {
                        o.time_limit
                    }
                } else if key == Key::Left && s == 1 {
                    n.comment == o.comment && n.enemy_table == o.enemy_table && n.time_limit == if o.time_limit >= TIME_STEP {
                        (o.time_limit - TIME_STEP) as u32
                    } else {
                        0
                    }
                } else if key == Key::Right && s >= 2 {
                    let v = o.enemy_table@[s - 2];
                    n.comment == o.comment && n.time_limit == o.time_limit && n.enemy_table@
                        == if v < u32::MAX {
                        o.enemy_table@.update(s - 2, (v + 1) as u32)
                    } else {
                        o.enemy_table@
                    }
                } else if key == Key::Left && s >= 2 {
                    let v = o.enemy_table@[s - 2];
                    n.comment == o.comment && n.time_limit == o.time_limit && n.enemy_table@
                        == if v > 0 {
                        o.enemy_table@.update(s - 2, (v - 1) as u32)
                    } else {
                        o.enemy_table@
                    }
                } else if key == Key::Backspace && s == 0 {
                    n.time_limit == o.time_limit && n.enemy_table == o.enemy_table && n.comment@
                        == if o.comment@.len() > 0 {
                        o.comment@.drop_last()
                    } else {
                        o.comment@
                    }
                } else {
                    n == o
                }
            }),
    {
        let s = self.selected;
        match key {
            Key::Escape => {
                return Some(NextMode::Editor);
            },
            Key::Down => {
                if s + 1 < GENERAL_OPTIONS {
                    self.selected = s + 1;
                }
            },
            Key::Up => {
                if s > 0 {
                    self.selected = s - 1;
                }
            },
            Key::Right => {
                if s == 1 {
                    if level.general_info.time_limit <= u32::MAX - TIME_STEP {
                        level.general_info.time_limit = level.general_info.time_limit + TIME_STEP;
                    }
                } else if s >= 2 {
                    let v = level.general_info.enemy_table[s - 2];
                    if v < u32::MAX {
                        level.general_info.enemy_table[s - 2] = v + 1;
                    }
                }
            },
            Key::Left => {
                if s == 1 {
                    if level.general_info.time_limit >= TIME_STEP {
                        level.general_info.time_limit = level.general_info.time_limit - TIME_STEP;
                    } else {
                        level.general_info.time_limit = 0;
                    }
                } else if s >= 2 {
                    let v = level.general_info.enemy_table[s - 2];
                    if v > 0 {
                        level.general_info.enemy_table[s - 2] = v - 1;
                    }
                }
            },
            Key::Backspace => {
                if s == 0 {
                    pop_char(&mut level.general_info.comment);
                }
            },
            _ => {},
        }
        None
    }
}

/// What the load screen asks for after a key press.
#[derive(Clone, Copy, Debug, PartialEq, Eq, Structural)]
pub enum LoadLevelAction {
    /// Stay on the screen.
    Stay,
    /// Go back to the editor without loading.
    Back,
    /// Load the file at this index of the list, then go back to the editor.
    Load(usize),
}

/// The screen that lists the level files and loads the selected one.
#[derive(Clone, Copy, Debug, PartialEq, Eq, Structural)]
pub struct LoadLevelState {
    pub selected: usize,
    pub file_count: usize,
}

impl LoadLevelState {
    /// The selection lies in the list, or is 0 when the list is empty.
    pub open spec fn wf(&self) -> bool {
        self.selected < self.file_count || self.selected == 0
    }

    pub fn new(file_count: usize) -> (r: LoadLevelState)
        ensures
            r.selected == 0,
            r.file_count == file_count,
            r.wf(),
    {
        LoadLevelState { selected: 0, file_count }
    }

    /// Escape goes back; up and down move the selection within the list;
    /// Return loads the selected file, or goes back when there is none.
    pub fn key_down(&mut self, key: Key) -> (r: LoadLevelAction)
        requires
            old(self).wf(),
        ensures
            final(self).wf(),
            final(self).file_count == old(self).file_count,
            key == Key::Down ==> final(self).selected == if old(self).selected + 1 < old(
                self,
            ).file_count {
                old(self).selected + 1
            } else {
                old(self).selected as int
            },
            key == Key::Up ==> final(self).selected == if old(self).selected > 0 {
                old(self).selected - 1
            } else {
                0
            },
            key != Key::Up && key != Key::Down ==> *final(self) == *old(self),
            key == Key::Escape ==> r == LoadLevelAction::Back,
            key == Key::Return ==> r == if old(self).file_count > 0 {
                LoadLevelAction::Load(old(self).selected)
            } else {
                LoadLevelAction::Back
            },
            key != Key::Escape && key != Key::Return ==> r == LoadLevelAction::Stay,
            r matches LoadLevelAction::Load(i) ==> i < old(self).file_count,
    {
        match key {
            Key::Escape => LoadLevelAction::Back,
            Key::Down => {
                if self.selected + 1 < self.file_count {
                    self.selected = self.selected + 1;
                }
                LoadLevelAction::Stay
            },
            Key::Up => {
                if self.selected > 0 {
                    self.selected = self.selected - 1;
                }
                LoadLevelAction::Stay
            },
            Key::Return => {
                if self.file_count > 0 {
                    LoadLevelAction::Load(self.selected)
                } else {
                    LoadLevelAction::Back
                }
            },
            _ => LoadLevelAction::Stay,
        }
    }
}

} // verus!
