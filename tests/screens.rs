use utk_editor::{
    char_to_index, get_text_texture_size, get_value, load_font, set_value, Character, GameType,
    GeneralLevelInfoState, Key, Level, Line, LoadLevelAction, LoadLevelState, NextMode,
    RandomItemEditorState,
};

#[test]
fn random_counts_by_flat_index() {
    let mut level = Level::get_default_level((16, 12));
    assert_eq!(get_value(&level, &GameType::Normal, 0), 1);
    assert_eq!(get_value(&level, &GameType::Normal, 11), 1);
    assert_eq!(get_value(&level, &GameType::Normal, 20), 1);
    assert_eq!(get_value(&level, &GameType::Normal, 5), 0);
    set_value(&mut level, &GameType::Deathmatch, 15, 8);
    assert_eq!(get_value(&level, &GameType::Deathmatch, 15), 8);
    assert_eq!(level.crates.random.deathmatch.bullets[4], 8);
    assert_eq!(get_value(&level, &GameType::Normal, 15), 0);
}

#[test]
fn random_item_screen_keys() {
    let mut level = Level::get_default_level((16, 12));
    let mut screen = RandomItemEditorState::new();
    screen.key_down(&mut level, GameType::Normal, Key::Left);
    screen.key_down(&mut level, GameType::Normal, Key::Left);
    assert_eq!(get_value(&level, &GameType::Normal, 0), 0);
    for _ in 0..30 {
        screen.key_down(&mut level, GameType::Normal, Key::Down);
    }
    assert_eq!(screen.selected, 20);
    screen.key_down(&mut level, GameType::Normal, Key::Right);
    assert_eq!(get_value(&level, &GameType::Normal, 20), 2);
    assert_eq!(screen.key_down(&mut level, GameType::Normal, Key::Escape), Some(NextMode::Editor));
}

#[test]
fn general_info_screen_keys() {
    let mut level = Level::get_default_level((16, 12));
    let mut screen = GeneralLevelInfoState::new();
    screen.key_down(&mut level, Key::Backspace);
    assert_eq!(level.general_info.comment, "Rust UTK edito");
    screen.text_input(&mut level, "r");
    assert_eq!(level.general_info.comment, "Rust UTK editor");
    screen.key_down(&mut level, Key::Down);
    screen.key_down(&mut level, Key::Right);
    assert_eq!(level.general_info.time_limit, 70);
    for _ in 0..10 {
        screen.key_down(&mut level, Key::Left);
    }
    assert_eq!(level.general_info.time_limit, 0);
    screen.key_down(&mut level, Key::Down);
    screen.key_down(&mut level, Key::Right);
    assert_eq!(level.general_info.enemy_table[0], 2);
    assert!(!screen.text_input_active());
}

fn push_u32(v: &mut Vec<u8>, n: u32) {
    v.extend_from_slice(&n.to_le_bytes());
}

#[test]
fn font_glyphs_are_parsed() {
    let mut data = vec![0u8; 0x27D];
    for i in 0..92u32 {
        push_u32(&mut data, 4 + i % 3);
        push_u32(&mut data, 7);
        push_u32(&mut data, 2);
        push_u32(&mut data, 6);
        data.extend_from_slice(&[9, 9]);
        data.extend_from_slice(&[1, 2, 3, 4, 5, 0]);
    }
    let font = load_font(&data).expect("complete font");
    assert_eq!(font.len(), 92);
    assert_eq!(font[0].width, 4);
    assert_eq!(font[1].width, 5);
    assert_eq!(font[0].height, 7);
    assert_eq!(font[0].lines, vec![Line { x: 1, y: 2, width: 3 }]);
    assert!(load_font(&data[..data.len() - 1]).is_none());
}

#[test]
fn text_sizes() {
    let font: Vec<Character> = (0..92u32)
        .map(|i| Character { width: i, height: 10 + i % 2, lines: Vec::new() })
        .collect();
    assert_eq!(char_to_index('!'), 0x21);
    // 'A' is glyph 0x41 - 0x21 = 32, '"' is glyph 1.
    assert_eq!(get_text_texture_size(&font, "A A"), Some((32 + 5 + 32, 10)));
    assert_eq!(get_text_texture_size(&font, "\""), Some((1, 11)));
    assert_eq!(get_text_texture_size(&font, "~"), None);
    assert_eq!(get_text_texture_size(&font, ""), Some((0, 0)));
}

#[test]
fn load_screen_navigation() {
    let mut screen = LoadLevelState::new(3);
    assert_eq!(screen.key_down(Key::Up), LoadLevelAction::Stay);
    assert_eq!(screen.selected, 0);
    for _ in 0..5 {
        screen.key_down(Key::Down);
    }
    assert_eq!(screen.selected, 2);
    assert_eq!(screen.key_down(Key::Return), LoadLevelAction::Load(2));
    assert_eq!(screen.key_down(Key::Escape), LoadLevelAction::Back);
    let mut empty = LoadLevelState::new(0);
    empty.key_down(Key::Down);
    assert_eq!(empty.key_down(Key::Return), LoadLevelAction::Back);
}

#[test]
fn random_item_screen_keeps_other_table() {
    let mut level = Level::get_default_level((16, 12));
    let mut screen = RandomItemEditorState::new();
    screen.key_down(&mut level, GameType::Deathmatch, Key::Right);
    assert_eq!(get_value(&level, &GameType::Deathmatch, 0), 2);
    assert_eq!(get_value(&level, &GameType::Normal, 0), 1);
}
