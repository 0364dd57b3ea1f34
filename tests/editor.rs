use utk_editor::{
    sanitize_level_comment_input, sanitize_level_name_input, sanitize_numeric_input, Editor,
    EditorAction, InsertState, InsertType, Key, Level, NewLevelState, NextMode, PromptType,
    SaveLevelType, TextureType,
};

#[test]
fn numeric_input_is_sanitized() {
    let mut field = String::from("5");
    sanitize_numeric_input("12a", &mut field);
    assert_eq!(field, "5");
    sanitize_numeric_input("2", &mut field);
    sanitize_numeric_input("3", &mut field);
    assert_eq!(field, "523");
    sanitize_numeric_input("4", &mut field);
    assert_eq!(field, "523");
    let mut other = String::new();
    sanitize_numeric_input("\u{663}", &mut other);
    sanitize_numeric_input("\u{bd}", &mut other);
    assert_eq!(other, "");
}

#[test]
fn name_and_comment_input() {
    let mut name = String::new();
    sanitize_level_name_input("abc1", &mut name);
    sanitize_level_name_input("x y", &mut name);
    sanitize_level_name_input("defghij", &mut name);
    assert_eq!(name, "abc1defghij");
    sanitize_level_name_input("k", &mut name);
    assert_eq!(name, "abc1defghij");
    let mut comment = String::from("my");
    sanitize_level_comment_input(" ", &mut comment);
    sanitize_level_comment_input("level", &mut comment);
    sanitize_level_comment_input("a-b", &mut comment);
    assert_eq!(comment, "my level");
    sanitize_level_comment_input(" a b", &mut comment);
    assert_eq!(comment, "my level a b");
}

fn type_text(editor: &mut Editor, text: &str) {
    assert!(editor.text_input_active());
    editor.text_input(text);
}

#[test]
fn new_level_needs_sixteen_wide() {
    let mut editor = Editor::new();
    editor.key_down(Key::F4);
    assert_eq!(editor.prompt, PromptType::NewLevel(NewLevelState::Prompt));
    editor.key_down(Key::Y);
    type_text(&mut editor, "1");
    type_text(&mut editor, "0");
    editor.key_down(Key::Return);
    assert_eq!(editor.prompt, PromptType::NewLevel(NewLevelState::XSize));
    editor.key_down(Key::Backspace);
    editor.key_down(Key::Backspace);
    type_text(&mut editor, "40");
    editor.key_down(Key::Return);
    assert_eq!(editor.prompt, PromptType::NewLevel(NewLevelState::YSize));
    type_text(&mut editor, "9");
    editor.key_down(Key::Return);
    assert_eq!(editor.prompt, PromptType::NewLevel(NewLevelState::YSize));
    type_text(&mut editor, "0");
    editor.key_down(Key::Return);
    assert_eq!(editor.prompt, PromptType::Closed);
    assert_eq!(editor.level.tiles.len(), 90);
    assert_eq!(editor.level.tiles[0].len(), 40);
}

#[test]
fn oversized_entry_keeps_prompt_open() {
    let mut editor = Editor::new();
    editor.key_down(Key::F4);
    editor.key_down(Key::Y);
    type_text(&mut editor, "999");
    editor.key_down(Key::Return);
    assert_eq!(editor.prompt, PromptType::NewLevel(NewLevelState::XSize));
}

#[test]
fn escape_cancels_then_asks_to_quit() {
    let mut editor = Editor::new();
    editor.key_down(Key::Q);
    assert_eq!(editor.insert_item, InsertType::Spotlight(InsertState::Place));
    editor.key_down(Key::Escape);
    assert_eq!(editor.insert_item, InsertType::Idle);
    assert_eq!(editor.prompt, PromptType::Closed);
    editor.key_down(Key::Escape);
    assert_eq!(editor.prompt, PromptType::Quit);
    match editor.key_down(Key::Y) {
        EditorAction::Switch(NextMode::Quit) => {},
        other => panic!("unexpected {:?}", other),
    }
}

#[test]
fn spotlight_place_adjust_confirm() {
    let mut editor = Editor::new();
    editor.key_down(Key::Q);
    editor.mouse_motion(200, 100);
    editor.left_button_down();
    editor.left_button_up();
    // Zoom 2: level pixel (100, 50).
    assert_eq!(editor.insert_item, InsertType::Spotlight(InsertState::Instructions(100, 50)));
    assert_eq!(editor.level.get_spotlight_from_level(&(100, 50)), 0);
    for _ in 0..12 {
        editor.key_down(Key::Up);
    }
    assert_eq!(editor.level.get_spotlight_from_level(&(100, 50)), 9);
    editor.key_down(Key::Down);
    assert_eq!(editor.level.get_spotlight_from_level(&(100, 50)), 8);
    editor.key_down(Key::Return);
    assert_eq!(editor.insert_item, InsertType::Spotlight(InsertState::Place));
    editor.key_down(Key::W);
    editor.left_button_down();
    editor.left_button_up();
    assert_eq!(editor.level.spotlights.len(), 0);
}

#[test]
fn steam_adjust_rotates_and_clamps() {
    let mut editor = Editor::new();
    editor.key_down(Key::A);
    editor.mouse_motion(80, 80);
    editor.left_button_down();
    editor.left_button_up();
    let c = (40, 40);
    assert_eq!(editor.level.get_steam_from_level(&c).range, 1);
    editor.key_down(Key::Left);
    assert_eq!(editor.level.get_steam_from_level(&c).angle, 355);
    editor.key_down(Key::Right);
    editor.key_down(Key::Right);
    assert_eq!(editor.level.get_steam_from_level(&c).angle, 5);
    for _ in 0..10 {
        editor.key_down(Key::Up);
    }
    assert_eq!(editor.level.get_steam_from_level(&c).range, 6);
}

#[test]
fn drag_paints_rectangle_and_recomputes_shadows() {
    let mut editor = Editor::new();
    editor.select_tile(5, TextureType::Walls);
    editor.mouse_motion(200, 200);
    editor.left_button_down();
    editor.mouse_motion(290, 250);
    editor.left_button_up();
    // Tiles (5..=7, 5..=6) at 40-pixel tiles.
    for y in 5..=6 {
        for x in 5..=7 {
            assert_eq!(editor.level.tiles[y][x].texture_type, TextureType::Walls);
            assert_eq!(editor.level.tiles[y][x].id, 5);
        }
    }
    assert_eq!(editor.level.tiles[7][7].shadow, 3);
    assert_eq!(editor.level.tiles[7][5].shadow, 1);
    assert_eq!(editor.level.tiles[5][4].shadow, 2);
    assert_eq!(editor.level.tiles[6][4].shadow, 1);
    assert!(editor.automatic_shadows);
}

#[test]
fn right_click_erases_shadow_and_disables_automatic() {
    let mut editor = Editor::new();
    assert_eq!(editor.level.tiles[1][5].shadow, 1);
    editor.mouse_motion(5 * 40 + 3, 40 + 3);
    editor.right_button_down();
    editor.right_button_up();
    assert_eq!(editor.level.tiles[1][5].shadow, 0);
    assert!(!editor.automatic_shadows);
}

#[test]
fn player_start_is_single_shot() {
    let mut editor = Editor::new();
    editor.key_down(Key::Num2);
    assert_eq!(editor.set_position, 2);
    editor.mouse_motion(130, 90);
    editor.left_button_down();
    editor.left_button_up();
    assert_eq!(editor.level.p2_position, (3, 2));
    assert_eq!(editor.set_position, 0);
}

#[test]
fn scrolling_is_clamped() {
    let mut editor = Editor::new();
    editor.key_down(Key::Up);
    assert_eq!(editor.level.scroll, (0, 0));
    for _ in 0..10 {
        editor.key_down(Key::Down);
    }
    // 22 rows, 18 on screen.
    assert_eq!(editor.level.scroll, (0, 4));
    editor.key_down(Key::Minus);
    assert_eq!(editor.level.scroll, (0, 0));
    assert_eq!(editor.graphics.render_multiplier, 1);
    editor.key_down(Key::Right);
    assert_eq!(editor.level.scroll, (0, 0));
    editor.key_down(Key::Down);
    assert_eq!(editor.level.scroll, (0, 0));
    editor.key_down(Key::Plus);
    assert_eq!(editor.graphics.render_multiplier, 2);
    editor.key_down(Key::Right);
    assert_eq!(editor.level.scroll, (0, 0));
}

#[test]
fn save_produces_file_bytes() {
    let mut editor = Editor::new();
    editor.key_down(Key::F2);
    editor.key_down(Key::Y);
    assert_eq!(editor.prompt, PromptType::Save(SaveLevelType::NameInput));
    type_text(&mut editor, "m");
    match editor.key_down(Key::Return) {
        EditorAction::Continue => {},
        other => panic!("unexpected {:?}", other),
    }
    type_text(&mut editor, "ap1");
    match editor.key_down(Key::Return) {
        EditorAction::Save { file_name, data } => {
            assert_eq!(file_name, "MAP1.LEV");
            let mut level = Level::get_default_level((16, 12));
            assert_eq!(level.deserialize(&data), Ok(()));
            assert_eq!(level.tiles, editor.level.tiles);
        },
        other => panic!("unexpected {:?}", other),
    }
    assert_eq!(editor.prompt, PromptType::Closed);
    assert_eq!(editor.saved_level_name.as_deref(), Some("MAP1.LEV"));
}

#[test]
fn function_keys_switch_screens() {
    let mut editor = Editor::new();
    match editor.key_down(Key::F8) {
        EditorAction::Switch(NextMode::RandomItemEditor(_)) => {},
        other => panic!("unexpected {:?}", other),
    }
    match editor.key_down(Key::Space) {
        EditorAction::Switch(NextMode::TileSelect) => {},
        other => panic!("unexpected {:?}", other),
    }
}

#[test]
fn return_confirms_crate_and_advances_prompt() {
    let mut editor = Editor::new();
    editor.key_down(Key::X);
    editor.mouse_motion(200, 200);
    editor.left_button_down();
    editor.left_button_up();
    assert_eq!(editor.insert_item, InsertType::DMCrate(InsertState::Instructions(100, 100)));
    editor.key_down(Key::F4);
    editor.key_down(Key::Y);
    type_text(&mut editor, "20");
    editor.key_down(Key::Return);
    assert_eq!(editor.insert_item, InsertType::DMCrate(InsertState::Place));
    assert_eq!(editor.prompt, PromptType::NewLevel(NewLevelState::YSize));
    type_text(&mut editor, "15");
    editor.key_down(Key::Return);
    assert_eq!(editor.prompt, PromptType::Closed);
    assert_eq!(editor.level.tiles.len(), 15);
    assert_eq!(editor.level.tiles[0].len(), 20);
}
