use utk_editor::{
    is_level_file_name, CrateClass, DeserializationError, FileTypeError, Level, StaticCrate,
    StaticCrateType, Steam, TextureType,
};

fn sample_level() -> Level {
    let mut level = Level::get_default_level((20, 13));
    level.tiles[4][6].texture_type = TextureType::Walls;
    level.tiles[4][6].id = 33;
    level.create_shadows();
    level.p1_position = (3, 4);
    level.p2_position = (9, 2);
    level.scroll = (2, 1);
    level.put_spotlight_to_level(&(120, 80), 7);
    level.put_spotlight_to_level(&(10, 300), 0);
    level.put_steam_to_level(&(55, 66), &Steam { range: 6, angle: 355 });
    level.put_crate_to_level(
        &(30, 30),
        &StaticCrateType { crate_variant: StaticCrate::Deathmatch, crate_class: CrateClass::Bullet, crate_type: 4 },
    );
    level.put_crate_to_level(
        &(70, 90),
        &StaticCrateType { crate_variant: StaticCrate::Normal, crate_class: CrateClass::Energy, crate_type: 0 },
    );
    level.general_info.comment = String::from("big arena 2");
    level.general_info.time_limit = 240;
    level.general_info.enemy_table = [3, 1, 4, 1, 5, 9, 2, 6];
    level.crates.random.normal.set(12, 42);
    level.crates.random.deathmatch.set(20, 7);
    level
}

fn entries_spot(level: &Level) -> Vec<((u32, u32), u8)> {
    (0..level.spotlights.len()).map(|i| level.spotlights.entry(i)).collect()
}

fn entries_steam(level: &Level) -> Vec<((u32, u32), Steam)> {
    (0..level.steams.len()).map(|i| level.steams.entry(i)).collect()
}

fn crate_at(level: &Level, c: (u32, u32)) -> StaticCrateType {
    level.get_crate_from_level(&c)
}

#[test]
fn round_trip_keeps_every_field() {
    let original = sample_level();
    let bytes = original.serialize();
    let mut loaded = Level::get_default_level((16, 12));
    assert_eq!(loaded.deserialize(&bytes), Ok(()));
    assert_eq!(loaded.tiles, original.tiles);
    assert_eq!(loaded.p1_position, original.p1_position);
    assert_eq!(loaded.p2_position, original.p2_position);
    assert_eq!(loaded.scroll, (0, 0));
    assert_eq!(entries_spot(&loaded), entries_spot(&original));
    assert_eq!(entries_steam(&loaded), entries_steam(&original));
    assert_eq!(loaded.crates.static_crates.len(), 2);
    assert_eq!(crate_at(&loaded, (30, 30)), crate_at(&original, (30, 30)));
    assert_eq!(crate_at(&loaded, (70, 90)), crate_at(&original, (70, 90)));
    assert_eq!(loaded.general_info.comment, "big arena 2");
    assert_eq!(loaded.general_info.time_limit, 240);
    assert_eq!(loaded.general_info.enemy_table, [3, 1, 4, 1, 5, 9, 2, 6]);
    assert_eq!(loaded.crates.random.normal.get(12), 42);
    assert_eq!(loaded.crates.random.deathmatch.get(20), 7);
    for i in 0..21 {
        assert_eq!(loaded.crates.random.normal.get(i), original.crates.random.normal.get(i));
        assert_eq!(loaded.crates.random.deathmatch.get(i), original.crates.random.deathmatch.get(i));
    }
}

#[test]
fn layout_of_the_file() {
    let level = sample_level();
    let bytes = level.serialize();
    assert_eq!(&bytes[0..4], &[5, 0, 0, 0]);
    assert_eq!(&bytes[4..8], &[20, 0, 0, 0]);
    assert_eq!(&bytes[8..12], &[13, 0, 0, 0]);
    let tiles_end = 12 + 12 * 20 * 13;
    // First tile: wall, pattern 0, no shadow.
    assert_eq!(&bytes[12..24], &[1, 0, 0, 0, 0, 0, 0, 0, 0, 0, 0, 0]);
    assert_eq!(&bytes[tiles_end..tiles_end + 4], &[3, 0, 0, 0]);
    // Spotlight count, then the first spotlight.
    assert_eq!(&bytes[tiles_end + 16..tiles_end + 20], &[2, 0, 0, 0]);
    assert_eq!(&bytes[tiles_end + 20..tiles_end + 32], &[120, 0, 0, 0, 80, 0, 0, 0, 7, 0, 0, 0]);
    let total = tiles_end + 16 + 4 + 2 * 12 + 4 + 16 + 224 + 4 + 16 + 4 + 16;
    assert_eq!(bytes.len(), total);
    let comment_at = tiles_end + 16 + 4 + 2 * 12 + 4 + 16;
    assert_eq!(&bytes[comment_at..comment_at + 11], b"big arena 2");
    assert_eq!(&bytes[comment_at + 11..comment_at + 20], &[0; 9]);
}

#[test]
fn comment_is_cut_to_twenty_bytes() {
    let mut level = sample_level();
    level.general_info.comment = String::from("abcdefghijklmnopqrstuvwxyz");
    let bytes = level.serialize();
    let mut loaded = Level::get_default_level((16, 12));
    assert_eq!(loaded.deserialize(&bytes), Ok(()));
    assert_eq!(loaded.general_info.comment, "abcdefghijklmnopqrst");
}

#[test]
fn wrong_version_is_refused_and_level_kept() {
    let mut bytes = sample_level().serialize();
    bytes[0] = 4;
    let mut level = Level::get_default_level((16, 12));
    level.put_spotlight_to_level(&(1, 1), 2);
    let tiles = level.tiles.clone();
    assert_eq!(
        level.deserialize(&bytes),
        Err(DeserializationError::ContentError(FileTypeError::InvalidVersion))
    );
    assert_eq!(level.tiles, tiles);
    assert_eq!(level.spotlights.len(), 1);
    assert_eq!(level.general_info.comment, "Rust UTK editor");
    let short = [6u8, 0, 0, 0];
    assert_eq!(
        level.deserialize(&short),
        Err(DeserializationError::ContentError(FileTypeError::InvalidVersion))
    );
}

#[test]
fn small_grids_are_refused() {
    let mut level = Level::get_default_level((16, 12));
    let narrow = [5u8, 0, 0, 0, 15, 0, 0, 0, 12, 0, 0, 0];
    assert_eq!(
        level.deserialize(&narrow),
        Err(DeserializationError::ContentError(FileTypeError::InvalidLevelSize))
    );
    let low = [5u8, 0, 0, 0, 16, 0, 0, 0, 11, 0, 0, 0];
    assert_eq!(
        level.deserialize(&low),
        Err(DeserializationError::ContentError(FileTypeError::InvalidLevelSize))
    );
}

#[test]
fn truncated_data_is_an_io_error() {
    let bytes = sample_level().serialize();
    let mut level = Level::get_default_level((16, 12));
    assert_eq!(level.deserialize(&bytes[..2]), Err(DeserializationError::IOError));
    assert_eq!(level.deserialize(&bytes[..500]), Err(DeserializationError::IOError));
    assert_eq!(level.deserialize(&bytes[..bytes.len() - 1]), Err(DeserializationError::IOError));
    assert_eq!(level.tiles.len(), 12);
}

#[test]
fn unknown_tags_are_refused() {
    let mut bytes = sample_level().serialize();
    bytes[12] = 2;
    let mut level = Level::get_default_level((16, 12));
    assert_eq!(
        level.deserialize(&bytes),
        Err(DeserializationError::ContentError(FileTypeError::InvalidTileType))
    );
    let mut bytes = sample_level().serialize();
    let n = bytes.len();
    // Class of the last deathmatch crate record.
    bytes[n - 8] = 3;
    assert_eq!(
        level.deserialize(&bytes),
        Err(DeserializationError::ContentError(FileTypeError::InvalidCrateClass))
    );
}

#[test]
fn level_file_names() {
    assert!(is_level_file_name("./ARENA.LEV"));
    assert!(is_level_file_name("./arena.lev"));
    assert!(!is_level_file_name("./arena.png"));
    assert!(!is_level_file_name("LEV"));
}

#[test]
fn out_of_range_decorations_are_refused() {
    let original = sample_level();
    let bytes = original.serialize();
    let tiles_end = 12 + 12 * 20 * 13;
    // Intensity of the first spotlight.
    let mut bad = bytes.clone();
    bad[tiles_end + 28] = 10;
    let mut level = Level::get_default_level((16, 12));
    assert_eq!(
        level.deserialize(&bad),
        Err(DeserializationError::ContentError(FileTypeError::InvalidDecoration))
    );
    // Range of the only steam.
    let steam_at = tiles_end + 16 + 4 + 2 * 12 + 4;
    let mut bad = bytes.clone();
    bad[steam_at + 12] = 7;
    assert_eq!(
        level.deserialize(&bad),
        Err(DeserializationError::ContentError(FileTypeError::InvalidDecoration))
    );
    assert_eq!(level.tiles.len(), 12);
}
