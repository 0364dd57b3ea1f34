use utk_editor::{
    get_crates, CoordMap, CrateClass, GeneralInfo, Level, LevelCrates, RandomCrateTables,
    RandomCrates, StaticCrate, StaticCrateType, Steam, TextureType, Tile,
};

fn floor_level(w: usize, h: usize) -> Level {
    let row = vec![Tile { texture_type: TextureType::Floor, id: 0, shadow: 0 }; w];
    Level {
        tiles: vec![row; h],
        p1_position: (1, 1),
        p2_position: (1, 3),
        scroll: (0, 0),
        spotlights: CoordMap::new(),
        steams: CoordMap::new(),
        general_info: GeneralInfo { comment: String::new(), time_limit: 60, enemy_table: [0; 8] },
        crates: LevelCrates {
            static_crates: CoordMap::new(),
            random: RandomCrateTables { normal: RandomCrates::new(), deathmatch: RandomCrates::new() },
        },
    }
}

fn shadows(level: &Level) -> Vec<Vec<u32>> {
    level.tiles.iter().map(|row| row.iter().map(|t| t.shadow).collect()).collect()
}

#[test]
fn single_wall_casts_three_shadows() {
    let mut level = floor_level(16, 12);
    level.tiles[5][5].texture_type = TextureType::Walls;
    level.tiles[3][3].shadow = 7;
    level.create_shadows();
    for y in 0..12 {
        for x in 0..16 {
            let expected = match (x, y) {
                (5, 6) => 3,
                (4, 5) => 2,
                (4, 6) => 1,
                _ => 0,
            };
            assert_eq!(level.tiles[y][x].shadow, expected, "tile ({}, {})", x, y);
        }
    }
}

#[test]
fn shadows_twice_equal_shadows_once() {
    let mut level = Level::get_default_level((20, 14));
    level.tiles[4][7].texture_type = TextureType::Walls;
    level.tiles[5][8].texture_type = TextureType::Walls;
    level.create_shadows();
    let once = shadows(&level);
    level.create_shadows();
    assert_eq!(shadows(&level), once);
}

#[test]
fn wall_corner_gives_shadow_one() {
    let mut level = floor_level(16, 12);
    level.tiles[2][3].texture_type = TextureType::Walls;
    level.tiles[3][4].texture_type = TextureType::Walls;
    level.create_shadows();
    // (3, 3): wall on top and wall on the right.
    assert_eq!(level.tiles[3][3].shadow, 1);
}

#[test]
fn default_level_layout() {
    let level = Level::get_default_level((32, 22));
    assert_eq!(level.tiles.len(), 22);
    assert_eq!(level.tiles[0].len(), 32);
    assert_eq!(level.tiles[0][0], Tile { texture_type: TextureType::Walls, id: 0, shadow: 0 });
    assert_eq!(level.tiles[0][31].id, 2);
    assert_eq!(level.tiles[21][0].id, 32);
    assert_eq!(level.tiles[21][31].id, 18);
    assert_eq!(level.tiles[5][0].id, 16);
    assert_eq!(level.tiles[5][5].texture_type, TextureType::Floor);
    // The floor tile below the top wall row is shaded from above and top-right.
    assert_eq!(level.tiles[1][5].shadow, 1);
    assert_eq!(level.p1_position, (1, 1));
    assert_eq!(level.p2_position, (1, 3));
    assert_eq!(level.general_info.comment, "Rust UTK editor");
    assert_eq!(level.general_info.time_limit, 60);
    assert_eq!(level.general_info.enemy_table, [1, 0, 0, 0, 0, 1, 0, 0]);
    assert_eq!(level.spotlights.len(), 0);
}

#[test]
fn spotlight_delete_at_exact_radius() {
    let mut level = floor_level(16, 12);
    level.put_spotlight_to_level(&(100, 100), 4);
    level.delete_spotlight_if_near(&(125, 100), 1);
    assert!(!level.spotlights.contains_key(&(100, 100)));

    level.put_spotlight_to_level(&(100, 100), 4);
    level.delete_spotlight_if_near(&(115, 120), 1);
    assert!(!level.spotlights.contains_key(&(100, 100)));

    level.put_spotlight_to_level(&(100, 100), 4);
    level.delete_spotlight_if_near(&(126, 100), 1);
    assert!(level.spotlights.contains_key(&(100, 100)));
}

#[test]
fn spotlight_delete_boundary_at_zoom_two() {
    let mut level = floor_level(16, 12);
    level.put_spotlight_to_level(&(100, 100), 4);
    // 12.5 is the radius in level pixels: distance sqrt(160) is past it.
    level.delete_spotlight_if_near(&(112, 104), 2);
    assert!(level.spotlights.contains_key(&(100, 100)));
    // distance sqrt(153) is within it.
    level.delete_spotlight_if_near(&(112, 103), 2);
    assert!(!level.spotlights.contains_key(&(100, 100)));
}

#[test]
fn delete_removes_every_spotlight_in_range() {
    let mut level = floor_level(16, 12);
    level.put_spotlight_to_level(&(10, 10), 9);
    level.put_spotlight_to_level(&(20, 10), 0);
    level.put_spotlight_to_level(&(200, 10), 9);
    level.delete_spotlight_if_near(&(15, 10), 1);
    assert_eq!(level.spotlights.len(), 1);
    assert_eq!(level.get_spotlight_from_level(&(200, 10)), 9);
}

#[test]
fn spotlight_intensity_ten_is_rejected() {
    let mut level = floor_level(16, 12);
    level.put_spotlight_to_level(&(1, 2), 3);
    level.put_spotlight_to_level(&(1, 2), 10);
    level.put_spotlight_to_level(&(5, 5), 200);
    assert_eq!(level.spotlights.len(), 1);
    assert_eq!(level.get_spotlight_from_level(&(1, 2)), 3);
    level.put_spotlight_to_level(&(1, 2), 9);
    assert_eq!(level.get_spotlight_from_level(&(1, 2)), 9);
    assert_eq!(level.spotlights.len(), 1);
}

#[test]
fn steams_place_and_delete() {
    let mut level = floor_level(16, 12);
    level.put_steam_to_level(&(50, 50), &Steam { range: 3, angle: 90 });
    level.put_steam_to_level(&(60, 60), &Steam { range: 7, angle: 0 });
    assert_eq!(level.steams.len(), 1);
    assert_eq!(level.get_steam_from_level(&(50, 50)), Steam { range: 3, angle: 90 });
    level.delete_steam_if_near(&(53, 54), 1);
    assert_eq!(level.steams.len(), 0);
    level.put_steam_to_level(&(50, 50), &Steam { range: 3, angle: 90 });
    level.delete_steam_if_near(&(53, 54), 2);
    assert_eq!(level.steams.len(), 1);
}

#[test]
fn crates_cycle_without_wrapping() {
    let mut level = floor_level(16, 12);
    let c = (40, 40);
    level.put_crate_to_level(
        &c,
        &StaticCrateType { crate_variant: StaticCrate::Normal, crate_class: CrateClass::Weapon, crate_type: 0 },
    );
    let catalog = get_crates();
    level.cycle_crate_type(&c, false, &catalog);
    assert_eq!(level.get_crate_from_level(&c).crate_type, 0);
    for _ in 0..20 {
        level.cycle_crate_type(&c, true, &catalog);
    }
    assert_eq!(level.get_crate_from_level(&c).crate_type, 10);
    level.cycle_crate_class(&c, true);
    assert_eq!(level.get_crate_from_level(&c).crate_class, CrateClass::Bullet);
    assert_eq!(level.get_crate_from_level(&c).crate_type, 0);
    level.cycle_crate_class(&c, true);
    level.cycle_crate_class(&c, true);
    assert_eq!(level.get_crate_from_level(&c).crate_class, CrateClass::Energy);
    level.cycle_crate_type(&c, true, &catalog);
    assert_eq!(level.get_crate_from_level(&c).crate_type, 0);
    level.cycle_crate_class(&c, false);
    assert_eq!(level.get_crate_from_level(&c).crate_class, CrateClass::Bullet);
}

#[test]
fn crate_delete_uses_box() {
    let mut level = floor_level(16, 12);
    let item = StaticCrateType { crate_variant: StaticCrate::Deathmatch, crate_class: CrateClass::Energy, crate_type: 0 };
    level.put_crate_to_level(&(40, 40), &item);
    level.delete_crate_if_near(&(39, 45), 1);
    assert_eq!(level.crates.static_crates.len(), 1);
    level.delete_crate_if_near(&(54, 45), 2);
    assert_eq!(level.crates.static_crates.len(), 1);
    level.delete_crate_if_near(&(53, 45), 2);
    assert_eq!(level.crates.static_crates.len(), 0);
}

#[test]
fn painting_tiles_and_shadows() {
    let mut level = floor_level(16, 12);
    level.tiles[1][2].shadow = 4;
    level.put_tile_to_level(18, Some(7), &TextureType::Walls);
    assert_eq!(level.tiles[1][2], Tile { texture_type: TextureType::Walls, id: 7, shadow: 4 });
    level.put_tile_to_level(18, Some(2), &TextureType::Shadow);
    assert_eq!(level.tiles[1][2], Tile { texture_type: TextureType::Walls, id: 7, shadow: 3 });
    level.put_tile_to_level(18, None, &TextureType::Shadow);
    assert_eq!(level.tiles[1][2].shadow, 0);
    // Past the last row nothing changes.
    let before = level.tiles.clone();
    level.put_tile_to_level(16 * 12, Some(1), &TextureType::Floor);
    assert_eq!(level.tiles, before);
}

#[test]
fn crate_catalog_sizes() {
    let c = get_crates();
    assert_eq!(c[0].len(), 11);
    assert_eq!(c[1].len(), 9);
    assert_eq!(c[2].len(), 1);
    assert_eq!(c[0][0], "pistol");
    assert_eq!(c[1][8], "mines (5)");
    assert_eq!(CrateClass::from_u32(2), CrateClass::Energy);
    assert_eq!(TextureType::from_u32(1), TextureType::Walls);
}
