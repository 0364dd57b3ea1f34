use utk_editor::{
    check_box_click, get_bottom_text_position, get_level_coordinates_from_screen_coordinates,
    get_logical_coordinates, get_screen_coordinates_from_level_coordinates,
    get_selected_level_tiles, get_spotlight_render_radius, get_steam_render_radius,
    get_crate_render_size, get_tile_coordinates, get_tile_id_from_coordinates, limit_coordinates,
    Graphics,
};

fn unit_graphics() -> Graphics {
    Graphics { tile_size: 1, render_multiplier: 1, resolution_x: 100, resolution_y: 100 }
}

#[test]
fn rectangle_enumeration_is_row_major() {
    let g = unit_graphics();
    let tiles = get_selected_level_tiles(&g, &(1, 1), &(3, 2), 10, None);
    assert_eq!(tiles, vec![11, 12, 13, 21, 22, 23]);
}

#[test]
fn rectangle_enumeration_normalises_corners() {
    let g = unit_graphics();
    let tiles = get_selected_level_tiles(&g, &(3, 1), &(1, 2), 10, None);
    assert_eq!(tiles, vec![11, 12, 13, 21, 22, 23]);
    let single = get_selected_level_tiles(&g, &(4, 4), &(4, 4), 10, None);
    assert_eq!(single, vec![44]);
}

#[test]
fn rectangle_enumeration_in_pixels_with_scroll() {
    let g = Graphics::new();
    // 40-pixel tiles: pixels (45, 85) and (125, 90) are tiles (1, 2) and (3, 2).
    let tiles = get_selected_level_tiles(&g, &(45, 85), &(125, 90), 32, Some((2, 1)));
    assert_eq!(tiles, vec![3 + 3 * 32, 4 + 3 * 32, 5 + 3 * 32]);
}

#[test]
fn logical_coordinates_floor_divide() {
    let g = Graphics::new();
    assert_eq!(get_logical_coordinates(&g, 79, 80, None), (1, 2));
    assert_eq!(get_logical_coordinates(&g, 79, 80, Some((3, 4))), (4, 6));
    assert_eq!(get_tile_id_from_coordinates(&g, &(79, 80), 32, Some((3, 4))), 4 + 6 * 32);
}

#[test]
fn level_and_screen_coordinates() {
    let g = Graphics::new();
    assert_eq!(get_level_coordinates_from_screen_coordinates(&g, &(101, 51), &(2, 1)), (90, 45));
    assert_eq!(get_screen_coordinates_from_level_coordinates(&g, &(90, 45), &(2, 1)), (100, 50));
    assert_eq!(get_screen_coordinates_from_level_coordinates(&g, &(10, 5), &(2, 1)), (-60, -30));
}

#[test]
fn clamping_to_bounds() {
    assert_eq!(limit_coordinates(&(5, 500), &(10, 100)), (5, 99));
    assert_eq!(limit_coordinates(&(10, 99), &(10, 100)), (9, 99));
}

#[test]
fn render_sizes() {
    assert_eq!(get_spotlight_render_radius(&4), 25);
    assert_eq!(get_spotlight_render_radius(&0), 5);
    assert_eq!(get_steam_render_radius(), 5);
    assert_eq!(get_crate_render_size(), 28);
}

#[test]
fn tile_atlas_coordinates() {
    assert_eq!(get_tile_coordinates(17, 320, 20), (20, 20));
    assert_eq!(get_tile_coordinates(0, 320, 20), (0, 0));
}

#[test]
fn box_clicks() {
    assert!(check_box_click(&(10, 10), &(10, 10), 28));
    assert!(check_box_click(&(37, 37), &(10, 10), 28));
    assert!(!check_box_click(&(38, 20), &(10, 10), 28));
    assert!(!check_box_click(&(9, 20), &(10, 10), 28));
}

#[test]
fn graphics_defaults() {
    let g = Graphics::new();
    assert_eq!(g.get_render_size(), 40);
    assert_eq!(g.get_x_tiles_per_screen(), 32);
    assert_eq!(g.get_y_tiles_per_screen(), 18);
    assert_eq!(get_bottom_text_position(720), (20, 694));
}
