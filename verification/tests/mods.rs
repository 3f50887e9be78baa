use p3_lib::mods::{
    abs, autotrade_setting_changes, call_displacement, count_bribed_councillors, get_correct_index, jump_patch,
    marker_strokes, nav_vec_coord_to_game_coord, next_quality_requirement, overwrite_resolution,
    replaces_overview_map, reposition_ui_elements, side_panel_fill_rect, spotted_ships, top_bar_layout_width,
    AutotradeSettingChange, ShipSighting, AUTOTRADE_WARE_COUNT, HIGH_RES_HEIGHT, HIGH_RES_WIDTH,
};

#[test]
fn nav_vector_coordinates_scale_to_the_map() {
    assert_eq!(nav_vec_coord_to_game_coord(0), 66);
    assert_eq!(nav_vec_coord_to_game_coord(10), 101);
    assert_eq!(nav_vec_coord_to_game_coord(-30), -39);
}

#[test]
fn markers_are_crosses() {
    assert_eq!(marker_strokes(10, 20), [(6, 16, 14, 24), (6, 24, 14, 16)]);
}

#[test]
fn bribed_councillors_are_counted_per_merchant() {
    assert_eq!(count_bribed_councillors(&[0x24, 1, 0x24, 0x24], 0x24), 3);
    assert_eq!(count_bribed_councillors(&[0x24, 1, 0x24, 0x24], 1), 1);
    assert_eq!(count_bribed_councillors(&[], 1), 0);
}

#[test]
fn artillery_slot_index_is_corrected() {
    assert_eq!(get_correct_index(2), 0);
    assert_eq!(get_correct_index(0), 2);
    assert_eq!(get_correct_index(1), 2);
    assert_eq!(get_correct_index(3), 2);
}

#[test]
fn abs_of_negative_and_positive() {
    assert_eq!(abs(-5), 5);
    assert_eq!(abs(7), 7);
    assert_eq!(abs(0), 0);
    assert_eq!(abs(i32::MAX), i32::MAX);
}

#[test]
fn resolution_is_overwritten() {
    let mut w = 800;
    let mut h = 600;
    overwrite_resolution(&mut w, &mut h);
    assert_eq!((w, h), (HIGH_RES_WIDTH, HIGH_RES_HEIGHT));
    assert_eq!((w, h), (1920, 1080));
}

#[test]
fn ui_is_repositioned_above_1280_pixels() {
    let r = reposition_ui_elements(1920);
    assert_eq!((r.layout_width, r.anim42_width, r.anim44_x), (1280, Some(1636), Some(1636)));
    let r = reposition_ui_elements(1280);
    assert_eq!((r.layout_width, r.anim42_width, r.anim44_x), (1280, None, None));
    let r = reposition_ui_elements(1024);
    assert_eq!((r.layout_width, r.anim42_width, r.anim44_x), (1024, None, None));
}

#[test]
fn top_bar_uses_at_most_1280_pixels() {
    assert_eq!(top_bar_layout_width(1920), 1280);
    assert_eq!(top_bar_layout_width(800), 800);
}

#[test]
fn side_panel_fill_is_below_the_panel() {
    assert_eq!(side_panel_fill_rect(1920, 1080), (1636, 1024, 1920, 1080));
}

#[test]
fn only_the_1280_overview_map_is_replaced() {
    assert!(replaces_overview_map("images\\Vollansichtskarte1280.bmp"));
    assert!(replaces_overview_map("Vollansichtskarte1280.bmp"));
    assert!(!replaces_overview_map("images\\Vollansichtskarte1024.bmp"));
    assert!(!replaces_overview_map("1280.bmp"));
    assert!(!replaces_overview_map(""));
}

#[test]
fn scroll_map_draws_ships_at_sea() {
    let ships = [
        ShipSighting { status: 0x12, y: 5 << 16 },
        ShipSighting { status: 0x00, y: 7 << 16 },
        ShipSighting { status: 0x0f, y: -(1 << 16) },
        ShipSighting { status: 0x0f, y: 0x18000 },
    ];
    assert_eq!(spotted_ships(&ships), vec![(5, 0), (-1, 2), (1, 3)]);
    assert!(spotted_ships(&[]).is_empty());
}

#[test]
fn next_quality_level_requirement() {
    let requirements = [0, 100, 200, 300];
    assert_eq!(next_quality_requirement(0, &requirements), Some(100));
    assert_eq!(next_quality_requirement(2, &requirements), Some(300));
    assert_eq!(next_quality_requirement(3, &requirements), None);
}

#[test]
fn autotrade_copies_prices_of_traded_wares() {
    let mut setting_stock = [0i32; AUTOTRADE_WARE_COUNT];
    let mut setting_prices = [0i32; AUTOTRADE_WARE_COUNT];
    let mut scalings = [1i32; AUTOTRADE_WARE_COUNT];
    let mut stock = [0i32; AUTOTRADE_WARE_COUNT];
    setting_stock[0] = 3;
    setting_prices[0] = 50;
    stock[0] = 11;
    scalings[1] = 10;
    setting_stock[1] = 20;
    scalings[2] = 10;
    setting_stock[2] = -10;
    setting_prices[2] = 70;
    stock[2] = 22;
    scalings[3] = 10;
    setting_stock[3] = 15;
    setting_prices[3] = 80;
    stock[3] = 33;
    let changes = autotrade_setting_changes(&setting_stock, &setting_prices, &scalings, 4, &stock);
    assert_eq!(
        changes,
        vec![
            AutotradeSettingChange { stock: 11, price: 50, office_index: 4, ware: 0 },
            AutotradeSettingChange { stock: 22, price: 70, office_index: 4, ware: 2 },
            AutotradeSettingChange { stock: 33, price: 80, office_index: 4, ware: 3 },
        ]
    );
}

#[test]
fn jump_patch_encodes_the_relative_jump() {
    assert_eq!(jump_patch(0x1000, 0x800), [0xe9, 0xfb, 0x07, 0x00, 0x00]);
    assert_eq!(jump_patch(0x800, 0x1000), [0xe9, 0xfb, 0xf7, 0xff, 0xff]);
}

#[test]
fn jump_patch_lands_at_its_target() {
    let (target, at) = (0x0040_1234u32, 0x0063_0000u32);
    let p = jump_patch(target, at);
    let rel = u32::from_le_bytes([p[1], p[2], p[3], p[4]]);
    assert_eq!(at.wrapping_add(5).wrapping_add(rel), target);
}

#[test]
fn call_displacement_is_relative_to_the_next_instruction() {
    assert_eq!(call_displacement(0x1000, 0x801), 0x7fb);
    assert_eq!(call_displacement(0x800, 0x1001), 0xffff_f7fb);
}
