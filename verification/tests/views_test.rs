use cdda_render::actions::GameAction;
use cdda_render::craft_view::{empty_recipe_list_text, item_info_placeholder};
use cdda_render::craft_view::{active_tab, category_tab_style, TabFill, TOP_TAB_ZONE};
use cdda_render::registry::RowInk;
use cdda_render::dev_spawn::spawn_detail_placeholder;
use cdda_render::craft_view::{crafting_filter_text, highlighted_row, recipe_detail_lines, recipe_id_cell, recipe_row_label};
use cdda_render::crafting::CraftEntry;
use cdda_render::overmap::{camera_command, hover_info_text, next_level, CameraCommand};
use cdda_render::overmap::{cell_position, describe_flags, tile_class, tile_glyph, TerrainFlags, TileClass};
use cdda_render::screens::{render_viewport, world_status_text, Placement, WorldView, VIEW_COLS, VIEW_ROWS};
use cdda_render::screens::{status_text_with_items, FloorItem};
use cdda_render::screens::{loading_detail, loading_heading, notice_visible, progress_line, progress_text, ProgressLine};
use cdda_render::screens::{footer_hints, loading_input, omt_symbol, worldgen_status_text, OperationCommand};

fn entry(craftable: bool, count: u32) -> CraftEntry {
    CraftEntry {
        recipe: 1,
        recipe_key: "knife_steel".into(),
        result_id: "knife_steel".into(),
        result_name: "steel knife".into(),
        result_count: count,
        craftable,
        reason: "missing steel".into(),
        time_turns: 30,
        components_text: vec!["  steel x2".into()],
        qualities_text: vec![],
    }
}

#[test]
fn recipe_rows_and_details() {
    assert_eq!(recipe_row_label(&entry(true, 1)), "[+] steel knife");
    assert_eq!(recipe_row_label(&entry(false, 3)), "[-] steel knife  x3");
    assert_eq!(recipe_id_cell(&entry(true, 1)), "  [knife_steel]");
    assert_eq!(highlighted_row(7, 3), 2);
    assert_eq!(highlighted_row(7, 0), 0);
    assert_eq!(
        recipe_detail_lines(Some(&entry(false, 2)), &Some("Crafted: knife".into())),
        vec![
            "steel knife  x2".to_string(),
            "[knife_steel]".to_string(),
            "Time: 30 turns".to_string(),
            "Components:".to_string(),
            "  steel x2".to_string(),
            "Cannot craft: missing steel".to_string(),
            "Crafted: knife".to_string(),
        ]
    );
    let mut bare = entry(true, 1);
    bare.components_text.clear();
    bare.qualities_text = vec!["  cutting 2".into()];
    bare.time_turns = 0;
    assert_eq!(
        recipe_detail_lines(Some(&bare), &None),
        vec![
            "steel knife".to_string(),
            "[knife_steel]".to_string(),
            "Craftable: YES".to_string(),
            "Components:".to_string(),
            "  (none)".to_string(),
            "Tool qualities:".to_string(),
            "  cutting 2".to_string(),
        ]
    );
    assert_eq!(recipe_detail_lines(None, &None), vec!["Select a recipe".to_string()]);
    assert_eq!(crafting_filter_text("kn", true), "Filter: kn_");
    assert_eq!(crafting_filter_text("", false), "[/] to filter");
}

#[test]
fn overmap_glyphs_classes_and_flags() {
    let mut f = TerrainFlags::default();
    assert_eq!(tile_glyph(true, &f, Some("field")), " ");
    assert_eq!(tile_glyph(false, &f, Some("field")), "f");
    assert_eq!(tile_glyph(false, &f, None), "?");
    assert_eq!(describe_flags(&f), "field");
    assert_eq!(tile_class(false, false, &f), TileClass::Field);
    f.road = true;
    f.forest = true;
    f.line_drawing = true;
    assert_eq!(tile_glyph(false, &f, Some("road")), "#");
    assert_eq!(describe_flags(&f), "road, forest, line");
    assert_eq!(tile_class(false, false, &f), TileClass::Road);
    assert_eq!(tile_class(true, false, &f), TileClass::Center);
    let water = TerrainFlags { lake: true, forest: true, ..TerrainFlags::default() };
    assert_eq!(tile_glyph(false, &water, None), "~");
    assert_eq!(tile_class(false, false, &water), TileClass::Lake);
    assert_eq!(cell_position((-30, 20), 0, 0), (-30, 60));
    assert_eq!(cell_position((-30, 20), 60, 40), (30, 20));
}

#[test]
fn menu_texts_and_loading_commands() {
    assert_eq!(
        loading_input(&[GameAction::Confirm, GameAction::Cancel, GameAction::Wait], false),
        vec![OperationCommand::ReturnToMenu]
    );
    assert_eq!(loading_input(&[GameAction::Confirm], true), vec![OperationCommand::Retry]);
    assert_eq!(worldgen_status_text(-3, 4, 0), "Pos: (-3, 4, z=0) | Building: n/a | Bubbles: n/a | Placements: n/a");
    assert_eq!(omt_symbol("house_01"), 'h');
    assert_eq!(omt_symbol(""), '?');
}

#[test]
fn footers_list_close_then_each_action() {
    assert_eq!(footer_hints("Esc", &vec![]), "[Esc] close");
    assert_eq!(
        footer_hints("Esc", &vec![("/".into(), "filter".into()), ("Enter".into(), "spawn".into())]),
        "[Esc] close  [/] filter  [Enter] spawn"
    );
}

#[test]
fn world_view_text() {
    let w = WorldView {
        placements: vec![((2, 0, 0), Placement { building_id: "barn".into(), omt_id: "barn_0_north".into() })],
        bubbles: vec![(1, 0, 0), (0, 1, 0), (0, 1, 1)],
    };
    let text = render_viewport(&w, 0, 0, 0);
    let lines: Vec<&str> = text.split('\n').collect();
    assert_eq!(lines.len(), VIEW_ROWS + 2);
    assert_eq!(lines[0], format!("+{}+", "=".repeat(VIEW_COLS)));
    assert_eq!(lines[VIEW_ROWS + 1], lines[0]);
    // Row 12 holds y = 0; column 20 holds x = 0.
    let row: Vec<char> = lines[1 + 12].chars().collect();
    assert_eq!(row.len(), VIEW_COLS + 2);
    assert_eq!(row[1 + 20], '@');
    assert_eq!(row[1 + 21], '.');
    assert_eq!(row[1 + 22], 'b');
    assert_eq!(row[1 + 19], ' ');
    assert_eq!(lines[1 + 13].chars().nth(1 + 20), Some('.'));
    assert_eq!(
        world_status_text(&w, 2, 0, 0),
        "Pos: (2, 0, z=0) | Building: barn (omt: barn_0_north) | Bubbles: 3 | Placements: 1 | Arrows: move | </>: z-level | Esc: back"
    );
    assert_eq!(
        world_status_text(&w, 5, -1, 0),
        "Pos: (5, -1, z=0) | Building: none | Bubbles: 3 | Placements: 1 | Arrows: move | </>: z-level | Esc: back"
    );
}

#[test]
fn overmap_camera_pans_and_changes_level_by_one() {
    assert_eq!(camera_command(GameAction::NavigateUp), CameraCommand::Pan(0, -1));
    assert_eq!(camera_command(GameAction::NavigateDown), CameraCommand::Pan(0, 1));
    assert_eq!(camera_command(GameAction::NavigateLeft), CameraCommand::Pan(-1, 0));
    assert_eq!(camera_command(GameAction::NavigateRight), CameraCommand::Pan(1, 0));
    assert_eq!(camera_command(GameAction::Custom(1)), CameraCommand::Ascend);
    assert_eq!(camera_command(GameAction::Custom(2)), CameraCommand::Descend);
    assert_eq!(camera_command(GameAction::Custom(3)), CameraCommand::Ignore);
    assert_eq!(camera_command(GameAction::Cancel), CameraCommand::Ignore);
    assert_eq!(next_level(0, CameraCommand::Ascend), 1);
    assert_eq!(next_level(0, CameraCommand::Descend), -1);
    assert_eq!(next_level(i8::MAX, CameraCommand::Ascend), i8::MAX);
    assert_eq!(next_level(i8::MIN, CameraCommand::Descend), i8::MIN);
    assert_eq!(next_level(5, CameraCommand::Pan(1, 0)), 5);
}

#[test]
fn hovered_tile_info_lists_position_terrain_and_seed() {
    let text = hover_info_text(-3, 12, -1, "forest", 42, "forest", (0, -1), 12345);
    assert_eq!(
        text,
        "Tile: (-3, 12, -1)\nTerrain: forest\nType ID: 42\nFlags: forest\nOvermap: (0, -1)\nSeed: 12345"
    );
}

fn floor_item(x: i32, y: i32, z: i32, name: Option<&str>, volume: Option<u32>) -> FloorItem {
    FloorItem { position: (x, y, z), name: name.map(|n| n.to_string()), volume_ml: volume }
}

#[test]
fn item_status_lists_the_ground_of_the_map_tile_and_the_inventory() {
    let ground = vec![
        floor_item(24, 48, 0, Some("rock"), Some(500)),
        floor_item(47, 71, 0, None, Some(1500)),
        floor_item(48, 48, 0, Some("stick"), Some(9000)),
        floor_item(30, 50, 1, Some("roof tile"), Some(9000)),
        floor_item(25, 49, 0, Some("pebble"), None),
        floor_item(-1, 48, 0, Some("west"), Some(9000)),
    ];
    let inventory = vec![Some("knife".to_string()), None];
    let text = status_text_with_items(1, 2, 0, &ground, 24, 4000, &inventory, Some((1, 2)));
    assert_eq!(
        text,
        "Pos: (1, 2, z=0) | Building: n/a | Bubbles: n/a | Placements: n/a\nHere: rock, ?, pebble  [floor 2/4 L (50%)]\nInv: ?:knife ?:?  [1/2 hands used]\nArrows:move | g:pickup | d:drop | Esc:back"
    );
    let empty = status_text_with_items(-1, 2, 0, &ground, 24, 0, &vec![], None);
    assert_eq!(
        empty,
        "Pos: (-1, 2, z=0) | Building: n/a | Bubbles: n/a | Placements: n/a\nHere: west  [floor 9/0 L (900000%)]\nInv: empty  [? hands]\nArrows:move | g:pickup | d:drop | Esc:back"
    );
}

#[test]
fn empty_lists_and_panels_show_placeholders() {
    assert_eq!(empty_recipe_list_text(0), Some("No recipes in this category."));
    assert_eq!(empty_recipe_list_text(3), None);
    assert_eq!(item_info_placeholder(false), Some("Item info"));
    assert_eq!(item_info_placeholder(true), None);
    assert_eq!(spawn_detail_placeholder(false), Some("Select an item"));
    assert_eq!(spawn_detail_placeholder(true), None);
}

#[test]
fn loading_screen_reports_progress_and_recent_problems() {
    assert_eq!(loading_heading(false), "PREPARING YOUR WORLD");
    assert_eq!(loading_heading(true), "UNABLE TO PREPARE WORLD");
    assert_eq!(progress_line(true, true, true, Some((1, 2))), ProgressLine::Stopped);
    assert_eq!(progress_line(false, true, true, None), ProgressLine::Cancelled);
    assert_eq!(progress_line(false, false, true, None), ProgressLine::Complete);
    assert_eq!(progress_line(false, false, false, Some((3, 10))), ProgressLine::Units(3, 10));
    assert_eq!(progress_line(false, false, false, Some((3, 0))), ProgressLine::Working);
    assert_eq!(progress_text(ProgressLine::Stopped), Some("Stopped · see diagnostics above"));
    assert_eq!(progress_text(ProgressLine::Working), Some("Working · total not yet known"));
    assert_eq!(progress_text(ProgressLine::Units(1, 2)), None);
    let mut history: Vec<(bool, String)> = (0..8).map(|i| (true, format!("problem {i}"))).collect();
    history.insert(7, (false, "fine".to_string()));
    let text = loading_detail("Reading JSON", "items.json", "2 errors", &history, true);
    assert_eq!(
        text,
        "Reading JSON\nitems.json\n2 errors\nproblem 7\nproblem 6\nproblem 5\nproblem 4\nproblem 3\nproblem 2\nFix the reported data and retry, or return to the menu."
    );
    assert_eq!(loading_detail("Parsing", "items", "ok", &vec![], false), "Parsing\nitems\nok");
    assert!(notice_visible(false, Some(true)));
    assert!(!notice_visible(true, Some(true)));
    assert!(!notice_visible(false, Some(false)));
    assert!(!notice_visible(false, None));
}

#[test]
fn crafting_tabs_highlight_the_active_tab_by_focus_zone() {
    assert_eq!(active_tab(7, 3), 2);
    assert_eq!(active_tab(1, 3), 1);
    assert_eq!(active_tab(4, 0), 0);
    assert_eq!(category_tab_style(false, 1, 1, TOP_TAB_ZONE), (TabFill::Selection, RowInk::Accent));
    assert_eq!(category_tab_style(false, 1, 1, 0), (TabFill::Raised, RowInk::Accent));
    assert_eq!(category_tab_style(false, 0, 1, TOP_TAB_ZONE), (TabFill::Clear, RowInk::Muted));
    assert_eq!(category_tab_style(true, 2, 2, 0), (TabFill::Selection, RowInk::Text));
    assert_eq!(category_tab_style(true, 0, 2, 2), (TabFill::Clear, RowInk::Muted));
}
