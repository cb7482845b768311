use cdda_render::tiles::{classify_tile_file, index_png, loads_sheet, TileFile};
use cdda_render::json::{JsonNumber, JsonValue};
use cdda_render::tiles::{
    asset_path, extract_ids, parse_sheet_defs, sheet_defs_of, primary_sprite_name, sheet_dir, strip_omt_suffix,
    SheetDef, TileInfo, TileRegistry,
};

fn info(image: &str, w: u32) -> TileInfo {
    TileInfo { image: image.into(), sprite_width: w, sprite_height: w, cdda_offset_x: 0, cdda_offset_y: 0 }
}

#[test]
fn omt_suffixes_are_stripped_as_documented() {
    assert_eq!(strip_omt_suffix("barn_0_south").as_deref(), Some("barn"));
    assert_eq!(strip_omt_suffix("abstorefront_1").as_deref(), Some("abstorefront"));
    assert_eq!(strip_omt_suffix("2storyModern01_1_north").as_deref(), Some("2storyModern01"));
    assert_eq!(strip_omt_suffix("house_w").as_deref(), Some("house"));
    assert_eq!(strip_omt_suffix("field"), None);
    assert_eq!(strip_omt_suffix("road_ns"), None);
}

#[test]
fn sheet_files_map_to_directories() {
    assert_eq!(sheet_dir("normal.png"), Some("pngs_normal_32x32"));
    assert_eq!(sheet_dir("fillergiant.png"), Some("pngs_fillergiant_96x96"));
    assert_eq!(sheet_dir("fallback.png"), None);
}

fn s(v: &str) -> JsonValue {
    JsonValue::String(v.into())
}

fn weighted(weight: i64, sprite: &str) -> JsonValue {
    JsonValue::Object(vec![
        ("sprite".into(), s(sprite)),
        ("weight".into(), JsonValue::Number(if weight >= 0 { JsonNumber::PosInt(weight as u64) } else { JsonNumber::NegInt(weight) })),
    ])
}

#[test]
fn primary_sprites_and_ids() {
    assert_eq!(primary_sprite_name(&s("t_grass")).as_deref(), Some("t_grass"));
    assert_eq!(primary_sprite_name(&s("")), None);
    assert_eq!(primary_sprite_name(&JsonValue::Array(vec![s("a"), s("b")])).as_deref(), Some("a"));
    assert_eq!(
        primary_sprite_name(&JsonValue::Array(vec![weighted(1, "x"), weighted(5, "y"), weighted(5, "z")])).as_deref(),
        Some("z")
    );
    assert_eq!(primary_sprite_name(&JsonValue::Array(vec![])), None);
    assert_eq!(extract_ids(&s("t_dirt")), vec!["t_dirt".to_string()]);
    assert_eq!(extract_ids(&JsonValue::Array(vec![s("a"), JsonValue::Null, s("b")])), vec!["a".to_string(), "b".to_string()]);
    assert!(extract_ids(&JsonValue::Bool(true)).is_empty());
}

#[test]
fn sheet_definitions_use_defaults_and_skip_unknown_files() {
    let text = r#"[{"width": 32, "height": 32},
        {"normal.png": {}, "tall.png": {"sprite_height": 64, "sprite_offset_y": -32}, "fallback.png": {}, "mystery.png": {}},
        {"filler.png": {"filler": true}}]"#;
    let defs = parse_sheet_defs(text);
    assert_eq!(defs.len(), 3);
    assert_eq!(defs[0].dir_name, "pngs_normal_32x32");
    assert_eq!((defs[0].sprite_width, defs[0].sprite_height), (32, 32));
    assert_eq!(defs[1].dir_name, "pngs_tall_32x64");
    assert_eq!((defs[1].sprite_height, defs[1].offset_y), (64, -32));
    assert!(defs[2].is_filler);
    assert!(parse_sheet_defs("not json").is_empty());
}

#[test]
fn registry_falls_back_through_omt_suffixes() {
    let mut reg = TileRegistry::new(info("fallback.png", 32));
    reg.insert("barn".into(), info("gfx/barn.png", 32));
    assert!(reg.has_tile("barn_0_south"));
    assert_eq!(reg.tile_for("barn_0_south"), "gfx/barn.png");
    assert!(!reg.has_tile("shed"));
    assert_eq!(reg.overmap_tile("shed"), "fallback.png");
    reg.insert("barn".into(), info("gfx/barn_large.png", 64));
    assert_eq!(reg.tile_info("barn").sprite_width, 64);
}

#[test]
fn asset_paths_start_at_gfx() {
    assert_eq!(asset_path("/home/u/game/gfx/Ultimate/pngs/a.png").as_deref(), Some("gfx/Ultimate/pngs/a.png"));
    assert_eq!(asset_path("/tmp/a.png"), None);
}

#[test]
fn manifests_register_every_id_of_every_entry() {
    let sheet = SheetDef { dir_name: "pngs_normal_32x32".into(), sprite_width: 32, sprite_height: 32, offset_x: 0, offset_y: 0, is_filler: false };
    let index = vec![("t_grass".to_string(), "/x/gfx/t/t_grass.png".to_string())];
    let mut reg = TileRegistry::new(info("fallback.png", 32));
    reg.ingest_manifest(r#"[{"id": ["t_grass", "t_grass_long"], "fg": "t_grass"}, {"id": "t_dirt", "fg": "missing"}]"#, &sheet, &index);
    assert_eq!(reg.tile_for("t_grass_long"), "gfx/t/t_grass.png");
    assert!(!reg.has_tile("t_dirt"));
    reg.ingest_manifest(r#"{"id": "t_shrub", "fg": ["t_grass"]}"#, &sheet, &index);
    assert!(reg.has_tile("t_shrub"));
    reg.ingest_parsed_manifest(&None, &sheet, &index);
    assert!(reg.has_tile("t_shrub"));
    assert!(!reg.has_tile("t_rock"));
}

#[test]
fn later_sheets_overwrite_earlier_ones() {
    let small = SheetDef { dir_name: "pngs_small_16x16".into(), sprite_width: 16, sprite_height: 16, offset_x: 0, offset_y: 0, is_filler: false };
    let large = SheetDef { dir_name: "pngs_large_64x64".into(), sprite_width: 64, sprite_height: 64, offset_x: 0, offset_y: -32, is_filler: false };
    let index = vec![
        ("t_tree".to_string(), "/x/gfx/s/t_tree.png".to_string()),
        ("t_wall".to_string(), "/x/gfx/s/t_wall.png".to_string()),
    ];
    let mut reg = TileRegistry::new(info("fallback.png", 32));
    reg.ingest_manifest(r#"[{"id": "t_tree", "fg": "t_tree"}, {"id": "t_wall", "fg": "t_wall"}]"#, &small, &index);
    reg.ingest_manifest(r#"[{"id": "t_tree", "fg": "t_tree"}]"#, &large, &index);
    assert_eq!(reg.tile_info("t_tree").sprite_width, 64);
    assert_eq!(reg.tile_info("t_tree").cdda_offset_y, -32);
    assert_eq!(reg.tile_info("t_wall").sprite_width, 16);
    let mut fresh = TileRegistry::new(info("fallback.png", 32));
    fresh.insert("t_rock".into(), info("gfx/rock.png", 32));
    assert!(fresh.has_tile("t_rock"));
    assert_eq!(fresh.tile_for("t_rock"), "gfx/rock.png");
}

#[test]
fn tileset_files_are_classified_by_extension() {
    assert_eq!(classify_tile_file("t_grass.png"), TileFile::Png("t_grass".into()));
    assert_eq!(classify_tile_file("a.b.png"), TileFile::Png("a.b".into()));
    assert_eq!(classify_tile_file("tile_config.json"), TileFile::Manifest);
    assert_eq!(classify_tile_file(".png"), TileFile::Other);
    assert_eq!(classify_tile_file("README"), TileFile::Other);
    assert_eq!(classify_tile_file("notes.txt"), TileFile::Other);
    let mut index = Vec::new();
    index_png(&mut index, "t_grass".into(), "/a/t_grass.png".into());
    index_png(&mut index, "t_grass".into(), "/b/t_grass.png".into());
    index_png(&mut index, "t_dirt".into(), "/b/t_dirt.png".into());
    assert_eq!(index, vec![("t_grass".to_string(), "/a/t_grass.png".to_string()), ("t_dirt".to_string(), "/b/t_dirt.png".to_string())]);
    let filler = SheetDef { dir_name: "pngs_filler".into(), sprite_width: 32, sprite_height: 32, offset_x: 0, offset_y: 0, is_filler: true };
    assert!(!loads_sheet(&filler));
}

#[test]
fn text_that_is_not_json_defines_nothing() {
    assert!(sheet_defs_of(&None).is_empty());
}
