use cdda_render::json::{JsonNumber, JsonValue};
use cdda_render::registry::{
    category_row_label, check_consistency, detail_texts, fixture, pane_name, press,
    raw_type_key_for_field, refresh_registry_catalog, registry_counter, registry_heading,
    registry_input, scroll_window, status_tone, KeyCode, RegistryCatalog, RegistryCategoryData,
    RegistryEntry, RegistryKeys, RegistryViewerState, StatusTone, FIXTURE_ENTRIES,
};
use cdda_render::registry::{collect_token_categories, definition_categories, DefinitionRegistry, DefinitionSource, MapgenSource};
use cdda_render::registry::{empty_list_text, pane_is_active, registry_row_style, RowFill, RowInk};
use cdda_render::registry::{consistency_status, refresh_categories, round_trip_holds};
use cdda_render::registry::{definition_entry, format_parsed_fields, mapgen_entry};
use cdda_render::registry::{def_world_kind, stale_definition_entry, DefComponents};
use cdda_render::registry::{children, mapgen_status, registry_category, texts, token_entry, UiNode, UiTree};

#[test]
fn pane_ids_are_ordered() {
    assert_eq!(RegistryViewerState::PANE_CATEGORY, 0);
    assert_eq!(RegistryViewerState::PANE_ENTRY, 1);
    assert_eq!(RegistryViewerState::PANE_RAW, 2);
    assert_eq!(RegistryViewerState::PANE_PARSED, 3);
    assert_eq!(RegistryViewerState::PANE_COUNT, 4);
}

#[test]
fn pane_names_report_each_pane() {
    assert_eq!(pane_name(RegistryViewerState::PANE_CATEGORY), "categories");
    assert_eq!(pane_name(RegistryViewerState::PANE_ENTRY), "entries");
    assert_eq!(pane_name(RegistryViewerState::PANE_RAW), "raw JSON");
    assert_eq!(pane_name(RegistryViewerState::PANE_PARSED), "parsed");
}

#[test]
fn scroll_window_zero_is_identity() {
    let t = "a\nb\nc";
    assert_eq!(scroll_window(t, 0), t);
}

#[test]
fn scroll_window_skips_lines() {
    let t = "a\nb\nc";
    assert_eq!(scroll_window(t, 1), "b\nc");
    assert_eq!(scroll_window(t, 2), "c");
}

#[test]
fn scroll_window_clamps_to_end() {
    assert_eq!(scroll_window("only", 5), "");
}

#[test]
fn scroll_window_drops_line_endings_like_lines() {
    assert_eq!(scroll_window("a\r\nb\r\nc\n", 1), "b\nc");
    assert_eq!(scroll_window("a\n\nb", 1), "\nb");
    assert_eq!(scroll_window("a\nb\n", 2), "");
    assert_eq!(scroll_window("", 1), "");
}

fn entry(id: &str) -> RegistryEntry {
    RegistryEntry {
        id: id.to_string(),
        raw_json: String::new(),
        parsed_fields: format!("SkillId({id})"),
        status: "derived (token)".to_string(),
    }
}

fn catalog_with_skills(ids: &[&str]) -> RegistryCatalog {
    RegistryCatalog {
        categories: vec![
            RegistryCategoryData { name: "Items".into(), count: 0 },
            RegistryCategoryData { name: "Skills (Token)".into(), count: ids.len() },
        ],
        all_entries: vec![vec![], ids.iter().map(|i| entry(i)).collect()],
    }
}

#[test]
fn registry_source_refresh_tracks_token_changes_and_removal_by_stable_identity() {
    let mut catalog: Option<RegistryCatalog> = None;
    let mut state = RegistryViewerState::default();
    refresh_registry_catalog(&mut catalog, &mut state, catalog_with_skills(&["z"]));
    let category = catalog
        .as_ref()
        .unwrap()
        .categories
        .iter()
        .position(|c| c.name == "Skills (Token)")
        .unwrap();
    state.category_index = category;
    refresh_registry_catalog(&mut catalog, &mut state, catalog_with_skills(&["a", "z"]));
    let model = catalog.as_ref().unwrap();
    assert_eq!(model.all_entries[state.category_index][state.entry_index].id, "z");
    assert_eq!(state.entry_index, 1);
    refresh_registry_catalog(&mut catalog, &mut state, catalog_with_skills(&[]));
    assert_eq!(state.entry_index, 0);
    assert!(catalog.as_ref().unwrap().all_entries[category].is_empty());
}

#[test]
fn registry_navigation_retains_labels_and_headers_and_clears_empty_details() {
    let (catalog, mut state) = fixture();
    press(&catalog, &mut state, KeyCode::ArrowDown);
    assert_eq!(state.entry_index, 1);
    assert!(detail_texts(&catalog, &state, true).iter().any(|s| s.contains("item_1")));
    press(&catalog, &mut state, KeyCode::Tab);
    assert_eq!(state.pane, RegistryViewerState::PANE_RAW);
    assert_eq!(state.entry_index, 1);
    state.pane = RegistryViewerState::PANE_ENTRY;
    press(&catalog, &mut state, KeyCode::End);
    assert_eq!(state.entry_index, 39_999);
    press(&catalog, &mut state, KeyCode::ArrowRight);
    assert_eq!(state.category_index, 1);
    assert_eq!(state.entry_index, 0);
    assert!(detail_texts(&catalog, &state, true).contains(&"Select an entry".to_string()));
    assert!(!detail_texts(&catalog, &state, true).iter().any(|s| s.contains("item_39999")));
    press(&catalog, &mut state, KeyCode::ArrowLeft);
    assert_eq!(state.category_index, 0);
    assert_eq!(catalog.all_entries[state.category_index][state.entry_index].id, "item_0");
}

#[test]
fn fixture_holds_the_sample_catalog() {
    let (catalog, state) = fixture();
    assert_eq!(catalog.categories.len(), 2);
    assert_eq!(catalog.categories[0], RegistryCategoryData { name: "Items".into(), count: FIXTURE_ENTRIES });
    assert_eq!(catalog.categories[1], RegistryCategoryData { name: "Empty".into(), count: 0 });
    assert_eq!(catalog.all_entries[0].len(), 40_000);
    assert_eq!(
        catalog.all_entries[0][123],
        RegistryEntry {
            id: "item_123".into(),
            raw_json: "{\"id\":\"item_123\"}".into(),
            parsed_fields: "Item 123".into(),
            status: "round-trip ok".into(),
        }
    );
    assert!(catalog.all_entries[1].is_empty());
    assert_eq!(state, RegistryViewerState { category_index: 0, entry_index: 0, pane: 1 });
}

#[test]
fn category_pane_wraps_and_pages() {
    let (catalog, mut state) = fixture();
    state.pane = RegistryViewerState::PANE_CATEGORY;
    press(&catalog, &mut state, KeyCode::ArrowUp);
    assert_eq!(state.category_index, 1);
    press(&catalog, &mut state, KeyCode::ArrowDown);
    assert_eq!(state.category_index, 0);
    press(&catalog, &mut state, KeyCode::PageDown);
    assert_eq!(state.category_index, 1);
    press(&catalog, &mut state, KeyCode::PageUp);
    assert_eq!(state.category_index, 0);
    press(&catalog, &mut state, KeyCode::End);
    assert_eq!(state.category_index, 1);
    press(&catalog, &mut state, KeyCode::Home);
    assert_eq!(state.category_index, 0);
}

#[test]
fn entry_pane_pages_by_thirty_and_stops_at_the_ends() {
    let (catalog, mut state) = fixture();
    press(&catalog, &mut state, KeyCode::PageDown);
    assert_eq!(state.entry_index, 30);
    press(&catalog, &mut state, KeyCode::PageUp);
    press(&catalog, &mut state, KeyCode::PageUp);
    assert_eq!(state.entry_index, 0);
    press(&catalog, &mut state, KeyCode::ArrowUp);
    assert_eq!(state.entry_index, 0);
    press(&catalog, &mut state, KeyCode::End);
    press(&catalog, &mut state, KeyCode::ArrowDown);
    assert_eq!(state.entry_index, 39_999);
}

#[test]
fn shift_tab_undoes_tab_and_detail_panes_toggle() {
    let (catalog, mut state) = fixture();
    let start = state;
    let mut back = RegistryKeys::pressed(KeyCode::Tab);
    back.shift = true;
    press(&catalog, &mut state, KeyCode::Tab);
    registry_input(&back, &catalog, &mut state);
    assert_eq!(state, start);
    registry_input(&back, &catalog, &mut state);
    assert_eq!(state.pane, RegistryViewerState::PANE_CATEGORY);
    state.pane = RegistryViewerState::PANE_RAW;
    press(&catalog, &mut state, KeyCode::ArrowRight);
    assert_eq!(state.pane, RegistryViewerState::PANE_PARSED);
    press(&catalog, &mut state, KeyCode::ArrowLeft);
    assert_eq!(state.pane, RegistryViewerState::PANE_RAW);
}

#[test]
fn shift_alone_and_escape_change_nothing() {
    let (catalog, mut state) = fixture();
    let start = state;
    press(&catalog, &mut state, KeyCode::ShiftLeft);
    press(&catalog, &mut state, KeyCode::Escape);
    assert_eq!(state, start);
}

#[test]
fn title_counter_rows_and_details_show_the_selection() {
    let (catalog, mut state) = fixture();
    assert_eq!(registry_heading(&catalog, &state), "DEBUG: REGISTRY VIEWER — Items (40000)");
    assert_eq!(registry_counter(&catalog, &state), "cat 1/2 · pane: entries");
    assert_eq!(category_row_label(&catalog.categories[1]), "Empty  (0)");
    assert_eq!(
        detail_texts(&catalog, &state, false),
        vec!["STATUS: round-trip ok".to_string(), "Item 0".to_string()]
    );
    assert_eq!(detail_texts(&catalog, &state, true), vec!["{\"id\":\"item_0\"}".to_string()]);
    state.category_index = 5;
    assert_eq!(registry_heading(&catalog, &state), "DEBUG: REGISTRY VIEWER");
    let empty = RegistryCatalog::default();
    assert_eq!(registry_counter(&empty, &RegistryViewerState::default()), "cat 0/0 · pane: categories");
}

#[test]
fn empty_raw_and_parsed_texts_have_notes() {
    let catalog = RegistryCatalog {
        categories: vec![RegistryCategoryData { name: "C".into(), count: 1 }],
        all_entries: vec![vec![RegistryEntry {
            id: "x".into(),
            raw_json: String::new(),
            parsed_fields: String::new(),
            status: "no source JSON".into(),
        }]],
    };
    let state = RegistryViewerState::default();
    assert_eq!(
        detail_texts(&catalog, &state, true),
        vec!["No raw JSON available\n(possibly saved with a different type key)".to_string()]
    );
    assert_eq!(
        detail_texts(&catalog, &state, false),
        vec!["STATUS: no source JSON".to_string(), "No parsed fields available".to_string()]
    );
}

#[test]
fn status_tones_follow_the_status_text() {
    assert_eq!(status_tone("round-trip ok · missing 1 key(s) · extra 0 key(s) · ⚠ DROPPED-FIELDS"), StatusTone::Warning);
    assert_eq!(status_tone("round-trip ok"), StatusTone::Good);
    assert_eq!(status_tone("mapgen present"), StatusTone::Neutral);
}

#[test]
fn raw_type_keys_map_fields_and_pass_others_through() {
    assert_eq!(raw_type_key_for_field("items"), "ITEM");
    assert_eq!(raw_type_key_for_field("monster_groups"), "monstergroup");
    assert_eq!(raw_type_key_for_field("end_screens"), "end_screen");
    assert_eq!(raw_type_key_for_field("Items"), "ITEM");
    assert_eq!(raw_type_key_for_field("Ter/Furn Transforms"), "ter_furn_transform");
    assert_eq!(raw_type_key_for_field("Item Migrations"), "MIGRATION");
    assert_eq!(raw_type_key_for_field("unknown_field"), "unknown_field");
}

fn object(keys: &[&str]) -> JsonValue {
    JsonValue::Object(keys.iter().map(|k| (k.to_string(), JsonValue::Number(JsonNumber::PosInt(1)))).collect())
}

#[test]
fn consistency_counts_missing_and_extra_keys() {
    let raw = object(&["id", "name", "weight"]);
    let parsed = object(&["id", "name", "volume", "price"]);
    assert_eq!(
        check_consistency(true, &parsed, &raw),
        "round-trip ok · missing 1 key(s) · extra 2 key(s) · ⚠ DROPPED-FIELDS"
    );
    let parsed_all = object(&["id", "name", "weight"]);
    assert_eq!(
        check_consistency(false, &parsed_all, &raw),
        "ROUND-TRIP MISMATCH · missing 0 key(s) · extra 0 key(s)"
    );
    assert_eq!(check_consistency(true, &JsonValue::Null, &raw), "round-trip ok");
}

#[test]
fn widget_texts_are_collected_depth_first() {
    let tree = UiTree {
        nodes: vec![
            UiNode { text: None, children: vec![1, 3] },
            UiNode { text: Some("STATUS: ok".into()), children: vec![2] },
            UiNode { text: Some("inner".into()), children: vec![] },
            UiNode { text: Some("Select an entry".into()), children: vec![] },
        ],
    };
    assert_eq!(children(&tree, 0), vec![1, 3]);
    assert!(children(&tree, 9).is_empty());
    assert_eq!(
        texts(&tree, 0),
        vec!["STATUS: ok".to_string(), "inner".to_string(), "Select an entry".to_string()]
    );
    assert_eq!(texts(&tree, 3), vec!["Select an entry".to_string()]);
    assert!(texts(&tree, 4).is_empty());
}

#[test]
fn token_categories_sort_entries_by_id_and_count_them() {
    let (cat, entries) = registry_category(
        "Skills (Token)",
        vec![token_entry("z", "SkillId", 0), token_entry("a", "SkillId", 1), token_entry("M", "SkillId", 2)],
    );
    assert_eq!(cat, RegistryCategoryData { name: "Skills (Token)".into(), count: 3 });
    let ids: Vec<&str> = entries.iter().map(|e| e.id.as_str()).collect();
    assert_eq!(ids, vec!["M", "a", "z"]);
    assert_eq!(entries[1].parsed_fields, "SkillId(1)");
    assert_eq!(entries[1].status, "derived (token)");
    assert!(entries[1].raw_json.is_empty());
    assert_eq!(mapgen_status(true), "mapgen present");
    assert_eq!(mapgen_status(false), "no source JSON");
}

#[test]
fn definition_world_kinds_follow_component_priority() {
    let none = DefComponents::default();
    assert_eq!(def_world_kind(&none), "unknown");
    let weapon_and_tool = DefComponents { weapon: true, tool: true, ..DefComponents::default() };
    assert_eq!(def_world_kind(&weapon_and_tool), "weapon");
    let armour = DefComponents { armour: true, recipe: true, ..DefComponents::default() };
    assert_eq!(def_world_kind(&armour), "armor");
    let gun_mod = DefComponents { gun_mod: true, ..DefComponents::default() };
    assert_eq!(def_world_kind(&gun_mod), "gunmod");
    let body_part = DefComponents { body_part: true, ..DefComponents::default() };
    assert_eq!(def_world_kind(&body_part), "body_part");
    let stale = stale_definition_entry("Item::knife".to_string());
    assert_eq!(stale.id, "Item::knife");
    assert_eq!(stale.raw_json, "");
    assert_eq!(stale.parsed_fields, "Definition entity is no longer available");
    assert_eq!(stale.status, "stale definition index");
}

#[test]
fn entries_with_the_same_id_keep_their_order() {
    let (cat, entries) = registry_category(
        "Skills (Token)",
        vec![token_entry("b", "SkillId", 0), token_entry("a", "SkillId", 1), token_entry("b", "SkillId", 2), token_entry("b", "SkillId", 3)],
    );
    assert_eq!(cat.count, 4);
    let fields: Vec<&str> = entries.iter().map(|e| e.parsed_fields.as_str()).collect();
    assert_eq!(fields, vec!["SkillId(1)", "SkillId(0)", "SkillId(2)", "SkillId(3)"]);
}

#[test]
fn definitions_survive_the_serialization_round_trip() {
    let raw = object(&["id", "name", "weight"]);
    let parsed = JsonValue::Object(vec![
        ("id".to_string(), JsonValue::String("knife \"steel\"\n".to_string())),
        ("name".to_string(), JsonValue::Array(vec![JsonValue::Null, JsonValue::Bool(true)])),
        ("price".to_string(), JsonValue::Number(JsonNumber::NegInt(-40))),
        ("volume".to_string(), JsonValue::Number(JsonNumber::Float(serde_json::Number::from_f64(0.25).unwrap()))),
    ]);
    assert!(round_trip_holds(&parsed));
    assert!(round_trip_holds(&JsonValue::Null));
    assert_eq!(
        consistency_status(&parsed, &raw),
        "round-trip ok · missing 1 key(s) · extra 2 key(s) · ⚠ DROPPED-FIELDS"
    );
    assert_eq!(consistency_status(&JsonValue::Bool(false), &raw), "round-trip ok");
}

#[test]
fn categories_list_definitions_then_tokens_then_the_definition_world() {
    let items = registry_category("Items", vec![token_entry("rock", "ItemId", 0)]);
    let skills = registry_category("Skills (Token)", vec![token_entry("melee", "SkillId", 1), token_entry("archery", "SkillId", 2)]);
    let world = registry_category("Definition World", vec![stale_definition_entry("Item::knife".to_string())]);
    let catalog = refresh_categories(vec![items], vec![skills], world);
    let names: Vec<&str> = catalog.categories.iter().map(|c| c.name.as_str()).collect();
    assert_eq!(names, vec!["Items", "Skills (Token)", "Definition World"]);
    let counts: Vec<usize> = catalog.categories.iter().map(|c| c.count).collect();
    assert_eq!(counts, vec![1, 2, 1]);
    assert_eq!(catalog.all_entries.len(), 3);
    assert_eq!(catalog.all_entries[1][0].id, "archery");
    assert_eq!(catalog.all_entries[2][0].status, "stale definition index");
}

fn num(n: u64) -> JsonValue {
    JsonValue::Number(JsonNumber::PosInt(n))
}

#[test]
fn parsed_fields_write_one_line_per_member() {
    let value = JsonValue::Object(vec![
        ("a".to_string(), JsonValue::Null),
        ("b".to_string(), JsonValue::Bool(true)),
        ("c".to_string(), num(5)),
        ("d".to_string(), JsonValue::Number(JsonNumber::Float(serde_json::Number::from_f64(0.5).unwrap()))),
        ("e".to_string(), JsonValue::Number(JsonNumber::NegInt(-7))),
        ("f".to_string(), JsonValue::String("knife".to_string())),
        ("g".to_string(), JsonValue::Array(vec![JsonValue::String("a b".to_string()), num(1), JsonValue::Null, JsonValue::Object(vec![])])),
        ("h".to_string(), JsonValue::Object(vec![("x".to_string(), num(1))])),
    ]);
    assert_eq!(
        format_parsed_fields(&value),
        "a: null\nb: true\nc: 5\nd: 0.5\ne: -7\nf: \"knife\"\ng: [a b, 1, null, {}]\nh: { ... }"
    );
    assert_eq!(format_parsed_fields(&JsonValue::Object(vec![])), "");
    assert_eq!(
        format_parsed_fields(&JsonValue::Array(vec![num(1), JsonValue::String("x".to_string())])),
        "[1,\"x\"]"
    );
}

#[test]
fn long_strings_and_arrays_are_shortened() {
    let ascii: String = "x".repeat(121);
    let wide: String = "é".repeat(100);
    let exact: String = "y".repeat(120);
    let many = JsonValue::Array((0..25).map(num).collect());
    let value = JsonValue::Object(vec![
        ("ascii".to_string(), JsonValue::String(ascii)),
        ("exact".to_string(), JsonValue::String(exact.clone())),
        ("many".to_string(), many),
        ("wide".to_string(), JsonValue::String(wide.clone())),
    ]);
    let expected = format!(
        "ascii: \"{}…\"\nexact: \"{}\"\nmany: [0, 1, 2, 3, 4, 5, 6, 7, 8, 9, 10, 11, 12, 13, 14, 15, 16, 17, 18, 19 … 5 more]\nwide: \"{}…\"",
        "x".repeat(120),
        exact,
        wide
    );
    assert_eq!(format_parsed_fields(&value), expected);
}

#[test]
fn definition_entries_show_source_parsed_fields_and_status() {
    let parsed = object(&["id", "name"]);
    let raw = object(&["id"]);
    let entry = definition_entry("knife".to_string(), &parsed, Some(&raw));
    assert_eq!(entry.id, "knife");
    assert_eq!(entry.raw_json, "{\n  \"id\": 1\n}");
    assert_eq!(entry.parsed_fields, "id: 1\nname: 1");
    assert_eq!(entry.status, "round-trip ok · missing 0 key(s) · extra 1 key(s)");
    let bare = definition_entry("rock".to_string(), &parsed, None);
    assert_eq!(bare.raw_json, "");
    assert_eq!(bare.status, "no source JSON");
    let mapgen = mapgen_entry("house".to_string(), &vec!["{\n  \"a\": 1\n}".to_string(), "{}".to_string()], Some(&raw));
    assert_eq!(mapgen.parsed_fields, "[\n{\n  \"a\": 1\n},\n{}\n]");
    assert_eq!(mapgen.status, "mapgen present");
    assert_eq!(mapgen.raw_json, "{\n  \"id\": 1\n}");
    let empty = mapgen_entry("none".to_string(), &vec![], None);
    assert_eq!(empty.parsed_fields, "[\n\n]");
    assert_eq!(empty.status, "no source JSON");
}

#[test]
fn parsed_fields_keep_one_line_per_key() {
    let value = JsonValue::Object(vec![
        ("desc".to_string(), JsonValue::String("line one\nline two\ttab\r\u{1}".to_string())),
        ("odd\nkey".to_string(), JsonValue::Array(vec![JsonValue::String("a\nb".to_string())])),
    ]);
    let text = format_parsed_fields(&value);
    assert_eq!(text, "desc: \"line one\\nline two\ttab\r\u{1}\"\nodd\\nkey: [a\\nb]");
    assert_eq!(text.split('\n').count(), 2);
}

#[test]
fn parsed_fields_write_keys_as_they_are() {
    let value = JsonValue::Object(vec![
        ("a\tb".to_string(), JsonValue::Null),
        ("n".to_string(), JsonValue::Array(vec![JsonValue::Number(JsonNumber::PosInt(3)), JsonValue::Bool(true)])),
    ]);
    let text = format_parsed_fields(&value);
    let lines: Vec<&str> = text.split('\n').collect();
    assert_eq!(lines, vec!["a\tb: null", "n: [3, true]"]);
}

#[test]
fn list_rows_and_panes_show_the_focus() {
    assert_eq!(registry_row_style(true, 3, 3), (RowFill::Focus, RowInk::Accent));
    assert_eq!(registry_row_style(true, 2, 3), (RowFill::Surface, RowInk::Text));
    assert_eq!(registry_row_style(false, 1, 3), (RowFill::Alternate, RowInk::Muted));
    assert_eq!(registry_row_style(false, 3, 3), (RowFill::Focus, RowInk::Text));
    let state = RegistryViewerState { category_index: 0, entry_index: 0, pane: 2 };
    assert!(pane_is_active(2, &state));
    assert!(!pane_is_active(0, &state));
    assert_eq!(empty_list_text(), "No entries");
}

#[test]
fn refreshing_an_unchanged_catalog_keeps_the_selection() {
    let catalog = RegistryCatalog {
        categories: vec![
            RegistryCategoryData { name: "Items".into(), count: 2 },
            RegistryCategoryData { name: "Monsters".into(), count: 3 },
        ],
        all_entries: vec![
            vec![token_entry("a", "ItemId", 0), token_entry("b", "ItemId", 1)],
            vec![token_entry("x", "MonId", 0), token_entry("y", "MonId", 1), token_entry("z", "MonId", 2)],
        ],
    };
    let mut held = Some(catalog.clone());
    let mut state = RegistryViewerState { category_index: 1, entry_index: 2, pane: 1 };
    refresh_registry_catalog(&mut held, &mut state, catalog.clone());
    assert_eq!(state, RegistryViewerState { category_index: 1, entry_index: 2, pane: 1 });
    refresh_registry_catalog(&mut held, &mut state, catalog);
    assert_eq!(state, RegistryViewerState { category_index: 1, entry_index: 2, pane: 1 });
}

#[test]
fn token_registries_become_sorted_categories_in_order() {
    let skills = vec![("melee".to_string(), 1u32), ("archery".to_string(), 0u32)];
    let items = vec![("rock".to_string(), 7u32)];
    let cats = collect_token_categories(&vec![Some(skills), None, None, None, None, Some(items)]);
    let names: Vec<&str> = cats.iter().map(|c| c.0.name.as_str()).collect();
    assert_eq!(
        names,
        vec!["Skills (Token)", "Ammo Types (Token)", "Body Parts (Token)", "Comestibles (Token)", "Qualities (Token)", "Item Types (Token)"]
    );
    assert_eq!(cats[0].0.count, 2);
    assert_eq!(cats[0].1[0].id, "archery");
    assert_eq!(cats[0].1[0].parsed_fields, "SkillId(0)");
    assert_eq!(cats[1].0.count, 0);
    assert_eq!(cats[5].1[0].parsed_fields, "ItemTypeId(7)");
    assert_eq!(cats[5].1[0].status, "derived (token)");
}

#[test]
fn definition_categories_follow_the_category_table() {
    let items = vec![
        DefinitionSource { id: "rock".into(), parsed: object(&["id"]), raw: Some(object(&["id"])) },
        DefinitionSource { id: "axe".into(), parsed: object(&["id"]), raw: None },
    ];
    let fields = vec![("items".to_string(), items), ("skills".to_string(), vec![])];
    let gens = vec![MapgenSource { id: "house".into(), defs: vec!["{}".into()], raw: None }];
    let registry = DefinitionRegistry { fields, mapgen: gens };
    let cats = definition_categories(Some(&registry));
    assert_eq!(cats.len(), 109);
    assert_eq!(cats[0].0, RegistryCategoryData { name: "Items".into(), count: 2 });
    assert_eq!(cats[0].1[0].id, "axe");
    assert_eq!(cats[0].1[0].status, "no source JSON");
    assert_eq!(cats[0].1[1].status, "round-trip ok · missing 0 key(s) · extra 0 key(s)");
    assert_eq!(cats[1].0, RegistryCategoryData { name: "Monsters".into(), count: 0 });
    assert_eq!(cats[6].0, RegistryCategoryData { name: "Mapgen".into(), count: 1 });
    assert_eq!(cats[6].1[0].parsed_fields, "[\n{}\n]");
    assert_eq!(cats[108].0.name, "End Screens");
}

#[test]
fn no_definition_registry_gives_no_categories() {
    assert!(definition_categories(None).is_empty());
}
