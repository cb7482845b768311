use cdda_render::actions::GameAction;
use cdda_render::crafting::{ContextRequest, TextKey};
use cdda_render::dev_spawn::spawn_target;
use cdda_render::dev_spawn::{
    dev_spawn_input, dev_spawn_populate, sort_catalog, spawn_count_text, spawn_empty_text, spawn_filter_text,
    DevCatalogEntry, DevSpawnCatalog, DevSpawnFocus, SpawnFilter,
};

fn item(entity: u64, name: &str, id: &str) -> DevCatalogEntry {
    DevCatalogEntry { def_entity: entity, name: name.to_string(), def_id: id.to_string() }
}

#[test]
fn spawn_catalog_refreshes_replaced_definitions_and_preserves_stable_selection() {
    let mut focus = DevSpawnFocus::default();
    let mut catalog = DevSpawnCatalog::default();
    let mut view = SpawnFilter::default();
    let a = item(1, "A", "a");
    let b = item(2, "B", "b");
    dev_spawn_populate(&mut focus, &mut catalog, &mut view, 1, vec![b.clone(), a.clone()]);
    assert_eq!(catalog.entries, vec![a.clone(), b.clone()]);
    focus.index = 1;
    dev_spawn_populate(&mut focus, &mut catalog, &mut view, 1, vec![a.clone(), b.clone()]);
    assert_eq!(focus.index, 1);
    let replacement = item(3, "0B", "b");
    dev_spawn_populate(&mut focus, &mut catalog, &mut view, 2, vec![a.clone(), replacement.clone()]);
    assert_eq!(focus.index, 0);
    assert_eq!(catalog.entries[focus.index].def_entity, 3);
    dev_spawn_populate(&mut focus, &mut catalog, &mut view, 3, vec![a.clone()]);
    assert_eq!(catalog.entries.len(), 1);
    assert_eq!(catalog.entries[focus.index].def_entity, 1);
}

fn big_catalog() -> DevSpawnCatalog {
    DevSpawnCatalog {
        entries: sort_catalog((0..4300).map(|i| item(i, &format!("Item {i}"), &format!("item_{i}"))).collect()),
    }
}

#[test]
fn spawn_filter_navigation_confirm_and_empty_catalog_use_current_membership() {
    let model = big_catalog();
    let mut cache = SpawnFilter::default();
    for _ in 0..3000 {
        cache.update(&model, "item_42", 1);
    }
    assert_eq!(cache.rebuilds, 1);
    cache.update(&model, "item_100", 1);
    assert_eq!(cache.rebuilds, 2);
    cache.update(&model, "item_100", 2);
    assert_eq!(cache.rebuilds, 3);
    let empty = DevSpawnCatalog::default();
    assert_eq!(spawn_empty_text(&empty), "No item definitions");
}

#[test]
fn catalog_sorts_by_name_then_id() {
    let sorted = sort_catalog(vec![
        item(1, "b", "2"),
        item(2, "a", "9"),
        item(3, "b", "1"),
        item(4, "B", "0"),
        item(5, "é", "0"),
    ]);
    let order: Vec<u64> = sorted.iter().map(|e| e.def_entity).collect();
    assert_eq!(order, vec![4, 2, 3, 1, 5]);
}

#[test]
fn filter_matches_names_and_ids_case_insensitively() {
    let catalog = DevSpawnCatalog {
        entries: vec![item(1, "Steel Knife", "knife_steel"), item(2, "Rock", "rock"), item(3, "Pebble", "ROCK_small")],
    };
    let mut cache = SpawnFilter::default();
    cache.update(&catalog, "ROCK", 1);
    assert_eq!(cache.indices, vec![1, 2]);
    cache.update(&catalog, "knife", 2);
    assert_eq!(cache.indices, vec![0]);
    cache.update(&catalog, "", 3);
    assert_eq!(cache.indices, vec![0, 1, 2]);
    cache.update(&catalog, "zzz", 4);
    assert!(cache.indices.is_empty());
    assert_eq!(spawn_empty_text(&catalog), "No matches");
}

#[test]
fn focus_is_clamped_when_the_focused_item_is_gone() {
    let mut focus = DevSpawnFocus::default();
    let mut catalog = DevSpawnCatalog::default();
    let mut view = SpawnFilter::default();
    dev_spawn_populate(&mut focus, &mut catalog, &mut view, 1, vec![item(1, "a", "a"), item(2, "b", "b"), item(3, "c", "c")]);
    focus.index = 2;
    dev_spawn_populate(&mut focus, &mut catalog, &mut view, 2, vec![item(1, "a", "a"), item(2, "b", "b")]);
    assert_eq!(focus.index, 1);
    dev_spawn_populate(&mut focus, &mut catalog, &mut view, 3, vec![]);
    assert_eq!(focus.index, 0);
    assert!(view.indices.is_empty());
}

#[test]
fn count_and_filter_bar_texts() {
    assert_eq!(spawn_count_text(12, 40, ""), "12 items");
    assert_eq!(spawn_count_text(3, 40, "kn"), "3 / 40 items");
    let mut focus = DevSpawnFocus::default();
    assert_eq!(spawn_filter_text(&focus), "[/] to filter");
    focus.filter = "kn".into();
    focus.filtering = true;
    assert_eq!(spawn_filter_text(&focus), "Filter: kn_");
    focus.filtering = false;
    assert_eq!(spawn_filter_text(&focus), "Filter: kn  (Enter=close  Esc=clear)");
}

#[test]
fn spawn_keys_navigate_filter_and_confirm() {
    let catalog = DevSpawnCatalog { entries: vec![item(1, "Apple", "apple"), item(2, "Axe", "axe"), item(3, "Rock", "rock")] };
    let mut focus = DevSpawnFocus::default();
    let mut view = SpawnFilter::default();
    let mut requests = Vec::new();
    let mut spawns = Vec::new();
    dev_spawn_input(&[GameAction::NavigateEnd, GameAction::NavigateDown, GameAction::Confirm], &[], &mut focus, &catalog, &mut view, 1, true, &mut requests, &mut spawns);
    assert_eq!(focus.index, 2);
    assert_eq!(spawns, vec![2]);
    dev_spawn_input(&[GameAction::Filter, GameAction::Confirm], &[], &mut focus, &catalog, &mut view, 1, false, &mut requests, &mut spawns);
    assert!(focus.filtering);
    assert_eq!(requests, vec![ContextRequest::PushTextInput]);
    assert_eq!(spawns, vec![2]);
    dev_spawn_input(&[GameAction::NavigateUp], &[TextKey::Character("A".into()), TextKey::Character("x".into()), TextKey::Enter], &mut focus, &catalog, &mut view, 1, true, &mut requests, &mut spawns);
    assert_eq!(focus.filter, "Ax");
    assert!(!focus.filtering);
    assert_eq!(focus.index, 0);
    assert_eq!(requests, vec![ContextRequest::PushTextInput, ContextRequest::Pop]);
    dev_spawn_input(&[GameAction::NavigatePageDown, GameAction::Confirm], &[], &mut focus, &catalog, &mut view, 1, true, &mut requests, &mut spawns);
    assert_eq!(view.indices, vec![1]);
    assert_eq!(focus.index, 0);
    assert_eq!(spawns, vec![2, 1]);
}

#[test]
fn catalog_entries_with_the_same_name_and_id_keep_their_order() {
    let sorted = sort_catalog(vec![item(8, "rock", "rock"), item(2, "axe", "axe"), item(6, "rock", "rock"), item(7, "rock", "rock")]);
    let order: Vec<u64> = sorted.iter().map(|e| e.def_entity).collect();
    assert_eq!(order, vec![2, 8, 6, 7]);
}

#[test]
fn spawned_items_go_into_the_first_pocket() {
    assert_eq!(spawn_target(1, Some(&vec![7, 8])), 7);
    assert_eq!(spawn_target(1, Some(&vec![])), 1);
    assert_eq!(spawn_target(1, None), 1);
}
