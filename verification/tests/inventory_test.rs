use cdda_render::actions::GameAction;
use cdda_render::inventory::examine_heading;
use cdda_render::inventory::{
    dev_pickup_drop, examine_item_input, inventory_screen_input, item_row_data, item_row_label,
    item_row_style, pocket_items, sort_by_letter, ActionIntent, CarriedItem, GroundItem,
    InventoryFocus, ItemKey, RowStyle,
};

fn key(entity: u64, sim: Option<u64>) -> ItemKey {
    ItemKey { entity, sim_id: sim }
}

#[test]
fn dev_pickup_is_one_stable_intent_near_actor_without_camera_or_side_effects() {
    let far = GroundItem { key: key(1, Some(0)), within_reach: false };
    let other_z = GroundItem { key: key(2, Some(1)), within_reach: false };
    let higher_id = GroundItem { key: key(3, Some(3)), within_reach: true };
    let chosen = GroundItem { key: key(4, Some(2)), within_reach: true };
    let ground = vec![far, other_z, higher_id, chosen];
    let intent = dev_pickup_drop(&[GameAction::Pickup], true, false, &ground, &vec![]);
    assert_eq!(intent, Some(ActionIntent::Pickup { item: 4 }));
    // A pending action survives subsequent input until the sim consumes it.
    assert_eq!(dev_pickup_drop(&[GameAction::Drop], true, true, &ground, &vec![]), None);
}

#[test]
fn dev_drop_uses_lowest_letter_and_emits_no_transfer_or_ap_mutation() {
    let carried = vec![
        CarriedItem { key: key(10, None), letter: 'z' },
        CarriedItem { key: key(11, None), letter: 'a' },
    ];
    assert_eq!(
        dev_pickup_drop(&[GameAction::Drop], true, false, &vec![], &carried),
        Some(ActionIntent::Drop { item: 11 })
    );
}

#[test]
fn inventory_wield_and_stow_only_declare_focused_intents() {
    let mut focus = InventoryFocus::default();
    let mut examined = Vec::new();
    let item = 42;
    let intent = inventory_screen_input(&[GameAction::UseItem], &mut focus, &vec![('a', item)], &vec![], false, &mut examined);
    assert_eq!(intent, Some(ActionIntent::Wield { item }));
    focus.panel = 1;
    let intent = inventory_screen_input(&[GameAction::UseItem], &mut focus, &vec![], &vec![item], false, &mut examined);
    assert_eq!(intent, Some(ActionIntent::Stow { item }));
    assert!(examined.is_empty());
}

#[test]
fn pickup_prefers_items_with_ids_then_entity_bits() {
    let ground = vec![
        GroundItem { key: key(9, None), within_reach: true },
        GroundItem { key: key(7, Some(5)), within_reach: true },
        GroundItem { key: key(3, Some(5)), within_reach: true },
    ];
    assert_eq!(dev_pickup_drop(&[GameAction::Pickup], true, false, &ground, &vec![]), Some(ActionIntent::Pickup { item: 3 }));
    let unreachable = vec![GroundItem { key: key(9, None), within_reach: false }];
    assert_eq!(dev_pickup_drop(&[GameAction::Pickup, GameAction::Wait], true, false, &unreachable, &vec![]), None);
    assert_eq!(dev_pickup_drop(&[GameAction::Pickup], false, false, &ground, &vec![]), None);
    let carried = vec![CarriedItem { key: key(5, None), letter: 'b' }];
    assert_eq!(
        dev_pickup_drop(&[GameAction::Pickup, GameAction::Drop], true, false, &unreachable, &carried),
        Some(ActionIntent::Drop { item: 5 })
    );
}

#[test]
fn inventory_navigation_and_examine() {
    let pockets = vec![('a', 1), ('b', 2), ('c', 3)];
    let mut focus = InventoryFocus::default();
    let mut examined = Vec::new();
    inventory_screen_input(&[GameAction::NavigateEnd, GameAction::NavigateDown, GameAction::Confirm], &mut focus, &pockets, &vec![], false, &mut examined);
    assert_eq!(focus.index, 2);
    assert_eq!(examined, vec![3]);
    inventory_screen_input(&[GameAction::NavigateUp, GameAction::Examine], &mut focus, &pockets, &vec![], false, &mut examined);
    assert_eq!(examined, vec![3, 2]);
    let intent = inventory_screen_input(&[GameAction::UseItem], &mut focus, &pockets, &vec![], true, &mut examined);
    assert_eq!(intent, None);
    inventory_screen_input(&[GameAction::NavigateNextTab], &mut focus, &pockets, &vec![], false, &mut examined);
    assert_eq!(focus, InventoryFocus { panel: 1, index: 0 });
    inventory_screen_input(&[GameAction::Confirm], &mut focus, &pockets, &vec![9], false, &mut examined);
    assert_eq!(examined, vec![3, 2]);
}

#[test]
fn pockets_sort_by_letter_and_skip_wielded_or_listed_items() {
    let in_pockets = vec![('c', 3), ('?', 8)];
    let lettered = vec![('a', 1), ('c', 3), ('b', 2)];
    let list = pocket_items(&in_pockets, &lettered, &vec![2]);
    assert_eq!(list, vec![('?', 8), ('a', 1), ('c', 3)]);
    assert_eq!(sort_by_letter(&vec![('b', 1), ('a', 2), ('b', 0)]), vec![('a', 2), ('b', 1), ('b', 0)]);
}

#[test]
fn item_rows() {
    let row = item_row_data(None, Some("rock".into()), Some("Rock".into()), None, None, None);
    assert_eq!(row.name, "rock");
    assert_eq!(row.qty, 1);
    assert_eq!(row.sym, 'r');
    assert_eq!(row.cdda_id, "");
    let craft = item_row_data(Some("in progress: knife".into()), None, None, Some(3), Some("knife".into()), Some('/'));
    assert_eq!(craft.name, "in progress: knife");
    assert_eq!(craft.sym, '/');
    assert_eq!(craft.craft_display.as_deref(), Some("in progress: knife"));
    let bare = item_row_data(None, None, None, None, None, None);
    assert_eq!((bare.name.as_str(), bare.sym), ("?", '?'));
    assert_eq!(item_row_label('a', "rock", 2), format!("{:<4}  {:<28}  {}", 'a', "rock", 2));
    assert_eq!(item_row_style(true, true), RowStyle::Focused);
    assert_eq!(item_row_style(false, true), RowStyle::Crafting);
}

#[test]
fn examine_keys_declare_once_and_close() {
    let mut examined = Some(5);
    assert_eq!(examine_item_input(&[GameAction::Wait, GameAction::UseItem], &mut examined, true, false, true), (Some(ActionIntent::Stow { item: 5 }), true));
    assert_eq!(examined, None);
    let mut examined = Some(5);
    assert_eq!(examine_item_input(&[GameAction::Drop, GameAction::HotkeyPress('r')], &mut examined, true, true, false), (None, false));
    assert_eq!(examined, Some(5));
    assert_eq!(examine_item_input(&[GameAction::HotkeyPress('r')], &mut examined, true, false, false), (Some(ActionIntent::ResumeCraft { craft: 5 }), true));
    let mut examined = Some(5);
    assert_eq!(examine_item_input(&[GameAction::Cancel, GameAction::Drop], &mut examined, true, false, false), (None, true));
    assert_eq!(examined, None);
    let mut none = None;
    assert_eq!(examine_item_input(&[GameAction::Drop], &mut none, true, false, false), (None, false));
}

#[test]
fn item_details_heading_names_the_type_and_stack() {
    let (title, stack) = examine_heading("arrow_wood", 12);
    assert_eq!(title, "arrow_wood — DETAILS");
    assert_eq!(stack, Some("Stack:  12".to_string()));
    let (single, none) = examine_heading("knife", 1);
    assert_eq!(single, "knife — DETAILS");
    assert_eq!(none, None);
}
