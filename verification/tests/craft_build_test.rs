use cdda_render::craft_build::{
    build_craft_state, group_recipes, refresh_craft_message, sort_craft_entries, CraftOutcome,
    RecipeSource,
};
use cdda_render::crafting::{CategoryIndex, CraftEntry, CraftModel, CraftState};

fn source(recipe: u64, cat: Option<&str>, sub: Option<&str>) -> RecipeSource {
    RecipeSource { recipe, raw_category: cat.map(String::from), raw_subcategory: sub.map(String::from) }
}

fn entry(recipe: u64, key: &str, name: &str, craftable: bool) -> CraftEntry {
    CraftEntry {
        recipe,
        recipe_key: key.into(),
        result_id: key.into(),
        result_name: name.into(),
        result_count: 1,
        craftable,
        reason: String::new(),
        time_turns: 0,
        components_text: Vec::new(),
        qualities_text: Vec::new(),
    }
}

fn sources() -> Vec<RecipeSource> {
    vec![
        source(1, Some("CC_WEAPON"), Some("CSC_WEAPON_BASHING")),
        source(2, Some("CC_FOOD"), Some("CSC_FOOD_BREAD")),
        source(3, None, None),
        source(4, Some("CC_FOOD"), Some("CSC_FOOD_BREAD")),
        source(5, Some("CC_FOOD"), Some("CSC_FOOD_MEAT")),
    ]
}

#[test]
fn recipes_group_by_display_names_in_key_order() {
    let (tops, groups) = group_recipes(&sources());
    assert_eq!(tops, vec!["FOOD".to_string(), "MISC".to_string(), "WEAPON".to_string()]);
    let keys: Vec<(String, String)> = groups.iter().map(|g| g.0.clone()).collect();
    assert_eq!(
        keys,
        vec![
            ("FOOD".to_string(), "BREAD".to_string()),
            ("FOOD".to_string(), "MEAT".to_string()),
            ("MISC".to_string(), "NONE".to_string()),
            ("WEAPON".to_string(), "BASHING".to_string()),
        ]
    );
    assert_eq!(groups[0].1, vec![2, 4]);
    assert_eq!(groups[2].1, vec![3]);
}

#[test]
fn rows_list_craftable_first_then_by_name() {
    let sorted = sort_craft_entries(vec![
        entry(1, "b", "Bread", false),
        entry(2, "a", "Axe", true),
        entry(3, "c", "Apple", false),
        entry(4, "d", "Club", true),
    ]);
    let order: Vec<u64> = sorted.iter().map(|e| e.recipe).collect();
    assert_eq!(order, vec![2, 4, 3, 1]);
}

#[test]
fn rebuild_keeps_the_selected_category_subcategory_and_recipe() {
    let mut categories = CategoryIndex {
        top_categories: vec![],
        sub_recipes: vec![],
        selected_top: 0,
        selected_sub: 0,
        focus_zone: 2,
    };
    let mut model = CraftModel { entries: vec![] };
    let mut state = CraftState::new();
    let entries = vec![entry(2, "bread", "Bread", true), entry(4, "toast", "Toast", true), entry(5, "jerky", "Jerky", false)];
    build_craft_state(&sources(), entries.clone(), &mut categories, &mut model, &mut state);
    assert_eq!(categories.selected_top, 0);
    assert_eq!(categories.focus_zone, 2);
    // Select FOOD / MEAT, then the bread row of FOOD / BREAD.
    categories.selected_sub = 1;
    build_craft_state(&sources(), entries.clone(), &mut categories, &mut model, &mut state);
    assert_eq!((categories.selected_top, categories.selected_sub), (0, 1));
    categories.selected_sub = 0;
    state.focus = 1;
    let toast_key = "toast";
    // A new recipe in a new category before FOOD shifts the positions.
    let mut more = sources();
    more.push(source(6, Some("CC_AMMO"), None));
    let mut more_entries = entries.clone();
    more_entries.push(entry(6, "bullet", "Bullet", true));
    build_craft_state(&more, more_entries, &mut categories, &mut model, &mut state);
    assert_eq!(categories.top_categories[categories.selected_top], "FOOD");
    assert_eq!(categories.selected_top, 1);
    assert_eq!(categories.selected_sub, 0);
    let rows = cdda_render::crafting::category_entry_indices(&model, &state, &categories);
    assert_eq!(model.entries[rows[state.focus]].recipe_key, toast_key);
}

#[test]
fn craft_outcome_messages() {
    let mut state = CraftState::new();
    refresh_craft_message(&mut state, &Some(CraftOutcome::Started { result_name: Some("knife".into()) }));
    assert_eq!(state.last_message.as_deref(), Some("Crafting: knife"));
    refresh_craft_message(&mut state, &Some(CraftOutcome::Completed { item_name: None }));
    assert_eq!(state.last_message.as_deref(), Some("Crafted: item"));
    refresh_craft_message(&mut state, &Some(CraftOutcome::Interrupted));
    assert_eq!(state.last_message.as_deref(), Some("Craft interrupted; progress saved"));
    refresh_craft_message(&mut state, &Some(CraftOutcome::Failed { reason: "no tools".into() }));
    assert_eq!(state.last_message.as_deref(), Some("Failed: no tools"));
    refresh_craft_message(&mut state, &None);
    assert!(state.last_message.is_none());
}

#[test]
fn rows_that_list_level_keep_their_order() {
    let sorted = sort_craft_entries(vec![
        entry(7, "x", "Rope", true),
        entry(3, "y", "Rope", true),
        entry(5, "z", "Bandage", true),
        entry(9, "w", "Rope", true),
    ]);
    let order: Vec<u64> = sorted.iter().map(|e| e.recipe).collect();
    assert_eq!(order, vec![5, 7, 3, 9]);
}

#[test]
fn a_default_category_index_is_empty() {
    let c = CategoryIndex::default();
    assert!(c.top_categories.is_empty());
    assert!(c.sub_recipes.is_empty());
    assert_eq!((c.selected_top, c.selected_sub, c.focus_zone), (0, 0, 0));
}
