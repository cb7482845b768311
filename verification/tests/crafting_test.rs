use cdda_render::actions::GameAction;
use cdda_render::crafting::{
    crafting_menu_input, display_category, display_subcategory, recipe_counter, CategoryIndex,
    ContextRequest, CraftEntry, CraftModel, CraftState, RecipeFilter, TextKey,
};

fn model() -> CraftModel {
    CraftModel {
        entries: (0..3000)
            .map(|i| CraftEntry {
                recipe: 10_000 + i as u64,
                recipe_key: format!("recipe_{i}"),
                result_id: format!("recipe_{i}"),
                result_name: format!("Recipe {i}"),
                result_count: 1,
                craftable: i % 2 == 0,
                reason: "Missing components".into(),
                time_turns: 10,
                components_text: Vec::new(),
                qualities_text: Vec::new(),
            })
            .collect(),
    }
}

fn categories(model: &CraftModel) -> CategoryIndex {
    CategoryIndex {
        top_categories: vec!["ALL".into(), "EMPTY".into()],
        sub_recipes: vec![(("ALL".into(), "ALL".into()), model.entries.iter().map(|e| e.recipe).collect())],
        selected_top: 0,
        selected_sub: 0,
        focus_zone: 0,
    }
}

#[test]
fn recipe_membership_cache_ignores_selection_but_tracks_filter_category_and_model() {
    let model = model();
    let mut categories = categories(&model);
    let mut state = CraftState::new();
    let mut cache = RecipeFilter::new();
    assert!(cache.update(&model, &state, &categories, (1, 1)));
    for focus in 0..3000 {
        state.focus = focus;
        state.filtering = focus % 2 == 0;
        assert!(!cache.update(&model, &state, &categories, (1, 1)));
    }
    assert_eq!(cache.rebuilds, 1);
    state.filter = "recipe_42".into();
    assert!(cache.update(&model, &state, &categories, (1, 1)));
    assert_eq!(cache.indices.len(), 11);
    state.show_all = false;
    assert!(cache.update(&model, &state, &categories, (1, 1)));
    assert!(cache.indices.iter().all(|&i| model.entries[i].craftable));
    categories.selected_top = 1;
    assert!(cache.update(&model, &state, &categories, (1, 1)));
    assert!(cache.indices.is_empty());
    assert!(
        cache.update(&model, &state, &categories, (2, 1)),
        "model publication invalidates membership"
    );
}

#[test]
fn crafting_navigation_confirm_filter_and_empty_category_use_the_displayed_order() {
    let model = model();
    let mut categories = categories(&model);
    let mut state = CraftState::new();
    let mut view = RecipeFilter::new();
    let mut pending: Option<u64> = None;
    let mut requests: Vec<ContextRequest> = Vec::new();
    crafting_menu_input(&[GameAction::NavigateEnd], &[], &mut state, &model, &mut view, &mut categories, (1, 1), &mut pending, &mut requests);
    assert_eq!(state.focus, 2999);
    crafting_menu_input(&[GameAction::NavigateUp, GameAction::Confirm], &[], &mut state, &model, &mut view, &mut categories, (1, 1), &mut pending, &mut requests);
    assert_eq!(pending, Some(model.entries[2998].recipe));
    state.filter = "recipe_42".into();
    state.focus = 0;
    view.update(&model, &state, &categories, (1, 1));
    assert_eq!(view.indices.len(), 11);
    categories.selected_top = 1;
    view.update(&model, &state, &categories, (1, 1));
    assert!(view.indices.is_empty());
    assert_eq!(recipe_counter(state.focus, view.indices.len(), state.show_all, false), "No matching recipes  [ALL]");
}

#[test]
fn filter_typing_edits_the_filter_and_requests_contexts() {
    let model = model();
    let mut categories = categories(&model);
    let mut state = CraftState::new();
    let mut view = RecipeFilter::new();
    let mut pending: Option<u64> = None;
    let mut requests: Vec<ContextRequest> = Vec::new();
    crafting_menu_input(&[GameAction::Filter], &[], &mut state, &model, &mut view, &mut categories, (1, 1), &mut pending, &mut requests);
    assert!(state.filtering);
    assert_eq!(requests, vec![ContextRequest::PushTextInput]);
    crafting_menu_input(&[], &[TextKey::Character("4".into()), TextKey::Character("2".into()), TextKey::Backspace, TextKey::Character("3".into())], &mut state, &model, &mut view, &mut categories, (1, 1), &mut pending, &mut requests);
    assert_eq!(state.filter, "43");
    assert!(pending.is_none());
}

#[test]
fn counter_and_display_names() {
    assert_eq!(recipe_counter(0, 3000, true, true), "Recipe 1 of 3000  [ALL]");
    assert_eq!(recipe_counter(5000, 3000, false, true), "Recipe 3000 of 3000  [CRAFTABLE]");
    assert_eq!(recipe_counter(0, 0, true, true), "No recipes  [ALL]");
    assert_eq!(display_category("CC_FOOD"), "FOOD");
    assert_eq!(display_category("OTHER"), "OTHER");
    assert_eq!(display_subcategory("CC_FOOD", "CSC_FOOD_BREAD"), "BREAD");
    assert_eq!(display_subcategory("CC_FOOD", "CSC_ALL"), "ALL");
}
