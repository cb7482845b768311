use cdda_render::actions::GameAction;
use cdda_render::character::{character_overview, tab_listing, CharacterFacts, CharacterLists, Identity, LineKind};
use cdda_render::character::{
    armor_text, bionic_row, bionics_header, dodge_text, effects_header, height_text, melee_text,
    proficiency_row, trait_row, traits_header, vision_text,
};
use cdda_render::character::{
    character_sheet_input, effect_row, empty_tab_message, hp_text, hp_tone, morale_display,
    skill_row, skills_header, speed_tone, stat_bar, stat_tone, wetness_label, CharacterSheetState,
    CharacterTab, SkillRow, Tone,
};
use cdda_render::screens::{is_command_menu, InputFocus, Screen, ScreenStack};
use cdda_render::settings::{
    ctx_label, detect_rebind_complete, find_binding_at_row, handle_confirm, navigate, row_count,
    settings_rows, Binding, InputContextId, KeybindingTable, SettingsState, SettingsTab,
    COLOR_SCHEME_ROW,
};
use cdda_render::theme::{ThemePreset, UiTheme};

fn binding(action: u32, label: &str, key: &str) -> Binding {
    Binding { action, action_label: label.into(), key: key.into() }
}

fn table() -> KeybindingTable {
    KeybindingTable {
        gameplay: vec![binding(1, "Wait", "."), binding(2, "Pick up", "g")],
        inventory: vec![],
        main_menu: vec![binding(3, "Confirm", "Enter")],
        settings: vec![binding(4, "Next tab", "Tab")],
    }
}

#[test]
fn settings_tabs_cycle_both_ways() {
    for tab in SettingsTab::all() {
        assert_eq!(tab.next().prev(), tab);
        assert_eq!(tab.prev().next(), tab);
    }
    assert_eq!(SettingsTab::Keybindings.next(), SettingsTab::General);
    assert_eq!(SettingsTab::General.prev(), SettingsTab::Keybindings);
}

#[test]
fn settings_default_uses_the_default_theme() {
    let s = SettingsState::default();
    assert_eq!(s.focused_row, 0);
    assert!(s.rebinding_action.is_none());
    assert_eq!(ThemePreset::ALL[s.interface_theme], UiTheme::default().preset);
    assert_eq!(s.interface_theme, 1);
}

#[test]
fn settings_rows_per_tab() {
    let t = table();
    let mut theme = UiTheme::default();
    let mut s = SettingsState::default();
    let rows = settings_rows(SettingsTab::Sound, &s, &t, &mut theme);
    assert_eq!(rows, vec![("Music volume: 80%".to_string(), false), ("SFX volume: 100%".to_string(), false)]);
    s.interface_theme = 2;
    let rows = settings_rows(SettingsTab::Interface, &s, &t, &mut theme);
    assert_eq!(rows.len(), 5);
    assert_eq!(rows[0].0, "Color Scheme: Amber (←/→ to cycle)");
    assert_eq!(rows[1].0, "Sidebar style: classic");
    assert_eq!(theme.preset, ThemePreset::Amber);
    s.rebinding_action = Some((InputContextId::MainMenu, 3));
    let rows = settings_rows(SettingsTab::Keybindings, &s, &t, &mut theme);
    assert_eq!(
        rows,
        vec![
            ("Gameplay · Wait  ⟶  .".to_string(), false),
            ("Gameplay · Pick up  ⟶  g".to_string(), false),
            ("Menus · Confirm  ⟶  PRESS A KEY... (Esc=cancel)".to_string(), true),
            ("Settings · Next tab  ⟶  Tab".to_string(), false),
        ]
    );
}

#[test]
fn settings_navigation_moves_rows_switches_tabs_and_cycles_schemes() {
    let t = table();
    let mut s = SettingsState::default();
    assert_eq!(row_count(&SettingsTab::Keybindings, &t), 4);
    assert_eq!(navigate(&GameAction::NavigateEnd, &mut s, SettingsTab::Keybindings, &t), None);
    assert_eq!(s.focused_row, 3);
    navigate(&GameAction::NavigateDown, &mut s, SettingsTab::Keybindings, &t);
    assert_eq!(s.focused_row, 3);
    navigate(&GameAction::NavigateUp, &mut s, SettingsTab::Keybindings, &t);
    assert_eq!(s.focused_row, 2);
    assert_eq!(navigate(&GameAction::NavigateNextTab, &mut s, SettingsTab::Keybindings, &t), Some(SettingsTab::General));
    assert_eq!(s.focused_row, 0);
    assert_eq!(COLOR_SCHEME_ROW, 0);
    assert_eq!(navigate(&GameAction::NavigateRight, &mut s, SettingsTab::Interface, &t), None);
    assert_eq!(s.interface_theme, 2);
    navigate(&GameAction::NavigateRight, &mut s, SettingsTab::Interface, &t);
    assert_eq!(s.interface_theme, 0);
    navigate(&GameAction::NavigateLeft, &mut s, SettingsTab::Interface, &t);
    assert_eq!(s.interface_theme, 2);
    assert_eq!(navigate(&GameAction::NavigateLeft, &mut s, SettingsTab::Sound, &t), Some(SettingsTab::Graphics));
    assert_eq!(s.focused_row, 0);
}

#[test]
fn settings_rebind_flow() {
    let t = table();
    let mut s = SettingsState::default();
    let mut capture = None;
    s.focused_row = 2;
    assert_eq!(find_binding_at_row(&s, &t), Some((InputContextId::MainMenu, 3)));
    handle_confirm(&GameAction::Confirm, &mut s, SettingsTab::General, &t, &mut capture);
    assert!(s.rebinding_action.is_none());
    handle_confirm(&GameAction::Confirm, &mut s, SettingsTab::Keybindings, &t, &mut capture);
    assert_eq!(s.rebinding_action, Some((InputContextId::MainMenu, 3)));
    assert_eq!(capture, Some((InputContextId::MainMenu, 3)));
    detect_rebind_complete(&mut s, true);
    assert!(s.rebinding_action.is_some());
    handle_confirm(&GameAction::Cancel, &mut s, SettingsTab::Keybindings, &t, &mut capture);
    assert!(s.rebinding_action.is_none());
    assert!(capture.is_none());
    s.focused_row = 9;
    assert_eq!(find_binding_at_row(&s, &t), None);
    s.rebinding_action = Some((InputContextId::Gameplay, 1));
    detect_rebind_complete(&mut s, false);
    assert!(s.rebinding_action.is_none());
}

#[test]
fn context_labels() {
    assert_eq!(ctx_label(&InputContextId::MainMenu), "Menus");
    assert_eq!(ctx_label(&InputContextId::CraftingMenu), "Crafting");
    assert_eq!(ctx_label(&InputContextId::Custom(17)), "Custom(17)");
}

#[test]
fn character_tabs_and_scrolling() {
    let mut s = CharacterSheetState::default();
    assert_eq!(s.tab, CharacterTab::Skills);
    character_sheet_input(&vec![GameAction::NavigatePrevTab], &mut s, Some(5));
    assert_eq!(s.tab, CharacterTab::Proficiencies);
    character_sheet_input(&vec![GameAction::NavigateNextTab, GameAction::NavigateNextTab], &mut s, Some(5));
    assert_eq!(s.tab, CharacterTab::Traits);
    character_sheet_input(&vec![GameAction::NavigatePageDown], &mut s, Some(25));
    assert_eq!(s.scroll, 10);
    character_sheet_input(&vec![GameAction::NavigateEnd, GameAction::NavigateDown], &mut s, Some(25));
    assert_eq!(s.scroll, 24);
    character_sheet_input(&vec![GameAction::NavigateUp], &mut s, Some(5));
    assert_eq!(s.scroll, 3);
    character_sheet_input(&vec![GameAction::NavigateDown], &mut s, None);
    assert_eq!(s.scroll, 0);
    assert_eq!(CharacterTab::Bionics.label(), "BIONICS");
}

#[test]
fn character_value_texts_and_tones() {
    assert_eq!(stat_bar(3), "███░░░░░░░░░░░░░░░░░");
    assert_eq!(stat_bar(25), "████████████████████");
    assert_eq!(stat_tone(14), Tone::Good);
    assert_eq!(stat_tone(9), Tone::Normal);
    assert_eq!(stat_tone(5), Tone::Bad);
    assert_eq!(morale_display(12), ("12 (happy)".to_string(), Tone::Good));
    assert_eq!(morale_display(0), ("0 (neutral)".to_string(), Tone::Normal));
    assert_eq!(morale_display(-11), ("-11 (depressed)".to_string(), Tone::Bad));
    assert_eq!(hp_tone(25, 100), Tone::Bad);
    assert_eq!(hp_tone(50, 100), Tone::Serious);
    assert_eq!(hp_tone(99, 100), Tone::Warning);
    assert_eq!(hp_tone(100, 100), Tone::Good);
    assert_eq!(hp_text(80, 100), "80 / 100");
    assert_eq!(speed_tone(79), Tone::Bad);
    assert_eq!(speed_tone(100), Tone::Normal);
    assert_eq!(speed_tone(120), Tone::Good);
    assert_eq!(wetness_label(0), "dry");
    assert_eq!(wetness_label(3), "damp");
    assert_eq!(wetness_label(7), "wet");
    assert_eq!(wetness_label(8), "soaked");
}

#[test]
fn character_list_rows_are_columns() {
    assert_eq!(skills_header(), format!("{:<24}  {:>5}  {:>8}", "Skill", "Level", "XP"));
    let row = SkillRow { skill_id: 7, level: 3, exercise: -40 };
    assert_eq!(skill_row(&row), format!("{:<24}  {:>5}  {:>8}", "skill #7", 3, -40));
    let (text, tone) = effect_row("bleed", 4, 12);
    assert_eq!(text, format!("{:<28}  {:>6}  {}", "effect #bleed", 4, "12t"));
    assert_eq!(tone, Tone::Bad);
    assert_eq!(empty_tab_message(CharacterTab::Effects), "No active effects.");
}

#[test]
fn screens_start_at_the_main_menu_without_focus() {
    assert_eq!(Screen::default(), Screen::MainMenu);
    assert!(ScreenStack::default().0.is_empty());
    assert_eq!(InputFocus::default().entity, None);
    assert_eq!(ThemePreset::default(), ThemePreset::Blue);
    assert_eq!(ThemePreset::Green.label(), "Green");
}

#[test]
fn command_menus_share_the_menu_frame() {
    assert!(is_command_menu(Screen::MainMenu));
    assert!(is_command_menu(Screen::PauseMenu));
    assert!(is_command_menu(Screen::DevWorldgen));
    assert!(is_command_menu(Screen::Custom(0)));
    assert!(is_command_menu(Screen::Custom(1)));
    assert!(!is_command_menu(Screen::Custom(2)));
    assert!(!is_command_menu(Screen::Gameplay));
    assert!(!is_command_menu(Screen::Inventory));
    assert!(!is_command_menu(Screen::SettingsMenu));
}

#[test]
fn character_combat_lines_and_tab_rows() {
    assert_eq!(melee_text(Some((2, 6, 3))), "2d6 (skill 3)");
    assert_eq!(melee_text(Some((0, 6, 4))), "skill 4");
    assert_eq!(melee_text(None), "—");
    assert_eq!(dodge_text(Some(5)), "5");
    assert_eq!(dodge_text(None), "—");
    assert_eq!(armor_text(5, 0, 0), "bash 5 / cut 0 / pierce 0");
    assert_eq!(vision_text(60, 1), "60 / 1 tiles");
    assert_eq!(height_text(175), "175 cm");
    assert_eq!(traits_header(), format!("{:<30}  {}", "Trait / Mutation", "Visible"));
    assert_eq!(trait_row("FLEET", true), format!("{:<30}  {}", "mutation #FLEET", "yes"));
    assert_eq!(trait_row("FLEET", false), format!("{:<30}  {}", "mutation #FLEET", "no"));
    assert_eq!(effects_header(), format!("{:<28}  {:>6}  {}", "Effect", "Intens", "Duration"));
    assert_eq!(bionics_header(), format!("{:<30}  {:>8}  {}", "Bionic", "Power", "Active"));
    let (row, tone) = bionic_row("bio_power", -25, true);
    assert_eq!(row, format!("{:<30}  {:>8}  {}", "bionic #bio_power", -25, "yes"));
    assert_eq!(tone, Tone::Good);
    let (_, idle) = bionic_row("bio_light", 0, false);
    assert_eq!(idle, Tone::Normal);
    assert_eq!(proficiency_row("prof_knapping"), "proficiency #prof_knapping");
}

#[test]
fn settings_first_interface_row_changes_the_live_theme_with_keyboard_and_confirm() {
    let t = table();
    let mut theme = UiTheme::default();
    let mut s = SettingsState::default();
    let mut capture = None;
    settings_rows(SettingsTab::Interface, &s, &t, &mut theme);
    assert_eq!(theme.preset, ThemePreset::Green);
    assert_eq!(navigate(&GameAction::NavigateRight, &mut s, SettingsTab::Interface, &t), None);
    settings_rows(SettingsTab::Interface, &s, &t, &mut theme);
    assert_eq!(theme.preset, ThemePreset::Amber);
    handle_confirm(&GameAction::Confirm, &mut s, SettingsTab::Interface, &t, &mut capture);
    settings_rows(SettingsTab::Interface, &s, &t, &mut theme);
    assert_eq!(theme.preset, ThemePreset::Blue);
    assert!(capture.is_none());
    assert_eq!(s.focused_row, 0);
}

fn facts() -> CharacterFacts {
    CharacterFacts {
        identity: None,
        stats: (8, 9, 10, 14),
        hp: Some((40, 100)),
        speed: None,
        combat: Some((2, 6, 3)),
        dodge: None,
        armor: Some((5, 0, 0)),
        vision: None,
        temp: None,
        wetness: Some(0),
        morale: Some(12),
        stunned: false,
        bleeding: true,
        on_fire: false,
    }
}

#[test]
fn character_overview_lists_sections_in_order() {
    let lines = character_overview(&facts());
    let labels: Vec<&str> = lines.iter().map(|l| l.label.as_str()).collect();
    assert_eq!(
        labels,
        vec![
            "IDENTITY", "Name", "ATTRIBUTES", "STR", "DEX", "INT", "PER", "VITALS", "HP", "Speed", "COMBAT",
            "Melee", "Dodge", "Natural armor", "STATUS", "Wetness", "Morale", "CONDITIONS", "  ● BLEEDING"
        ]
    );
    assert_eq!(lines[1].value, "Dev Player");
    assert_eq!(lines[3].kind, LineKind::Stat);
    assert_eq!(lines[3].value, " 8");
    assert_eq!(lines[8].value, "40 / 100");
    assert_eq!(lines[8].tone, Tone::Serious);
    assert_eq!(lines[9].value, "100");
    assert_eq!(lines[11].value, "2d6 (skill 3)");
    assert_eq!(lines[12].value, "—");
    assert_eq!(lines[13].value, "bash 5 / cut 0 / pierce 0");
    assert_eq!(lines[15].value, "dry");
    assert_eq!(lines[18].tone, Tone::Bad);
    let mut known = facts();
    known.identity = Some(Identity { name: "Ada".into(), gender: "female".into(), age: 30, height_cm: 170, blood: "O+".into() });
    known.bleeding = false;
    let lines = character_overview(&known);
    assert_eq!(lines[3].value, "30");
    assert_eq!(lines[4].value, "170 cm");
    assert!(lines.iter().all(|l| l.label != "CONDITIONS"));
}

#[test]
fn character_tabs_list_rows_or_their_empty_message() {
    let lists = CharacterLists {
        skills: vec![SkillRow { skill_id: 2999, level: 3, exercise: 40 }],
        traits: vec![],
        effects: vec![("poison".into(), 4, 12)],
        bionics: vec![],
        proficiencies: vec!["prof_knapping".into()],
    };
    let skills = tab_listing(CharacterTab::Skills, &lists);
    assert_eq!(skills.header, format!("{:<24}  {:>5}  {:>8}", "Skill", "Level", "XP"));
    assert_eq!(skills.rows, vec![(format!("{:<24}  {:>5}  {:>8}", "skill #2999", 3, 40), Tone::Normal)]);
    assert_eq!(skills.empty, "");
    let traits = tab_listing(CharacterTab::Traits, &lists);
    assert!(traits.rows.is_empty());
    assert_eq!(traits.header, "");
    assert_eq!(traits.empty, "No traits or mutations.");
    let effects = tab_listing(CharacterTab::Effects, &lists);
    assert_eq!(effects.rows, vec![(format!("{:<28}  {:>6}  {}", "effect #poison", 4, "12t"), Tone::Bad)]);
    let profs = tab_listing(CharacterTab::Proficiencies, &lists);
    assert_eq!(profs.header, "Proficiency");
    assert_eq!(profs.rows[0].0, "proficiency #prof_knapping");
}
