//! The settings screen: its tabs, the rows each tab lists, keyboard
//! navigation, the colour-scheme row, and the keybinding editor's rebind
//! flow.
use vstd::prelude::*;
use crate::actions::GameAction;
use crate::text::{decimal, digits};
use crate::theme::{index_of_preset, preset_at, preset_for_index, preset_index, preset_label, ThemePreset, UiTheme};

verus! {

// ---------------------------------------------------------------------------
// Tabs
// ---------------------------------------------------------------------------

/// A tab of the settings screen.
#[derive(Clone, Copy, Debug, PartialEq, Eq, Structural)]
pub enum SettingsTab {
    General,
    Graphics,
    Sound,
    Interface,
    Keybindings,
}

/// The position of a tab in the tab bar.
pub open spec fn tab_index(t: SettingsTab) -> int {
    match t {
        SettingsTab::General => 0,
        SettingsTab::Graphics => 1,
        SettingsTab::Sound => 2,
        SettingsTab::Interface => 3,
        SettingsTab::Keybindings => 4,
    }
}

/// The tab at a position of the tab bar (counted around it).
pub open spec fn tab_at(i: int) -> SettingsTab {
    let k = i % 5;
    if k == 0 {
        SettingsTab::General
    } else if k == 1 {
        SettingsTab::Graphics
    } else if k == 2 {
        SettingsTab::Sound
    } else if k == 3 {
        SettingsTab::Interface
    } else {
        SettingsTab::Keybindings
    }
}

impl SettingsTab {
    pub const ALL: [SettingsTab; 5] = [
        SettingsTab::General,
        SettingsTab::Graphics,
        SettingsTab::Sound,
        SettingsTab::Interface,
        SettingsTab::Keybindings,
    ];

    /// The tabs in the order of the tab bar.
    pub fn all() -> (r: [SettingsTab; 5])
        ensures
            forall|i: int| 0 <= i < 5 ==> r@[i] == tab_at(i),
    {
        SettingsTab::ALL
    }

    /// The caption of the tab.
    pub fn label(self) -> (r: &'static str)
        ensures
            r@ == tab_label(self),
    {
        match self {
            SettingsTab::General => "General",
            SettingsTab::Graphics => "Graphics",
            SettingsTab::Sound => "Sound",
            SettingsTab::Interface => "Interface",
            SettingsTab::Keybindings => "Keybindings",
        }
    }

    /// The tab to the right, the last wrapping to the first.
    pub fn next(self) -> (r: SettingsTab)
        ensures
            r == tab_at(tab_index(self) + 1),
    {
        match self {
            SettingsTab::General => SettingsTab::Graphics,
            SettingsTab::Graphics => SettingsTab::Sound,
            SettingsTab::Sound => SettingsTab::Interface,
            SettingsTab::Interface => SettingsTab::Keybindings,
            SettingsTab::Keybindings => SettingsTab::General,
        }
    }

    /// The tab to the left, the first wrapping to the last.
    pub fn prev(self) -> (r: SettingsTab)
        ensures
            r == tab_at(tab_index(self) + 4),
    {
        match self {
            SettingsTab::General => SettingsTab::Keybindings,
            SettingsTab::Graphics => SettingsTab::General,
            SettingsTab::Sound => SettingsTab::Graphics,
            SettingsTab::Interface => SettingsTab::Sound,
            SettingsTab::Keybindings => SettingsTab::Interface,
        }
    }
}

/// The caption of a tab.
pub open spec fn tab_label(t: SettingsTab) -> Seq<char> {
    match t {
        SettingsTab::General => "General"@,
        SettingsTab::Graphics => "Graphics"@,
        SettingsTab::Sound => "Sound"@,
        SettingsTab::Interface => "Interface"@,
        SettingsTab::Keybindings => "Keybindings"@,
    }
}

/// Going one tab to the left undoes going one to the right, and back.
pub proof fn lemma_prev_undoes_next(t: SettingsTab)
    ensures
        tab_at(tab_index(tab_at(tab_index(t) + 1)) + 4) == t,
        tab_at(tab_index(tab_at(tab_index(t) + 4)) + 1) == t,
{
}

// ---------------------------------------------------------------------------
// Key bindings as the editor reads them
// ---------------------------------------------------------------------------

/// An input context of the key bindings.
#[derive(Clone, Copy, Debug, PartialEq, Eq, Structural)]
pub enum InputContextId {
    Gameplay,
    Inventory,
    CraftingMenu,
    CharacterSheet,
    ExamineLook,
    Dialog,
    DirectionSelect,
    TextInput,
    MainMenu,
    Settings,
    PauseMenu,
    QuantityInput,
    VehicleInteraction,
    Custom(u32),
    Overmap,
}

/// The name of a context in the keybinding rows.
pub open spec fn context_label(c: InputContextId) -> Seq<char> {
    match c {
        InputContextId::Gameplay => "Gameplay"@,
        InputContextId::Inventory => "Inventory"@,
        InputContextId::CraftingMenu => "Crafting"@,
        InputContextId::CharacterSheet => "Character"@,
        InputContextId::ExamineLook => "Examine"@,
        InputContextId::Dialog => "Dialog"@,
        InputContextId::DirectionSelect => "Direction"@,
        InputContextId::TextInput => "Text Input"@,
        InputContextId::MainMenu => "Menus"@,
        InputContextId::Settings => "Settings"@,
        InputContextId::PauseMenu => "Pause"@,
        InputContextId::QuantityInput => "Quantity"@,
        InputContextId::VehicleInteraction => "Vehicle"@,
        InputContextId::Custom(id) => "Custom("@ + digits(id as nat, 10) + ")"@,
        InputContextId::Overmap => "Overmap"@,
    }
}

/// The name of a context in the keybinding rows.
pub fn ctx_label(ctx: &InputContextId) -> (r: String)
    ensures
        r@ == context_label(*ctx),
{
    match ctx {
        InputContextId::Gameplay => String::from_str("Gameplay"),
        InputContextId::Inventory => String::from_str("Inventory"),
        InputContextId::CraftingMenu => String::from_str("Crafting"),
        InputContextId::CharacterSheet => String::from_str("Character"),
        InputContextId::ExamineLook => String::from_str("Examine"),
        InputContextId::Dialog => String::from_str("Dialog"),
        InputContextId::DirectionSelect => String::from_str("Direction"),
        InputContextId::TextInput => String::from_str("Text Input"),
        InputContextId::MainMenu => String::from_str("Menus"),
        InputContextId::Settings => String::from_str("Settings"),
        InputContextId::PauseMenu => String::from_str("Pause"),
        InputContextId::QuantityInput => String::from_str("Quantity"),
        InputContextId::VehicleInteraction => String::from_str("Vehicle"),
        InputContextId::Custom(id) => {
            let mut out = String::from_str("Custom(");
            out.append(decimal(*id as u64).as_str());
            out.append(")");
            out
        },
        InputContextId::Overmap => String::from_str("Overmap"),
    }
}

/// A bound action: its id, its label and the key it is bound to.
#[derive(Clone, Debug)]
pub struct Binding {
    pub action: u32,
    pub action_label: String,
    pub key: String,
}

/// The bindings the editor lists, one list per context it shows, each in
/// the order the bindings report them.
#[derive(Clone, Debug)]
pub struct KeybindingTable {
    pub gameplay: Vec<Binding>,
    pub inventory: Vec<Binding>,
    pub main_menu: Vec<Binding>,
    pub settings: Vec<Binding>,
}

/// The contexts the editor lists, in order.
pub open spec fn editor_context(k: int) -> InputContextId {
    if k == 0 {
        InputContextId::Gameplay
    } else if k == 1 {
        InputContextId::Inventory
    } else if k == 2 {
        InputContextId::MainMenu
    } else {
        InputContextId::Settings
    }
}

impl KeybindingTable {
    /// The bindings of the `k`-th listed context.
    pub open spec fn list(&self, k: int) -> Seq<Binding> {
        if k == 0 {
            self.gameplay@
        } else if k == 1 {
            self.inventory@
        } else if k == 2 {
            self.main_menu@
        } else {
            self.settings@
        }
    }

    /// How many bindings the first `k` listed contexts have.
    pub open spec fn before(&self, k: int) -> int
        decreases k,
    {
        if k <= 0 {
            0
        } else {
            self.before(k - 1) + self.list(k - 1).len()
        }
    }

    /// How many bindings the editor lists.
    pub open spec fn total(&self) -> int {
        self.before(4)
    }

    fn list_exec(&self, k: usize) -> (r: &Vec<Binding>)
        requires
            k < 4,
        ensures
            r@ == self.list(k as int),
    {
        if k == 0 {
            &self.gameplay
        } else if k == 1 {
            &self.inventory
        } else if k == 2 {
            &self.main_menu
        } else {
            &self.settings
        }
    }
}

fn editor_context_exec(k: usize) -> (r: InputContextId)
    ensures
        r == editor_context(k as int),
{
    if k == 0 {
        InputContextId::Gameplay
    } else if k == 1 {
        InputContextId::Inventory
    } else if k == 2 {
        InputContextId::MainMenu
    } else {
        InputContextId::Settings
    }
}

// ---------------------------------------------------------------------------
// State
// ---------------------------------------------------------------------------

/// The focused row of the current tab, the binding being rebound, and the
/// colour scheme chosen on the interface tab.
#[derive(Clone, Debug)]
pub struct SettingsState {
    pub focused_row: usize,
    pub rebinding_action: Option<(InputContextId, u32)>,
    /// Position of the colour scheme among the presets.
    pub interface_theme: usize,
}

impl Default for SettingsState {
    /// First row, no rebind, the default theme's preset.
    fn default() -> (s: SettingsState)
        ensures
            s.focused_row == 0,
            s.rebinding_action is None,
            s.interface_theme == preset_index(ThemePreset::Green),
    {
        let theme = UiTheme::default();
        SettingsState { focused_row: 0, rebinding_action: None, interface_theme: index_of_preset(theme.preset) }
    }
}

/// The row of the interface tab that holds the colour scheme: the first.
pub const COLOR_SCHEME_ROW: usize = 0;

/// How many rows a tab lists.
pub open spec fn tab_row_count(tab: SettingsTab, t: KeybindingTable) -> int {
    match tab {
        SettingsTab::General => 3,
        SettingsTab::Graphics => 3,
        SettingsTab::Sound => 2,
        SettingsTab::Interface => 5,
        SettingsTab::Keybindings => t.total(),
    }
}

proof fn lemma_before_monotone(t: KeybindingTable, a: int, b: int)
    requires
        0 <= a <= b,
    ensures
        t.before(a) <= t.before(b),
    decreases b - a,
{
    if a < b {
        lemma_before_monotone(t, a, b - 1);
    }
}

/// How many rows a tab lists.
pub fn row_count(tab: &SettingsTab, bindings: &KeybindingTable) -> (r: usize)
    requires
        bindings.total() <= usize::MAX,
    ensures
        r == tab_row_count(*tab, *bindings),
{
    match tab {
        SettingsTab::General | SettingsTab::Graphics => 3,
        SettingsTab::Sound => 2,
        SettingsTab::Interface => 5,
        SettingsTab::Keybindings => {
            let mut count: usize = 0;
            let mut k: usize = 0;
            while k < 4
                invariant
                    k <= 4,
                    count == bindings.before(k as int),
                    bindings.total() <= usize::MAX,
                decreases 4 - k,
            {
                proof {
                    lemma_before_monotone(*bindings, k + 1, 4);
                }
                count = count + bindings.list_exec(k).len();
                k = k + 1;
            }
            count
        },
    }
}

/// The binding listed at `row` of the keybinding tab: its context and action.
pub open spec fn binding_at(t: KeybindingTable, row: int) -> Option<(InputContextId, u32)> {
    if 0 <= row < t.before(1) {
        Some((editor_context(0), t.list(0)[row].action))
    } else if t.before(1) <= row < t.before(2) {
        Some((editor_context(1), t.list(1)[row - t.before(1)].action))
    } else if t.before(2) <= row < t.before(3) {
        Some((editor_context(2), t.list(2)[row - t.before(2)].action))
    } else if t.before(3) <= row < t.before(4) {
        Some((editor_context(3), t.list(3)[row - t.before(3)].action))
    } else {
        None
    }
}

/// The binding at the focused row of the keybinding tab, if there is one.
pub fn find_binding_at_row(state: &SettingsState, bindings: &KeybindingTable) -> (r: Option<
    (InputContextId, u32),
>)
    ensures
        r == binding_at(*bindings, state.focused_row as int),
{
    let mut row: usize = 0;
    let mut k: usize = 0;
    let target = state.focused_row;
    while k < 4
        invariant
            k <= 4,
            row == bindings.before(k as int),
            row <= target,
            target == state.focused_row,
        decreases 4 - k,
    {
        let list = bindings.list_exec(k);
        if target - row < list.len() {
            let b = &list[target - row];
            proof {
                lemma_before_monotone(*bindings, 0, k as int);
                if k >= 1 {
                    lemma_before_monotone(*bindings, 1, k as int);
                }
                if k >= 2 {
                    lemma_before_monotone(*bindings, 2, k as int);
                }
                if k >= 3 {
                    lemma_before_monotone(*bindings, 3, k as int);
                }
            }
            return Some((editor_context_exec(k), b.action));
        }
        row = row + list.len();
        k = k + 1;
    }
    proof {
        lemma_before_monotone(*bindings, 1, 4);
        lemma_before_monotone(*bindings, 2, 4);
        lemma_before_monotone(*bindings, 3, 4);
    }
    None
}

// ---------------------------------------------------------------------------
// Rows of a tab
// ---------------------------------------------------------------------------

/// The fixed rows of a tab; the interface tab ends with the colour scheme.
pub open spec fn option_rows(tab: SettingsTab, preset: ThemePreset) -> Seq<Seq<char>> {
    match tab {
        SettingsTab::General => seq![
            "Auto-save: Enabled (every 5 min)"@,
            "Auto-notes: Yes"@,
            "Circular distance: No"@,
        ],
        SettingsTab::Graphics => seq!["Terminal size: 80×25"@, "Font size: 16"@, "Fullscreen: No"@],
        SettingsTab::Sound => seq!["Music volume: 80%"@, "SFX volume: 100%"@],
        SettingsTab::Interface => seq![
            "Color Scheme: "@ + preset_label(preset) + " (←/→ to cycle)"@,
            "Sidebar style: classic"@,
            "Show compass: Yes"@,
            "Minimap height: 100"@,
            "Force capital Y/N: Yes"@,
        ],
        SettingsTab::Keybindings => Seq::empty(),
    }
}

/// A keybinding row: the context, the action and the key (or the prompt
/// while that binding is being rebound).
pub open spec fn binding_row(
    ctx: InputContextId,
    b: Binding,
    rebinding: Option<(InputContextId, u32)>,
) -> (Seq<char>, bool) {
    let active = rebinding == Some((ctx, b.action));
    let key = if active {
        "PRESS A KEY... (Esc=cancel)"@
    } else {
        b.key@
    };
    (context_label(ctx) + " · "@ + b.action_label@ + "  ⟶  "@ + key, active)
}

/// The keybinding rows of the `k`-th listed context.
pub open spec fn context_rows(
    t: KeybindingTable,
    k: int,
    rebinding: Option<(InputContextId, u32)>,
) -> Seq<(Seq<char>, bool)> {
    t.list(k).map_values(|b: Binding| binding_row(editor_context(k), b, rebinding))
}

/// The rows of a tab, each with whether it is the binding being rebound.
pub open spec fn tab_rows(
    tab: SettingsTab,
    s: SettingsState,
    t: KeybindingTable,
) -> Seq<(Seq<char>, bool)> {
    let preset = preset_at(s.interface_theme as int % 3);
    let fixed = option_rows(tab, preset).map_values(|l: Seq<char>| (l, false));
    if tab == SettingsTab::Keybindings {
        fixed + context_rows(t, 0, s.rebinding_action) + context_rows(t, 1, s.rebinding_action)
            + context_rows(t, 2, s.rebinding_action) + context_rows(t, 3, s.rebinding_action)
    } else {
        fixed
    }
}

fn binding_row_exec(ctx: InputContextId, b: &Binding, rebinding: &Option<(InputContextId, u32)>) -> (r: (
    String,
    bool,
))
    ensures
        (r.0@, r.1) == binding_row(ctx, *b, *rebinding),
{
    let active = match rebinding {
        Some((c, a)) => *c == ctx && *a == b.action,
        None => false,
    };
    let mut label = ctx_label(&ctx);
    label.append(" · ");
    label.append(b.action_label.as_str());
    label.append("  ⟶  ");
    if active {
        label.append("PRESS A KEY... (Esc=cancel)");
    } else {
        label.append(b.key.as_str());
    }
    (label, active)
}

fn push_option(out: &mut Vec<(String, bool)>, label: &str)
    ensures
        final(out)@.map_values(|r: (String, bool)| (r.0@, r.1)) == old(out)@.map_values(
            |r: (String, bool)| (r.0@, r.1),
        ).push((label@, false)),
{
    out.push((String::from_str(label), false));
    assert(final(out)@.map_values(|r: (String, bool)| (r.0@, r.1)) =~= old(out)@.map_values(
        |r: (String, bool)| (r.0@, r.1),
    ).push((label@, false)));
}

/// The rows of the current tab, with the theme's preset set from the chosen
/// colour scheme.
pub fn settings_rows(tab: SettingsTab, state: &SettingsState, bindings: &KeybindingTable, theme: &mut UiTheme) -> (r: Vec<
    (String, bool),
>)
    ensures
        r@.map_values(|r: (String, bool)| (r.0@, r.1)) == tab_rows(tab, *state, *bindings),
        final(theme).preset == preset_at(state.interface_theme as int % 3),
{
    let preset = preset_for_index(state.interface_theme);
    if theme.preset != preset {
        theme.preset = preset;
    }
    let mut out: Vec<(String, bool)> = Vec::new();
    match tab {
        SettingsTab::General => {
            push_option(&mut out, "Auto-save: Enabled (every 5 min)");
            push_option(&mut out, "Auto-notes: Yes");
            push_option(&mut out, "Circular distance: No");
        },
        SettingsTab::Graphics => {
            push_option(&mut out, "Terminal size: 80×25");
            push_option(&mut out, "Font size: 16");
            push_option(&mut out, "Fullscreen: No");
        },
        SettingsTab::Sound => {
            push_option(&mut out, "Music volume: 80%");
            push_option(&mut out, "SFX volume: 100%");
        },
        SettingsTab::Interface => {
            let mut scheme = String::from_str("Color Scheme: ");
            scheme.append(preset.label());
            scheme.append(" (←/→ to cycle)");
            let ghost before = out@.map_values(|r: (String, bool)| (r.0@, r.1));
            out.push((scheme, false));
            assert(out@.map_values(|r: (String, bool)| (r.0@, r.1)) =~= before.push(
                ("Color Scheme: "@ + preset_label(preset) + " (←/→ to cycle)"@, false),
            ));
            push_option(&mut out, "Sidebar style: classic");
            push_option(&mut out, "Show compass: Yes");
            push_option(&mut out, "Minimap height: 100");
            push_option(&mut out, "Force capital Y/N: Yes");
        },
        SettingsTab::Keybindings => {},
    }
    let ghost fixed = option_rows(tab, preset).map_values(|l: Seq<char>| (l, false));
    assert(out@.map_values(|r: (String, bool)| (r.0@, r.1)) =~= fixed);
    if tab == SettingsTab::Keybindings {
        let mut k: usize = 0;
        while k < 4
            invariant
                k <= 4,
                tab == SettingsTab::Keybindings,
                fixed.len() == 0,
                out@.map_values(|r: (String, bool)| (r.0@, r.1)) == fixed + context_rows(
                    *bindings,
                    0,
                    state.rebinding_action,
                ).take(if k >= 1 { context_rows(*bindings, 0, state.rebinding_action).len() as int } else { 0 })
                    + (if k >= 2 { context_rows(*bindings, 1, state.rebinding_action) } else { Seq::empty() })
                    + (if k >= 3 { context_rows(*bindings, 2, state.rebinding_action) } else { Seq::empty() })
                    + (if k >= 4 { context_rows(*bindings, 3, state.rebinding_action) } else { Seq::empty() }),
            decreases 4 - k,
        {
            let ctx = editor_context_exec(k);
            let list = bindings.list_exec(k);
            let ghost start = out@.map_values(|r: (String, bool)| (r.0@, r.1));
            let mut j: usize = 0;
            while j < list.len()
                invariant
                    j <= list@.len(),
                    list@ == bindings.list(k as int),
                    ctx == editor_context(k as int),
                    out@.map_values(|r: (String, bool)| (r.0@, r.1)) == start + context_rows(
                        *bindings,
                        k as int,
                        state.rebinding_action,
                    ).take(j as int),
                decreases list@.len() - j,
            {
                let row = binding_row_exec(ctx, &list[j], &state.rebinding_action);
                let ghost before = out@.map_values(|r: (String, bool)| (r.0@, r.1));
                out.push(row);
                assert(context_rows(*bindings, k as int, state.rebinding_action).take(j + 1)
                    =~= context_rows(*bindings, k as int, state.rebinding_action).take(
                    j as int,
                ).push(binding_row(ctx, list@[j as int], state.rebinding_action)));
                assert(out@.map_values(|r: (String, bool)| (r.0@, r.1)) =~= before.push(
                    binding_row(ctx, list@[j as int], state.rebinding_action),
                ));
                j = j + 1;
            }
            assert(context_rows(*bindings, k as int, state.rebinding_action).take(j as int)
                =~= context_rows(*bindings, k as int, state.rebinding_action));
            assert(context_rows(*bindings, 0, state.rebinding_action).take(
                context_rows(*bindings, 0, state.rebinding_action).len() as int,
            ) =~= context_rows(*bindings, 0, state.rebinding_action));
            assert(context_rows(*bindings, 0, state.rebinding_action).take(0) =~= Seq::<
                (Seq<char>, bool),
            >::empty());
            k = k + 1;
        }
        assert(context_rows(*bindings, 0, state.rebinding_action).take(
            context_rows(*bindings, 0, state.rebinding_action).len() as int,
        ) =~= context_rows(*bindings, 0, state.rebinding_action));
    }
    out
}

// ---------------------------------------------------------------------------
// Navigation and the rebind flow
// ---------------------------------------------------------------------------

/// What a navigation action does to the screen: the focused row, the colour
/// scheme, and the tab to switch to, if any.
pub open spec fn navigate_step(
    action: GameAction,
    s: SettingsState,
    tab: SettingsTab,
    t: KeybindingTable,
) -> (SettingsState, Option<SettingsTab>) {
    let on_scheme = tab == SettingsTab::Interface && s.focused_row == COLOR_SCHEME_ROW;
    let count = tab_row_count(tab, t);
    let prev_tab = tab_at(tab_index(tab) + 4);
    let next_tab = tab_at(tab_index(tab) + 1);
    match action {
        GameAction::NavigatePrevTab => (SettingsState { focused_row: 0, ..s }, Some(prev_tab)),
        GameAction::NavigateNextTab => (SettingsState { focused_row: 0, ..s }, Some(next_tab)),
        GameAction::NavigateLeft => if on_scheme {
            (
                SettingsState {
                    interface_theme: if s.interface_theme == 0 {
                        2
                    } else {
                        (s.interface_theme - 1) as usize
                    },
                    ..s
                },
                None,
            )
        } else {
            (SettingsState { focused_row: 0, ..s }, Some(prev_tab))
        },
        GameAction::NavigateRight => if on_scheme {
            (SettingsState { interface_theme: ((s.interface_theme + 1) % 3) as usize, ..s }, None)
        } else {
            (SettingsState { focused_row: 0, ..s }, Some(next_tab))
        },
        GameAction::NavigateUp => if count > 0 {
            (
                SettingsState {
                    focused_row: if s.focused_row > 0 {
                        (s.focused_row - 1) as usize
                    } else {
                        0
                    },
                    ..s
                },
                None,
            )
        } else {
            (s, None)
        },
        GameAction::NavigateDown => if count > 0 {
            (
                SettingsState {
                    focused_row: if s.focused_row + 1 < count - 1 {
                        (s.focused_row + 1) as usize
                    } else {
                        (count - 1) as usize
                    },
                    ..s
                },
                None,
            )
        } else {
            (s, None)
        },
        GameAction::NavigateHome => (SettingsState { focused_row: 0, ..s }, None),
        GameAction::NavigateEnd => if count > 0 {
            (SettingsState { focused_row: (count - 1) as usize, ..s }, None)
        } else {
            (s, None)
        },
        _ => (s, None),
    }
}

/// Down moves the focus one row down, stopping at the tab's last row (a
/// focus at or past the last row lands on it): the new row is
/// `min(row + 1, count - 1)`. Up moves it one row up, stopping at the first:
/// `max(row - 1, 0)`. Neither switches tabs or changes anything but the
/// focused row, and neither does anything on a tab without rows.
pub proof fn lemma_up_down_move_one_row(s: SettingsState, tab: SettingsTab, t: KeybindingTable)
    requires
        tab_row_count(tab, t) <= usize::MAX,
    ensures
        ({
            let (d, dt) = navigate_step(GameAction::NavigateDown, s, tab, t);
            let count = tab_row_count(tab, t);
            &&& dt is None
            &&& d == SettingsState { focused_row: d.focused_row, ..s }
            &&& count == 0 ==> d == s
            &&& count > 0 ==> d.focused_row < count && d.focused_row <= s.focused_row + 1
            &&& count > 0 && s.focused_row + 1 < count ==> d.focused_row == s.focused_row + 1
            &&& count > 0 && s.focused_row + 1 >= count ==> d.focused_row == count - 1
        }),
        ({
            let (u, ut) = navigate_step(GameAction::NavigateUp, s, tab, t);
            let count = tab_row_count(tab, t);
            &&& ut is None
            &&& u == SettingsState { focused_row: u.focused_row, ..s }
            &&& count == 0 ==> u == s
            &&& count > 0 && s.focused_row > 0 ==> u.focused_row == s.focused_row - 1
            &&& count > 0 && s.focused_row == 0 ==> u.focused_row == 0
        }),
{
}

/// Applies one navigation action: tabs switch with Next/Prev (and
/// Left/Right, except on the colour-scheme row, where they cycle the
/// schemes), and the focused row moves within the current tab. Returns the
/// tab to switch to.
pub fn navigate(
    action: &GameAction,
    state: &mut SettingsState,
    tab: SettingsTab,
    bindings: &KeybindingTable,
) -> (next_tab: Option<SettingsTab>)
    requires
        bindings.total() <= usize::MAX,
    ensures
        (*final(state), next_tab) == navigate_step(*action, *old(state), tab, *bindings),
{
    let on_scheme = tab == SettingsTab::Interface && state.focused_row == COLOR_SCHEME_ROW;
    match action {
        GameAction::NavigatePrevTab => {
            state.focused_row = 0;
            Some(tab.prev())
        },
        GameAction::NavigateNextTab => {
            state.focused_row = 0;
            Some(tab.next())
        },
        GameAction::NavigateLeft => {
            if on_scheme {
                let n: usize = 3;
                state.interface_theme =
                    if state.interface_theme == 0 {
                        n - 1
                    } else {
                        state.interface_theme - 1
                    };
                None
            } else {
                state.focused_row = 0;
                Some(tab.prev())
            }
        },
        GameAction::NavigateRight => {
            if on_scheme {
                state.interface_theme = (state.interface_theme % 3 + 1) % 3;
                proof {
                    vstd::arithmetic::div_mod::lemma_add_mod_noop(
                        old(state).interface_theme as int,
                        1,
                        3,
                    );
                    vstd::arithmetic::div_mod::lemma_small_mod(1, 3);
                }
                None
            } else {
                state.focused_row = 0;
                Some(tab.next())
            }
        },
        GameAction::NavigateUp => {
            let count = row_count(&tab, bindings);
            if count > 0 {
                state.focused_row =
                    if state.focused_row > 0 {
                        state.focused_row - 1
                    } else {
                        0
                    };
            }
            None
        },
        GameAction::NavigateDown => {
            let count = row_count(&tab, bindings);
            if count > 0 {
                state.focused_row =
                    if state.focused_row < count - 1 && count - 1 - state.focused_row > 1 {
                        state.focused_row + 1
                    } else {
                        count - 1
                    };
            }
            None
        },
        GameAction::NavigateHome => {
            state.focused_row = 0;
            None
        },
        GameAction::NavigateEnd => {
            let count = row_count(&tab, bindings);
            if count > 0 {
                state.focused_row = count - 1;
            }
            None
        },
        _ => None,
    }
}

/// Confirm on the colour-scheme row of the interface tab advances the
/// scheme; Confirm on the keybinding tab starts rebinding the focused
/// binding and asks for a key capture; Cancel during a rebind stops it and
/// drops the capture.
pub fn handle_confirm(
    action: &GameAction,
    state: &mut SettingsState,
    tab: SettingsTab,
    bindings: &KeybindingTable,
    capture: &mut Option<(InputContextId, u32)>,
)
    ensures
        *action == GameAction::Confirm && tab == SettingsTab::Keybindings && binding_at(
            *bindings,
            old(state).focused_row as int,
        ) is Some ==> {
            &&& final(state).rebinding_action == binding_at(*bindings, old(state).focused_row as int)
            &&& *final(capture) == binding_at(*bindings, old(state).focused_row as int)
        },
        *action == GameAction::Cancel && old(state).rebinding_action is Some ==> {
            &&& final(state).rebinding_action is None
            &&& *final(capture) is None
        },
        !(*action == GameAction::Confirm && tab == SettingsTab::Keybindings && binding_at(
            *bindings,
            old(state).focused_row as int,
        ) is Some) && !(*action == GameAction::Cancel && old(state).rebinding_action is Some) ==> {
            &&& final(state).rebinding_action == old(state).rebinding_action
            &&& *final(capture) == *old(capture)
        },
        final(state).focused_row == old(state).focused_row,
        final(state).interface_theme == if *action == GameAction::Confirm && tab
            == SettingsTab::Interface && old(state).focused_row == COLOR_SCHEME_ROW {
            ((old(state).interface_theme + 1) % 3) as usize
        } else {
            old(state).interface_theme
        },
{
    if *action == GameAction::Confirm {
        if tab == SettingsTab::Interface && state.focused_row == COLOR_SCHEME_ROW {
            state.interface_theme = (state.interface_theme % 3 + 1) % 3;
            proof {
                vstd::arithmetic::div_mod::lemma_add_mod_noop(
                    old(state).interface_theme as int,
                    1,
                    3,
                );
                vstd::arithmetic::div_mod::lemma_small_mod(1, 3);
            }
        }
        if tab == SettingsTab::Keybindings {
            match find_binding_at_row(state, bindings) {
                Some(found) => {
                    state.rebinding_action = Some(found);
                    *capture = Some(found);
                },
                None => {},
            }
        }
    } else if *action == GameAction::Cancel {
        if state.rebinding_action.is_some() {
            state.rebinding_action = None;
            *capture = None;
        }
    }
}

/// A rebind ends when the key capture has been consumed.
pub fn detect_rebind_complete(state: &mut SettingsState, capture_pending: bool)
    ensures
        final(state).rebinding_action == if old(state).rebinding_action is Some
            && !capture_pending {
            None
        } else {
            old(state).rebinding_action
        },
        final(state).focused_row == old(state).focused_row,
        final(state).interface_theme == old(state).interface_theme,
{
    if state.rebinding_action.is_some() && !capture_pending {
        state.rebinding_action = None;
    }
}

// ---------------------------------------------------------------------------
// Laws of navigation
// ---------------------------------------------------------------------------

/// On the colour-scheme row, Left undoes Right (for a scheme among the
/// presets).
pub proof fn lemma_scheme_left_undoes_right(s: SettingsState, t: KeybindingTable)
    requires
        s.focused_row == COLOR_SCHEME_ROW,
        s.interface_theme < 3,
    ensures
        navigate_step(
            GameAction::NavigateLeft,
            navigate_step(GameAction::NavigateRight, s, SettingsTab::Interface, t).0,
            SettingsTab::Interface,
            t,
        ).0 == s,
{
}

/// Up and Down keep the focused row within the tab's rows, when it was.
pub proof fn lemma_row_moves_stay_in_tab(
    action: GameAction,
    s: SettingsState,
    tab: SettingsTab,
    t: KeybindingTable,
)
    requires
        action == GameAction::NavigateUp || action == GameAction::NavigateDown || action
            == GameAction::NavigateEnd || action == GameAction::NavigateHome,
        s.focused_row < tab_row_count(tab, t),
    ensures
        navigate_step(action, s, tab, t).0.focused_row < tab_row_count(tab, t),
        navigate_step(action, s, tab, t).1 is None,
{
}

/// Switching tabs always starts at the first row of the new tab.
pub proof fn lemma_tab_switch_starts_at_top(
    action: GameAction,
    s: SettingsState,
    tab: SettingsTab,
    t: KeybindingTable,
)
    requires
        navigate_step(action, s, tab, t).1 is Some,
    ensures
        navigate_step(action, s, tab, t).0.focused_row == 0,
{
}

} // verus!
