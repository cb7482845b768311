//! Which screen is active and where navigation goes back to, the examine
//! cursor, and keyboard focus among panels.
use vstd::prelude::*;
use crate::actions::GameAction;
use crate::state_hash::Position;
use crate::overmap::join_names;
use crate::text::{chars_of, decimal, digits, join_with};

verus! {

/// A top-level screen or overlay.
#[derive(Clone, Copy, Debug, PartialEq, Eq, Structural)]
pub enum Screen {
    /// Title screen and main menu.
    MainMenu,
    /// Free-roam gameplay with the world viewport.
    Gameplay,
    /// Hub after "New Game".
    NewGameHub,
    ScenarioSelect,
    ProfessionSelect,
    CharacterCreation,
    /// Final review before the game starts.
    CharacterConfirm,
    WorldMenu,
    WorldSettings,
    SettingsMenu,
    HelpScreen,
    CreditsScreen,
    Inventory,
    CraftingMenu,
    CharacterSheet,
    /// Browsing what is at a tile.
    ExamineLook,
    /// A yes/no prompt.
    Dialog,
    /// Choosing a direction (throwing, shooting, placing).
    DirectionSelect,
    TextInput,
    PauseMenu,
    /// "How many?"
    QuantityInput,
    VehicleInteraction,
    /// The building showcase of world generation.
    DevWorldgen,
    /// Extensible fallback.
    Custom(u32),
}

impl Default for Screen {
    /// The main menu.
    fn default() -> (s: Screen)
        ensures
            s == Screen::MainMenu,
    {
        Screen::MainMenu
    }
}

/// The screens drawn in the shared command-menu frame: the main menu and the
/// plain command menus (the gameplay panes keep their own presenters).
pub open spec fn command_menu(s: Screen) -> bool {
    match s {
        Screen::MainMenu | Screen::DevWorldgen | Screen::NewGameHub | Screen::WorldMenu
        | Screen::WorldSettings | Screen::ScenarioSelect | Screen::ProfessionSelect
        | Screen::CharacterCreation | Screen::CharacterConfirm | Screen::HelpScreen
        | Screen::CreditsScreen | Screen::PauseMenu => true,
        Screen::Custom(n) => n == 0 || n == 1,
        _ => false,
    }
}

/// Whether a screen is drawn in the shared command-menu frame.
pub fn is_command_menu(screen: Screen) -> (r: bool)
    ensures
        r == command_menu(screen),
{
    match screen {
        Screen::MainMenu | Screen::DevWorldgen | Screen::NewGameHub | Screen::WorldMenu
        | Screen::WorldSettings | Screen::ScenarioSelect | Screen::ProfessionSelect
        | Screen::CharacterCreation | Screen::CharacterConfirm | Screen::HelpScreen
        | Screen::CreditsScreen | Screen::PauseMenu => true,
        Screen::Custom(n) => n == 0 || n == 1,
        _ => false,
    }
}

/// The parents of the active screen, innermost last: where going back
/// returns to.
#[derive(Clone, Debug)]
pub struct ScreenStack(pub Vec<Screen>);

impl Default for ScreenStack {
    /// No parent screens.
    fn default() -> (s: ScreenStack)
        ensures
            s.0@.len() == 0,
    {
        ScreenStack(Vec::new())
    }
}

/// The tile under the examine or targeting cursor; `None` when no cursor is
/// active.
#[derive(Clone, Copy, Debug)]
pub struct ExamineCursor {
    pub tile: Option<Position>,
}

impl Default for ExamineCursor {
    /// No cursor.
    fn default() -> (c: ExamineCursor)
        ensures
            c.tile is None,
    {
        ExamineCursor { tile: None }
    }
}

/// A panel that takes part in keyboard focus: its place in the traversal
/// order and the action sent when it is confirmed.
#[derive(Clone, Copy, Debug, PartialEq, Eq, Structural)]
pub struct KeyboardFocusable {
    pub focus_order: u32,
    pub confirm_action: Option<GameAction>,
}

/// The panel (by entity bits) that has keyboard focus, if any.
#[derive(Clone, Copy, Debug, PartialEq, Eq, Structural)]
pub struct InputFocus {
    pub entity: Option<u64>,
}

impl Default for InputFocus {
    /// Nothing focused.
    fn default() -> (f: InputFocus)
        ensures
            f.entity is None,
    {
        InputFocus { entity: None }
    }
}


// ---------------------------------------------------------------------------
// The loading screen and the world view
// ---------------------------------------------------------------------------

/// A command of the loading screen.
#[derive(Clone, Copy, Debug, PartialEq, Eq, Structural)]
pub enum OperationCommand {
    ReturnToMenu,
    Retry,
}

/// The command an action sends on the loading screen: Cancel returns to the
/// menu, Confirm retries a failed operation.
pub open spec fn loading_command(a: GameAction, failed: bool) -> Option<OperationCommand> {
    match a {
        GameAction::Cancel => Some(OperationCommand::ReturnToMenu),
        GameAction::Confirm => if failed {
            Some(OperationCommand::Retry)
        } else {
            None
        },
        _ => None,
    }
}

/// The commands the loading screen's actions send, in order.
pub open spec fn loading_commands(actions: Seq<GameAction>, failed: bool) -> Seq<OperationCommand>
    decreases actions.len(),
{
    if actions.len() == 0 {
        Seq::empty()
    } else {
        let prev = loading_commands(actions.drop_last(), failed);
        match loading_command(actions.last(), failed) {
            Some(c) => prev.push(c),
            None => prev,
        }
    }
}

/// The loading screen's keys: one command per Cancel, and per Confirm while
/// the operation has failed.
pub fn loading_input(actions: &[GameAction], failed: bool) -> (r: Vec<OperationCommand>)
    ensures
        r@ == loading_commands(actions@, failed),
{
    let mut out: Vec<OperationCommand> = Vec::new();
    let mut i: usize = 0;
    while i < actions.len()
        invariant
            i <= actions@.len(),
            out@ == loading_commands(actions@.take(i as int), failed),
        decreases actions@.len() - i,
    {
        assert(actions@.take(i + 1).drop_last() =~= actions@.take(i as int));
        match actions[i] {
            GameAction::Cancel => out.push(OperationCommand::ReturnToMenu),
            GameAction::Confirm => {
                if failed {
                    out.push(OperationCommand::Retry);
                }
            },
            _ => {},
        }
        i = i + 1;
    }
    assert(actions@.take(actions@.len() as int) =~= actions@);
    out
}

/// An integer in decimal with a minus sign when negative.
pub open spec fn int_text(n: int) -> Seq<char> {
    if n < 0 {
        "-"@ + digits((-n) as nat, 10)
    } else {
        digits(n as nat, 10)
    }
}

pub(crate) fn int_exec(n: i32) -> (r: String)
    ensures
        r@ == int_text(n as int),
{
    if n < 0 {
        let m: u64 = if n == i32::MIN {
            2147483648u64
        } else {
            (-n) as u64
        };
        let mut out = String::from_str("-");
        out.append(decimal(m).as_str());
        out
    } else {
        decimal(n as u64)
    }
}

/// The status line of the world view: the position, with building and
/// bubble data not available.
pub fn worldgen_status_text(cx: i32, cy: i32, cz: i32) -> (r: String)
    ensures
        r@ == "Pos: ("@ + int_text(cx as int) + ", "@ + int_text(cy as int) + ", z="@ + int_text(
            cz as int,
        ) + ") | Building: n/a | Bubbles: n/a | Placements: n/a"@,
{
    let mut out = String::from_str("Pos: (");
    out.append(int_exec(cx).as_str());
    out.append(", ");
    out.append(int_exec(cy).as_str());
    out.append(", z=");
    out.append(int_exec(cz).as_str());
    out.append(") | Building: n/a | Bubbles: n/a | Placements: n/a");
    out
}

/// The status line of the world view without building data.
pub open spec fn worldgen_status(cx: int, cy: int, cz: int) -> Seq<char> {
    "Pos: ("@ + int_text(cx) + ", "@ + int_text(cy) + ", z="@ + int_text(cz)
        + ") | Building: n/a | Bubbles: n/a | Placements: n/a"@
}

/// A loose item on the ground, as the world view's status line reads it:
/// its tile, and its name and volume where it has them.
#[derive(Debug)]
pub struct FloorItem {
    pub position: (i32, i32, i32),
    pub name: Option<String>,
    pub volume_ml: Option<u32>,
}

/// Whether a tile lies in map tile `(cx, cy)` on level `cz`, map tiles being
/// `t` tiles wide.
pub open spec fn on_map_tile(p: (i32, i32, i32), cx: int, cy: int, cz: int, t: int) -> bool {
    p.0 as int / t == cx && p.1 as int / t == cy && p.2 == cz
}

pub open spec fn on_tile_of(cx: int, cy: int, cz: int, t: int) -> spec_fn(FloorItem) -> bool {
    |i: FloorItem| on_map_tile(i.position, cx, cy, cz, t)
}

pub open spec fn floor_name(i: FloorItem) -> Seq<char> {
    match i.name {
        Some(n) => n@,
        None => "?"@,
    }
}

pub open spec fn floor_volume(i: FloorItem) -> nat {
    match i.volume_ml {
        Some(v) => v as nat,
        None => 0,
    }
}

pub open spec fn volume_total(s: Seq<FloorItem>) -> nat
    decreases s.len(),
{
    if s.len() == 0 {
        0
    } else {
        volume_total(s.drop_last()) + floor_volume(s.last())
    }
}

/// What lies on the tile: the names joined by `, ` (or `none`), then the
/// floor's fill in litres of its capacity and as a percentage.
pub open spec fn ground_text(here: Seq<FloorItem>, cap: nat) -> Seq<char> {
    let vol = volume_total(here);
    let pct = vol * 100 / (if cap > 0 {
        cap
    } else {
        1
    });
    (if here.len() == 0 {
        "none"@
    } else {
        join_names(here.map_values(|i: FloorItem| floor_name(i)))
    }) + "  [floor "@ + digits(vol / 1000, 10) + "/"@ + digits(cap / 1000, 10) + " L ("@ + digits(
        pct,
        10,
    ) + "%)]"@
}

/// The carried items, each as `?:` and its name (`?` for none), in the order
/// given, or `empty`.
pub open spec fn inventory_text(items: Seq<Option<String>>) -> Seq<char> {
    if items.len() == 0 {
        "empty"@
    } else {
        join_with(
            items.map_values(
                |n: Option<String>|
                    "?:"@ + match n {
                        Some(s) => s@,
                        None => "?"@,
                    },
            ),
            " "@,
        )
    }
}

/// How many hands hold something out of how many there are.
pub open spec fn hands_text(hands: Option<(usize, u32)>) -> Seq<char> {
    match hands {
        Some((held, count)) => digits(held as nat, 10) + "/"@ + digits(count as nat, 10)
            + " hands used"@,
        None => "? hands"@,
    }
}

/// The status panel of the world view with items: the position line, what
/// lies on the current map tile, what the player carries, the hands, and the
/// key help.
pub open spec fn items_status(
    cx: int,
    cy: int,
    cz: int,
    ground: Seq<FloorItem>,
    tiles_per_omt: int,
    floor_cap_ml: nat,
    inventory: Seq<Option<String>>,
    hands: Option<(usize, u32)>,
) -> Seq<char> {
    worldgen_status(cx, cy, cz) + "\nHere: "@ + ground_text(
        ground.filter(on_tile_of(cx, cy, cz, tiles_per_omt)),
        floor_cap_ml,
    ) + "\nInv: "@ + inventory_text(inventory) + "  ["@ + hands_text(hands)
        + "]\nArrows:move | g:pickup | d:drop | Esc:back"@
}

proof fn lemma_tile_of(x: int, c: int, t: int)
    requires
        t > 0,
    ensures
        (x / t == c) <==> (c * t <= x < c * t + t),
{
    vstd::arithmetic::div_mod::lemma_fundamental_div_mod(x, t);
    vstd::arithmetic::div_mod::lemma_mod_bound(x, t);
    let q = x / t;
    let r = x % t;
    assert((c * t <= x && x < c * t + t) ==> q == c) by (nonlinear_arith)
        requires
            x == t * q + r,
            0 <= r < t,
    ;
    assert(q == c ==> (c * t <= x && x < c * t + t)) by (nonlinear_arith)
        requires
            x == t * q + r,
            0 <= r < t,
    ;
}

fn on_map_tile_exec(p: (i32, i32, i32), cx: i32, cy: i32, cz: i32, t: i32) -> (r: bool)
    requires
        t > 0,
    ensures
        r == on_map_tile(p, cx as int, cy as int, cz as int, t as int),
{
    proof {
        lemma_tile_of(p.0 as int, cx as int, t as int);
        lemma_tile_of(p.1 as int, cy as int, t as int);
        assert(-0x8000_0000_0000_0000 < (cx as int) * (t as int) < 0x4000_0000_0000_0000)
            by (nonlinear_arith)
            requires
                -0x8000_0000 <= cx < 0x8000_0000,
                0 < t < 0x8000_0000,
        ;
        assert(-0x8000_0000_0000_0000 < (cy as int) * (t as int) < 0x4000_0000_0000_0000)
            by (nonlinear_arith)
            requires
                -0x8000_0000 <= cy < 0x8000_0000,
                0 < t < 0x8000_0000,
        ;
    }
    let lo_x: i64 = (cx as i64) * (t as i64);
    let lo_y: i64 = (cy as i64) * (t as i64);
    lo_x <= p.0 as i64 && (p.0 as i64) < lo_x + (t as i64) && lo_y <= p.1 as i64 && (p.1 as i64)
        < lo_y + (t as i64) && p.2 == cz
}

fn ground_line(
    cx: i32,
    cy: i32,
    cz: i32,
    ground: &Vec<FloorItem>,
    tiles_per_omt: i32,
    floor_cap_ml: u32,
) -> (r: String)
    requires
        tiles_per_omt > 0,
        volume_total(ground@.filter(on_tile_of(cx as int, cy as int, cz as int, tiles_per_omt as int)))
            * 100 <= u32::MAX,
    ensures
        r@ == ground_text(
            ground@.filter(on_tile_of(cx as int, cy as int, cz as int, tiles_per_omt as int)),
            floor_cap_ml as nat,
        ),
{
    let ghost p = on_tile_of(cx as int, cy as int, cz as int, tiles_per_omt as int);
    let ghost here_all = ground@.filter(p);
    let mut names = String::new();
    let mut found: usize = 0;
    let mut volume: u32 = 0;
    let mut i: usize = 0;
    proof {
        reveal(Seq::filter);
        assert(ground@.take(0) =~= Seq::<FloorItem>::empty());
    }
    while i < ground.len()
        invariant
            i <= ground@.len(),
            tiles_per_omt > 0,
            p == on_tile_of(cx as int, cy as int, cz as int, tiles_per_omt as int),
            here_all == ground@.filter(p),
            volume_total(here_all) * 100 <= u32::MAX,
            found == ground@.take(i as int).filter(p).len(),
            volume == volume_total(ground@.take(i as int).filter(p)),
            found == 0 ==> names@ == Seq::<char>::empty(),
            found > 0 ==> names@ == join_names(
                ground@.take(i as int).filter(p).map_values(|it: FloorItem| floor_name(it)),
            ),
        decreases ground@.len() - i,
    {
        let item = &ground[i];
        let ghost before = ground@.take(i as int).filter(p);
        let ghost before_names = names@;
        proof {
            assert(ground@.take(i + 1) =~= ground@.take(i as int).push(ground@[i as int]));
            ground@.take(i as int).lemma_filter_push(ground@[i as int], p);
            lemma_filter_prefix_total(ground@, i + 1, p);
        }
        if on_map_tile_exec(item.position, cx, cy, cz, tiles_per_omt) {
            let ghost after = before.push(*item);
            proof {
                assert(after.drop_last() =~= before);
                assert(ground@.take(i + 1).filter(p) == after);
            }
            let v: u32 = match item.volume_ml {
                Some(v) => v,
                None => 0,
            };
            volume = volume + v;
            if found > 0 {
                names.append(", ");
            }
            match &item.name {
                Some(n) => names.append(n.as_str()),
                None => names.append("?"),
            }
            proof {
                let ns = after.map_values(|it: FloorItem| floor_name(it));
                assert(ns.drop_last() =~= before.map_values(|it: FloorItem| floor_name(it)));
                assert(ns.last() == floor_name(*item));
                if found == 0 {
                    assert(before.len() == 0);
                    assert(ns.len() == 1);
                    assert(names@ =~= ns[0]);
                } else {
                    assert(names@ =~= before_names + ", "@ + ns.last());
                }
            }
            found = found + 1;
        }
        i = i + 1;
    }
    proof {
        assert(ground@.take(ground@.len() as int) =~= ground@);
    }
    let cap_div: u32 = if floor_cap_ml > 0 {
        floor_cap_ml
    } else {
        1
    };
    let pct: u32 = volume * 100 / cap_div;
    let mut out = if found == 0 {
        String::from_str("none")
    } else {
        names
    };
    out.append("  [floor ");
    out.append(decimal((volume / 1000) as u64).as_str());
    out.append("/");
    out.append(decimal((floor_cap_ml / 1000) as u64).as_str());
    out.append(" L (");
    out.append(decimal(pct as u64).as_str());
    out.append("%)]");
    out
}

fn hands_line(hands: Option<(usize, u32)>) -> (r: String)
    ensures
        r@ == hands_text(hands),
{
    match hands {
        Some((held, count)) => {
            let mut out = decimal(held as u64);
            out.append("/");
            out.append(decimal(count as u64).as_str());
            out.append(" hands used");
            out
        },
        None => String::from_str("? hands"),
    }
}

/// The status panel of the world view with items. Map tiles are
/// `tiles_per_omt` tiles wide and the floor of a tile holds `floor_cap_ml`
/// millilitres; the volume on the tile, as a percentage, fits in 32 bits.
pub fn status_text_with_items(
    cx: i32,
    cy: i32,
    cz: i32,
    ground: &Vec<FloorItem>,
    tiles_per_omt: i32,
    floor_cap_ml: u32,
    inventory: &Vec<Option<String>>,
    hands: Option<(usize, u32)>,
) -> (r: String)
    requires
        tiles_per_omt > 0,
        volume_total(ground@.filter(on_tile_of(cx as int, cy as int, cz as int, tiles_per_omt as int)))
            * 100 <= u32::MAX,
    ensures
        r@ == items_status(
            cx as int,
            cy as int,
            cz as int,
            ground@,
            tiles_per_omt as int,
            floor_cap_ml as nat,
            inventory@,
            hands,
        ),
{
    let mut out = worldgen_status_text(cx, cy, cz);
    out.append("\nHere: ");
    out.append(ground_line(cx, cy, cz, ground, tiles_per_omt, floor_cap_ml).as_str());
    out.append("\nInv: ");
    out.append(inventory_line(inventory).as_str());
    out.append("  [");
    out.append(hands_line(hands).as_str());
    out.append("]\nArrows:move | g:pickup | d:drop | Esc:back");
    out
}

proof fn lemma_filter_prefix_total(s: Seq<FloorItem>, n: int, p: spec_fn(FloorItem) -> bool)
    requires
        0 <= n <= s.len(),
    ensures
        volume_total(s.take(n).filter(p)) <= volume_total(s.filter(p)),
    decreases s.len() - n,
{
    if n < s.len() {
        lemma_filter_prefix_total(s, n + 1, p);
        assert(s.take(n + 1) =~= s.take(n).push(s[n]));
        s.take(n).lemma_filter_push(s[n], p);
        if p(s[n]) {
            assert(s.take(n + 1).filter(p).drop_last() =~= s.take(n).filter(p));
        }
    } else {
        assert(s.take(n) =~= s);
    }
}

fn inventory_line(items: &Vec<Option<String>>) -> (r: String)
    ensures
        r@ == inventory_text(items@),
{
    if items.len() == 0 {
        return String::from_str("empty");
    }
    let ghost parts = items@.map_values(
        |n: Option<String>|
            "?:"@ + match n {
                Some(s) => s@,
                None => "?"@,
            },
    );
    let mut out = String::new();
    let mut i: usize = 0;
    while i < items.len()
        invariant
            i <= items@.len(),
            parts == items@.map_values(
                |n: Option<String>|
                    "?:"@ + match n {
                        Some(s) => s@,
                        None => "?"@,
                    },
            ),
            out@ == join_with(parts.take(i as int), " "@),
        decreases items@.len() - i,
    {
        let ghost before = out@;
        if i > 0 {
            out.append(" ");
        }
        out.append("?:");
        match &items[i] {
            Some(n) => out.append(n.as_str()),
            None => out.append("?"),
        }
        proof {
            let next = parts.take(i + 1);
            assert(next.drop_last() =~= parts.take(i as int));
            if i == 0 {
                assert(out@ =~= next[0]);
            } else {
                assert(out@ =~= before + " "@ + next.last());
            }
        }
        i = i + 1;
    }
    proof {
        assert(parts.take(items@.len() as int) =~= parts);
    }
    out
}

/// The symbol of an overmap terrain: its id's first character, else `?`.
pub fn omt_symbol(omt_id: &str) -> (c: char)
    ensures
        c == if omt_id@.len() > 0 {
            omt_id@[0]
        } else {
            '?'
        },
{
    let cs = chars_of(omt_id);
    if cs.len() > 0 {
        cs[0]
    } else {
        '?'
    }
}


/// The footer of a screen: how to close it, then each of its actions with
/// its key: `[Esc] close  [/] filter  [Enter] spawn`.
pub open spec fn footer_text(cancel_key: Seq<char>, actions: Seq<(Seq<char>, Seq<char>)>) -> Seq<char>
    decreases actions.len(),
{
    if actions.len() == 0 {
        "["@ + cancel_key + "] close"@
    } else {
        footer_text(cancel_key, actions.drop_last()) + "  ["@ + actions.last().0 + "] "@
            + actions.last().1
    }
}

/// The footer of a screen from the cancel key and the `(key, label)` of
/// each action.
pub fn footer_hints(cancel_key: &str, actions: &Vec<(String, String)>) -> (r: String)
    ensures
        r@ == footer_text(cancel_key@, actions@.map_values(|a: (String, String)| (a.0@, a.1@))),
{
    let ghost views = actions@.map_values(|a: (String, String)| (a.0@, a.1@));
    let mut out = String::from_str("[");
    out.append(cancel_key);
    out.append("] close");
    let mut i: usize = 0;
    while i < actions.len()
        invariant
            i <= actions@.len(),
            views == actions@.map_values(|a: (String, String)| (a.0@, a.1@)),
            out@ == footer_text(cancel_key@, views.take(i as int)),
        decreases actions@.len() - i,
    {
        out.append("  [");
        out.append(actions[i].0.as_str());
        out.append("] ");
        out.append(actions[i].1.as_str());
        assert(views.take(i + 1).drop_last() =~= views.take(i as int));
        i = i + 1;
    }
    assert(views.take(actions@.len() as int) =~= views);
    out
}


// ---------------------------------------------------------------------------
// The world view in text
// ---------------------------------------------------------------------------

/// Columns of the text world view.
pub const VIEW_COLS: usize = 40;
/// Rows of the text world view.
pub const VIEW_ROWS: usize = 24;

/// A building placed on an overmap tile: the building and the overmap
/// terrain it puts there.
#[derive(Clone, Debug)]
pub struct Placement {
    pub building_id: String,
    pub omt_id: String,
}

/// What the world view knows of the map: the building placements by
/// overmap tile position, and the positions that hold a generated bubble.
#[derive(Clone, Debug)]
pub struct WorldView {
    pub placements: Vec<((i32, i32, i32), Placement)>,
    pub bubbles: Vec<(i32, i32, i32)>,
}

/// The placement at `p`, the first one there.
pub open spec fn placement_at(placements: Seq<((i32, i32, i32), Placement)>, p: (int, int, int)) -> Option<Placement>
    decreases placements.len(),
{
    if placements.len() == 0 {
        None
    } else if (placements[0].0.0 as int, placements[0].0.1 as int, placements[0].0.2 as int) == p {
        Some(placements[0].1)
    } else {
        placement_at(placements.drop_first(), p)
    }
}

/// Whether a bubble was generated at `p`.
pub open spec fn bubble_at(bubbles: Seq<(i32, i32, i32)>, p: (int, int, int)) -> bool {
    exists|k: int| 0 <= k < bubbles.len() && (bubbles[k].0 as int, bubbles[k].1 as int, bubbles[k].2 as int) == p
}

/// The character of a cell of the view: `@` at the centre, the placed
/// terrain's symbol, `.` for a bubble, else blank.
pub open spec fn cell_char(w: WorldView, center: (int, int, int), x: int, y: int) -> char {
    if x == center.0 && y == center.1 {
        '@'
    } else {
        match placement_at(w.placements@, (x, y, center.2)) {
            Some(pl) => if pl.omt_id@.len() > 0 {
                pl.omt_id@[0]
            } else {
                '?'
            },
            None => if bubble_at(w.bubbles@, (x, y, center.2)) {
                '.'
            } else {
                ' '
            },
        }
    }
}

/// The view's frame line: `+`, a `=` per column, `+`.
pub open spec fn frame_line() -> Seq<char> {
    seq!['+'] + Seq::new(VIEW_COLS as nat, |_i: int| '=') + seq!['+']
}

/// Row `r` of the view, centred on `center`, between bars and ending the line.
pub open spec fn view_row(w: WorldView, center: (int, int, int), r: int) -> Seq<char> {
    let start_x = center.0 - (VIEW_COLS / 2) as int;
    let start_y = center.1 - (VIEW_ROWS / 2) as int;
    seq!['|'] + Seq::new(VIEW_COLS as nat, |c: int| cell_char(w, center, start_x + c, start_y + r))
        + seq!['|', '\n']
}

/// The rows before row `r`.
pub open spec fn view_rows(w: WorldView, center: (int, int, int), r: int) -> Seq<char>
    decreases r,
{
    if r <= 0 {
        Seq::empty()
    } else {
        view_rows(w, center, r - 1) + view_row(w, center, r - 1)
    }
}

/// The text view of the map around `center`: framed rows, north up in
/// increasing `y`.
pub open spec fn viewport_text(w: WorldView, center: (int, int, int)) -> Seq<char> {
    frame_line() + seq!['\n'] + view_rows(w, center, VIEW_ROWS as int) + frame_line()
}

proof fn lemma_view_rows_layout(w: WorldView, center: (int, int, int), n: int)
    requires
        n >= 0,
    ensures
        view_rows(w, center, n).len() == n * (VIEW_COLS + 3),
        forall|r: int, k: int|
            0 <= r < n && 0 <= k < VIEW_COLS + 3 ==> view_rows(w, center, n)[r * (VIEW_COLS + 3) + k]
                == #[trigger] view_row(w, center, r)[k],
    decreases n,
{
    if n > 0 {
        lemma_view_rows_layout(w, center, n - 1);
        let a = view_rows(w, center, n - 1);
        let b = view_row(w, center, n - 1);
        assert(b.len() == VIEW_COLS + 3);
        assert forall|r: int, k: int|
            0 <= r < n && 0 <= k < VIEW_COLS + 3 implies view_rows(w, center, n)[r * (VIEW_COLS + 3) + k]
                == #[trigger] view_row(w, center, r)[k] by {
            if r < n - 1 {
                assert(r * (VIEW_COLS + 3) + k < (n - 1) * (VIEW_COLS + 3)) by (nonlinear_arith)
                    requires
                        r < n - 1,
                        0 <= k < VIEW_COLS + 3,
                ;
                assert((a + b)[r * (VIEW_COLS + 3) + k] == a[r * (VIEW_COLS + 3) + k]);
            } else {
                assert((a + b)[r * (VIEW_COLS + 3) + k] == b[k]);
            }
        }
    }
}

/// What the viewport shows at column `c`, row `r` of its map (the character
/// at `(r + 1) * (VIEW_COLS + 3) + 1 + c` of its text: past the top frame
/// line and the row's left bar), for the map cell
/// `(center.x - VIEW_COLS / 2 + c, center.y - VIEW_ROWS / 2 + r)`: `@` at
/// the centre; elsewhere the first character of the overmap terrain id of the
/// first placement there (`?` for an empty id), whether or not a bubble is
/// loaded there; `.` for a loaded bubble without a placement; else blank.
pub proof fn lemma_viewport_cell(w: WorldView, center: (int, int, int), c: int, r: int)
    requires
        0 <= c < VIEW_COLS,
        0 <= r < VIEW_ROWS,
    ensures
        ({
            let x = center.0 - (VIEW_COLS / 2) as int + c;
            let y = center.1 - (VIEW_ROWS / 2) as int + r;
            let shown = viewport_text(w, center)[(r + 1) * (VIEW_COLS + 3) + 1 + c];
            &&& x == center.0 && y == center.1 ==> shown == '@'
            &&& !(x == center.0 && y == center.1) ==> match placement_at(w.placements@, (x, y, center.2)) {
                Some(pl) => shown == (if pl.omt_id@.len() > 0 { pl.omt_id@[0] } else { '?' }),
                None => shown == (if bubble_at(w.bubbles@, (x, y, center.2)) { '.' } else { ' ' }),
            }
        }),
{
    lemma_view_rows_layout(w, center, VIEW_ROWS as int);
    let head = frame_line() + seq!['\n'];
    let body = view_rows(w, center, VIEW_ROWS as int);
    assert(head.len() == VIEW_COLS + 3);
    let text = viewport_text(w, center);
    assert(text == head + body + frame_line());
    let k = 1 + c;
    let pos = (r + 1) * (VIEW_COLS + 3) + 1 + c;
    assert(pos == (VIEW_COLS + 3) + (r * (VIEW_COLS + 3) + k)) by (nonlinear_arith)
        requires
            pos == (r + 1) * (VIEW_COLS + 3) + 1 + c,
            k == 1 + c,
    ;
    assert(r * (VIEW_COLS + 3) + k < VIEW_ROWS * (VIEW_COLS + 3)) by (nonlinear_arith)
        requires
            0 <= r < VIEW_ROWS,
            0 <= k < VIEW_COLS + 3,
    ;
    assert(text[pos] == body[r * (VIEW_COLS + 3) + k]);
    assert(body[r * (VIEW_COLS + 3) + k] == view_row(w, center, r)[k]);
    let x = center.0 - (VIEW_COLS / 2) as int + c;
    let y = center.1 - (VIEW_ROWS / 2) as int + r;
    assert(view_row(w, center, r)[k] == cell_char(w, center, x, y));
}

fn placement_exec(w: &WorldView, p: (i32, i32, i32)) -> (r: Option<&Placement>)
    ensures
        match r {
            Some(pl) => placement_at(w.placements@, (p.0 as int, p.1 as int, p.2 as int)) == Some(*pl),
            None => placement_at(w.placements@, (p.0 as int, p.1 as int, p.2 as int)) is None,
        },
{
    let mut i: usize = 0;
    assert(w.placements@.skip(0) =~= w.placements@);
    while i < w.placements.len()
        invariant
            i <= w.placements@.len(),
            placement_at(w.placements@, (p.0 as int, p.1 as int, p.2 as int)) == placement_at(
                w.placements@.skip(i as int),
                (p.0 as int, p.1 as int, p.2 as int),
            ),
        decreases w.placements@.len() - i,
    {
        proof {
            assert(w.placements@.skip(i as int).drop_first() =~= w.placements@.skip(i + 1));
            assert(w.placements@.skip(i as int)[0] == w.placements@[i as int]);
        }
        let q = w.placements[i].0;
        if q.0 == p.0 && q.1 == p.1 && q.2 == p.2 {
            return Some(&w.placements[i].1);
        }
        i = i + 1;
    }
    proof {
        assert(w.placements@.skip(i as int) =~= Seq::<((i32, i32, i32), Placement)>::empty());
    }
    None
}

fn bubble_exec(w: &WorldView, p: (i32, i32, i32)) -> (r: bool)
    ensures
        r == bubble_at(w.bubbles@, (p.0 as int, p.1 as int, p.2 as int)),
{
    let mut i: usize = 0;
    while i < w.bubbles.len()
        invariant
            i <= w.bubbles@.len(),
            forall|k: int| 0 <= k < i ==> w.bubbles@[k] != p,
        decreases w.bubbles@.len() - i,
    {
        let q = w.bubbles[i];
        if q.0 == p.0 && q.1 == p.1 && q.2 == p.2 {
            return true;
        }
        i = i + 1;
    }
    false
}

fn push_frame(out: &mut Vec<char>)
    ensures
        final(out)@ == old(out)@ + frame_line(),
{
    let ghost start = out@;
    out.push('+');
    let mut i: usize = 0;
    while i < VIEW_COLS
        invariant
            i <= VIEW_COLS,
            out@ == start + seq!['+'] + Seq::new(i as nat, |_j: int| '='),
        decreases VIEW_COLS - i,
    {
        out.push('=');
        assert(Seq::new((i + 1) as nat, |_j: int| '=') =~= Seq::new(i as nat, |_j: int| '=').push('='));
        i = i + 1;
    }
    out.push('+');
    assert(out@ =~= start + frame_line());
}

/// The text view of the map around `(cx, cy)` on level `cz`.
pub fn render_viewport(w: &WorldView, cx: i32, cy: i32, cz: i32) -> (r: String)
    requires
        i32::MIN + VIEW_COLS <= cx <= i32::MAX - VIEW_COLS,
        i32::MIN + VIEW_ROWS <= cy <= i32::MAX - VIEW_ROWS,
    ensures
        r@ == viewport_text(*w, (cx as int, cy as int, cz as int)),
{
    let ghost center = (cx as int, cy as int, cz as int);
    let half_cols = (VIEW_COLS / 2) as i32;
    let half_rows = (VIEW_ROWS / 2) as i32;
    let start_x = cx - half_cols;
    let start_y = cy - half_rows;
    let mut out: Vec<char> = Vec::new();
    push_frame(&mut out);
    out.push('\n');
    let ghost head = out@;
    assert(head =~= frame_line() + seq!['\n']);
    let mut row: usize = 0;
    while row < VIEW_ROWS
        invariant
            row <= VIEW_ROWS,
            start_x == cx - 20,
            start_y == cy - 12,
            i32::MIN + VIEW_COLS <= cx <= i32::MAX - VIEW_COLS,
            i32::MIN + VIEW_ROWS <= cy <= i32::MAX - VIEW_ROWS,
            center == (cx as int, cy as int, cz as int),
            out@ == head + view_rows(*w, center, row as int),
        decreases VIEW_ROWS - row,
    {
        let ghost before = out@;
        out.push('|');
        let mut col: usize = 0;
        while col < VIEW_COLS
            invariant
                col <= VIEW_COLS,
                row < VIEW_ROWS,
                start_x == cx - 20,
                start_y == cy - 12,
                i32::MIN + VIEW_COLS <= cx <= i32::MAX - VIEW_COLS,
                i32::MIN + VIEW_ROWS <= cy <= i32::MAX - VIEW_ROWS,
                center == (cx as int, cy as int, cz as int),
                out@ == before + seq!['|'] + Seq::new(
                    col as nat,
                    |c: int| cell_char(*w, center, start_x + c, start_y + row),
                ),
            decreases VIEW_COLS - col,
        {
            let bx = start_x + col as i32;
            let by = start_y + row as i32;
            let c = if bx == cx && by == cy {
                '@'
            } else {
                match placement_exec(w, (bx, by, cz)) {
                    Some(pl) => omt_symbol(pl.omt_id.as_str()),
                    None => if bubble_exec(w, (bx, by, cz)) {
                        '.'
                    } else {
                        ' '
                    },
                }
            };
            assert(c == cell_char(*w, center, start_x + col, start_y + row));
            out.push(c);
            assert(Seq::new((col + 1) as nat, |k: int| cell_char(*w, center, start_x + k, start_y + row))
                =~= Seq::new(col as nat, |k: int| cell_char(*w, center, start_x + k, start_y + row)).push(c));
            col = col + 1;
        }
        out.push('|');
        out.push('\n');
        assert(out@ =~= before + view_row(*w, center, row as int));
        row = row + 1;
    }
    push_frame(&mut out);
    crate::text::string_of(out.as_slice())
}


/// The status line of the world view: the position, the building there
/// (with its overmap terrain) or `none`, and how many bubbles and
/// placements the map has.
pub open spec fn world_status(w: WorldView, cx: int, cy: int, cz: int) -> Seq<char> {
    let building = match placement_at(w.placements@, (cx, cy, cz)) {
        Some(pl) => pl.building_id@ + " (omt: "@ + pl.omt_id@ + ")"@,
        None => "none"@,
    };
    "Pos: ("@ + int_text(cx) + ", "@ + int_text(cy) + ", z="@ + int_text(cz) + ") | Building: "@
        + building + " | Bubbles: "@ + digits(w.bubbles@.len(), 10) + " | Placements: "@ + digits(
        w.placements@.len(),
        10,
    ) + " | Arrows: move | </>: z-level | Esc: back"@
}

/// The status line of the world view.
pub fn world_status_text(w: &WorldView, cx: i32, cy: i32, cz: i32) -> (r: String)
    ensures
        r@ == world_status(*w, cx as int, cy as int, cz as int),
{
    let building = match placement_exec(w, (cx, cy, cz)) {
        Some(pl) => {
            let mut b = pl.building_id.clone();
            b.append(" (omt: ");
            b.append(pl.omt_id.as_str());
            b.append(")");
            b
        },
        None => String::from_str("none"),
    };
    let mut out = String::from_str("Pos: (");
    out.append(int_exec(cx).as_str());
    out.append(", ");
    out.append(int_exec(cy).as_str());
    out.append(", z=");
    out.append(int_exec(cz).as_str());
    out.append(") | Building: ");
    out.append(building.as_str());
    out.append(" | Bubbles: ");
    out.append(decimal(w.bubbles.len() as u64).as_str());
    out.append(" | Placements: ");
    out.append(decimal(w.placements.len() as u64).as_str());
    out.append(" | Arrows: move | </>: z-level | Esc: back");
    out
}

// ---------------------------------------------------------------------------
// The loading screen's texts
// ---------------------------------------------------------------------------

/// The heading of the loading screen.
pub fn loading_heading(failed: bool) -> (r: &'static str)
    ensures
        r@ == if failed {
            "UNABLE TO PREPARE WORLD"@
        } else {
            "PREPARING YOUR WORLD"@
        },
{
    if failed {
        "UNABLE TO PREPARE WORLD"
    } else {
        "PREPARING YOUR WORLD"
    }
}

/// What the progress line of the loading screen says.
#[derive(Clone, Copy, Debug, PartialEq, Eq, Structural)]
pub enum ProgressLine {
    /// "Stopped · see diagnostics above".
    Stopped,
    /// "Cancelled".
    Cancelled,
    /// "Complete".
    Complete,
    /// Units done out of a known total (with the stage's percentage).
    Units(u64, u64),
    /// "Working · total not yet known".
    Working,
}

/// The progress line: a failure first, then a cancellation, then completion,
/// else the stage's units when their total is known and not zero.
pub open spec fn progress_line_of(
    failed: bool,
    cancelled: bool,
    finished: bool,
    units: Option<(u64, u64)>,
) -> ProgressLine {
    if failed {
        ProgressLine::Stopped
    } else if cancelled {
        ProgressLine::Cancelled
    } else if finished {
        ProgressLine::Complete
    } else {
        match units {
            Some((done, total)) => if total > 0 {
                ProgressLine::Units(done, total)
            } else {
                ProgressLine::Working
            },
            None => ProgressLine::Working,
        }
    }
}

/// The progress line of the loading screen.
pub fn progress_line(failed: bool, cancelled: bool, finished: bool, units: Option<(u64, u64)>) -> (r:
    ProgressLine)
    ensures
        r == progress_line_of(failed, cancelled, finished, units),
{
    if failed {
        ProgressLine::Stopped
    } else if cancelled {
        ProgressLine::Cancelled
    } else if finished {
        ProgressLine::Complete
    } else {
        match units {
            Some((done, total)) => if total > 0 {
                ProgressLine::Units(done, total)
            } else {
                ProgressLine::Working
            },
            None => ProgressLine::Working,
        }
    }
}

/// The fixed text of a progress line; the units line is written with its
/// percentage by the screen.
pub fn progress_text(line: ProgressLine) -> (r: Option<&'static str>)
    ensures
        r matches Some(t) ==> t@ == match line {
            ProgressLine::Stopped => "Stopped · see diagnostics above"@,
            ProgressLine::Cancelled => "Cancelled"@,
            ProgressLine::Complete => "Complete"@,
            ProgressLine::Working => "Working · total not yet known"@,
            ProgressLine::Units(_, _) => Seq::<char>::empty(),
        },
        r is None <==> line is Units,
{
    match line {
        ProgressLine::Stopped => Some("Stopped · see diagnostics above"),
        ProgressLine::Cancelled => Some("Cancelled"),
        ProgressLine::Complete => Some("Complete"),
        ProgressLine::Working => Some("Working · total not yet known"),
        ProgressLine::Units(_, _) => None,
    }
}

/// The last `n` problems (warnings and errors) of a report history, newest
/// first; each history item is whether it is a problem and its text.
pub open spec fn recent_problems(history: Seq<(bool, String)>, n: nat) -> Seq<Seq<char>>
    decreases history.len(),
{
    if history.len() == 0 || n == 0 {
        Seq::empty()
    } else if history.last().0 {
        seq![history.last().1@] + recent_problems(history.drop_last(), (n - 1) as nat)
    } else {
        recent_problems(history.drop_last(), n)
    }
}

/// The diagnostics of the loading screen, one per line: the stage, its
/// message, the report's summary, the six most recent problems (newest
/// first), and a hint when the operation failed.
pub open spec fn loading_detail_lines(
    stage: Seq<char>,
    message: Seq<char>,
    summary: Seq<char>,
    history: Seq<(bool, String)>,
    failed: bool,
) -> Seq<Seq<char>> {
    seq![stage, message, summary] + recent_problems(history, 6) + if failed {
        seq!["Fix the reported data and retry, or return to the menu."@]
    } else {
        Seq::empty()
    }
}

/// The diagnostics text of the loading screen.
pub fn loading_detail(
    stage: &str,
    message: &str,
    summary: &str,
    history: &Vec<(bool, String)>,
    failed: bool,
) -> (r: String)
    ensures
        r@ == crate::registry::join_lines(loading_detail_lines(stage@, message@, summary@, history@, failed)),
{
    let ghost lines = loading_detail_lines(stage@, message@, summary@, history@, failed);
    let mut out = String::from_str(stage);
    out.append("\n");
    out.append(message);
    out.append("\n");
    out.append(summary);
    let ghost head = seq![stage@, message@, summary@];
    assert(head.drop_last().drop_last() =~= seq![stage@]);
    assert(head.drop_last() =~= seq![stage@, message@]);
    assert(crate::registry::join_lines(seq![stage@]) == stage@);
    assert(seq![stage@, message@].drop_last() =~= seq![stage@]);
    assert(crate::registry::join_lines(seq![stage@, message@]) == stage@ + "\n"@ + message@);
    assert(crate::registry::join_lines(head) == crate::registry::join_lines(seq![stage@, message@]) + "\n"@
        + summary@);
    assert(out@ =~= crate::registry::join_lines(head));
    let ghost mut shown: Seq<Seq<char>> = head;
    let mut taken: usize = 0;
    let mut i: usize = history.len();
    assert(history@.take(history@.len() as int) =~= history@);
    while i > 0 && taken < 6
        invariant
            i <= history@.len(),
            taken <= 6,
            shown.len() >= 1,
            shown + recent_problems(history@.take(i as int), (6 - taken) as nat) == head
                + recent_problems(history@, 6),
            out@ == crate::registry::join_lines(shown),
        decreases i,
    {
        let ghost h = history@.take(i as int);
        proof {
            assert(h.drop_last() =~= history@.take(i - 1));
            assert(h.last() == history@[i - 1]);
        }
        if history[i - 1].0 {
            let ghost before = out@;
            out.append("\n");
            out.append(history[i - 1].1.as_str());
            proof {
                let next = shown.push(history@[i - 1].1@);
                assert(next.drop_last() =~= shown);
                assert(out@ =~= crate::registry::join_lines(next));
                assert(next + recent_problems(history@.take(i - 1), (6 - taken - 1) as nat) =~= shown
                    + (seq![history@[i - 1].1@] + recent_problems(history@.take(i - 1), (6 - taken - 1) as nat)));
                shown = next;
            }
            taken = taken + 1;
        }
        i = i - 1;
    }
    proof {
        if i == 0 {
            assert(history@.take(0) =~= Seq::<(bool, String)>::empty());
        }
        assert(shown + Seq::<Seq<char>>::empty() =~= shown);
    }
    if failed {
        let ghost before = shown;
        out.append("\n");
        out.append("Fix the reported data and retry, or return to the menu.");
        proof {
            let next = shown.push("Fix the reported data and retry, or return to the menu."@);
            assert(next.drop_last() =~= shown);
            assert(next =~= lines);
        }
    } else {
        assert(shown =~= lines);
    }
    out
}

/// Whether the problem notice shows: a warning or error is current and no
/// loading is under way (the loading screen shows it instead).
pub fn notice_visible(loading: bool, current_is_problem: Option<bool>) -> (r: bool)
    ensures
        r == (!loading && current_is_problem == Some(true)),
{
    !loading && match current_is_problem {
        Some(p) => p,
        None => false,
    }
}

} // verus!
