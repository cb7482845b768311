//! The debug registry viewer: the catalog of definition categories and their
//! entries, the selection and pane focus, the keyboard handling, and what the
//! title bar, the lists and the detail panes show.
use vstd::prelude::*;
use crate::json::{
    json_parse, json_pretty, json_serialize, parse_json, pretty_json, serialize_json, str_eq, JsonValue,
};
use crate::overmap::join_names;
use crate::order::{lemma_filter_insert, lemma_filter_prepend_class};
use crate::text::{
    chars_of, contains, contains_seq, decimal, digits, join_with, lemma_concat_no_newline,
    lemma_digits_no_newline, no_newline, lemma_lex_order, lex_le, str_le, string_of,
};

verus! {

// ---------------------------------------------------------------------------
// The catalog
// ---------------------------------------------------------------------------

/// A single entry in a registry.
#[derive(Clone, Debug, PartialEq, Eq)]
pub struct RegistryEntry {
    pub id: String,
    /// Raw JSON text, as the data files hold it.
    pub raw_json: String,
    /// The parsed definition, one line per field.
    pub parsed_fields: String,
    /// Round-trip and coverage summary.
    pub status: String,
}

/// One registry category in the left pane.
#[derive(Clone, Debug, PartialEq, Eq)]
pub struct RegistryCategoryData {
    pub name: String,
    pub count: usize,
}

/// The categories and, at the same positions, their entries. Selection and
/// pane focus never change it.
#[derive(Clone, Debug, Default, PartialEq, Eq)]
pub struct RegistryCatalog {
    pub categories: Vec<RegistryCategoryData>,
    pub all_entries: Vec<Vec<RegistryEntry>>,
}

impl RegistryCatalog {
    /// How many categories the left pane lists.
    pub open spec fn category_count(&self) -> int {
        self.categories@.len() as int
    }

    /// How many entries the category at `index` has (none past the end).
    pub open spec fn entry_count(&self, index: int) -> int {
        if 0 <= index < self.all_entries@.len() {
            self.all_entries@[index]@.len() as int
        } else {
            0
        }
    }
}

// ---------------------------------------------------------------------------
// Selection and focus
// ---------------------------------------------------------------------------

/// The selected category and entry, and the pane with keyboard focus.
#[derive(Clone, Copy, Debug, PartialEq, Eq, Structural)]
pub struct RegistryViewerState {
    pub category_index: usize,
    pub entry_index: usize,
    /// 0 = categories, 1 = entries, 2 = raw JSON, 3 = parsed fields.
    pub pane: usize,
}

impl RegistryViewerState {
    pub const PANE_CATEGORY: usize = 0;
    pub const PANE_ENTRY: usize = 1;
    pub const PANE_RAW: usize = 2;
    pub const PANE_PARSED: usize = 3;
    pub const PANE_COUNT: usize = 4;
}

impl Default for RegistryViewerState {
    /// First category, first entry, focus on the categories.
    fn default() -> (s: RegistryViewerState)
        ensures
            s == (RegistryViewerState { category_index: 0, entry_index: 0, pane: 0 }),
    {
        RegistryViewerState { category_index: 0, entry_index: 0, pane: 0 }
    }
}

/// The label of a pane in the title bar.
pub open spec fn pane_label(pane: int) -> Seq<char> {
    if pane == 0 {
        "categories"@
    } else if pane == 1 {
        "entries"@
    } else if pane == 2 {
        "raw JSON"@
    } else if pane == 3 {
        "parsed"@
    } else {
        "?"@
    }
}

/// Human-readable label for a pane id.
pub fn pane_name(pane: usize) -> (r: &'static str)
    ensures
        r@ == pane_label(pane as int),
{
    if pane == RegistryViewerState::PANE_CATEGORY {
        "categories"
    } else if pane == RegistryViewerState::PANE_ENTRY {
        "entries"
    } else if pane == RegistryViewerState::PANE_RAW {
        "raw JSON"
    } else if pane == RegistryViewerState::PANE_PARSED {
        "parsed"
    } else {
        "?"
    }
}

// ---------------------------------------------------------------------------
// Keyboard handling
// ---------------------------------------------------------------------------

/// The keys of one frame: `tab` and the arrows, paging and jump keys were
/// just pressed; `shift` is held.
#[derive(Clone, Copy, Debug, PartialEq, Eq, Structural)]
pub struct RegistryKeys {
    pub tab: bool,
    pub shift: bool,
    pub up: bool,
    pub down: bool,
    pub left: bool,
    pub right: bool,
    pub page_up: bool,
    pub page_down: bool,
    pub home: bool,
    pub end: bool,
}

/// A key of the keyboard as the viewer reads it.
#[derive(Clone, Copy, Debug, PartialEq, Eq, Structural)]
pub enum KeyCode {
    Tab,
    ShiftLeft,
    ShiftRight,
    ArrowUp,
    ArrowDown,
    ArrowLeft,
    ArrowRight,
    PageUp,
    PageDown,
    Home,
    End,
    Escape,
}

/// The frame in which `key` alone was pressed.
pub open spec fn keys_of(key: KeyCode) -> RegistryKeys {
    RegistryKeys {
        tab: key == KeyCode::Tab,
        shift: key == KeyCode::ShiftLeft || key == KeyCode::ShiftRight,
        up: key == KeyCode::ArrowUp,
        down: key == KeyCode::ArrowDown,
        left: key == KeyCode::ArrowLeft,
        right: key == KeyCode::ArrowRight,
        page_up: key == KeyCode::PageUp,
        page_down: key == KeyCode::PageDown,
        home: key == KeyCode::Home,
        end: key == KeyCode::End,
    }
}

impl RegistryKeys {
    /// The frame in which `key` alone was pressed.
    pub fn pressed(key: KeyCode) -> (k: RegistryKeys)
        ensures
            k == keys_of(key),
    {
        RegistryKeys {
            tab: key == KeyCode::Tab,
            shift: key == KeyCode::ShiftLeft || key == KeyCode::ShiftRight,
            up: key == KeyCode::ArrowUp,
            down: key == KeyCode::ArrowDown,
            left: key == KeyCode::ArrowLeft,
            right: key == KeyCode::ArrowRight,
            page_up: key == KeyCode::PageUp,
            page_down: key == KeyCode::PageDown,
            home: key == KeyCode::Home,
            end: key == KeyCode::End,
        }
    }
}

/// The focused pane after Tab (forward) or Shift+Tab (backward).
pub open spec fn pane_after_tab(k: RegistryKeys, pane: int) -> int {
    if k.tab {
        (pane + if k.shift {
            3int
        } else {
            1int
        }) % 4
    } else {
        pane
    }
}

/// Whether the frame moves the category selection: any navigation key in the
/// category pane, or Left/Right in the entry pane.
pub open spec fn moves_category(k: RegistryKeys, pane: int) -> bool {
    (pane == 0 && (k.up || k.down || k.left || k.right || k.page_up || k.page_down || k.home
        || k.end)) || (pane == 1 && (k.left || k.right))
}

/// The category selected after a category move among `count` categories.
pub open spec fn next_category(k: RegistryKeys, index: int, count: int) -> int {
    if k.home {
        0
    } else if k.end {
        count - 1
    } else if k.page_up {
        if index >= 10 {
            index - 10
        } else {
            0
        }
    } else if k.page_down {
        if index + 10 < count - 1 {
            index + 10
        } else {
            count - 1
        }
    } else if k.up || k.left {
        (index + count - 1) % count
    } else {
        (index + 1) % count
    }
}

/// The entry selected after a move in the entry pane, among `len` entries.
pub open spec fn next_entry(k: RegistryKeys, index: int, len: int) -> int {
    let last = if len > 0 {
        len - 1
    } else {
        0
    };
    let step = if k.page_up || k.page_down {
        30int
    } else {
        1int
    };
    if k.home {
        0
    } else if k.end {
        last
    } else if k.up || k.page_up {
        if index >= step {
            index - step
        } else {
            0
        }
    } else if k.down || k.page_down {
        if index + step < last {
            index + step
        } else {
            last
        }
    } else {
        index
    }
}

/// The selection and focus after one frame of keys.
pub open spec fn registry_step(
    k: RegistryKeys,
    c: RegistryCatalog,
    s: RegistryViewerState,
) -> RegistryViewerState {
    let pane = pane_after_tab(k, s.pane as int);
    let count = c.category_count();
    if moves_category(k, pane) && count > 0 {
        RegistryViewerState {
            category_index: next_category(k, s.category_index as int, count) as usize,
            entry_index: 0,
            pane: pane as usize,
        }
    } else if pane == 1 {
        RegistryViewerState {
            category_index: s.category_index,
            entry_index: next_entry(
                k,
                s.entry_index as int,
                c.entry_count(s.category_index as int),
            ) as usize,
            pane: pane as usize,
        }
    } else if (pane == 2 || pane == 3) && (k.left || k.right) {
        RegistryViewerState {
            category_index: s.category_index,
            entry_index: s.entry_index,
            pane: if pane == 2 {
                3
            } else {
                2
            },
        }
    } else {
        RegistryViewerState {
            category_index: s.category_index,
            entry_index: s.entry_index,
            pane: pane as usize,
        }
    }
}

fn cycle_pane(pane: usize, backwards: bool) -> (r: usize)
    ensures
        r == (pane + if backwards {
            3int
        } else {
            1int
        }) % 4,
{
    let step: usize = if backwards {
        RegistryViewerState::PANE_COUNT - 1
    } else {
        1
    };
    proof {
        vstd::arithmetic::div_mod::lemma_add_mod_noop_right(step as int, pane as int, 4);
    }
    (step + pane % RegistryViewerState::PANE_COUNT) % RegistryViewerState::PANE_COUNT
}

fn move_category(k: &RegistryKeys, index: usize, count: usize) -> (r: usize)
    requires
        count > 0,
    ensures
        r == next_category(*k, index as int, count as int),
{
    if k.home {
        0
    } else if k.end {
        count - 1
    } else if k.page_up {
        if index >= 10 {
            index - 10
        } else {
            0
        }
    } else if k.page_down {
        if index < count - 1 && count - 1 - index > 10 {
            index + 10
        } else {
            count - 1
        }
    } else {
        let m = index % count;
        proof {
            let n = count as int;
            vstd::arithmetic::div_mod::lemma_add_mod_noop_right(n - 1, index as int, n);
            vstd::arithmetic::div_mod::lemma_add_mod_noop_right(1, index as int, n);
            if m == 0 {
                vstd::arithmetic::div_mod::lemma_small_mod((n - 1) as nat, n as nat);
            } else {
                vstd::arithmetic::div_mod::lemma_mod_add_multiples_vanish(m - 1, n);
                vstd::arithmetic::div_mod::lemma_small_mod((m - 1) as nat, n as nat);
            }
            if m + 1 < n {
                vstd::arithmetic::div_mod::lemma_small_mod((m + 1) as nat, n as nat);
            } else {
                vstd::arithmetic::div_mod::lemma_mod_self_0(n);
            }
        }
        if k.up || k.left {
            if m == 0 {
                count - 1
            } else {
                m - 1
            }
        } else {
            if m + 1 < count {
                m + 1
            } else {
                0
            }
        }
    }
}

fn move_entry(k: &RegistryKeys, index: usize, len: usize) -> (r: usize)
    ensures
        r == next_entry(*k, index as int, len as int),
{
    let last: usize = if len > 0 {
        len - 1
    } else {
        0
    };
    let step: usize = if k.page_up || k.page_down {
        30
    } else {
        1
    };
    if k.home {
        0
    } else if k.end {
        last
    } else if k.up || k.page_up {
        if index >= step {
            index - step
        } else {
            0
        }
    } else if k.down || k.page_down {
        if index < last && last - index > step {
            index + step
        } else {
            last
        }
    } else {
        index
    }
}

/// Applies one frame of keys to the selection and focus: Tab and Shift+Tab
/// cycle the panes; the arrows, paging and jump keys move within the focused
/// pane (categories wrap around, entries stop at the ends); Left and Right
/// move the category from the entry pane and switch between the two detail
/// panes. A category move selects the first entry.
pub fn registry_input(keys: &RegistryKeys, catalog: &RegistryCatalog, state: &mut RegistryViewerState)
    ensures
        *final(state) == registry_step(*keys, *catalog, *old(state)),
{
    let mut next = *state;
    if keys.tab {
        next.pane = cycle_pane(next.pane, keys.shift);
    }
    let up = keys.up;
    let down = keys.down;
    let left = keys.left;
    let right = keys.right;
    let page_up = keys.page_up;
    let page_down = keys.page_down;
    let home = keys.home;
    let end = keys.end;
    let category_move = next.pane == RegistryViewerState::PANE_CATEGORY && (up || down || left
        || right || page_up || page_down || home || end) || next.pane
        == RegistryViewerState::PANE_ENTRY && (left || right);
    if category_move && catalog.categories.len() > 0 {
        let count = catalog.categories.len();
        next.category_index = move_category(keys, next.category_index, count);
        next.entry_index = 0;
    } else if next.pane == RegistryViewerState::PANE_ENTRY {
        let len: usize = if next.category_index < catalog.all_entries.len() {
            catalog.all_entries[next.category_index].len()
        } else {
            0
        };
        next.entry_index = move_entry(keys, next.entry_index, len);
    } else if (next.pane == RegistryViewerState::PANE_RAW || next.pane
        == RegistryViewerState::PANE_PARSED) && (left || right) {
        next.pane =
            if next.pane == RegistryViewerState::PANE_RAW {
                RegistryViewerState::PANE_PARSED
            } else {
                RegistryViewerState::PANE_RAW
            };
    }
    *state = next;
}

/// Presses `key` alone for one frame.
pub fn press(catalog: &RegistryCatalog, state: &mut RegistryViewerState, key: KeyCode)
    ensures
        *final(state) == registry_step(keys_of(key), *catalog, *old(state)),
{
    let keys = RegistryKeys::pressed(key);
    registry_input(&keys, catalog, state);
}

// ---------------------------------------------------------------------------
// Laws of the keyboard handling
// ---------------------------------------------------------------------------

/// The selection points into the catalog: a category that exists (when there
/// is one) and an entry of it (or the first position), and a known pane.
pub open spec fn selection_in_catalog(c: RegistryCatalog, s: RegistryViewerState) -> bool {
    &&& c.category_count() == 0 || s.category_index < c.category_count()
    &&& s.entry_index == 0 || s.entry_index < c.entry_count(s.category_index as int)
    &&& s.pane < 4
}

/// Every frame of keys keeps a selection that points into the catalog
/// pointing into it.
pub proof fn lemma_input_keeps_selection_in_catalog(
    k: RegistryKeys,
    c: RegistryCatalog,
    s: RegistryViewerState,
)
    requires
        selection_in_catalog(c, s),
    ensures
        selection_in_catalog(c, registry_step(k, c, s)),
{
    let pane = pane_after_tab(k, s.pane as int);
    let count = c.category_count();
    if moves_category(k, pane) && count > 0 {
        let i = s.category_index as int;
        if !k.home && !k.end && !k.page_up && !k.page_down {
            vstd::arithmetic::div_mod::lemma_mod_bound(i + count - 1, count);
            vstd::arithmetic::div_mod::lemma_mod_bound(i + 1, count);
        }
    }
}

/// Shift+Tab after Tab gives back the selection and focus the viewer had.
pub proof fn lemma_shift_tab_undoes_tab(c: RegistryCatalog, s: RegistryViewerState)
    requires
        s.pane < 4,
    ensures
        registry_step(
            RegistryKeys { shift: true, ..keys_of(KeyCode::Tab) },
            c,
            registry_step(keys_of(KeyCode::Tab), c, s),
        ) == s,
{
    let p = s.pane as int;
    assert((((p + 1) % 4) + 3) % 4 == p) by {
        vstd::arithmetic::div_mod::lemma_add_mod_noop_right(3, p + 1, 4);
        vstd::arithmetic::div_mod::lemma_mod_add_multiples_vanish(p, 4);
        vstd::arithmetic::div_mod::lemma_small_mod(p as nat, 4);
    }
}

/// In the category pane, Up after Down selects the category again (on its
/// first entry).
pub proof fn lemma_up_undoes_down(c: RegistryCatalog, s: RegistryViewerState)
    requires
        s.pane == 0,
        s.category_index < c.category_count(),
    ensures
        registry_step(keys_of(KeyCode::ArrowUp), c, registry_step(keys_of(KeyCode::ArrowDown), c, s))
            == (RegistryViewerState { entry_index: 0, ..s }),
{
    let n = c.category_count();
    let i = s.category_index as int;
    let j = (i + 1) % n;
    let mid = registry_step(keys_of(KeyCode::ArrowDown), c, s);
    assert(c.categories.len() == n);
    if i + 1 < n {
        vstd::arithmetic::div_mod::lemma_small_mod((i + 1) as nat, n as nat);
        assert(j == i + 1);
        vstd::arithmetic::div_mod::lemma_mod_add_multiples_vanish(i, n);
        vstd::arithmetic::div_mod::lemma_small_mod(i as nat, n as nat);
        assert((j + n - 1) % n == i);
    } else {
        vstd::arithmetic::div_mod::lemma_mod_self_0(n);
        assert(j == 0);
        vstd::arithmetic::div_mod::lemma_small_mod((n - 1) as nat, n as nat);
        assert((j + n - 1) % n == i);
    }
    assert(mid.category_index == j);
}

/// Left and Right switch between the two detail panes, so two of them give
/// back the pane they started from.
pub proof fn lemma_detail_switch_is_involution(c: RegistryCatalog, s: RegistryViewerState)
    requires
        s.pane == 2 || s.pane == 3,
    ensures
        registry_step(keys_of(KeyCode::ArrowLeft), c, registry_step(keys_of(KeyCode::ArrowRight), c, s))
            == s,
{
}


// ---------------------------------------------------------------------------
// Refreshing the catalog
// ---------------------------------------------------------------------------

/// The first position from `from` on of a category named `name`.
pub open spec fn find_category(cats: Seq<RegistryCategoryData>, name: Seq<char>, from: int) -> Option<
    int,
>
    decreases cats.len() - from,
{
    if from < 0 || from >= cats.len() {
        None
    } else if cats[from].name@ == name {
        Some(from)
    } else {
        find_category(cats, name, from + 1)
    }
}

/// The first position from `from` on of an entry with id `id`.
pub open spec fn find_entry(entries: Seq<RegistryEntry>, id: Seq<char>, from: int) -> Option<int>
    decreases entries.len() - from,
{
    if from < 0 || from >= entries.len() {
        None
    } else if entries[from].id@ == id {
        Some(from)
    } else {
        find_entry(entries, id, from + 1)
    }
}

/// The entries of the category at `index` (none past the end).
pub open spec fn entries_at(c: RegistryCatalog, index: int) -> Seq<RegistryEntry> {
    if 0 <= index < c.all_entries@.len() {
        c.all_entries@[index]@
    } else {
        Seq::empty()
    }
}

/// The name of the selected category, if the selection points at one.
pub open spec fn selected_name(c: RegistryCatalog, s: RegistryViewerState) -> Option<Seq<char>> {
    if s.category_index < c.categories@.len() {
        Some(c.categories@[s.category_index as int].name@)
    } else {
        None
    }
}

/// The selected entry, if the selection points at one.
pub open spec fn selected_entry(c: RegistryCatalog, s: RegistryViewerState) -> Option<RegistryEntry> {
    let entries = entries_at(c, s.category_index as int);
    if s.entry_index < entries.len() {
        Some(entries[s.entry_index as int])
    } else {
        None
    }
}

/// `index`, or the last position among `len` when it is past it.
pub open spec fn clamp_index(index: int, len: int) -> int {
    if len == 0 {
        0
    } else if index < len - 1 {
        index
    } else {
        len - 1
    }
}

/// The selection after the catalog is rebuilt: the category of the same
/// name and the entry of the same id where they still exist, else the old
/// positions clamped to the new lists.
pub open spec fn refreshed_selection(
    old_catalog: Option<RegistryCatalog>,
    s: RegistryViewerState,
    fresh: RegistryCatalog,
) -> RegistryViewerState {
    let name = match old_catalog {
        Some(o) => selected_name(o, s),
        None => None,
    };
    let id = match old_catalog {
        Some(o) => match selected_entry(o, s) {
            Some(e) => Some(e.id@),
            None => None,
        },
        None => None,
    };
    let found_category = match name {
        Some(n) => find_category(fresh.categories@, n, 0),
        None => None,
    };
    let category = match found_category {
        Some(i) => i,
        None => clamp_index(s.category_index as int, fresh.category_count()),
    };
    let entries = entries_at(fresh, category);
    let found_entry = match id {
        Some(i) => find_entry(entries, i, 0),
        None => None,
    };
    let entry = match found_entry {
        Some(i) => i,
        None => clamp_index(s.entry_index as int, entries.len() as int),
    };
    RegistryViewerState { category_index: category as usize, entry_index: entry as usize, pane: s.pane }
}

fn position_of_category(cats: &Vec<RegistryCategoryData>, name: &String) -> (r: Option<usize>)
    ensures
        match r {
            Some(i) => find_category(cats@, name@, 0) == Some(i as int),
            None => find_category(cats@, name@, 0) is None,
        },
{
    let mut i: usize = 0;
    while i < cats.len()
        invariant
            i <= cats@.len(),
            find_category(cats@, name@, 0) == find_category(cats@, name@, i as int),
        decreases cats@.len() - i,
    {
        if str_eq(cats[i].name.as_str(), name.as_str()) {
            return Some(i);
        }
        i = i + 1;
    }
    None
}

fn position_of_entry(entries: &[RegistryEntry], id: &String) -> (r: Option<usize>)
    ensures
        match r {
            Some(i) => find_entry(entries@, id@, 0) == Some(i as int),
            None => find_entry(entries@, id@, 0) is None,
        },
{
    let mut i: usize = 0;
    while i < entries.len()
        invariant
            i <= entries@.len(),
            find_entry(entries@, id@, 0) == find_entry(entries@, id@, i as int),
        decreases entries@.len() - i,
    {
        if str_eq(entries[i].id.as_str(), id.as_str()) {
            return Some(i);
        }
        i = i + 1;
    }
    None
}

proof fn lemma_find_category_bounds(cats: Seq<RegistryCategoryData>, name: Seq<char>, from: int)
    requires
        0 <= from,
    ensures
        match find_category(cats, name, from) {
            Some(i) => from <= i < cats.len() && cats[i].name@ == name,
            None => true,
        },
    decreases cats.len() - from,
{
    if from < cats.len() && cats[from].name@ != name {
        lemma_find_category_bounds(cats, name, from + 1);
    }
}

proof fn lemma_find_entry_bounds(entries: Seq<RegistryEntry>, id: Seq<char>, from: int)
    requires
        0 <= from,
    ensures
        match find_entry(entries, id, from) {
            Some(i) => from <= i < entries.len() && entries[i].id@ == id,
            None => forall|j: int| from <= j < entries.len() ==> entries[j].id@ != id,
        },
    decreases entries.len() - from,
{
    if from < entries.len() && entries[from].id@ != id {
        lemma_find_entry_bounds(entries, id, from + 1);
    }
}

fn clamp(index: usize, len: usize) -> (r: usize)
    ensures
        r == clamp_index(index as int, len as int),
{
    if len == 0 {
        0
    } else if index < len - 1 {
        index
    } else {
        len - 1
    }
}

/// The catalog of the viewer from its sources, in this order: the
/// categories of the definition registry, those of the token registries, and
/// the definition world last, each category beside its entries.
pub open spec fn catalog_of(
    groups: Seq<(RegistryCategoryData, Vec<RegistryEntry>)>,
) -> (Seq<RegistryCategoryData>, Seq<Vec<RegistryEntry>>) {
    (groups.map_values(|g: (RegistryCategoryData, Vec<RegistryEntry>)| g.0),
     groups.map_values(|g: (RegistryCategoryData, Vec<RegistryEntry>)| g.1))
}

fn move_groups(
    cats: &mut Vec<RegistryCategoryData>,
    entries: &mut Vec<Vec<RegistryEntry>>,
    groups: Vec<(RegistryCategoryData, Vec<RegistryEntry>)>,
)
    ensures
        final(cats)@ == old(cats)@ + catalog_of(groups@).0,
        final(entries)@ == old(entries)@ + catalog_of(groups@).1,
{
    let ghost all = groups@;
    assert(all.len() == groups.len());
    let mut rest = groups;
    let mut k: usize = 0;
    let ghost start_cats = cats@;
    let ghost start_entries = entries@;
    while rest.len() > 0
        invariant
            k <= all.len(),
            all.len() <= usize::MAX,
            rest@ == all.subrange(k as int, all.len() as int),
            cats@ == start_cats + catalog_of(all.take(k as int)).0,
            entries@ == start_entries + catalog_of(all.take(k as int)).1,
        decreases rest@.len(),
    {
        let (c, e) = rest.remove(0);
        proof {
            assert(all[k as int] == (c, e));
            assert(all.take(k + 1) =~= all.take(k as int).push((c, e)));
        }
        cats.push(c);
        entries.push(e);
        proof {
            assert(rest@ =~= all.subrange(k + 1, all.len() as int));
            assert(cats@ =~= start_cats + catalog_of(all.take(k + 1)).0);
            assert(entries@ =~= start_entries + catalog_of(all.take(k + 1)).1);
        }
        k = k + 1;
    }
    proof {
        assert(all.take(k as int) =~= all);
    }
}

/// Gathers the categories of the viewer from its sources: the definition
/// registry's, then the token registries', then the definition world.
pub fn refresh_categories(
    def_registry: Vec<(RegistryCategoryData, Vec<RegistryEntry>)>,
    tokens: Vec<(RegistryCategoryData, Vec<RegistryEntry>)>,
    def_world: (RegistryCategoryData, Vec<RegistryEntry>),
) -> (r: RegistryCatalog)
    ensures
        r.categories@ == catalog_of(def_registry@ + tokens@ + seq![def_world]).0,
        r.all_entries@ == catalog_of(def_registry@ + tokens@ + seq![def_world]).1,
{
    let ghost all = def_registry@ + tokens@ + seq![def_world];
    let mut categories: Vec<RegistryCategoryData> = Vec::new();
    let mut all_entries: Vec<Vec<RegistryEntry>> = Vec::new();
    move_groups(&mut categories, &mut all_entries, def_registry);
    move_groups(&mut categories, &mut all_entries, tokens);
    let (cat, entries) = def_world;
    categories.push(cat);
    all_entries.push(entries);
    proof {
        assert(categories@ =~= catalog_of(all).0);
        assert(all_entries@ =~= catalog_of(all).1);
    }
    RegistryCatalog { categories, all_entries }
}

/// Installs a rebuilt catalog and moves the selection onto it: the category
/// of the same name and the entry of the same id stay selected where they
/// still exist; otherwise the old positions are clamped to the new lists.
/// The focused pane is kept.
pub fn refresh_registry_catalog(
    catalog: &mut Option<RegistryCatalog>,
    state: &mut RegistryViewerState,
    fresh: RegistryCatalog,
)
    ensures
        *final(catalog) == Some(fresh),
        *final(state) == refreshed_selection(*old(catalog), *old(state), fresh),
{
    let s = *state;
    let mut name: Option<String> = None;
    let mut id: Option<String> = None;
    match catalog {
        Some(o) => {
            if s.category_index < o.categories.len() {
                name = Some(o.categories[s.category_index].name.clone());
            }
            if s.category_index < o.all_entries.len() && s.entry_index
                < o.all_entries[s.category_index].len() {
                id = Some(o.all_entries[s.category_index][s.entry_index].id.clone());
            }
        },
        None => {},
    }
    let found_category = match &name {
        Some(n) => position_of_category(&fresh.categories, n),
        None => None,
    };
    let category = match found_category {
        Some(i) => i,
        None => clamp(s.category_index, fresh.categories.len()),
    };
    let entries: &[RegistryEntry] = if category < fresh.all_entries.len() {
        fresh.all_entries[category].as_slice()
    } else {
        &[]
    };
    assert(entries@ == entries_at(fresh, category as int));
    let found_entry = match &id {
        Some(i) => position_of_entry(entries, i),
        None => None,
    };
    let entry = match found_entry {
        Some(i) => i,
        None => clamp(s.entry_index, entries.len()),
    };
    *state = RegistryViewerState { category_index: category, entry_index: entry, pane: s.pane };
    *catalog = Some(fresh);
}

/// A rebuilt catalog leaves the selection pointing into it.
pub proof fn lemma_refresh_keeps_selection_in_catalog(
    old_catalog: Option<RegistryCatalog>,
    s: RegistryViewerState,
    fresh: RegistryCatalog,
)
    requires
        s.pane < 4,
    ensures
        selection_in_catalog(fresh, refreshed_selection(old_catalog, s, fresh)),
{
    let r = refreshed_selection(old_catalog, s, fresh);
    assert(fresh.categories.len() == fresh.category_count());
    match old_catalog {
        Some(o) => {
            match selected_name(o, s) {
                Some(n) => lemma_find_category_bounds(fresh.categories@, n, 0),
                None => {},
            }
            match selected_entry(o, s) {
                Some(e) => lemma_find_entry_bounds(
                    entries_at(fresh, r.category_index as int),
                    e.id@,
                    0,
                ),
                None => {},
            }
        },
        None => {},
    }
    let entries = entries_at(fresh, r.category_index as int);
    if 0 <= r.category_index < fresh.all_entries@.len() {
        assert(fresh.all_entries@[r.category_index as int].len()
            == fresh.all_entries@[r.category_index as int]@.len());
    }
}

/// A rebuilt catalog keeps the selected record selected, by its category's
/// name and its id, wherever it now stands.
pub proof fn lemma_refresh_follows_selected_record(
    old_catalog: RegistryCatalog,
    s: RegistryViewerState,
    fresh: RegistryCatalog,
)
    requires
        selected_entry(old_catalog, s) is Some,
        selected_name(old_catalog, s) is Some,
        find_category(fresh.categories@, selected_name(old_catalog, s).unwrap(), 0) is Some,
        find_entry(
            entries_at(
                fresh,
                find_category(fresh.categories@, selected_name(old_catalog, s).unwrap(), 0).unwrap(),
            ),
            selected_entry(old_catalog, s).unwrap().id@,
            0,
        ) is Some,
    ensures
        selected_name(fresh, refreshed_selection(Some(old_catalog), s, fresh)) == selected_name(
            old_catalog,
            s,
        ),
        selected_entry(fresh, refreshed_selection(Some(old_catalog), s, fresh)).unwrap().id@
            == selected_entry(old_catalog, s).unwrap().id@,
{
    let name = selected_name(old_catalog, s).unwrap();
    let id = selected_entry(old_catalog, s).unwrap().id@;
    lemma_find_category_bounds(fresh.categories@, name, 0);
    let ci = find_category(fresh.categories@, name, 0).unwrap();
    lemma_find_entry_bounds(entries_at(fresh, ci), id, 0);
    assert(fresh.categories.len() == fresh.categories@.len());
    if 0 <= ci < fresh.all_entries@.len() {
        assert(fresh.all_entries@[ci].len() == fresh.all_entries@[ci]@.len());
    }
}

// ---------------------------------------------------------------------------
// What the viewer shows
// ---------------------------------------------------------------------------

/// A row of the category list: the name and, in brackets, the count.
pub open spec fn category_label(c: RegistryCategoryData) -> Seq<char> {
    c.name@ + "  ("@ + digits(c.count as nat, 10) + ")"@
}

/// The label of a row of the category list.
pub fn category_row_label(c: &RegistryCategoryData) -> (r: String)
    ensures
        r@ == category_label(*c),
{
    let mut out = c.name.clone();
    out.append("  (");
    out.append(decimal(c.count as u64).as_str());
    out.append(")");
    out
}

/// The title of the viewer, with the selected category and its count.
pub open spec fn heading_text(c: RegistryCatalog, s: RegistryViewerState) -> Seq<char> {
    if s.category_index < c.categories@.len() {
        let cat = c.categories@[s.category_index as int];
        "DEBUG: REGISTRY VIEWER — "@ + cat.name@ + " ("@ + digits(cat.count as nat, 10) + ")"@
    } else {
        "DEBUG: REGISTRY VIEWER"@
    }
}

/// The title of the viewer.
pub fn registry_heading(catalog: &RegistryCatalog, state: &RegistryViewerState) -> (r: String)
    ensures
        r@ == heading_text(*catalog, *state),
{
    if state.category_index < catalog.categories.len() {
        let cat = &catalog.categories[state.category_index];
        let mut out = String::from_str("DEBUG: REGISTRY VIEWER — ");
        out.append(cat.name.as_str());
        out.append(" (");
        out.append(decimal(cat.count as u64).as_str());
        out.append(")");
        out
    } else {
        String::from_str("DEBUG: REGISTRY VIEWER")
    }
}

/// The counter in the title bar: the selected category's place among the
/// categories (0 when there are none), and the focused pane.
pub open spec fn counter_text(c: RegistryCatalog, s: RegistryViewerState) -> Seq<char> {
    let n = c.categories@.len();
    let place: nat = if n == 0 {
        0
    } else {
        (s.category_index + 1) as nat
    };
    "cat "@ + digits(place, 10) + "/"@ + digits(n, 10) + " · pane: "@ + pane_label(s.pane as int)
}

/// The counter in the title bar.
pub fn registry_counter(catalog: &RegistryCatalog, state: &RegistryViewerState) -> (r: String)
    requires
        state.category_index < usize::MAX,
    ensures
        r@ == counter_text(*catalog, *state),
{
    let n = catalog.categories.len();
    let place: usize = if n == 0 {
        0
    } else {
        state.category_index + 1
    };
    let mut out = String::from_str("cat ");
    out.append(decimal(place as u64).as_str());
    out.append("/");
    out.append(decimal(n as u64).as_str());
    out.append(" · pane: ");
    out.append(pane_name(state.pane));
    out
}

/// The text of a detail pane: the raw JSON or the parsed fields of the
/// selected entry, or a note when there is none.
pub open spec fn detail_body(e: Option<RegistryEntry>, raw: bool) -> Seq<char> {
    match e {
        None => "Select an entry"@,
        Some(e) => if raw {
            if e.raw_json@.len() == 0 {
                "No raw JSON available\n(possibly saved with a different type key)"@
            } else {
                e.raw_json@
            }
        } else if e.parsed_fields@.len() == 0 {
            "No parsed fields available"@
        } else {
            e.parsed_fields@
        },
    }
}

/// The texts of a detail pane, top to bottom: the parsed pane starts with the
/// entry's status line.
pub open spec fn detail_lines(c: RegistryCatalog, s: RegistryViewerState, raw: bool) -> Seq<
    Seq<char>,
> {
    let e = selected_entry(c, s);
    match e {
        Some(entry) => if raw {
            seq![detail_body(e, raw)]
        } else {
            seq!["STATUS: "@ + entry.status@, detail_body(e, raw)]
        },
        None => seq![detail_body(e, raw)],
    }
}

/// The texts of the raw JSON pane (`raw`) or of the parsed fields pane.
pub fn detail_texts(catalog: &RegistryCatalog, state: &RegistryViewerState, raw: bool) -> (r: Vec<
    String,
>)
    ensures
        r@.map_values(|t: String| t@) == detail_lines(*catalog, *state, raw),
{
    let mut out: Vec<String> = Vec::new();
    let ci = state.category_index;
    let ei = state.entry_index;
    if ci < catalog.all_entries.len() && ei < catalog.all_entries[ci].len() {
        let e = &catalog.all_entries[ci][ei];
        assert(selected_entry(*catalog, *state) == Some(*e));
        if !raw {
            let mut status = String::from_str("STATUS: ");
            status.append(e.status.as_str());
            out.push(status);
        }
        let body = if raw {
            if e.raw_json.as_str().unicode_len() == 0 {
                String::from_str("No raw JSON available\n(possibly saved with a different type key)")
            } else {
                e.raw_json.clone()
            }
        } else if e.parsed_fields.as_str().unicode_len() == 0 {
            String::from_str("No parsed fields available")
        } else {
            e.parsed_fields.clone()
        };
        out.push(body);
    } else {
        assert(selected_entry(*catalog, *state) is None);
        out.push(String::from_str("Select an entry"));
    }
    assert(out@.map_values(|t: String| t@) =~= detail_lines(*catalog, *state, raw));
    out
}

/// How the status line is tinted.
#[derive(Clone, Copy, Debug, PartialEq, Eq, Structural)]
pub enum StatusTone {
    /// Fields of the source were dropped.
    Warning,
    /// The definition survives a round trip.
    Good,
    Neutral,
}

/// The tint of a status line: a warning where fields were dropped, good
/// where the round trip holds, neutral otherwise.
pub open spec fn tone_of(status: Seq<char>) -> StatusTone {
    if contains_seq(status, "DROPPED"@) {
        StatusTone::Warning
    } else if contains_seq(status, "round-trip ok"@) {
        StatusTone::Good
    } else {
        StatusTone::Neutral
    }
}

/// The tint of a status line.
pub fn status_tone(status: &str) -> (r: StatusTone)
    ensures
        r == tone_of(status@),
{
    let s = chars_of(status);
    let dropped = chars_of("DROPPED");
    if contains(s.as_slice(), dropped.as_slice()) {
        StatusTone::Warning
    } else {
        let ok = chars_of("round-trip ok");
        if contains(s.as_slice(), ok.as_slice()) {
            StatusTone::Good
        } else {
            StatusTone::Neutral
        }
    }
}

// ---------------------------------------------------------------------------
// A catalog to try the viewer on
// ---------------------------------------------------------------------------

/// The number of entries of the first category of the sample catalog.
pub const FIXTURE_ENTRIES: usize = 40000;

/// The sample catalog's entry at `i` of its first category.
pub open spec fn fixture_entry_ok(e: RegistryEntry, i: nat) -> bool {
    &&& e.id@ == "item_"@ + digits(i, 10)
    &&& e.raw_json@ == "{\"id\":\"item_"@ + digits(i, 10) + "\"}"@
    &&& e.parsed_fields@ == "Item "@ + digits(i, 10)
    &&& e.status@ == "round-trip ok"@
}

/// A catalog with a large category `Items` of entries `item_0` onwards and an
/// empty category `Empty`, and a selection of the first entry with focus on
/// the entry list.
pub fn fixture() -> (r: (RegistryCatalog, RegistryViewerState))
    ensures
        r.0.categories@.len() == 2,
        r.0.categories@[0].name@ == "Items"@,
        r.0.categories@[0].count == FIXTURE_ENTRIES,
        r.0.categories@[1].name@ == "Empty"@,
        r.0.categories@[1].count == 0,
        r.0.all_entries@.len() == 2,
        r.0.all_entries@[0]@.len() == FIXTURE_ENTRIES,
        forall|i: int|
            0 <= i < FIXTURE_ENTRIES ==> fixture_entry_ok(#[trigger] r.0.all_entries@[0]@[i], i as nat),
        r.0.all_entries@[1]@.len() == 0,
        r.1 == (RegistryViewerState {
            category_index: 0,
            entry_index: 0,
            pane: RegistryViewerState::PANE_ENTRY,
        }),
{
    let mut items: Vec<RegistryEntry> = Vec::new();
    let mut i: usize = 0;
    while i < FIXTURE_ENTRIES
        invariant
            i <= FIXTURE_ENTRIES,
            items@.len() == i,
            forall|j: int| 0 <= j < i ==> fixture_entry_ok(#[trigger] items@[j], j as nat),
        decreases FIXTURE_ENTRIES - i,
    {
        let n = decimal(i as u64);
        let mut id = String::from_str("item_");
        id.append(n.as_str());
        let mut raw_json = String::from_str("{\"id\":\"item_");
        raw_json.append(n.as_str());
        raw_json.append("\"}");
        let mut parsed_fields = String::from_str("Item ");
        parsed_fields.append(n.as_str());
        let status = String::from_str("round-trip ok");
        items.push(RegistryEntry { id, raw_json, parsed_fields, status });
        i = i + 1;
    }
    let mut categories: Vec<RegistryCategoryData> = Vec::new();
    categories.push(RegistryCategoryData { name: String::from_str("Items"), count: FIXTURE_ENTRIES });
    categories.push(RegistryCategoryData { name: String::from_str("Empty"), count: 0 });
    let mut all_entries: Vec<Vec<RegistryEntry>> = Vec::new();
    all_entries.push(items);
    all_entries.push(Vec::new());
    let state = RegistryViewerState {
        category_index: 0,
        entry_index: 0,
        pane: RegistryViewerState::PANE_ENTRY,
    };
    (RegistryCatalog { categories, all_entries }, state)
}


// ---------------------------------------------------------------------------
// Raw definition keys
// ---------------------------------------------------------------------------

/// The type key under which the raw definitions of a registry field are
/// stored; a name without a mapping is its own key.
pub open spec fn raw_type_key(field: Seq<char>) -> Seq<char> {
    if field == "items"@ {
        "ITEM"@
    } else if field == "monsters"@ {
        "MONSTER"@
    } else if field == "terrain"@ {
        "terrain"@
    } else if field == "furniture"@ {
        "furniture"@
    } else if field == "recipes"@ {
        "recipe"@
    } else if field == "item_groups"@ {
        "item_group"@
    } else if field == "mapgen"@ {
        "mapgen"@
    } else if field == "nested_mapgen"@ {
        "nested_mapgen"@
    } else if field == "palettes"@ {
        "palette"@
    } else if field == "overmap_terrains"@ {
        "overmap_terrain"@
    } else if field == "overmap_specials"@ {
        "overmap_special"@
    } else if field == "overmap_connections"@ {
        "overmap_connection"@
    } else if field == "overmap_locations"@ {
        "overmap_location"@
    } else if field == "overmap_land_use_codes"@ {
        "overmap_land_use_code"@
    } else if field == "fields"@ {
        "field_type"@
    } else if field == "vehicle_parts"@ {
        "vehicle_part"@
    } else if field == "vehicle_part_locations"@ {
        "vehicle_part_location"@
    } else if field == "vehicle_part_categories"@ {
        "vehicle_part_category"@
    } else if field == "mutations"@ {
        "mutation"@
    } else if field == "mutation_categories"@ {
        "mutation_category"@
    } else if field == "trait_groups"@ {
        "trait_group"@
    } else if field == "bionics"@ {
        "bionic"@
    } else if field == "effects"@ {
        "effect_type"@
    } else if field == "factions"@ {
        "faction"@
    } else if field == "scenarios"@ {
        "scenario"@
    } else if field == "materials"@ {
        "material"@
    } else if field == "skills"@ {
        "skill"@
    } else if field == "traps"@ {
        "trap"@
    } else if field == "start_locations"@ {
        "start_location"@
    } else if field == "json_flags"@ {
        "json_flag"@
    } else if field == "ascii_art"@ {
        "ascii_art"@
    } else if field == "construction_groups"@ {
        "construction_group"@
    } else if field == "item_actions"@ {
        "item_action"@
    } else if field == "techniques"@ {
        "technique"@
    } else if field == "ammunition_types"@ {
        "ammunition_type"@
    } else if field == "morale_types"@ {
        "morale_type"@
    } else if field == "scent_types"@ {
        "scent_type"@
    } else if field == "movement_modes"@ {
        "movement_mode"@
    } else if field == "mood_faces"@ {
        "mood_face"@
    } else if field == "achievements"@ {
        "achievement"@
    } else if field == "body_parts"@ {
        "body_part"@
    } else if field == "dreams"@ {
        "dream"@
    } else if field == "emits"@ {
        "emit"@
    } else if field == "event_statistics"@ {
        "event_statistic"@
    } else if field == "harvests"@ {
        "harvest"@
    } else if field == "item_migrations"@ {
        "MIGRATION"@
    } else if field == "monster_groups"@ {
        "monstergroup"@
    } else if field == "mutation_types"@ {
        "mutation_type"@
    } else if field == "nested_categories"@ {
        "nested_category"@
    } else if field == "practices"@ {
        "practice"@
    } else if field == "professions"@ {
        "profession"@
    } else if field == "proficiencies"@ {
        "proficiency"@
    } else if field == "scores"@ {
        "score"@
    } else if field == "species"@ {
        "SPECIES"@
    } else if field == "sub_body_parts"@ {
        "sub_body_part"@
    } else if field == "uncrafts"@ {
        "uncraft"@
    } else if field == "vitamins"@ {
        "vitamin"@
    } else if field == "talk_topics"@ {
        "talk_topic"@
    } else if field == "widgets"@ {
        "widget"@
    } else if field == "effects_on_condition"@ {
        "effect_on_condition"@
    } else if field == "constructions"@ {
        "construction"@
    } else if field == "snippets"@ {
        "snippet"@
    } else if field == "npcs"@ {
        "npc"@
    } else if field == "npc_classes"@ {
        "npc_class"@
    } else if field == "requirements"@ {
        "requirement"@
    } else if field == "spells"@ {
        "SPELL"@
    } else if field == "vehicles"@ {
        "vehicle"@
    } else if field == "city_buildings"@ {
        "city_building"@
    } else if field == "mission_definitions"@ {
        "mission_definition"@
    } else if field == "event_transformations"@ {
        "event_transformation"@
    } else if field == "martial_arts"@ {
        "martial_art"@
    } else if field == "monster_attacks"@ {
        "monster_attack"@
    } else if field == "weakpoint_sets"@ {
        "weakpoint_set"@
    } else if field == "recipe_groups"@ {
        "recipe_group"@
    } else if field == "monster_flags"@ {
        "monster_flag"@
    } else if field == "activity_types"@ {
        "activity_type"@
    } else if field == "ammo_effects"@ {
        "ammo_effect"@
    } else if field == "tool_qualities"@ {
        "tool_quality"@
    } else if field == "faults"@ {
        "fault"@
    } else if field == "map_extras"@ {
        "map_extra"@
    } else if field == "fault_fixes"@ {
        "fault_fix"@
    } else if field == "ter_furn_transforms"@ {
        "ter_furn_transform"@
    } else if field == "connect_groups"@ {
        "connect_group"@
    } else if field == "attack_vectors"@ {
        "attack_vector"@
    } else if field == "region_terrain_furnitures"@ {
        "region_terrain_furniture"@
    } else if field == "item_categories"@ {
        "ITEM_CATEGORY"@
    } else if field == "oter_visions"@ {
        "oter_vision"@
    } else if field == "profession_item_substitutions"@ {
        "profession_item_substitutions"@
    } else if field == "character_mods"@ {
        "character_mod"@
    } else if field == "weapon_categories"@ {
        "weapon_category"@
    } else if field == "rotatable_symbols"@ {
        "rotatable_symbol"@
    } else if field == "oter_id_migrations"@ {
        "oter_id_migration"@
    } else if field == "climbing_aids"@ {
        "climbing_aid"@
    } else if field == "conducts"@ {
        "conduct"@
    } else if field == "weather_types"@ {
        "weather_type"@
    } else if field == "proficiency_categories"@ {
        "proficiency_category"@
    } else if field == "faction_missions"@ {
        "faction_mission"@
    } else if field == "fault_groups"@ {
        "fault_group"@
    } else if field == "jmath_functions"@ {
        "jmath_function"@
    } else if field == "body_graphs"@ {
        "body_graph"@
    } else if field == "limb_scores"@ {
        "limb_score"@
    } else if field == "construction_categories"@ {
        "construction_category"@
    } else if field == "recipe_categories"@ {
        "recipe_category"@
    } else if field == "addiction_types"@ {
        "addiction_type"@
    } else if field == "region_settings"@ {
        "region_settings"@
    } else if field == "gates"@ {
        "gate"@
    } else if field == "damage_types"@ {
        "damage_type"@
    } else if field == "anatomies"@ {
        "anatomy"@
    } else if field == "end_screens"@ {
        "end_screen"@
    } else {
        field
    }
}

/// The type key under which the raw definitions of a registry field are
/// stored (`items` gives `ITEM`); a name without a mapping is its own key.
fn raw_type_key_of_field<'a>(field_name: &'a str) -> (r: &'a str)
    ensures
        r@ == raw_type_key(field_name@),
{
    if str_eq(field_name, "items") {
        "ITEM"
    } else if str_eq(field_name, "monsters") {
        "MONSTER"
    } else if str_eq(field_name, "terrain") {
        "terrain"
    } else if str_eq(field_name, "furniture") {
        "furniture"
    } else if str_eq(field_name, "recipes") {
        "recipe"
    } else if str_eq(field_name, "item_groups") {
        "item_group"
    } else if str_eq(field_name, "mapgen") {
        "mapgen"
    } else if str_eq(field_name, "nested_mapgen") {
        "nested_mapgen"
    } else if str_eq(field_name, "palettes") {
        "palette"
    } else if str_eq(field_name, "overmap_terrains") {
        "overmap_terrain"
    } else if str_eq(field_name, "overmap_specials") {
        "overmap_special"
    } else if str_eq(field_name, "overmap_connections") {
        "overmap_connection"
    } else if str_eq(field_name, "overmap_locations") {
        "overmap_location"
    } else if str_eq(field_name, "overmap_land_use_codes") {
        "overmap_land_use_code"
    } else if str_eq(field_name, "fields") {
        "field_type"
    } else if str_eq(field_name, "vehicle_parts") {
        "vehicle_part"
    } else if str_eq(field_name, "vehicle_part_locations") {
        "vehicle_part_location"
    } else if str_eq(field_name, "vehicle_part_categories") {
        "vehicle_part_category"
    } else if str_eq(field_name, "mutations") {
        "mutation"
    } else if str_eq(field_name, "mutation_categories") {
        "mutation_category"
    } else if str_eq(field_name, "trait_groups") {
        "trait_group"
    } else if str_eq(field_name, "bionics") {
        "bionic"
    } else if str_eq(field_name, "effects") {
        "effect_type"
    } else if str_eq(field_name, "factions") {
        "faction"
    } else if str_eq(field_name, "scenarios") {
        "scenario"
    } else if str_eq(field_name, "materials") {
        "material"
    } else if str_eq(field_name, "skills") {
        "skill"
    } else if str_eq(field_name, "traps") {
        "trap"
    } else if str_eq(field_name, "start_locations") {
        "start_location"
    } else if str_eq(field_name, "json_flags") {
        "json_flag"
    } else if str_eq(field_name, "ascii_art") {
        "ascii_art"
    } else if str_eq(field_name, "construction_groups") {
        "construction_group"
    } else if str_eq(field_name, "item_actions") {
        "item_action"
    } else if str_eq(field_name, "techniques") {
        "technique"
    } else if str_eq(field_name, "ammunition_types") {
        "ammunition_type"
    } else if str_eq(field_name, "morale_types") {
        "morale_type"
    } else if str_eq(field_name, "scent_types") {
        "scent_type"
    } else if str_eq(field_name, "movement_modes") {
        "movement_mode"
    } else if str_eq(field_name, "mood_faces") {
        "mood_face"
    } else if str_eq(field_name, "achievements") {
        "achievement"
    } else if str_eq(field_name, "body_parts") {
        "body_part"
    } else if str_eq(field_name, "dreams") {
        "dream"
    } else if str_eq(field_name, "emits") {
        "emit"
    } else if str_eq(field_name, "event_statistics") {
        "event_statistic"
    } else if str_eq(field_name, "harvests") {
        "harvest"
    } else if str_eq(field_name, "item_migrations") {
        "MIGRATION"
    } else if str_eq(field_name, "monster_groups") {
        "monstergroup"
    } else if str_eq(field_name, "mutation_types") {
        "mutation_type"
    } else if str_eq(field_name, "nested_categories") {
        "nested_category"
    } else if str_eq(field_name, "practices") {
        "practice"
    } else if str_eq(field_name, "professions") {
        "profession"
    } else if str_eq(field_name, "proficiencies") {
        "proficiency"
    } else if str_eq(field_name, "scores") {
        "score"
    } else if str_eq(field_name, "species") {
        "SPECIES"
    } else if str_eq(field_name, "sub_body_parts") {
        "sub_body_part"
    } else if str_eq(field_name, "uncrafts") {
        "uncraft"
    } else if str_eq(field_name, "vitamins") {
        "vitamin"
    } else if str_eq(field_name, "talk_topics") {
        "talk_topic"
    } else if str_eq(field_name, "widgets") {
        "widget"
    } else if str_eq(field_name, "effects_on_condition") {
        "effect_on_condition"
    } else if str_eq(field_name, "constructions") {
        "construction"
    } else if str_eq(field_name, "snippets") {
        "snippet"
    } else if str_eq(field_name, "npcs") {
        "npc"
    } else if str_eq(field_name, "npc_classes") {
        "npc_class"
    } else if str_eq(field_name, "requirements") {
        "requirement"
    } else if str_eq(field_name, "spells") {
        "SPELL"
    } else if str_eq(field_name, "vehicles") {
        "vehicle"
    } else if str_eq(field_name, "city_buildings") {
        "city_building"
    } else if str_eq(field_name, "mission_definitions") {
        "mission_definition"
    } else if str_eq(field_name, "event_transformations") {
        "event_transformation"
    } else if str_eq(field_name, "martial_arts") {
        "martial_art"
    } else if str_eq(field_name, "monster_attacks") {
        "monster_attack"
    } else if str_eq(field_name, "weakpoint_sets") {
        "weakpoint_set"
    } else if str_eq(field_name, "recipe_groups") {
        "recipe_group"
    } else if str_eq(field_name, "monster_flags") {
        "monster_flag"
    } else if str_eq(field_name, "activity_types") {
        "activity_type"
    } else if str_eq(field_name, "ammo_effects") {
        "ammo_effect"
    } else if str_eq(field_name, "tool_qualities") {
        "tool_quality"
    } else if str_eq(field_name, "faults") {
        "fault"
    } else if str_eq(field_name, "map_extras") {
        "map_extra"
    } else if str_eq(field_name, "fault_fixes") {
        "fault_fix"
    } else if str_eq(field_name, "ter_furn_transforms") {
        "ter_furn_transform"
    } else if str_eq(field_name, "connect_groups") {
        "connect_group"
    } else if str_eq(field_name, "attack_vectors") {
        "attack_vector"
    } else if str_eq(field_name, "region_terrain_furnitures") {
        "region_terrain_furniture"
    } else if str_eq(field_name, "item_categories") {
        "ITEM_CATEGORY"
    } else if str_eq(field_name, "oter_visions") {
        "oter_vision"
    } else if str_eq(field_name, "profession_item_substitutions") {
        "profession_item_substitutions"
    } else if str_eq(field_name, "character_mods") {
        "character_mod"
    } else if str_eq(field_name, "weapon_categories") {
        "weapon_category"
    } else if str_eq(field_name, "rotatable_symbols") {
        "rotatable_symbol"
    } else if str_eq(field_name, "oter_id_migrations") {
        "oter_id_migration"
    } else if str_eq(field_name, "climbing_aids") {
        "climbing_aid"
    } else if str_eq(field_name, "conducts") {
        "conduct"
    } else if str_eq(field_name, "weather_types") {
        "weather_type"
    } else if str_eq(field_name, "proficiency_categories") {
        "proficiency_category"
    } else if str_eq(field_name, "faction_missions") {
        "faction_mission"
    } else if str_eq(field_name, "fault_groups") {
        "fault_group"
    } else if str_eq(field_name, "jmath_functions") {
        "jmath_function"
    } else if str_eq(field_name, "body_graphs") {
        "body_graph"
    } else if str_eq(field_name, "limb_scores") {
        "limb_score"
    } else if str_eq(field_name, "construction_categories") {
        "construction_category"
    } else if str_eq(field_name, "recipe_categories") {
        "recipe_category"
    } else if str_eq(field_name, "addiction_types") {
        "addiction_type"
    } else if str_eq(field_name, "region_settings") {
        "region_settings"
    } else if str_eq(field_name, "gates") {
        "gate"
    } else if str_eq(field_name, "damage_types") {
        "damage_type"
    } else if str_eq(field_name, "anatomies") {
        "anatomy"
    } else if str_eq(field_name, "end_screens") {
        "end_screen"
    } else {
        field_name
    }
}


// ---------------------------------------------------------------------------
// Line windows
// ---------------------------------------------------------------------------

/// The position of the first `\n` at or after `from`, or the length.
pub open spec fn newline_at_or_after(s: Seq<char>, from: int) -> int
    decreases s.len() - from,
{
    if from < 0 || from >= s.len() {
        s.len() as int
    } else if s[from] == '\n' {
        from
    } else {
        newline_at_or_after(s, from + 1)
    }
}

/// A line without the `\r` of a `\r\n` ending.
pub open spec fn without_cr(line: Seq<char>) -> Seq<char> {
    if line.len() > 0 && line.last() == '\r' {
        line.drop_last()
    } else {
        line
    }
}

/// The lines of `s` from `from` on, as `str::lines` gives them: split at
/// `\n` or `\r\n`, without the endings, and without an empty line after a
/// final ending.
pub open spec fn lines_from(s: Seq<char>, from: int) -> Seq<Seq<char>>
    decreases s.len() - from,
{
    if from < 0 || from >= s.len() {
        Seq::empty()
    } else {
        let end = newline_at_or_after(s, from);
        if end < from || end >= s.len() {
            seq![without_cr(s.subrange(from, s.len() as int))]
        } else {
            seq![without_cr(s.subrange(from, end))] + lines_from(s, end + 1)
        }
    }
}

/// The lines joined with `\n` between them.
pub open spec fn join_lines(lines: Seq<Seq<char>>) -> Seq<char>
    decreases lines.len(),
{
    if lines.len() == 0 {
        Seq::empty()
    } else if lines.len() == 1 {
        lines[0]
    } else {
        join_lines(lines.drop_last()) + "\n"@ + lines.last()
    }
}

/// The text from line `scroll` on: the whole text for no scroll, nothing
/// once the scroll passes the last line.
pub open spec fn line_window(text: Seq<char>, scroll: int) -> Seq<char> {
    if scroll == 0 {
        text
    } else {
        let lines = lines_from(text, 0);
        if scroll >= lines.len() {
            Seq::empty()
        } else {
            join_lines(lines.skip(scroll))
        }
    }
}

proof fn lemma_newline_bounds(s: Seq<char>, from: int)
    requires
        0 <= from,
    ensures
        from <= newline_at_or_after(s, from) <= s.len() || (from > s.len() && newline_at_or_after(s, from) == s.len()),
        newline_at_or_after(s, from) < s.len() ==> s[newline_at_or_after(s, from)] == '\n',
    decreases s.len() - from,
{
    if from < s.len() && s[from] != '\n' {
        lemma_newline_bounds(s, from + 1);
    }
}

fn split_lines(s: &[char]) -> (r: Vec<Vec<char>>)
    ensures
        r@.map_values(|l: Vec<char>| l@) == lines_from(s@, 0),
{
    let n = s.len();
    let mut out: Vec<Vec<char>> = Vec::new();
    let mut start: usize = 0;
    while start < n
        invariant_except_break
            n == s@.len(),
            start <= n,
            out@.map_values(|l: Vec<char>| l@) + lines_from(s@, start as int) == lines_from(s@, 0),
        ensures
            out@.map_values(|l: Vec<char>| l@) == lines_from(s@, 0),
        decreases n - start,
    {
        let mut end = start;
        while end < n && s[end] != '\n'
            invariant
                n == s@.len(),
                start <= end <= n,
                newline_at_or_after(s@, start as int) == newline_at_or_after(s@, end as int),
            decreases n - end,
        {
            end = end + 1;
        }
        proof {
            lemma_newline_bounds(s@, end as int);
        }
        let mut stop = end;
        if stop > start && s[stop - 1] == '\r' {
            stop = stop - 1;
        }
        let line = vstd::slice::slice_to_vec(vstd::slice::slice_subrange(s, start, stop));
        let ghost rest = lines_from(s@, start as int);
        assert(line@ == without_cr(s@.subrange(start as int, end as int)));
        let ghost before = out@.map_values(|l: Vec<char>| l@);
        out.push(line);
        assert(out@.map_values(|l: Vec<char>| l@) =~= before.push(line@));
        if end >= n {
            assert(rest =~= seq![line@]);
            assert(out@.map_values(|l: Vec<char>| l@) =~= before + rest);
            break;
        }
        assert(rest =~= seq![line@] + lines_from(s@, end + 1));
        assert(before + rest =~= before.push(line@) + lines_from(s@, end + 1));
        start = end + 1;
    }
    proof {
        if start >= n {
            assert(lines_from(s@, start as int) =~= Seq::empty());
            assert(out@.map_values(|l: Vec<char>| l@) =~= out@.map_values(|l: Vec<char>| l@) + lines_from(s@, start as int));
        }
    }
    out
}

/// The text from line `scroll` on, lines joined by `\n`.
pub fn scroll_window(text: &str, scroll: usize) -> (r: String)
    ensures
        r@ == line_window(text@, scroll as int),
{
    if scroll == 0 {
        return String::from_str(text);
    }
    proof {
        reveal_strlit("\n");
    }
    let chars = chars_of(text);
    let lines = split_lines(chars.as_slice());
    let ghost views = lines@.map_values(|l: Vec<char>| l@);
    assert(views == lines_from(text@, 0));
    if scroll >= lines.len() {
        return String::new();
    }
    let mut out: Vec<char> = lines[scroll].clone();
    assert(views.skip(scroll as int).subrange(0, 1) =~= seq![views[scroll as int]]);
    let mut k = scroll + 1;
    while k < lines.len()
        invariant
            scroll < k <= lines@.len(),
            views == lines@.map_values(|l: Vec<char>| l@),
            out@ == join_lines(views.subrange(scroll as int, k as int)),
        decreases lines@.len() - k,
    {
        let ghost prev = out@;
        out.push('\n');
        let line = &lines[k];
        proof {
            reveal_strlit("\n");
        }
        assert(out@ =~= prev + "\n"@ + line@.subrange(0, 0));
        let mut j: usize = 0;
        while j < line.len()
            invariant
                j <= line@.len(),
                out@ == prev + "\n"@ + line@.subrange(0, j as int),
            decreases line@.len() - j,
        {
            out.push(line[j]);
            j = j + 1;
        }
        let ghost sub = views.subrange(scroll as int, k + 1);
        assert(sub.drop_last() =~= views.subrange(scroll as int, k as int));
        assert(line@.subrange(0, j as int) =~= line@);
        assert(out@ =~= join_lines(sub));
        k = k + 1;
    }
    assert(views.subrange(scroll as int, lines@.len() as int) =~= views.skip(scroll as int));
    string_of(out.as_slice())
}


// ---------------------------------------------------------------------------
// Round-trip and coverage status
// ---------------------------------------------------------------------------

/// The keys of an object's members, in order.
pub open spec fn key_views(m: Seq<(String, JsonValue)>) -> Seq<Seq<char>> {
    m.map_values(|p: (String, JsonValue)| p.0@)
}

/// How many of the keys `a` are not among the keys `b`.
pub open spec fn count_absent(a: Seq<Seq<char>>, b: Seq<Seq<char>>) -> nat
    decreases a.len(),
{
    if a.len() == 0 {
        0
    } else {
        count_absent(a.drop_last(), b) + if b.contains(a.last()) {
            0nat
        } else {
            1nat
        }
    }
}

/// The status of a definition: whether its serialization survives a parse
/// and a second serialization unchanged, and, when both the source and the
/// parsed definition are objects, how many source keys the parsed one lacks
/// and how many it adds, with a warning when source fields were dropped.
pub open spec fn consistency_text(round_trip_ok: bool, parsed: JsonValue, raw: JsonValue) -> Seq<
    char,
> {
    let first = if round_trip_ok {
        "round-trip ok"@
    } else {
        "ROUND-TRIP MISMATCH"@
    };
    match (raw, parsed) {
        (JsonValue::Object(r), JsonValue::Object(p)) => {
            let missing = count_absent(key_views(r@), key_views(p@));
            let extra = count_absent(key_views(p@), key_views(r@));
            first + " · missing "@ + digits(missing, 10) + " key(s)"@ + " · extra "@ + digits(
                extra,
                10,
            ) + " key(s)"@ + if missing > 0 {
                " · ⚠ DROPPED-FIELDS"@
            } else {
                Seq::empty()
            }
        },
        _ => first,
    }
}

fn has_key(m: &Vec<(String, JsonValue)>, key: &String) -> (r: bool)
    ensures
        r == key_views(m@).contains(key@),
{
    let mut i: usize = 0;
    while i < m.len()
        invariant
            i <= m@.len(),
            forall|j: int| 0 <= j < i ==> m@[j].0@ != key@,
        decreases m@.len() - i,
    {
        if str_eq(m[i].0.as_str(), key.as_str()) {
            assert(key_views(m@)[i as int] == key@);
            return true;
        }
        i = i + 1;
    }
    assert(!key_views(m@).contains(key@)) by {
        if key_views(m@).contains(key@) {
            let j = choose|j: int| 0 <= j < key_views(m@).len() && key_views(m@)[j] == key@;
            assert(m@[j].0@ == key@);
        }
    }
    false
}

fn absent_keys(a: &Vec<(String, JsonValue)>, b: &Vec<(String, JsonValue)>) -> (r: usize)
    ensures
        r == count_absent(key_views(a@), key_views(b@)),
{
    let mut n: usize = 0;
    let mut i: usize = 0;
    while i < a.len()
        invariant
            i <= a@.len(),
            n <= i,
            n == count_absent(key_views(a@).subrange(0, i as int), key_views(b@)),
        decreases a@.len() - i,
    {
        let ghost prefix = key_views(a@).subrange(0, i as int + 1);
        assert(prefix.drop_last() =~= key_views(a@).subrange(0, i as int));
        assert(prefix.last() == a@[i as int].0@);
        if !has_key(b, &a[i].0) {
            n = n + 1;
        }
        i = i + 1;
    }
    assert(key_views(a@).subrange(0, a@.len() as int) =~= key_views(a@));
    n
}

/// Whether a value survives serialization: its JSON text parses back to a
/// value whose text is the same.
pub open spec fn round_trips(v: JsonValue) -> bool {
    match json_parse(json_serialize(v)) {
        Some(w) => json_serialize(w) == json_serialize(v),
        None => false,
    }
}

/// Serializes `parsed`, parses the text and serializes the result again,
/// and tells whether the two texts agree.
pub fn round_trip_holds(parsed: &JsonValue) -> (r: bool)
    ensures
        r == round_trips(*parsed),
{
    let first = serialize_json(parsed);
    match parse_json(first.as_str()) {
        Some(back) => {
            let second = serialize_json(&back);
            str_eq(second.as_str(), first.as_str())
        },
        None => false,
    }
}

/// The status line of a definition, with its round trip checked here.
pub fn consistency_status(parsed: &JsonValue, raw: &JsonValue) -> (r: String)
    ensures
        r@ == consistency_text(round_trips(*parsed), *parsed, *raw),
{
    let ok = round_trip_holds(parsed);
    check_consistency(ok, parsed, raw)
}

/// The status line of a definition (see [`consistency_text`]), given
/// whether its serialization round trip holds.
pub fn check_consistency(round_trip_ok: bool, parsed: &JsonValue, raw: &JsonValue) -> (r: String)
    ensures
        r@ == consistency_text(round_trip_ok, *parsed, *raw),
{
    let mut out = if round_trip_ok {
        String::from_str("round-trip ok")
    } else {
        String::from_str("ROUND-TRIP MISMATCH")
    };
    match (raw, parsed) {
        (JsonValue::Object(r), JsonValue::Object(p)) => {
            let missing = absent_keys(r, p);
            let extra = absent_keys(p, r);
            out.append(" · missing ");
            out.append(decimal(missing as u64).as_str());
            out.append(" key(s)");
            out.append(" · extra ");
            out.append(decimal(extra as u64).as_str());
            out.append(" key(s)");
            if missing > 0 {
                out.append(" · ⚠ DROPPED-FIELDS");
            } else {
                assert(out@ =~= out@ + Seq::<char>::empty());
            }
        },
        _ => {},
    }
    out
}


// ---------------------------------------------------------------------------
// The widget tree
// ---------------------------------------------------------------------------

/// A widget: the text it shows, if any, and its children (by position in
/// the tree), in order.
#[derive(Clone, Debug)]
pub struct UiNode {
    pub text: Option<String>,
    pub children: Vec<usize>,
}

/// The widgets of a screen, each child after its parent.
#[derive(Clone, Debug)]
pub struct UiTree {
    pub nodes: Vec<UiNode>,
}

impl UiTree {
    /// Every child comes after its parent and is in the tree.
    pub open spec fn well_formed(&self) -> bool {
        forall|i: int, j: int|
            0 <= i < self.nodes@.len() && 0 <= j < self.nodes@[i].children@.len() ==> i < (
            #[trigger] self.nodes@[i].children@[j]) < self.nodes@.len()
    }
}

/// The children of widget `e` (none for a widget not in the tree).
pub open spec fn children_of(nodes: Seq<UiNode>, e: int) -> Seq<usize> {
    if 0 <= e < nodes.len() {
        nodes[e].children@
    } else {
        Seq::empty()
    }
}

/// The texts of widget `e` and of everything below it, depth first in child
/// order.
pub open spec fn texts_of(nodes: Seq<UiNode>, e: int) -> Seq<Seq<char>>
    decreases nodes.len() - e, children_of(nodes, e).len() + 1,
{
    if 0 <= e < nodes.len() {
        let own: Seq<Seq<char>> = match nodes[e].text {
            Some(t) => seq![t@],
            None => Seq::empty(),
        };
        own + texts_below(nodes, e, children_of(nodes, e).len() as int)
    } else {
        Seq::empty()
    }
}

/// The texts below the first `k` children of widget `e`, in order.
pub open spec fn texts_below(nodes: Seq<UiNode>, e: int, k: int) -> Seq<Seq<char>>
    decreases nodes.len() - e, k,
{
    if k <= 0 || k > children_of(nodes, e).len() || !(0 <= e < nodes.len()) {
        Seq::empty()
    } else {
        let c = children_of(nodes, e)[k - 1] as int;
        if e < c < nodes.len() {
            texts_below(nodes, e, k - 1) + texts_of(nodes, c)
        } else {
            texts_below(nodes, e, k - 1)
        }
    }
}

/// The children of widget `e`, in order (none for a widget not in the tree).
pub fn children(w: &UiTree, e: usize) -> (r: Vec<usize>)
    ensures
        r@ == children_of(w.nodes@, e as int),
{
    if e < w.nodes.len() {
        w.nodes[e].children.clone()
    } else {
        Vec::new()
    }
}

/// The texts shown by widget `e` and everything below it, depth first.
pub fn texts(w: &UiTree, e: usize) -> (r: Vec<String>)
    requires
        w.well_formed(),
    ensures
        r@.map_values(|t: String| t@) == texts_of(w.nodes@, e as int),
    decreases w.nodes@.len() - e,
{
    let mut out: Vec<String> = Vec::new();
    if e >= w.nodes.len() {
        assert(out@.map_values(|t: String| t@) =~= texts_of(w.nodes@, e as int));
        return out;
    }
    match &w.nodes[e].text {
        Some(t) => out.push(t.clone()),
        None => {},
    }
    let ghost own = out@.map_values(|t: String| t@);
    let kids = &w.nodes[e].children;
    let mut k: usize = 0;
    while k < kids.len()
        invariant
            w.well_formed(),
            e < w.nodes@.len(),
            kids@ == children_of(w.nodes@, e as int),
            k <= kids@.len(),
            out@.map_values(|t: String| t@) == own + texts_below(w.nodes@, e as int, k as int),
        decreases kids@.len() - k,
    {
        let c = kids[k];
        assert(e < c < w.nodes@.len()) by {
            assert(w.nodes@[e as int].children@[k as int] == c);
        }
        let below = texts(w, c);
        let ghost before = out@.map_values(|t: String| t@);
        let mut j: usize = 0;
        while j < below.len()
            invariant
                j <= below@.len(),
                out@.map_values(|t: String| t@) == before + below@.map_values(|t: String| t@).take(j as int),
            decreases below@.len() - j,
        {
            let ghost prev = out@.map_values(|t: String| t@);
            let s = below[j].clone();
            assert(s@ == below@[j as int]@);
            out.push(s);
            assert(out@.map_values(|t: String| t@) =~= prev.push(s@));
            assert(below@.map_values(|t: String| t@).take(j + 1) =~= below@.map_values(|t: String| t@).take(
                j as int,
            ).push(below@[j as int]@));
            assert(out@.map_values(|t: String| t@) =~= before + below@.map_values(|t: String| t@).take(
                j + 1,
            ));
            j = j + 1;
        }
        assert(below@.map_values(|t: String| t@).take(j as int) =~= below@.map_values(|t: String| t@));
        assert(own + texts_below(w.nodes@, e as int, k + 1) =~= own + texts_below(w.nodes@, e as int, k as int)
            + texts_of(w.nodes@, c as int));
        k = k + 1;
    }
    out
}


// ---------------------------------------------------------------------------
// Building a category
// ---------------------------------------------------------------------------

/// The entries are in order of id.
pub open spec fn ids_sorted(s: Seq<RegistryEntry>) -> bool {
    forall|i: int, j: int| 0 <= i < j < s.len() ==> lex_le((#[trigger] s[i]).id@, (#[trigger] s[j]).id@)
}

/// An entry by its texts.
pub open spec fn entry_view(e: RegistryEntry) -> (Seq<char>, Seq<char>, Seq<char>, Seq<char>) {
    (e.id@, e.raw_json@, e.parsed_fields@, e.status@)
}

pub open spec fn entry_views(s: Seq<RegistryEntry>) -> Seq<(Seq<char>, Seq<char>, Seq<char>, Seq<char>)> {
    s.map_values(|e: RegistryEntry| entry_view(e))
}

proof fn lemma_insert_views(s: Seq<(Seq<char>, Seq<char>, Seq<char>, Seq<char>)>, j: int, x: (Seq<char>, Seq<char>, Seq<char>, Seq<char>))
    requires
        0 <= j <= s.len(),
    ensures
        s.insert(j, x).to_multiset() =~= s.to_multiset().insert(x),
{
    broadcast use vstd::seq_lib::group_to_multiset_ensures;
    broadcast use vstd::multiset::group_multiset_axioms;

    let t = s.insert(j, x);
    assert(t.remove(j) =~= s);
    assert(t[j] == x);
    assert(t.to_multiset().count(x) > 0);
}

/// The entries whose id is `id`.
pub open spec fn has_id(id: Seq<char>) -> spec_fn((Seq<char>, Seq<char>, Seq<char>, Seq<char>)) -> bool {
    |y: (Seq<char>, Seq<char>, Seq<char>, Seq<char>)| y.0 == id
}

/// A category of the viewer from its entries: the entries sorted by id (as
/// a stable sort leaves them: entries with the same id keep the order they
/// came in) and the category's name and entry count.
pub fn registry_category(name: &str, entries: Vec<RegistryEntry>) -> (r: (RegistryCategoryData, Vec<RegistryEntry>))
    ensures
        r.0.name@ == name@,
        r.0.count == r.1@.len(),
        ids_sorted(r.1@),
        entry_views(r.1@).to_multiset() == entry_views(entries@).to_multiset(),
        forall|id: Seq<char>|
            #[trigger] entry_views(r.1@).filter(has_id(id)) == entry_views(entries@).filter(has_id(id)),
{
    let ghost all = entry_views(entries@);
    let ghost mut done: Seq<(Seq<char>, Seq<char>, Seq<char>, Seq<char>)> = Seq::empty();
    let mut rest = entries;
    let mut out: Vec<RegistryEntry> = Vec::new();
    proof {
        assert(all =~= entry_views(rest@) + done);
        assert forall|id: Seq<char>| #[trigger]
            entry_views(out@).filter(has_id(id)) == done.filter(has_id(id)) by {
            assert(entry_views(out@) =~= done);
        }
        assert(entry_views(out@) =~= Seq::<(Seq<char>, Seq<char>, Seq<char>, Seq<char>)>::empty());
        broadcast use vstd::seq_lib::group_to_multiset_ensures;
        broadcast use vstd::multiset::group_multiset_axioms;
        assert(entry_views(out@).to_multiset() =~= vstd::multiset::Multiset::empty());
    }
    while rest.len() > 0
        invariant
            ids_sorted(out@),
            entry_views(out@).to_multiset().add(entry_views(rest@).to_multiset()) == all.to_multiset(),
            all == entry_views(rest@) + done,
            forall|id: Seq<char>| #[trigger]
                entry_views(out@).filter(has_id(id)) == done.filter(has_id(id)),
        decreases rest@.len(),
    {
        let ghost before_rest = rest@;
        let ghost done_before = done;
        let x = rest.pop().unwrap();
        proof {
            assert(before_rest =~= rest@.push(x));
            assert(entry_views(before_rest) =~= entry_views(rest@).push(entry_view(x)));
            broadcast use vstd::seq_lib::group_to_multiset_ensures;
            done = seq![entry_view(x)] + done;
            assert(all =~= entry_views(rest@) + done);
            lemma_lex_order(x.id@, x.id@, x.id@);
        }
        let mut j: usize = 0;
        while j < out.len() && !str_le(x.id.as_str(), out[j].id.as_str())
            invariant
                j <= out@.len(),
                forall|k: int| 0 <= k < j ==> !lex_le(x.id@, (#[trigger] out@[k]).id@),
            decreases out@.len() - j,
        {
            j = j + 1;
        }
        let ghost old_out = out@;
        proof {
            lemma_insert_views(entry_views(old_out), j as int, entry_view(x));
        }
        out.insert(j, x);
        proof {
            assert(out@ == old_out.insert(j as int, x));
            assert(entry_views(out@) =~= entry_views(old_out).insert(j as int, entry_view(x)));
            assert forall|a: int, b: int| 0 <= a < b < out@.len() implies lex_le(
                (#[trigger] out@[a]).id@,
                (#[trigger] out@[b]).id@,
            ) by {
                if b < j {
                    assert(lex_le(old_out[a].id@, old_out[b].id@));
                } else if b == j {
                    assert(!lex_le(x.id@, old_out[a].id@));
                    lemma_lex_order(x.id@, old_out[a].id@, x.id@);
                } else if a < j {
                    assert(lex_le(old_out[a].id@, old_out[b - 1].id@));
                } else if a == j {
                    assert(lex_le(x.id@, old_out[j as int].id@));
                    if j as int != b - 1 {
                        assert(lex_le(old_out[j as int].id@, old_out[b - 1].id@));
                        lemma_lex_order(x.id@, old_out[j as int].id@, old_out[b - 1].id@);
                    }
                } else {
                    assert(lex_le(old_out[a - 1].id@, old_out[b - 1].id@));
                }
            }
            assert forall|id: Seq<char>| #[trigger]
                entry_views(out@).filter(has_id(id)) == done.filter(has_id(id)) by {
                let p = has_id(id);
                let ov = entry_views(old_out);
                assert forall|i: int| p(entry_view(x)) && 0 <= i < j implies !p(#[trigger] ov[i]) by {
                    assert(!lex_le(x.id@, old_out[i].id@));
                }
                lemma_filter_insert(ov, j as int, entry_view(x), p);
                lemma_filter_prepend_class(done_before, entry_view(x), p);
            }
            broadcast use vstd::multiset::group_multiset_axioms;
            assert(entry_views(out@).to_multiset().add(entry_views(rest@).to_multiset()) =~= all.to_multiset());
        }
    }
    proof {
        assert(entry_views(rest@) =~= Seq::<(Seq<char>, Seq<char>, Seq<char>, Seq<char>)>::empty());
        assert(all =~= done);
        broadcast use vstd::seq_lib::group_to_multiset_ensures;
        broadcast use vstd::multiset::group_multiset_axioms;
        assert(entry_views(out@).to_multiset() =~= all.to_multiset());
    }
    let count = out.len();
    (RegistryCategoryData { name: String::from_str(name), count }, out)
}

/// The entry of an interned token: its name, no raw JSON, the kind and
/// number (`SkillId(3)`), and a status saying it is derived.
pub fn token_entry(name: &str, kind: &str, id: u32) -> (r: RegistryEntry)
    ensures
        r.id@ == name@,
        r.raw_json@.len() == 0,
        r.parsed_fields@ == kind@ + "("@ + digits(id as nat, 10) + ")"@,
        r.status@ == "derived (token)"@,
{
    let mut parsed = String::from_str(kind);
    parsed.append("(");
    parsed.append(decimal(id as u64).as_str());
    parsed.append(")");
    RegistryEntry {
        id: String::from_str(name),
        raw_json: String::new(),
        parsed_fields: parsed,
        status: String::from_str("derived (token)"),
    }
}

/// The status of a map generator entry: whether the data files have it.
pub fn mapgen_status(has_source: bool) -> (r: &'static str)
    ensures
        r@ == if has_source {
            "mapgen present"@
        } else {
            "no source JSON"@
        },
{
    if has_source {
        "mapgen present"
    } else {
        "no source JSON"
    }
}

/// Which definition components an entity of the definition world carries,
/// as far as its registry entry names its kind.
#[derive(Clone, Copy, Debug, Default, PartialEq, Eq, Structural)]
pub struct DefComponents {
    pub weapon: bool,
    pub ammo: bool,
    pub gun: bool,
    pub armour: bool,
    pub food: bool,
    pub tool: bool,
    pub book: bool,
    pub magazine: bool,
    pub gun_mod: bool,
    pub container: bool,
    pub monster: bool,
    pub terrain: bool,
    pub furniture: bool,
    pub recipe: bool,
    pub body_part: bool,
}

/// The kind of a definition entity: the first component it carries, in the
/// order of the fields, else `unknown`.
pub open spec fn def_kind_of(c: DefComponents) -> Seq<char> {
    if c.weapon {
        "weapon"@
    } else if c.ammo {
        "ammo"@
    } else if c.gun {
        "gun"@
    } else if c.armour {
        "armor"@
    } else if c.food {
        "food"@
    } else if c.tool {
        "tool"@
    } else if c.book {
        "book"@
    } else if c.magazine {
        "magazine"@
    } else if c.gun_mod {
        "gunmod"@
    } else if c.container {
        "container"@
    } else if c.monster {
        "monster"@
    } else if c.terrain {
        "terrain"@
    } else if c.furniture {
        "furniture"@
    } else if c.recipe {
        "recipe"@
    } else if c.body_part {
        "body_part"@
    } else {
        "unknown"@
    }
}

/// The kind a definition-world entry shows for its entity.
pub fn def_world_kind(c: &DefComponents) -> (r: &'static str)
    ensures
        r@ == def_kind_of(*c),
{
    if c.weapon {
        "weapon"
    } else if c.ammo {
        "ammo"
    } else if c.gun {
        "gun"
    } else if c.armour {
        "armor"
    } else if c.food {
        "food"
    } else if c.tool {
        "tool"
    } else if c.book {
        "book"
    } else if c.magazine {
        "magazine"
    } else if c.gun_mod {
        "gunmod"
    } else if c.container {
        "container"
    } else if c.monster {
        "monster"
    } else if c.terrain {
        "terrain"
    } else if c.furniture {
        "furniture"
    } else if c.recipe {
        "recipe"
    } else if c.body_part {
        "body_part"
    } else {
        "unknown"
    }
}

/// The entry of a definition-world index whose entity is gone.
pub fn stale_definition_entry(id: String) -> (r: RegistryEntry)
    ensures
        r.id@ == id@,
        r.raw_json@.len() == 0,
        r.parsed_fields@ == "Definition entity is no longer available"@,
        r.status@ == "stale definition index"@,
{
    RegistryEntry {
        id,
        raw_json: String::new(),
        parsed_fields: String::from_str("Definition entity is no longer available"),
        status: String::from_str("stale definition index"),
    }
}

// ---------------------------------------------------------------------------
// The texts of a definition entry
// ---------------------------------------------------------------------------

/// The bytes a character takes in UTF-8.
pub open spec fn utf8_width(c: char) -> nat {
    if (c as u32) < 0x80 {
        1
    } else if (c as u32) < 0x800 {
        2
    } else if (c as u32) < 0x10000 {
        3
    } else {
        4
    }
}

/// The length of a text in UTF-8 bytes (what `str::len` counts).
pub open spec fn utf8_len(s: Seq<char>) -> nat
    decreases s.len(),
{
    if s.len() == 0 {
        0
    } else {
        utf8_len(s.drop_last()) + utf8_width(s.last())
    }
}

/// The first `n` characters of a text, or all of it when it is shorter.
pub open spec fn first_chars(s: Seq<char>, n: nat) -> Seq<char> {
    if s.len() <= n {
        s
    } else {
        s.take(n as int)
    }
}

/// A character as the parsed pane shows it: a line break as `\n`, so that
/// no text spans more than its line; anything else as it is.
pub open spec fn escape_char(c: char) -> Seq<char> {
    if c == '\n' {
        "\\n"@
    } else {
        seq![c]
    }
}

/// A text with each character escaped as [`escape_char`] does.
pub open spec fn escaped(s: Seq<char>) -> Seq<char>
    decreases s.len(),
{
    if s.len() == 0 {
        Seq::empty()
    } else {
        escaped(s.drop_last()) + escape_char(s.last())
    }
}

/// A string field: in quotes, escaped, cut to its first 120 characters and
/// marked with `…` when it is longer than 120 bytes.
pub open spec fn string_field_text(s: Seq<char>) -> Seq<char> {
    if utf8_len(s) > 120 {
        "\""@ + escaped(first_chars(s, 120)) + "…\""@
    } else {
        "\""@ + escaped(s) + "\""@
    }
}

/// An item of an array field: a string escaped, any other value as its
/// compact JSON text (which is what `Display` writes for a value).
pub open spec fn array_item_text(x: JsonValue) -> Seq<char> {
    match x {
        JsonValue::String(s) => escaped(s@),
        _ => json_serialize(x),
    }
}

pub open spec fn array_items(a: Seq<JsonValue>) -> Seq<Seq<char>> {
    a.map_values(|x: JsonValue| array_item_text(x))
}

/// An array field: its items joined by `, ` in brackets; past 20 items, the
/// first 20 and how many more there are.
pub open spec fn array_field_text(a: Seq<JsonValue>) -> Seq<char> {
    let items = array_items(a);
    if items.len() > 20 {
        "["@ + join_names(items.take(20)) + " … "@ + digits((items.len() - 20) as nat, 10)
            + " more]"@
    } else {
        "["@ + join_names(items) + "]"@
    }
}

/// The text of a field's value. A number is written as `serde_json` writes
/// it (its `Display` and its serialization use the same digits).
pub open spec fn field_value_text(v: JsonValue) -> Seq<char> {
    match v {
        JsonValue::Null => "null"@,
        JsonValue::Bool(b) => if b {
            "true"@
        } else {
            "false"@
        },
        JsonValue::Number(_) => json_serialize(v),
        JsonValue::String(s) => string_field_text(s@),
        JsonValue::Array(a) => array_field_text(a@),
        JsonValue::Object(_) => "{ ... }"@,
    }
}

pub open spec fn field_lines(m: Seq<(String, JsonValue)>) -> Seq<Seq<char>> {
    m.map_values(|kv: (String, JsonValue)| escaped(kv.0@) + ": "@ + field_value_text(kv.1))
}

/// The parsed pane of a definition: one `key: value` line per member of an
/// object, in order (line breaks in keys and strings written as `\n`, so
/// each stays on its line; all else as it is);
/// any other value as its compact JSON text.
pub open spec fn parsed_fields_text(v: JsonValue) -> Seq<char> {
    match v {
        JsonValue::Object(m) => join_lines(field_lines(m@)),
        _ => json_serialize(v),
    }
}

/// The pieces of `s` between its line breaks, as `str::split('\n')` gives
/// them: one more piece than there are line breaks.
pub open spec fn line_pieces(s: Seq<char>) -> Seq<Seq<char>>
    decreases s.len(),
{
    if s.len() == 0 {
        seq![Seq::empty()]
    } else {
        let p = line_pieces(s.drop_last());
        if s.last() == '\n' {
            p.push(Seq::empty())
        } else {
            p.update(p.len() - 1, p.last().push(s.last()))
        }
    }
}

proof fn lemma_split_plain(b: Seq<char>)
    requires
        no_newline(b),
    ensures
        line_pieces(b) == seq![b],
    decreases b.len(),
{
    if b.len() > 0 {
        let c = b.last();
        assert(c == b[b.len() - 1]);
        assert(no_newline(b.drop_last()));
        lemma_split_plain(b.drop_last());
        assert(b.drop_last().push(c) =~= b);
        assert(line_pieces(b) =~= seq![b]);
    } else {
        assert(b =~= Seq::<char>::empty());
    }
}

proof fn lemma_split_after(a: Seq<char>, b: Seq<char>)
    requires
        no_newline(b),
    ensures
        line_pieces(a + "\n"@ + b) == line_pieces(a).push(b),
    decreases b.len(),
{
    reveal_strlit("\n");
    let x = a + "\n"@ + b;
    if b.len() == 0 {
        assert(x.drop_last() =~= a);
        assert(x.last() == '\n');
        assert(b =~= Seq::<char>::empty());
    } else {
        let c = b.last();
        assert(c == b[b.len() - 1]);
        assert(no_newline(b.drop_last()));
        assert(x.drop_last() =~= a + "\n"@ + b.drop_last());
        assert(x.last() == c);
        lemma_split_after(a, b.drop_last());
        assert(b.drop_last().push(c) =~= b);
        assert(line_pieces(x) =~= line_pieces(a).push(b));
    }
}

/// Lines without line breaks, joined, split back into the same lines.
proof fn lemma_split_join(ls: Seq<Seq<char>>)
    requires
        ls.len() >= 1,
        forall|i: int| 0 <= i < ls.len() ==> no_newline(#[trigger] ls[i]),
    ensures
        line_pieces(join_lines(ls)) == ls,
    decreases ls.len(),
{
    if ls.len() == 1 {
        lemma_split_plain(ls[0]);
        assert(ls =~= seq![ls[0]]);
    } else {
        let d = ls.drop_last();
        assert forall|i: int| 0 <= i < d.len() implies no_newline(#[trigger] d[i]) by {
            assert(d[i] == ls[i]);
        }
        lemma_split_join(d);
        assert(no_newline(ls[ls.len() - 1]));
        lemma_split_after(join_lines(d), ls.last());
        assert(d.push(ls.last()) =~= ls);
    }
}

/// A text escaped for the parsed pane holds no line break.
proof fn lemma_escaped_no_newline(s: Seq<char>)
    ensures
        no_newline(escaped(s)),
    decreases s.len(),
{
    if s.len() > 0 {
        lemma_escaped_no_newline(s.drop_last());
        reveal_strlit("\\n");
        assert(no_newline(escape_char(s.last())));
        lemma_concat_no_newline(escaped(s.drop_last()), escape_char(s.last()));
    }
}

/// A text without line breaks is written in the parsed pane as it is.
pub proof fn lemma_plain_text_written_as_is(s: Seq<char>)
    requires
        no_newline(s),
    ensures
        escaped(s) == s,
    decreases s.len(),
{
    if s.len() > 0 {
        assert(no_newline(s.drop_last()));
        lemma_plain_text_written_as_is(s.drop_last());
        assert(s[s.len() - 1] != '\n');
        assert(s.drop_last() + seq![s.last()] =~= s);
    } else {
        assert(escaped(s) =~= s);
    }
}

proof fn lemma_join_names_no_newline(names: Seq<Seq<char>>)
    requires
        forall|i: int| 0 <= i < names.len() ==> no_newline(#[trigger] names[i]),
    ensures
        no_newline(join_names(names)),
    decreases names.len(),
{
    if names.len() > 1 {
        let d = names.drop_last();
        assert forall|i: int| 0 <= i < d.len() implies no_newline(#[trigger] d[i]) by {
            assert(d[i] == names[i]);
        }
        lemma_join_names_no_newline(d);
        reveal_strlit(", ");
        assert(no_newline(", "@));
        assert(no_newline(names[names.len() - 1]));
        lemma_concat_no_newline(join_names(d), ", "@);
        lemma_concat_no_newline(join_names(d) + ", "@, names.last());
    } else if names.len() == 1 {
        assert(no_newline(names[0]));
    }
}

proof fn lemma_utf8_prefix(s: Seq<char>, n: int)
    requires
        0 <= n <= s.len(),
    ensures
        utf8_len(s.take(n)) <= utf8_len(s),
    decreases s.len(),
{
    if n < s.len() {
        lemma_utf8_prefix(s.drop_last(), n);
        assert(s.drop_last().take(n) =~= s.take(n));
    } else {
        assert(s.take(n) =~= s);
    }
}

fn utf8_width_exec(c: char) -> (r: u64)
    ensures
        r == utf8_width(c),
{
    let code = c as u32;
    if code < 0x80 {
        1
    } else if code < 0x800 {
        2
    } else if code < 0x10000 {
        3
    } else {
        4
    }
}

fn longer_than(cs: &Vec<char>, limit: u64) -> (r: bool)
    ensures
        r == (utf8_len(cs@) > limit),
{
    let mut sum: u64 = 0;
    let mut i: usize = 0;
    while i < cs.len()
        invariant
            i <= cs@.len(),
            sum == utf8_len(cs@.take(i as int)),
            sum <= limit,
        decreases cs@.len() - i,
    {
        let w = utf8_width_exec(cs[i]);
        proof {
            assert(cs@.take(i + 1).drop_last() =~= cs@.take(i as int));
            assert(cs@.take(i + 1).last() == cs@[i as int]);
        }
        if w > limit - sum {
            proof {
                lemma_utf8_prefix(cs@, i + 1);
            }
            return true;
        }
        sum = sum + w;
        i = i + 1;
    }
    proof {
        assert(cs@.take(i as int) =~= cs@);
    }
    false
}

fn string_field(s: &String) -> (r: String)
    ensures
        r@ == string_field_text(s@),
        no_newline(r@),
{
    proof {
        reveal_strlit("\"");
        reveal_strlit("…\"");
        lemma_escaped_no_newline(first_chars(s@, 120));
        lemma_escaped_no_newline(s@);
        lemma_concat_no_newline("\""@, escaped(first_chars(s@, 120)));
        lemma_concat_no_newline("\""@ + escaped(first_chars(s@, 120)), "…\""@);
        lemma_concat_no_newline("\""@, escaped(s@));
        lemma_concat_no_newline("\""@ + escaped(s@), "\""@);
    }
    let mut cs = chars_of(s.as_str());
    assert(cs@ == s@);
    let mut out = String::from_str("\"");
    if longer_than(&cs, 120) {
        cs.truncate(120);
        assert(cs@ == first_chars(s@, 120));
        out.append(escape_chars(cs.as_slice()).as_str());
        out.append("…\"");
    } else {
        out.append(escape_chars(cs.as_slice()).as_str());
        out.append("\"");
    }
    out
}

fn array_item(x: &JsonValue) -> (r: String)
    ensures
        r@ == array_item_text(*x),
        no_newline(r@),
{
    match x {
        JsonValue::String(s) => {
            proof {
                lemma_escaped_no_newline(s@);
            }
            escape_text(s.as_str())
        },
        _ => serialize_json(x),
    }
}

fn array_field(a: &Vec<JsonValue>) -> (r: String)
    ensures
        r@ == array_field_text(a@),
        no_newline(r@),
{
    let n = a.len();
    let shown: usize = if n > 20 {
        20
    } else {
        n
    };
    let ghost items = array_items(a@);
    let mut joined = String::new();
    let mut i: usize = 0;
    while i < shown
        invariant
            shown <= n,
            n == a@.len(),
            items == array_items(a@),
            i <= shown,
            joined@ == join_names(items.take(i as int)),
            forall|j: int| 0 <= j < i ==> no_newline(#[trigger] items[j]),
        decreases shown - i,
    {
        let t = array_item(&a[i]);
        assert(items[i as int] == t@);
        let ghost before = joined@;
        if i > 0 {
            joined.append(", ");
        }
        joined.append(t.as_str());
        proof {
            let next = items.take(i + 1);
            assert(next.drop_last() =~= items.take(i as int));
            assert(next.last() == t@);
            if i == 0 {
                assert(joined@ =~= next[0]);
            } else {
                assert(joined@ =~= before + ", "@ + t@);
            }
        }
        i = i + 1;
    }
    proof {
        let shown_items = items.take(shown as int);
        assert forall|j: int| 0 <= j < shown_items.len() implies no_newline(#[trigger] shown_items[j]) by {
            assert(shown_items[j] == items[j]);
        }
        lemma_join_names_no_newline(shown_items);
        reveal_strlit("[");
        reveal_strlit("]");
        reveal_strlit(" … ");
        reveal_strlit(" more]");
        lemma_digits_no_newline((n - 20) as nat, 10);
    }
    let mut out = String::from_str("[");
    out.append(joined.as_str());
    if n > 20 {
        let count = decimal((n - 20) as u64);
        proof {
            lemma_concat_no_newline("["@, joined@);
            lemma_concat_no_newline("["@ + joined@, " … "@);
            lemma_concat_no_newline("["@ + joined@ + " … "@, count@);
            lemma_concat_no_newline("["@ + joined@ + " … "@ + count@, " more]"@);
        }
        out.append(" … ");
        out.append(count.as_str());
        out.append(" more]");
    } else {
        proof {
            lemma_concat_no_newline("["@, joined@);
            lemma_concat_no_newline("["@ + joined@, "]"@);
        }
        out.append("]");
        proof {
            assert(items.take(n as int) =~= items);
        }
    }
    out
}

fn field_value(v: &JsonValue) -> (r: String)
    ensures
        r@ == field_value_text(*v),
        no_newline(r@),
{
    proof {
        reveal_strlit("null");
        reveal_strlit("true");
        reveal_strlit("false");
        reveal_strlit("{ ... }");
    }
    match v {
        JsonValue::Null => String::from_str("null"),
        JsonValue::Bool(b) => if *b {
            String::from_str("true")
        } else {
            String::from_str("false")
        },
        JsonValue::Number(_) => serialize_json(v),
        JsonValue::String(s) => string_field(s),
        JsonValue::Array(a) => array_field(a),
        JsonValue::Object(_) => String::from_str("{ ... }"),
    }
}

/// The parsed pane of a definition. For an object with members it has one
/// line per member, in order: the key (with a line break in it written as
/// `\n`, all else as it is), `: ` and the value's text.
pub fn format_parsed_fields(value: &JsonValue) -> (r: String)
    ensures
        r@ == parsed_fields_text(*value),
        (match *value {
            JsonValue::Object(m) => m@.len() > 0 ==> line_pieces(r@) == field_lines(m@),
            _ => true,
        }),
{
    match value {
        JsonValue::Object(m) => {
            let ghost lines = field_lines(m@);
            let mut out = String::new();
            let mut i: usize = 0;
            while i < m.len()
                invariant
                    i <= m@.len(),
                    lines == field_lines(m@),
                    out@ == join_lines(lines.take(i as int)),
                    forall|j: int| 0 <= j < i ==> no_newline(#[trigger] lines[j]),
                decreases m@.len() - i,
            {
                let ghost before = out@;
                if i > 0 {
                    out.append("\n");
                }
                let k = escape_text(m[i].0.as_str());
                out.append(k.as_str());
                out.append(": ");
                let t = field_value(&m[i].1);
                out.append(t.as_str());
                proof {
                    reveal_strlit(": ");
                    lemma_escaped_no_newline(m@[i as int].0@);
                    lemma_concat_no_newline(k@, ": "@);
                    lemma_concat_no_newline(k@ + ": "@, t@);
                    assert(lines[i as int] == k@ + ": "@ + t@);
                    let next = lines.take(i + 1);
                    assert(next.drop_last() =~= lines.take(i as int));
                    assert(next.last() == escaped(m@[i as int].0@) + ": "@ + t@);
                    if i == 0 {
                        assert(out@ =~= next[0]);
                    } else {
                        assert(out@ =~= before + "\n"@ + next.last());
                    }
                }
                i = i + 1;
            }
            proof {
                assert(lines.take(m@.len() as int) =~= lines);
                if m@.len() > 0 {
                    lemma_split_join(lines);
                }
            }
            out
        },
        _ => serialize_json(value),
    }
}

/// The entry of a definition: its id; the source text, indented, when the
/// data files have one; the parsed pane; and the consistency status against
/// the source, or `no source JSON`.
pub fn definition_entry(id: String, parsed: &JsonValue, raw: Option<&JsonValue>) -> (r: RegistryEntry)
    ensures
        r.id@ == id@,
        r.raw_json@ == match raw {
            Some(v) => json_pretty(*v),
            None => Seq::<char>::empty(),
        },
        r.parsed_fields@ == parsed_fields_text(*parsed),
        r.status@ == match raw {
            Some(v) => consistency_text(round_trips(*parsed), *parsed, *v),
            None => "no source JSON"@,
        },
{
    let raw_json = match raw {
        Some(v) => pretty_json(v),
        None => String::new(),
    };
    let parsed_fields = format_parsed_fields(parsed);
    let status = match raw {
        Some(v) => consistency_status(parsed, v),
        None => String::from_str("no source JSON"),
    };
    RegistryEntry { id, raw_json, parsed_fields, status }
}

/// The parsed pane of a map generator: the indented texts of its
/// definitions, one after another, in brackets.
pub open spec fn mapgen_fields_text(defs: Seq<Seq<char>>) -> Seq<char> {
    "[\n"@ + join_with(defs, ",\n"@) + "\n]"@
}

/// The entry of a map generator from the indented texts of its definitions.
pub fn mapgen_entry(id: String, defs: &Vec<String>, raw: Option<&JsonValue>) -> (r: RegistryEntry)
    ensures
        r.id@ == id@,
        r.raw_json@ == match raw {
            Some(v) => json_pretty(*v),
            None => Seq::<char>::empty(),
        },
        r.parsed_fields@ == mapgen_fields_text(defs@.map_values(|d: String| d@)),
        r.status@ == if raw is Some {
            "mapgen present"@
        } else {
            "no source JSON"@
        },
{
    let raw_json = match raw {
        Some(v) => pretty_json(v),
        None => String::new(),
    };
    let ghost texts = defs@.map_values(|d: String| d@);
    let mut joined = String::new();
    let mut i: usize = 0;
    while i < defs.len()
        invariant
            i <= defs@.len(),
            texts == defs@.map_values(|d: String| d@),
            joined@ == join_with(texts.take(i as int), ",\n"@),
        decreases defs@.len() - i,
    {
        let ghost before = joined@;
        if i > 0 {
            joined.append(",\n");
        }
        joined.append(defs[i].as_str());
        proof {
            let next = texts.take(i + 1);
            assert(next.drop_last() =~= texts.take(i as int));
            assert(next.last() == defs@[i as int]@);
            if i == 0 {
                assert(joined@ =~= next[0]);
            } else {
                assert(joined@ =~= before + ",\n"@ + next.last());
            }
        }
        i = i + 1;
    }
    proof {
        assert(texts.take(defs@.len() as int) =~= texts);
    }
    let mut parsed_fields = String::from_str("[\n");
    parsed_fields.append(joined.as_str());
    parsed_fields.append("\n]");
    let status = String::from_str(mapgen_status(raw.is_some()));
    RegistryEntry { id, raw_json, parsed_fields, status }
}

// ---------------------------------------------------------------------------
// The definition categories
// ---------------------------------------------------------------------------

/// The registry's definition fields, each with the name its category is
/// shown under, in the order the viewer lists them.
pub open spec fn category_table() -> Seq<(Seq<char>, Seq<char>)> {
    seq![
        ("items"@, "Items"@),
        ("monsters"@, "Monsters"@),
        ("terrain"@, "Terrain"@),
        ("furniture"@, "Furniture"@),
        ("recipes"@, "Recipes"@),
        ("item_groups"@, "Item Groups"@),
        ("mapgen"@, "Mapgen"@),
        ("nested_mapgen"@, "Nested Mapgen"@),
        ("palettes"@, "Palettes"@),
        ("overmap_terrains"@, "Overmap Terrains"@),
        ("overmap_specials"@, "Overmap Specials"@),
        ("overmap_connections"@, "Overmap Connections"@),
        ("overmap_locations"@, "Overmap Locations"@),
        ("overmap_land_use_codes"@, "Overmap Land Use Codes"@),
        ("fields"@, "Fields"@),
        ("vehicle_parts"@, "Vehicle Parts"@),
        ("vehicle_part_locations"@, "Vehicle Part Locations"@),
        ("vehicle_part_categories"@, "Vehicle Part Categories"@),
        ("mutations"@, "Mutations"@),
        ("mutation_categories"@, "Mutation Categories"@),
        ("trait_groups"@, "Trait Groups"@),
        ("bionics"@, "Bionics"@),
        ("effects"@, "Effects"@),
        ("factions"@, "Factions"@),
        ("scenarios"@, "Scenarios"@),
        ("materials"@, "Materials"@),
        ("skills"@, "Skills"@),
        ("traps"@, "Traps"@),
        ("start_locations"@, "Start Locations"@),
        ("json_flags"@, "JSON Flags"@),
        ("ascii_art"@, "ASCII Art"@),
        ("construction_groups"@, "Construction Groups"@),
        ("item_actions"@, "Item Actions"@),
        ("techniques"@, "Techniques"@),
        ("ammunition_types"@, "Ammunition Types"@),
        ("morale_types"@, "Morale Types"@),
        ("scent_types"@, "Scent Types"@),
        ("movement_modes"@, "Movement Modes"@),
        ("mood_faces"@, "Mood Faces"@),
        ("achievements"@, "Achievements"@),
        ("body_parts"@, "Body Parts"@),
        ("dreams"@, "Dreams"@),
        ("emits"@, "Emits"@),
        ("event_statistics"@, "Event Statistics"@),
        ("harvests"@, "Harvests"@),
        ("item_migrations"@, "Item Migrations"@),
        ("monster_groups"@, "Monster Groups"@),
        ("mutation_types"@, "Mutation Types"@),
        ("nested_categories"@, "Nested Categories"@),
        ("practices"@, "Practices"@),
        ("professions"@, "Professions"@),
        ("proficiencies"@, "Proficiencies"@),
        ("scores"@, "Scores"@),
        ("species"@, "Species"@),
        ("sub_body_parts"@, "Sub Body Parts"@),
        ("uncrafts"@, "Uncrafts"@),
        ("vitamins"@, "Vitamins"@),
        ("talk_topics"@, "Talk Topics"@),
        ("widgets"@, "Widgets"@),
        ("effects_on_condition"@, "Effects on Condition"@),
        ("constructions"@, "Constructions"@),
        ("snippets"@, "Snippets"@),
        ("npcs"@, "NPCs"@),
        ("npc_classes"@, "NPC Classes"@),
        ("requirements"@, "Requirements"@),
        ("spells"@, "Spells"@),
        ("vehicles"@, "Vehicles"@),
        ("city_buildings"@, "City Buildings"@),
        ("mission_definitions"@, "Mission Definitions"@),
        ("event_transformations"@, "Event Transformations"@),
        ("martial_arts"@, "Martial Arts"@),
        ("monster_attacks"@, "Monster Attacks"@),
        ("weakpoint_sets"@, "Weakpoint Sets"@),
        ("recipe_groups"@, "Recipe Groups"@),
        ("monster_flags"@, "Monster Flags"@),
        ("activity_types"@, "Activity Types"@),
        ("ammo_effects"@, "Ammo Effects"@),
        ("tool_qualities"@, "Tool Qualities"@),
        ("faults"@, "Faults"@),
        ("map_extras"@, "Map Extras"@),
        ("fault_fixes"@, "Fault Fixes"@),
        ("ter_furn_transforms"@, "Ter/Furn Transforms"@),
        ("connect_groups"@, "Connect Groups"@),
        ("attack_vectors"@, "Attack Vectors"@),
        ("region_terrain_furnitures"@, "Region Terrain Furnitures"@),
        ("item_categories"@, "Item Categories"@),
        ("oter_visions"@, "Oter Visions"@),
        ("profession_item_substitutions"@, "Profession Item Substitutions"@),
        ("character_mods"@, "Character Mods"@),
        ("weapon_categories"@, "Weapon Categories"@),
        ("rotatable_symbols"@, "Rotatable Symbols"@),
        ("oter_id_migrations"@, "Oter ID Migrations"@),
        ("climbing_aids"@, "Climbing Aids"@),
        ("conducts"@, "Conducts"@),
        ("weather_types"@, "Weather Types"@),
        ("proficiency_categories"@, "Proficiency Categories"@),
        ("faction_missions"@, "Faction Missions"@),
        ("fault_groups"@, "Fault Groups"@),
        ("jmath_functions"@, "JMath Functions"@),
        ("body_graphs"@, "Body Graphs"@),
        ("limb_scores"@, "Limb Scores"@),
        ("construction_categories"@, "Construction Categories"@),
        ("recipe_categories"@, "Recipe Categories"@),
        ("addiction_types"@, "Addiction Types"@),
        ("region_settings"@, "Region Settings"@),
        ("gates"@, "Gates"@),
        ("damage_types"@, "Damage Types"@),
        ("anatomies"@, "Anatomies"@),
        ("end_screens"@, "End Screens"@),
    ]
}

pub open spec fn table_views(v: Seq<(&str, &str)>) -> Seq<(Seq<char>, Seq<char>)> {
    v.map_values(|p: (&str, &str)| (p.0@, p.1@))
}

/// The definition fields and their category names, in listing order.
pub fn category_table_rows() -> (r: Vec<(&'static str, &'static str)>)
    ensures
        table_views(r@) == category_table(),
{
    let v: Vec<(&'static str, &'static str)> = vec![
        ("items", "Items"),
        ("monsters", "Monsters"),
        ("terrain", "Terrain"),
        ("furniture", "Furniture"),
        ("recipes", "Recipes"),
        ("item_groups", "Item Groups"),
        ("mapgen", "Mapgen"),
        ("nested_mapgen", "Nested Mapgen"),
        ("palettes", "Palettes"),
        ("overmap_terrains", "Overmap Terrains"),
        ("overmap_specials", "Overmap Specials"),
        ("overmap_connections", "Overmap Connections"),
        ("overmap_locations", "Overmap Locations"),
        ("overmap_land_use_codes", "Overmap Land Use Codes"),
        ("fields", "Fields"),
        ("vehicle_parts", "Vehicle Parts"),
        ("vehicle_part_locations", "Vehicle Part Locations"),
        ("vehicle_part_categories", "Vehicle Part Categories"),
        ("mutations", "Mutations"),
        ("mutation_categories", "Mutation Categories"),
        ("trait_groups", "Trait Groups"),
        ("bionics", "Bionics"),
        ("effects", "Effects"),
        ("factions", "Factions"),
        ("scenarios", "Scenarios"),
        ("materials", "Materials"),
        ("skills", "Skills"),
        ("traps", "Traps"),
        ("start_locations", "Start Locations"),
        ("json_flags", "JSON Flags"),
        ("ascii_art", "ASCII Art"),
        ("construction_groups", "Construction Groups"),
        ("item_actions", "Item Actions"),
        ("techniques", "Techniques"),
        ("ammunition_types", "Ammunition Types"),
        ("morale_types", "Morale Types"),
        ("scent_types", "Scent Types"),
        ("movement_modes", "Movement Modes"),
        ("mood_faces", "Mood Faces"),
        ("achievements", "Achievements"),
        ("body_parts", "Body Parts"),
        ("dreams", "Dreams"),
        ("emits", "Emits"),
        ("event_statistics", "Event Statistics"),
        ("harvests", "Harvests"),
        ("item_migrations", "Item Migrations"),
        ("monster_groups", "Monster Groups"),
        ("mutation_types", "Mutation Types"),
        ("nested_categories", "Nested Categories"),
        ("practices", "Practices"),
        ("professions", "Professions"),
        ("proficiencies", "Proficiencies"),
        ("scores", "Scores"),
        ("species", "Species"),
        ("sub_body_parts", "Sub Body Parts"),
        ("uncrafts", "Uncrafts"),
        ("vitamins", "Vitamins"),
        ("talk_topics", "Talk Topics"),
        ("widgets", "Widgets"),
        ("effects_on_condition", "Effects on Condition"),
        ("constructions", "Constructions"),
        ("snippets", "Snippets"),
        ("npcs", "NPCs"),
        ("npc_classes", "NPC Classes"),
        ("requirements", "Requirements"),
        ("spells", "Spells"),
        ("vehicles", "Vehicles"),
        ("city_buildings", "City Buildings"),
        ("mission_definitions", "Mission Definitions"),
        ("event_transformations", "Event Transformations"),
        ("martial_arts", "Martial Arts"),
        ("monster_attacks", "Monster Attacks"),
        ("weakpoint_sets", "Weakpoint Sets"),
        ("recipe_groups", "Recipe Groups"),
        ("monster_flags", "Monster Flags"),
        ("activity_types", "Activity Types"),
        ("ammo_effects", "Ammo Effects"),
        ("tool_qualities", "Tool Qualities"),
        ("faults", "Faults"),
        ("map_extras", "Map Extras"),
        ("fault_fixes", "Fault Fixes"),
        ("ter_furn_transforms", "Ter/Furn Transforms"),
        ("connect_groups", "Connect Groups"),
        ("attack_vectors", "Attack Vectors"),
        ("region_terrain_furnitures", "Region Terrain Furnitures"),
        ("item_categories", "Item Categories"),
        ("oter_visions", "Oter Visions"),
        ("profession_item_substitutions", "Profession Item Substitutions"),
        ("character_mods", "Character Mods"),
        ("weapon_categories", "Weapon Categories"),
        ("rotatable_symbols", "Rotatable Symbols"),
        ("oter_id_migrations", "Oter ID Migrations"),
        ("climbing_aids", "Climbing Aids"),
        ("conducts", "Conducts"),
        ("weather_types", "Weather Types"),
        ("proficiency_categories", "Proficiency Categories"),
        ("faction_missions", "Faction Missions"),
        ("fault_groups", "Fault Groups"),
        ("jmath_functions", "JMath Functions"),
        ("body_graphs", "Body Graphs"),
        ("limb_scores", "Limb Scores"),
        ("construction_categories", "Construction Categories"),
        ("recipe_categories", "Recipe Categories"),
        ("addiction_types", "Addiction Types"),
        ("region_settings", "Region Settings"),
        ("gates", "Gates"),
        ("damage_types", "Damage Types"),
        ("anatomies", "Anatomies"),
        ("end_screens", "End Screens"),
    ];
    assert(table_views(v@) =~= category_table()) by {
        assert forall|k: int| 0 <= k < v@.len() implies #[trigger] table_views(v@)[k] == category_table()[k] by {}
    }
    v
}

/// The field shown under the category name `name`: the first row of the
/// table with that name.
pub open spec fn field_of_display(t: Seq<(Seq<char>, Seq<char>)>, name: Seq<char>) -> Option<Seq<char>>
    decreases t.len(),
{
    if t.len() == 0 {
        None
    } else if t[0].1 == name {
        Some(t[0].0)
    } else {
        field_of_display(t.drop_first(), name)
    }
}

/// The field whose category is shown as `name`, if any.
pub fn category_field(name: &str) -> (r: Option<&'static str>)
    ensures
        match r {
            Some(f) => field_of_display(category_table(), name@) == Some(f@),
            None => field_of_display(category_table(), name@) is None,
        },
{
    let t = category_table_rows();
    let ghost tv = table_views(t@);
    let mut i: usize = 0;
    assert(tv.skip(0) =~= tv);
    while i < t.len()
        invariant
            i <= t@.len(),
            tv == table_views(t@),
            tv == category_table(),
            field_of_display(tv, name@) == field_of_display(tv.skip(i as int), name@),
        decreases t@.len() - i,
    {
        proof {
            assert(tv.skip(i as int)[0] == (t@[i as int].0@, t@[i as int].1@));
            assert(tv.skip(i as int).drop_first() =~= tv.skip(i + 1));
        }
        if str_eq(t[i].1, name) {
            return Some(t[i].0);
        }
        i = i + 1;
    }
    assert(tv.skip(i as int) =~= Seq::<(Seq<char>, Seq<char>)>::empty());
    None
}

/// The raw type key of a registry field given by its field name or by its
/// category's display name (`items` and `Items` both give `ITEM`); any
/// other name is its own key.
pub open spec fn raw_type_key_for_name(name: Seq<char>) -> Seq<char> {
    match field_of_display(category_table(), name) {
        Some(f) => raw_type_key(f),
        None => raw_type_key(name),
    }
}

/// The raw type key of a registry field, by field name or category name.
pub fn raw_type_key_for_field<'a>(field_name: &'a str) -> (r: &'a str)
    ensures
        r@ == raw_type_key_for_name(field_name@),
{
    match category_field(field_name) {
        Some(f) => raw_type_key_of_field(f),
        None => raw_type_key_of_field(field_name),
    }
}

fn push_escaped(out: &mut Vec<char>, c: char)
    ensures
        final(out)@ == old(out)@ + escape_char(c),
{
    if c == '\n' {
        out.push('\\');
        out.push('n');
    } else {
        out.push(c);
    }
    proof {
        reveal_strlit("\\n");
    }
    assert(final(out)@ =~= old(out)@ + escape_char(c));
}

fn escape_chars(cs: &[char]) -> (r: String)
    ensures
        r@ == escaped(cs@),
{
    let mut out: Vec<char> = Vec::new();
    let mut i: usize = 0;
    while i < cs.len()
        invariant
            i <= cs@.len(),
            out@ == escaped(cs@.take(i as int)),
        decreases cs@.len() - i,
    {
        push_escaped(&mut out, cs[i]);
        proof {
            assert(cs@.take(i + 1).drop_last() =~= cs@.take(i as int));
            assert(cs@.take(i + 1).last() == cs@[i as int]);
        }
        i = i + 1;
    }
    assert(cs@.take(cs@.len() as int) =~= cs@);
    string_of(out.as_slice())
}

fn escape_text(s: &str) -> (r: String)
    ensures
        r@ == escaped(s@),
{
    let cs = chars_of(s);
    escape_chars(cs.as_slice())
}

/// No two categories of the catalog share a name, and no two entries of one
/// category share an id.
pub open spec fn catalog_keys_distinct(c: RegistryCatalog) -> bool {
    &&& forall|i: int, j: int|
        0 <= i < c.categories@.len() && 0 <= j < c.categories@.len() && i != j
            ==> #[trigger] c.categories@[i].name@ != #[trigger] c.categories@[j].name@
    &&& forall|k: int, i: int, j: int|
        0 <= k < c.all_entries@.len() && 0 <= i < c.all_entries@[k]@.len() && 0 <= j
            < c.all_entries@[k]@.len() && i != j ==> #[trigger] c.all_entries@[k]@[i].id@
            != #[trigger] c.all_entries@[k]@[j].id@
}

proof fn lemma_find_category_at(cats: Seq<RegistryCategoryData>, n: Seq<char>, from: int, at: int)
    requires
        0 <= from <= at < cats.len(),
        cats[at].name@ == n,
        forall|j: int| from <= j < at ==> #[trigger] cats[j].name@ != n,
    ensures
        find_category(cats, n, from) == Some(at),
    decreases at - from,
{
    if from < at {
        lemma_find_category_at(cats, n, from + 1, at);
    }
}

proof fn lemma_find_entry_at(entries: Seq<RegistryEntry>, id: Seq<char>, from: int, at: int)
    requires
        0 <= from <= at < entries.len(),
        entries[at].id@ == id,
        forall|j: int| from <= j < at ==> #[trigger] entries[j].id@ != id,
    ensures
        find_entry(entries, id, from) == Some(at),
    decreases at - from,
{
    if from < at {
        lemma_find_entry_at(entries, id, from + 1, at);
    }
}

/// A refresh that finds the catalog as it was leaves the selection as it
/// was (when the selection points into the catalog, each category name and
/// each id within a category occurs once, and an empty catalog is selected
/// at its start).
pub proof fn lemma_refresh_unchanged_is_noop(c: RegistryCatalog, s: RegistryViewerState)
    requires
        selection_in_catalog(c, s),
        catalog_keys_distinct(c),
        c.all_entries@.len() == c.categories@.len(),
        c.category_count() == 0 ==> s.category_index == 0,
    ensures
        refreshed_selection(Some(c), s, c) == s,
{
    let ci = s.category_index as int;
    if c.categories@.len() > 0 {
        let n = c.categories@[ci].name@;
        assert forall|j: int| 0 <= j < ci implies #[trigger] c.categories@[j].name@ != n by {}
        lemma_find_category_at(c.categories@, n, 0, ci);
        let entries = entries_at(c, ci);
        if s.entry_index < entries.len() {
            let ei = s.entry_index as int;
            let id = entries[ei].id@;
            assert forall|j: int| 0 <= j < ei implies #[trigger] entries[j].id@ != id by {
                assert(entries[j] == c.all_entries@[ci]@[j]);
            }
            lemma_find_entry_at(entries, id, 0, ei);
        }
    }
}

/// The background of a list row.
#[derive(Clone, Copy, Debug, PartialEq, Eq, Structural)]
pub enum RowFill {
    /// The selected row.
    Focus,
    /// Even rows.
    Surface,
    /// Odd rows.
    Alternate,
}

/// The colour of a list row's text.
#[derive(Clone, Copy, Debug, PartialEq, Eq, Structural)]
pub enum RowInk {
    Accent,
    Text,
    Muted,
}

/// The look of row `i` of the category list (`is_category`) or the entry
/// list, when row `selected` is selected: the selected row on the focus
/// colour, others striped; the selected category in the accent colour, other
/// categories and the selected entry in the text colour, other entries muted.
pub open spec fn row_style(is_category: bool, i: int, selected: int) -> (RowFill, RowInk) {
    (if i == selected {
        RowFill::Focus
    } else if i % 2 == 0 {
        RowFill::Surface
    } else {
        RowFill::Alternate
    }, if is_category && i == selected {
        RowInk::Accent
    } else if is_category || i == selected {
        RowInk::Text
    } else {
        RowInk::Muted
    })
}

/// The look of a row of the viewer's lists.
pub fn registry_row_style(is_category: bool, i: usize, selected: usize) -> (r: (RowFill, RowInk))
    ensures
        r == row_style(is_category, i as int, selected as int),
{
    let fill = if i == selected {
        RowFill::Focus
    } else if i % 2 == 0 {
        RowFill::Surface
    } else {
        RowFill::Alternate
    };
    let ink = if is_category && i == selected {
        RowInk::Accent
    } else if is_category || i == selected {
        RowInk::Text
    } else {
        RowInk::Muted
    };
    (fill, ink)
}

/// Whether pane `pane` is drawn raised: it is the pane with keyboard focus
/// (the others are drawn flat and do not take scroll input).
pub fn pane_is_active(pane: usize, state: &RegistryViewerState) -> (r: bool)
    ensures
        r == (pane == state.pane),
{
    pane == state.pane
}

/// The row a list shows when it has no rows.
pub fn empty_list_text() -> (r: &'static str)
    ensures
        r@ == "No entries"@,
{
    "No entries"
}

// ---------------------------------------------------------------------------
// The token categories
// ---------------------------------------------------------------------------

/// The interned-token registries the viewer lists after the definition
/// categories: the category name and the kind of id, in listing order.
pub open spec fn token_table() -> Seq<(Seq<char>, Seq<char>)> {
    seq![
        ("Skills (Token)"@, "SkillId"@),
        ("Ammo Types (Token)"@, "AmmoTypeId"@),
        ("Body Parts (Token)"@, "BodyPartId"@),
        ("Comestibles (Token)"@, "ComestibleId"@),
        ("Qualities (Token)"@, "QualityId"@),
        ("Item Types (Token)"@, "ItemTypeId"@),
    ]
}

/// The texts of the entry of token `t` (name and number) of kind `kind`.
pub open spec fn token_view(kind: Seq<char>, t: (String, u32)) -> (Seq<char>, Seq<char>, Seq<char>, Seq<char>) {
    (t.0@, Seq::empty(), kind + "("@ + digits(t.1 as nat, 10) + ")"@, "derived (token)"@)
}

pub open spec fn token_views(kind: Seq<char>, ts: Seq<(String, u32)>) -> Seq<(Seq<char>, Seq<char>, Seq<char>, Seq<char>)> {
    ts.map_values(|t: (String, u32)| token_view(kind, t))
}

/// The category of one token registry: its entries (see [`token_entry`])
/// sorted by name, stable, and their count.
pub open spec fn token_category_ok(
    r: (RegistryCategoryData, Vec<RegistryEntry>),
    name: Seq<char>,
    kind: Seq<char>,
    ts: Seq<(String, u32)>,
) -> bool {
    category_ok(r, name, token_views(kind, ts))
}

/// A category named `name` whose entries are those with the texts `views`,
/// sorted by id (entries with one id in the order of `views`), and their
/// count.
pub open spec fn category_ok(
    r: (RegistryCategoryData, Vec<RegistryEntry>),
    name: Seq<char>,
    views: Seq<(Seq<char>, Seq<char>, Seq<char>, Seq<char>)>,
) -> bool {
    &&& r.0.name@ == name
    &&& r.0.count == r.1@.len()
    &&& ids_sorted(r.1@)
    &&& entry_views(r.1@).to_multiset() == views.to_multiset()
    &&& forall|id: Seq<char>| #[trigger] entry_views(r.1@).filter(has_id(id)) == views.filter(has_id(id))
}

/// The category of one token registry from its `(name, number)` tokens.
pub fn token_category(name: &str, kind: &str, tokens: &Vec<(String, u32)>) -> (r: (
    RegistryCategoryData,
    Vec<RegistryEntry>,
))
    ensures
        token_category_ok(r, name@, kind@, tokens@),
{
    let mut entries: Vec<RegistryEntry> = Vec::new();
    let mut i: usize = 0;
    while i < tokens.len()
        invariant
            i <= tokens@.len(),
            entry_views(entries@) == token_views(kind@, tokens@.take(i as int)),
        decreases tokens@.len() - i,
    {
        let e = token_entry(tokens[i].0.as_str(), kind, tokens[i].1);
        assert(e.raw_json@ =~= Seq::<char>::empty());
        assert(entry_view(e) == token_view(kind@, tokens@[i as int]));
        let ghost before = entries@;
        entries.push(e);
        proof {
            assert(entry_views(entries@) =~= entry_views(before).push(entry_view(e)));
            assert(tokens@.take(i + 1) =~= tokens@.take(i as int).push(tokens@[i as int]));
            assert(token_views(kind@, tokens@.take(i + 1)) =~= token_views(kind@, tokens@.take(i as int)).push(
                token_view(kind@, tokens@[i as int]),
            ));
            assert(entry_views(entries@) =~= token_views(kind@, tokens@.take(i + 1)));
        }
        i = i + 1;
    }
    assert(tokens@.take(tokens@.len() as int) =~= tokens@);
    registry_category(name, entries)
}

/// The tokens of the registry at position `i`: none when it is absent.
pub open spec fn tokens_at(regs: Seq<Option<Vec<(String, u32)>>>, i: int) -> Seq<(String, u32)> {
    match regs[i] {
        Some(v) => v@,
        None => Seq::empty(),
    }
}

/// The token categories, in the order of [`token_table`], from the token
/// registries in that order (an absent registry gives an empty category).
pub fn collect_token_categories(registries: &Vec<Option<Vec<(String, u32)>>>) -> (r: Vec<
    (RegistryCategoryData, Vec<RegistryEntry>),
>)
    requires
        registries@.len() == 6,
    ensures
        r@.len() == 6,
        forall|i: int|
            0 <= i < 6 ==> token_category_ok(
                #[trigger] r@[i],
                token_table()[i].0,
                token_table()[i].1,
                tokens_at(registries@, i),
            ),
{
    let names: Vec<(&str, &str)> = vec![
        ("Skills (Token)", "SkillId"),
        ("Ammo Types (Token)", "AmmoTypeId"),
        ("Body Parts (Token)", "BodyPartId"),
        ("Comestibles (Token)", "ComestibleId"),
        ("Qualities (Token)", "QualityId"),
        ("Item Types (Token)", "ItemTypeId"),
    ];
    assert(table_views(names@) =~= token_table());
    let empty: Vec<(String, u32)> = Vec::new();
    let mut out: Vec<(RegistryCategoryData, Vec<RegistryEntry>)> = Vec::new();
    let mut i: usize = 0;
    while i < 6
        invariant
            i <= 6,
            registries@.len() == 6,
            names@.len() == 6,
            table_views(names@) == token_table(),
            empty@.len() == 0,
            out@.len() == i,
            forall|j: int|
                0 <= j < i ==> token_category_ok(
                    #[trigger] out@[j],
                    token_table()[j].0,
                    token_table()[j].1,
                    tokens_at(registries@, j),
                ),
        decreases 6 - i,
    {
        assert(table_views(names@)[i as int] == (names@[i as int].0@, names@[i as int].1@));
        let cat = match &registries[i] {
            Some(v) => token_category(names[i].0, names[i].1, v),
            None => {
                assert(empty@ =~= tokens_at(registries@, i as int));
                token_category(names[i].0, names[i].1, &empty)
            },
        };
        out.push(cat);
        i = i + 1;
    }
    out
}

// ---------------------------------------------------------------------------
// The definition categories
// ---------------------------------------------------------------------------

/// A definition as the viewer reads it: its id, its serialized value, and
/// its source JSON when the data files hold one.
pub struct DefinitionSource {
    pub id: String,
    pub parsed: JsonValue,
    pub raw: Option<JsonValue>,
}

/// A map generator as the viewer reads it: its id, the indented texts of its
/// definitions, and its source JSON when the data files hold one.
pub struct MapgenSource {
    pub id: String,
    pub defs: Vec<String>,
    pub raw: Option<JsonValue>,
}

/// The texts of a definition's entry (see [`definition_entry`]).
pub open spec fn definition_view(d: DefinitionSource) -> (Seq<char>, Seq<char>, Seq<char>, Seq<char>) {
    (
        d.id@,
        match d.raw {
            Some(v) => json_pretty(v),
            None => Seq::<char>::empty(),
        },
        parsed_fields_text(d.parsed),
        match d.raw {
            Some(v) => consistency_text(round_trips(d.parsed), d.parsed, v),
            None => "no source JSON"@,
        },
    )
}

/// The texts of a map generator's entry (see [`mapgen_entry`]).
pub open spec fn mapgen_view(m: MapgenSource) -> (Seq<char>, Seq<char>, Seq<char>, Seq<char>) {
    (
        m.id@,
        match m.raw {
            Some(v) => json_pretty(v),
            None => Seq::<char>::empty(),
        },
        mapgen_fields_text(m.defs@.map_values(|d: String| d@)),
        if m.raw is Some {
            "mapgen present"@
        } else {
            "no source JSON"@
        },
    )
}

/// The definitions of field `f`: those of the first group named `f`, or
/// none.
pub open spec fn group_of(fields: Seq<(String, Vec<DefinitionSource>)>, f: Seq<char>) -> Seq<
    DefinitionSource,
>
    decreases fields.len(),
{
    if fields.len() == 0 {
        Seq::empty()
    } else if fields[0].0@ == f {
        fields[0].1@
    } else {
        group_of(fields.drop_first(), f)
    }
}

/// The entry texts of category row `row` of [`category_table`]: the map
/// generators for the `mapgen` field, else the definitions of the field.
pub open spec fn row_views(
    row: (Seq<char>, Seq<char>),
    fields: Seq<(String, Vec<DefinitionSource>)>,
    mapgen: Seq<MapgenSource>,
) -> Seq<(Seq<char>, Seq<char>, Seq<char>, Seq<char>)> {
    if row.0 == "mapgen"@ {
        mapgen.map_values(|m: MapgenSource| mapgen_view(m))
    } else {
        group_of(fields, row.0).map_values(|d: DefinitionSource| definition_view(d))
    }
}

fn group_index(fields: &Vec<(String, Vec<DefinitionSource>)>, f: &str) -> (r: Option<usize>)
    ensures
        match r {
            Some(i) => i < fields@.len() && group_of(fields@, f@) == fields@[i as int].1@,
            None => group_of(fields@, f@) == Seq::<DefinitionSource>::empty(),
        },
{
    let mut i: usize = 0;
    assert(fields@.skip(0) =~= fields@);
    while i < fields.len()
        invariant
            i <= fields@.len(),
            group_of(fields@, f@) == group_of(fields@.skip(i as int), f@),
        decreases fields@.len() - i,
    {
        proof {
            assert(fields@.skip(i as int)[0] == fields@[i as int]);
            assert(fields@.skip(i as int).drop_first() =~= fields@.skip(i + 1));
        }
        if str_eq(fields[i].0.as_str(), f) {
            return Some(i);
        }
        i = i + 1;
    }
    assert(fields@.skip(i as int) =~= Seq::<(String, Vec<DefinitionSource>)>::empty());
    None
}

fn definition_entries(defs: &Vec<DefinitionSource>) -> (r: Vec<RegistryEntry>)
    ensures
        entry_views(r@) == defs@.map_values(|d: DefinitionSource| definition_view(d)),
{
    let mut out: Vec<RegistryEntry> = Vec::new();
    let mut i: usize = 0;
    while i < defs.len()
        invariant
            i <= defs@.len(),
            entry_views(out@) == defs@.take(i as int).map_values(|d: DefinitionSource| definition_view(d)),
        decreases defs@.len() - i,
    {
        let d = &defs[i];
        let raw = match &d.raw {
            Some(v) => Some(v),
            None => None,
        };
        let e = definition_entry(d.id.clone(), &d.parsed, raw);
        assert(e.raw_json@ =~= definition_view(*d).1);
        assert(entry_view(e) == definition_view(*d));
        let ghost before = out@;
        out.push(e);
        proof {
            assert(entry_views(out@) =~= entry_views(before).push(entry_view(e)));
            assert(defs@.take(i + 1) =~= defs@.take(i as int).push(defs@[i as int]));
            assert(defs@.take(i + 1).map_values(|d: DefinitionSource| definition_view(d)) =~= defs@.take(
                i as int,
            ).map_values(|d: DefinitionSource| definition_view(d)).push(definition_view(defs@[i as int])));
        }
        i = i + 1;
    }
    assert(defs@.take(defs@.len() as int) =~= defs@);
    out
}

fn mapgen_entries(gens: &Vec<MapgenSource>) -> (r: Vec<RegistryEntry>)
    ensures
        entry_views(r@) == gens@.map_values(|m: MapgenSource| mapgen_view(m)),
{
    let mut out: Vec<RegistryEntry> = Vec::new();
    let mut i: usize = 0;
    while i < gens.len()
        invariant
            i <= gens@.len(),
            entry_views(out@) == gens@.take(i as int).map_values(|m: MapgenSource| mapgen_view(m)),
        decreases gens@.len() - i,
    {
        let m = &gens[i];
        let raw = match &m.raw {
            Some(v) => Some(v),
            None => None,
        };
        let e = mapgen_entry(m.id.clone(), &m.defs, raw);
        assert(e.raw_json@ =~= mapgen_view(*m).1);
        assert(entry_view(e) == mapgen_view(*m));
        let ghost before = out@;
        out.push(e);
        proof {
            assert(entry_views(out@) =~= entry_views(before).push(entry_view(e)));
            assert(gens@.take(i + 1) =~= gens@.take(i as int).push(gens@[i as int]));
            assert(gens@.take(i + 1).map_values(|m: MapgenSource| mapgen_view(m)) =~= gens@.take(
                i as int,
            ).map_values(|m: MapgenSource| mapgen_view(m)).push(mapgen_view(gens@[i as int])));
        }
        i = i + 1;
    }
    assert(gens@.take(gens@.len() as int) =~= gens@);
    out
}

/// The loaded definition registry, as the viewer reads it: the definitions
/// of each registry field by field name, and the map generators.
pub struct DefinitionRegistry {
    pub fields: Vec<(String, Vec<DefinitionSource>)>,
    pub mapgen: Vec<MapgenSource>,
}

/// The definition categories of the viewer: none while no definition
/// registry is loaded; otherwise one per row of [`category_table`] and in
/// its order, each named by its display name and holding the entries of its
/// field's definitions (the map generators for `mapgen`), sorted by id.
pub fn definition_categories(registry: Option<&DefinitionRegistry>) -> (r: Vec<(RegistryCategoryData, Vec<RegistryEntry>)>)
    ensures
        registry is None ==> r@.len() == 0,
        registry matches Some(reg) ==> {
            &&& r@.len() == category_table().len()
            &&& forall|i: int|
                0 <= i < r@.len() ==> category_ok(
                    #[trigger] r@[i],
                    category_table()[i].1,
                    row_views(category_table()[i], reg.fields@, reg.mapgen@),
                )
        },
{
    match registry {
        None => Vec::new(),
        Some(reg) => table_categories(&reg.fields, &reg.mapgen),
    }
}

/// One category per row of [`category_table`], from the registry's fields
/// and map generators.
fn table_categories(
    fields: &Vec<(String, Vec<DefinitionSource>)>,
    mapgen: &Vec<MapgenSource>,
) -> (r: Vec<(RegistryCategoryData, Vec<RegistryEntry>)>)
    ensures
        r@.len() == category_table().len(),
        forall|i: int|
            0 <= i < r@.len() ==> category_ok(
                #[trigger] r@[i],
                category_table()[i].1,
                row_views(category_table()[i], fields@, mapgen@),
            ),
{
    let rows = category_table_rows();
    let mut out: Vec<(RegistryCategoryData, Vec<RegistryEntry>)> = Vec::new();
    let mut i: usize = 0;
    while i < rows.len()
        invariant
            i <= rows@.len(),
            table_views(rows@) == category_table(),
            out@.len() == i,
            forall|j: int|
                0 <= j < i ==> category_ok(
                    #[trigger] out@[j],
                    category_table()[j].1,
                    row_views(category_table()[j], fields@, mapgen@),
                ),
        decreases rows@.len() - i,
    {
        let (field, display) = rows[i];
        assert(category_table()[i as int] == (field@, display@));
        proof {
            reveal_strlit("mapgen");
        }
        let entries = if str_eq(field, "mapgen") {
            mapgen_entries(mapgen)
        } else {
            match group_index(fields, field) {
                Some(g) => definition_entries(&fields[g].1),
                None => {
                    assert(group_of(fields@, field@).map_values(|d: DefinitionSource| definition_view(d))
                        =~= Seq::empty());
                    Vec::new()
                },
            }
        };
        assert(entry_views(entries@) == row_views(category_table()[i as int], fields@, mapgen@));
        let cat = registry_category(display, entries);
        assert(category_ok(cat, category_table()[i as int].1, row_views(category_table()[i as int], fields@, mapgen@)));
        let ghost before = out@;
        out.push(cat);
        assert forall|j: int| 0 <= j < i + 1 implies category_ok(
            #[trigger] out@[j],
            category_table()[j].1,
            row_views(category_table()[j], fields@, mapgen@),
        ) by {
            if j < i {
                assert(out@[j] == before[j]);
            }
        }
        i = i + 1;
    }
    out
}

} // verus!
