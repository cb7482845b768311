//! The crafting menu's read model and presenter: category display names,
//! which recipes the list shows, the membership cache, the counter line, and
//! the keyboard handling of the menu.
use vstd::prelude::*;
use crate::actions::GameAction;
use crate::text::{
    chars_of, contains, contains_seq, digits, is_prefix, lower_contains, lowercase, push_digits,
    starts_with, string_of, to_lowercase,
};

verus! {

// ---------------------------------------------------------------------------
// Display names
// ---------------------------------------------------------------------------

/// `s` without the prefix `p`, or all of `s` when it does not start with `p`.
pub open spec fn strip_or_keep(s: Seq<char>, p: Seq<char>) -> Seq<char> {
    if is_prefix(p, s) {
        s.skip(p.len() as int)
    } else {
        s
    }
}

fn strip_or_keep_exec(s: &[char], p: &[char]) -> (r: Vec<char>)
    ensures
        r@ == strip_or_keep(s@, p@),
{
    if starts_with(s, p) {
        let r = vstd::slice::slice_to_vec(vstd::slice::slice_subrange(s, p.len(), s.len()));
        assert(r@ =~= s@.skip(p@.len() as int));
        r
    } else {
        vstd::slice::slice_to_vec(s)
    }
}

/// A recipe category for display: without its `CC_` prefix.
pub open spec fn category_display(raw: Seq<char>) -> Seq<char> {
    strip_or_keep(raw, "CC_"@)
}

/// A subcategory for display: without its `CSC_` prefix and then without the
/// category's short name and `_` (`CC_FOOD`, `CSC_FOOD_BREAD` give `BREAD`).
pub open spec fn subcategory_display(raw_category: Seq<char>, raw_subcategory: Seq<char>) -> Seq<
    char,
> {
    let short = strip_or_keep(raw_category, "CC_"@);
    let without_csc = strip_or_keep(raw_subcategory, "CSC_"@);
    strip_or_keep(without_csc, short.push('_'))
}

/// Strips the `CC_` prefix from a category string for display.
pub fn display_category(raw: &str) -> (r: String)
    ensures
        r@ == category_display(raw@),
{
    let s = chars_of(raw);
    let p = chars_of("CC_");
    string_of(strip_or_keep_exec(s.as_slice(), p.as_slice()).as_slice())
}

/// The display name of a subcategory within its category.
pub fn display_subcategory(raw_category: &str, raw_subcategory: &str) -> (r: String)
    ensures
        r@ == subcategory_display(raw_category@, raw_subcategory@),
{
    let cat = chars_of(raw_category);
    let cc = chars_of("CC_");
    let mut short = strip_or_keep_exec(cat.as_slice(), cc.as_slice());
    let sub = chars_of(raw_subcategory);
    let csc = chars_of("CSC_");
    let without_csc = strip_or_keep_exec(sub.as_slice(), csc.as_slice());
    short.push('_');
    string_of(strip_or_keep_exec(without_csc.as_slice(), short.as_slice()).as_slice())
}

// ---------------------------------------------------------------------------
// The read model
// ---------------------------------------------------------------------------

/// One row of the recipe list.
#[derive(Clone, Debug)]
pub struct CraftEntry {
    /// The recipe definition's entity.
    pub recipe: u64,
    pub recipe_key: String,
    pub result_id: String,
    pub result_name: String,
    pub result_count: u32,
    pub craftable: bool,
    /// The first blocking reason when not craftable.
    pub reason: String,
    pub time_turns: u32,
    pub components_text: Vec<String>,
    pub qualities_text: Vec<String>,
}

/// What the list logic reads of a row.
pub struct EntryView {
    pub recipe: u64,
    pub recipe_key: Seq<char>,
    pub result_id: Seq<char>,
    pub result_name: Seq<char>,
    pub craftable: bool,
}

impl View for CraftEntry {
    type V = EntryView;

    open spec fn view(&self) -> EntryView {
        EntryView {
            recipe: self.recipe,
            recipe_key: self.recipe_key@,
            result_id: self.result_id@,
            result_name: self.result_name@,
            craftable: self.craftable,
        }
    }
}

/// The recipe rows, rebuilt from the world; selection and filter edits never
/// change it.
#[derive(Clone, Debug)]
pub struct CraftModel {
    pub entries: Vec<CraftEntry>,
}

/// The menu's own state.
#[derive(Clone, Debug)]
pub struct CraftState {
    /// Position in the shown list.
    pub focus: usize,
    /// All recipes (`true`) or only craftable ones.
    pub show_all: bool,
    /// The message shown after a craft attempt.
    pub last_message: Option<String>,
    /// Substring filter, matched case-insensitively on result names and ids.
    pub filter: String,
    /// Whether the filter is being typed.
    pub filtering: bool,
}

#[verifier::ext_equal]
pub struct CraftStateView {
    pub focus: usize,
    pub show_all: bool,
    pub last_message: Option<Seq<char>>,
    pub filter: Seq<char>,
    pub filtering: bool,
}

impl View for CraftState {
    type V = CraftStateView;

    open spec fn view(&self) -> CraftStateView {
        CraftStateView {
            focus: self.focus,
            show_all: self.show_all,
            last_message: match self.last_message {
                Some(m) => Some(m@),
                None => None,
            },
            filter: self.filter@,
            filtering: self.filtering,
        }
    }
}

impl CraftState {
    /// Focus on the first row, all recipes, no message, no filter.
    pub fn new() -> (s: CraftState)
        ensures
            s@.focus == 0,
            s@.show_all,
            s@.last_message is None,
            s@.filter == Seq::<char>::empty(),
            !s@.filtering,
    {
        CraftState {
            focus: 0,
            show_all: true,
            last_message: None,
            filter: String::new(),
            filtering: false,
        }
    }
}

/// The recipes grouped by display category and subcategory. The groups are in
/// key order with distinct keys, as a sorted map keeps them: every way of
/// making or changing an index (`default`, `build_craft_state`,
/// `crafting_menu_input`) ensures `index_well_formed` of it.
#[derive(Clone, Debug)]
pub struct CategoryIndex {
    /// The display names of the top categories, in order.
    pub top_categories: Vec<String>,
    /// `(category, subcategory)` to the recipes in that group.
    pub sub_recipes: Vec<((String, String), Vec<u64>)>,
    pub selected_top: usize,
    pub selected_sub: usize,
    /// Keyboard zone: 0 the recipe list, 1 the category tabs, 2 the
    /// subcategory tabs.
    pub focus_zone: usize,
}

impl Default for CategoryIndex {
    /// No categories and no groups, the first tab selected, the focus on the
    /// recipe list: a well-formed index.
    fn default() -> (c: CategoryIndex)
        ensures
            c@.top_categories.len() == 0,
            c@.groups.len() == 0,
            c.selected_top == 0,
            c.selected_sub == 0,
            c.focus_zone == 0,
            crate::craft_build::index_well_formed(c@),
    {
        let c = CategoryIndex {
            top_categories: Vec::new(),
            sub_recipes: Vec::new(),
            selected_top: 0,
            selected_sub: 0,
            focus_zone: 0,
        };
        assert(c@.top_categories =~= Seq::<Seq<char>>::empty());
        c
    }
}

/// A recipe group: its `(category, subcategory)` and its recipes.
pub type GroupView = ((Seq<char>, Seq<char>), Seq<u64>);

#[verifier::ext_equal]
pub struct CategoryView {
    pub top_categories: Seq<Seq<char>>,
    pub groups: Seq<GroupView>,
    pub selected_top: usize,
    pub selected_sub: usize,
    pub focus_zone: usize,
}

pub open spec fn group_view(g: ((String, String), Vec<u64>)) -> GroupView {
    ((g.0.0@, g.0.1@), g.1@)
}

impl View for CategoryIndex {
    type V = CategoryView;

    open spec fn view(&self) -> CategoryView {
        CategoryView {
            top_categories: self.top_categories@.map_values(|s: String| s@),
            groups: self.sub_recipes@.map_values(|g: ((String, String), Vec<u64>)| group_view(g)),
            selected_top: self.selected_top,
            selected_sub: self.selected_sub,
            focus_zone: self.focus_zone,
        }
    }
}

/// The groups of category `top`, in order.
pub open spec fn groups_of(groups: Seq<GroupView>, top: Seq<char>) -> Seq<GroupView>
    decreases groups.len(),
{
    if groups.len() == 0 {
        Seq::empty()
    } else if groups.last().0.0 == top {
        groups_of(groups.drop_last(), top).push(groups.last())
    } else {
        groups_of(groups.drop_last(), top)
    }
}

/// The recipes of the selected group: the selected subcategory of the
/// selected category (the last one when the selection is past the end);
/// none without a selected category or subcategory.
pub open spec fn selected_recipes(c: CategoryView) -> Option<Seq<u64>> {
    if c.selected_top < c.top_categories.len() {
        let subs = groups_of(c.groups, c.top_categories[c.selected_top as int]);
        if subs.len() > 0 {
            let k = if c.selected_sub < subs.len() {
                c.selected_sub as int
            } else {
                subs.len() - 1
            };
            Some(subs[k].1)
        } else {
            None
        }
    } else {
        None
    }
}

/// Whether a row is shown: its recipe is in the selected group, it is
/// craftable or all recipes are shown, and the lowercased filter is empty or
/// occurs in its lowercased result name or id.
pub open spec fn row_shown(e: EntryView, recipes: Seq<u64>, show_all: bool, filter: Seq<char>) -> bool {
    let f = lowercase(filter);
    &&& recipes.contains(e.recipe)
    &&& (show_all || e.craftable)
    &&& (f.len() == 0 || contains_seq(lowercase(e.result_name), f) || contains_seq(
        lowercase(e.result_id),
        f,
    ))
}

/// The indices (ascending) of the shown rows among the first `n`.
pub open spec fn shown_rows(
    entries: Seq<EntryView>,
    recipes: Seq<u64>,
    show_all: bool,
    filter: Seq<char>,
    n: int,
) -> Seq<usize>
    decreases n,
{
    if n <= 0 {
        Seq::empty()
    } else if row_shown(entries[n - 1], recipes, show_all, filter) {
        shown_rows(entries, recipes, show_all, filter, n - 1).push((n - 1) as usize)
    } else {
        shown_rows(entries, recipes, show_all, filter, n - 1)
    }
}

proof fn lemma_shown_rows_contains(
    entries: Seq<EntryView>,
    recipes: Seq<u64>,
    show_all: bool,
    filter: Seq<char>,
    n: int,
    i: int,
)
    requires
        n <= entries.len(),
        entries.len() <= usize::MAX,
        0 <= i < entries.len(),
    ensures
        shown_rows(entries, recipes, show_all, filter, n).contains(i as usize) <==> (i < n
            && row_shown(entries[i], recipes, show_all, filter)),
    decreases n,
{
    if n > 0 {
        lemma_shown_rows_contains(entries, recipes, show_all, filter, n - 1, i);
        let prev = shown_rows(entries, recipes, show_all, filter, n - 1);
        if row_shown(entries[n - 1], recipes, show_all, filter) {
            assert(prev.push((n - 1) as usize).contains(i as usize) <==> (prev.contains(i as usize)
                || (n - 1) as usize == i as usize)) by {
                if prev.push((n - 1) as usize).contains(i as usize) {
                    let k = choose|k: int| 0 <= k < prev.len() + 1 && #[trigger] prev.push((n - 1) as usize)[k] == i as usize;
                    if k < prev.len() {
                        assert(prev[k] == i as usize);
                    }
                }
                if prev.contains(i as usize) {
                    let k = choose|k: int| 0 <= k < prev.len() && #[trigger] prev[k] == i as usize;
                    assert(prev.push((n - 1) as usize)[k] == i as usize);
                }
                if (n - 1) as usize == i as usize {
                    assert(prev.push((n - 1) as usize)[prev.len() as int] == i as usize);
                }
            }
        }
    }
}

/// Which rows the recipe list shows: row `i` of the model is listed exactly
/// when its recipe is in the selected group, it is craftable or all recipes
/// are shown, and the lowercased filter is empty or occurs in the
/// lowercased result name or in the lowercased result id.
pub proof fn lemma_listed_rows(
    entries: Seq<EntryView>,
    show_all: bool,
    filter: Seq<char>,
    c: CategoryView,
    i: int,
)
    requires
        entries.len() <= usize::MAX,
        0 <= i < entries.len(),
    ensures
        membership(entries, show_all, filter, c).contains(i as usize) <==> ({
            &&& selected_recipes(c) matches Some(recipes)
            &&& recipes.contains(entries[i].recipe)
            &&& (show_all || entries[i].craftable)
            &&& (lowercase(filter).len() == 0 || contains_seq(
                lowercase(entries[i].result_name),
                lowercase(filter),
            ) || contains_seq(lowercase(entries[i].result_id), lowercase(filter)))
        }),
{
    match selected_recipes(c) {
        Some(recipes) => {
            lemma_shown_rows_contains(entries, recipes, show_all, filter, entries.len() as int, i);
        },
        None => {},
    }
}

/// A row of the selected group that passes the craftable toggle is listed
/// whenever the lowercased filter occurs in its lowercased result name,
/// whatever its result id.
pub proof fn lemma_filter_finds_result_name(
    entries: Seq<EntryView>,
    show_all: bool,
    filter: Seq<char>,
    c: CategoryView,
    i: int,
)
    requires
        entries.len() <= usize::MAX,
        0 <= i < entries.len(),
        selected_recipes(c) matches Some(recipes) && recipes.contains(entries[i].recipe),
        show_all || entries[i].craftable,
        contains_seq(lowercase(entries[i].result_name), lowercase(filter)),
    ensures
        membership(entries, show_all, filter, c).contains(i as usize),
{
    lemma_listed_rows(entries, show_all, filter, c, i);
}

/// The rows the recipe list shows, in model order.
pub open spec fn membership(
    entries: Seq<EntryView>,
    show_all: bool,
    filter: Seq<char>,
    c: CategoryView,
) -> Seq<usize> {
    match selected_recipes(c) {
        Some(recipes) => shown_rows(entries, recipes, show_all, filter, entries.len() as int),
        None => Seq::empty(),
    }
}

pub open spec fn entry_views(entries: Seq<CraftEntry>) -> Seq<EntryView> {
    entries.map_values(|e: CraftEntry| e@)
}

fn contains_recipe(v: &Vec<u64>, r: u64) -> (b: bool)
    ensures
        b == v@.contains(r),
{
    let mut i: usize = 0;
    while i < v.len()
        invariant
            i <= v@.len(),
            forall|j: int| 0 <= j < i ==> v@[j] != r,
        decreases v@.len() - i,
    {
        if v[i] == r {
            assert(v@[i as int] == r);
            return true;
        }
        i = i + 1;
    }
    false
}

fn selected_group(categories: &CategoryIndex) -> (r: Option<&Vec<u64>>)
    ensures
        match r {
            Some(g) => selected_recipes(categories@) == Some(g@),
            None => selected_recipes(categories@) is None,
        },
{
    let ghost c = categories@;
    if categories.selected_top >= categories.top_categories.len() {
        return None;
    }
    let top = &categories.top_categories[categories.selected_top];
    let ghost topv = top@;
    assert(c.top_categories[categories.selected_top as int] == topv);
    // The positions of the groups of `top`.
    let mut positions: Vec<usize> = Vec::new();
    let mut i: usize = 0;
    while i < categories.sub_recipes.len()
        invariant
            i <= categories.sub_recipes@.len(),
            c == categories@,
            topv == top@,
            positions@.len() == groups_of(c.groups.take(i as int), topv).len(),
            forall|k: int|
                0 <= k < positions@.len() ==> #[trigger] positions@[k] < i && c.groups[positions@[k] as int]
                    == groups_of(c.groups.take(i as int), topv)[k],
        decreases categories.sub_recipes@.len() - i,
    {
        proof {
            assert(c.groups.take(i + 1).drop_last() =~= c.groups.take(i as int));
            assert(c.groups.take(i + 1).last() == c.groups[i as int]);
            assert(c.groups[i as int] == group_view(categories.sub_recipes@[i as int]));
        }
        let ghost before = groups_of(c.groups.take(i as int), topv);
        let ghost old_pos = positions@;
        let name = categories.sub_recipes[i].0.0.as_str();
        assert(name@ == c.groups[i as int].0.0);
        if crate::json::str_eq(name, top.as_str()) {
            positions.push(i);
            proof {
                assert(c.groups[i as int].0.0 == topv);
                assert(groups_of(c.groups.take(i + 1), topv) == before.push(c.groups[i as int]));
                assert forall|k: int| 0 <= k < positions@.len() implies #[trigger] positions@[k]
                    < i + 1 && c.groups[positions@[k] as int] == groups_of(
                    c.groups.take(i + 1),
                    topv,
                )[k] by {
                    if k < old_pos.len() {
                        assert(positions@[k] == old_pos[k]);
                    }
                }
            }
        } else {
            proof {
                assert(c.groups[i as int].0.0 != topv);
                assert(groups_of(c.groups.take(i + 1), topv) == before);
            }
        }
        i = i + 1;
    }
    assert(c.groups.take(categories.sub_recipes@.len() as int) =~= c.groups);
    if positions.len() == 0 {
        return None;
    }
    let k = if categories.selected_sub < positions.len() {
        categories.selected_sub
    } else {
        positions.len() - 1
    };
    let g = &categories.sub_recipes[positions[k]].1;
    assert(c.groups[positions@[k as int] as int] == group_view(
        categories.sub_recipes@[positions@[k as int] as int],
    ));
    Some(g)
}

/// The model rows the recipe list shows, in model order: the rows of the
/// selected group that pass the craftable toggle and the filter.
pub fn category_entry_indices(model: &CraftModel, state: &CraftState, categories: &CategoryIndex) -> (r:
    Vec<usize>)
    ensures
        r@ == membership(entry_views(model.entries@), state@.show_all, state@.filter, categories@),
{
    let ghost es = entry_views(model.entries@);
    let mut out: Vec<usize> = Vec::new();
    let recipes = match selected_group(categories) {
        Some(g) => g,
        None => return out,
    };
    let filter_lower = to_lowercase(state.filter.as_str());
    let f = chars_of(filter_lower.as_str());
    let mut i: usize = 0;
    while i < model.entries.len()
        invariant
            i <= model.entries@.len(),
            es == entry_views(model.entries@),
            f@ == lowercase(state.filter@),
            out@ == shown_rows(es, recipes@, state@.show_all, state@.filter, i as int),
        decreases model.entries@.len() - i,
    {
        let e = &model.entries[i];
        assert(es[i as int] == e@);
        let shown = contains_recipe(recipes, e.recipe) && (state.show_all || e.craftable) && (
        f.len() == 0 || lower_contains(&e.result_name, f.as_slice()) || lower_contains(
            &e.result_id,
            f.as_slice(),
        ));
        if shown {
            out.push(i);
        }
        i = i + 1;
    }
    out
}

// ---------------------------------------------------------------------------
// The membership cache
// ---------------------------------------------------------------------------

/// What the shown rows depend on: the model and category-index versions, the
/// selected group, the filter and the craftable toggle.
#[derive(Clone, Debug)]
pub struct FilterKey {
    pub model_version: u32,
    pub category_version: u32,
    pub selected_top: usize,
    pub selected_sub: usize,
    pub filter: String,
    pub show_all: bool,
}

/// The shown rows, rebuilt only when what they depend on changes; the
/// selection within the list never rebuilds them.
#[derive(Clone, Debug)]
pub struct RecipeFilter {
    pub key: Option<FilterKey>,
    pub indices: Vec<usize>,
    pub rebuilds: u64,
}

fn same_key(k: &FilterKey, versions: (u32, u32), state: &CraftState, categories: &CategoryIndex) -> (b: bool)
    ensures
        b == (k.model_version == versions.0 && k.category_version == versions.1 && k.selected_top
            == categories.selected_top && k.selected_sub == categories.selected_sub && k.filter@
            == state.filter@ && k.show_all == state.show_all),
{
    k.model_version == versions.0 && k.category_version == versions.1 && k.selected_top
        == categories.selected_top && k.selected_sub == categories.selected_sub
        && crate::json::str_eq(k.filter.as_str(), state.filter.as_str()) && k.show_all
        == state.show_all
}

impl RecipeFilter {
    /// No key, no rows, no rebuilds.
    pub fn new() -> (f: RecipeFilter)
        ensures
            f.key is None,
            f.indices@.len() == 0,
            f.rebuilds == 0,
    {
        RecipeFilter { key: None, indices: Vec::new(), rebuilds: 0 }
    }

    /// The rows were last built for these versions, selection, filter and
    /// toggle.
    pub open spec fn built_for(
        &self,
        versions: (u32, u32),
        state: CraftStateView,
        c: CategoryView,
    ) -> bool {
        self.key matches Some(k) && k.model_version == versions.0 && k.category_version
            == versions.1 && k.selected_top == c.selected_top && k.selected_sub == c.selected_sub
            && k.filter@ == state.filter && k.show_all == state.show_all
    }

    /// Brings the rows up to date; returns whether they were rebuilt. They
    /// are rebuilt exactly when the versions, the selected group, the filter
    /// or the toggle differ from those they were built for.
    pub fn update(
        &mut self,
        model: &CraftModel,
        state: &CraftState,
        categories: &CategoryIndex,
        versions: (u32, u32),
    ) -> (rebuilt: bool)
        requires
            old(self).rebuilds < u64::MAX,
        ensures
            rebuilt == !old(self).built_for(versions, state@, categories@),
            final(self).built_for(versions, state@, categories@),
            rebuilt ==> final(self).indices@ == membership(
                entry_views(model.entries@),
                state@.show_all,
                state@.filter,
                categories@,
            ) && final(self).rebuilds == old(self).rebuilds + 1,
            !rebuilt ==> final(self).indices@ == old(self).indices@ && final(self).rebuilds
                == old(self).rebuilds,
    {
        let unchanged = match &self.key {
            Some(k) => same_key(k, versions, state, categories),
            None => false,
        };
        if unchanged {
            return false;
        }
        self.indices = category_entry_indices(model, state, categories);
        self.key = Some(
            FilterKey {
                model_version: versions.0,
                category_version: versions.1,
                selected_top: categories.selected_top,
                selected_sub: categories.selected_sub,
                filter: state.filter.clone(),
                show_all: state.show_all,
            },
        );
        self.rebuilds = self.rebuilds + 1;
        true
    }
}

/// Moving the selection within the list never rebuilds the rows: a second
/// update with the same versions, group, filter and toggle changes nothing,
/// whatever the focus is.
pub proof fn lemma_selection_does_not_rebuild(
    f: RecipeFilter,
    versions: (u32, u32),
    s1: CraftStateView,
    s2: CraftStateView,
    c: CategoryView,
)
    requires
        f.built_for(versions, s1, c),
        s2.filter == s1.filter,
        s2.show_all == s1.show_all,
    ensures
        f.built_for(versions, s2, c),
{
}

// ---------------------------------------------------------------------------
// The counter line
// ---------------------------------------------------------------------------

/// The counter line above the list: `Recipe {n} of {total}  [ALL]` (or
/// `[CRAFTABLE]`), or `No recipes` / `No matching recipes` (with a filter)
/// when nothing is shown.
pub open spec fn counter_text(focus: usize, total: usize, show_all: bool, filter_empty: bool) -> Seq<
    char,
> {
    let mode = if show_all {
        "ALL"@
    } else {
        "CRAFTABLE"@
    };
    if total > 0 {
        let n = if focus + 1 < total {
            focus + 1
        } else {
            total as int
        };
        "Recipe "@ + digits(n as nat, 10) + " of "@ + digits(total as nat, 10) + "  ["@ + mode
            + "]"@
    } else {
        (if filter_empty {
            "No recipes"@
        } else {
            "No matching recipes"@
        }) + "  ["@ + mode + "]"@
    }
}

/// The counter line above the recipe list.
pub fn recipe_counter(focus: usize, total: usize, show_all: bool, filter_empty: bool) -> (r: String)
    ensures
        r@ == counter_text(focus, total, show_all, filter_empty),
{
    let mut out: String;
    if total > 0 {
        let n: usize = if focus < total - 1 {
            focus + 1
        } else {
            total
        };
        out = String::from_str("Recipe ");
        let mut a: Vec<char> = Vec::new();
        push_digits(&mut a, n as u64, 10);
        out.append(string_of(a.as_slice()).as_str());
        out.append(" of ");
        let mut b: Vec<char> = Vec::new();
        push_digits(&mut b, total as u64, 10);
        out.append(string_of(b.as_slice()).as_str());
    } else if filter_empty {
        out = String::from_str("No recipes");
    } else {
        out = String::from_str("No matching recipes");
    }
    out.append("  [");
    if show_all {
        out.append("ALL");
    } else {
        out.append("CRAFTABLE");
    }
    out.append("]");
    out
}

// ---------------------------------------------------------------------------
// Keyboard handling
// ---------------------------------------------------------------------------

/// A key press while the filter is being typed (releases and repeats are
/// not delivered).
#[derive(Clone, Debug)]
pub enum TextKey {
    /// A key that types text.
    Character(String),
    Space,
    Backspace,
    Enter,
    Escape,
    Other,
}

pub enum TextKeyView {
    Character(Seq<char>),
    Space,
    Backspace,
    Enter,
    Escape,
    Other,
}

impl View for TextKey {
    type V = TextKeyView;

    open spec fn view(&self) -> TextKeyView {
        match self {
            TextKey::Character(s) => TextKeyView::Character(s@),
            TextKey::Space => TextKeyView::Space,
            TextKey::Backspace => TextKeyView::Backspace,
            TextKey::Enter => TextKeyView::Enter,
            TextKey::Escape => TextKeyView::Escape,
            TextKey::Other => TextKeyView::Other,
        }
    }
}

/// What a screen asks of the input-context stack.
#[derive(Clone, Copy, Debug, PartialEq, Eq, Structural)]
pub enum ContextRequest {
    /// Enter text input (the filter).
    PushTextInput,
    /// Leave the innermost context.
    Pop,
}

/// A control character (general category Cc), as `char::is_control` says.
pub open spec fn is_control(c: char) -> bool {
    c <= '\u{1f}' || ('\u{7f}' <= c && c <= '\u{9f}')
}

/// The crafting menu as the keyboard changes it.
#[verifier::ext_equal]
pub struct MenuView {
    pub state: CraftStateView,
    pub cat: CategoryView,
    /// The recipe a confirm asked to craft.
    pub pending: Option<u64>,
    pub requests: Seq<ContextRequest>,
}

pub open spec fn with_focus(m: MenuView, focus: usize) -> MenuView {
    MenuView { state: CraftStateView { focus, ..m.state }, ..m }
}

/// One key while typing the filter.
pub open spec fn apply_text_key(m: MenuView, k: TextKeyView) -> MenuView {
    match k {
        TextKeyView::Character(ch) => if forall|i: int| 0 <= i < ch.len() ==> !is_control(#[trigger] ch[i]) {
            if ch == "/"@ && m.state.filter.len() == 0 {
                m
            } else {
                MenuView { state: CraftStateView { filter: m.state.filter + ch, focus: 0, ..m.state }, ..m }
            }
        } else {
            m
        },
        TextKeyView::Space => MenuView {
            state: CraftStateView { filter: m.state.filter.push(' '), focus: 0, ..m.state },
            ..m
        },
        TextKeyView::Backspace => MenuView {
            state: CraftStateView {
                filter: if m.state.filter.len() > 0 {
                    m.state.filter.drop_last()
                } else {
                    m.state.filter
                },
                focus: 0,
                ..m.state
            },
            ..m
        },
        TextKeyView::Enter => MenuView {
            state: CraftStateView { filtering: false, ..m.state },
            requests: m.requests.push(ContextRequest::Pop),
            ..m
        },
        TextKeyView::Escape => MenuView {
            state: CraftStateView { filtering: false, filter: Seq::empty(), focus: 0, ..m.state },
            requests: m.requests.push(ContextRequest::Pop),
            ..m
        },
        TextKeyView::Other => m,
    }
}

pub open spec fn apply_text_keys(m: MenuView, keys: Seq<TextKeyView>) -> MenuView
    decreases keys.len(),
{
    if keys.len() == 0 {
        m
    } else {
        apply_text_key(apply_text_keys(m, keys.drop_last()), keys.last())
    }
}

/// The display name of the selected category, or the empty name.
pub open spec fn selected_top_name(c: CategoryView) -> Seq<char> {
    if c.selected_top < c.top_categories.len() {
        c.top_categories[c.selected_top as int]
    } else {
        Seq::empty()
    }
}

/// The last index of the shown list (0 when it is empty).
pub open spec fn last_row(rows: Seq<usize>) -> usize {
    if rows.len() > 0 {
        (rows.len() - 1) as usize
    } else {
        0
    }
}

/// One action on the menu (not typing the filter).
pub open spec fn apply_craft_action(m: MenuView, a: GameAction, entries: Seq<EntryView>) -> MenuView {
    let rows = membership(entries, m.state.show_all, m.state.filter, m.cat);
    let max = last_row(rows);
    let zone = m.cat.focus_zone;
    let subs = groups_of(m.cat.groups, selected_top_name(m.cat));
    match a {
        GameAction::Filter => if !m.state.filtering {
            MenuView {
                state: CraftStateView { filtering: true, ..m.state },
                requests: m.requests.push(ContextRequest::PushTextInput),
                ..m
            }
        } else {
            m
        },
        GameAction::NavigateNextTab => with_focus(
            MenuView { cat: CategoryView { focus_zone: ((zone + 1) % 3) as usize, ..m.cat }, ..m },
            0,
        ),
        GameAction::NavigatePrevTab => with_focus(
            MenuView {
                cat: CategoryView {
                    focus_zone: if zone == 0 {
                        2
                    } else {
                        (zone - 1) as usize
                    },
                    ..m.cat
                },
                ..m
            },
            0,
        ),
        GameAction::NavigateLeft => if zone == 1 {
            let n = m.cat.top_categories.len();
            if n > 0 {
                with_focus(
                    MenuView {
                        cat: CategoryView {
                            selected_top: if m.cat.selected_top == 0 {
                                (n - 1) as usize
                            } else {
                                (m.cat.selected_top - 1) as usize
                            },
                            selected_sub: 0,
                            ..m.cat
                        },
                        ..m
                    },
                    0,
                )
            } else {
                m
            }
        } else if zone == 2 {
            if subs.len() > 0 && m.cat.selected_sub > 0 {
                with_focus(
                    MenuView {
                        cat: CategoryView {
                            selected_sub: (m.cat.selected_sub - 1) as usize,
                            ..m.cat
                        },
                        ..m
                    },
                    0,
                )
            } else {
                m
            }
        } else {
            m
        },
        GameAction::NavigateRight => if zone == 1 {
            let n = m.cat.top_categories.len();
            if n > 0 {
                with_focus(
                    MenuView {
                        cat: CategoryView {
                            selected_top: if m.cat.selected_top + 1 < n {
                                (m.cat.selected_top + 1) as usize
                            } else {
                                (n - 1) as usize
                            },
                            selected_sub: 0,
                            ..m.cat
                        },
                        ..m
                    },
                    0,
                )
            } else {
                m
            }
        } else if zone == 2 {
            if subs.len() > 0 && m.cat.selected_sub + 1 < subs.len() {
                with_focus(
                    MenuView {
                        cat: CategoryView {
                            selected_sub: (m.cat.selected_sub + 1) as usize,
                            ..m.cat
                        },
                        ..m
                    },
                    0,
                )
            } else {
                m
            }
        } else {
            m
        },
        GameAction::NavigateUp => if zone == 0 {
            with_focus(
                m,
                if m.state.focus > max {
                    max
                } else if m.state.focus > 0 {
                    (m.state.focus - 1) as usize
                } else {
                    0
                },
            )
        } else if zone == 1 {
            MenuView { cat: CategoryView { focus_zone: 2, ..m.cat }, ..m }
        } else {
            MenuView { cat: CategoryView { focus_zone: 1, ..m.cat }, ..m }
        },
        GameAction::NavigateDown => if zone == 0 {
            with_focus(
                m,
                if m.state.focus + 1 < max {
                    (m.state.focus + 1) as usize
                } else {
                    max
                },
            )
        } else if zone == 1 {
            MenuView { cat: CategoryView { focus_zone: 2, ..m.cat }, ..m }
        } else {
            MenuView { cat: CategoryView { focus_zone: 0, ..m.cat }, ..m }
        },
        GameAction::NavigateHome => with_focus(m, 0),
        GameAction::NavigateEnd => with_focus(m, max),
        GameAction::NavigatePageUp => {
            let f = if m.state.focus > 10 {
                (m.state.focus - 10) as usize
            } else {
                0
            };
            with_focus(
                m,
                if f > max {
                    max
                } else {
                    f
                },
            )
        },
        GameAction::NavigatePageDown => with_focus(
            m,
            if m.state.focus + 10 < max {
                (m.state.focus + 10) as usize
            } else {
                max
            },
        ),
        GameAction::Confirm => if rows.len() > 0 {
            let i = if m.state.focus < max {
                m.state.focus
            } else {
                max
            };
            let e = entries[rows[i as int] as int];
            if e.craftable {
                MenuView { pending: Some(e.recipe), ..m }
            } else {
                m
            }
        } else {
            m
        },
        GameAction::HotkeyPress(c) => if c == 'a' {
            let toggled = MenuView {
                state: CraftStateView { show_all: !m.state.show_all, ..m.state },
                ..m
            };
            let max2 = last_row(
                membership(entries, toggled.state.show_all, toggled.state.filter, toggled.cat),
            );
            if toggled.state.focus > max2 {
                with_focus(toggled, max2)
            } else {
                toggled
            }
        } else {
            m
        },
        GameAction::Cancel => MenuView {
            state: CraftStateView { last_message: None, ..m.state },
            ..m
        },
        _ => m,
    }
}

pub open spec fn apply_craft_actions(m: MenuView, actions: Seq<GameAction>, entries: Seq<EntryView>) -> MenuView
    decreases actions.len(),
{
    if actions.len() == 0 {
        m
    } else {
        apply_craft_action(apply_craft_actions(m, actions.drop_last(), entries), actions.last(), entries)
    }
}

/// The cache holds the right rows for whatever key it was built for, as long
/// as the versions still name the current model and category lists.
pub open spec fn cache_consistent(
    f: RecipeFilter,
    entries: Seq<EntryView>,
    c: CategoryView,
    versions: (u32, u32),
) -> bool {
    match f.key {
        Some(k) => k.model_version == versions.0 && k.category_version == versions.1
            ==> f.indices@ == membership(
            entries,
            k.show_all,
            k.filter@,
            CategoryView {
                top_categories: c.top_categories,
                groups: c.groups,
                selected_top: k.selected_top,
                selected_sub: k.selected_sub,
                focus_zone: 0,
            },
        ),
        None => true,
    }
}

pub open spec fn menu_of(state: CraftStateView, cat: CategoryView, pending: Option<u64>, requests: Seq<ContextRequest>) -> MenuView {
    MenuView { state, cat, pending, requests }
}

pub(crate) fn all_printable(s: &String) -> (b: bool)
    ensures
        b == forall|i: int| 0 <= i < s@.len() ==> !is_control(#[trigger] s@[i]),
{
    let cs = chars_of(s.as_str());
    let mut i: usize = 0;
    while i < cs.len()
        invariant
            cs@ == s@,
            i <= cs@.len(),
            forall|j: int| 0 <= j < i ==> !is_control(#[trigger] cs@[j]),
        decreases cs@.len() - i,
    {
        let c = cs[i];
        if c <= '\u{1f}' || ('\u{7f}' <= c && c <= '\u{9f}') {
            assert(is_control(s@[i as int]));
            return false;
        }
        i = i + 1;
    }
    true
}

/// Brings the rows up to date and returns how many are shown.
fn shown_count(
    view: &mut RecipeFilter,
    model: &CraftModel,
    state: &CraftState,
    categories: &CategoryIndex,
    versions: (u32, u32),
) -> (n: usize)
    requires
        cache_consistent(*old(view), entry_views(model.entries@), categories@, versions),
        old(view).rebuilds < u64::MAX,
    ensures
        cache_consistent(*final(view), entry_views(model.entries@), categories@, versions),
        final(view).indices@ == membership(
            entry_views(model.entries@),
            state@.show_all,
            state@.filter,
            categories@,
        ),
        n == final(view).indices@.len(),
        final(view).rebuilds <= old(view).rebuilds + 1,
        n <= model.entries@.len(),
{
    view.update(model, state, categories, versions);
    proof {
        let es = entry_views(model.entries@);
        lemma_membership_len(es, state@.show_all, state@.filter, categories@);
    }
    view.indices.len()
}

proof fn lemma_shown_rows_len(es: Seq<EntryView>, r: Seq<u64>, a: bool, f: Seq<char>, n: int)
    requires
        0 <= n,
    ensures
        shown_rows(es, r, a, f, n).len() <= n,
        forall|k: int| 0 <= k < shown_rows(es, r, a, f, n).len() ==> #[trigger] shown_rows(es, r, a, f, n)[k] < n,
    decreases n,
{
    if n > 0 {
        lemma_shown_rows_len(es, r, a, f, n - 1);
    }
}

proof fn lemma_membership_len(es: Seq<EntryView>, a: bool, f: Seq<char>, c: CategoryView)
    ensures
        membership(es, a, f, c).len() <= es.len(),
        forall|k: int| 0 <= k < membership(es, a, f, c).len() ==> #[trigger] membership(es, a, f, c)[k] < es.len(),
{
    if let Some(r) = selected_recipes(c) {
        lemma_shown_rows_len(es, r, a, f, es.len() as int);
    }
}

fn sub_count(categories: &CategoryIndex) -> (n: usize)
    ensures
        n == groups_of(categories@.groups, selected_top_name(categories@)).len(),
{
    let ghost c = categories@;
    let empty = String::new();
    let top: &String = if categories.selected_top < categories.top_categories.len() {
        &categories.top_categories[categories.selected_top]
    } else {
        &empty
    };
    assert(top@ == selected_top_name(c));
    let mut n: usize = 0;
    let mut i: usize = 0;
    while i < categories.sub_recipes.len()
        invariant
            i <= categories.sub_recipes@.len(),
            c == categories@,
            top@ == selected_top_name(c),
            n == groups_of(c.groups.take(i as int), selected_top_name(c)).len(),
            n <= i,
        decreases categories.sub_recipes@.len() - i,
    {
        proof {
            assert(c.groups.take(i + 1).drop_last() =~= c.groups.take(i as int));
            assert(c.groups.take(i + 1).last() == c.groups[i as int]);
            assert(c.groups[i as int] == group_view(categories.sub_recipes@[i as int]));
        }
        let name = categories.sub_recipes[i].0.0.as_str();
        if crate::json::str_eq(name, top.as_str()) {
            n = n + 1;
        }
        i = i + 1;
    }
    assert(c.groups.take(categories.sub_recipes@.len() as int) =~= c.groups);
    n
}

/// One action on the menu.
#[verifier::rlimit(60)]
#[verifier::spinoff_prover]
fn craft_action(
    a: GameAction,
    state: &mut CraftState,
    model: &CraftModel,
    view: &mut RecipeFilter,
    categories: &mut CategoryIndex,
    versions: (u32, u32),
    pending: &mut Option<u64>,
    requests: &mut Vec<ContextRequest>,
)
    requires
        cache_consistent(*old(view), entry_views(model.entries@), old(categories)@, versions),
        old(view).rebuilds < u64::MAX,
        old(state).focus + 10 <= usize::MAX,
        old(categories).focus_zone < usize::MAX,
        model.entries@.len() + 10 <= usize::MAX,
    ensures
        final(categories).focus_zone < usize::MAX,
        menu_of(final(state)@, final(categories)@, *final(pending), final(requests)@)
            == apply_craft_action(
            menu_of(old(state)@, old(categories)@, *old(pending), old(requests)@),
            a,
            entry_views(model.entries@),
        ),
        final(categories).top_categories@ == old(categories).top_categories@,
        final(categories).sub_recipes@ == old(categories).sub_recipes@,
        cache_consistent(*final(view), entry_views(model.entries@), final(categories)@, versions),
        final(view).rebuilds <= old(view).rebuilds + 1,
        final(state).focus <= old(state).focus || final(state).focus <= model.entries@.len(),
{
    let ghost es = entry_views(model.entries@);
    let ghost m0 = menu_of(state@, categories@, *pending, requests@);
    match a {
        GameAction::Filter => {
            if !state.filtering {
                state.filtering = true;
                requests.push(ContextRequest::PushTextInput);
            }
        },
        GameAction::NavigateNextTab => {
            categories.focus_zone = (categories.focus_zone + 1) % 3;
            state.focus = 0;
        },
        GameAction::NavigatePrevTab => {
            categories.focus_zone = if categories.focus_zone == 0 {
                2
            } else {
                categories.focus_zone - 1
            };
            state.focus = 0;
        },
        GameAction::NavigateLeft => {
            if categories.focus_zone == 1 {
                let n = categories.top_categories.len();
                if n > 0 {
                    categories.selected_top = if categories.selected_top == 0 {
                        n - 1
                    } else {
                        categories.selected_top - 1
                    };
                    categories.selected_sub = 0;
                    state.focus = 0;
                }
            } else if categories.focus_zone == 2 {
                let count = sub_count(categories);
                if count > 0 && categories.selected_sub > 0 {
                    categories.selected_sub = categories.selected_sub - 1;
                    state.focus = 0;
                }
            }
        },
        GameAction::NavigateRight => {
            if categories.focus_zone == 1 {
                let n = categories.top_categories.len();
                if n > 0 {
                    categories.selected_top = if categories.selected_top < n - 1 {
                        categories.selected_top + 1
                    } else {
                        n - 1
                    };
                    categories.selected_sub = 0;
                    state.focus = 0;
                }
            } else if categories.focus_zone == 2 {
                let count = sub_count(categories);
                if count > 0 && categories.selected_sub < count - 1 {
                    categories.selected_sub = categories.selected_sub + 1;
                    state.focus = 0;
                }
            }
        },
        GameAction::NavigateUp => {
            if categories.focus_zone == 0 {
                let len = shown_count(view, model, state, categories, versions);
                let max = if len > 0 {
                    len - 1
                } else {
                    0
                };
                state.focus = if state.focus > max {
                    max
                } else if state.focus > 0 {
                    state.focus - 1
                } else {
                    0
                };
            } else if categories.focus_zone == 1 {
                categories.focus_zone = 2;
            } else {
                categories.focus_zone = 1;
            }
        },
        GameAction::NavigateDown => {
            if categories.focus_zone == 0 {
                let len = shown_count(view, model, state, categories, versions);
                let max = if len > 0 {
                    len - 1
                } else {
                    0
                };
                state.focus = if state.focus + 1 < max {
                    state.focus + 1
                } else {
                    max
                };
            } else if categories.focus_zone == 1 {
                categories.focus_zone = 2;
            } else {
                categories.focus_zone = 0;
            }
        },
        GameAction::NavigateHome => {
            state.focus = 0;
        },
        GameAction::NavigateEnd => {
            let len = shown_count(view, model, state, categories, versions);
            state.focus = if len > 0 {
                len - 1
            } else {
                0
            };
        },
        GameAction::NavigatePageUp => {
            let len = shown_count(view, model, state, categories, versions);
            let max = if len > 0 {
                len - 1
            } else {
                0
            };
            let f = if state.focus > 10 {
                state.focus - 10
            } else {
                0
            };
            state.focus = if f > max {
                max
            } else {
                f
            };
        },
        GameAction::NavigatePageDown => {
            let len = shown_count(view, model, state, categories, versions);
            let max = if len > 0 {
                len - 1
            } else {
                0
            };
            state.focus = if state.focus + 10 < max {
                state.focus + 10
            } else {
                max
            };
        },
        GameAction::Confirm => {
            let len = shown_count(view, model, state, categories, versions);
            if len > 0 {
                let max = len - 1;
                let i = if state.focus < max {
                    state.focus
                } else {
                    max
                };
                proof {
                    lemma_membership_len(es, state@.show_all, state@.filter, categories@);
                }
                let e = &model.entries[view.indices[i]];
                assert(es[view.indices@[i as int] as int] == e@);
                if e.craftable {
                    *pending = Some(e.recipe);
                }
            }
        },
        GameAction::HotkeyPress(c) => {
            if c == 'a' {
                state.show_all = !state.show_all;
                let len = shown_count(view, model, state, categories, versions);
                let max = if len > 0 {
                    len - 1
                } else {
                    0
                };
                if state.focus > max {
                    state.focus = max;
                }
            }
        },
        GameAction::Cancel => {
            state.last_message = None;
        },
        _ => {},
    }
    proof {
        let m1 = menu_of(state@, categories@, *pending, requests@);
        assert(m1 =~= apply_craft_action(m0, a, es));
    }
}

/// One frame of the crafting menu's input. While the filter is being typed
/// the key presses edit it (actions are ignored): printable text is
/// appended (a leading `/` is not), space and backspace edit, Enter ends
/// typing and Escape ends it and clears the filter; otherwise each action
/// moves the focus, the keyboard zone or the category selection, toggles
/// all/craftable, or confirms the focused recipe, which is asked for only
/// when it is craftable.
pub fn crafting_menu_input(
    actions: &[GameAction],
    keys: &[TextKey],
    state: &mut CraftState,
    model: &CraftModel,
    view: &mut RecipeFilter,
    categories: &mut CategoryIndex,
    versions: (u32, u32),
    pending: &mut Option<u64>,
    requests: &mut Vec<ContextRequest>,
)
    requires
        cache_consistent(*old(view), entry_views(model.entries@), old(categories)@, versions),
        old(view).rebuilds + actions@.len() <= u64::MAX,
        old(state).focus + 10 <= usize::MAX,
        old(categories).focus_zone < usize::MAX,
        model.entries@.len() + 10 <= usize::MAX,
    ensures
        menu_of(final(state)@, final(categories)@, *final(pending), final(requests)@) == if old(
            state,
        ).filtering {
            apply_text_keys(
                menu_of(old(state)@, old(categories)@, *old(pending), old(requests)@),
                keys@.map_values(|k: TextKey| k@),
            )
        } else {
            apply_craft_actions(
                menu_of(old(state)@, old(categories)@, *old(pending), old(requests)@),
                actions@,
                entry_views(model.entries@),
            )
        },
        cache_consistent(*final(view), entry_views(model.entries@), final(categories)@, versions),
        final(categories)@.top_categories == old(categories)@.top_categories,
        final(categories)@.groups == old(categories)@.groups,
        crate::craft_build::index_well_formed(old(categories)@) ==> crate::craft_build::index_well_formed(
            final(categories)@,
        ),
{
    let ghost es = entry_views(model.entries@);
    let ghost m0 = menu_of(state@, categories@, *pending, requests@);
    let ghost key_views = keys@.map_values(|k: TextKey| k@);
    if state.filtering {
        let mut i: usize = 0;
        while i < keys.len()
            invariant
                i <= keys@.len(),
                key_views == keys@.map_values(|k: TextKey| k@),
                categories@ == m0.cat,
                categories.top_categories@ == old(categories).top_categories@,
                categories.sub_recipes@ == old(categories).sub_recipes@,
                *view == *old(view),
                menu_of(state@, categories@, *pending, requests@) == apply_text_keys(
                    m0,
                    key_views.take(i as int),
                ),
            decreases keys@.len() - i,
        {
            let ghost before = menu_of(state@, categories@, *pending, requests@);
            proof {
                assert(key_views.take(i + 1).drop_last() =~= key_views.take(i as int));
                assert(key_views.take(i + 1).last() == keys@[i as int]@);
            }
            match &keys[i] {
                TextKey::Character(ch) => {
                    if all_printable(ch) {
                        let slash = crate::json::str_eq(ch.as_str(), "/");
                        let filter_empty = state.filter.as_str().unicode_len() == 0;
                        if !(slash && filter_empty) {
                            state.filter.append(ch.as_str());
                            state.focus = 0;
                        }
                    }
                },
                TextKey::Space => {
                    state.filter.append(" ");
                    proof {
                        reveal_strlit(" ");
                    }
                    state.focus = 0;
                },
                TextKey::Backspace => {
                    let mut cs = chars_of(state.filter.as_str());
                    cs.pop();
                    state.filter = string_of(cs.as_slice());
                    proof {
                        if before.state.filter.len() > 0 {
                            assert(cs@ =~= before.state.filter.drop_last());
                        }
                    }
                    state.focus = 0;
                },
                TextKey::Enter => {
                    state.filtering = false;
                    requests.push(ContextRequest::Pop);
                },
                TextKey::Escape => {
                    state.filtering = false;
                    state.filter = String::new();
                    state.focus = 0;
                    requests.push(ContextRequest::Pop);
                },
                TextKey::Other => {},
            }
            proof {
                let after = menu_of(state@, categories@, *pending, requests@);
                assert(after =~= apply_text_key(before, keys@[i as int]@));
            }
            i = i + 1;
        }
        assert(key_views.take(keys@.len() as int) =~= key_views);
        return;
    }
    let mut i: usize = 0;
    while i < actions.len()
        invariant
            i <= actions@.len(),
            !m0.state.filtering,
            m0 == menu_of(old(state)@, old(categories)@, *old(pending), old(requests)@),
            es == entry_views(model.entries@),
            categories.top_categories@ == old(categories).top_categories@,
            categories.sub_recipes@ == old(categories).sub_recipes@,
            cache_consistent(*view, es, categories@, versions),
            view.rebuilds + (actions@.len() - i) <= u64::MAX,
            state.focus <= old(state).focus || state.focus <= model.entries@.len(),
            old(state).focus + 10 <= usize::MAX,
            categories.focus_zone < usize::MAX,
            model.entries@.len() + 10 <= usize::MAX,
            menu_of(state@, categories@, *pending, requests@) == apply_craft_actions(
                m0,
                actions@.take(i as int),
                es,
            ),
        decreases actions@.len() - i,
    {
        proof {
            assert(actions@.take(i + 1).drop_last() =~= actions@.take(i as int));
            assert(actions@.take(i + 1).last() == actions@[i as int]);
        }
        craft_action(actions[i], state, model, view, categories, versions, pending, requests);
        i = i + 1;
    }
    assert(actions@.take(actions@.len() as int) =~= actions@);
}

} // verus!
