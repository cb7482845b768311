//! The debug spawn panel: the item catalog sorted by name and id, the
//! filtered rows, the selection that follows an item's id across rebuilds,
//! and the panel's fixed texts.
use vstd::prelude::*;
use crate::actions::GameAction;
use crate::crafting::{all_printable, is_control, ContextRequest, TextKey, TextKeyView};
use crate::json::str_eq;
use crate::order::{lemma_filter_insert, lemma_filter_prepend_class};
use crate::text::{
    chars_of, contains_seq, decimal, digits, lex_le, lemma_lex_order, lower_contains, lowercase,
    str_le, string_of, to_lowercase,
};

verus! {

// ---------------------------------------------------------------------------
// The catalog
// ---------------------------------------------------------------------------

/// An item definition the panel can spawn.
#[derive(Clone, Debug, PartialEq, Eq)]
pub struct DevCatalogEntry {
    /// The definition's entity, by its bits.
    pub def_entity: u64,
    pub name: String,
    pub def_id: String,
}

/// An entry as a value: entity, name and id.
pub type EntryView = (u64, Seq<char>, Seq<char>);

impl View for DevCatalogEntry {
    type V = EntryView;

    open spec fn view(&self) -> EntryView {
        (self.def_entity, self.name@, self.def_id@)
    }
}

pub open spec fn entry_views(s: Seq<DevCatalogEntry>) -> Seq<EntryView> {
    s.map_values(|e: DevCatalogEntry| e@)
}

/// The focused row and the filter of the panel.
#[derive(Debug)]
pub struct DevSpawnFocus {
    pub index: usize,
    pub filter: String,
    pub filtering: bool,
}

impl Default for DevSpawnFocus {
    /// First row, no filter.
    fn default() -> (f: DevSpawnFocus)
        ensures
            f.index == 0,
            f.filter@.len() == 0,
            !f.filtering,
    {
        DevSpawnFocus { index: 0, filter: String::new(), filtering: false }
    }
}

/// The item definitions, sorted by name and then id.
#[derive(Debug, Default, PartialEq, Eq)]
pub struct DevSpawnCatalog {
    pub entries: Vec<DevCatalogEntry>,
}

/// `a` sorts no later than `b`: by name, then by id.
pub open spec fn entry_le(a: EntryView, b: EntryView) -> bool {
    (lex_le(a.1, b.1) && a.1 != b.1) || (a.1 == b.1 && lex_le(a.2, b.2))
}

/// The entries are in order of name, then id.
pub open spec fn catalog_sorted(s: Seq<EntryView>) -> bool {
    forall|i: int, j: int| 0 <= i < j < s.len() ==> entry_le(#[trigger] s[i], #[trigger] s[j])
}

proof fn lemma_entry_order(a: EntryView, b: EntryView, c: EntryView)
    ensures
        entry_le(a, b) || entry_le(b, a),
        entry_le(a, b) && entry_le(b, c) ==> entry_le(a, c),
{
    lemma_lex_order(a.1, b.1, c.1);
    lemma_lex_order(a.2, b.2, c.2);
    lemma_lex_order(b.1, a.1, c.1);
    lemma_lex_order(a.1, c.1, b.1);
    lemma_lex_order(c.1, a.1, b.1);
    lemma_lex_order(b.1, c.1, a.1);
    lemma_lex_order(c.1, b.1, a.1);
}

fn entry_le_exec(a: &DevCatalogEntry, b: &DevCatalogEntry) -> (r: bool)
    ensures
        r == entry_le(a@, b@),
{
    if str_eq(a.name.as_str(), b.name.as_str()) {
        str_le(a.def_id.as_str(), b.def_id.as_str())
    } else {
        str_le(a.name.as_str(), b.name.as_str())
    }
}

proof fn lemma_insert_multiset(s: Seq<EntryView>, j: int, x: EntryView)
    requires
        0 <= j <= s.len(),
    ensures
        s.insert(j, x).to_multiset() =~= s.to_multiset().insert(x),
{
    broadcast use vstd::seq_lib::group_to_multiset_ensures;
    broadcast use vstd::multiset::group_multiset_axioms;

    let t = s.insert(j, x);
    assert(t.remove(j) =~= s);
    assert(t[j] == x);
    assert(t.to_multiset().count(x) > 0);
}

/// The entries that sort level with `e`: those with its name and id.
pub open spec fn same_sort_key(e: EntryView) -> spec_fn(EntryView) -> bool {
    |y: EntryView| y.1 == e.1 && y.2 == e.2
}

/// The entries sorted by name and then id (the order of `sort_by` on those
/// keys): the same entries, in order, and entries that sort level keep the
/// order they came in.
pub fn sort_catalog(items: Vec<DevCatalogEntry>) -> (r: Vec<DevCatalogEntry>)
    ensures
        catalog_sorted(entry_views(r@)),
        entry_views(r@).to_multiset() == entry_views(items@).to_multiset(),
        forall|e: EntryView|
            #[trigger] entry_views(r@).filter(same_sort_key(e)) == entry_views(items@).filter(
                same_sort_key(e),
            ),
{
    let ghost all = entry_views(items@);
    let ghost mut done: Seq<EntryView> = Seq::empty();
    let mut rest = items;
    let mut out: Vec<DevCatalogEntry> = Vec::new();
    proof {
        assert(all =~= entry_views(rest@) + done);
        assert forall|e: EntryView| #[trigger]
            entry_views(out@).filter(same_sort_key(e)) == done.filter(same_sort_key(e)) by {
            reveal(Seq::filter);
            assert(entry_views(out@) =~= done);
        }
        assert(entry_views(out@) =~= Seq::<EntryView>::empty());
        broadcast use vstd::seq_lib::group_to_multiset_ensures;
        broadcast use vstd::multiset::group_multiset_axioms;
        assert(entry_views(out@).to_multiset() =~= vstd::multiset::Multiset::empty());
    }
    while rest.len() > 0
        invariant
            catalog_sorted(entry_views(out@)),
            entry_views(out@).to_multiset().add(entry_views(rest@).to_multiset())
                == all.to_multiset(),
            all == entry_views(rest@) + done,
            forall|e: EntryView| #[trigger]
                entry_views(out@).filter(same_sort_key(e)) == done.filter(same_sort_key(e)),
        decreases rest@.len(),
    {
        let ghost before_rest = rest@;
        let ghost done_before = done;
        let x = rest.pop().unwrap();
        proof {
            assert(before_rest =~= rest@.push(x));
            assert(entry_views(before_rest) =~= entry_views(rest@).push(x@));
            broadcast use vstd::seq_lib::group_to_multiset_ensures;
            done = seq![x@] + done;
            assert(all =~= entry_views(rest@) + done);
            lemma_entry_order(x@, x@, x@);
        }
        let mut j: usize = 0;
        while j < out.len() && !entry_le_exec(&x, &out[j])
            invariant
                j <= out@.len(),
                forall|k: int| 0 <= k < j ==> !entry_le(x@, #[trigger] out@[k]@),
            decreases out@.len() - j,
        {
            j = j + 1;
        }
        let ghost old_out = entry_views(out@);
        proof {
            lemma_insert_multiset(old_out, j as int, x@);
        }
        out.insert(j, x);
        proof {
            assert(entry_views(out@) =~= old_out.insert(j as int, x@));
            let now = entry_views(out@);
            assert forall|a: int, b: int| 0 <= a < b < now.len() implies entry_le(
                #[trigger] now[a],
                #[trigger] now[b],
            ) by {
                if b < j {
                    assert(entry_le(old_out[a], old_out[b]));
                } else if b == j {
                    assert(!entry_le(x@, old_out[a]));
                    lemma_entry_order(x@, old_out[a], x@);
                } else if a < j {
                    assert(entry_le(old_out[a], old_out[b - 1]));
                } else if a == j {
                    assert(entry_le(x@, old_out[j as int]));
                    if j as int != b - 1 {
                        assert(entry_le(old_out[j as int], old_out[b - 1]));
                        lemma_entry_order(x@, old_out[j as int], old_out[b - 1]);
                    }
                } else {
                    assert(entry_le(old_out[a - 1], old_out[b - 1]));
                }
            }
            assert forall|e: EntryView| #[trigger]
                entry_views(out@).filter(same_sort_key(e)) == done.filter(same_sort_key(e)) by {
                let p = same_sort_key(e);
                assert forall|i: int| p(x@) && 0 <= i < j implies !p(#[trigger] old_out[i]) by {
                    assert(!entry_le(x@, out@[i]@));
                }
                lemma_filter_insert(old_out, j as int, x@, p);
                lemma_filter_prepend_class(done_before, x@, p);
            }
            broadcast use vstd::multiset::group_multiset_axioms;
            assert(entry_views(out@).to_multiset().add(entry_views(rest@).to_multiset())
                =~= all.to_multiset());
        }
    }
    proof {
        assert(entry_views(rest@) =~= Seq::<EntryView>::empty());
        assert(all =~= done);
        broadcast use vstd::seq_lib::group_to_multiset_ensures;
        broadcast use vstd::multiset::group_multiset_axioms;
        assert(entry_views(out@).to_multiset() =~= all.to_multiset());
    }
    out
}

fn same_entries(a: &Vec<DevCatalogEntry>, b: &Vec<DevCatalogEntry>) -> (r: bool)
    ensures
        r == (entry_views(a@) == entry_views(b@)),
{
    if a.len() != b.len() {
        assert(entry_views(a@).len() != entry_views(b@).len());
        return false;
    }
    let mut i: usize = 0;
    while i < a.len()
        invariant
            a@.len() == b@.len(),
            i <= a@.len(),
            forall|k: int| 0 <= k < i ==> a@[k]@ == b@[k]@,
        decreases a@.len() - i,
    {
        if !(a[i].def_entity == b[i].def_entity && str_eq(a[i].name.as_str(), b[i].name.as_str())
            && str_eq(a[i].def_id.as_str(), b[i].def_id.as_str())) {
            assert(entry_views(a@)[i as int] != entry_views(b@)[i as int]);
            return false;
        }
        i = i + 1;
    }
    assert(entry_views(a@) =~= entry_views(b@));
    true
}

// ---------------------------------------------------------------------------
// The filtered rows
// ---------------------------------------------------------------------------

/// An entry is listed under `filter`: the filter is empty, or its lowercase
/// occurs in the lowercase name or id.
pub open spec fn entry_listed(e: EntryView, filter: Seq<char>) -> bool {
    let q = lowercase(filter);
    q.len() == 0 || contains_seq(lowercase(e.1), q) || contains_seq(lowercase(e.2), q)
}

/// The positions (ascending) of the listed entries among the first `n`.
pub open spec fn listed_rows(entries: Seq<EntryView>, filter: Seq<char>, n: int) -> Seq<usize>
    decreases n,
{
    if n <= 0 {
        Seq::empty()
    } else if entry_listed(entries[n - 1], filter) {
        listed_rows(entries, filter, n - 1).push((n - 1) as usize)
    } else {
        listed_rows(entries, filter, n - 1)
    }
}

/// The positions of the entries the list shows under `filter`.
pub open spec fn spawn_membership(entries: Seq<EntryView>, filter: Seq<char>) -> Seq<usize> {
    listed_rows(entries, filter, entries.len() as int)
}

/// Every listed row points at an entry of the catalog.
pub proof fn lemma_listed_rows_bounds(entries: Seq<EntryView>, filter: Seq<char>, n: int)
    requires
        0 <= n <= entries.len(),
        n <= usize::MAX,
    ensures
        forall|k: int|
            0 <= k < listed_rows(entries, filter, n).len() ==> #[trigger] listed_rows(
                entries,
                filter,
                n,
            )[k] < n,
    decreases n,
{
    if n > 0 {
        lemma_listed_rows_bounds(entries, filter, n - 1);
        let prev = listed_rows(entries, filter, n - 1);
        let cur = listed_rows(entries, filter, n);
        assert forall|k: int| 0 <= k < cur.len() implies #[trigger] cur[k] < n by {
            if k < prev.len() {
                assert(cur[k] == prev[k]);
            }
        }
    }
}

/// The listed rows, cached for the catalog version and filter they were
/// built for.
#[derive(Debug)]
pub struct SpawnFilter {
    /// The catalog version and filter the rows were built for.
    pub key: Option<(u32, String)>,
    pub indices: Vec<usize>,
    pub rebuilds: u64,
}

impl Default for SpawnFilter {
    /// Never built: no key, no rows, no rebuilds.
    fn default() -> (f: SpawnFilter)
        ensures
            f.key() is None,
            f.indices@.len() == 0,
            f.rebuilds == 0,
    {
        SpawnFilter { key: None, indices: Vec::new(), rebuilds: 0 }
    }
}

impl SpawnFilter {
    /// The catalog version and filter the rows were last built for.
    pub open spec fn key(&self) -> Option<(u32, Seq<char>)> {
        match self.key {
            Some((v, f)) => Some((v, f@)),
            None => None,
        }
    }

    /// The rows were last built for this version and filter.
    pub open spec fn built_for(&self, version: u32, filter: Seq<char>) -> bool {
        self.key() == Some((version, filter))
    }

    /// The rows, if they were built for `version`, are those of `catalog`
    /// under the filter they were built for.
    pub open spec fn agrees_with(&self, catalog: Seq<EntryView>, version: u32) -> bool {
        match self.key() {
            Some((v, f)) => v == version ==> self.indices@ == spawn_membership(catalog, f),
            None => true,
        }
    }

    /// Forgets what the rows were built for, so that the next update
    /// rebuilds them.
    pub fn invalidate(&mut self)
        ensures
            final(self).key() is None,
            final(self).indices@ == old(self).indices@,
            final(self).rebuilds == old(self).rebuilds,
    {
        self.key = None;
    }

    /// Brings the rows up to date: unless they were built for this version
    /// and filter, they become the positions of the entries listed under the
    /// filter, and the rebuild count grows by one.
    pub fn update(&mut self, catalog: &DevSpawnCatalog, filter: &str, version: u32)
        requires
            old(self).rebuilds < u64::MAX,
        ensures
            final(self).built_for(version, filter@),
            old(self).built_for(version, filter@) ==> final(self).indices@ == old(self).indices@
                && final(self).rebuilds == old(self).rebuilds,
            !old(self).built_for(version, filter@) ==> final(self).indices@ == spawn_membership(
                entry_views(catalog.entries@),
                filter@,
            ) && final(self).rebuilds == old(self).rebuilds + 1,
    {
        let same = match &self.key {
            Some((v, f)) => *v == version && str_eq(f.as_str(), filter),
            None => false,
        };
        if same {
            return;
        }
        let ghost es = entry_views(catalog.entries@);
        let lower = to_lowercase(filter);
        let q = chars_of(lower.as_str());
        let mut out: Vec<usize> = Vec::new();
        let mut i: usize = 0;
        while i < catalog.entries.len()
            invariant
                i <= catalog.entries@.len(),
                es == entry_views(catalog.entries@),
                q@ == lowercase(filter@),
                out@ == listed_rows(es, filter@, i as int),
            decreases catalog.entries@.len() - i,
        {
            let e = &catalog.entries[i];
            assert(es[i as int] == e@);
            if q.len() == 0 || lower_contains(&e.name, q.as_slice()) || lower_contains(
                &e.def_id,
                q.as_slice(),
            ) {
                out.push(i);
            }
            i = i + 1;
        }
        self.indices = out;
        self.key = Some((version, String::from_str(filter)));
        self.rebuilds = self.rebuilds + 1;
    }
}

// ---------------------------------------------------------------------------
// Refreshing the catalog
// ---------------------------------------------------------------------------

/// The first position among the rows `rows` of an entry whose id is `id`.
pub open spec fn find_row_with_id(
    entries: Seq<EntryView>,
    rows: Seq<usize>,
    id: Seq<char>,
    from: int,
) -> Option<int>
    decreases rows.len() - from,
{
    if from < 0 || from >= rows.len() {
        None
    } else if rows[from] < entries.len() && entries[rows[from] as int].2 == id {
        Some(from)
    } else {
        find_row_with_id(entries, rows, id, from + 1)
    }
}

/// `index`, or the last position among `len` when it is past it.
pub open spec fn clamp_row(index: int, len: int) -> int {
    if len == 0 {
        0
    } else if index < len - 1 {
        index
    } else {
        len - 1
    }
}

/// The focused row after the catalog changes from `old` to `new` under
/// `filter`: the row of the item with the id that was focused, where it is
/// still listed; else the old row clamped to the new list.
pub open spec fn refocused_row(
    old: Seq<EntryView>,
    new: Seq<EntryView>,
    filter: Seq<char>,
    index: int,
) -> int {
    let old_rows = spawn_membership(old, filter);
    let new_rows = spawn_membership(new, filter);
    let found = if 0 <= index < old_rows.len() && old_rows[index] < old.len() {
        find_row_with_id(new, new_rows, old[old_rows[index] as int].2, 0)
    } else {
        None
    };
    match found {
        Some(p) => p,
        None => clamp_row(index, new_rows.len() as int),
    }
}

fn find_row(entries: &Vec<DevCatalogEntry>, rows: &Vec<usize>, id: &String) -> (r: Option<usize>)
    ensures
        match r {
            Some(p) => find_row_with_id(entry_views(entries@), rows@, id@, 0) == Some(p as int),
            None => find_row_with_id(entry_views(entries@), rows@, id@, 0) is None,
        },
{
    let ghost es = entry_views(entries@);
    let mut p: usize = 0;
    while p < rows.len()
        invariant
            p <= rows@.len(),
            es == entry_views(entries@),
            find_row_with_id(es, rows@, id@, 0) == find_row_with_id(es, rows@, id@, p as int),
        decreases rows@.len() - p,
    {
        let i = rows[p];
        if i < entries.len() && str_eq(entries[i].def_id.as_str(), id.as_str()) {
            return Some(p);
        }
        p = p + 1;
    }
    None
}

/// Replaces the catalog with `items` sorted by name and id, unless that is
/// what it already holds; the rows are rebuilt for the new catalog and the
/// focus follows the focused item's id (or keeps its row, clamped).
///
/// `version` is the catalog's change counter as the caller sees it: the
/// cached rows, when built for it, are those of the current catalog.
pub fn dev_spawn_populate(
    focus: &mut DevSpawnFocus,
    catalog: &mut DevSpawnCatalog,
    view: &mut SpawnFilter,
    version: u32,
    items: Vec<DevCatalogEntry>,
)
    requires
        old(view).agrees_with(entry_views(old(catalog).entries@), version),
        old(view).rebuilds < u64::MAX - 1,
    ensures
        catalog_sorted(entry_views(final(catalog).entries@)),
        entry_views(final(catalog).entries@).to_multiset() == entry_views(items@).to_multiset(),
        final(view).agrees_with(entry_views(final(catalog).entries@), version),
        final(focus).filter@ == old(focus).filter@,
        final(focus).filtering == old(focus).filtering,
        entry_views(final(catalog).entries@) == entry_views(old(catalog).entries@) ==> {
            &&& final(focus).index == old(focus).index
            &&& final(view).indices@ == old(view).indices@
            &&& final(view).rebuilds == old(view).rebuilds
        },
        entry_views(final(catalog).entries@) != entry_views(old(catalog).entries@) ==> {
            &&& final(view).built_for(version, old(focus).filter@)
            &&& final(view).indices@ == spawn_membership(
                entry_views(final(catalog).entries@),
                old(focus).filter@,
            )
            &&& final(focus).index == refocused_row(
                entry_views(old(catalog).entries@),
                entry_views(final(catalog).entries@),
                old(focus).filter@,
                old(focus).index as int,
            )
        },
{
    let entries = sort_catalog(items);
    if same_entries(&catalog.entries, &entries) {
        return;
    }
    let ghost old_views = entry_views(catalog.entries@);
    view.update(catalog, focus.filter.as_str(), version);
    assert(view.indices@ == spawn_membership(old_views, focus.filter@));
    let mut selected: Option<String> = None;
    if focus.index < view.indices.len() {
        let i = view.indices[focus.index];
        if i < catalog.entries.len() {
            selected = Some(catalog.entries[i].def_id.clone());
        }
    }
    catalog.entries = entries;
    view.invalidate();
    view.update(catalog, focus.filter.as_str(), version);
    let found = match &selected {
        Some(id) => find_row(&catalog.entries, &view.indices, id),
        None => None,
    };
    let len = view.indices.len();
    let index = match found {
        Some(p) => p,
        None => if len == 0 {
            0
        } else if focus.index < len - 1 {
            focus.index
        } else {
            len - 1
        },
    };
    focus.index = index;
}

// ---------------------------------------------------------------------------
// Fixed texts of the panel
// ---------------------------------------------------------------------------

/// The item count: `{shown} items`, or `{shown} / {all} items` under a
/// filter.
pub open spec fn count_text(shown: nat, all: nat, filter_empty: bool) -> Seq<char> {
    if filter_empty {
        digits(shown, 10) + " items"@
    } else {
        digits(shown, 10) + " / "@ + digits(all, 10) + " items"@
    }
}

/// The item count of the title bar.
pub fn spawn_count_text(shown: usize, all: usize, filter: &str) -> (r: String)
    ensures
        r@ == count_text(shown as nat, all as nat, filter@.len() == 0),
{
    let mut out = decimal(shown as u64);
    if filter.unicode_len() == 0 {
        out.append(" items");
    } else {
        out.append(" / ");
        out.append(decimal(all as u64).as_str());
        out.append(" items");
    }
    out
}

/// The filter bar: the filter with a cursor while it is typed, a hint when
/// there is none, else the filter and how to close or clear it.
pub open spec fn filter_bar_text(filter: Seq<char>, filtering: bool) -> Seq<char> {
    if filtering {
        "Filter: "@ + filter + "_"@
    } else if filter.len() == 0 {
        "[/] to filter"@
    } else {
        "Filter: "@ + filter + "  (Enter=close  Esc=clear)"@
    }
}

/// The text of the filter bar.
pub fn spawn_filter_text(focus: &DevSpawnFocus) -> (r: String)
    ensures
        r@ == filter_bar_text(focus.filter@, focus.filtering),
{
    if focus.filtering {
        let mut out = String::from_str("Filter: ");
        out.append(focus.filter.as_str());
        out.append("_");
        out
    } else if focus.filter.as_str().unicode_len() == 0 {
        String::from_str("[/] to filter")
    } else {
        let mut out = String::from_str("Filter: ");
        out.append(focus.filter.as_str());
        out.append("  (Enter=close  Esc=clear)");
        out
    }
}

/// What the list shows when no row is listed.
pub open spec fn empty_list_text(catalog_empty: bool) -> Seq<char> {
    if catalog_empty {
        "No item definitions"@
    } else {
        "No matches"@
    }
}

/// The placeholder row of an empty list.
pub fn spawn_empty_text(catalog: &DevSpawnCatalog) -> (r: &'static str)
    ensures
        r@ == empty_list_text(catalog.entries@.len() == 0),
{
    if catalog.entries.len() == 0 {
        "No item definitions"
    } else {
        "No matches"
    }
}

/// The first row from `from` on holding `id`, when some row there holds it.
proof fn lemma_find_row(entries: Seq<EntryView>, rows: Seq<usize>, id: Seq<char>, from: int, p: int)
    requires
        0 <= from <= p < rows.len(),
        rows[p] < entries.len(),
        entries[rows[p] as int].2 == id,
    ensures
        find_row_with_id(entries, rows, id, from) matches Some(q) && from <= q < rows.len()
            && rows[q] < entries.len() && entries[rows[q] as int].2 == id,
    decreases p - from,
{
    if !(rows[from] < entries.len() && entries[rows[from] as int].2 == id) {
        lemma_find_row(entries, rows, id, from + 1, p);
    }
}

/// When the catalog is rebuilt, the focus follows the focused item's id: if
/// some listed row of the new catalog holds that id, the focus lands on such
/// a row.
pub proof fn lemma_focus_follows_id(
    old: Seq<EntryView>,
    new: Seq<EntryView>,
    filter: Seq<char>,
    index: int,
    p: int,
)
    requires
        new.len() <= usize::MAX,
        0 <= index < spawn_membership(old, filter).len(),
        spawn_membership(old, filter)[index] < old.len(),
        0 <= p < spawn_membership(new, filter).len(),
        new[spawn_membership(new, filter)[p] as int].2 == old[spawn_membership(
            old,
            filter,
        )[index] as int].2,
    ensures
        ({
            let rows = spawn_membership(new, filter);
            let q = refocused_row(old, new, filter, index);
            &&& 0 <= q < rows.len()
            &&& new[rows[q] as int].2 == old[spawn_membership(old, filter)[index] as int].2
        }),
{
    let rows = spawn_membership(new, filter);
    lemma_listed_rows_bounds(new, filter, new.len() as int);
    let id = old[spawn_membership(old, filter)[index] as int].2;
    lemma_find_row(new, rows, id, 0, p);
}


// ---------------------------------------------------------------------------
// Keyboard handling
// ---------------------------------------------------------------------------

/// The panel as the keyboard changes it: the focused row, the filter, the
/// context requests made and the catalog positions asked to be spawned.
#[verifier::ext_equal]
pub struct SpawnMenuView {
    pub index: usize,
    pub filter: Seq<char>,
    pub filtering: bool,
    pub requests: Seq<ContextRequest>,
    pub spawns: Seq<usize>,
}

/// One key while typing the filter: printable text and Space extend it,
/// Backspace shortens it (each going back to the first row), Enter closes
/// the filter and Escape also clears it (each leaving the text context).
pub open spec fn spawn_text_key(m: SpawnMenuView, k: TextKeyView) -> SpawnMenuView {
    match k {
        TextKeyView::Character(ch) => if forall|i: int|
            0 <= i < ch.len() ==> !is_control(#[trigger] ch[i]) {
            SpawnMenuView { filter: m.filter + ch, index: 0, ..m }
        } else {
            m
        },
        TextKeyView::Space => SpawnMenuView { filter: m.filter.push(' '), index: 0, ..m },
        TextKeyView::Backspace => SpawnMenuView {
            filter: if m.filter.len() > 0 {
                m.filter.drop_last()
            } else {
                m.filter
            },
            index: 0,
            ..m
        },
        TextKeyView::Enter => SpawnMenuView {
            filtering: false,
            requests: m.requests.push(ContextRequest::Pop),
            ..m
        },
        TextKeyView::Escape => SpawnMenuView {
            filtering: false,
            filter: Seq::empty(),
            index: 0,
            requests: m.requests.push(ContextRequest::Pop),
            ..m
        },
        TextKeyView::Other => m,
    }
}

pub open spec fn spawn_text_keys(m: SpawnMenuView, keys: Seq<TextKeyView>) -> SpawnMenuView
    decreases keys.len(),
{
    if keys.len() == 0 {
        m
    } else {
        spawn_text_key(spawn_text_keys(m, keys.drop_last()), keys.last())
    }
}

/// A row brought within the `total` listed rows.
pub open spec fn clamp_to(i: int, total: int) -> usize {
    if total == 0 {
        0
    } else if i < total - 1 {
        i as usize
    } else {
        (total - 1) as usize
    }
}

/// One action on the panel (not typing the filter), with `rows` listed:
/// moves by one or ten, to either end, opens the filter, or asks to spawn
/// the focused item when there is a player to receive it.
pub open spec fn spawn_action(
    m: SpawnMenuView,
    a: GameAction,
    rows: Seq<usize>,
    has_player: bool,
) -> SpawnMenuView {
    let total = rows.len() as int;
    let i = m.index as int;
    match a {
        GameAction::NavigateUp | GameAction::NavigateLeft => SpawnMenuView {
            index: clamp_to(if i >= 1 { i - 1 } else { 0 }, total),
            ..m
        },
        GameAction::NavigateDown | GameAction::NavigateRight => SpawnMenuView {
            index: clamp_to(i + 1, total),
            ..m
        },
        GameAction::NavigatePageUp => SpawnMenuView {
            index: clamp_to(if i >= 10 { i - 10 } else { 0 }, total),
            ..m
        },
        GameAction::NavigatePageDown => SpawnMenuView { index: clamp_to(i + 10, total), ..m },
        GameAction::NavigateHome => SpawnMenuView { index: 0, ..m },
        GameAction::NavigateEnd => SpawnMenuView { index: clamp_to(total, total), ..m },
        GameAction::Filter => if !m.filtering {
            SpawnMenuView {
                filtering: true,
                requests: m.requests.push(ContextRequest::PushTextInput),
                ..m
            }
        } else {
            m
        },
        GameAction::Confirm => if has_player && i < total {
            SpawnMenuView { spawns: m.spawns.push(rows[i]), ..m }
        } else {
            m
        },
        _ => m,
    }
}

pub open spec fn spawn_actions(
    m: SpawnMenuView,
    actions: Seq<GameAction>,
    rows: Seq<usize>,
    has_player: bool,
) -> SpawnMenuView
    decreases actions.len(),
{
    if actions.len() == 0 {
        m
    } else {
        spawn_action(spawn_actions(m, actions.drop_last(), rows, has_player), actions.last(), rows, has_player)
    }
}

pub open spec fn spawn_menu_of(
    f: DevSpawnFocus,
    requests: Seq<ContextRequest>,
    spawns: Seq<usize>,
) -> SpawnMenuView {
    SpawnMenuView { index: f.index, filter: f.filter@, filtering: f.filtering, requests, spawns }
}

fn clamp_exec(i: usize, total: usize) -> (r: usize)
    ensures
        r == clamp_to(i as int, total as int),
{
    if total == 0 {
        0
    } else if i < total - 1 {
        i
    } else {
        total - 1
    }
}

/// The panel's keyboard handling for one frame. While the filter is typed,
/// the keys edit it and actions are ignored; otherwise the rows are brought
/// up to date for `version` and the actions move the focus, open the filter,
/// or ask (with a player present) to spawn the focused item, whose catalog
/// position is appended to `spawns`.
pub fn dev_spawn_input(
    actions: &[GameAction],
    keys: &[TextKey],
    focus: &mut DevSpawnFocus,
    catalog: &DevSpawnCatalog,
    view: &mut SpawnFilter,
    version: u32,
    has_player: bool,
    requests: &mut Vec<ContextRequest>,
    spawns: &mut Vec<usize>,
)
    requires
        old(view).rebuilds < u64::MAX,
        old(focus).index < usize::MAX,
    ensures
        old(focus).filtering ==> {
            &&& spawn_menu_of(*final(focus), final(requests)@, final(spawns)@) == spawn_text_keys(
                spawn_menu_of(*old(focus), old(requests)@, old(spawns)@),
                keys@.map_values(|k: TextKey| k@),
            )
            &&& *final(view) == *old(view)
        },
        !old(focus).filtering ==> {
            &&& final(view).built_for(version, old(focus).filter@)
            &&& old(view).built_for(version, old(focus).filter@) ==> final(view).indices@
                == old(view).indices@
            &&& !old(view).built_for(version, old(focus).filter@) ==> final(view).indices@
                == spawn_membership(entry_views(catalog.entries@), old(focus).filter@)
            &&& spawn_menu_of(*final(focus), final(requests)@, final(spawns)@) == spawn_actions(
                spawn_menu_of(*old(focus), old(requests)@, old(spawns)@),
                actions@,
                final(view).indices@,
                has_player,
            )
        },
{
    let ghost m0 = spawn_menu_of(*focus, requests@, spawns@);
    if focus.filtering {
        let ghost key_views = keys@.map_values(|k: TextKey| k@);
        let mut i: usize = 0;
        while i < keys.len()
            invariant
                i <= keys@.len(),
                key_views == keys@.map_values(|k: TextKey| k@),
                spawn_menu_of(*focus, requests@, spawns@) == spawn_text_keys(m0, key_views.take(i as int)),
            decreases keys@.len() - i,
        {
            let ghost before = spawn_menu_of(*focus, requests@, spawns@);
            proof {
                assert(key_views.take(i + 1).drop_last() =~= key_views.take(i as int));
                assert(key_views.take(i + 1).last() == keys@[i as int]@);
            }
            match &keys[i] {
                TextKey::Character(ch) => {
                    if all_printable(ch) {
                        focus.filter.append(ch.as_str());
                        focus.index = 0;
                    }
                },
                TextKey::Space => {
                    focus.filter.append(" ");
                    proof {
                        reveal_strlit(" ");
                    }
                    focus.index = 0;
                },
                TextKey::Backspace => {
                    let mut cs = chars_of(focus.filter.as_str());
                    cs.pop();
                    focus.filter = string_of(cs.as_slice());
                    proof {
                        if before.filter.len() > 0 {
                            assert(cs@ =~= before.filter.drop_last());
                        }
                    }
                    focus.index = 0;
                },
                TextKey::Enter => {
                    focus.filtering = false;
                    requests.push(ContextRequest::Pop);
                },
                TextKey::Escape => {
                    focus.filtering = false;
                    focus.filter = String::new();
                    focus.index = 0;
                    requests.push(ContextRequest::Pop);
                },
                TextKey::Other => {},
            }
            proof {
                let after = spawn_menu_of(*focus, requests@, spawns@);
                assert(after =~= spawn_text_key(before, keys@[i as int]@));
            }
            i = i + 1;
        }
        assert(key_views.take(keys@.len() as int) =~= key_views);
        return;
    }
    view.update(catalog, focus.filter.as_str(), version);
    let total = view.indices.len();
    let ghost rows = view.indices@;
    let mut i: usize = 0;
    while i < actions.len()
        invariant
            i <= actions@.len(),
            rows == view.indices@,
            total == rows.len(),
            focus.index < usize::MAX,
            spawn_menu_of(*focus, requests@, spawns@) == spawn_actions(
                m0,
                actions@.take(i as int),
                rows,
                has_player,
            ),
        decreases actions@.len() - i,
    {
        let ghost before = spawn_menu_of(*focus, requests@, spawns@);
        proof {
            assert(actions@.take(i + 1).drop_last() =~= actions@.take(i as int));
        }
        let index = focus.index;
        match actions[i] {
            GameAction::NavigateUp | GameAction::NavigateLeft => {
                focus.index = clamp_exec(if index >= 1 { index - 1 } else { 0 }, total);
            },
            GameAction::NavigateDown | GameAction::NavigateRight => {
                focus.index = clamp_exec(index + 1, total);
            },
            GameAction::NavigatePageUp => {
                focus.index = clamp_exec(if index >= 10 { index - 10 } else { 0 }, total);
            },
            GameAction::NavigatePageDown => {
                focus.index = if total == 0 {
                    0
                } else if index < total - 1 && total - 1 - index > 10 {
                    index + 10
                } else {
                    total - 1
                };
            },
            GameAction::NavigateHome => {
                focus.index = 0;
            },
            GameAction::NavigateEnd => {
                focus.index = clamp_exec(total, total);
            },
            GameAction::Filter => {
                if !focus.filtering {
                    focus.filtering = true;
                    requests.push(ContextRequest::PushTextInput);
                }
            },
            GameAction::Confirm => {
                if has_player && index < total {
                    spawns.push(view.indices[index]);
                }
            },
            _ => {},
        }
        proof {
            let after = spawn_menu_of(*focus, requests@, spawns@);
            assert(after =~= spawn_action(before, actions@[i as int], rows, has_player));
        }
        i = i + 1;
    }
    assert(actions@.take(actions@.len() as int) =~= actions@);
}

/// The detail panel's text when no item is focused.
pub fn spawn_detail_placeholder(focused: bool) -> (r: Option<&'static str>)
    ensures
        !focused ==> (r matches Some(t) && t@ == "Select an item"@),
        focused ==> r is None,
{
    if focused {
        None
    } else {
        Some("Select an item")
    }
}

/// Where a spawned item goes: the player's first mounted pocket, or the
/// player itself when it has none (entity bits).
pub open spec fn spawn_target_of(player: u64, pockets: Option<Seq<u64>>) -> u64 {
    match pockets {
        Some(p) => if p.len() > 0 {
            p[0]
        } else {
            player
        },
        None => player,
    }
}

/// The container a spawned item is put into.
pub fn spawn_target(player: u64, pockets: Option<&Vec<u64>>) -> (r: u64)
    ensures
        r == spawn_target_of(
            player,
            match pockets {
                Some(p) => Some(p@),
                None => None,
            },
        ),
{
    match pockets {
        Some(p) => if p.len() > 0 {
            p[0]
        } else {
            player
        },
        None => player,
    }
}

} // verus!
