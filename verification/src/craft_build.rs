//! Rebuilding the crafting menu's read model: grouping the recipes by
//! display category and subcategory (in key order, as a sorted map keeps
//! them), ordering the rows (craftable first, then by name), keeping the
//! selected category, subcategory and recipe across a rebuild, and the
//! message of the last craft.
use vstd::prelude::*;
use crate::crafting::{
    category_display, category_entry_indices, display_category, display_subcategory, entry_views,
    groups_of, membership, subcategory_display, CategoryIndex, CategoryView, CraftEntry,
    CraftModel, CraftState, EntryView, GroupView,
};
use crate::json::str_eq;
use crate::order::{lemma_filter_insert, lemma_filter_prepend_class, lemma_insert_to_multiset};
use crate::text::{lemma_lex_order, lex_le, str_le};

verus! {

// ---------------------------------------------------------------------------
// Order on group keys
// ---------------------------------------------------------------------------

/// `a` comes strictly before `b` in the order of `str::cmp`.
pub open spec fn lex_lt(a: Seq<char>, b: Seq<char>) -> bool {
    lex_le(a, b) && a != b
}

/// A `(category, subcategory)` key comes strictly before another, as a
/// sorted map orders its keys.
pub open spec fn key_lt(a: (Seq<char>, Seq<char>), b: (Seq<char>, Seq<char>)) -> bool {
    lex_lt(a.0, b.0) || (a.0 == b.0 && lex_lt(a.1, b.1))
}

proof fn lemma_key_order(a: (Seq<char>, Seq<char>), b: (Seq<char>, Seq<char>), c: (Seq<char>, Seq<char>))
    ensures
        key_lt(a, b) && key_lt(b, c) ==> key_lt(a, c),
        !key_lt(a, a),
        a != b ==> key_lt(a, b) || key_lt(b, a),
        key_lt(a, b) ==> !key_lt(b, a),
{
    lemma_lex_order(a.0, b.0, c.0);
    lemma_lex_order(a.1, b.1, c.1);
    lemma_lex_order(b.0, a.0, c.0);
    lemma_lex_order(b.1, a.1, c.1);
    lemma_lex_order(a.0, c.0, b.0);
    lemma_lex_order(a.1, c.1, b.1);
    lemma_lex_order(c.0, a.0, b.0);
    lemma_lex_order(c.1, a.1, b.1);
    lemma_lex_order(b.0, c.0, a.0);
    lemma_lex_order(c.0, b.0, a.0);
    lemma_lex_order(b.1, c.1, a.1);
    lemma_lex_order(c.1, b.1, a.1);
    if a != b && !key_lt(a, b) && !key_lt(b, a) {
        assert(a.0 == b.0 && a.1 == b.1);
    }
}

fn lex_lt_exec(a: &str, b: &str) -> (r: bool)
    ensures
        r == lex_lt(a@, b@),
{
    str_le(a, b) && !str_eq(a, b)
}

fn key_lt_exec(a: &(String, String), b: &(String, String)) -> (r: bool)
    ensures
        r == key_lt((a.0@, a.1@), (b.0@, b.1@)),
{
    lex_lt_exec(a.0.as_str(), b.0.as_str()) || (str_eq(a.0.as_str(), b.0.as_str()) && lex_lt_exec(
        a.1.as_str(),
        b.1.as_str(),
    ))
}

// ---------------------------------------------------------------------------
// Grouping the recipes
// ---------------------------------------------------------------------------

/// A recipe with a result, and the raw category and subcategory it names.
#[derive(Clone, Debug)]
pub struct RecipeSource {
    pub recipe: u64,
    pub raw_category: Option<String>,
    pub raw_subcategory: Option<String>,
}

/// The raw category of a recipe (`CC_MISC` when it names none).
pub open spec fn raw_category_of(r: RecipeSource) -> Seq<char> {
    match r.raw_category {
        Some(c) => c@,
        None => "CC_MISC"@,
    }
}

/// The raw subcategory of a recipe (`CSC_MISC_NONE` when it names none).
pub open spec fn raw_subcategory_of(r: RecipeSource) -> Seq<char> {
    match r.raw_subcategory {
        Some(s) => s@,
        None => "CSC_MISC_NONE"@,
    }
}

/// The group a recipe falls in: its display category and subcategory.
pub open spec fn group_key(r: RecipeSource) -> (Seq<char>, Seq<char>) {
    (
        category_display(raw_category_of(r)),
        subcategory_display(raw_category_of(r), raw_subcategory_of(r)),
    )
}

/// The recipes (in order) of those among `s` that fall in group `k`.
pub open spec fn recipes_in(s: Seq<RecipeSource>, k: (Seq<char>, Seq<char>)) -> Seq<u64>
    decreases s.len(),
{
    if s.len() == 0 {
        Seq::empty()
    } else if group_key(s.last()) == k {
        recipes_in(s.drop_last(), k).push(s.last().recipe)
    } else {
        recipes_in(s.drop_last(), k)
    }
}

/// The groups of the recipes `s`: one per key that some recipe falls in,
/// with its recipes in order, the keys strictly increasing.
pub open spec fn groups_of_recipes(groups: Seq<GroupView>, s: Seq<RecipeSource>) -> bool {
    &&& forall|i: int, j: int|
        0 <= i < j < groups.len() ==> key_lt((#[trigger] groups[i]).0, (#[trigger] groups[j]).0)
    &&& forall|i: int|
        0 <= i < groups.len() ==> (#[trigger] groups[i]).1 == recipes_in(s, groups[i].0)
            && groups[i].1.len() > 0
    &&& forall|r: int|
        0 <= r < s.len() ==> exists|i: int|
            0 <= i < groups.len() && (#[trigger] groups[i]).0 == group_key(#[trigger] s[r])
}

/// The invariant of a category index: group keys strictly increasing (so
/// distinct and in order, as a sorted map keeps them), and the top
/// categories strictly increasing and exactly the groups' categories (as a
/// sorted set keeps them).
pub open spec fn index_well_formed(c: CategoryView) -> bool {
    &&& forall|i: int, j: int|
        0 <= i < j < c.groups.len() ==> key_lt((#[trigger] c.groups[i]).0, (#[trigger] c.groups[j]).0)
    &&& categories_of_groups(c.top_categories, c.groups)
}

/// The categories of the groups, each once, in increasing order.
pub open spec fn categories_of_groups(tops: Seq<Seq<char>>, groups: Seq<GroupView>) -> bool {
    &&& forall|i: int, j: int| 0 <= i < j < tops.len() ==> lex_lt(#[trigger] tops[i], #[trigger] tops[j])
    &&& forall|c: Seq<char>|
        #[trigger] tops.contains(c) <==> exists|i: int| 0 <= i < groups.len() && (#[trigger] groups[i]).0.0 == c
}

pub open spec fn top_views(t: Seq<String>) -> Seq<Seq<char>> {
    t.map_values(|s: String| s@)
}

pub open spec fn group_views(g: Seq<((String, String), Vec<u64>)>) -> Seq<GroupView> {
    g.map_values(|x: ((String, String), Vec<u64>)| ((x.0.0@, x.0.1@), x.1@))
}

proof fn lemma_recipes_in_push(s: Seq<RecipeSource>, x: RecipeSource, k: (Seq<char>, Seq<char>))
    ensures
        recipes_in(s.push(x), k) == if group_key(x) == k {
            recipes_in(s, k).push(x.recipe)
        } else {
            recipes_in(s, k)
        },
{
    assert(s.push(x).drop_last() =~= s);
}

proof fn lemma_recipes_in_absent(s: Seq<RecipeSource>, k: (Seq<char>, Seq<char>))
    requires
        forall|r: int| 0 <= r < s.len() ==> group_key(#[trigger] s[r]) != k,
    ensures
        recipes_in(s, k) == Seq::<u64>::empty(),
    decreases s.len(),
{
    if s.len() > 0 {
        lemma_recipes_in_absent(s.drop_last(), k);
    }
}

fn group_key_exec(r: &RecipeSource) -> (k: (String, String))
    ensures
        (k.0@, k.1@) == group_key(*r),
{
    let raw_cat = match &r.raw_category {
        Some(c) => c.clone(),
        None => String::from_str("CC_MISC"),
    };
    let raw_sub = match &r.raw_subcategory {
        Some(s) => s.clone(),
        None => String::from_str("CSC_MISC_NONE"),
    };
    (display_category(raw_cat.as_str()), display_subcategory(raw_cat.as_str(), raw_sub.as_str()))
}

/// Groups the recipes by display category and subcategory: the groups in key
/// order with their recipes in the order given, and the categories in order.
pub fn group_recipes(recipes: &Vec<RecipeSource>) -> (r: (Vec<String>, Vec<((String, String), Vec<u64>)>))
    ensures
        groups_of_recipes(group_views(r.1@), recipes@),
        categories_of_groups(top_views(r.0@), group_views(r.1@)),
{
    let mut groups: Vec<((String, String), Vec<u64>)> = Vec::new();
    let mut i: usize = 0;
    while i < recipes.len()
        invariant
            i <= recipes@.len(),
            groups_of_recipes(group_views(groups@), recipes@.take(i as int)),
        decreases recipes@.len() - i,
    {
        let x = &recipes[i];
        let k = group_key_exec(x);
        let ghost kv = (k.0@, k.1@);
        let ghost before = group_views(groups@);
        let ghost prefix = recipes@.take(i as int);
        let ghost next = recipes@.take(i + 1);
        proof {
            assert(next =~= prefix.push(*x));
        }
        let mut j: usize = 0;
        while j < groups.len() && key_lt_exec(&groups[j].0, &k)
            invariant
                j <= groups@.len(),
                before == group_views(groups@),
                kv == (k.0@, k.1@),
                forall|q: int| 0 <= q < j ==> key_lt((#[trigger] before[q]).0, kv),
            decreases groups@.len() - j,
        {
            j = j + 1;
        }
        let found = j < groups.len() && str_eq(groups[j].0.0.as_str(), k.0.as_str()) && str_eq(
            groups[j].0.1.as_str(),
            k.1.as_str(),
        );
        if found {
            let mut g = groups.remove(j);
            g.1.push(x.recipe);
            groups.insert(j, g);
            proof {
                let now = group_views(groups@);
                assert(now =~= before.update(j as int, (kv, before[j as int].1.push(x.recipe))));
                assert forall|q: int| 0 <= q < now.len() implies (#[trigger] now[q]).1 == recipes_in(
                    next,
                    now[q].0,
                ) && now[q].1.len() > 0 by {
                    lemma_recipes_in_push(prefix, *x, now[q].0);
                    if q != j {
                        lemma_key_order(before[q].0, kv, kv);
                    }
                }
                assert forall|r: int| 0 <= r < next.len() implies exists|q: int|
                    0 <= q < now.len() && (#[trigger] now[q]).0 == group_key(#[trigger] next[r]) by {
                    if r < i {
                        assert(next[r] == prefix[r]);
                        let q = choose|q: int| 0 <= q < before.len() && (#[trigger] before[q]).0 == group_key(prefix[r]);
                        assert(now[q].0 == before[q].0);
                    } else {
                        assert(now[j as int].0 == kv);
                    }
                }
            }
        } else {
            let mut fresh: Vec<u64> = Vec::new();
            fresh.push(x.recipe);
            groups.insert(j, (k, fresh));
            proof {
                let now = group_views(groups@);
                assert(now =~= before.insert(j as int, (kv, seq![x.recipe])));
                assert forall|q: int| 0 <= q < before.len() implies (#[trigger] before[q]).0 != kv by {
                    if q < j {
                        lemma_key_order(before[q].0, kv, kv);
                    } else {
                        if j < before.len() {
                            lemma_key_order(kv, before[j as int].0, before[q].0);
                            lemma_key_order(before[j as int].0, kv, kv);
                            if q > j {
                                assert(key_lt(before[j as int].0, before[q].0));
                            }
                        }
                    }
                }
                assert forall|r: int| 0 <= r < prefix.len() implies group_key(#[trigger] prefix[r]) != kv by {
                    let q = choose|q: int| 0 <= q < before.len() && (#[trigger] before[q]).0 == group_key(prefix[r]);
                    assert(before[q].0 != kv);
                }
                lemma_recipes_in_absent(prefix, kv);
                lemma_recipes_in_push(prefix, *x, kv);
                assert forall|a: int, b: int| 0 <= a < b < now.len() implies key_lt(
                    (#[trigger] now[a]).0,
                    (#[trigger] now[b]).0,
                ) by {
                    if b < j {
                    } else if b == j {
                        assert(key_lt(before[a].0, kv));
                    } else if a < j {
                        assert(key_lt(before[a].0, kv));
                        assert(j < before.len());
                        assert(!key_lt(before[j as int].0, kv));
                        lemma_key_order(before[j as int].0, kv, kv);
                        assert(before[j as int].0 != kv);
                        assert(key_lt(kv, before[j as int].0));
                        if b - 1 > j {
                            lemma_key_order(kv, before[j as int].0, before[b - 1].0);
                        }
                        lemma_key_order(before[a].0, kv, before[b - 1].0);
                    } else if a == j {
                        assert(!key_lt(before[j as int].0, kv));
                        lemma_key_order(before[j as int].0, kv, kv);
                        assert(before[j as int].0 != kv);
                        assert(key_lt(kv, before[j as int].0));
                        if b - 1 > j {
                            lemma_key_order(kv, before[j as int].0, before[b - 1].0);
                        }
                    } else {
                    }
                }
                assert forall|q: int| 0 <= q < now.len() implies (#[trigger] now[q]).1 == recipes_in(
                    next,
                    now[q].0,
                ) && now[q].1.len() > 0 by {
                    lemma_recipes_in_push(prefix, *x, now[q].0);
                    if q != j {
                        let p = if q < j { q } else { q - 1 };
                        assert(now[q] == before[p]);
                    }
                }
                assert forall|r: int| 0 <= r < next.len() implies exists|q: int|
                    0 <= q < now.len() && (#[trigger] now[q]).0 == group_key(#[trigger] next[r]) by {
                    if r < i {
                        assert(next[r] == prefix[r]);
                        let q = choose|q: int| 0 <= q < before.len() && (#[trigger] before[q]).0 == group_key(prefix[r]);
                        if q < j {
                            assert(now[q].0 == before[q].0);
                        } else {
                            assert(now[q + 1].0 == before[q].0);
                        }
                    } else {
                        assert(now[j as int].0 == kv);
                    }
                }
            }
        }
        i = i + 1;
    }
    proof {
        assert(recipes@.take(recipes@.len() as int) =~= recipes@);
    }
    let ghost gv = group_views(groups@);
    let mut tops: Vec<String> = Vec::new();
    let mut q: usize = 0;
    while q < groups.len()
        invariant
            q <= groups@.len(),
            gv == group_views(groups@),
            forall|a: int, b: int| 0 <= a < b < gv.len() ==> key_lt((#[trigger] gv[a]).0, (#[trigger] gv[b]).0),
            forall|a: int, b: int|
                0 <= a < b < tops@.len() ==> lex_lt(#[trigger] tops@[a]@, #[trigger] tops@[b]@),
            q > 0 ==> tops@.len() > 0 && tops@.last()@ == gv[q - 1].0.0,
            q == 0 ==> tops@.len() == 0,
            forall|c: Seq<char>|
                #[trigger] top_views(tops@).contains(c) <==> exists|p: int|
                    0 <= p < q && (#[trigger] gv[p]).0.0 == c,
        decreases groups@.len() - q,
    {
        let same = tops.len() > 0 && str_eq(tops[tops.len() - 1].as_str(), groups[q].0.0.as_str());
        let ghost old_tops = top_views(tops@);
        if !same {
            proof {
                if q > 0 {
                    let last = gv[q - 1].0;
                    let cur = gv[q as int].0;
                    assert(key_lt(last, cur));
                    lemma_lex_order(last.0, cur.0, cur.0);
                    assert(lex_lt(last.0, cur.0));
                    assert forall|a: int| 0 <= a < tops@.len() implies #[trigger] lex_lt(tops@[a]@, cur.0) by {
                        lemma_lex_order(tops@.last()@, cur.0, cur.0);
                        if a < tops@.len() - 1 {
                            assert(lex_lt(tops@[a]@, tops@.last()@));
                            lemma_lex_order(tops@[a]@, tops@.last()@, cur.0);
                            lemma_lex_order(cur.0, tops@[a]@, tops@.last()@);
                            lemma_lex_order(tops@.last()@, cur.0, tops@[a]@);
                        }
                    }
                }
            }
            let ghost old_raw = tops@;
            tops.push(groups[q].0.0.clone());
            proof {
                let nt = top_views(tops@);
                assert(tops@[tops@.len() - 1]@ == gv[q as int].0.0);
                assert forall|a: int, b: int|
                    0 <= a < b < tops@.len() implies lex_lt(#[trigger] tops@[a]@, #[trigger] tops@[b]@) by {
                    if b < tops@.len() - 1 {
                        assert(tops@[a] == old_raw[a]);
                        assert(tops@[b] == old_raw[b]);
                    } else {
                        assert(tops@[a] == old_raw[a]);
                        assert(lex_lt(old_raw[a]@, gv[q as int].0.0));
                    }
                }
                assert(nt =~= old_tops.push(gv[q as int].0.0));
                assert forall|c: Seq<char>| nt.contains(c) <==> exists|p: int|
                    0 <= p < q + 1 && (#[trigger] gv[p]).0.0 == c by {
                    if nt.contains(c) {
                        let a = choose|a: int| 0 <= a < nt.len() && nt[a] == c;
                        if a < old_tops.len() {
                            assert(old_tops.contains(c));
                        }
                    }
                    if exists|p: int| 0 <= p < q + 1 && (#[trigger] gv[p]).0.0 == c {
                        let p = choose|p: int| 0 <= p < q + 1 && (#[trigger] gv[p]).0.0 == c;
                        if p < q {
                            assert(old_tops.contains(c));
                            let a = choose|a: int| 0 <= a < old_tops.len() && old_tops[a] == c;
                            assert(nt[a] == c);
                        } else {
                            assert(nt[nt.len() - 1] == c);
                        }
                    }
                }
            }
        } else {
            proof {
                assert forall|c: Seq<char>| old_tops.contains(c) <==> exists|p: int|
                    0 <= p < q + 1 && (#[trigger] gv[p]).0.0 == c by {
                    if exists|p: int| 0 <= p < q + 1 && (#[trigger] gv[p]).0.0 == c {
                        let p = choose|p: int| 0 <= p < q + 1 && (#[trigger] gv[p]).0.0 == c;
                        if p == q {
                            assert(old_tops[old_tops.len() - 1] == c);
                        } else {
                            assert(exists|p2: int| 0 <= p2 < q && (#[trigger] gv[p2]).0.0 == c);
                        }
                    }
                }
            }
        }
        q = q + 1;
    }
    (tops, groups)
}


// ---------------------------------------------------------------------------
// Ordering the rows
// ---------------------------------------------------------------------------

/// Row `a` is listed no later than row `b`: craftable rows first, then by
/// result name.
pub open spec fn row_le(a: EntryView, b: EntryView) -> bool {
    (a.craftable && !b.craftable) || (a.craftable == b.craftable && lex_le(a.result_name, b.result_name))
}

/// The rows are in listing order.
pub open spec fn rows_sorted(s: Seq<EntryView>) -> bool {
    forall|i: int, j: int| 0 <= i < j < s.len() ==> row_le(#[trigger] s[i], #[trigger] s[j])
}

proof fn lemma_row_order(a: EntryView, b: EntryView, c: EntryView)
    ensures
        row_le(a, b) || row_le(b, a),
        row_le(a, b) && row_le(b, c) ==> row_le(a, c),
{
    lemma_lex_order(a.result_name, b.result_name, c.result_name);
}

fn row_le_exec(a: &CraftEntry, b: &CraftEntry) -> (r: bool)
    ensures
        r == row_le(a@, b@),
{
    (a.craftable && !b.craftable) || (a.craftable == b.craftable && str_le(
        a.result_name.as_str(),
        b.result_name.as_str(),
    ))
}

proof fn lemma_insert_multiset(s: Seq<EntryView>, j: int, x: EntryView)
    requires
        0 <= j <= s.len(),
    ensures
        s.insert(j, x).to_multiset() =~= s.to_multiset().insert(x),
{
    broadcast use vstd::seq_lib::group_to_multiset_ensures;
    broadcast use vstd::multiset::group_multiset_axioms;

    let t = s.insert(j, x);
    assert(t.remove(j) =~= s);
    assert(t[j] == x);
    assert(t.to_multiset().count(x) > 0);
}

/// The rows that list level with `e`: same craftability and result name.
pub open spec fn same_row_key(e: EntryView) -> spec_fn(EntryView) -> bool {
    |y: EntryView| y.craftable == e.craftable && y.result_name == e.result_name
}

/// The whole rows that list level with `e`: same craftability and result
/// name.
pub open spec fn same_row(e: EntryView) -> spec_fn(CraftEntry) -> bool {
    |y: CraftEntry| y.craftable == e.craftable && y.result_name@ == e.result_name
}

/// The rows in listing order (craftable first, then by result name, as a
/// stable sort leaves them): the same rows, every field kept, in order, and
/// rows that list level keep the order they came in.
pub fn sort_craft_entries(entries: Vec<CraftEntry>) -> (r: Vec<CraftEntry>)
    ensures
        r@.to_multiset() == entries@.to_multiset(),
        forall|e: EntryView| #[trigger] r@.filter(same_row(e)) == entries@.filter(same_row(e)),
        rows_sorted(entry_views(r@)),
        entry_views(r@).to_multiset() == entry_views(entries@).to_multiset(),
        forall|e: EntryView|
            #[trigger] entry_views(r@).filter(same_row_key(e)) == entry_views(entries@).filter(
                same_row_key(e),
            ),
{
    let ghost all = entry_views(entries@);
    let ghost full = entries@;
    let ghost mut done: Seq<EntryView> = Seq::empty();
    let ghost mut done_full: Seq<CraftEntry> = Seq::empty();
    let mut rest = entries;
    let mut out: Vec<CraftEntry> = Vec::new();
    proof {
        assert(full =~= rest@ + done_full);
        assert forall|e: EntryView| #[trigger] out@.filter(same_row(e)) == done_full.filter(same_row(e)) by {
            assert(out@ =~= done_full);
        }
        broadcast use vstd::seq_lib::group_to_multiset_ensures;
        broadcast use vstd::multiset::group_multiset_axioms;
        assert(out@.to_multiset().add(rest@.to_multiset()) =~= full.to_multiset());
        assert(all =~= entry_views(rest@) + done);
        assert forall|e: EntryView| #[trigger]
            entry_views(out@).filter(same_row_key(e)) == done.filter(same_row_key(e)) by {
            assert(entry_views(out@) =~= done);
        }
        assert(entry_views(out@) =~= Seq::<EntryView>::empty());
        broadcast use vstd::seq_lib::group_to_multiset_ensures;
        broadcast use vstd::multiset::group_multiset_axioms;
        assert(entry_views(out@).to_multiset() =~= vstd::multiset::Multiset::empty());
    }
    while rest.len() > 0
        invariant
            rows_sorted(entry_views(out@)),
            entry_views(out@).to_multiset().add(entry_views(rest@).to_multiset()) == all.to_multiset(),
            all == entry_views(rest@) + done,
            forall|e: EntryView| #[trigger]
                entry_views(out@).filter(same_row_key(e)) == done.filter(same_row_key(e)),
            out@.to_multiset().add(rest@.to_multiset()) == full.to_multiset(),
            full == rest@ + done_full,
            forall|e: EntryView| #[trigger] out@.filter(same_row(e)) == done_full.filter(same_row(e)),
        decreases rest@.len(),
    {
        let ghost before_rest = rest@;
        let ghost done_before = done;
        let ghost done_full_before = done_full;
        let x = rest.pop().unwrap();
        proof {
            done_full = seq![x] + done_full;
            assert(full =~= rest@ + done_full);
            assert(before_rest =~= rest@.push(x));
            assert(entry_views(before_rest) =~= entry_views(rest@).push(x@));
            broadcast use vstd::seq_lib::group_to_multiset_ensures;
            done = seq![x@] + done;
            assert(all =~= entry_views(rest@) + done);
            lemma_row_order(x@, x@, x@);
        }
        let mut j: usize = 0;
        while j < out.len() && !row_le_exec(&x, &out[j])
            invariant
                j <= out@.len(),
                forall|k: int| 0 <= k < j ==> !row_le(x@, #[trigger] out@[k]@),
            decreases out@.len() - j,
        {
            j = j + 1;
        }
        let ghost old_out = entry_views(out@);
        let ghost old_full = out@;
        proof {
            lemma_insert_multiset(old_out, j as int, x@);
            lemma_insert_to_multiset(old_full, j as int, x);
        }
        out.insert(j, x);
        proof {
            assert(entry_views(out@) =~= old_out.insert(j as int, x@));
            let now = entry_views(out@);
            assert forall|a: int, b: int| 0 <= a < b < now.len() implies row_le(
                #[trigger] now[a],
                #[trigger] now[b],
            ) by {
                if b < j {
                    assert(row_le(old_out[a], old_out[b]));
                } else if b == j {
                    assert(!row_le(x@, old_out[a]));
                    lemma_row_order(x@, old_out[a], x@);
                } else if a < j {
                    assert(row_le(old_out[a], old_out[b - 1]));
                } else if a == j {
                    assert(row_le(x@, old_out[j as int]));
                    if j as int != b - 1 {
                        assert(row_le(old_out[j as int], old_out[b - 1]));
                        lemma_row_order(x@, old_out[j as int], old_out[b - 1]);
                    }
                } else {
                    assert(row_le(old_out[a - 1], old_out[b - 1]));
                }
            }
            assert forall|e: EntryView| #[trigger]
                entry_views(out@).filter(same_row_key(e)) == done.filter(same_row_key(e)) by {
                let p = same_row_key(e);
                assert forall|i: int| p(x@) && 0 <= i < j implies !p(#[trigger] old_out[i]) by {
                    assert(!row_le(x@, out@[i]@));
                }
                lemma_filter_insert(old_out, j as int, x@, p);
                lemma_filter_prepend_class(done_before, x@, p);
            }
            assert forall|e: EntryView| #[trigger] out@.filter(same_row(e)) == done_full.filter(same_row(e)) by {
                let p = same_row(e);
                assert forall|i: int| p(x) && 0 <= i < j implies !p(#[trigger] old_full[i]) by {
                    assert(!row_le(x@, out@[i]@));
                    assert(old_out[i] == old_full[i]@);
                }
                lemma_filter_insert(old_full, j as int, x, p);
                lemma_filter_prepend_class(done_full_before, x, p);
            }
            broadcast use vstd::multiset::group_multiset_axioms;
            assert(entry_views(out@).to_multiset().add(entry_views(rest@).to_multiset()) =~= all.to_multiset());
            assert(out@.to_multiset().add(rest@.to_multiset()) =~= full.to_multiset());
        }
    }
    proof {
        assert(entry_views(rest@) =~= Seq::<EntryView>::empty());
        assert(all =~= done);
        assert(rest@ =~= Seq::<CraftEntry>::empty());
        assert(full =~= done_full);
        broadcast use vstd::seq_lib::group_to_multiset_ensures;
        broadcast use vstd::multiset::group_multiset_axioms;
        assert(entry_views(out@).to_multiset() =~= all.to_multiset());
        assert(out@.to_multiset() =~= full.to_multiset());
    }
    out
}

// ---------------------------------------------------------------------------
// Keeping the selection across a rebuild
// ---------------------------------------------------------------------------

/// The selected category, if the selection points at one.
pub open spec fn selected_category(c: CategoryView) -> Option<Seq<char>> {
    if c.selected_top < c.top_categories.len() {
        Some(c.top_categories[c.selected_top as int])
    } else {
        None
    }
}

/// The selected subcategory: the one at the selected position among the
/// selected category's groups, if there is one there.
pub open spec fn selected_subcategory(c: CategoryView) -> Option<Seq<char>> {
    match selected_category(c) {
        Some(t) => {
            let subs = groups_of(c.groups, t);
            if c.selected_sub < subs.len() {
                Some(subs[c.selected_sub as int].0.1)
            } else {
                None
            }
        },
        None => None,
    }
}

/// The first position of `name` in `names` from `from` on.
pub open spec fn find_name(names: Seq<Seq<char>>, name: Seq<char>, from: int) -> Option<int>
    decreases names.len() - from,
{
    if from < 0 || from >= names.len() {
        None
    } else if names[from] == name {
        Some(from)
    } else {
        find_name(names, name, from + 1)
    }
}

/// The subcategories of groups, in order.
pub open spec fn sub_names(groups: Seq<GroupView>) -> Seq<Seq<char>> {
    groups.map_values(|g: GroupView| g.0.1)
}

/// The selection after a rebuild with categories `tops` and groups
/// `groups`: the category of the same name (else the first), and in it the
/// subcategory of the same name (else the first); the keyboard zone is kept.
pub open spec fn reselected(prev: CategoryView, tops: Seq<Seq<char>>, groups: Seq<GroupView>) -> CategoryView {
    let top = match selected_category(prev) {
        Some(t) => match find_name(tops, t, 0) {
            Some(p) => p,
            None => 0,
        },
        None => 0,
    };
    let sub = if 0 <= top < tops.len() {
        match selected_subcategory(prev) {
            Some(s) => match find_name(sub_names(groups_of(groups, tops[top])), s, 0) {
                Some(p) => p,
                None => 0,
            },
            None => 0,
        }
    } else {
        0
    };
    CategoryView {
        top_categories: tops,
        groups,
        selected_top: top as usize,
        selected_sub: sub as usize,
        focus_zone: prev.focus_zone,
    }
}

/// The recipe key of the focused row, if the focus is on a row.
pub open spec fn focused_key(entries: Seq<EntryView>, rows: Seq<usize>, focus: int) -> Option<Seq<char>> {
    if 0 <= focus < rows.len() && rows[focus] < entries.len() {
        Some(entries[rows[focus] as int].recipe_key)
    } else {
        None
    }
}

/// The first of the rows `rows` (from `from` on) whose recipe key is `key`.
pub open spec fn find_row_key(entries: Seq<EntryView>, rows: Seq<usize>, key: Seq<char>, from: int) -> Option<int>
    decreases rows.len() - from,
{
    if from < 0 || from >= rows.len() {
        None
    } else if rows[from] < entries.len() && entries[rows[from] as int].recipe_key == key {
        Some(from)
    } else {
        find_row_key(entries, rows, key, from + 1)
    }
}

fn find_name_exec(names: &Vec<String>, name: &String) -> (r: Option<usize>)
    ensures
        match r {
            Some(p) => find_name(top_views(names@), name@, 0) == Some(p as int),
            None => find_name(top_views(names@), name@, 0) is None,
        },
{
    let ghost v = top_views(names@);
    let mut i: usize = 0;
    while i < names.len()
        invariant
            i <= names@.len(),
            v == top_views(names@),
            find_name(v, name@, 0) == find_name(v, name@, i as int),
        decreases names@.len() - i,
    {
        if str_eq(names[i].as_str(), name.as_str()) {
            return Some(i);
        }
        i = i + 1;
    }
    None
}

/// The subcategories of category `top`, in order, and (when `want` is given)
/// the first position of `want` among them.
fn subcategories_of(groups: &Vec<((String, String), Vec<u64>)>, top: &String) -> (r: Vec<String>)
    ensures
        top_views(r@) == sub_names(groups_of(group_views(groups@), top@)),
{
    let ghost gv = group_views(groups@);
    let mut out: Vec<String> = Vec::new();
    let mut i: usize = 0;
    while i < groups.len()
        invariant
            i <= groups@.len(),
            gv == group_views(groups@),
            top_views(out@) == sub_names(groups_of(gv.take(i as int), top@)),
        decreases groups@.len() - i,
    {
        proof {
            assert(gv.take(i + 1).drop_last() =~= gv.take(i as int));
            assert(gv.take(i + 1).last() == gv[i as int]);
        }
        let ghost before = top_views(out@);
        if str_eq(groups[i].0.0.as_str(), top.as_str()) {
            out.push(groups[i].0.1.clone());
            proof {
                assert(top_views(out@) =~= before.push(gv[i as int].0.1));
                assert(sub_names(groups_of(gv.take(i + 1), top@)) =~= sub_names(groups_of(gv.take(i as int), top@)).push(gv[i as int].0.1));
            }
        }
        i = i + 1;
    }
    assert(gv.take(groups@.len() as int) =~= gv);
    out
}

fn find_row_key_exec(entries: &Vec<CraftEntry>, rows: &Vec<usize>, key: &String) -> (r: Option<usize>)
    ensures
        match r {
            Some(p) => find_row_key(entry_views(entries@), rows@, key@, 0) == Some(p as int),
            None => find_row_key(entry_views(entries@), rows@, key@, 0) is None,
        },
{
    let ghost es = entry_views(entries@);
    let mut p: usize = 0;
    while p < rows.len()
        invariant
            p <= rows@.len(),
            es == entry_views(entries@),
            find_row_key(es, rows@, key@, 0) == find_row_key(es, rows@, key@, p as int),
        decreases rows@.len() - p,
    {
        let i = rows[p];
        if i < entries.len() && str_eq(entries[i].recipe_key.as_str(), key.as_str()) {
            return Some(p);
        }
        p = p + 1;
    }
    None
}

/// Rebuilds the crafting menu's read model from the recipes with results
/// (`recipes`, in recipe order) and their rows (`entries`, built from the
/// world): the groups by display category and subcategory in key order and
/// the categories in order; the rows craftable first, then by result name;
/// the selected category and subcategory kept by name (else the first); and
/// the focus kept on the row of the same recipe key (else the first row).
/// The toggle, message, filter and keyboard zone are kept.
pub fn build_craft_state(
    recipes: &Vec<RecipeSource>,
    entries: Vec<CraftEntry>,
    categories: &mut CategoryIndex,
    model: &mut CraftModel,
    state: &mut CraftState,
)
    ensures
        index_well_formed(final(categories)@),
        groups_of_recipes(final(categories)@.groups, recipes@),
        categories_of_groups(final(categories)@.top_categories, final(categories)@.groups),
        final(categories)@ == reselected(
            old(categories)@,
            final(categories)@.top_categories,
            final(categories)@.groups,
        ),
        rows_sorted(entry_views(final(model).entries@)),
        final(model).entries@.to_multiset() == entries@.to_multiset(),
        forall|e: EntryView| #[trigger] final(model).entries@.filter(same_row(e)) == entries@.filter(same_row(e)),
        entry_views(final(model).entries@).to_multiset() == entry_views(entries@).to_multiset(),
        final(state)@.show_all == old(state)@.show_all,
        final(state)@.last_message == old(state)@.last_message,
        final(state)@.filter == old(state)@.filter,
        final(state)@.filtering == old(state)@.filtering,
        ({
            let old_key = focused_key(
                entry_views(old(model).entries@),
                membership(entry_views(old(model).entries@), old(state)@.show_all, old(state)@.filter, old(categories)@),
                old(state).focus as int,
            );
            let new_rows = membership(
                entry_views(final(model).entries@),
                old(state)@.show_all,
                old(state)@.filter,
                final(categories)@,
            );
            final(state).focus == match old_key {
                Some(k) => match find_row_key(entry_views(final(model).entries@), new_rows, k, 0) {
                    Some(p) => p,
                    None => 0,
                },
                None => 0,
            }
        }),
{
    // What was selected before the rebuild.
    let ghost prev = categories@;
    assert(prev.groups =~= group_views(categories.sub_recipes@));
    assert(prev.top_categories =~= top_views(categories.top_categories@));
    let mut previous_top: Option<String> = None;
    let mut previous_sub: Option<String> = None;
    if categories.selected_top < categories.top_categories.len() {
        let t = categories.top_categories[categories.selected_top].clone();
        let subs = subcategories_of(&categories.sub_recipes, &t);
        assert(sub_names(groups_of(prev.groups, t@)).len() == groups_of(prev.groups, t@).len());
        if categories.selected_sub < subs.len() {
            assert(sub_names(groups_of(prev.groups, t@))[categories.selected_sub as int] == groups_of(prev.groups, t@)[categories.selected_sub as int].0.1);
            previous_sub = Some(subs[categories.selected_sub].clone());
            assert(top_views(subs@)[categories.selected_sub as int] == subs@[categories.selected_sub as int]@);
        }
        previous_top = Some(t);
    }
    assert(match previous_top { Some(t) => selected_category(prev) == Some(t@), None => selected_category(prev) is None });
    assert(match previous_sub { Some(t) => selected_subcategory(prev) == Some(t@), None => selected_subcategory(prev) is None });
    let old_rows = category_entry_indices(model, state, categories);
    let mut selected_key: Option<String> = None;
    if state.focus < old_rows.len() {
        let i = old_rows[state.focus];
        if i < model.entries.len() {
            selected_key = Some(model.entries[i].recipe_key.clone());
        }
    }
    // The new groups and categories, and the selection in them.
    let (tops, groups) = group_recipes(recipes);
    let selected_top: usize = match &previous_top {
        Some(t) => match find_name_exec(&tops, t) {
            Some(p) => p,
            None => 0,
        },
        None => 0,
    };
    let mut selected_sub: usize = 0;
    if selected_top < tops.len() {
        match &previous_sub {
            Some(s) => {
                let subs = subcategories_of(&groups, &tops[selected_top]);
                assert(top_views(tops@)[selected_top as int] == tops@[selected_top as int]@);
                match find_name_exec(&subs, s) {
                    Some(p) => {
                        selected_sub = p;
                    },
                    None => {},
                }
            },
            None => {},
        }
    }
    let focus_zone = categories.focus_zone;
    *categories = CategoryIndex { top_categories: tops, sub_recipes: groups, selected_top, selected_sub, focus_zone };
    assert(categories@.top_categories =~= top_views(categories.top_categories@));
    assert(categories@.groups =~= group_views(categories.sub_recipes@));
    // The rows, and the focus on the same recipe.
    model.entries = sort_craft_entries(entries);
    let new_rows = category_entry_indices(model, state, categories);
    state.focus = match &selected_key {
        Some(k) => match find_row_key_exec(&model.entries, &new_rows, k) {
            Some(p) => p,
            None => 0,
        },
        None => 0,
    };
}


proof fn lemma_find_row_key(entries: Seq<EntryView>, rows: Seq<usize>, key: Seq<char>, from: int, q: int)
    requires
        0 <= from <= q < rows.len(),
        rows[q] < entries.len(),
        entries[rows[q] as int].recipe_key == key,
    ensures
        find_row_key(entries, rows, key, from) matches Some(p) && from <= p < rows.len()
            && rows[p] < entries.len() && entries[rows[p] as int].recipe_key == key,
    decreases q - from,
{
    if !(rows[from] < entries.len() && entries[rows[from] as int].recipe_key == key) {
        lemma_find_row_key(entries, rows, key, from + 1, q);
    }
}

/// A rebuild keeps the focus on the recipe it was on: when some listed row
/// of the rebuilt list has the focused recipe's key, the focus lands on a
/// row with that key.
pub proof fn lemma_rebuild_keeps_focused_recipe(
    new_entries: Seq<EntryView>,
    new_rows: Seq<usize>,
    key: Seq<char>,
    q: int,
)
    requires
        0 <= q < new_rows.len(),
        new_rows[q] < new_entries.len(),
        new_entries[new_rows[q] as int].recipe_key == key,
    ensures
        ({
            let p = match find_row_key(new_entries, new_rows, key, 0) {
                Some(p) => p,
                None => 0,
            };
            &&& 0 <= p < new_rows.len()
            &&& new_entries[new_rows[p] as int].recipe_key == key
        }),
{
    lemma_find_row_key(new_entries, new_rows, key, 0, q);
}

/// What the last craft attempt came to.
#[derive(Clone, Debug)]
pub enum CraftOutcome {
    /// A craft began; the name of its result, if the craft is still there.
    Started { result_name: Option<String> },
    /// A craft finished; the name of the item made, if it has one.
    Completed { item_name: Option<String> },
    Interrupted,
    Failed { reason: String },
}

/// The message shown for a craft outcome.
pub open spec fn outcome_text(o: CraftOutcome) -> Seq<char> {
    match o {
        CraftOutcome::Started { result_name } => "Crafting: "@ + match result_name {
            Some(n) => n@,
            None => "item"@,
        },
        CraftOutcome::Completed { item_name } => "Crafted: "@ + match item_name {
            Some(n) => n@,
            None => "item"@,
        },
        CraftOutcome::Interrupted => "Craft interrupted; progress saved"@,
        CraftOutcome::Failed { reason } => "Failed: "@ + reason@,
    }
}

/// Sets the menu's message from the last craft outcome (no message without
/// one).
pub fn refresh_craft_message(state: &mut CraftState, outcome: &Option<CraftOutcome>)
    ensures
        final(state)@.last_message == match outcome {
            Some(o) => Some(outcome_text(*o)),
            None => None,
        },
        final(state)@.focus == old(state)@.focus,
        final(state)@.show_all == old(state)@.show_all,
        final(state)@.filter == old(state)@.filter,
        final(state)@.filtering == old(state)@.filtering,
{
    let message: Option<String> = match outcome {
        Some(CraftOutcome::Started { result_name }) => {
            let mut m = String::from_str("Crafting: ");
            match result_name {
                Some(n) => m.append(n.as_str()),
                None => m.append("item"),
            }
            Some(m)
        },
        Some(CraftOutcome::Completed { item_name }) => {
            let mut m = String::from_str("Crafted: ");
            match item_name {
                Some(n) => m.append(n.as_str()),
                None => m.append("item"),
            }
            Some(m)
        },
        Some(CraftOutcome::Interrupted) => Some(String::from_str("Craft interrupted; progress saved")),
        Some(CraftOutcome::Failed { reason }) => {
            let mut m = String::from_str("Failed: ");
            m.append(reason.as_str());
            Some(m)
        },
        None => None,
    };
    state.last_message = message;
}

/// The crafting menu's keys keep a well-formed category index well formed:
/// they change only the selection and the keyboard zone (see the `ensures`
/// of `crafting_menu_input`), not the groups or the categories.
pub proof fn lemma_selection_keeps_index_well_formed(before: CategoryView, after: CategoryView)
    requires
        index_well_formed(before),
        after.top_categories == before.top_categories,
        after.groups == before.groups,
    ensures
        index_well_formed(after),
{
}

} // verus!
