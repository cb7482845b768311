//! The inventory screen and the item commands of the dev world: which items
//! the panels list and in what order, their row texts, and the intents that
//! keys declare (wield, stow, pick up, drop, resume a craft).
use vstd::prelude::*;
use crate::order::lemma_filter_insert_back;
use crate::actions::GameAction;
use crate::character::{left_aligned, pad_right};
use crate::text::{decimal, digits};

verus! {

// ---------------------------------------------------------------------------
// Intents
// ---------------------------------------------------------------------------

/// An item action the player declares; the simulation carries it out.
#[derive(Clone, Copy, Debug, PartialEq, Eq, Structural)]
pub enum ActionIntent {
    Pickup { item: u64 },
    Drop { item: u64 },
    Wield { item: u64 },
    Stow { item: u64 },
    ResumeCraft { craft: u64 },
}

// ---------------------------------------------------------------------------
// The pocket list
// ---------------------------------------------------------------------------

/// An item by its inventory letter and its entity bits.
pub type LetteredItem = (char, u64);

/// The items are in order of their letters.
pub open spec fn letters_sorted(s: Seq<LetteredItem>) -> bool {
    forall|i: int, j: int| 0 <= i < j < s.len() ==> (#[trigger] s[i]).0 <= (#[trigger] s[j]).0
}

proof fn lemma_insert_multiset(s: Seq<LetteredItem>, j: int, x: LetteredItem)
    requires
        0 <= j <= s.len(),
    ensures
        s.insert(j, x).to_multiset() =~= s.to_multiset().insert(x),
{
    broadcast use vstd::seq_lib::group_to_multiset_ensures;
    broadcast use vstd::multiset::group_multiset_axioms;

    let t = s.insert(j, x);
    assert(t.remove(j) =~= s);
    assert(t[j] == x);
    assert(t.to_multiset().count(x) > 0);
}

/// The items with the letter `c`.
pub open spec fn has_letter(c: char) -> spec_fn(LetteredItem) -> bool {
    |y: LetteredItem| y.0 == c
}

/// The items sorted by letter (the order of a stable sort by letter): the
/// same items, in order, and items with the same letter in the order they
/// came in.
pub fn sort_by_letter(items: &Vec<LetteredItem>) -> (r: Vec<LetteredItem>)
    ensures
        letters_sorted(r@),
        r@.to_multiset() == items@.to_multiset(),
        forall|c: char| #[trigger] r@.filter(has_letter(c)) == items@.filter(has_letter(c)),
{
    let mut out: Vec<LetteredItem> = Vec::new();
    let mut i: usize = 0;
    proof {
        assert(items@.take(0) =~= Seq::<LetteredItem>::empty());
        assert(out@ =~= Seq::<LetteredItem>::empty());
    }
    while i < items.len()
        invariant
            i <= items@.len(),
            letters_sorted(out@),
            out@.to_multiset() == items@.take(i as int).to_multiset(),
            forall|c: char| #[trigger]
                out@.filter(has_letter(c)) == items@.take(i as int).filter(has_letter(c)),
        decreases items@.len() - i,
    {
        let x = items[i];
        let mut j: usize = 0;
        while j < out.len() && out[j].0 <= x.0
            invariant
                j <= out@.len(),
                forall|k: int| 0 <= k < j ==> (#[trigger] out@[k]).0 <= x.0,
            decreases out@.len() - j,
        {
            j = j + 1;
        }
        let ghost old_out = out@;
        proof {
            lemma_insert_multiset(old_out, j as int, x);
            assert(items@.take(i + 1) =~= items@.take(i as int).push(x));
            broadcast use vstd::seq_lib::group_to_multiset_ensures;
        }
        out.insert(j, x);
        proof {
            assert(out@ == old_out.insert(j as int, x));
            assert forall|a: int, b: int| 0 <= a < b < out@.len() implies (#[trigger] out@[a]).0
                <= (#[trigger] out@[b]).0 by {
                if b < j {
                    assert(old_out[a].0 <= old_out[b].0);
                } else if b == j {
                    assert(old_out[a].0 <= x.0);
                } else if a < j {
                    assert(old_out[a].0 <= old_out[b - 1].0);
                } else if a == j {
                    assert(!(old_out[j as int].0 <= x.0));
                    assert(old_out[j as int].0 <= old_out[b - 1].0 || j as int == b - 1);
                } else {
                    assert(old_out[a - 1].0 <= old_out[b - 1].0);
                }
            }
            assert forall|c: char| #[trigger]
                out@.filter(has_letter(c)) == items@.take(i + 1).filter(has_letter(c)) by {
                let p = has_letter(c);
                assert forall|k: int| p(x) && j <= k < old_out.len() implies !p(
                    #[trigger] old_out[k],
                ) by {
                    assert(!(old_out[j as int].0 <= x.0));
                    if k != j {
                        assert(old_out[j as int].0 <= old_out[k].0);
                    }
                }
                lemma_filter_insert_back(old_out, j as int, x, p);
                items@.take(i as int).lemma_filter_push(x, p);
            }
        }
        i = i + 1;
    }
    proof {
        assert(items@.take(items@.len() as int) =~= items@);
    }
    out
}

/// Whether `item` is among the listed items.
pub open spec fn listed(s: Seq<LetteredItem>, item: u64) -> bool {
    exists|k: int| 0 <= k < s.len() && (#[trigger] s[k]).1 == item
}

/// The pocket list before sorting: the items found in the pockets, then the
/// lettered items of the inventory that are neither listed already nor
/// wielded.
pub open spec fn pocket_candidates(
    in_pockets: Seq<LetteredItem>,
    lettered: Seq<LetteredItem>,
    wielded: Seq<u64>,
    n: int,
) -> Seq<LetteredItem>
    decreases n,
{
    if n <= 0 {
        in_pockets
    } else {
        let prev = pocket_candidates(in_pockets, lettered, wielded, n - 1);
        let x = lettered[n - 1];
        if !listed(prev, x.1) && !wielded.contains(x.1) {
            prev.push(x)
        } else {
            prev
        }
    }
}

fn is_listed(s: &Vec<LetteredItem>, item: u64) -> (r: bool)
    ensures
        r == listed(s@, item),
{
    let mut k: usize = 0;
    while k < s.len()
        invariant
            k <= s@.len(),
            forall|j: int| 0 <= j < k ==> s@[j].1 != item,
        decreases s@.len() - k,
    {
        if s[k].1 == item {
            return true;
        }
        k = k + 1;
    }
    false
}

fn contains_item(s: &Vec<u64>, item: u64) -> (r: bool)
    ensures
        r == s@.contains(item),
{
    let mut k: usize = 0;
    while k < s.len()
        invariant
            k <= s@.len(),
            forall|j: int| 0 <= j < k ==> s@[j] != item,
        decreases s@.len() - k,
    {
        if s[k] == item {
            return true;
        }
        k = k + 1;
    }
    false
}

/// The left panel's items, sorted by letter: the items found in the pockets
/// (`?` where they have no letter) and the other lettered items of the
/// inventory that are not wielded.
pub fn pocket_items(in_pockets: &Vec<LetteredItem>, lettered: &Vec<LetteredItem>, wielded: &Vec<u64>) -> (r:
    Vec<LetteredItem>)
    ensures
        letters_sorted(r@),
        r@.to_multiset() == pocket_candidates(
            in_pockets@,
            lettered@,
            wielded@,
            lettered@.len() as int,
        ).to_multiset(),
{
    let mut all: Vec<LetteredItem> = Vec::new();
    let mut p: usize = 0;
    while p < in_pockets.len()
        invariant
            p <= in_pockets@.len(),
            all@ == in_pockets@.take(p as int),
        decreases in_pockets@.len() - p,
    {
        all.push(in_pockets[p]);
        assert(in_pockets@.take(p + 1) =~= in_pockets@.take(p as int).push(in_pockets@[p as int]));
        p = p + 1;
    }
    assert(in_pockets@.take(p as int) =~= in_pockets@);
    let mut i: usize = 0;
    while i < lettered.len()
        invariant
            i <= lettered@.len(),
            all@ == pocket_candidates(in_pockets@, lettered@, wielded@, i as int),
        decreases lettered@.len() - i,
    {
        let x = lettered[i];
        if !is_listed(&all, x.1) && !contains_item(wielded, x.1) {
            all.push(x);
        }
        i = i + 1;
    }
    sort_by_letter(&all)
}

// ---------------------------------------------------------------------------
// Item rows
// ---------------------------------------------------------------------------

/// What an item row shows.
#[derive(Clone, Debug)]
pub struct ItemRowData {
    pub name: String,
    pub qty: u32,
    pub cdda_id: String,
    pub sym: char,
    pub craft_display: Option<String>,
}

/// The name of a row: an in-progress craft's name, else the ground name,
/// else the item name, else `?`.
pub open spec fn row_name(
    craft: Option<Seq<char>>,
    ground: Option<Seq<char>>,
    item: Option<Seq<char>>,
) -> Seq<char> {
    match craft {
        Some(c) => c,
        None => match ground {
            Some(g) => g,
            None => match item {
                Some(n) => n,
                None => "?"@,
            },
        },
    }
}

/// The symbol of a row: the item's symbol, else the first character of its
/// ground name, else `?`.
pub open spec fn row_symbol(symbol: Option<char>, ground: Option<Seq<char>>) -> char {
    match symbol {
        Some(s) => s,
        None => match ground {
            Some(g) => if g.len() > 0 {
                g[0]
            } else {
                '?'
            },
            None => '?',
        },
    }
}

/// The data of an item row from what the item has: a craft in progress, a
/// ground name, an item name, a stack count (one when absent), a type id
/// (empty when absent) and a symbol.
pub fn item_row_data(
    craft_display: Option<String>,
    ground_name: Option<String>,
    item_name: Option<String>,
    stack: Option<u32>,
    type_id: Option<String>,
    symbol: Option<char>,
) -> (r: ItemRowData)
    ensures
        r.name@ == row_name(
            match craft_display { Some(c) => Some(c@), None => None },
            match ground_name { Some(g) => Some(g@), None => None },
            match item_name { Some(n) => Some(n@), None => None },
        ),
        r.qty == match stack { Some(n) => n, None => 1 },
        r.cdda_id@ == match type_id { Some(t) => t@, None => Seq::<char>::empty() },
        r.sym == row_symbol(symbol, match ground_name { Some(g) => Some(g@), None => None }),
        match (r.craft_display, craft_display) {
            (Some(a), Some(b)) => a@ == b@,
            (None, None) => true,
            _ => false,
        },
{
    let sym = match symbol {
        Some(s) => s,
        None => match &ground_name {
            Some(g) => {
                let cs = crate::text::chars_of(g.as_str());
                if cs.len() > 0 {
                    cs[0]
                } else {
                    '?'
                }
            },
            None => '?',
        },
    };
    let name = match &craft_display {
        Some(c) => c.clone(),
        None => match ground_name {
            Some(g) => g,
            None => match item_name {
                Some(n) => n,
                None => String::from_str("?"),
            },
        },
    };
    let qty = match stack {
        Some(n) => n,
        None => 1,
    };
    let cdda_id = match type_id {
        Some(t) => t,
        None => String::new(),
    };
    ItemRowData { name, qty, cdda_id, sym, craft_display }
}

/// A row's label: the letter in four columns, the name in twenty-eight, and
/// the quantity.
pub open spec fn item_label_text(letter: char, name: Seq<char>, qty: u32) -> Seq<char> {
    pad_right(seq![letter], 4) + "  "@ + pad_right(name, 28) + "  "@ + digits(qty as nat, 10)
}

/// A row's label.
pub fn item_row_label(letter: char, name: &str, qty: u32) -> (r: String)
    ensures
        r@ == item_label_text(letter, name@, qty),
{
    let mut one: Vec<char> = Vec::new();
    one.push(letter);
    let l = crate::text::string_of(one.as_slice());
    let mut out = left_aligned(l.as_str(), 4);
    out.append("  ");
    out.append(left_aligned(name, 28).as_str());
    out.append("  ");
    out.append(decimal(qty as u64).as_str());
    out
}

/// How a row is tinted.
#[derive(Clone, Copy, Debug, PartialEq, Eq, Structural)]
pub enum RowStyle {
    Focused,
    Crafting,
    Plain,
}

/// The tint of a row: focused rows first, then rows of crafts in progress.
pub fn item_row_style(is_focused: bool, is_crafting: bool) -> (r: RowStyle)
    ensures
        r == if is_focused {
            RowStyle::Focused
        } else if is_crafting {
            RowStyle::Crafting
        } else {
            RowStyle::Plain
        },
{
    if is_focused {
        RowStyle::Focused
    } else if is_crafting {
        RowStyle::Crafting
    } else {
        RowStyle::Plain
    }
}

// ---------------------------------------------------------------------------
// The inventory screen's keys
// ---------------------------------------------------------------------------

/// The focused panel (0 the pockets, 1 the wielded items) and row.
#[derive(Clone, Copy, Debug, PartialEq, Eq, Structural)]
pub struct InventoryFocus {
    pub panel: usize,
    pub index: usize,
}

impl Default for InventoryFocus {
    /// The first pocket row.
    fn default() -> (f: InventoryFocus)
        ensures
            f == (InventoryFocus { panel: 0, index: 0 }),
    {
        InventoryFocus { panel: 0, index: 0 }
    }
}

/// What the inventory keys have done so far: the focus, the intent declared
/// (at most one while another is pending), and the items opened for
/// examination.
#[verifier::ext_equal]
pub struct InventoryOutcome {
    pub focus: InventoryFocus,
    pub intent: Option<ActionIntent>,
    pub submitted: bool,
    pub examined: Seq<u64>,
}

/// One action on the inventory screen, with `len` rows in the focused panel
/// (as counted when the frame began).
pub open spec fn inventory_step(
    o: InventoryOutcome,
    a: GameAction,
    pockets: Seq<LetteredItem>,
    wielded: Seq<u64>,
    len: int,
) -> InventoryOutcome {
    let f = o.focus;
    match a {
        GameAction::NavigateUp => InventoryOutcome {
            focus: InventoryFocus {
                index: if f.index >= 1 {
                    (f.index - 1) as usize
                } else {
                    0
                },
                ..f
            },
            ..o
        },
        GameAction::NavigateDown => if len > 0 {
            InventoryOutcome {
                focus: InventoryFocus {
                    index: if f.index + 1 < len - 1 {
                        (f.index + 1) as usize
                    } else {
                        (len - 1) as usize
                    },
                    ..f
                },
                ..o
            }
        } else {
            o
        },
        GameAction::NavigateHome => InventoryOutcome { focus: InventoryFocus { index: 0, ..f }, ..o },
        GameAction::NavigateEnd => InventoryOutcome {
            focus: InventoryFocus {
                index: if len > 0 {
                    (len - 1) as usize
                } else {
                    0
                },
                ..f
            },
            ..o
        },
        GameAction::NavigateNextTab | GameAction::NavigatePrevTab => InventoryOutcome {
            focus: InventoryFocus {
                panel: if f.panel >= 1 {
                    0
                } else {
                    1
                },
                index: 0,
            },
            ..o
        },
        GameAction::Confirm | GameAction::Examine => if f.panel == 0 && f.index < pockets.len() {
            InventoryOutcome { examined: o.examined.push(pockets[f.index as int].1), ..o }
        } else {
            o
        },
        GameAction::UseItem => if o.submitted {
            o
        } else if f.panel == 0 {
            if f.index < pockets.len() {
                InventoryOutcome {
                    intent: Some(ActionIntent::Wield { item: pockets[f.index as int].1 }),
                    submitted: true,
                    ..o
                }
            } else {
                o
            }
        } else if f.index < wielded.len() {
            InventoryOutcome {
                intent: Some(ActionIntent::Stow { item: wielded[f.index as int] }),
                submitted: true,
                ..o
            }
        } else {
            o
        },
        _ => o,
    }
}

pub open spec fn inventory_steps(
    o: InventoryOutcome,
    actions: Seq<GameAction>,
    pockets: Seq<LetteredItem>,
    wielded: Seq<u64>,
    len: int,
) -> InventoryOutcome
    decreases actions.len(),
{
    if actions.len() == 0 {
        o
    } else {
        inventory_step(
            inventory_steps(o, actions.drop_last(), pockets, wielded, len),
            actions.last(),
            pockets,
            wielded,
            len,
        )
    }
}

/// The inventory screen's keys for one frame: the arrows move within the
/// focused panel, Tab switches panels, Enter and the examine key open the
/// focused pocket item, and the use key declares Wield (pockets) or Stow
/// (wielded) for the focused row, once, and only when no intent is pending.
/// The panel lengths are those at the start of the frame.
pub fn inventory_screen_input(
    actions: &[GameAction],
    focus: &mut InventoryFocus,
    pockets: &Vec<LetteredItem>,
    wielded: &Vec<u64>,
    intent_pending: bool,
    examined: &mut Vec<u64>,
) -> (intent: Option<ActionIntent>)
    ensures
        ({
            let len = if old(focus).panel == 0 {
                pockets@.len() as int
            } else {
                wielded@.len() as int
            };
            let start = InventoryOutcome {
                focus: *old(focus),
                intent: None,
                submitted: intent_pending,
                examined: old(examined)@,
            };
            let end = inventory_steps(start, actions@, pockets@, wielded@, len);
            &&& *final(focus) == end.focus
            &&& intent == end.intent
            &&& final(examined)@ == end.examined
        }),
{
    let len: usize = if focus.panel == 0 {
        pockets.len()
    } else {
        wielded.len()
    };
    let ghost start = InventoryOutcome {
        focus: *focus,
        intent: None,
        submitted: intent_pending,
        examined: examined@,
    };
    let mut intent: Option<ActionIntent> = None;
    let mut submitted = intent_pending;
    let mut i: usize = 0;
    while i < actions.len()
        invariant
            i <= actions@.len(),
            ({
                let o = inventory_steps(start, actions@.take(i as int), pockets@, wielded@, len as int);
                &&& o.focus == *focus
                &&& o.intent == intent
                &&& o.submitted == submitted
                &&& o.examined == examined@
            }),
        decreases actions@.len() - i,
    {
        proof {
            assert(actions@.take(i + 1).drop_last() =~= actions@.take(i as int));
        }
        let ghost before = InventoryOutcome { focus: *focus, intent, submitted, examined: examined@ };
        match actions[i] {
            GameAction::NavigateUp => {
                focus.index = if focus.index >= 1 {
                    focus.index - 1
                } else {
                    0
                };
            },
            GameAction::NavigateDown => {
                if len > 0 {
                    focus.index = if focus.index < len - 1 && len - 1 - focus.index > 1 {
                        focus.index + 1
                    } else {
                        len - 1
                    };
                }
            },
            GameAction::NavigateHome => {
                focus.index = 0;
            },
            GameAction::NavigateEnd => {
                focus.index = if len > 0 {
                    len - 1
                } else {
                    0
                };
            },
            GameAction::NavigateNextTab | GameAction::NavigatePrevTab => {
                focus.panel = if focus.panel >= 1 {
                    0
                } else {
                    1
                };
                focus.index = 0;
            },
            GameAction::Confirm | GameAction::Examine => {
                if focus.panel == 0 && focus.index < pockets.len() {
                    examined.push(pockets[focus.index].1);
                }
            },
            GameAction::UseItem => {
                if !submitted {
                    if focus.panel == 0 {
                        if focus.index < pockets.len() {
                            intent = Some(ActionIntent::Wield { item: pockets[focus.index].1 });
                            submitted = true;
                        }
                    } else if focus.index < wielded.len() {
                        intent = Some(ActionIntent::Stow { item: wielded[focus.index] });
                        submitted = true;
                    }
                }
            },
            _ => {},
        }
        proof {
            let after = InventoryOutcome { focus: *focus, intent, submitted, examined: examined@ };
            assert(after =~= inventory_step(before, actions@[i as int], pockets@, wielded@, len as int));
        }
        i = i + 1;
    }
    assert(actions@.take(actions@.len() as int) =~= actions@);
    intent
}

// ---------------------------------------------------------------------------
// Picking up and dropping in the dev world
// ---------------------------------------------------------------------------

/// An item as pickup and drop choose among them: its entity bits, its
/// simulation id if it has one, and its letter or reach.
#[derive(Clone, Copy, Debug, PartialEq, Eq, Structural)]
pub struct ItemKey {
    pub entity: u64,
    pub sim_id: Option<u64>,
}

/// The order in which items are preferred: items with a simulation id
/// first, by id, then by entity bits.
pub open spec fn stable_before(a: ItemKey, b: ItemKey) -> bool {
    match (a.sim_id, b.sim_id) {
        (Some(x), Some(y)) => x < y || (x == y && a.entity <= b.entity),
        (Some(_), None) => true,
        (None, Some(_)) => false,
        (None, None) => a.entity <= b.entity,
    }
}

fn stable_before_exec(a: &ItemKey, b: &ItemKey) -> (r: bool)
    ensures
        r == stable_before(*a, *b),
{
    match (a.sim_id, b.sim_id) {
        (Some(x), Some(y)) => x < y || (x == y && a.entity <= b.entity),
        (Some(_), None) => true,
        (None, Some(_)) => false,
        (None, None) => a.entity <= b.entity,
    }
}

/// A ground item: its key and whether it is within the player's reach.
#[derive(Clone, Copy, Debug, PartialEq, Eq, Structural)]
pub struct GroundItem {
    pub key: ItemKey,
    pub within_reach: bool,
}

/// A carried item: its key and its letter.
#[derive(Clone, Copy, Debug, PartialEq, Eq, Structural)]
pub struct CarriedItem {
    pub key: ItemKey,
    pub letter: char,
}

/// The preferred ground item within reach: no other reachable item comes
/// strictly before it (the first such item in the list).
pub open spec fn is_pickup_choice(items: Seq<GroundItem>, k: int) -> bool {
    &&& 0 <= k < items.len()
    &&& items[k].within_reach
    &&& forall|j: int|
        0 <= j < items.len() && (#[trigger] items[j]).within_reach ==> stable_before(items[k].key, items[j].key)
            && (j < k ==> !stable_before(items[j].key, items[k].key))
}

/// The preferred carried item: the lowest letter, then the stable order
/// (the first such item in the list).
pub open spec fn drop_before(a: CarriedItem, b: CarriedItem) -> bool {
    a.letter < b.letter || (a.letter == b.letter && stable_before(a.key, b.key))
}

pub open spec fn is_drop_choice(items: Seq<CarriedItem>, k: int) -> bool {
    &&& 0 <= k < items.len()
    &&& forall|j: int|
        0 <= j < items.len() ==> drop_before(items[k], #[trigger] items[j]) && (j < k ==> !drop_before(
            items[j],
            items[k],
        ))
}

proof fn lemma_stable_order(a: ItemKey, b: ItemKey, c: ItemKey)
    ensures
        stable_before(a, b) || stable_before(b, a),
        stable_before(a, b) && stable_before(b, c) ==> stable_before(a, c),
{
}

/// The ground item a pickup takes, if any is within reach.
pub fn pickup_choice(items: &Vec<GroundItem>) -> (r: Option<usize>)
    ensures
        match r {
            Some(k) => is_pickup_choice(items@, k as int),
            None => forall|j: int| 0 <= j < items@.len() ==> !(#[trigger] items@[j]).within_reach,
        },
{
    let mut best: Option<usize> = None;
    let mut i: usize = 0;
    while i < items.len()
        invariant
            i <= items@.len(),
            match best {
                Some(k) => k < i && items@[k as int].within_reach && forall|j: int|
                    0 <= j < i && (#[trigger] items@[j]).within_reach ==> stable_before(
                        items@[k as int].key,
                        items@[j].key,
                    ) && (j < k ==> !stable_before(items@[j].key, items@[k as int].key)),
                None => forall|j: int| 0 <= j < i ==> !(#[trigger] items@[j]).within_reach,
            },
        decreases items@.len() - i,
    {
        if items[i].within_reach {
            match best {
                Some(k) => {
                    if !stable_before_exec(&items[k].key, &items[i].key) {
                        proof {
                            lemma_stable_order(items@[k as int].key, items@[i as int].key, items@[i as int].key);
                            assert forall|j: int|
                                0 <= j < i + 1 && (#[trigger] items@[j]).within_reach implies stable_before(
                                    items@[i as int].key,
                                    items@[j].key,
                                ) && (j < i ==> !stable_before(items@[j].key, items@[i as int].key)) by {
                                if j < i {
                                    lemma_stable_order(items@[i as int].key, items@[k as int].key, items@[j].key);
                                    lemma_stable_order(items@[j].key, items@[i as int].key, items@[k as int].key);
                                }
                            }
                        }
                        best = Some(i);
                    }
                },
                None => {
                    best = Some(i);
                },
            }
        }
        i = i + 1;
    }
    best
}

/// The carried item a drop takes, if any.
pub fn drop_choice(items: &Vec<CarriedItem>) -> (r: Option<usize>)
    ensures
        match r {
            Some(k) => is_drop_choice(items@, k as int),
            None => items@.len() == 0,
        },
{
    if items.len() == 0 {
        return None;
    }
    let mut k: usize = 0;
    let mut i: usize = 1;
    while i < items.len()
        invariant
            1 <= i <= items@.len(),
            k < i,
            forall|j: int|
                0 <= j < i ==> drop_before(items@[k as int], #[trigger] items@[j]) && (j < k ==> !drop_before(
                    items@[j],
                    items@[k as int],
                )),
        decreases items@.len() - i,
    {
        let a = items[k];
        let b = items[i];
        let before = a.letter < b.letter || (a.letter == b.letter && stable_before_exec(&a.key, &b.key));
        if !before {
            proof {
                lemma_stable_order(a.key, b.key, b.key);
                assert forall|j: int|
                    0 <= j < i + 1 implies drop_before(b, #[trigger] items@[j]) && (j < i ==> !drop_before(
                        items@[j],
                        b,
                    )) by {
                    if j < i {
                        lemma_stable_order(b.key, a.key, items@[j].key);
                        lemma_stable_order(items@[j].key, b.key, a.key);
                    }
                }
            }
            k = i;
        }
        i = i + 1;
    }
    Some(k)
}

/// Whether an action finds an item: Drop with something carried, Pickup
/// with a ground item within reach.
pub open spec fn finds_item(a: GameAction, ground: Seq<GroundItem>, carried: Seq<CarriedItem>) -> bool {
    (a == GameAction::Drop && carried.len() > 0) || (a == GameAction::Pickup && exists|j: int|
        0 <= j < ground.len() && (#[trigger] ground[j]).within_reach)
}

/// Action `i` is the first of the actions that finds an item.
pub open spec fn first_finding(
    actions: Seq<GameAction>,
    i: int,
    ground: Seq<GroundItem>,
    carried: Seq<CarriedItem>,
) -> bool {
    &&& 0 <= i < actions.len()
    &&& finds_item(actions[i], ground, carried)
    &&& forall|a: int| 0 <= a < i ==> !finds_item(#[trigger] actions[a], ground, carried)
}

/// The intent the pickup and drop keys declare this frame: the first of the
/// actions that finds an item decides (the preferred reachable ground item
/// for Pickup, the preferred carried item for Drop); nothing while an intent
/// is pending or without a player.
pub fn dev_pickup_drop(
    actions: &[GameAction],
    has_player: bool,
    intent_pending: bool,
    ground: &Vec<GroundItem>,
    carried: &Vec<CarriedItem>,
) -> (r: Option<ActionIntent>)
    ensures
        !has_player || intent_pending ==> r is None,
        has_player && !intent_pending ==> match r {
            Some(ActionIntent::Pickup { item }) => exists|i: int, k: int|
                first_finding(actions@, i, ground@, carried@) && actions@[i] == GameAction::Pickup
                    && is_pickup_choice(ground@, k) && ground@[k].key.entity == item,
            Some(ActionIntent::Drop { item }) => exists|i: int, k: int|
                first_finding(actions@, i, ground@, carried@) && actions@[i] == GameAction::Drop
                    && is_drop_choice(carried@, k) && carried@[k].key.entity == item,
            Some(_) => false,
            None => forall|i: int|
                0 <= i < actions@.len() ==> !finds_item(#[trigger] actions@[i], ground@, carried@),
        },
{
    if !has_player || intent_pending {
        return None;
    }
    let mut i: usize = 0;
    while i < actions.len()
        invariant
            i <= actions@.len(),
            has_player,
            !intent_pending,
            forall|a: int| 0 <= a < i ==> !finds_item(#[trigger] actions@[a], ground@, carried@),
        decreases actions@.len() - i,
    {
        match actions[i] {
            GameAction::Pickup => {
                match pickup_choice(ground) {
                    Some(k) => {
                        return Some(ActionIntent::Pickup { item: ground[k].key.entity });
                    },
                    None => {},
                }
            },
            GameAction::Drop => {
                match drop_choice(carried) {
                    Some(k) => {
                        return Some(ActionIntent::Drop { item: carried[k].key.entity });
                    },
                    None => {},
                }
            },
            _ => {},
        }
        i = i + 1;
    }
    None
}

// ---------------------------------------------------------------------------
// The item examine screen's keys
// ---------------------------------------------------------------------------

/// The intent a key of the examine screen declares for `item`.
pub open spec fn examine_intent(a: GameAction, item: u64, wielded_by_player: bool) -> Option<
    ActionIntent,
> {
    match a {
        GameAction::Drop => Some(ActionIntent::Drop { item }),
        GameAction::UseItem => Some(
            if wielded_by_player {
                ActionIntent::Stow { item }
            } else {
                ActionIntent::Wield { item }
            },
        ),
        GameAction::HotkeyPress(c) => if c == 'r' {
            Some(ActionIntent::ResumeCraft { craft: item })
        } else {
            None
        },
        _ => None,
    }
}

/// What the examine screen's keys do to an examined item, from the first
/// key on: Cancel closes the screen declaring nothing; Drop, Use or `r`
/// close it declaring their intent, unless an intent is pending, in which
/// case that key is passed over; other keys are passed over. Gives the
/// intent and whether the screen closed.
pub open spec fn examine_outcome(
    actions: Seq<GameAction>,
    item: u64,
    intent_pending: bool,
    wielded_by_player: bool,
) -> (Option<ActionIntent>, bool)
    decreases actions.len(),
{
    if actions.len() == 0 {
        (None, false)
    } else if actions[0] == GameAction::Cancel {
        (None, true)
    } else {
        match examine_intent(actions[0], item, wielded_by_player) {
            Some(intent) => if !intent_pending {
                (Some(intent), true)
            } else {
                examine_outcome(actions.drop_first(), item, intent_pending, wielded_by_player)
            },
            None => examine_outcome(actions.drop_first(), item, intent_pending, wielded_by_player),
        }
    }
}

/// What the examine screen's keys do (see [`examine_outcome`]): with an
/// examined item and a player, the outcome of the keys, the examined item
/// cleared when the screen closes; otherwise nothing. Returns the intent and
/// whether the screen closed.
pub fn examine_item_input(
    actions: &[GameAction],
    examined: &mut Option<u64>,
    has_player: bool,
    intent_pending: bool,
    wielded_by_player: bool,
) -> (r: (Option<ActionIntent>, bool))
    ensures
        old(examined).is_none() || !has_player ==> r == (None::<ActionIntent>, false)
            && *final(examined) == *old(examined),
        old(examined).is_some() && has_player ==> r == examine_outcome(
            actions@,
            old(examined).unwrap(),
            intent_pending,
            wielded_by_player,
        ),
        r.1 ==> *final(examined) is None,
        !r.1 ==> *final(examined) == *old(examined),
{
    let item = match *examined {
        Some(item) => item,
        None => return (None, false),
    };
    if !has_player {
        return (None, false);
    }
    let mut i: usize = 0;
    assert(actions@.skip(0) =~= actions@);
    while i < actions.len()
        invariant
            i <= actions@.len(),
            *examined == Some(item),
            has_player,
            *old(examined) == Some(item),
            examine_outcome(actions@, item, intent_pending, wielded_by_player) == examine_outcome(
                actions@.skip(i as int),
                item,
                intent_pending,
                wielded_by_player,
            ),
        decreases actions@.len() - i,
    {
        proof {
            let rest = actions@.skip(i as int);
            assert(rest[0] == actions@[i as int]);
            assert(rest.drop_first() =~= actions@.skip(i + 1));
        }
        let intent: Option<ActionIntent> = match actions[i] {
            GameAction::Cancel => {
                *examined = None;
                return (None, true);
            },
            GameAction::Drop => Some(ActionIntent::Drop { item }),
            GameAction::UseItem => Some(
                if wielded_by_player {
                    ActionIntent::Stow { item }
                } else {
                    ActionIntent::Wield { item }
                },
            ),
            GameAction::HotkeyPress(c) => if c == 'r' {
                Some(ActionIntent::ResumeCraft { craft: item })
            } else {
                None
            },
            _ => None,
        };
        assert(intent == examine_intent(actions@[i as int], old(examined).unwrap(), wielded_by_player));
        if intent.is_some() && !intent_pending {
            *examined = None;
            return (intent, true);
        }
        i = i + 1;
    }
    proof {
        assert(actions@.skip(i as int) =~= Seq::<GameAction>::empty());
    }
    (None, false)
}

/// The heading of the item details screen: the item type's id with
/// `— DETAILS`, and, for a stack of more than one, its size.
pub open spec fn examine_heading_text(type_id: Seq<char>, qty: u32) -> (Seq<char>, Option<Seq<char>>) {
    (type_id + " — DETAILS"@, if qty > 1 {
        Some("Stack:  "@ + digits(qty as nat, 10))
    } else {
        None
    })
}

/// The heading of the item details screen.
pub fn examine_heading(type_id: &str, qty: u32) -> (r: (String, Option<String>))
    ensures
        r.0@ == examine_heading_text(type_id@, qty).0,
        match r.1 {
            Some(s) => examine_heading_text(type_id@, qty).1 == Some(s@),
            None => examine_heading_text(type_id@, qty).1 is None,
        },
{
    let mut title = String::from_str(type_id);
    title.append(" — DETAILS");
    let stack = if qty > 1 {
        let mut line = String::from_str("Stack:  ");
        line.append(decimal(qty as u64).as_str());
        Some(line)
    } else {
        None
    };
    (title, stack)
}

} // verus!
