//! What the crafting menu shows: the recipe rows, the detail panel of the
//! focused recipe, and the filter bar.
use vstd::prelude::*;
use crate::crafting::CraftEntry;
use crate::dev_spawn::filter_bar_text;
use crate::registry::RowInk;
use crate::text::{decimal, digits};

verus! {

/// The count suffix of a result made more than once: `  x{count}`.
pub open spec fn count_suffix(count: u32) -> Seq<char> {
    if count > 1 {
        "  x"@ + digits(count as nat, 10)
    } else {
        Seq::empty()
    }
}

/// A row of the recipe list: `[+]` for craftable (`[-]` otherwise), the
/// result name and, for more than one, the count.
pub open spec fn recipe_label_text(e: CraftEntry) -> Seq<char> {
    (if e.craftable {
        "[+] "@
    } else {
        "[-] "@
    }) + e.result_name@ + count_suffix(e.result_count)
}

fn count_suffix_exec(count: u32) -> (r: String)
    ensures
        r@ == count_suffix(count),
{
    if count > 1 {
        let mut out = String::from_str("  x");
        out.append(decimal(count as u64).as_str());
        out
    } else {
        String::new()
    }
}

/// The label of a row of the recipe list.
pub fn recipe_row_label(e: &CraftEntry) -> (r: String)
    ensures
        r@ == recipe_label_text(*e),
{
    let mut out = if e.craftable {
        String::from_str("[+] ")
    } else {
        String::from_str("[-] ")
    };
    out.append(e.result_name.as_str());
    out.append(count_suffix_exec(e.result_count).as_str());
    out
}

/// The id cell of a row of the recipe list: `  [{id}]`.
pub fn recipe_id_cell(e: &CraftEntry) -> (r: String)
    ensures
        r@ == "  ["@ + e.result_id@ + "]"@,
{
    let mut out = String::from_str("  [");
    out.append(e.result_id.as_str());
    out.append("]");
    out
}

/// The highlighted row of a list of `total`: the focus, kept within it.
pub fn highlighted_row(focus: usize, total: usize) -> (r: usize)
    ensures
        r == if total == 0 {
            0
        } else if focus < total - 1 {
            focus
        } else {
            (total - 1) as usize
        },
{
    if total == 0 {
        0
    } else if focus < total - 1 {
        focus
    } else {
        total - 1
    }
}

/// The detail panel, top to bottom: the title and id, whether it can be
/// crafted and how long it takes, the components (or a note that there are
/// none), the tool qualities if any, why it cannot be crafted, and the last
/// craft message; or a prompt when no recipe is focused.
pub open spec fn detail_text_lines(e: Option<CraftEntry>, message: Option<Seq<char>>) -> Seq<Seq<char>> {
    match e {
        None => seq!["Select a recipe"@],
        Some(e) => {
            let comps = e.components_text@.map_values(|s: String| s@);
            let quals = e.qualities_text@.map_values(|s: String| s@);
            seq![e.result_name@ + count_suffix(e.result_count), "["@ + e.result_id@ + "]"@]
                + (if e.craftable { seq!["Craftable: YES"@] } else { seq![] })
                + (if e.time_turns > 0 {
                seq!["Time: "@ + digits(e.time_turns as nat, 10) + " turns"@]
            } else {
                seq![]
            }) + seq!["Components:"@] + (if comps.len() == 0 { seq!["  (none)"@] } else { comps })
                + (if quals.len() > 0 { seq!["Tool qualities:"@] + quals } else { seq![] })
                + (if !e.craftable { seq!["Cannot craft: "@ + e.reason@] } else { seq![] })
                + match message {
                Some(m) => seq![m],
                None => seq![],
            }
        },
    }
}

fn push_line(out: &mut Vec<String>, line: String)
    ensures
        final(out)@.map_values(|s: String| s@) == old(out)@.map_values(|s: String| s@).push(line@),
{
    out.push(line);
    assert(final(out)@.map_values(|s: String| s@) =~= old(out)@.map_values(|s: String| s@).push(line@));
}

fn push_all(out: &mut Vec<String>, lines: &Vec<String>)
    ensures
        final(out)@.map_values(|s: String| s@) == old(out)@.map_values(|s: String| s@) + lines@.map_values(
            |s: String| s@,
        ),
{
    let ghost start = out@.map_values(|s: String| s@);
    let mut i: usize = 0;
    while i < lines.len()
        invariant
            i <= lines@.len(),
            out@.map_values(|s: String| s@) == start + lines@.map_values(|s: String| s@).take(i as int),
        decreases lines@.len() - i,
    {
        push_line(out, lines[i].clone());
        assert(lines@.map_values(|s: String| s@).take(i + 1) =~= lines@.map_values(|s: String| s@).take(
            i as int,
        ).push(lines@[i as int]@));
        i = i + 1;
    }
    assert(lines@.map_values(|s: String| s@).take(i as int) =~= lines@.map_values(|s: String| s@));
}

/// The texts of the detail panel.
pub fn recipe_detail_lines(e: Option<&CraftEntry>, message: &Option<String>) -> (r: Vec<String>)
    ensures
        r@.map_values(|s: String| s@) == detail_text_lines(
            match e { Some(x) => Some(*x), None => None },
            match message { Some(m) => Some(m@), None => None },
        ),
{
    let mut out: Vec<String> = Vec::new();
    match e {
        None => {
            push_line(&mut out, String::from_str("Select a recipe"));
            assert(out@.map_values(|s: String| s@) =~= seq!["Select a recipe"@]);
        },
        Some(e) => {
            let ghost v0 = out@.map_values(|s: String| s@);
            let mut title = e.result_name.clone();
            title.append(count_suffix_exec(e.result_count).as_str());
            push_line(&mut out, title);
            let mut id = String::from_str("[");
            id.append(e.result_id.as_str());
            id.append("]");
            push_line(&mut out, id);
            let ghost v1 = out@.map_values(|s: String| s@);
            if e.craftable {
                push_line(&mut out, String::from_str("Craftable: YES"));
            }
            let ghost v2 = out@.map_values(|s: String| s@);
            if e.time_turns > 0 {
                let mut t = String::from_str("Time: ");
                t.append(decimal(e.time_turns as u64).as_str());
                t.append(" turns");
                push_line(&mut out, t);
            }
            let ghost v3 = out@.map_values(|s: String| s@);
            push_line(&mut out, String::from_str("Components:"));
            if e.components_text.len() == 0 {
                push_line(&mut out, String::from_str("  (none)"));
            } else {
                push_all(&mut out, &e.components_text);
            }
            let ghost v4 = out@.map_values(|s: String| s@);
            if e.qualities_text.len() > 0 {
                push_line(&mut out, String::from_str("Tool qualities:"));
                push_all(&mut out, &e.qualities_text);
            }
            let ghost v5 = out@.map_values(|s: String| s@);
            if !e.craftable {
                let mut why = String::from_str("Cannot craft: ");
                why.append(e.reason.as_str());
                push_line(&mut out, why);
            }
            let ghost v6 = out@.map_values(|s: String| s@);
            match message {
                Some(m) => push_line(&mut out, m.clone()),
                None => {},
            }
            let ghost comps = e.components_text@.map_values(|s: String| s@);
            let ghost quals = e.qualities_text@.map_values(|s: String| s@);
            assert(v1 =~= seq![e.result_name@ + count_suffix(e.result_count), "["@ + e.result_id@ + "]"@]);
            assert(v2 =~= v1 + (if e.craftable { seq!["Craftable: YES"@] } else { seq![] }));
            assert(v3 =~= v2 + (if e.time_turns > 0 {
                seq!["Time: "@ + digits(e.time_turns as nat, 10) + " turns"@]
            } else {
                seq![]
            }));
            assert(v4 =~= v3 + seq!["Components:"@] + (if comps.len() == 0 { seq!["  (none)"@] } else { comps }));
            assert(v5 =~= v4 + (if quals.len() > 0 { seq!["Tool qualities:"@] + quals } else { seq![] }));
            assert(v6 =~= v5 + (if !e.craftable { seq!["Cannot craft: "@ + e.reason@] } else { seq![] }));
            assert(out@.map_values(|s: String| s@) =~= v6 + match message {
                Some(m) => seq![m@],
                None => Seq::<Seq<char>>::empty(),
            });
        },
    }
    out
}

/// The text of the crafting menu's filter bar (as the spawn panel's).
pub fn crafting_filter_text(filter: &str, filtering: bool) -> (r: String)
    ensures
        r@ == filter_bar_text(filter@, filtering),
{
    if filtering {
        let mut out = String::from_str("Filter: ");
        out.append(filter);
        out.append("_");
        out
    } else if filter.unicode_len() == 0 {
        String::from_str("[/] to filter")
    } else {
        let mut out = String::from_str("Filter: ");
        out.append(filter);
        out.append("  (Enter=close  Esc=clear)");
        out
    }
}

/// The row the recipe list shows when no recipe is listed.
pub fn empty_recipe_list_text(listed: usize) -> (r: Option<&'static str>)
    ensures
        listed == 0 ==> (r matches Some(t) && t@ == "No recipes in this category."@),
        listed > 0 ==> r is None,
{
    if listed == 0 {
        Some("No recipes in this category.")
    } else {
        None
    }
}

/// The item panel's text when the focused recipe's result has no
/// definition (or no recipe is focused).
pub fn item_info_placeholder(has_definition: bool) -> (r: Option<&'static str>)
    ensures
        !has_definition ==> (r matches Some(t) && t@ == "Item info"@),
        has_definition ==> r is None,
{
    if has_definition {
        None
    } else {
        Some("Item info")
    }
}

/// The index of the tab drawn active among `count` tabs when `selected` is
/// stored: the stored index, pulled back onto the last tab (0 when there
/// are none).
pub fn active_tab(selected: usize, count: usize) -> (r: usize)
    ensures
        count == 0 ==> r == 0,
        count > 0 ==> r == (if selected < count { selected as int } else { count - 1 }),
{
    if count == 0 {
        0
    } else if selected < count {
        selected
    } else {
        count - 1
    }
}

/// The background of a category tab.
#[derive(Clone, Copy, Debug, PartialEq, Eq, Structural)]
pub enum TabFill {
    /// The selection colour.
    Selection,
    /// The raised colour of the active top-level tab.
    Raised,
    /// No background.
    Clear,
}

/// The focus zone of the top-level category tabs.
pub const TOP_TAB_ZONE: usize = 1;

/// The look of tab `i` of the top-level row (`is_sub` false) or of the
/// subcategory row, when tab `active` is the active one and `zone` holds
/// the keyboard focus. An active top-level tab takes the selection colour
/// while its row has focus and the raised colour otherwise, with accent
/// text; an active subcategory tab always takes the selection colour, with
/// plain text; inactive tabs are clear with muted text.
pub open spec fn tab_style(is_sub: bool, i: int, active: int, zone: int) -> (TabFill, RowInk) {
    if i != active {
        (TabFill::Clear, RowInk::Muted)
    } else if is_sub {
        (TabFill::Selection, RowInk::Text)
    } else if zone == TOP_TAB_ZONE {
        (TabFill::Selection, RowInk::Accent)
    } else {
        (TabFill::Raised, RowInk::Accent)
    }
}

/// The look of a category tab of the crafting menu.
pub fn category_tab_style(is_sub: bool, i: usize, active: usize, zone: usize) -> (r: (TabFill, RowInk))
    ensures
        r == tab_style(is_sub, i as int, active as int, zone as int),
{
    if i != active {
        (TabFill::Clear, RowInk::Muted)
    } else if is_sub {
        (TabFill::Selection, RowInk::Text)
    } else if zone == TOP_TAB_ZONE {
        (TabFill::Selection, RowInk::Accent)
    } else {
        (TabFill::Raised, RowInk::Accent)
    }
}

} // verus!
