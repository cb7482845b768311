//! The tileset model: which sheet directory each `tile_info.json` entry
//! names, the per-sheet sprite metadata, the sprite chosen by a tile
//! manifest, and the registry from entity ids to tiles with its fallback and
//! overmap-suffix lookup.
use vstd::prelude::*;
use crate::json::{JsonValue, json_parse, str_eq, parse_json, get_member, get_field, get_u64, get_i64, get_bool, as_str, as_u64, as_i64, as_bool, as_object, member, field, opt_u64, opt_i64, opt_bool, opt_str};
use crate::text::{chars_of, ends_with, find, find_from, is_suffix, string_of};

verus! {

// ---------------------------------------------------------------------------
// Sheet directories
// ---------------------------------------------------------------------------

/// The `pngs_*` directory of a `tile_info.json` sheet file name.
pub open spec fn sheet_dir_of(name: Seq<char>) -> Option<Seq<char>> {
    if name == "normal.png"@ {
        Some("pngs_normal_32x32"@)
    } else if name == "small.png"@ {
        Some("pngs_small_20x20"@)
    } else if name == "tall.png"@ {
        Some("pngs_tall_32x64"@)
    } else if name == "human_body.png"@ {
        Some("pngs_human_body_32x36"@)
    } else if name == "human_body_plus.png"@ {
        Some("pngs_human_body_plus_32x48"@)
    } else if name == "centered.png"@ {
        Some("pngs_centered_64x64"@)
    } else if name == "large.png"@ {
        Some("pngs_large_64x64"@)
    } else if name == "large_ridden.png"@ {
        Some("pngs_large_ridden_64x64"@)
    } else if name == "huge.png"@ {
        Some("pngs_huge_64x96"@)
    } else if name == "giant.png"@ {
        Some("pngs_giant_96x96"@)
    } else if name == "incomplete_small.png"@ {
        Some("pngs_incomplete_small_20x20"@)
    } else if name == "incomplete.png"@ {
        Some("pngs_incomplete_32x32"@)
    } else if name == "incomplete_tall.png"@ {
        Some("pngs_incomplete_tall_32x64"@)
    } else if name == "incomplete_body_plus.png"@ {
        Some("pngs_incomplete_body_plus_32x48"@)
    } else if name == "incomplete_large.png"@ {
        Some("pngs_incomplete_large_64x64"@)
    } else if name == "incomplete_giant.png"@ {
        Some("pngs_incomplete_giant_96x96"@)
    } else if name == "fillerhoder.png"@ {
        Some("pngs_fillerhoder_32x32"@)
    } else if name == "filler.png"@ {
        Some("pngs_filler_32x32"@)
    } else if name == "filler_tall.png"@ {
        Some("pngs_filler_tall_32x64"@)
    } else if name == "fillergiant.png"@ {
        Some("pngs_fillergiant_96x96"@)
    } else {
        None
    }
}

/// The `pngs_*` directory of a `tile_info.json` sheet file name.
pub fn sheet_dir(filename: &str) -> (r: Option<&'static str>)
    ensures
        match r {
            Some(d) => sheet_dir_of(filename@) == Some(d@),
            None => sheet_dir_of(filename@) is None,
        },
{
    if str_eq(filename, "normal.png") {
        Some("pngs_normal_32x32")
    } else if str_eq(filename, "small.png") {
        Some("pngs_small_20x20")
    } else if str_eq(filename, "tall.png") {
        Some("pngs_tall_32x64")
    } else if str_eq(filename, "human_body.png") {
        Some("pngs_human_body_32x36")
    } else if str_eq(filename, "human_body_plus.png") {
        Some("pngs_human_body_plus_32x48")
    } else if str_eq(filename, "centered.png") {
        Some("pngs_centered_64x64")
    } else if str_eq(filename, "large.png") {
        Some("pngs_large_64x64")
    } else if str_eq(filename, "large_ridden.png") {
        Some("pngs_large_ridden_64x64")
    } else if str_eq(filename, "huge.png") {
        Some("pngs_huge_64x96")
    } else if str_eq(filename, "giant.png") {
        Some("pngs_giant_96x96")
    } else if str_eq(filename, "incomplete_small.png") {
        Some("pngs_incomplete_small_20x20")
    } else if str_eq(filename, "incomplete.png") {
        Some("pngs_incomplete_32x32")
    } else if str_eq(filename, "incomplete_tall.png") {
        Some("pngs_incomplete_tall_32x64")
    } else if str_eq(filename, "incomplete_body_plus.png") {
        Some("pngs_incomplete_body_plus_32x48")
    } else if str_eq(filename, "incomplete_large.png") {
        Some("pngs_incomplete_large_64x64")
    } else if str_eq(filename, "incomplete_giant.png") {
        Some("pngs_incomplete_giant_96x96")
    } else if str_eq(filename, "fillerhoder.png") {
        Some("pngs_fillerhoder_32x32")
    } else if str_eq(filename, "filler.png") {
        Some("pngs_filler_32x32")
    } else if str_eq(filename, "filler_tall.png") {
        Some("pngs_filler_tall_32x64")
    } else if str_eq(filename, "fillergiant.png") {
        Some("pngs_fillergiant_96x96")
    } else {
        None
    }
}

// ---------------------------------------------------------------------------
// Overmap-terrain suffixes
// ---------------------------------------------------------------------------

/// Direction suffixes of overmap-terrain ids, in the order they are tried.
pub open spec fn direction_suffixes() -> Seq<Seq<char>> {
    seq![
        "_north"@,
        "_south"@,
        "_east"@,
        "_west"@,
        "_ne"@,
        "_nw"@,
        "_se"@,
        "_sw"@,
        "_n"@,
        "_s"@,
        "_e"@,
        "_w"@,
    ]
}

/// The index of the first direction suffix from `k` on that ends `id`.
pub open spec fn first_direction(id: Seq<char>, k: int) -> Option<int>
    decreases 12 - k,
{
    if k < 0 || k >= 12 {
        None
    } else if is_suffix(direction_suffixes()[k], id) {
        Some(k)
    } else {
        first_direction(id, k + 1)
    }
}

/// `id` with its trailing direction component removed, if it has one.
pub open spec fn without_direction(id: Seq<char>) -> Option<Seq<char>> {
    match first_direction(id, 0) {
        Some(k) => Some(id.take(id.len() - direction_suffixes()[k].len())),
        None => None,
    }
}

/// The index of the last `_` in `s`, if any.
pub open spec fn last_underscore(s: Seq<char>) -> Option<int>
    decreases s.len(),
{
    if s.len() == 0 {
        None
    } else if s.last() == '_' {
        Some(s.len() - 1)
    } else {
        last_underscore(s.drop_last())
    }
}

/// A non-empty run of ASCII digits.
pub open spec fn all_digits(s: Seq<char>) -> bool {
    s.len() > 0 && forall|i: int| 0 <= i < s.len() ==> '0' <= #[trigger] s[i] && s[i] <= '9'
}

/// `s` with every trailing `_<digits>` component removed.
pub open spec fn without_index_groups(s: Seq<char>) -> Seq<char>
    decreases s.len(),
{
    match last_underscore(s) {
        Some(p) => if 0 <= p < s.len() && all_digits(s.skip(p + 1)) {
            without_index_groups(s.take(p))
        } else {
            s
        },
        None => s,
    }
}

/// The base id of an overmap-terrain id `{base}[_{index}]*[_{direction}]`,
/// when there is a suffix to strip.
pub open spec fn omt_base(id: Seq<char>) -> Option<Seq<char>> {
    let s1 = match without_direction(id) {
        Some(s) => s,
        None => id,
    };
    let s2 = without_index_groups(s1);
    if without_direction(id) is Some || s2.len() < s1.len() {
        Some(s2)
    } else {
        None
    }
}

proof fn lemma_last_underscore(s: Seq<char>)
    ensures
        match last_underscore(s) {
            Some(p) => 0 <= p < s.len() && s[p] == '_' && forall|i: int|
                p < i < s.len() ==> s[i] != '_',
            None => forall|i: int| 0 <= i < s.len() ==> s[i] != '_',
        },
    decreases s.len(),
{
    if s.len() > 0 {
        lemma_last_underscore(s.drop_last());
        assert forall|i: int| 0 <= i < s.len() - 1 implies s.drop_last()[i] == s[i] by {}
    }
}

proof fn lemma_without_index_groups_len(s: Seq<char>)
    ensures
        without_index_groups(s).len() <= s.len(),
    decreases s.len(),
{
    lemma_last_underscore(s);
    match last_underscore(s) {
        Some(p) => if 0 <= p < s.len() && all_digits(s.skip(p + 1)) {
            lemma_without_index_groups_len(s.take(p));
        },
        None => {},
    }
}

fn direction_suffix(k: usize) -> (r: &'static str)
    requires
        k < 12,
    ensures
        r@ == direction_suffixes()[k as int],
{
    if k == 0 {
        "_north"
    } else if k == 1 {
        "_south"
    } else if k == 2 {
        "_east"
    } else if k == 3 {
        "_west"
    } else if k == 4 {
        "_ne"
    } else if k == 5 {
        "_nw"
    } else if k == 6 {
        "_se"
    } else if k == 7 {
        "_sw"
    } else if k == 8 {
        "_n"
    } else if k == 9 {
        "_s"
    } else if k == 10 {
        "_e"
    } else {
        "_w"
    }
}

/// Strips overmap-terrain variant suffixes to get the base tile id:
/// `"barn_0_south"` gives `"barn"`, `"abstorefront_1"` gives
/// `"abstorefront"`; `None` when there is nothing to strip.
pub fn strip_omt_suffix(id: &str) -> (r: Option<String>)
    ensures
        match r {
            Some(b) => omt_base(id@) == Some(b@),
            None => omt_base(id@) is None,
        },
{
    let chars = chars_of(id);
    let mut end: usize = chars.len();
    let mut stripped = false;
    let mut k: usize = 0;
    while k < 12
        invariant_except_break
            chars@ == id@,
            k <= 12,
            end == chars@.len(),
            !stripped,
            first_direction(id@, 0) == first_direction(id@, k as int),
        ensures
            chars@ == id@,
            stripped ==> k < 12 && first_direction(id@, 0) == Some(k as int) && end
                == chars@.len() - direction_suffixes()[k as int].len(),
            !stripped ==> first_direction(id@, 0) is None && end == chars@.len(),
        decreases 12 - k,
    {
        let suffix = chars_of(direction_suffix(k));
        if ends_with(chars.as_slice(), suffix.as_slice()) {
            end = chars.len() - suffix.len();
            stripped = true;
            break;
        }
        k = k + 1;
    }
    let ghost s1 = chars@.take(end as int);
    proof {
        if !stripped {
            assert(s1 =~= id@);
        }
    }
    let ghost before_groups = end;
    // Trailing `_<digits>` components.
    loop
        invariant_except_break
            chars@ == id@,
            end <= chars@.len(),
            end <= before_groups,
            without_index_groups(s1) == without_index_groups(chars@.take(end as int)),
            s1 == chars@.take(before_groups as int),
            stripped == (without_direction(id@) is Some || end < before_groups),
        ensures
            end <= before_groups,
            end <= chars@.len(),
            without_index_groups(s1) == chars@.take(end as int),
            stripped == (without_direction(id@) is Some || end < before_groups),
        decreases end,
    {
        let ghost cur = chars@.take(end as int);
        let mut p: usize = end;
        let mut found = false;
        while p > 0
            invariant_except_break
                p <= end,
                end <= chars@.len(),
                !found,
                forall|i: int| p <= i < end ==> chars@[i] != '_',
            ensures
                p <= end,
                found ==> p > 0 && chars@[p - 1] == '_',
                forall|i: int| p <= i < end ==> chars@[i] != '_',
                !found ==> p == 0,
            decreases p,
        {
            if chars[p - 1] == '_' {
                found = true;
                break;
            }
            p = p - 1;
        }
        proof {
            lemma_last_underscore(cur);
        }
        if !found {
            proof {
                if last_underscore(cur) is Some {
                    let q = last_underscore(cur).unwrap();
                    assert(cur[q] == '_');
                }
                assert(without_index_groups(cur) == cur);
            }
            break;
        }
        let pos = p - 1;
        proof {
            assert(last_underscore(cur) == Some(pos as int)) by {
                let q = last_underscore(cur).unwrap();
                if q < pos {
                    assert(cur[pos as int] == '_');
                }
                if q > pos {
                    assert(chars@[q] != '_');
                }
            }
        }
        let mut j: usize = pos + 1;
        let mut digits_only = pos + 1 < end;
        while j < end
            invariant
                pos + 1 <= j <= end,
                end <= chars@.len(),
                digits_only ==> pos + 1 < end,
                digits_only ==> forall|i: int| pos + 1 <= i < j ==> '0' <= #[trigger] chars@[i]
                    && chars@[i] <= '9',
                !digits_only ==> (pos + 1 == end || exists|i: int|
                    pos + 1 <= i < end && !('0' <= #[trigger] chars@[i] && chars@[i] <= '9')),
            decreases end - j,
        {
            let c = chars[j];
            if !('0' <= c && c <= '9') {
                digits_only = false;
            }
            j = j + 1;
        }
        proof {
            let after = cur.skip(pos + 1);
            if digits_only {
                assert forall|i: int| 0 <= i < after.len() implies '0' <= #[trigger] after[i]
                    && after[i] <= '9' by {
                    assert(after[i] == chars@[pos + 1 + i]);
                }
                assert(all_digits(after));
            } else {
                if all_digits(after) {
                    if pos + 1 < end {
                        let i = choose|i: int|
                            pos + 1 <= i < end && !('0' <= #[trigger] chars@[i] && chars@[i]
                                <= '9');
                        assert(after[i - pos - 1] == chars@[i]);
                    }
                }
                assert(without_index_groups(cur) == cur);
            }
        }
        if !digits_only {
            break;
        }
        proof {
            assert(cur.take(pos as int) =~= chars@.take(pos as int));
        }
        end = pos;
        stripped = true;
    }
    proof {
        lemma_without_index_groups_len(s1);
    }
    if stripped {
        let base = string_of(vstd::slice::slice_subrange(chars.as_slice(), 0, end));
        assert(base@ =~= chars@.take(end as int));
        Some(base)
    } else {
        None
    }
}

// ---------------------------------------------------------------------------
// Manifest entries
// ---------------------------------------------------------------------------

/// The weight of a weighted sprite variant (`0` when absent).
pub open spec fn variant_weight(o: Seq<(String, JsonValue)>) -> i64 {
    match opt_i64(member(o, "weight"@)) {
        Some(w) => w,
        None => 0,
    }
}

/// The objects among `arr`, in order.
pub open spec fn objects_in(arr: Seq<JsonValue>) -> Seq<Seq<(String, JsonValue)>>
    decreases arr.len(),
{
    if arr.len() == 0 {
        Seq::empty()
    } else {
        match as_object(arr.last()) {
            Some(o) => objects_in(arr.drop_last()).push(o),
            None => objects_in(arr.drop_last()),
        }
    }
}

/// The heaviest variant; among equally heavy ones the last (as
/// `Iterator::max_by_key` picks).
pub open spec fn heaviest(objs: Seq<Seq<(String, JsonValue)>>) -> Option<
    Seq<(String, JsonValue)>,
>
    decreases objs.len(),
{
    if objs.len() == 0 {
        None
    } else {
        match heaviest(objs.drop_last()) {
            Some(b) => if variant_weight(objs.last()) >= variant_weight(b) {
                Some(objs.last())
            } else {
                Some(b)
            },
            None => Some(objs.last()),
        }
    }
}

/// The primary foreground sprite of an `fg` value: a non-empty plain string;
/// the first entry of a rotation array of strings; or the `sprite` of the
/// heaviest entry of an array of weighted variants.
pub open spec fn primary_sprite(fg: JsonValue) -> Option<Seq<char>> {
    match fg {
        JsonValue::String(s) => if s@.len() > 0 {
            Some(s@)
        } else {
            None
        },
        JsonValue::Array(arr) => if arr@.len() > 0 {
            match arr@[0] {
                JsonValue::String(s) => Some(s@),
                JsonValue::Object(_) => match heaviest(objects_in(arr@)) {
                    Some(o) => opt_str(member(o, "sprite"@)),
                    None => None,
                },
                _ => None,
            }
        } else {
            None
        },
        _ => None,
    }
}

fn weight_exec(o: &Vec<(String, JsonValue)>) -> (w: i64)
    ensures
        w == variant_weight(o@),
{
    match get_i64(get_member(o, "weight")) {
        Some(w) => w,
        None => 0,
    }
}

/// The primary foreground sprite name of an `fg` value.
pub fn primary_sprite_name(fg: &JsonValue) -> (r: Option<String>)
    ensures
        match r {
            Some(n) => primary_sprite(*fg) == Some(n@),
            None => primary_sprite(*fg) is None,
        },
{
    match fg {
        JsonValue::String(s) => {
            if s.as_str().unicode_len() > 0 {
                Some(s.clone())
            } else {
                None
            }
        },
        JsonValue::Array(arr) => {
            if arr.len() == 0 {
                return None;
            }
            match &arr[0] {
                JsonValue::String(s) => Some(s.clone()),
                JsonValue::Object(_) => {
                    let mut best: Option<&Vec<(String, JsonValue)>> = None;
                    let mut best_weight: i64 = 0;
                    let mut i: usize = 0;
                    while i < arr.len()
                        invariant
                            i <= arr@.len(),
                            match best {
                                Some(b) => heaviest(objects_in(arr@.take(i as int))) == Some(b@)
                                    && best_weight == variant_weight(b@),
                                None => heaviest(objects_in(arr@.take(i as int))) is None,
                            },
                        decreases arr@.len() - i,
                    {
                        proof {
                            assert(arr@.take(i + 1).drop_last() =~= arr@.take(i as int));
                            assert(arr@.take(i + 1).last() == arr@[i as int]);
                        }
                        let ghost objs = objects_in(arr@.take(i as int));
                        match &arr[i] {
                            JsonValue::Object(o) => {
                                proof {
                                    assert(objects_in(arr@.take(i + 1)) == objs.push(o@));
                                    assert(objs.push(o@).drop_last() =~= objs);
                                }
                                let w = weight_exec(o);
                                match best {
                                    Some(_) => {
                                        if w >= best_weight {
                                            best = Some(o);
                                            best_weight = w;
                                        }
                                    },
                                    None => {
                                        best = Some(o);
                                        best_weight = w;
                                    },
                                }
                            },
                            _ => {},
                        }
                        i = i + 1;
                    }
                    assert(arr@.take(arr@.len() as int) =~= arr@);
                    match best {
                        Some(o) => match get_member(o, "sprite") {
                            Some(JsonValue::String(s)) => Some(s.clone()),
                            _ => None,
                        },
                        None => None,
                    }
                },
                _ => None,
            }
        },
        _ => None,
    }
}

/// The strings among `arr`, in order.
pub open spec fn strings_in(arr: Seq<JsonValue>) -> Seq<Seq<char>>
    decreases arr.len(),
{
    if arr.len() == 0 {
        Seq::empty()
    } else {
        match as_str(arr.last()) {
            Some(s) => strings_in(arr.drop_last()).push(s),
            None => strings_in(arr.drop_last()),
        }
    }
}

/// The entity ids an `id` value names: a string, or the strings of an array.
pub open spec fn ids_named(v: JsonValue) -> Seq<Seq<char>> {
    match v {
        JsonValue::String(s) => seq![s@],
        JsonValue::Array(arr) => strings_in(arr@),
        _ => Seq::empty(),
    }
}

/// The entity ids an `id` value names.
pub fn extract_ids(id_val: &JsonValue) -> (r: Vec<String>)
    ensures
        r@.map_values(|s: String| s@) == ids_named(*id_val),
{
    let mut out: Vec<String> = Vec::new();
    match id_val {
        JsonValue::String(s) => {
            out.push(s.clone());
            assert(out@.map_values(|s: String| s@) =~= ids_named(*id_val));
        },
        JsonValue::Array(arr) => {
            let mut i: usize = 0;
            while i < arr.len()
                invariant
                    i <= arr@.len(),
                    out@.map_values(|s: String| s@) == strings_in(arr@.take(i as int)),
                decreases arr@.len() - i,
            {
                proof {
                    assert(arr@.take(i + 1).drop_last() =~= arr@.take(i as int));
                    assert(arr@.take(i + 1).last() == arr@[i as int]);
                }
                match &arr[i] {
                    JsonValue::String(s) => {
                        let ghost before = out@;
                        out.push(s.clone());
                        assert(out@.map_values(|s: String| s@) =~= before.map_values(
                            |s: String| s@,
                        ).push(s@));
                    },
                    _ => {},
                }
                i = i + 1;
            }
            assert(arr@.take(arr@.len() as int) =~= arr@);
        },
        _ => {
            assert(out@.map_values(|s: String| s@) =~= Seq::<Seq<char>>::empty());
        },
    }
    out
}

// ---------------------------------------------------------------------------
// tile_info.json
// ---------------------------------------------------------------------------

/// Per-sheet metadata from `tile_info.json`.
#[derive(Clone, Debug)]
pub struct SheetDef {
    /// Directory under the tileset, e.g. `"pngs_normal_32x32"`.
    pub dir_name: String,
    pub sprite_width: u32,
    pub sprite_height: u32,
    pub offset_x: i32,
    pub offset_y: i32,
    pub is_filler: bool,
}

pub struct SheetDefView {
    pub dir_name: Seq<char>,
    pub sprite_width: u32,
    pub sprite_height: u32,
    pub offset_x: i32,
    pub offset_y: i32,
    pub is_filler: bool,
}

impl View for SheetDef {
    type V = SheetDefView;

    open spec fn view(&self) -> SheetDefView {
        SheetDefView {
            dir_name: self.dir_name@,
            sprite_width: self.sprite_width,
            sprite_height: self.sprite_height,
            offset_x: self.offset_x,
            offset_y: self.offset_y,
            is_filler: self.is_filler,
        }
    }
}

pub open spec fn or_u64(o: Option<u64>, d: u64) -> u64 {
    match o {
        Some(x) => x,
        None => d,
    }
}

pub open spec fn or_i64(o: Option<i64>, d: i64) -> i64 {
    match o {
        Some(x) => x,
        None => d,
    }
}

pub open spec fn or_bool(o: Option<bool>, d: bool) -> bool {
    match o {
        Some(x) => x,
        None => d,
    }
}

/// The sheet a `tile_info.json` member `name: props` defines, with the global
/// sprite size `(gw, gh)` as default; none for `fallback.png` and for names
/// of no known sheet.
pub open spec fn sheet_of_member(name: Seq<char>, props: JsonValue, gw: u32, gh: u32) -> Option<
    SheetDefView,
> {
    if name == "fallback.png"@ {
        None
    } else {
        match sheet_dir_of(name) {
            Some(d) => Some(
                SheetDefView {
                    dir_name: d,
                    sprite_width: or_u64(opt_u64(field(Some(props), "sprite_width"@)), gw as u64)
                        as u32,
                    sprite_height: or_u64(opt_u64(field(Some(props), "sprite_height"@)), gh as u64)
                        as u32,
                    offset_x: or_i64(opt_i64(field(Some(props), "sprite_offset_x"@)), 0) as i32,
                    offset_y: or_i64(opt_i64(field(Some(props), "sprite_offset_y"@)), 0) as i32,
                    is_filler: or_bool(opt_bool(field(Some(props), "filler"@)), false),
                },
            ),
            None => None,
        }
    }
}

pub open spec fn sheets_of_members(ms: Seq<(String, JsonValue)>, gw: u32, gh: u32) -> Seq<
    SheetDefView,
>
    decreases ms.len(),
{
    if ms.len() == 0 {
        Seq::empty()
    } else {
        match sheet_of_member(ms.last().0@, ms.last().1, gw, gh) {
            Some(d) => sheets_of_members(ms.drop_last(), gw, gh).push(d),
            None => sheets_of_members(ms.drop_last(), gw, gh),
        }
    }
}

pub open spec fn sheets_of_entries(es: Seq<JsonValue>, gw: u32, gh: u32) -> Seq<SheetDefView>
    decreases es.len(),
{
    if es.len() == 0 {
        Seq::empty()
    } else {
        match as_object(es.last()) {
            Some(m) => sheets_of_entries(es.drop_last(), gw, gh) + sheets_of_members(m, gw, gh),
            None => sheets_of_entries(es.drop_last(), gw, gh),
        }
    }
}

/// The sheets a `tile_info.json` document defines: its first entry gives the
/// global sprite size (32 by 32 by default), every later object maps sheet
/// file names to their properties. Anything but an array defines none.
pub open spec fn sheet_defs(doc: Option<JsonValue>) -> Seq<SheetDefView> {
    match doc {
        Some(JsonValue::Array(arr)) => {
            let first = if arr@.len() > 0 {
                Some(arr@[0])
            } else {
                None
            };
            let gw = or_u64(opt_u64(field(first, "width"@)), 32) as u32;
            let gh = or_u64(opt_u64(field(first, "height"@)), 32) as u32;
            if arr@.len() > 0 {
                sheets_of_entries(arr@.skip(1), gw, gh)
            } else {
                Seq::empty()
            }
        },
        _ => Seq::empty(),
    }
}

fn sheet_from_member(name: &String, props: &JsonValue, gw: u32, gh: u32) -> (r: Option<SheetDef>)
    ensures
        match r {
            Some(d) => sheet_of_member(name@, *props, gw, gh) == Some(d@),
            None => sheet_of_member(name@, *props, gw, gh) is None,
        },
{
    if str_eq(name.as_str(), "fallback.png") {
        return None;
    }
    let dir = match sheet_dir(name.as_str()) {
        Some(d) => d,
        None => return None,
    };
    let p = Some(props);
    let sw = match get_u64(get_field(p, "sprite_width")) {
        Some(x) => x,
        None => gw as u64,
    };
    let sh = match get_u64(get_field(p, "sprite_height")) {
        Some(x) => x,
        None => gh as u64,
    };
    let ox = match get_i64(get_field(p, "sprite_offset_x")) {
        Some(x) => x,
        None => 0,
    };
    let oy = match get_i64(get_field(p, "sprite_offset_y")) {
        Some(x) => x,
        None => 0,
    };
    let filler = match get_bool(get_field(p, "filler")) {
        Some(x) => x,
        None => false,
    };
    Some(
        SheetDef {
            dir_name: String::from_str(dir),
            sprite_width: sw as u32,
            sprite_height: sh as u32,
            offset_x: ox as i32,
            offset_y: oy as i32,
            is_filler: filler,
        },
    )
}

/// The sheets that the text of a `tile_info.json` defines.
pub fn parse_sheet_defs(content: &str) -> (r: Vec<SheetDef>)
    ensures
        r@.map_values(|d: SheetDef| d@) == sheet_defs(json_parse(content@)),
{
    let doc = parse_json(content);
    sheet_defs_of(&doc)
}

/// The sheets that a parsed `tile_info.json` defines (`None` when its text
/// is not JSON).
pub fn sheet_defs_of(doc: &Option<JsonValue>) -> (r: Vec<SheetDef>)
    ensures
        r@.map_values(|d: SheetDef| d@) == sheet_defs(*doc),
{
    let mut defs: Vec<SheetDef> = Vec::new();
    match doc {
        Some(JsonValue::Array(arr)) => {
            if arr.len() == 0 {
                assert(defs@.map_values(|d: SheetDef| d@) =~= Seq::<SheetDefView>::empty());
                return defs;
            }
            let first = Some(&arr[0]);
            let gw = match get_u64(get_field(first, "width")) {
                Some(x) => x,
                None => 32,
            } as u32;
            let gh = match get_u64(get_field(first, "height")) {
                Some(x) => x,
                None => 32,
            } as u32;
            let ghost rest = arr@.skip(1);
            let mut i: usize = 1;
            assert(rest.take(0) =~= Seq::<JsonValue>::empty());
            assert(defs@.map_values(|d: SheetDef| d@) =~= Seq::<SheetDefView>::empty());
            while i < arr.len()
                invariant
                    1 <= i <= arr@.len(),
                    rest == arr@.skip(1),
                    defs@.map_values(|d: SheetDef| d@) == sheets_of_entries(
                        rest.take(i - 1),
                        gw,
                        gh,
                    ),
                decreases arr@.len() - i,
            {
                proof {
                    assert(rest.take(i as int).drop_last() =~= rest.take(i - 1));
                    assert(rest.take(i as int).last() == arr@[i as int]);
                }
                match &arr[i] {
                    JsonValue::Object(m) => {
                        let ghost before = defs@.map_values(|d: SheetDef| d@);
                        let mut j: usize = 0;
                        assert(m@.take(0) =~= Seq::<(String, JsonValue)>::empty());
                        assert(before + sheets_of_members(m@.take(0), gw, gh) =~= before);
                        while j < m.len()
                            invariant
                                j <= m@.len(),
                                defs@.map_values(|d: SheetDef| d@) == before + sheets_of_members(
                                    m@.take(j as int),
                                    gw,
                                    gh,
                                ),
                            decreases m@.len() - j,
                        {
                            proof {
                                assert(m@.take(j + 1).drop_last() =~= m@.take(j as int));
                                assert(m@.take(j + 1).last() == m@[j as int]);
                            }
                            match sheet_from_member(&m[j].0, &m[j].1, gw, gh) {
                                Some(d) => {
                                    let ghost prev = defs@;
                                    defs.push(d);
                                    assert(defs@.map_values(|d: SheetDef| d@) =~= prev.map_values(
                                        |d: SheetDef| d@,
                                    ).push(d@));
                                },
                                None => {},
                            }
                            j = j + 1;
                        }
                        assert(m@.take(m@.len() as int) =~= m@);
                    },
                    _ => {},
                }
                i = i + 1;
            }
            assert(rest.take(arr@.len() - 1) =~= rest);
            defs
        },
        _ => {
            assert(defs@.map_values(|d: SheetDef| d@) =~= Seq::<SheetDefView>::empty());
            defs
        },
    }
}

// ---------------------------------------------------------------------------
// The registry
// ---------------------------------------------------------------------------

/// Per-tile rendering metadata: the asset path of the sprite image, its
/// pixel size, and its offset from the tile's top-left corner (CDDA's
/// convention; negative values extend past the tile).
#[derive(Clone, Debug)]
pub struct TileInfo {
    pub image: String,
    pub sprite_width: u32,
    pub sprite_height: u32,
    pub cdda_offset_x: i32,
    pub cdda_offset_y: i32,
}

pub struct TileInfoView {
    pub image: Seq<char>,
    pub sprite_width: u32,
    pub sprite_height: u32,
    pub cdda_offset_x: i32,
    pub cdda_offset_y: i32,
}

impl View for TileInfo {
    type V = TileInfoView;

    open spec fn view(&self) -> TileInfoView {
        TileInfoView {
            image: self.image@,
            sprite_width: self.sprite_width,
            sprite_height: self.sprite_height,
            cdda_offset_x: self.cdda_offset_x,
            cdda_offset_y: self.cdda_offset_y,
        }
    }
}

fn clone_info(t: &TileInfo) -> (r: TileInfo)
    ensures
        r@ == t@,
{
    TileInfo {
        image: t.image.clone(),
        sprite_width: t.sprite_width,
        sprite_height: t.sprite_height,
        cdda_offset_x: t.cdda_offset_x,
        cdda_offset_y: t.cdda_offset_y,
    }
}

/// Maps entity ids to tiles, with a fallback tile for ids it lacks.
#[derive(Clone, Debug)]
pub struct TileRegistry {
    tiles: Vec<(String, TileInfo)>,
    fallback: TileInfo,
}

/// The tile of `k` in a list of `(id, tile)` pairs: the first one for `k`.
pub open spec fn tile_in(s: Seq<(String, TileInfo)>, k: Seq<char>) -> Option<TileInfoView>
    decreases s.len(),
{
    if s.len() == 0 {
        None
    } else if s[0].0@ == k {
        Some(s[0].1@)
    } else {
        tile_in(s.drop_first(), k)
    }
}

/// The tile that `lookup` gives for `id`, with `fallback` for ids it lacks:
/// the exact id first, then the id without its overmap-terrain suffix.
pub open spec fn resolve_tile(
    lookup: spec_fn(Seq<char>) -> Option<TileInfoView>,
    fallback: TileInfoView,
    id: Seq<char>,
) -> TileInfoView {
    match lookup(id) {
        Some(t) => t,
        None => match omt_base(id) {
            Some(b) => match lookup(b) {
                Some(t) => t,
                None => fallback,
            },
            None => fallback,
        },
    }
}

/// Whether `lookup` has a real tile for `id` (exactly or by its base id).
pub open spec fn resolves(lookup: spec_fn(Seq<char>) -> Option<TileInfoView>, id: Seq<char>) -> bool {
    lookup(id) is Some || (omt_base(id) matches Some(b) && lookup(b) is Some)
}

proof fn lemma_tile_in_update(s: Seq<(String, TileInfo)>, i: int, x: (String, TileInfo), k: Seq<char>)
    requires
        0 <= i < s.len(),
        s[i].0@ == x.0@,
        forall|j: int| 0 <= j < i ==> s[j].0@ != x.0@,
    ensures
        tile_in(s.update(i, x), k) == if k == x.0@ {
            Some(x.1@)
        } else {
            tile_in(s, k)
        },
    decreases s.len(),
{
    let t = s.update(i, x);
    if i > 0 {
        assert(s[0].0@ != x.0@);
        assert(t[0] == s[0]);
        lemma_tile_in_update(s.drop_first(), i - 1, x, k);
        assert(t.drop_first() =~= s.drop_first().update(i - 1, x));
    } else {
        assert(t[0] == x);
        assert(t.drop_first() =~= s.drop_first());
    }
}

proof fn lemma_tile_in_push(s: Seq<(String, TileInfo)>, x: (String, TileInfo), k: Seq<char>)
    requires
        tile_in(s, x.0@) is None,
    ensures
        tile_in(s.push(x), k) == if k == x.0@ {
            Some(x.1@)
        } else {
            tile_in(s, k)
        },
    decreases s.len(),
{
    let t = s.push(x);
    if s.len() > 0 {
        assert(t[0] == s[0]);
        assert(s[0].0@ != x.0@);
        assert(tile_in(s, x.0@) == tile_in(s.drop_first(), x.0@));
        lemma_tile_in_push(s.drop_first(), x, k);
        assert(t.drop_first() =~= s.drop_first().push(x));
        if k != s[0].0@ {
            assert(tile_in(t, k) == tile_in(t.drop_first(), k));
            assert(tile_in(s, k) == tile_in(s.drop_first(), k));
        }
    } else {
        assert(t[0] == x);
        assert(t.drop_first() =~= Seq::<(String, TileInfo)>::empty());
    }
}

proof fn lemma_tile_in_absent(s: Seq<(String, TileInfo)>, k: Seq<char>)
    requires
        forall|j: int| 0 <= j < s.len() ==> s[j].0@ != k,
    ensures
        tile_in(s, k) is None,
    decreases s.len(),
{
    if s.len() > 0 {
        lemma_tile_in_absent(s.drop_first(), k);
    }
}

proof fn lemma_tile_in_at(s: Seq<(String, TileInfo)>, i: int, k: Seq<char>)
    requires
        0 <= i < s.len(),
        s[i].0@ == k,
        forall|j: int| 0 <= j < i ==> s[j].0@ != k,
    ensures
        tile_in(s, k) == Some(s[i].1@),
    decreases s.len(),
{
    if i > 0 {
        lemma_tile_in_at(s.drop_first(), i - 1, k);
    }
}

impl TileRegistry {
    /// The tile registered for `k`.
    pub closed spec fn entry(&self, k: Seq<char>) -> Option<TileInfoView> {
        tile_in(self.tiles@, k)
    }

    pub closed spec fn fallback_tile(&self) -> TileInfoView {
        self.fallback@
    }

    /// A registry with no tiles and the given fallback.
    pub fn new(fallback: TileInfo) -> (r: TileRegistry)
        ensures
            forall|k: Seq<char>| r.entry(k) is None,
            r.fallback_tile() == fallback@,
    {
        TileRegistry { tiles: Vec::new(), fallback }
    }

    fn position(&self, id: &str) -> (r: Option<usize>)
        ensures
            match r {
                Some(i) => i < self.tiles@.len() && self.tiles@[i as int].0@ == id@ && forall|
                    j: int,
                | 0 <= j < i ==> self.tiles@[j].0@ != id@,
                None => forall|j: int| 0 <= j < self.tiles@.len() ==> self.tiles@[j].0@ != id@,
            },
    {
        let mut i: usize = 0;
        while i < self.tiles.len()
            invariant
                i <= self.tiles@.len(),
                forall|j: int| 0 <= j < i ==> self.tiles@[j].0@ != id@,
            decreases self.tiles@.len() - i,
        {
            if str_eq(self.tiles[i].0.as_str(), id) {
                return Some(i);
            }
            i = i + 1;
        }
        None
    }

    /// Registers `info` for `id`, replacing what `id` had.
    pub fn insert(&mut self, id: String, info: TileInfo)
        ensures
            forall|k: Seq<char>| #[trigger]
                final(self).entry(k) == if k == id@ {
                    Some(info@)
                } else {
                    old(self).entry(k)
                },
            final(self).fallback_tile() == old(self).fallback_tile(),
    {
        let ghost s = self.tiles@;
        let ghost key = id@;
        let ghost x = (id, info);
        match self.position(id.as_str()) {
            Some(i) => {
                self.tiles.set(i, (id, info));
                proof {
                    assert forall|k: Seq<char>| #[trigger]
                        tile_in(self.tiles@, k) == if k == key {
                            Some(x.1@)
                        } else {
                            tile_in(s, k)
                        } by {
                        lemma_tile_in_update(s, i as int, x, k);
                    }
                }
            },
            None => {
                self.tiles.push((id, info));
                proof {
                    lemma_tile_in_absent(s, key);
                    assert forall|k: Seq<char>| #[trigger]
                        tile_in(self.tiles@, k) == if k == key {
                            Some(x.1@)
                        } else {
                            tile_in(s, k)
                        } by {
                        lemma_tile_in_push(s, x, k);
                    }
                }
            },
        }
    }

    fn lookup(&self, id: &str) -> (r: Option<&TileInfo>)
        ensures
            match r {
                Some(t) => self.entry(id@) == Some(t@),
                None => self.entry(id@) is None,
            },
    {
        match self.position(id) {
            Some(i) => {
                proof {
                    lemma_tile_in_at(self.tiles@, i as int, id@);
                }
                Some(&self.tiles[i].1)
            },
            None => {
                proof {
                    lemma_tile_in_absent(self.tiles@, id@);
                }
                None
            },
        }
    }

    /// The tile for an entity id: the exact id, else the id without its
    /// overmap-terrain suffix (`"barn_0_south"` looks up `"barn"`), else the
    /// fallback.
    pub fn tile_info(&self, id: &str) -> (r: &TileInfo)
        ensures
            r@ == resolve_tile(|k: Seq<char>| self.entry(k), self.fallback_tile(), id@),
    {
        match self.lookup(id) {
            Some(t) => t,
            None => match strip_omt_suffix(id) {
                Some(b) => match self.lookup(b.as_str()) {
                    Some(t) => t,
                    None => &self.fallback,
                },
                None => &self.fallback,
            },
        }
    }

    /// The sprite image of an entity id's tile.
    pub fn tile_for(&self, id: &str) -> (r: String)
        ensures
            r@ == resolve_tile(|k: Seq<char>| self.entry(k), self.fallback_tile(), id@).image,
    {
        self.tile_info(id).image.clone()
    }

    /// The sprite image of an overmap building's or terrain's tile.
    pub fn overmap_tile(&self, id: &str) -> (r: String)
        ensures
            r@ == resolve_tile(|k: Seq<char>| self.entry(k), self.fallback_tile(), id@).image,
    {
        self.tile_info(id).image.clone()
    }

    /// Whether a real (not fallback) tile exists for `id`.
    pub fn has_tile(&self, id: &str) -> (r: bool)
        ensures
            r == resolves(|k: Seq<char>| self.entry(k), id@),
    {
        if self.lookup(id).is_some() {
            return true;
        }
        match strip_omt_suffix(id) {
            Some(b) => self.lookup(b.as_str()).is_some(),
            None => false,
        }
    }
}

// ---------------------------------------------------------------------------
// Tile manifests
// ---------------------------------------------------------------------------

/// The path that a PNG index (file stem to path; the first one for a stem
/// wins) gives for `stem`.
pub open spec fn png_path(index: Seq<(String, String)>, stem: Seq<char>) -> Option<Seq<char>>
    decreases index.len(),
{
    if index.len() == 0 {
        None
    } else if index[0].0@ == stem {
        Some(index[0].1@)
    } else {
        png_path(index.drop_first(), stem)
    }
}

/// The asset path of a file path: from its first `gfx/` on.
pub open spec fn asset_path_of(path: Seq<char>) -> Option<Seq<char>> {
    match find_from(path, "gfx/"@, 0) {
        Some(i) => Some(path.skip(i)),
        None => None,
    }
}

/// The tile of an image on a sheet.
pub open spec fn sheet_tile(image: Seq<char>, sheet: SheetDefView) -> TileInfoView {
    TileInfoView {
        image,
        sprite_width: sheet.sprite_width,
        sprite_height: sheet.sprite_height,
        cdda_offset_x: sheet.offset_x,
        cdda_offset_y: sheet.offset_y,
    }
}

/// The `(id, tile)` registrations one manifest entry makes: every id it names
/// gets the sheet's tile of its primary sprite, when that sprite has an
/// image under `gfx/`.
pub open spec fn entry_tiles(e: JsonValue, sheet: SheetDefView, index: Seq<(String, String)>) -> Seq<
    (Seq<char>, TileInfoView),
> {
    match as_object(e) {
        Some(o) => match (member(o, "id"@), member(o, "fg"@)) {
            (Some(idv), Some(fg)) => match primary_sprite(fg) {
                Some(name) => match png_path(index, name) {
                    Some(path) => match asset_path_of(path) {
                        Some(image) => ids_named(idv).map_values(
                            |id: Seq<char>| (id, sheet_tile(image, sheet)),
                        ),
                        None => Seq::empty(),
                    },
                    None => Seq::empty(),
                },
                None => Seq::empty(),
            },
            _ => Seq::empty(),
        },
        None => Seq::empty(),
    }
}

/// The entries of a manifest: an array's elements, or the one object.
pub open spec fn manifest_entries(doc: Option<JsonValue>) -> Seq<JsonValue> {
    match doc {
        Some(JsonValue::Array(a)) => a@,
        Some(v) => seq![v],
        None => Seq::empty(),
    }
}

pub open spec fn entries_tiles(
    es: Seq<JsonValue>,
    sheet: SheetDefView,
    index: Seq<(String, String)>,
) -> Seq<(Seq<char>, TileInfoView)>
    decreases es.len(),
{
    if es.len() == 0 {
        Seq::empty()
    } else {
        entries_tiles(es.drop_last(), sheet, index) + entry_tiles(es.last(), sheet, index)
    }
}

/// The tile that the last registration of `k` in `regs` gives.
pub open spec fn last_tile(regs: Seq<(Seq<char>, TileInfoView)>, k: Seq<char>) -> Option<
    TileInfoView,
>
    decreases regs.len(),
{
    if regs.len() == 0 {
        None
    } else if regs.last().0 == k {
        Some(regs.last().1)
    } else {
        last_tile(regs.drop_last(), k)
    }
}

/// `k`'s tile after the registrations `regs` over `before`.
pub open spec fn after_regs(
    regs: Seq<(Seq<char>, TileInfoView)>,
    before: Option<TileInfoView>,
    k: Seq<char>,
) -> Option<TileInfoView> {
    match last_tile(regs, k) {
        Some(t) => Some(t),
        None => before,
    }
}

/// Every registration a manifest of a sheet makes carries that sheet's
/// sprite size and offsets: the horizontal offset as `cdda_offset_x`, the
/// vertical one as `cdda_offset_y`.
pub proof fn lemma_manifest_tiles_carry_sheet_geometry(
    es: Seq<JsonValue>,
    sheet: SheetDefView,
    index: Seq<(String, String)>,
)
    ensures
        forall|i: int|
            0 <= i < entries_tiles(es, sheet, index).len() ==> {
                let t = (#[trigger] entries_tiles(es, sheet, index)[i]).1;
                &&& t.cdda_offset_x == sheet.offset_x
                &&& t.cdda_offset_y == sheet.offset_y
                &&& t.sprite_width == sheet.sprite_width
                &&& t.sprite_height == sheet.sprite_height
            },
    decreases es.len(),
{
    if es.len() > 0 {
        lemma_manifest_tiles_carry_sheet_geometry(es.drop_last(), sheet, index);
        let a = entries_tiles(es.drop_last(), sheet, index);
        let b = entry_tiles(es.last(), sheet, index);
        assert forall|i: int| 0 <= i < b.len() implies {
            let t = (#[trigger] b[i]).1;
            &&& t.cdda_offset_x == sheet.offset_x
            &&& t.cdda_offset_y == sheet.offset_y
            &&& t.sprite_width == sheet.sprite_width
            &&& t.sprite_height == sheet.sprite_height
        } by {}
        assert forall|i: int| 0 <= i < (a + b).len() implies {
            let t = (#[trigger] (a + b)[i]).1;
            &&& t.cdda_offset_x == sheet.offset_x
            &&& t.cdda_offset_y == sheet.offset_y
            &&& t.sprite_width == sheet.sprite_width
            &&& t.sprite_height == sheet.sprite_height
        } by {
            if i < a.len() {
                assert((a + b)[i] == a[i]);
            } else {
                assert((a + b)[i] == b[i - a.len()]);
            }
        }
    }
}

proof fn lemma_last_tile_is_registered(regs: Seq<(Seq<char>, TileInfoView)>, k: Seq<char>)
    ensures
        last_tile(regs, k) matches Some(t) ==> exists|i: int| 0 <= i < regs.len() && (#[trigger] regs[i]).1 == t,
    decreases regs.len(),
{
    if regs.len() > 0 {
        lemma_last_tile_is_registered(regs.drop_last(), k);
        if regs.last().0 == k {
            assert(regs[regs.len() - 1].1 == regs.last().1);
        } else if let Some(t) = last_tile(regs.drop_last(), k) {
            let i = choose|i: int| 0 <= i < regs.drop_last().len() && (#[trigger] regs.drop_last()[i]).1 == t;
            assert(regs[i] == regs.drop_last()[i]);
        }
    }
}

/// A tile that a manifest of a sheet registers for an id (the one the
/// registry holds for it after ingesting the manifest) has the sheet's
/// offsets and sprite size.
pub proof fn lemma_ingested_tile_has_sheet_offsets(
    doc: Option<JsonValue>,
    sheet: SheetDefView,
    index: Seq<(String, String)>,
    k: Seq<char>,
)
    ensures
        last_tile(entries_tiles(manifest_entries(doc), sheet, index), k) matches Some(t) ==> {
            &&& t.cdda_offset_x == sheet.offset_x
            &&& t.cdda_offset_y == sheet.offset_y
            &&& t.sprite_width == sheet.sprite_width
            &&& t.sprite_height == sheet.sprite_height
        },
{
    let regs = entries_tiles(manifest_entries(doc), sheet, index);
    lemma_manifest_tiles_carry_sheet_geometry(manifest_entries(doc), sheet, index);
    lemma_last_tile_is_registered(regs, k);
}

proof fn lemma_last_tile_concat(
    a: Seq<(Seq<char>, TileInfoView)>,
    b: Seq<(Seq<char>, TileInfoView)>,
    k: Seq<char>,
)
    ensures
        last_tile(a + b, k) == match last_tile(b, k) {
            Some(t) => Some(t),
            None => last_tile(a, k),
        },
    decreases b.len(),
{
    if b.len() == 0 {
        assert(a + b =~= a);
    } else {
        lemma_last_tile_concat(a, b.drop_last(), k);
        assert((a + b).drop_last() =~= a + b.drop_last());
        assert((a + b).last() == b.last());
    }
}

fn png_path_exec<'a>(index: &'a [(String, String)], stem: &str) -> (r: Option<&'a String>)
    ensures
        match r {
            Some(p) => png_path(index@, stem@) == Some(p@),
            None => png_path(index@, stem@) is None,
        },
{
    let mut i: usize = 0;
    assert(index@.skip(0) =~= index@);
    while i < index.len()
        invariant
            i <= index@.len(),
            png_path(index@, stem@) == png_path(index@.skip(i as int), stem@),
        decreases index@.len() - i,
    {
        proof {
            assert(index@.skip(i as int).drop_first() =~= index@.skip(i + 1));
            assert(index@.skip(i as int)[0] == index@[i as int]);
        }
        if str_eq(index[i].0.as_str(), stem) {
            return Some(&index[i].1);
        }
        i = i + 1;
    }
    None
}

/// The asset path of a file path: from its first `gfx/` on.
pub fn asset_path(path: &str) -> (r: Option<String>)
    ensures
        match r {
            Some(a) => asset_path_of(path@) == Some(a@),
            None => asset_path_of(path@) is None,
        },
{
    let chars = chars_of(path);
    let marker = chars_of("gfx/");
    match find(chars.as_slice(), marker.as_slice()) {
        Some(i) => {
            let a = string_of(vstd::slice::slice_subrange(chars.as_slice(), i, chars.len()));
            assert(a@ =~= path@.skip(i as int));
            Some(a)
        },
        None => None,
    }
}

impl TileRegistry {
    fn ingest_entry(&mut self, e: &JsonValue, sheet: &SheetDef, index: &[(String, String)])
        ensures
            forall|k: Seq<char>| #[trigger]
                final(self).entry(k) == after_regs(
                    entry_tiles(*e, sheet@, index@),
                    old(self).entry(k),
                    k,
                ),
            final(self).fallback_tile() == old(self).fallback_tile(),
    {
        let o = match e {
            JsonValue::Object(o) => o,
            _ => return,
        };
        let idv = match get_member(o, "id") {
            Some(v) => v,
            None => return,
        };
        let fg = match get_member(o, "fg") {
            Some(v) => v,
            None => return,
        };
        let name = match primary_sprite_name(fg) {
            Some(n) => n,
            None => return,
        };
        let path = match png_path_exec(index, name.as_str()) {
            Some(p) => p,
            None => return,
        };
        let image = match asset_path(path.as_str()) {
            Some(a) => a,
            None => return,
        };
        let info = TileInfo {
            image,
            sprite_width: sheet.sprite_width,
            sprite_height: sheet.sprite_height,
            cdda_offset_x: sheet.offset_x,
            cdda_offset_y: sheet.offset_y,
        };
        let ids = extract_ids(idv);
        let ghost t = info@;
        let ghost names = ids@.map_values(|s: String| s@);
        let ghost regs = names.map_values(|id: Seq<char>| (id, t));
        assert(regs == entry_tiles(*e, sheet@, index@));
        let ghost start = *self;
        let mut j: usize = 0;
        while j < ids.len()
            invariant
                j <= ids@.len(),
                names == ids@.map_values(|s: String| s@),
                regs == names.map_values(|id: Seq<char>| (id, t)),
                info@ == t,
                self.fallback_tile() == start.fallback_tile(),
                forall|k: Seq<char>| #[trigger]
                    self.entry(k) == after_regs(regs.take(j as int), start.entry(k), k),
            decreases ids@.len() - j,
        {
            self.insert(ids[j].clone(), clone_info(&info));
            proof {
                assert(regs.take(j + 1).drop_last() =~= regs.take(j as int));
                assert(regs.take(j + 1).last() == (ids@[j as int]@, t));
            }
            j = j + 1;
        }
        assert(regs.take(ids@.len() as int) =~= regs);
    }

    /// Registers the tiles of one manifest of a sheet (its text, and the
    /// sheet's PNG index from file stem to path); later registrations of an
    /// id replace earlier ones.
    pub fn ingest_manifest(&mut self, content: &str, sheet: &SheetDef, index: &[(String, String)])
        ensures
            forall|k: Seq<char>| #[trigger]
                final(self).entry(k) == after_regs(
                    entries_tiles(manifest_entries(json_parse(content@)), sheet@, index@),
                    old(self).entry(k),
                    k,
                ),
            final(self).fallback_tile() == old(self).fallback_tile(),
    {
        let doc = parse_json(content);
        self.ingest_parsed_manifest(&doc, sheet, index);
    }

    /// Registers the tiles of one parsed manifest of a sheet (`None` when
    /// its text is not JSON: nothing is registered); later registrations of
    /// an id replace earlier ones.
    pub fn ingest_parsed_manifest(&mut self, doc: &Option<JsonValue>, sheet: &SheetDef, index: &[(String, String)])
        ensures
            forall|k: Seq<char>| #[trigger]
                final(self).entry(k) == after_regs(
                    entries_tiles(manifest_entries(*doc), sheet@, index@),
                    old(self).entry(k),
                    k,
                ),
            final(self).fallback_tile() == old(self).fallback_tile(),
    {
        let ghost start = *self;
        match doc {
            Some(JsonValue::Array(arr)) => {
                let ghost es = arr@;
                let mut i: usize = 0;
                assert(es.take(0) =~= Seq::<JsonValue>::empty());
                while i < arr.len()
                    invariant
                        i <= arr@.len(),
                        es == arr@,
                        self.fallback_tile() == start.fallback_tile(),
                        forall|k: Seq<char>| #[trigger]
                            self.entry(k) == after_regs(
                                entries_tiles(es.take(i as int), sheet@, index@),
                                start.entry(k),
                                k,
                            ),
                    decreases arr@.len() - i,
                {
                    let ghost mid = *self;
                    self.ingest_entry(&arr[i], sheet, index);
                    proof {
                        assert(es.take(i + 1).drop_last() =~= es.take(i as int));
                        assert(es.take(i + 1).last() == es[i as int]);
                        assert forall|k: Seq<char>| #[trigger]
                            self.entry(k) == after_regs(
                                entries_tiles(es.take(i + 1), sheet@, index@),
                                start.entry(k),
                                k,
                            ) by {
                            lemma_last_tile_concat(
                                entries_tiles(es.take(i as int), sheet@, index@),
                                entry_tiles(es[i as int], sheet@, index@),
                                k,
                            );
                        }
                    }
                    i = i + 1;
                }
                assert(es.take(arr@.len() as int) =~= es);
            },
            Some(v) => {
                self.ingest_entry(v, sheet, index);
                proof {
                    let es = seq![*v];
                    assert(es.drop_last() =~= Seq::<JsonValue>::empty());
                    assert(es.last() == *v);
                    assert(entries_tiles(es, sheet@, index@) == entries_tiles(es.drop_last(), sheet@, index@) + entry_tiles(*v, sheet@, index@));
                    assert(entries_tiles(es.drop_last(), sheet@, index@) == Seq::<(Seq<char>, TileInfoView)>::empty());
                    assert forall|k: Seq<char>| #[trigger]
                        self.entry(k) == after_regs(entries_tiles(es, sheet@, index@), start.entry(k), k) by {
                        lemma_last_tile_concat(
                            Seq::empty(),
                            entry_tiles(*v, sheet@, index@),
                            k,
                        );
                        assert(Seq::<(Seq<char>, TileInfoView)>::empty() + entry_tiles(*v, sheet@, index@)
                            =~= entry_tiles(*v, sheet@, index@));
                    }
                }
            },
            None => {},
        }
    }
}

/// A tile registered under an id is what looking the id up gives, and the id
/// then has a real tile.
pub proof fn lemma_lookup_after_insert(
    before: TileRegistry,
    after: TileRegistry,
    id: Seq<char>,
    info: TileInfoView,
)
    requires
        forall|k: Seq<char>| #[trigger]
            after.entry(k) == if k == id {
                Some(info)
            } else {
                before.entry(k)
            },
    ensures
        resolve_tile(|k: Seq<char>| after.entry(k), after.fallback_tile(), id) == info,
        resolves(|k: Seq<char>| after.entry(k), id),
{
    assert(after.entry(id) == Some(info));
}

/// Of two registrations of one id, the later one is found.
pub proof fn lemma_later_insert_wins(
    first: TileRegistry,
    mid: TileRegistry,
    last: TileRegistry,
    id: Seq<char>,
    a: TileInfoView,
    b: TileInfoView,
)
    requires
        forall|k: Seq<char>| #[trigger]
            mid.entry(k) == if k == id {
                Some(a)
            } else {
                first.entry(k)
            },
        forall|k: Seq<char>| #[trigger]
            last.entry(k) == if k == id {
                Some(b)
            } else {
                mid.entry(k)
            },
    ensures
        resolve_tile(|k: Seq<char>| last.entry(k), last.fallback_tile(), id) == b,
{
    assert(last.entry(id) == Some(b));
}

/// The tiles a manifest registers, in order.
pub open spec fn manifest_tiles(
    content: Seq<char>,
    sheet: SheetDefView,
    index: Seq<(String, String)>,
) -> Seq<(Seq<char>, TileInfoView)> {
    entries_tiles(manifest_entries(json_parse(content)), sheet, index)
}

/// Later sheets overwrite earlier ones: after ingesting two manifests in
/// turn, an id that the later one registers has the later one's tile, and
/// any other id keeps what it had after the first.
pub proof fn lemma_later_sheet_wins(
    r0: TileRegistry,
    r1: TileRegistry,
    r2: TileRegistry,
    content1: Seq<char>,
    sheet1: SheetDefView,
    content2: Seq<char>,
    sheet2: SheetDefView,
    index: Seq<(String, String)>,
    k: Seq<char>,
)
    requires
        forall|j: Seq<char>| #[trigger]
            r1.entry(j) == after_regs(manifest_tiles(content1, sheet1, index), r0.entry(j), j),
        forall|j: Seq<char>| #[trigger]
            r2.entry(j) == after_regs(manifest_tiles(content2, sheet2, index), r1.entry(j), j),
    ensures
        last_tile(manifest_tiles(content2, sheet2, index), k) is Some ==> r2.entry(k) == last_tile(
            manifest_tiles(content2, sheet2, index),
            k,
        ),
        last_tile(manifest_tiles(content2, sheet2, index), k) is None ==> r2.entry(k) == r1.entry(
            k,
        ),
{
    assert(r2.entry(k) == after_regs(manifest_tiles(content2, sheet2, index), r1.entry(k), k));
}

// ---------------------------------------------------------------------------
// Walking a tileset
// ---------------------------------------------------------------------------

/// Whether a sheet's directory is read: filler sheets are skipped.
pub fn loads_sheet(sheet: &SheetDef) -> (r: bool)
    ensures
        r == !sheet.is_filler,
{
    !sheet.is_filler
}

/// The last position of a `.` in a file name, if any.
pub open spec fn last_dot(name: Seq<char>) -> Option<int>
    decreases name.len(),
{
    if name.len() == 0 {
        None
    } else if name.last() == '.' {
        Some(name.len() - 1)
    } else {
        last_dot(name.drop_last())
    }
}

/// A file name's extension, as `Path::extension` gives it: what follows the
/// last `.`, unless there is none or the only one starts the name.
pub open spec fn file_extension(name: Seq<char>) -> Option<Seq<char>> {
    match last_dot(name) {
        Some(i) => if i > 0 {
            Some(name.skip(i + 1))
        } else {
            None
        },
        None => None,
    }
}

/// A file name's stem, as `Path::file_stem` gives it: what precedes the last
/// `.`, or the whole name when it has no extension.
pub open spec fn file_stem(name: Seq<char>) -> Seq<char> {
    match last_dot(name) {
        Some(i) => if i > 0 {
            name.take(i)
        } else {
            name
        },
        None => name,
    }
}

/// What a file found under a sheet directory is to the loader.
#[derive(Clone, Debug, PartialEq, Eq)]
pub enum TileFile {
    /// A sprite image, indexed by its stem.
    Png(String),
    /// A tile manifest to ingest.
    Manifest,
    /// Anything else, which is passed over.
    Other,
}

/// The kind of a file by its name: `png` files are sprites (by stem), `json`
/// files are manifests, everything else is passed over.
pub open spec fn tile_file_of(name: Seq<char>) -> (Option<Seq<char>>, bool) {
    match file_extension(name) {
        Some(e) => if e == "png"@ {
            (Some(file_stem(name)), false)
        } else {
            (None, e == "json"@)
        },
        None => (None, false),
    }
}

proof fn lemma_last_dot_bounds(name: Seq<char>)
    ensures
        match last_dot(name) {
            Some(i) => 0 <= i < name.len() && name[i] == '.',
            None => true,
        },
    decreases name.len(),
{
    if name.len() > 0 && name.last() != '.' {
        lemma_last_dot_bounds(name.drop_last());
    }
}

/// The kind of a file found under a sheet directory, by its name.
pub fn classify_tile_file(name: &str) -> (r: TileFile)
    ensures
        match r {
            TileFile::Png(stem) => tile_file_of(name@) == (Some(stem@), false),
            TileFile::Manifest => tile_file_of(name@) == (None::<Seq<char>>, true),
            TileFile::Other => tile_file_of(name@) == (None::<Seq<char>>, false),
        },
{
    let cs = chars_of(name);
    let mut i: usize = cs.len();
    assert(cs@.take(cs@.len() as int) =~= cs@);
    while i > 0 && cs[i - 1] != '.'
        invariant
            i <= cs@.len(),
            cs@ == name@,
            last_dot(name@) == last_dot(cs@.take(i as int)),
        decreases i,
    {
        proof {
            assert(cs@.take(i as int).drop_last() =~= cs@.take(i - 1));
        }
        i = i - 1;
    }
    proof {
        assert(cs@.take(cs@.len() as int) =~= cs@);
    }
    if i <= 1 {
        proof {
            if i == 1 {
                assert(cs@.take(1).last() == '.');
            } else {
                assert(cs@.take(0) =~= Seq::<char>::empty());
            }
        }
        return TileFile::Other;
    }
    let dot = i - 1;
    proof {
        assert(cs@.take(i as int).last() == '.');
        assert(last_dot(name@) == Some(dot as int));
    }
    let mut ext: Vec<char> = Vec::new();
    let mut k: usize = i;
    while k < cs.len()
        invariant
            i <= k <= cs@.len(),
            ext@ == cs@.subrange(i as int, k as int),
        decreases cs@.len() - k,
    {
        ext.push(cs[k]);
        proof {
            assert(cs@.subrange(i as int, k + 1) =~= cs@.subrange(i as int, k as int).push(cs@[k as int]));
        }
        k = k + 1;
    }
    proof {
        assert(cs@.subrange(i as int, cs@.len() as int) =~= name@.skip(i as int));
        reveal_strlit("png");
        reveal_strlit("json");
    }
    let e = string_of(ext.as_slice());
    if str_eq(e.as_str(), "png") {
        let mut stem: Vec<char> = Vec::new();
        let mut j: usize = 0;
        while j < dot
            invariant
                j <= dot,
                dot < cs@.len(),
                stem@ == cs@.take(j as int),
            decreases dot - j,
        {
            stem.push(cs[j]);
            proof {
                assert(cs@.take(j + 1) =~= cs@.take(j as int).push(cs@[j as int]));
            }
            j = j + 1;
        }
        TileFile::Png(string_of(stem.as_slice()))
    } else if str_eq(e.as_str(), "json") {
        TileFile::Manifest
    } else {
        TileFile::Other
    }
}

/// Adds a sprite to the index by its stem unless one with that stem is
/// there already: the first file found for a stem is the one used.
pub fn index_png(index: &mut Vec<(String, String)>, stem: String, path: String)
    ensures
        (exists|k: int| 0 <= k < old(index)@.len() && #[trigger] old(index)@[k].0@ == stem@)
            ==> final(index)@ == old(index)@,
        !(exists|k: int| 0 <= k < old(index)@.len() && #[trigger] old(index)@[k].0@ == stem@)
            ==> final(index)@ == old(index)@.push((stem, path)),
{
    let mut k: usize = 0;
    while k < index.len()
        invariant
            k <= index@.len(),
            index@ == old(index)@,
            forall|j: int| 0 <= j < k ==> #[trigger] index@[j].0@ != stem@,
        decreases index@.len() - k,
    {
        if str_eq(index[k].0.as_str(), stem.as_str()) {
            return;
        }
        k = k + 1;
    }
    index.push((stem, path));
}

} // verus!
