//! The character sheet: its tabs, scrolling, and the texts and tones of its
//! rows (attribute bars, vitals, morale, wetness, and the tab lists).
use vstd::prelude::*;
use crate::actions::GameAction;
use crate::text::{decimal, digits};

verus! {

// ---------------------------------------------------------------------------
// Tabs and scrolling
// ---------------------------------------------------------------------------

/// A tab of the character sheet.
#[derive(Clone, Copy, Debug, PartialEq, Eq, Structural)]
pub enum CharacterTab {
    Skills,
    Traits,
    Effects,
    Bionics,
    Proficiencies,
}

/// The position of a tab in the tab bar.
pub open spec fn character_tab_index(t: CharacterTab) -> int {
    match t {
        CharacterTab::Skills => 0,
        CharacterTab::Traits => 1,
        CharacterTab::Effects => 2,
        CharacterTab::Bionics => 3,
        CharacterTab::Proficiencies => 4,
    }
}

/// The tab at a position of the tab bar, counted around it.
pub open spec fn character_tab_at(i: int) -> CharacterTab {
    let k = i % 5;
    if k == 0 {
        CharacterTab::Skills
    } else if k == 1 {
        CharacterTab::Traits
    } else if k == 2 {
        CharacterTab::Effects
    } else if k == 3 {
        CharacterTab::Bionics
    } else {
        CharacterTab::Proficiencies
    }
}

/// The caption of a tab.
pub open spec fn character_tab_label(t: CharacterTab) -> Seq<char> {
    match t {
        CharacterTab::Skills => "SKILLS"@,
        CharacterTab::Traits => "TRAITS"@,
        CharacterTab::Effects => "EFFECTS"@,
        CharacterTab::Bionics => "BIONICS"@,
        CharacterTab::Proficiencies => "PROFS"@,
    }
}

impl CharacterTab {
    pub const ALL: [CharacterTab; 5] = [
        CharacterTab::Skills,
        CharacterTab::Traits,
        CharacterTab::Effects,
        CharacterTab::Bionics,
        CharacterTab::Proficiencies,
    ];

    /// The caption of the tab.
    pub fn label(self) -> (r: &'static str)
        ensures
            r@ == character_tab_label(self),
    {
        match self {
            CharacterTab::Skills => "SKILLS",
            CharacterTab::Traits => "TRAITS",
            CharacterTab::Effects => "EFFECTS",
            CharacterTab::Bionics => "BIONICS",
            CharacterTab::Proficiencies => "PROFS",
        }
    }

    /// The position of the tab in the tab bar.
    pub fn index(self) -> (i: usize)
        ensures
            i == character_tab_index(self),
    {
        let all = CharacterTab::ALL;
        let mut i: usize = 0;
        while i < 5
            invariant
                i <= 5,
                all@ == seq![
                    CharacterTab::Skills,
                    CharacterTab::Traits,
                    CharacterTab::Effects,
                    CharacterTab::Bionics,
                    CharacterTab::Proficiencies,
                ],
                forall|j: int| 0 <= j < i ==> all@[j] != self,
            decreases 5 - i,
        {
            if all[i] == self {
                return i;
            }
            i = i + 1;
        }
        assert(all@[character_tab_index(self)] == self);
        0
    }

    /// The tab to the right, the last wrapping to the first.
    pub fn next(self) -> (r: CharacterTab)
        ensures
            r == character_tab_at(character_tab_index(self) + 1),
    {
        let i = self.index();
        CharacterTab::ALL[(i + 1) % 5]
    }

    /// The tab to the left, the first wrapping to the last.
    pub fn prev(self) -> (r: CharacterTab)
        ensures
            r == character_tab_at(character_tab_index(self) + 4),
    {
        let i = self.index();
        CharacterTab::ALL[(i + 5 - 1) % 5]
    }
}

impl Default for CharacterTab {
    /// The skills tab.
    fn default() -> (t: CharacterTab)
        ensures
            t == CharacterTab::Skills,
    {
        CharacterTab::Skills
    }
}

/// Going one tab to the left undoes going one to the right, and back.
pub proof fn lemma_character_prev_undoes_next(t: CharacterTab)
    ensures
        character_tab_at(character_tab_index(character_tab_at(character_tab_index(t) + 1)) + 4)
            == t,
        character_tab_at(character_tab_index(character_tab_at(character_tab_index(t) + 4)) + 1)
            == t,
{
}

/// The open tab and the focused row of its list.
#[derive(Clone, Copy, Debug, PartialEq, Eq, Structural)]
pub struct CharacterSheetState {
    pub tab: CharacterTab,
    pub scroll: usize,
}

impl Default for CharacterSheetState {
    /// The skills tab, at its first row.
    fn default() -> (s: CharacterSheetState)
        ensures
            s == (CharacterSheetState { tab: CharacterTab::Skills, scroll: 0 }),
    {
        CharacterSheetState { tab: CharacterTab::Skills, scroll: 0 }
    }
}

/// What one action does to the sheet, `last` being the last row of the list
/// (0 for an empty one): tabs switch and go back to the top; the focused row
/// (first brought within the list) moves by one or ten, or to either end.
pub open spec fn character_step(
    a: GameAction,
    s: CharacterSheetState,
    last: int,
) -> CharacterSheetState {
    let selected = if s.scroll < last {
        s.scroll as int
    } else {
        last
    };
    match a {
        GameAction::NavigateNextTab => CharacterSheetState {
            tab: character_tab_at(character_tab_index(s.tab) + 1),
            scroll: 0,
        },
        GameAction::NavigatePrevTab => CharacterSheetState {
            tab: character_tab_at(character_tab_index(s.tab) + 4),
            scroll: 0,
        },
        GameAction::NavigateUp => CharacterSheetState {
            scroll: if selected >= 1 {
                (selected - 1) as usize
            } else {
                0
            },
            ..s
        },
        GameAction::NavigateDown => CharacterSheetState {
            scroll: if selected + 1 < last {
                (selected + 1) as usize
            } else {
                last as usize
            },
            ..s
        },
        GameAction::NavigatePageUp => CharacterSheetState {
            scroll: if selected >= 10 {
                (selected - 10) as usize
            } else {
                0
            },
            ..s
        },
        GameAction::NavigatePageDown => CharacterSheetState {
            scroll: if selected + 10 < last {
                (selected + 10) as usize
            } else {
                last as usize
            },
            ..s
        },
        GameAction::NavigateHome => CharacterSheetState { scroll: 0, ..s },
        GameAction::NavigateEnd => CharacterSheetState { scroll: last as usize, ..s },
        _ => s,
    }
}

/// The sheet after the actions, in order.
pub open spec fn character_steps(
    actions: Seq<GameAction>,
    s: CharacterSheetState,
    last: int,
) -> CharacterSheetState
    decreases actions.len(),
{
    if actions.len() == 0 {
        s
    } else {
        character_step(actions.last(), character_steps(actions.drop_last(), s, last), last)
    }
}

/// Applies the frame's actions to the sheet; `total_rows` is the length of
/// the shown list (`None` when the list is not on screen).
pub fn character_sheet_input(
    actions: &Vec<GameAction>,
    state: &mut CharacterSheetState,
    total_rows: Option<usize>,
)
    ensures
        *final(state) == character_steps(
            actions@,
            *old(state),
            match total_rows {
                Some(n) => if n > 0 {
                    n - 1
                } else {
                    0
                },
                None => 0,
            },
        ),
{
    let last: usize = match total_rows {
        Some(n) => if n > 0 {
            n - 1
        } else {
            0
        },
        None => 0,
    };
    let ghost start = *state;
    let mut i: usize = 0;
    while i < actions.len()
        invariant
            i <= actions@.len(),
            *state == character_steps(actions@.take(i as int), start, last as int),
        decreases actions@.len() - i,
    {
        let selected = if state.scroll < last {
            state.scroll
        } else {
            last
        };
        match actions[i] {
            GameAction::NavigateNextTab => {
                state.tab = state.tab.next();
                state.scroll = 0;
            },
            GameAction::NavigatePrevTab => {
                state.tab = state.tab.prev();
                state.scroll = 0;
            },
            GameAction::NavigateUp => {
                state.scroll = if selected >= 1 {
                    selected - 1
                } else {
                    0
                };
            },
            GameAction::NavigateDown => {
                state.scroll = if selected < last && last - selected > 1 {
                    selected + 1
                } else {
                    last
                };
            },
            GameAction::NavigatePageUp => {
                state.scroll = if selected >= 10 {
                    selected - 10
                } else {
                    0
                };
            },
            GameAction::NavigatePageDown => {
                state.scroll = if selected < last && last - selected > 10 {
                    selected + 10
                } else {
                    last
                };
            },
            GameAction::NavigateHome => {
                state.scroll = 0;
            },
            GameAction::NavigateEnd => {
                state.scroll = last;
            },
            _ => {},
        }
        assert(actions@.take(i + 1).drop_last() =~= actions@.take(i as int));
        i = i + 1;
    }
    assert(actions@.take(actions@.len() as int) =~= actions@);
}

/// Scrolling never leaves the list: after any actions the focused row is
/// at most the last row.
pub proof fn lemma_scroll_stays_in_list(actions: Seq<GameAction>, s: CharacterSheetState, last: int)
    requires
        0 <= last <= usize::MAX,
        s.scroll <= last,
    ensures
        character_steps(actions, s, last).scroll <= last,
    decreases actions.len(),
{
    if actions.len() > 0 {
        lemma_scroll_stays_in_list(actions.drop_last(), s, last);
    }
}

// ---------------------------------------------------------------------------
// Attributes, vitals and status
// ---------------------------------------------------------------------------

/// `n` copies of `c`.
pub open spec fn repeat_char(c: char, n: nat) -> Seq<char> {
    Seq::new(n, |_i: int| c)
}

/// The bar of an attribute: a full block per point up to twenty, light
/// shade for the rest of twenty.
pub open spec fn stat_bar_text(value: u32) -> Seq<char> {
    let filled: nat = if value < 20 {
        value as nat
    } else {
        20
    };
    repeat_char('█', filled) + repeat_char('░', (20 - filled) as nat)
}

/// The bar of an attribute.
pub fn stat_bar(value: u32) -> (r: String)
    ensures
        r@ == stat_bar_text(value),
{
    let filled: usize = if value < 20 {
        value as usize
    } else {
        20
    };
    let mut out: Vec<char> = Vec::new();
    let mut i: usize = 0;
    while i < 20
        invariant
            i <= 20,
            filled <= 20,
            out@ == (if i <= filled {
                repeat_char('█', i as nat)
            } else {
                repeat_char('█', filled as nat) + repeat_char('░', (i - filled) as nat)
            }),
        decreases 20 - i,
    {
        if i < filled {
            out.push('█');
            assert(out@ =~= repeat_char('█', (i + 1) as nat));
        } else {
            out.push('░');
            assert(out@ =~= repeat_char('█', filled as nat) + repeat_char('░', (i + 1 - filled) as nat));
        }
        i = i + 1;
    }
    assert(out@ =~= stat_bar_text(value));
    crate::text::string_of(out.as_slice())
}

/// How a value is tinted on the sheet.
#[derive(Clone, Copy, Debug, PartialEq, Eq, Structural)]
pub enum Tone {
    Good,
    Accent,
    Normal,
    Muted,
    Warning,
    Serious,
    Bad,
}

/// The tint of an attribute value.
pub open spec fn stat_tone_of(value: u32) -> Tone {
    if value >= 14 {
        Tone::Good
    } else if value >= 10 {
        Tone::Accent
    } else if value >= 8 {
        Tone::Normal
    } else if value >= 6 {
        Tone::Warning
    } else {
        Tone::Bad
    }
}

/// The tint of an attribute value.
pub fn stat_tone(value: u32) -> (t: Tone)
    ensures
        t == stat_tone_of(value),
{
    if value >= 14 {
        Tone::Good
    } else if value >= 10 {
        Tone::Accent
    } else if value >= 8 {
        Tone::Normal
    } else if value >= 6 {
        Tone::Warning
    } else {
        Tone::Bad
    }
}

/// `a / b` rounded toward zero, as integer division does.
pub open spec fn div_toward_zero(a: int, b: int) -> int {
    if a >= 0 {
        a / b
    } else {
        -((-a) / b)
    }
}

/// The tint of the hit points: bad at a quarter or less, serious at half or
/// less, a warning below full, good at full.
pub open spec fn hp_tone_of(current: int, max: int) -> Tone {
    if current <= div_toward_zero(max, 4) {
        Tone::Bad
    } else if current <= div_toward_zero(max, 2) {
        Tone::Serious
    } else if current < max {
        Tone::Warning
    } else {
        Tone::Good
    }
}

fn div_exec(a: i32, b: i64) -> (r: i64)
    requires
        1 <= b <= 4,
    ensures
        r == div_toward_zero(a as int, b as int),
{
    let a64 = a as i64;
    if a64 >= 0 {
        a64 / b
    } else {
        -((-a64) / b)
    }
}

/// The tint of the hit points.
pub fn hp_tone(current: i32, max: i32) -> (t: Tone)
    ensures
        t == hp_tone_of(current as int, max as int),
{
    let c = current as i64;
    if c <= div_exec(max, 4) {
        Tone::Bad
    } else if c <= div_exec(max, 2) {
        Tone::Serious
    } else if current < max {
        Tone::Warning
    } else {
        Tone::Good
    }
}

/// The tint of the speed: bad below 80, a warning below 100, good above 100.
pub open spec fn speed_tone_of(speed: int) -> Tone {
    if speed < 80 {
        Tone::Bad
    } else if speed < 100 {
        Tone::Warning
    } else if speed > 100 {
        Tone::Good
    } else {
        Tone::Normal
    }
}

/// The tint of the speed.
pub fn speed_tone(speed: i32) -> (t: Tone)
    ensures
        t == speed_tone_of(speed as int),
{
    if speed < 80 {
        Tone::Bad
    } else if speed < 100 {
        Tone::Warning
    } else if speed > 100 {
        Tone::Good
    } else {
        Tone::Normal
    }
}

/// The word for a wetness level.
pub open spec fn wetness_word(level: int) -> Seq<char> {
    if level <= 0 {
        "dry"@
    } else if level <= 3 {
        "damp"@
    } else if level <= 7 {
        "wet"@
    } else {
        "soaked"@
    }
}

/// The word for a wetness level: dry, damp (1 to 3), wet (4 to 7), soaked.
pub fn wetness_label(level: u8) -> (r: &'static str)
    ensures
        r@ == wetness_word(level as int),
{
    if level == 0 {
        "dry"
    } else if level <= 3 {
        "damp"
    } else if level <= 7 {
        "wet"
    } else {
        "soaked"
    }
}

/// An integer in decimal, with a minus sign when negative.
pub open spec fn signed_decimal(n: int) -> Seq<char> {
    if n < 0 {
        "-"@ + digits((-n) as nat, 10)
    } else {
        digits(n as nat, 10)
    }
}

fn signed_text(n: i64) -> (r: String)
    ensures
        r@ == signed_decimal(n as int),
{
    if n < 0 {
        let magnitude: u64 = if n == i64::MIN {
            9223372036854775808u64
        } else {
            (-n) as u64
        };
        let mut out = String::from_str("-");
        out.append(decimal(magnitude).as_str());
        out
    } else {
        decimal(n as u64)
    }
}

/// The word for a morale value.
pub open spec fn morale_word(m: int) -> Seq<char> {
    if m >= 10 {
        "happy"@
    } else if m >= 1 {
        "fine"@
    } else if m == 0 {
        "neutral"@
    } else if m >= -10 {
        "down"@
    } else {
        "depressed"@
    }
}

/// The tint of a morale value.
pub open spec fn morale_tone_of(m: int) -> Tone {
    if m >= 10 {
        Tone::Good
    } else if m > 0 {
        Tone::Accent
    } else if m == 0 {
        Tone::Normal
    } else if m >= -10 {
        Tone::Warning
    } else {
        Tone::Bad
    }
}

/// The morale row: the value and its word (`12 (happy)`), and its tint.
pub fn morale_display(m: i32) -> (r: (String, Tone))
    ensures
        r.0@ == signed_decimal(m as int) + " ("@ + morale_word(m as int) + ")"@,
        r.1 == morale_tone_of(m as int),
{
    let word = if m >= 10 {
        "happy"
    } else if m >= 1 {
        "fine"
    } else if m == 0 {
        "neutral"
    } else if m >= -10 {
        "down"
    } else {
        "depressed"
    };
    let tone = if m >= 10 {
        Tone::Good
    } else if m > 0 {
        Tone::Accent
    } else if m == 0 {
        Tone::Normal
    } else if m >= -10 {
        Tone::Warning
    } else {
        Tone::Bad
    };
    let mut out = signed_text(m as i64);
    out.append(" (");
    out.append(word);
    out.append(")");
    (out, tone)
}

/// The hit points row: `current / max`.
pub fn hp_text(current: i32, max: i32) -> (r: String)
    ensures
        r@ == signed_decimal(current as int) + " / "@ + signed_decimal(max as int),
{
    let mut out = signed_text(current as i64);
    out.append(" / ");
    out.append(signed_text(max as i64).as_str());
    out
}

// ---------------------------------------------------------------------------
// Tab lists
// ---------------------------------------------------------------------------

/// `s` padded with spaces on the right to at least `width` characters.
pub open spec fn pad_right(s: Seq<char>, width: nat) -> Seq<char> {
    if s.len() >= width {
        s
    } else {
        s + repeat_char(' ', (width - s.len()) as nat)
    }
}

/// `s` padded with spaces on the left to at least `width` characters.
pub open spec fn pad_left(s: Seq<char>, width: nat) -> Seq<char> {
    if s.len() >= width {
        s
    } else {
        repeat_char(' ', (width - s.len()) as nat) + s
    }
}

fn spaces(n: usize) -> (r: Vec<char>)
    ensures
        r@ == repeat_char(' ', n as nat),
{
    let mut out: Vec<char> = Vec::new();
    let mut i: usize = 0;
    while i < n
        invariant
            i <= n,
            out@ == repeat_char(' ', i as nat),
        decreases n - i,
    {
        out.push(' ');
        assert(out@ =~= repeat_char(' ', (i + 1) as nat));
        i = i + 1;
    }
    out
}

/// `s` left-aligned in a field of `width` characters.
pub fn left_aligned(s: &str, width: usize) -> (r: String)
    ensures
        r@ == pad_right(s@, width as nat),
{
    let n = s.unicode_len();
    let mut out = String::from_str(s);
    if n < width {
        let pad = spaces(width - n);
        out.append(crate::text::string_of(pad.as_slice()).as_str());
    }
    out
}

/// `s` right-aligned in a field of `width` characters.
pub fn right_aligned(s: &str, width: usize) -> (r: String)
    ensures
        r@ == pad_left(s@, width as nat),
{
    let n = s.unicode_len();
    if n < width {
        let pad = spaces(width - n);
        let mut out = crate::text::string_of(pad.as_slice());
        out.append(s);
        out
    } else {
        String::from_str(s)
    }
}

/// A learned skill as the sheet lists it.
#[derive(Clone, Copy, Debug, PartialEq, Eq, Structural)]
pub struct SkillRow {
    pub skill_id: u32,
    pub level: i32,
    pub exercise: i32,
}

/// The header of the skills list.
pub open spec fn skills_header_text() -> Seq<char> {
    pad_right("Skill"@, 24) + "  "@ + pad_left("Level"@, 5) + "  "@ + pad_left("XP"@, 8)
}

/// A row of the skills list: the skill, its level and its exercise, in
/// columns of 24, 5 and 8 characters.
pub open spec fn skill_row_text(r: SkillRow) -> Seq<char> {
    pad_right("skill #"@ + digits(r.skill_id as nat, 10), 24) + "  "@ + pad_left(
        signed_decimal(r.level as int),
        5,
    ) + "  "@ + pad_left(signed_decimal(r.exercise as int), 8)
}

/// The header of the skills list.
pub fn skills_header() -> (r: String)
    ensures
        r@ == skills_header_text(),
{
    let mut out = left_aligned("Skill", 24);
    out.append("  ");
    out.append(right_aligned("Level", 5).as_str());
    out.append("  ");
    out.append(right_aligned("XP", 8).as_str());
    out
}

/// A row of the skills list.
pub fn skill_row(r: &SkillRow) -> (s: String)
    ensures
        s@ == skill_row_text(*r),
{
    let mut name = String::from_str("skill #");
    name.append(decimal(r.skill_id as u64).as_str());
    let mut out = left_aligned(name.as_str(), 24);
    out.append("  ");
    out.append(right_aligned(signed_text(r.level as i64).as_str(), 5).as_str());
    out.append("  ");
    out.append(right_aligned(signed_text(r.exercise as i64).as_str(), 8).as_str());
    out
}

/// The tint of an effect row: bad above intensity three, a warning above
/// one.
pub open spec fn effect_tone_of(intensity: int) -> Tone {
    if intensity > 3 {
        Tone::Bad
    } else if intensity > 1 {
        Tone::Warning
    } else {
        Tone::Normal
    }
}

/// A row of the effects list: the effect, its intensity and its remaining
/// turns, in columns of 28 and 6 characters, and its tint.
pub fn effect_row(effect_id: &str, intensity: i32, remaining: i64) -> (r: (String, Tone))
    ensures
        r.0@ == pad_right("effect #"@ + effect_id@, 28) + "  "@ + pad_left(
            signed_decimal(intensity as int),
            6,
        ) + "  "@ + signed_decimal(remaining as int) + "t"@,
        r.1 == effect_tone_of(intensity as int),
{
    let mut name = String::from_str("effect #");
    name.append(effect_id);
    let mut out = left_aligned(name.as_str(), 28);
    out.append("  ");
    out.append(right_aligned(signed_text(intensity as i64).as_str(), 6).as_str());
    out.append("  ");
    out.append(signed_text(remaining).as_str());
    out.append("t");
    let tone = if intensity > 3 {
        Tone::Bad
    } else if intensity > 1 {
        Tone::Warning
    } else {
        Tone::Normal
    };
    (out, tone)
}

/// The message of a tab whose list is empty.
pub open spec fn empty_tab_text(t: CharacterTab) -> Seq<char> {
    match t {
        CharacterTab::Skills => "No skills learned yet."@,
        CharacterTab::Traits => "No traits or mutations."@,
        CharacterTab::Effects => "No active effects."@,
        CharacterTab::Bionics => "No bionics installed."@,
        CharacterTab::Proficiencies => "No proficiencies known."@,
    }
}

/// The message of a tab whose list is empty.
pub fn empty_tab_message(t: CharacterTab) -> (r: &'static str)
    ensures
        r@ == empty_tab_text(t),
{
    match t {
        CharacterTab::Skills => "No skills learned yet.",
        CharacterTab::Traits => "No traits or mutations.",
        CharacterTab::Effects => "No active effects.",
        CharacterTab::Bionics => "No bionics installed.",
        CharacterTab::Proficiencies => "No proficiencies known.",
    }
}

/// The header of the traits list: columns of 30 characters and the rest.
pub fn traits_header() -> (r: String)
    ensures
        r@ == pad_right("Trait / Mutation"@, 30) + "  "@ + "Visible"@,
{
    let mut out = left_aligned("Trait / Mutation", 30);
    out.append("  ");
    out.append("Visible");
    out
}

/// A row of the traits list: the mutation and whether it shows.
pub fn trait_row(id: &str, visible: bool) -> (r: String)
    ensures
        r@ == pad_right("mutation #"@ + id@, 30) + "  "@ + if visible {
            "yes"@
        } else {
            "no"@
        },
{
    let mut name = String::from_str("mutation #");
    name.append(id);
    let mut out = left_aligned(name.as_str(), 30);
    out.append("  ");
    out.append(if visible {
        "yes"
    } else {
        "no"
    });
    out
}

/// The header of the effects list.
pub fn effects_header() -> (r: String)
    ensures
        r@ == pad_right("Effect"@, 28) + "  "@ + pad_left("Intens"@, 6) + "  "@ + "Duration"@,
{
    let mut out = left_aligned("Effect", 28);
    out.append("  ");
    out.append(right_aligned("Intens", 6).as_str());
    out.append("  ");
    out.append("Duration");
    out
}

/// The header of the bionics list.
pub fn bionics_header() -> (r: String)
    ensures
        r@ == pad_right("Bionic"@, 30) + "  "@ + pad_left("Power"@, 8) + "  "@ + "Active"@,
{
    let mut out = left_aligned("Bionic", 30);
    out.append("  ");
    out.append(right_aligned("Power", 8).as_str());
    out.append("  ");
    out.append("Active");
    out
}

/// A row of the bionics list: the bionic, the power it uses and whether it
/// is active, tinted good while active.
pub fn bionic_row(id: &str, power: i64, active: bool) -> (r: (String, Tone))
    ensures
        r.0@ == pad_right("bionic #"@ + id@, 30) + "  "@ + pad_left(signed_decimal(power as int), 8)
            + "  "@ + if active {
            "yes"@
        } else {
            "no"@
        },
        r.1 == if active {
            Tone::Good
        } else {
            Tone::Normal
        },
{
    let mut name = String::from_str("bionic #");
    name.append(id);
    let mut out = left_aligned(name.as_str(), 30);
    out.append("  ");
    out.append(right_aligned(signed_text(power).as_str(), 8).as_str());
    out.append("  ");
    out.append(if active {
        "yes"
    } else {
        "no"
    });
    (out, if active {
        Tone::Good
    } else {
        Tone::Normal
    })
}

/// A row of the proficiencies list.
pub fn proficiency_row(id: &str) -> (r: String)
    ensures
        r@ == "proficiency #"@ + id@,
{
    let mut out = String::from_str("proficiency #");
    out.append(id);
    out
}

/// The melee line: the damage dice and the skill, the skill alone without
/// dice, or a dash without combat data.
pub open spec fn melee_text_of(combat: Option<(i64, i64, i64)>) -> Seq<char> {
    match combat {
        Some((dice, sides, skill)) => if dice > 0 {
            signed_decimal(dice as int) + "d"@ + signed_decimal(sides as int) + " (skill "@
                + signed_decimal(skill as int) + ")"@
        } else {
            "skill "@ + signed_decimal(skill as int)
        },
        None => "—"@,
    }
}

/// The melee line of the combat section from the dice count, their sides
/// and the melee skill.
pub fn melee_text(combat: Option<(i64, i64, i64)>) -> (r: String)
    ensures
        r@ == melee_text_of(combat),
{
    match combat {
        Some((dice, sides, skill)) => if dice > 0 {
            let mut out = signed_text(dice);
            out.append("d");
            out.append(signed_text(sides).as_str());
            out.append(" (skill ");
            out.append(signed_text(skill).as_str());
            out.append(")");
            out
        } else {
            let mut out = String::from_str("skill ");
            out.append(signed_text(skill).as_str());
            out
        },
        None => String::from_str("—"),
    }
}

/// The dodge line: the dodge value, or a dash without one.
pub fn dodge_text(dodge: Option<i64>) -> (r: String)
    ensures
        r@ == match dodge {
            Some(d) => signed_decimal(d as int),
            None => "—"@,
        },
{
    match dodge {
        Some(d) => signed_text(d),
        None => String::from_str("—"),
    }
}

/// The natural armor line.
pub fn armor_text(bash: i64, cut: i64, pierce: i64) -> (r: String)
    ensures
        r@ == "bash "@ + signed_decimal(bash as int) + " / cut "@ + signed_decimal(cut as int)
            + " / pierce "@ + signed_decimal(pierce as int),
{
    let mut out = String::from_str("bash ");
    out.append(signed_text(bash).as_str());
    out.append(" / cut ");
    out.append(signed_text(cut).as_str());
    out.append(" / pierce ");
    out.append(signed_text(pierce).as_str());
    out
}

/// The vision line: day and night range in tiles.
pub fn vision_text(day: i64, night: i64) -> (r: String)
    ensures
        r@ == signed_decimal(day as int) + " / "@ + signed_decimal(night as int) + " tiles"@,
{
    let mut out = signed_text(day);
    out.append(" / ");
    out.append(signed_text(night).as_str());
    out.append(" tiles");
    out
}

/// The height line, in centimetres.
pub fn height_text(cm: i64) -> (r: String)
    ensures
        r@ == signed_decimal(cm as int) + " cm"@,
{
    let mut out = signed_text(cm);
    out.append(" cm");
    out
}

// ---------------------------------------------------------------------------
// The tab lists
// ---------------------------------------------------------------------------

/// A row of the effects list (see [`effect_row`]).
pub open spec fn effect_row_text(id: Seq<char>, intensity: i32, remaining: i64) -> Seq<char> {
    pad_right("effect #"@ + id, 28) + "  "@ + pad_left(signed_decimal(intensity as int), 6) + "  "@
        + signed_decimal(remaining as int) + "t"@
}

/// A row of the traits list (see [`trait_row`]).
pub open spec fn trait_row_text(id: Seq<char>, visible: bool) -> Seq<char> {
    pad_right("mutation #"@ + id, 30) + "  "@ + if visible {
        "yes"@
    } else {
        "no"@
    }
}

/// A row of the bionics list (see [`bionic_row`]).
pub open spec fn bionic_row_text(id: Seq<char>, power: i64, active: bool) -> Seq<char> {
    pad_right("bionic #"@ + id, 30) + "  "@ + pad_left(signed_decimal(power as int), 8) + "  "@
        + if active {
        "yes"@
    } else {
        "no"@
    }
}

/// The header of a tab's list.
pub open spec fn listing_header(tab: CharacterTab) -> Seq<char> {
    match tab {
        CharacterTab::Skills => skills_header_text(),
        CharacterTab::Traits => pad_right("Trait / Mutation"@, 30) + "  "@ + "Visible"@,
        CharacterTab::Effects => pad_right("Effect"@, 28) + "  "@ + pad_left("Intens"@, 6) + "  "@
            + "Duration"@,
        CharacterTab::Bionics => pad_right("Bionic"@, 30) + "  "@ + pad_left("Power"@, 8) + "  "@
            + "Active"@,
        CharacterTab::Proficiencies => "Proficiency"@,
    }
}

/// What the character's lists hold: skills; traits (id, shown); effects
/// (id, intensity, remaining turns); bionics (id, power used, active);
/// proficiencies (id).
pub struct CharacterLists {
    pub skills: Vec<SkillRow>,
    pub traits: Vec<(String, bool)>,
    pub effects: Vec<(String, i32, i64)>,
    pub bionics: Vec<(String, i64, bool)>,
    pub proficiencies: Vec<String>,
}

/// The rows of a tab's list with their tints.
pub open spec fn listing_rows(tab: CharacterTab, l: CharacterLists) -> Seq<(Seq<char>, Tone)> {
    match tab {
        CharacterTab::Skills => l.skills@.map_values(|r: SkillRow| (skill_row_text(r), Tone::Normal)),
        CharacterTab::Traits => l.traits@.map_values(
            |t: (String, bool)| (trait_row_text(t.0@, t.1), Tone::Normal),
        ),
        CharacterTab::Effects => l.effects@.map_values(
            |e: (String, i32, i64)| (effect_row_text(e.0@, e.1, e.2), effect_tone_of(e.1 as int)),
        ),
        CharacterTab::Bionics => l.bionics@.map_values(
            |b: (String, i64, bool)|
                (bionic_row_text(b.0@, b.1, b.2), if b.2 {
                    Tone::Good
                } else {
                    Tone::Normal
                }),
        ),
        CharacterTab::Proficiencies => l.proficiencies@.map_values(
            |p: String| ("proficiency #"@ + p@, Tone::Normal),
        ),
    }
}

/// What a tab of the character sheet lists: a header and rows, or, when
/// there are no rows, the tab's empty message.
pub struct TabListing {
    pub header: String,
    pub rows: Vec<(String, Tone)>,
    pub empty: String,
}

pub open spec fn row_views(rows: Seq<(String, Tone)>) -> Seq<(Seq<char>, Tone)> {
    rows.map_values(|r: (String, Tone)| (r.0@, r.1))
}

fn push_row(rows: &mut Vec<(String, Tone)>, text: String, tone: Tone)
    ensures
        row_views(final(rows)@) == row_views(old(rows)@).push((text@, tone)),
{
    rows.push((text, tone));
    assert(row_views(final(rows)@) =~= row_views(old(rows)@).push((text@, tone)));
}

/// The list of a tab of the character sheet.
pub fn tab_listing(tab: CharacterTab, lists: &CharacterLists) -> (r: TabListing)
    ensures
        row_views(r.rows@) == listing_rows(tab, *lists),
        r.rows@.len() > 0 ==> r.header@ == listing_header(tab) && r.empty@ == Seq::<char>::empty(),
        r.rows@.len() == 0 ==> r.header@ == Seq::<char>::empty() && r.empty@ == empty_tab_text(tab),
{
    let mut rows: Vec<(String, Tone)> = Vec::new();
    let ghost target = listing_rows(tab, *lists);
    match tab {
        CharacterTab::Skills => {
            let mut i: usize = 0;
            while i < lists.skills.len()
                invariant
                    i <= lists.skills@.len(),
                    target == listing_rows(tab, *lists),
                    tab == CharacterTab::Skills,
                    row_views(rows@) == target.take(i as int),
                decreases lists.skills@.len() - i,
            {
                push_row(&mut rows, skill_row(&lists.skills[i]), Tone::Normal);
                assert(target.take(i + 1) =~= target.take(i as int).push(target[i as int]));
                i = i + 1;
            }
            assert(target.take(lists.skills@.len() as int) =~= target);
        },
        CharacterTab::Traits => {
            let mut i: usize = 0;
            while i < lists.traits.len()
                invariant
                    i <= lists.traits@.len(),
                    target == listing_rows(tab, *lists),
                    tab == CharacterTab::Traits,
                    row_views(rows@) == target.take(i as int),
                decreases lists.traits@.len() - i,
            {
                push_row(&mut rows, trait_row(lists.traits[i].0.as_str(), lists.traits[i].1), Tone::Normal);
                assert(target.take(i + 1) =~= target.take(i as int).push(target[i as int]));
                i = i + 1;
            }
            assert(target.take(lists.traits@.len() as int) =~= target);
        },
        CharacterTab::Effects => {
            let mut i: usize = 0;
            while i < lists.effects.len()
                invariant
                    i <= lists.effects@.len(),
                    target == listing_rows(tab, *lists),
                    tab == CharacterTab::Effects,
                    row_views(rows@) == target.take(i as int),
                decreases lists.effects@.len() - i,
            {
                let (text, tone) = effect_row(lists.effects[i].0.as_str(), lists.effects[i].1, lists.effects[i].2);
                push_row(&mut rows, text, tone);
                assert(target.take(i + 1) =~= target.take(i as int).push(target[i as int]));
                i = i + 1;
            }
            assert(target.take(lists.effects@.len() as int) =~= target);
        },
        CharacterTab::Bionics => {
            let mut i: usize = 0;
            while i < lists.bionics.len()
                invariant
                    i <= lists.bionics@.len(),
                    target == listing_rows(tab, *lists),
                    tab == CharacterTab::Bionics,
                    row_views(rows@) == target.take(i as int),
                decreases lists.bionics@.len() - i,
            {
                let (text, tone) = bionic_row(lists.bionics[i].0.as_str(), lists.bionics[i].1, lists.bionics[i].2);
                push_row(&mut rows, text, tone);
                assert(target.take(i + 1) =~= target.take(i as int).push(target[i as int]));
                i = i + 1;
            }
            assert(target.take(lists.bionics@.len() as int) =~= target);
        },
        CharacterTab::Proficiencies => {
            let mut i: usize = 0;
            while i < lists.proficiencies.len()
                invariant
                    i <= lists.proficiencies@.len(),
                    target == listing_rows(tab, *lists),
                    tab == CharacterTab::Proficiencies,
                    row_views(rows@) == target.take(i as int),
                decreases lists.proficiencies@.len() - i,
            {
                push_row(&mut rows, proficiency_row(lists.proficiencies[i].as_str()), Tone::Normal);
                assert(target.take(i + 1) =~= target.take(i as int).push(target[i as int]));
                i = i + 1;
            }
            assert(target.take(lists.proficiencies@.len() as int) =~= target);
        },
    }
    if rows.len() > 0 {
        let header = match tab {
            CharacterTab::Skills => skills_header(),
            CharacterTab::Traits => traits_header(),
            CharacterTab::Effects => effects_header(),
            CharacterTab::Bionics => bionics_header(),
            CharacterTab::Proficiencies => String::from_str("Proficiency"),
        };
        TabListing { header, rows, empty: String::new() }
    } else {
        TabListing { header: String::new(), rows, empty: String::from_str(empty_tab_message(tab)) }
    }
}

// ---------------------------------------------------------------------------
// The overview panel
// ---------------------------------------------------------------------------

/// What a line of the overview panel is.
#[derive(Clone, Copy, Debug, PartialEq, Eq, Structural)]
pub enum LineKind {
    /// A section heading.
    Section,
    /// A label and its value.
    Info,
    /// An attribute: label, value and bar.
    Stat,
    /// A condition marker.
    Condition,
}

/// A line of the overview panel: its kind, label, value, bar (attributes
/// only) and tint.
#[derive(Clone, Debug)]
pub struct SheetLine {
    pub kind: LineKind,
    pub label: String,
    pub value: String,
    pub bar: String,
    pub tone: Tone,
}

pub type LineView = (LineKind, Seq<char>, Seq<char>, Seq<char>, Tone);

pub open spec fn line_views(s: Seq<SheetLine>) -> Seq<LineView> {
    s.map_values(|l: SheetLine| (l.kind, l.label@, l.value@, l.bar@, l.tone))
}

/// The player's identity as the sheet shows it.
pub struct Identity {
    pub name: String,
    pub gender: String,
    pub age: i64,
    pub height_cm: i64,
    pub blood: String,
}

/// What the overview panel reads of the player. Attributes are strength,
/// dexterity, intelligence and perception; the temperature line comes
/// written and tinted (it is a floating-point reading).
pub struct CharacterFacts {
    pub identity: Option<Identity>,
    pub stats: (u32, u32, u32, u32),
    pub hp: Option<(i32, i32)>,
    pub speed: Option<i32>,
    pub combat: Option<(i64, i64, i64)>,
    pub dodge: Option<i64>,
    pub armor: Option<(i64, i64, i64)>,
    pub vision: Option<(i64, i64)>,
    pub temp: Option<(String, Tone)>,
    pub wetness: Option<u8>,
    pub morale: Option<i32>,
    pub stunned: bool,
    pub bleeding: bool,
    pub on_fire: bool,
}

pub open spec fn section(t: Seq<char>) -> LineView {
    (LineKind::Section, t, Seq::empty(), Seq::empty(), Tone::Accent)
}

pub open spec fn info(label: Seq<char>, value: Seq<char>, tone: Tone) -> LineView {
    (LineKind::Info, label, value, Seq::empty(), tone)
}

pub open spec fn stat(label: Seq<char>, v: u32) -> LineView {
    (LineKind::Stat, label, pad_left(digits(v as nat, 10), 2), stat_bar_text(v), stat_tone_of(v))
}

pub open spec fn condition(label: Seq<char>, tone: Tone) -> LineView {
    (LineKind::Condition, "  ● "@ + label, Seq::empty(), Seq::empty(), tone)
}

pub open spec fn opt_line(b: bool, l: LineView) -> Seq<LineView> {
    if b {
        seq![l]
    } else {
        Seq::empty()
    }
}

/// The identity section.
pub open spec fn identity_lines(f: CharacterFacts) -> Seq<LineView> {
    seq![section("IDENTITY"@)] + match f.identity {
        Some(id) => seq![
            info("Name"@, id.name@, Tone::Normal),
            info("Gender"@, id.gender@, Tone::Normal),
            info("Age"@, signed_decimal(id.age as int), Tone::Normal),
            info("Height"@, signed_decimal(id.height_cm as int) + " cm"@, Tone::Normal),
            info("Blood"@, id.blood@, Tone::Normal),
        ],
        None => seq![info("Name"@, "Dev Player"@, Tone::Normal)],
    }
}

/// The attribute and vitals sections (health and speed default to 100).
pub open spec fn body_lines(f: CharacterFacts) -> Seq<LineView> {
    let (cur, max) = match f.hp {
        Some(h) => h,
        None => (100i32, 100i32),
    };
    let speed = match f.speed {
        Some(s) => s,
        None => 100i32,
    };
    seq![
        section("ATTRIBUTES"@),
        stat("STR"@, f.stats.0),
        stat("DEX"@, f.stats.1),
        stat("INT"@, f.stats.2),
        stat("PER"@, f.stats.3),
        section("VITALS"@),
        info("HP"@, signed_decimal(cur as int) + " / "@ + signed_decimal(max as int), hp_tone_of(cur as int, max as int)),
        info("Speed"@, signed_decimal(speed as int), speed_tone_of(speed as int)),
    ]
}

/// The combat section: melee (muted without combat data), dodge, natural
/// armor (muted) and vision when known.
pub open spec fn combat_lines(f: CharacterFacts) -> Seq<LineView> {
    seq![
        section("COMBAT"@),
        info("Melee"@, melee_text_of(f.combat), if f.combat is Some {
            Tone::Normal
        } else {
            Tone::Muted
        }),
        info("Dodge"@, match f.dodge {
            Some(d) => signed_decimal(d as int),
            None => "—"@,
        }, Tone::Normal),
    ] + match f.armor {
        Some((b, c, p)) => seq![
            info(
                "Natural armor"@,
                "bash "@ + signed_decimal(b as int) + " / cut "@ + signed_decimal(c as int) + " / pierce "@
                    + signed_decimal(p as int),
                Tone::Muted,
            ),
        ],
        None => Seq::empty(),
    } + match f.vision {
        Some((d, n)) => seq![
            info("Vision"@, signed_decimal(d as int) + " / "@ + signed_decimal(n as int) + " tiles"@, Tone::Normal),
        ],
        None => Seq::empty(),
    }
}

/// The readings of the status section: temperature, wetness and morale,
/// each when known.
pub open spec fn reading_lines(f: CharacterFacts) -> Seq<LineView> {
    (match f.temp {
        Some(t) => seq![info("Temp"@, t.0@, t.1)],
        None => Seq::<LineView>::empty(),
    }) + match f.wetness {
        Some(w) => seq![info("Wetness"@, wetness_word(w as int), Tone::Normal)],
        None => Seq::empty(),
    } + match f.morale {
        Some(m) => seq![
            info("Morale"@, signed_decimal(m as int) + " ("@ + morale_word(m as int) + ")"@, morale_tone_of(m as int)),
        ],
        None => Seq::empty(),
    }
}

/// The conditions section, when any condition holds: stunned, bleeding, on
/// fire, in that order.
pub open spec fn condition_lines(f: CharacterFacts) -> Seq<LineView> {
    opt_line(f.stunned || f.bleeding || f.on_fire, section("CONDITIONS"@)) + opt_line(
        f.stunned,
        condition("STUNNED"@, Tone::Warning),
    ) + opt_line(f.bleeding, condition("BLEEDING"@, Tone::Bad)) + opt_line(
        f.on_fire,
        condition("ON FIRE"@, Tone::Serious),
    )
}

/// The status section, and the conditions section when any condition holds.
pub open spec fn status_lines(f: CharacterFacts) -> Seq<LineView> {
    seq![section("STATUS"@)] + reading_lines(f) + condition_lines(f)
}

/// The overview panel of the character sheet, top to bottom.
pub open spec fn sheet_lines(f: CharacterFacts) -> Seq<LineView> {
    identity_lines(f) + body_lines(f) + combat_lines(f) + status_lines(f)
}

fn add_line(lines: &mut Vec<SheetLine>, kind: LineKind, label: String, value: String, bar: String, tone: Tone)
    ensures
        line_views(final(lines)@) == line_views(old(lines)@).push((kind, label@, value@, bar@, tone)),
{
    lines.push(SheetLine { kind, label, value, bar, tone });
    assert(line_views(final(lines)@) =~= line_views(old(lines)@).push((kind, label@, value@, bar@, tone)));
}

fn add_info(lines: &mut Vec<SheetLine>, label: &str, value: String, tone: Tone)
    ensures
        line_views(final(lines)@) == line_views(old(lines)@).push(info(label@, value@, tone)),
{
    add_line(lines, LineKind::Info, String::from_str(label), value, String::new(), tone);
}

fn add_section(lines: &mut Vec<SheetLine>, title: &str)
    ensures
        line_views(final(lines)@) == line_views(old(lines)@).push(section(title@)),
{
    add_line(lines, LineKind::Section, String::from_str(title), String::new(), String::new(), Tone::Accent);
}

fn add_stat(lines: &mut Vec<SheetLine>, label: &str, v: u32)
    ensures
        line_views(final(lines)@) == line_views(old(lines)@).push(stat(label@, v)),
{
    let value = right_aligned(decimal(v as u64).as_str(), 2);
    add_line(lines, LineKind::Stat, String::from_str(label), value, stat_bar(v), stat_tone(v));
}

fn add_condition(lines: &mut Vec<SheetLine>, label: &str, tone: Tone)
    ensures
        line_views(final(lines)@) == line_views(old(lines)@).push(condition(label@, tone)),
{
    let mut text = String::from_str("  ● ");
    text.append(label);
    add_line(lines, LineKind::Condition, text, String::new(), String::new(), tone);
}

fn identity_part(lines: &mut Vec<SheetLine>, f: &CharacterFacts)
    ensures
        line_views(final(lines)@) == line_views(old(lines)@) + identity_lines(*f),
{
    add_section(lines, "IDENTITY");
    match &f.identity {
        Some(id) => {
            add_info(lines, "Name", id.name.clone(), Tone::Normal);
            add_info(lines, "Gender", id.gender.clone(), Tone::Normal);
            add_info(lines, "Age", signed_text(id.age), Tone::Normal);
            add_info(lines, "Height", height_text(id.height_cm), Tone::Normal);
            add_info(lines, "Blood", id.blood.clone(), Tone::Normal);
        },
        None => add_info(lines, "Name", String::from_str("Dev Player"), Tone::Normal),
    }
    assert(line_views(final(lines)@) =~= line_views(old(lines)@) + identity_lines(*f));
}

fn body_part(lines: &mut Vec<SheetLine>, f: &CharacterFacts)
    ensures
        line_views(final(lines)@) == line_views(old(lines)@) + body_lines(*f),
{
    add_section(lines, "ATTRIBUTES");
    add_stat(lines, "STR", f.stats.0);
    add_stat(lines, "DEX", f.stats.1);
    add_stat(lines, "INT", f.stats.2);
    add_stat(lines, "PER", f.stats.3);
    add_section(lines, "VITALS");
    let (cur, max) = match f.hp {
        Some(h) => h,
        None => (100i32, 100i32),
    };
    let speed = match f.speed {
        Some(s) => s,
        None => 100i32,
    };
    add_info(lines, "HP", hp_text(cur, max), hp_tone(cur, max));
    add_info(lines, "Speed", signed_text(speed as i64), speed_tone(speed));
    assert(line_views(final(lines)@) =~= line_views(old(lines)@) + body_lines(*f));
}

fn combat_part(lines: &mut Vec<SheetLine>, f: &CharacterFacts)
    ensures
        line_views(final(lines)@) == line_views(old(lines)@) + combat_lines(*f),
{
    add_section(lines, "COMBAT");
    add_info(lines, "Melee", melee_text(f.combat), if f.combat.is_some() {
        Tone::Normal
    } else {
        Tone::Muted
    });
    add_info(lines, "Dodge", dodge_text(f.dodge), Tone::Normal);
    match f.armor {
        Some((b, c, p)) => add_info(lines, "Natural armor", armor_text(b, c, p), Tone::Muted),
        None => {},
    }
    match f.vision {
        Some((d, n)) => add_info(lines, "Vision", vision_text(d, n), Tone::Normal),
        None => {},
    }
    assert(line_views(final(lines)@) =~= line_views(old(lines)@) + combat_lines(*f));
}

fn reading_part(lines: &mut Vec<SheetLine>, f: &CharacterFacts)
    ensures
        line_views(final(lines)@) == line_views(old(lines)@) + reading_lines(*f),
{
    let ghost start = line_views(lines@);
    match &f.temp {
        Some(t) => add_info(lines, "Temp", t.0.clone(), t.1),
        None => {},
    }
    let ghost a = line_views(lines@);
    match f.wetness {
        Some(w) => add_info(lines, "Wetness", String::from_str(wetness_label(w)), Tone::Normal),
        None => {},
    }
    let ghost b = line_views(lines@);
    match f.morale {
        Some(m) => {
            let (text, tone) = morale_display(m);
            add_info(lines, "Morale", text, tone);
        },
        None => {},
    }
    assert(line_views(final(lines)@) =~= line_views(old(lines)@) + reading_lines(*f));
}

fn condition_part(lines: &mut Vec<SheetLine>, f: &CharacterFacts)
    ensures
        line_views(final(lines)@) == line_views(old(lines)@) + condition_lines(*f),
{
    if f.stunned || f.bleeding || f.on_fire {
        add_section(lines, "CONDITIONS");
    }
    if f.stunned {
        add_condition(lines, "STUNNED", Tone::Warning);
    }
    if f.bleeding {
        add_condition(lines, "BLEEDING", Tone::Bad);
    }
    if f.on_fire {
        add_condition(lines, "ON FIRE", Tone::Serious);
    }
    assert(line_views(final(lines)@) =~= line_views(old(lines)@) + condition_lines(*f));
}

fn status_part(lines: &mut Vec<SheetLine>, f: &CharacterFacts)
    ensures
        line_views(final(lines)@) == line_views(old(lines)@) + status_lines(*f),
{
    add_section(lines, "STATUS");
    reading_part(lines, f);
    condition_part(lines, f);
    assert(line_views(final(lines)@) =~= line_views(old(lines)@) + status_lines(*f));
}

/// The overview panel of the character sheet.
pub fn character_overview(f: &CharacterFacts) -> (r: Vec<SheetLine>)
    ensures
        line_views(r@) == sheet_lines(*f),
{
    let mut lines: Vec<SheetLine> = Vec::new();
    identity_part(&mut lines, f);
    body_part(&mut lines, f);
    combat_part(&mut lines, f);
    status_part(&mut lines, f);
    assert(line_views(lines@) =~= sheet_lines(*f));
    lines
}

} // verus!
