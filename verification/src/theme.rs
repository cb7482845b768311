//! The interface theme: three presets, switchable from the settings screen.
use vstd::prelude::*;

verus! {

/// A colour preset of the interface.
#[derive(Clone, Copy, Debug, PartialEq, Eq, Structural)]
pub enum ThemePreset {
    Blue,
    Green,
    Amber,
}

/// The presets in the order the settings screen cycles through them.
pub open spec fn preset_at(index: int) -> ThemePreset {
    if index == 0 {
        ThemePreset::Blue
    } else if index == 1 {
        ThemePreset::Green
    } else {
        ThemePreset::Amber
    }
}

/// The position of a preset in the cycle.
pub open spec fn preset_index(p: ThemePreset) -> int {
    match p {
        ThemePreset::Blue => 0,
        ThemePreset::Green => 1,
        ThemePreset::Amber => 2,
    }
}

impl ThemePreset {
    pub const ALL: [ThemePreset; 3] = [ThemePreset::Blue, ThemePreset::Green, ThemePreset::Amber];

    /// The name shown for the preset.
    pub fn label(self) -> (r: &'static str)
        ensures
            r@ == preset_label(self),
    {
        match self {
            ThemePreset::Blue => "Blue",
            ThemePreset::Green => "Green",
            ThemePreset::Amber => "Amber",
        }
    }
}

impl Default for ThemePreset {
    /// Blue.
    fn default() -> (p: ThemePreset)
        ensures
            p == ThemePreset::Blue,
    {
        ThemePreset::Blue
    }
}

/// The name shown for a preset.
pub open spec fn preset_label(p: ThemePreset) -> Seq<char> {
    match p {
        ThemePreset::Blue => "Blue"@,
        ThemePreset::Green => "Green"@,
        ThemePreset::Amber => "Amber"@,
    }
}

/// The theme every screen reads.
#[derive(Clone, Copy, Debug, PartialEq, Eq, Structural)]
pub struct UiTheme {
    pub preset: ThemePreset,
}

impl Default for UiTheme {
    /// The green preset.
    fn default() -> (t: UiTheme)
        ensures
            t.preset == ThemePreset::Green,
    {
        UiTheme { preset: ThemePreset::Green }
    }
}

/// The preset at `index` of the cycle, counted around it.
pub fn preset_for_index(index: usize) -> (p: ThemePreset)
    ensures
        p == preset_at(index as int % 3),
{
    let all = ThemePreset::ALL;
    let p = all[index % 3];
    assert(p == preset_at(index as int % 3));
    p
}

/// The position of `preset` in the cycle.
pub fn index_of_preset(preset: ThemePreset) -> (i: usize)
    ensures
        i == preset_index(preset),
        preset_at(i as int) == preset,
{
    let all = ThemePreset::ALL;
    let mut i: usize = 0;
    while i < 3
        invariant
            i <= 3,
            all@ == seq![ThemePreset::Blue, ThemePreset::Green, ThemePreset::Amber],
            forall|j: int| 0 <= j < i ==> all@[j] != preset,
        decreases 3 - i,
    {
        if all[i] == preset {
            return i;
        }
        i = i + 1;
    }
    assert(all@[preset_index(preset)] == preset);
    0
}

} // verus!
