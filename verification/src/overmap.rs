//! The overmap viewer's cells: which map tile a grid cell shows, its glyph
//! and colour class, and the flags line of the info panel.
use vstd::prelude::*;
use crate::text::chars_of;
use crate::actions::GameAction;
use crate::screens::{int_exec, int_text};
use crate::text::{decimal, digits};

verus! {

/// Columns of the viewer's grid.
pub const GRID_COLS: usize = 61;
/// Rows of the viewer's grid.
pub const GRID_ROWS: usize = 41;

/// The flags of an overmap terrain type, as the viewer reads them.
#[derive(Clone, Copy, Debug, Default, PartialEq, Eq, Structural)]
pub struct TerrainFlags {
    pub highway: bool,
    pub road: bool,
    pub bridge: bool,
    pub railroad: bool,
    pub river: bool,
    pub lake: bool,
    pub ocean: bool,
    pub forest: bool,
    pub sewer: bool,
    pub subway: bool,
    pub underground: bool,
    pub impassable: bool,
    pub manhole: bool,
    pub line_drawing: bool,
}

/// The glyph of a tile: nothing for the null terrain, a line or shade by
/// the first matching flag (highway, bridge, road, railroad, water, sewer,
/// subway, underground, impassable), else the first character of the
/// terrain's id, else `?`.
pub open spec fn glyph_of(is_null: bool, f: TerrainFlags, id: Option<Seq<char>>) -> Seq<char> {
    if is_null {
        " "@
    } else if f.highway || f.bridge {
        "═"@
    } else if f.road {
        "#"@
    } else if f.railroad {
        "─"@
    } else if f.river || f.ocean || f.lake {
        "~"@
    } else if f.sewer {
        "░"@
    } else if f.subway {
        "▒"@
    } else if f.underground {
        "▓"@
    } else if f.impassable {
        "█"@
    } else {
        match id {
            Some(s) => if s.len() > 0 {
                seq![s[0]]
            } else {
                "?"@
            },
            None => "?"@,
        }
    }
}

/// The glyph of a tile of the grid.
pub fn tile_glyph(is_null: bool, flags: &TerrainFlags, string_id: Option<&str>) -> (r: String)
    ensures
        r@ == glyph_of(is_null, *flags, match string_id { Some(s) => Some(s@), None => None }),
{
    if is_null {
        String::from_str(" ")
    } else if flags.highway || flags.bridge {
        String::from_str("═")
    } else if flags.road {
        String::from_str("#")
    } else if flags.railroad {
        String::from_str("─")
    } else if flags.river || flags.ocean || flags.lake {
        String::from_str("~")
    } else if flags.sewer {
        String::from_str("░")
    } else if flags.subway {
        String::from_str("▒")
    } else if flags.underground {
        String::from_str("▓")
    } else if flags.impassable {
        String::from_str("█")
    } else {
        match string_id {
            Some(s) => {
                let cs = chars_of(s);
                if cs.len() > 0 {
                    let mut one: Vec<char> = Vec::new();
                    one.push(cs[0]);
                    crate::text::string_of(one.as_slice())
                } else {
                    String::from_str("?")
                }
            },
            None => String::from_str("?"),
        }
    }
}

/// The names of a terrain's flags in display order: infrastructure, water,
/// biomes, underground, then the rest.
pub open spec fn flag_names(f: TerrainFlags) -> Seq<Seq<char>> {
    (if f.highway { seq!["highway"@] } else { seq![] }) + (if f.road { seq!["road"@] } else { seq![] })
        + (if f.bridge { seq!["bridge"@] } else { seq![] }) + (if f.railroad {
        seq!["railroad"@]
    } else {
        seq![]
    }) + (if f.river { seq!["river"@] } else { seq![] }) + (if f.lake { seq!["lake"@] } else { seq![] })
        + (if f.ocean { seq!["ocean"@] } else { seq![] }) + (if f.forest { seq!["forest"@] } else { seq![] })
        + (if f.sewer { seq!["sewer"@] } else { seq![] }) + (if f.subway { seq!["subway"@] } else { seq![] })
        + (if f.underground { seq!["underground"@] } else { seq![] }) + (if f.impassable {
        seq!["impassable"@]
    } else {
        seq![]
    }) + (if f.manhole { seq!["manhole"@] } else { seq![] }) + (if f.line_drawing {
        seq!["line"@]
    } else {
        seq![]
    })
}

/// Names joined with `, ` between them.
pub open spec fn join_names(names: Seq<Seq<char>>) -> Seq<char>
    decreases names.len(),
{
    if names.len() == 0 {
        Seq::empty()
    } else if names.len() == 1 {
        names[0]
    } else {
        join_names(names.drop_last()) + ", "@ + names.last()
    }
}

/// The flags line of the info panel: the flag names joined by `, `, or
/// `field` for a terrain without flags.
pub open spec fn flags_text(f: TerrainFlags) -> Seq<char> {
    if flag_names(f).len() == 0 {
        "field"@
    } else {
        join_names(flag_names(f))
    }
}

fn push_name(names: &mut Vec<&'static str>, on: bool, name: &'static str)
    ensures
        final(names)@.map_values(|s: &str| s@) == old(names)@.map_values(|s: &str| s@) + if on {
            seq![name@]
        } else {
            Seq::<Seq<char>>::empty()
        },
{
    if on {
        names.push(name);
    }
    assert(final(names)@.map_values(|s: &str| s@) =~= old(names)@.map_values(|s: &str| s@) + if on {
        seq![name@]
    } else {
        Seq::<Seq<char>>::empty()
    });
}

/// The flags line of the info panel.
pub fn describe_flags(flags: &TerrainFlags) -> (r: String)
    ensures
        r@ == flags_text(*flags),
{
    let mut names: Vec<&'static str> = Vec::new();
    assert(names@.map_values(|s: &str| s@) =~= Seq::<Seq<char>>::empty());
    push_name(&mut names, flags.highway, "highway");
    push_name(&mut names, flags.road, "road");
    push_name(&mut names, flags.bridge, "bridge");
    push_name(&mut names, flags.railroad, "railroad");
    push_name(&mut names, flags.river, "river");
    push_name(&mut names, flags.lake, "lake");
    push_name(&mut names, flags.ocean, "ocean");
    push_name(&mut names, flags.forest, "forest");
    push_name(&mut names, flags.sewer, "sewer");
    push_name(&mut names, flags.subway, "subway");
    push_name(&mut names, flags.underground, "underground");
    push_name(&mut names, flags.impassable, "impassable");
    push_name(&mut names, flags.manhole, "manhole");
    push_name(&mut names, flags.line_drawing, "line");
    let ghost views = names@.map_values(|s: &str| s@);
    assert(views =~= flag_names(*flags));
    if names.len() == 0 {
        return String::from_str("field");
    }
    let mut out = String::from_str(names[0]);
    let mut k: usize = 1;
    assert(views.take(1) =~= seq![views[0]]);
    while k < names.len()
        invariant
            1 <= k <= names@.len(),
            views == names@.map_values(|s: &str| s@),
            out@ == join_names(views.take(k as int)),
        decreases names@.len() - k,
    {
        out.append(", ");
        out.append(names[k]);
        assert(views.take(k + 1).drop_last() =~= views.take(k as int));
        k = k + 1;
    }
    assert(views.take(names@.len() as int) =~= views);
    out
}

/// The colour class of a cell.
#[derive(Clone, Copy, Debug, PartialEq, Eq, Structural)]
pub enum TileClass {
    Center,
    Void,
    Highway,
    Road,
    Bridge,
    Railroad,
    River,
    Ocean,
    Lake,
    Forest,
    Underground,
    Impassable,
    Field,
}

/// The colour class of a cell: the camera's centre, the null terrain, then
/// by the first matching flag.
pub open spec fn class_of(is_center: bool, is_null: bool, f: TerrainFlags) -> TileClass {
    if is_center {
        TileClass::Center
    } else if is_null {
        TileClass::Void
    } else if f.highway {
        TileClass::Highway
    } else if f.road {
        TileClass::Road
    } else if f.bridge {
        TileClass::Bridge
    } else if f.railroad {
        TileClass::Railroad
    } else if f.river {
        TileClass::River
    } else if f.ocean {
        TileClass::Ocean
    } else if f.lake {
        TileClass::Lake
    } else if f.forest {
        TileClass::Forest
    } else if f.underground || f.sewer || f.subway {
        TileClass::Underground
    } else if f.impassable {
        TileClass::Impassable
    } else {
        TileClass::Field
    }
}

/// The colour class of a cell.
pub fn tile_class(is_center: bool, is_null: bool, flags: &TerrainFlags) -> (r: TileClass)
    ensures
        r == class_of(is_center, is_null, *flags),
{
    if is_center {
        TileClass::Center
    } else if is_null {
        TileClass::Void
    } else if flags.highway {
        TileClass::Highway
    } else if flags.road {
        TileClass::Road
    } else if flags.bridge {
        TileClass::Bridge
    } else if flags.railroad {
        TileClass::Railroad
    } else if flags.river {
        TileClass::River
    } else if flags.ocean {
        TileClass::Ocean
    } else if flags.lake {
        TileClass::Lake
    } else if flags.forest {
        TileClass::Forest
    } else if flags.underground || flags.sewer || flags.subway {
        TileClass::Underground
    } else if flags.impassable {
        TileClass::Impassable
    } else {
        TileClass::Field
    }
}

/// The map tile a grid cell shows: columns to the east, rows counted from
/// the top of the grid going north.
pub fn cell_position(top_left: (i32, i32), grid_col: usize, grid_row: usize) -> (r: (i32, i32))
    requires
        grid_col < GRID_COLS,
        grid_row < GRID_ROWS,
        top_left.1 <= i32::MAX - GRID_ROWS,
        top_left.0 <= i32::MAX - GRID_COLS,
    ensures
        r.0 == top_left.0 + grid_col,
        r.1 == top_left.1 + (GRID_ROWS - 1 - grid_row),
{
    let col = grid_col as i32;
    let row = grid_row as i32;
    let rows = GRID_ROWS as i32;
    (top_left.0 + col, top_left.1 + (rows - 1 - row))
}

/// What one action does to the viewer's camera.
#[derive(Clone, Copy, Debug, PartialEq, Eq, Structural)]
pub enum CameraCommand {
    /// Move the centre by this many map tiles east and south.
    Pan(i32, i32),
    /// Go one level up.
    Ascend,
    /// Go one level down.
    Descend,
    /// The action is not the viewer's.
    Ignore,
}

/// The camera command of an action: the arrows pan by one tile, `Custom(1)`
/// (`<`) ascends and `Custom(2)` (`>`) descends; closing the view is left to
/// the screen navigation.
pub open spec fn camera_command_of(action: GameAction) -> CameraCommand {
    match action {
        GameAction::NavigateUp => CameraCommand::Pan(0i32, -1i32),
        GameAction::NavigateDown => CameraCommand::Pan(0i32, 1i32),
        GameAction::NavigateLeft => CameraCommand::Pan(-1i32, 0i32),
        GameAction::NavigateRight => CameraCommand::Pan(1i32, 0i32),
        GameAction::Custom(n) => if n == 1 {
            CameraCommand::Ascend
        } else if n == 2 {
            CameraCommand::Descend
        } else {
            CameraCommand::Ignore
        },
        _ => CameraCommand::Ignore,
    }
}

/// The camera command of an action.
pub fn camera_command(action: GameAction) -> (r: CameraCommand)
    ensures
        r == camera_command_of(action),
{
    match action {
        GameAction::NavigateUp => CameraCommand::Pan(0, -1),
        GameAction::NavigateDown => CameraCommand::Pan(0, 1),
        GameAction::NavigateLeft => CameraCommand::Pan(-1, 0),
        GameAction::NavigateRight => CameraCommand::Pan(1, 0),
        GameAction::Custom(1) => CameraCommand::Ascend,
        GameAction::Custom(2) => CameraCommand::Descend,
        _ => CameraCommand::Ignore,
    }
}

/// The level the camera moves to: one up or down, saturating at the ends of
/// the level type.
pub fn next_level(z: i8, command: CameraCommand) -> (r: i8)
    ensures
        r == match command {
            CameraCommand::Ascend => if z < i8::MAX { (z + 1) as i8 } else { z },
            CameraCommand::Descend => if z > i8::MIN { (z - 1) as i8 } else { z },
            _ => z,
        },
{
    match command {
        CameraCommand::Ascend => if z < i8::MAX {
            z + 1
        } else {
            z
        },
        CameraCommand::Descend => if z > i8::MIN {
            z - 1
        } else {
            z
        },
        _ => z,
    }
}

/// The info panel of a hovered map tile: its position and level, terrain
/// name and type number, flags line, the overmap the camera is on, and the
/// noise seed of the generator.
pub open spec fn hover_info(
    hx: int,
    hy: int,
    z: int,
    name: Seq<char>,
    type_index: nat,
    flags: Seq<char>,
    overmap: (int, int),
    seed: nat,
) -> Seq<char> {
    "Tile: ("@ + int_text(hx) + ", "@ + int_text(hy) + ", "@ + int_text(z) + ")\nTerrain: "@ + name
        + "\nType ID: "@ + digits(type_index, 10) + "\nFlags: "@ + flags + "\nOvermap: ("@
        + int_text(overmap.0) + ", "@ + int_text(overmap.1) + ")\nSeed: "@ + digits(seed, 10)
}

/// The info panel text of a hovered map tile.
pub fn hover_info_text(
    hx: i32,
    hy: i32,
    z: i8,
    name: &str,
    type_index: u32,
    flags: &str,
    overmap: (i32, i32),
    seed: u64,
) -> (r: String)
    ensures
        r@ == hover_info(
            hx as int,
            hy as int,
            z as int,
            name@,
            type_index as nat,
            flags@,
            (overmap.0 as int, overmap.1 as int),
            seed as nat,
        ),
{
    let mut out = String::from_str("Tile: (");
    out.append(int_exec(hx).as_str());
    out.append(", ");
    out.append(int_exec(hy).as_str());
    out.append(", ");
    out.append(int_exec(z as i32).as_str());
    out.append(")\nTerrain: ");
    out.append(name);
    out.append("\nType ID: ");
    out.append(decimal(type_index as u64).as_str());
    out.append("\nFlags: ");
    out.append(flags);
    out.append("\nOvermap: (");
    out.append(int_exec(overmap.0).as_str());
    out.append(", ");
    out.append(int_exec(overmap.1).as_str());
    out.append(")\nSeed: ");
    out.append(decimal(seed).as_str());
    proof {
        reveal_strlit("Tile: (");
        reveal_strlit(", ");
        reveal_strlit(")\nTerrain: ");
        reveal_strlit("\nType ID: ");
        reveal_strlit("\nFlags: ");
        reveal_strlit("\nOvermap: (");
        reveal_strlit(")\nSeed: ");
    }
    out
}

} // verus!
