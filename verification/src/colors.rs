//! Color resolution: the configurable palette (16 ANSI colors and the named
//! specials), the computed 6×6×6 cube and grayscale ramp, and the way from a
//! cell's color through runtime overrides to concrete RGB.

use alacritty_terminal::term::color::Colors;
use alacritty_terminal::vte::ansi::Rgb as TableColor;
use vstd::prelude::*;

verus! {

/// How many slots the color table of a terminal has.
pub const COLOR_COUNT: usize = 269;

/// A color in terminal space: 8-bit sRGB channels.
#[derive(Clone, Copy, Debug, PartialEq, Eq, Structural)]
pub struct Rgb {
    pub r: u8,
    pub g: u8,
    pub b: u8,
}

/// A color that a program can ask for by name.
#[derive(Clone, Copy, Debug, PartialEq, Eq, Structural)]
pub enum NamedColor {
    Black,
    Red,
    Green,
    Yellow,
    Blue,
    Magenta,
    Cyan,
    White,
    BrightBlack,
    BrightRed,
    BrightGreen,
    BrightYellow,
    BrightBlue,
    BrightMagenta,
    BrightCyan,
    BrightWhite,
    Foreground,
    Background,
    Cursor,
    DimBlack,
    DimRed,
    DimGreen,
    DimYellow,
    DimBlue,
    DimMagenta,
    DimCyan,
    DimWhite,
    BrightForeground,
    DimForeground,
}

/// A cell's color: by name, direct, or by its slot in the color table.
#[derive(Clone, Copy, Debug, PartialEq, Eq, Structural)]
pub enum Color {
    Named(NamedColor),
    Spec(Rgb),
    Indexed(u8),
}

impl NamedColor {
    /// The slot of the color table that holds this color.
    pub open spec fn slot(self) -> int {
        match self {
            NamedColor::Black => 0,
            NamedColor::Red => 1,
            NamedColor::Green => 2,
            NamedColor::Yellow => 3,
            NamedColor::Blue => 4,
            NamedColor::Magenta => 5,
            NamedColor::Cyan => 6,
            NamedColor::White => 7,
            NamedColor::BrightBlack => 8,
            NamedColor::BrightRed => 9,
            NamedColor::BrightGreen => 10,
            NamedColor::BrightYellow => 11,
            NamedColor::BrightBlue => 12,
            NamedColor::BrightMagenta => 13,
            NamedColor::BrightCyan => 14,
            NamedColor::BrightWhite => 15,
            NamedColor::Foreground => 256,
            NamedColor::Background => 257,
            NamedColor::Cursor => 258,
            NamedColor::DimBlack => 259,
            NamedColor::DimRed => 260,
            NamedColor::DimGreen => 261,
            NamedColor::DimYellow => 262,
            NamedColor::DimBlue => 263,
            NamedColor::DimMagenta => 264,
            NamedColor::DimCyan => 265,
            NamedColor::DimWhite => 266,
            NamedColor::BrightForeground => 267,
            NamedColor::DimForeground => 268,
        }
    }

    /// The slot of the color table that holds this color.
    pub fn index(self) -> (index: usize)
        ensures
            index == self.slot(),
            index < COLOR_COUNT,
    {
        match self {
            NamedColor::Black => 0,
            NamedColor::Red => 1,
            NamedColor::Green => 2,
            NamedColor::Yellow => 3,
            NamedColor::Blue => 4,
            NamedColor::Magenta => 5,
            NamedColor::Cyan => 6,
            NamedColor::White => 7,
            NamedColor::BrightBlack => 8,
            NamedColor::BrightRed => 9,
            NamedColor::BrightGreen => 10,
            NamedColor::BrightYellow => 11,
            NamedColor::BrightBlue => 12,
            NamedColor::BrightMagenta => 13,
            NamedColor::BrightCyan => 14,
            NamedColor::BrightWhite => 15,
            NamedColor::Foreground => 256,
            NamedColor::Background => 257,
            NamedColor::Cursor => 258,
            NamedColor::DimBlack => 259,
            NamedColor::DimRed => 260,
            NamedColor::DimGreen => 261,
            NamedColor::DimYellow => 262,
            NamedColor::DimBlue => 263,
            NamedColor::DimMagenta => 264,
            NamedColor::DimCyan => 265,
            NamedColor::DimWhite => 266,
            NamedColor::BrightForeground => 267,
            NamedColor::DimForeground => 268,
        }
    }
}

/// The slot that a named color's slot dims to: a normal color to its dim one,
/// a bright color to its normal one, every other to itself.
pub open spec fn dim_slot(slot: int) -> int {
    if slot < 8 {
        slot + 259
    } else if slot < 16 {
        slot - 8
    } else if slot == 256 {
        268
    } else if slot == 267 {
        256
    } else {
        slot
    }
}

fn dim_index(index: usize) -> (dim: usize)
    requires
        index < COLOR_COUNT,
    ensures
        dim == dim_slot(index as int),
        dim < COLOR_COUNT,
{
    if index < 8 {
        index + 259
    } else if index < 16 {
        index - 8
    } else if index == 256 {
        268
    } else if index == 267 {
        256
    } else {
        index
    }
}

/// A channel at 0.66 of its strength, rounded down.
pub open spec fn scaled_channel(v: u8) -> u8 {
    (v as int * 66 / 100) as u8
}

pub open spec fn scaled(rgb: Rgb) -> Rgb {
    Rgb { r: scaled_channel(rgb.r), g: scaled_channel(rgb.g), b: scaled_channel(rgb.b) }
}

fn scale_channel(v: u8) -> (s: u8)
    ensures
        s == scaled_channel(v),
{
    (v as u32 * 66 / 100) as u8
}

/// A color at 0.66 of its strength.
pub fn scale(rgb: Rgb) -> (out: Rgb)
    ensures
        out == scaled(rgb),
{
    Rgb { r: scale_channel(rgb.r), g: scale_channel(rgb.g), b: scale_channel(rgb.b) }
}

/// The user-configurable colors: the 16 ANSI slots, the named specials and the
/// selection highlight.
#[derive(Clone, Copy, Debug, PartialEq)]
pub struct Palette {
    pub foreground: Rgb,
    pub background: Rgb,
    pub cursor: Rgb,
    pub selection: Rgb,
    pub ansi: [Rgb; 16],
}

pub open spec fn default_foreground() -> Rgb {
    Rgb { r: 0xd8, g: 0xd8, b: 0xde }
}

pub open spec fn default_background() -> Rgb {
    Rgb { r: 0x22, g: 0x26, b: 0x2e }
}

pub open spec fn default_selection() -> Rgb {
    Rgb { r: 0xc8, g: 0xd0, b: 0xe0 }
}

/// Muted ANSI colors: black, red, green, yellow, blue, magenta, cyan, white,
/// and the bright ones in the same order.
pub open spec fn default_ansi() -> Seq<Rgb> {
    seq![
        Rgb { r: 0x18, g: 0x18, b: 0x18 },
        Rgb { r: 0xac, g: 0x42, b: 0x42 },
        Rgb { r: 0x90, g: 0xa9, b: 0x59 },
        Rgb { r: 0xf4, g: 0xbf, b: 0x75 },
        Rgb { r: 0x6a, g: 0x9f, b: 0xb5 },
        Rgb { r: 0xaa, g: 0x75, b: 0x9f },
        Rgb { r: 0x75, g: 0xb5, b: 0xaa },
        Rgb { r: 0xd8, g: 0xd8, b: 0xd8 },
        Rgb { r: 0x6b, g: 0x6b, b: 0x6b },
        Rgb { r: 0xc5, g: 0x55, b: 0x55 },
        Rgb { r: 0xaa, g: 0xc4, b: 0x74 },
        Rgb { r: 0xfe, g: 0xca, b: 0x88 },
        Rgb { r: 0x82, g: 0xb8, b: 0xc8 },
        Rgb { r: 0xc2, g: 0x8c, b: 0xb8 },
        Rgb { r: 0x93, g: 0xd3, b: 0xc3 },
        Rgb { r: 0xf8, g: 0xf8, b: 0xf8 },
    ]
}

impl Default for Palette {
    fn default() -> (palette: Self)
        ensures
            palette.foreground == default_foreground(),
            palette.background == default_background(),
            palette.cursor == default_foreground(),
            palette.selection == default_selection(),
            palette.ansi@ == default_ansi(),
    {
        let palette = Palette {
            foreground: Rgb { r: 0xd8, g: 0xd8, b: 0xde },
            background: Rgb { r: 0x22, g: 0x26, b: 0x2e },
            cursor: Rgb { r: 0xd8, g: 0xd8, b: 0xde },
            selection: Rgb { r: 0xc8, g: 0xd0, b: 0xe0 },
            ansi: [
                Rgb { r: 0x18, g: 0x18, b: 0x18 },
                Rgb { r: 0xac, g: 0x42, b: 0x42 },
                Rgb { r: 0x90, g: 0xa9, b: 0x59 },
                Rgb { r: 0xf4, g: 0xbf, b: 0x75 },
                Rgb { r: 0x6a, g: 0x9f, b: 0xb5 },
                Rgb { r: 0xaa, g: 0x75, b: 0x9f },
                Rgb { r: 0x75, g: 0xb5, b: 0xaa },
                Rgb { r: 0xd8, g: 0xd8, b: 0xd8 },
                Rgb { r: 0x6b, g: 0x6b, b: 0x6b },
                Rgb { r: 0xc5, g: 0x55, b: 0x55 },
                Rgb { r: 0xaa, g: 0xc4, b: 0x74 },
                Rgb { r: 0xfe, g: 0xca, b: 0x88 },
                Rgb { r: 0x82, g: 0xb8, b: 0xc8 },
                Rgb { r: 0xc2, g: 0x8c, b: 0xb8 },
                Rgb { r: 0x93, g: 0xd3, b: 0xc3 },
                Rgb { r: 0xf8, g: 0xf8, b: 0xf8 },
            ],
        };
        assert(palette.ansi@ =~= default_ansi());
        palette
    }
}

/// The configuration's name for an ANSI slot.
pub open spec fn ansi_name_of(slot: int) -> Seq<char> {
    if slot == 0 {
        "black"@
    } else if slot == 1 {
        "red"@
    } else if slot == 2 {
        "green"@
    } else if slot == 3 {
        "yellow"@
    } else if slot == 4 {
        "blue"@
    } else if slot == 5 {
        "magenta"@
    } else if slot == 6 {
        "cyan"@
    } else if slot == 7 {
        "white"@
    } else if slot == 8 {
        "bright_black"@
    } else if slot == 9 {
        "bright_red"@
    } else if slot == 10 {
        "bright_green"@
    } else if slot == 11 {
        "bright_yellow"@
    } else if slot == 12 {
        "bright_blue"@
    } else if slot == 13 {
        "bright_magenta"@
    } else if slot == 14 {
        "bright_cyan"@
    } else {
        "bright_white"@
    }
}

/// The configuration's name for an ANSI slot.
pub fn ansi_name(slot: usize) -> (name: &'static str)
    requires
        slot < 16,
    ensures
        name@ == ansi_name_of(slot as int),
{
    if slot == 0 {
        "black"
    } else if slot == 1 {
        "red"
    } else if slot == 2 {
        "green"
    } else if slot == 3 {
        "yellow"
    } else if slot == 4 {
        "blue"
    } else if slot == 5 {
        "magenta"
    } else if slot == 6 {
        "cyan"
    } else if slot == 7 {
        "white"
    } else if slot == 8 {
        "bright_black"
    } else if slot == 9 {
        "bright_red"
    } else if slot == 10 {
        "bright_green"
    } else if slot == 11 {
        "bright_yellow"
    } else if slot == 12 {
        "bright_blue"
    } else if slot == 13 {
        "bright_magenta"
    } else if slot == 14 {
        "bright_cyan"
    } else {
        "bright_white"
    }
}

/// The `terminal.colors` entries of the configuration, each parsed to RGBA
/// bytes where it is there and well-formed.
#[derive(Clone, Copy, Debug, PartialEq)]
pub struct ColorConfig {
    pub foreground: Option<[u8; 4]>,
    pub background: Option<[u8; 4]>,
    pub cursor: Option<[u8; 4]>,
    pub selection: Option<[u8; 4]>,
    pub ansi: [Option<[u8; 4]>; 16],
}

/// The color of an entry; its alpha is not used.
pub open spec fn entry_rgb(entry: Option<[u8; 4]>) -> Option<Rgb> {
    match entry {
        Some(bytes) => Some(Rgb { r: bytes@[0], g: bytes@[1], b: bytes@[2] }),
        None => None,
    }
}

/// The color of an entry, or `fallback` without one.
pub open spec fn entry_or(entry: Option<[u8; 4]>, fallback: Rgb) -> Rgb {
    match entry_rgb(entry) {
        Some(rgb) => rgb,
        None => fallback,
    }
}

fn config_rgb(entry: Option<[u8; 4]>) -> (rgb: Option<Rgb>)
    ensures
        rgb == entry_rgb(entry),
{
    match entry {
        Some(bytes) => Some(Rgb { r: bytes[0], g: bytes[1], b: bytes[2] }),
        None => None,
    }
}

impl Palette {
    /// The palette is the compiled one with the configured entries on top.
    pub open spec fn configured_by(self, config: ColorConfig) -> bool {
        &&& self.foreground == entry_or(config.foreground, default_foreground())
        &&& self.background == entry_or(config.background, default_background())
        &&& self.cursor == entry_or(config.cursor, self.foreground)
        &&& self.selection == entry_or(config.selection, default_selection())
        &&& forall|i: int|
            0 <= i < 16 ==> #[trigger] self.ansi@[i] == entry_or(config.ansi@[i], default_ansi()[i])
    }

    /// The compiled defaults with the configured entries on top. The cursor
    /// follows the foreground unless it is set itself.
    pub fn from_config(config: &ColorConfig) -> (palette: Self)
        ensures
            palette.configured_by(*config),
    {
        let mut palette = Palette::default();
        if let Some(rgb) = config_rgb(config.foreground) {
            palette.foreground = rgb;
            palette.cursor = rgb;
        }
        if let Some(rgb) = config_rgb(config.background) {
            palette.background = rgb;
        }
        if let Some(rgb) = config_rgb(config.cursor) {
            palette.cursor = rgb;
        }
        if let Some(rgb) = config_rgb(config.selection) {
            palette.selection = rgb;
        }
        let mut ansi = palette.ansi;
        let mut slot: usize = 0;
        while slot < 16
            invariant
                slot <= 16,
                forall|i: int|
                    0 <= i < 16 ==> #[trigger] ansi@[i] == if i < slot {
                        entry_or(config.ansi@[i], default_ansi()[i])
                    } else {
                        default_ansi()[i]
                    },
            decreases 16 - slot,
        {
            if let Some(rgb) = config_rgb(config.ansi[slot]) {
                ansi[slot] = rgb;
            }
            slot = slot + 1;
        }
        palette.ansi = ansi;
        palette
    }
}

/// A level of the color cube: 0, 95, 135, 175, 215, 255.
pub open spec fn cube_level(v: int) -> int {
    if v == 0 {
        0
    } else {
        55 + 40 * v
    }
}

/// The color of a slot that nothing overrides: ANSI colors, the 6×6×6 cube,
/// the grayscale ramp, then the named specials.
pub open spec fn slot_default(slot: int, palette: Palette) -> Rgb {
    if 0 <= slot < 16 {
        palette.ansi@[slot]
    } else if slot < 232 {
        let i = slot - 16;
        Rgb {
            r: cube_level(i / 36) as u8,
            g: cube_level(i / 6 % 6) as u8,
            b: cube_level(i % 6) as u8,
        }
    } else if slot < 256 {
        let v = (8 + 10 * (slot - 232)) as u8;
        Rgb { r: v, g: v, b: v }
    } else if slot == 257 {
        palette.background
    } else if slot == 258 {
        palette.cursor
    } else if 259 <= slot <= 266 {
        scaled(palette.ansi@[slot - 259])
    } else if slot == 268 {
        scaled(palette.foreground)
    } else {
        palette.foreground
    }
}

fn level(v: usize) -> (l: u8)
    requires
        v < 6,
    ensures
        l == cube_level(v as int),
{
    if v == 0 {
        0
    } else {
        (55 + v * 40) as u8
    }
}

/// The default color of a slot of the color table.
pub fn default_color(index: usize, palette: &Palette) -> (rgb: Rgb)
    ensures
        rgb == slot_default(index as int, *palette),
{
    if index < 16 {
        palette.ansi[index]
    } else if index < 232 {
        let i: usize = index - 16;
        Rgb { r: level(i / 36), g: level((i / 6) % 6), b: level(i % 6) }
    } else if index < 256 {
        let v: u8 = (8 + (index - 232) * 10) as u8;
        Rgb { r: v, g: v, b: v }
    } else if index == 257 {
        palette.background
    } else if index == 258 {
        palette.cursor
    } else if 259 <= index && index <= 266 {
        scale(palette.ansi[index - 259])
    } else if index == 268 {
        scale(palette.foreground)
    } else {
        palette.foreground
    }
}

/// `alacritty_terminal::term::color::Colors`: the table of runtime overrides,
/// one optional color for each slot.
#[verifier::external_type_specification]
#[verifier::external_body]
pub struct ExColors(Colors);

/// `alacritty_terminal::vte::ansi::Rgb`, which indexing that table hands out.
#[verifier::external_type_specification]
#[verifier::external_body]
pub struct ExTableColor(TableColor);

/// The overrides that a table holds, slot by slot.
pub uninterp spec fn override_slots(colors: Colors) -> Seq<Option<(u8, u8, u8)>>;

/// `<Colors as Index<usize>>::index`: the override in a slot. The table is an
/// array of 269 slots, and an index behind them panics.
#[verifier::external_body]
fn override_at(colors: &Colors, index: usize) -> (rgb: Option<(u8, u8, u8)>)
    requires
        index < COLOR_COUNT,
    ensures
        rgb == override_slots(*colors)[index as int],
{
    match colors[index] {
        Some(rgb) => Some((rgb.r, rgb.g, rgb.b)),
        None => None,
    }
}

/// The color of a slot: its override, else its default.
pub open spec fn slot_color(
    slot: int,
    overrides: Seq<Option<(u8, u8, u8)>>,
    palette: Palette,
) -> Rgb {
    match overrides[slot] {
        Some((r, g, b)) => Rgb { r, g, b },
        None => slot_default(slot, palette),
    }
}

/// The color that `found` overrides in a slot, else the slot's default.
pub fn overridden(found: Option<(u8, u8, u8)>, index: usize, palette: &Palette) -> (rgb: Rgb)
    ensures
        rgb == match found {
            Some((r, g, b)) => Rgb { r, g, b },
            None => slot_default(index as int, *palette),
        },
{
    match found {
        Some((r, g, b)) => Rgb { r, g, b },
        None => default_color(index, palette),
    }
}

/// The color of a slot through the terminal's runtime overrides.
pub fn indexed(index: usize, overrides: &Colors, palette: &Palette) -> (rgb: Rgb)
    requires
        index < COLOR_COUNT,
    ensures
        rgb == slot_color(index as int, override_slots(*overrides), *palette),
{
    overridden(override_at(overrides, index), index, palette)
}

/// A cell color as RGB. Dimming routes a named color to its dim slot and
/// scales the others.
pub open spec fn resolved(
    color: Color,
    overrides: Seq<Option<(u8, u8, u8)>>,
    dim: bool,
    palette: Palette,
) -> Rgb {
    match color {
        Color::Spec(rgb) => if dim {
            scaled(rgb)
        } else {
            rgb
        },
        Color::Named(name) => slot_color(
            if dim {
                dim_slot(name.slot())
            } else {
                name.slot()
            },
            overrides,
            palette,
        ),
        Color::Indexed(i) => if dim {
            scaled(slot_color(i as int, overrides, palette))
        } else {
            slot_color(i as int, overrides, palette)
        },
    }
}

/// A cell color as RGB, through the runtime overrides.
pub fn resolve(color: Color, overrides: &Colors, dim: bool, palette: &Palette) -> (rgb: Rgb)
    ensures
        rgb == resolved(color, override_slots(*overrides), dim, *palette),
{
    match color {
        Color::Spec(rgb) => if dim {
            scale(rgb)
        } else {
            rgb
        },
        Color::Named(name) => {
            let index: usize = name.index();
            let index: usize = if dim {
                dim_index(index)
            } else {
                index
            };
            indexed(index, overrides, palette)
        },
        Color::Indexed(i) => {
            let rgb = indexed(i as usize, overrides, palette);
            if dim {
                scale(rgb)
            } else {
                rgb
            }
        },
    }
}

/// An override wins over the configured palette, whatever way a color comes to
/// its slot; without one the palette decides.
pub proof fn override_wins(
    name: NamedColor,
    overrides: Seq<Option<(u8, u8, u8)>>,
    palette: Palette,
)
    ensures
        overrides[name.slot()] matches Some((r, g, b)) ==> resolved(
            Color::Named(name),
            overrides,
            false,
            palette,
        ) == (Rgb { r, g, b }),
        overrides[name.slot()] is None ==> resolved(Color::Named(name), overrides, false, palette)
            == slot_default(name.slot(), palette),
        name.slot() < 256 ==> resolved(Color::Indexed(name.slot() as u8), overrides, false, palette)
            == resolved(Color::Named(name), overrides, false, palette),
{
}

/// Where nothing is overridden, dimming a normal color or the foreground by
/// name is scaling it.
pub proof fn dim_names_scale(
    name: NamedColor,
    overrides: Seq<Option<(u8, u8, u8)>>,
    palette: Palette,
)
    requires
        name.slot() < 8 || name == NamedColor::Foreground,
        overrides[name.slot()] is None,
        overrides[dim_slot(name.slot())] is None,
    ensures
        resolved(Color::Named(name), overrides, true, palette) == scaled(
            resolved(Color::Named(name), overrides, false, palette),
        ),
{
}

/// Dimming a bright color by name gives the normal one, overrides and all.
pub proof fn dim_bright_is_normal(
    bright: NamedColor,
    normal: NamedColor,
    overrides: Seq<Option<(u8, u8, u8)>>,
    palette: Palette,
)
    requires
        (8 <= bright.slot() < 16 && normal.slot() == bright.slot() - 8) || (bright
            == NamedColor::BrightForeground && normal == NamedColor::Foreground),
    ensures
        resolved(Color::Named(bright), overrides, true, palette) == resolved(
            Color::Named(normal),
            overrides,
            false,
            palette,
        ),
{
}

/// The cube holds every combination of its six levels, red slowest and blue
/// fastest.
pub proof fn cube_is_complete(r: int, g: int, b: int, palette: Palette)
    requires
        0 <= r < 6,
        0 <= g < 6,
        0 <= b < 6,
    ensures
        slot_default(16 + 36 * r + 6 * g + b, palette) == (Rgb {
            r: cube_level(r) as u8,
            g: cube_level(g) as u8,
            b: cube_level(b) as u8,
        }),
{
    let i = 36 * r + 6 * g + b;
    assert(i / 36 == r);
    assert(i / 6 == 6 * r + g);
    assert(i % 6 == b);
}

/// The grayscale ramp climbs in steps of ten.
pub proof fn gray_ramp_climbs(slot: int, palette: Palette)
    requires
        232 <= slot < 255,
    ensures
        slot_default(slot + 1, palette).r == slot_default(slot, palette).r + 10,
        slot_default(slot, palette).r == slot_default(slot, palette).g == slot_default(
            slot,
            palette,
        ).b,
{
}

/// An entry of the configuration shows in its own place, red, green and blue
/// as they stand and whatever its alpha; a place without an entry shows what
/// it shows without any, but for the cursor, which follows the foreground.
pub proof fn entries_show_in_their_place(
    palette: Palette,
    config: ColorConfig,
    plain: Palette,
    none: ColorConfig,
    i: int,
)
    requires
        palette.configured_by(config),
        plain.configured_by(none),
        none.foreground is None && none.background is None,
        none.cursor is None && none.selection is None,
        forall|i: int| 0 <= i < 16 ==> #[trigger] none.ansi@[i] is None,
        0 <= i < 16,
    ensures
        config.foreground matches Some(e) ==> palette.foreground == (Rgb {
            r: e@[0],
            g: e@[1],
            b: e@[2],
        }),
        config.background matches Some(e) ==> palette.background == (Rgb {
            r: e@[0],
            g: e@[1],
            b: e@[2],
        }),
        config.cursor matches Some(e) ==> palette.cursor == (Rgb { r: e@[0], g: e@[1], b: e@[2] }),
        config.selection matches Some(e) ==> palette.selection == (Rgb {
            r: e@[0],
            g: e@[1],
            b: e@[2],
        }),
        config.ansi@[i] matches Some(e) ==> palette.ansi@[i] == (Rgb {
            r: e@[0],
            g: e@[1],
            b: e@[2],
        }),
        config.foreground is None ==> palette.foreground == plain.foreground,
        config.background is None ==> palette.background == plain.background,
        config.cursor is None ==> palette.cursor == palette.foreground,
        config.selection is None ==> palette.selection == plain.selection,
        config.ansi@[i] is None ==> palette.ansi@[i] == plain.ansi@[i],
{
    assert(none.ansi@[i] is None);
}

/// The bright colors are configured under the names of the normal ones with
/// `bright_` before them, and no two slots share a name.
pub proof fn bright_names_say_so(slot: int, other: int)
    requires
        0 <= slot < 8,
        0 <= other < 8,
    ensures
        ansi_name_of(slot + 8) == "bright_"@ + ansi_name_of(slot),
        slot != other ==> ansi_name_of(slot) != ansi_name_of(other),
{
    reveal_strlit("bright_");
    reveal_strlit("black");
    reveal_strlit("bright_black");
    reveal_strlit("red");
    reveal_strlit("bright_red");
    reveal_strlit("green");
    reveal_strlit("bright_green");
    reveal_strlit("yellow");
    reveal_strlit("bright_yellow");
    reveal_strlit("blue");
    reveal_strlit("bright_blue");
    reveal_strlit("magenta");
    reveal_strlit("bright_magenta");
    reveal_strlit("cyan");
    reveal_strlit("bright_cyan");
    reveal_strlit("white");
    reveal_strlit("bright_white");
    assert("bright_"@ + "black"@ =~= "bright_black"@);
    assert("bright_"@ + "red"@ =~= "bright_red"@);
    assert("bright_"@ + "green"@ =~= "bright_green"@);
    assert("bright_"@ + "yellow"@ =~= "bright_yellow"@);
    assert("bright_"@ + "blue"@ =~= "bright_blue"@);
    assert("bright_"@ + "magenta"@ =~= "bright_magenta"@);
    assert("bright_"@ + "cyan"@ =~= "bright_cyan"@);
    assert("bright_"@ + "white"@ =~= "bright_white"@);
    assert(ansi_name_of(slot).len() != ansi_name_of(other).len() || ansi_name_of(slot)[0]
        != ansi_name_of(other)[0] || ansi_name_of(slot)[2] != ansi_name_of(other)[2] || slot
        == other);
}

/// Scaling takes each channel to 0.66 of its strength, rounded down, and never
/// mixes channels.
pub proof fn scaling_goes_channel_by_channel(rgb: Rgb)
    ensures
        100 * scaled(rgb).r <= 66 * rgb.r < 100 * (scaled(rgb).r + 1),
        100 * scaled(rgb).g <= 66 * rgb.g < 100 * (scaled(rgb).g + 1),
        100 * scaled(rgb).b <= 66 * rgb.b < 100 * (scaled(rgb).b + 1),
{
}

/// What the slots hold where nothing overrides them: the ANSI colors and the
/// named specials are the palette's, their dim ones are scaled from it, the
/// cube and the ramp are nobody's, and every slot past the last is the
/// foreground.
pub proof fn slots_are_the_palettes(slot: int, palette: Palette, other: Palette)
    ensures
        0 <= slot < 16 ==> slot_default(slot, palette) == palette.ansi@[slot],
        16 <= slot < 256 ==> slot_default(slot, palette) == slot_default(slot, other),
        slot_default(256, palette) == palette.foreground,
        slot_default(257, palette) == palette.background,
        slot_default(258, palette) == palette.cursor,
        259 <= slot < 267 ==> slot_default(slot, palette) == scaled(
            slot_default(slot - 259, palette),
        ),
        slot_default(267, palette) == slot_default(256, palette),
        slot_default(268, palette) == scaled(slot_default(256, palette)),
        slot >= 269 ==> slot_default(slot, palette) == palette.foreground,
        slot_default(232, palette) == (Rgb { r: 8, g: 8, b: 8 }),
{
}

/// The levels of the cube are 0, then 95 and up in steps of 40 to 255.
pub proof fn cube_levels_climb(v: int)
    requires
        0 <= v < 5,
    ensures
        cube_level(0) == 0,
        cube_level(5) == 255,
        cube_level(v + 1) - cube_level(v) == if v == 0 {
            95int
        } else {
            40
        },
{
}

/// How a cell's color becomes RGB: a direct one is itself and asks nobody; one
/// by its slot is the slot's override or default; dim scales both of these.
/// One by name is its slot's too, and dim takes it to another slot: the eight
/// normal colors and the foreground to their dim ones, the bright ones to the
/// normal ones, and every other stays where it is.
pub proof fn colors_resolve_by_kind(
    rgb: Rgb,
    slot: u8,
    name: NamedColor,
    target: NamedColor,
    slots: Seq<Option<(u8, u8, u8)>>,
    palette: Palette,
)
    ensures
        resolved(Color::Spec(rgb), slots, false, palette) == rgb,
        resolved(Color::Spec(rgb), slots, true, palette) == scaled(rgb),
        slots[slot as int] matches Some((r, g, b)) ==> resolved(
            Color::Indexed(slot),
            slots,
            false,
            palette,
        ) == (Rgb { r, g, b }),
        slots[slot as int] is None ==> resolved(Color::Indexed(slot), slots, false, palette)
            == slot_default(slot as int, palette),
        resolved(Color::Indexed(slot), slots, true, palette) == scaled(
            resolved(Color::Indexed(slot), slots, false, palette),
        ),
        slots[name.slot()] matches Some((r, g, b)) ==> resolved(
            Color::Named(name),
            slots,
            false,
            palette,
        ) == (Rgb { r, g, b }),
        slots[name.slot()] is None ==> resolved(Color::Named(name), slots, false, palette)
            == slot_default(name.slot(), palette),
        ({
            let from = name.slot();
            let to = target.slot();
            ||| from < 8 && to == from + 259
            ||| 8 <= from < 16 && to == from - 8
            ||| name == NamedColor::Foreground && target == NamedColor::DimForeground
            ||| name == NamedColor::BrightForeground && target == NamedColor::Foreground
            ||| from >= 16 && name != NamedColor::Foreground && name
                != NamedColor::BrightForeground && target == name
        }) ==> resolved(Color::Named(name), slots, true, palette) == resolved(
            Color::Named(target),
            slots,
            false,
            palette,
        ),
{
}

/// A color as the number that its hex notation is read as.
pub open spec fn hex(rgb: Rgb) -> int {
    0x10000 * rgb.r + 0x100 * rgb.g + rgb.b
}

/// The palette of an empty configuration, in hex; its cursor is its foreground.
pub proof fn the_compiled_palette(palette: Palette, config: ColorConfig)
    requires
        palette.configured_by(config),
        config.foreground is None && config.background is None,
        config.cursor is None && config.selection is None,
        forall|i: int| 0 <= i < 16 ==> #[trigger] config.ansi@[i] is None,
    ensures
        hex(palette.foreground) == 0xd8d8de,
        palette.cursor == palette.foreground,
        hex(palette.background) == 0x22262e,
        hex(palette.selection) == 0xc8d0e0,
        hex(palette.ansi@[0]) == 0x181818,
        hex(palette.ansi@[1]) == 0xac4242,
        hex(palette.ansi@[2]) == 0x90a959,
        hex(palette.ansi@[3]) == 0xf4bf75,
        hex(palette.ansi@[4]) == 0x6a9fb5,
        hex(palette.ansi@[5]) == 0xaa759f,
        hex(palette.ansi@[6]) == 0x75b5aa,
        hex(palette.ansi@[7]) == 0xd8d8d8,
        hex(palette.ansi@[8]) == 0x6b6b6b,
        hex(palette.ansi@[9]) == 0xc55555,
        hex(palette.ansi@[10]) == 0xaac474,
        hex(palette.ansi@[11]) == 0xfeca88,
        hex(palette.ansi@[12]) == 0x82b8c8,
        hex(palette.ansi@[13]) == 0xc28cb8,
        hex(palette.ansi@[14]) == 0x93d3c3,
        hex(palette.ansi@[15]) == 0xf8f8f8,
{
    assert forall|i: int| 0 <= i < 16 implies #[trigger] palette.ansi@[i] == default_ansi()[i] by {
        assert(config.ansi@[i] is None);
    }
}

} // verus!
