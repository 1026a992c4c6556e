//! Theme palettes: the built-in colour schemes, custom theme files that
//! override a base palette field by field, and the colour names those files
//! may use.
//!
//! Custom themes live as `<name>.toml` files in the theme directory. A file
//! may `extends` a built-in or another custom theme; its colours then apply
//! on top of that base. Reading and parsing the files is the caller's part:
//! `ThemeResolver` says which file it needs next and takes what was read.

use crate::config::{builtin_for_normalized, theme_config_name, BuiltInTheme, ThemeChoice, ThemeChoiceModel};
use crate::files::Listed;
use crate::paths::{extension, file_stem, join, join_path, spec_extension, spec_file_stem};
use crate::rng::is_permutation_of_range;
use crate::sorting::{sorted_stably, stable_order};
use crate::text::{char_views, chars_are, chars_eq, chars_of, normalize_chars, normalized, push_str, string_from_chars, views};
use vstd::prelude::*;

verus! {

/// A terminal colour: reset to the terminal default, one of the sixteen ANSI
/// colours, or a true colour.
#[derive(Debug, Clone, Copy, PartialEq, Eq, Structural)]
pub enum Color {
    Reset,
    Black,
    Red,
    Green,
    Yellow,
    Blue,
    Magenta,
    Cyan,
    Gray,
    DarkGray,
    LightRed,
    LightGreen,
    LightYellow,
    LightBlue,
    LightMagenta,
    LightCyan,
    White,
    Rgb(u8, u8, u8),
}

#[derive(Debug, Clone, Copy, PartialEq, Eq, Structural)]
pub struct Theme {
    pub bg: Color,
    pub fg: Color,
    pub fg_dim: Color,
    pub border: Color,
    pub border_focus: Color,
    pub accent: Color,
    pub note: Color,
    pub instrument: Color,
    pub volume: Color,
    pub effect: Color,
    pub meter_low: Color,
    pub meter_mid: Color,
    pub meter_high: Color,
    pub current_row_bg: Color,
}

pub open spec fn default_truecolor_palette() -> Theme {
    Theme {
        bg: Color::Reset,
        fg: Color::Rgb(0xc8, 0xd0, 0xc4),
        fg_dim: Color::Rgb(0x60, 0x6a, 0x66),
        border: Color::Rgb(0x36, 0x44, 0x44),
        border_focus: Color::Rgb(0x7a, 0xc8, 0xb0),
        accent: Color::Rgb(0xff, 0x6f, 0xc0),
        note: Color::Rgb(0x9d, 0xe6, 0xc5),
        instrument: Color::Rgb(0x8d, 0xc2, 0xff),
        volume: Color::Rgb(0xff, 0xc4, 0x7a),
        effect: Color::Rgb(0xff, 0x8a, 0xa9),
        meter_low: Color::Rgb(0x5d, 0xa8, 0x88),
        meter_mid: Color::Rgb(0xff, 0xc4, 0x7a),
        meter_high: Color::Rgb(0xff, 0x5d, 0x5d),
        current_row_bg: Color::Rgb(0x1d, 0x2a, 0x28),
    }
}

pub open spec fn sixteen_palette() -> Theme {
    Theme {
        bg: Color::Reset,
        fg: Color::Gray,
        fg_dim: Color::DarkGray,
        border: Color::DarkGray,
        border_focus: Color::Cyan,
        accent: Color::Magenta,
        note: Color::Green,
        instrument: Color::Cyan,
        volume: Color::Yellow,
        effect: Color::LightMagenta,
        meter_low: Color::Green,
        meter_mid: Color::Yellow,
        meter_high: Color::Red,
        current_row_bg: Color::DarkGray,
    }
}

pub open spec fn neon_blue_palette() -> Theme {
    Theme {
        bg: Color::Reset,
        fg: Color::Rgb(0xd8, 0xf7, 0xff),
        fg_dim: Color::Rgb(0x5a, 0x8f, 0xaa),
        border: Color::Rgb(0x16, 0x48, 0x66),
        border_focus: Color::Rgb(0x00, 0xcc, 0xff),
        accent: Color::Rgb(0x33, 0xf6, 0xff),
        note: Color::Rgb(0x8f, 0xef, 0xff),
        instrument: Color::Rgb(0x4c, 0xb8, 0xff),
        volume: Color::Rgb(0x6c, 0xe7, 0xff),
        effect: Color::Rgb(0xb6, 0xf4, 0xff),
        meter_low: Color::Rgb(0x16, 0x8d, 0xff),
        meter_mid: Color::Rgb(0x22, 0xd8, 0xff),
        meter_high: Color::Rgb(0xe2, 0xfb, 0xff),
        current_row_bg: Color::Rgb(0x06, 0x28, 0x3b),
    }
}

pub open spec fn neon_green_palette() -> Theme {
    Theme {
        bg: Color::Reset,
        fg: Color::Rgb(0xd8, 0xff, 0xdf),
        fg_dim: Color::Rgb(0x5a, 0xaa, 0x6a),
        border: Color::Rgb(0x16, 0x5a, 0x22),
        border_focus: Color::Rgb(0x00, 0xff, 0x66),
        accent: Color::Rgb(0x33, 0xff, 0x88),
        note: Color::Rgb(0x8f, 0xff, 0xa0),
        instrument: Color::Rgb(0x4c, 0xff, 0xaa),
        volume: Color::Rgb(0x6c, 0xff, 0xc0),
        effect: Color::Rgb(0xb6, 0xff, 0xe0),
        meter_low: Color::Rgb(0x16, 0xcc, 0x44),
        meter_mid: Color::Rgb(0x22, 0xff, 0x77),
        meter_high: Color::Rgb(0xe2, 0xff, 0xf0),
        current_row_bg: Color::Rgb(0x06, 0x28, 0x10),
    }
}

pub open spec fn neon_orange_palette() -> Theme {
    Theme {
        bg: Color::Reset,
        fg: Color::Rgb(0xff, 0xf0, 0xd8),
        fg_dim: Color::Rgb(0xaa, 0x88, 0x5a),
        border: Color::Rgb(0x66, 0x33, 0x16),
        border_focus: Color::Rgb(0xff, 0x88, 0x00),
        accent: Color::Rgb(0xff, 0xaa, 0x33),
        note: Color::Rgb(0xff, 0xd5, 0x8f),
        instrument: Color::Rgb(0xff, 0x8c, 0x4c),
        volume: Color::Rgb(0xff, 0xc6, 0x6c),
        effect: Color::Rgb(0xff, 0xd4, 0xb6),
        meter_low: Color::Rgb(0xff, 0x6a, 0x16),
        meter_mid: Color::Rgb(0xff, 0xa0, 0x22),
        meter_high: Color::Rgb(0xff, 0xf2, 0xe2),
        current_row_bg: Color::Rgb(0x3b, 0x1f, 0x06),
    }
}

pub open spec fn c64_palette() -> Theme {
    Theme {
        bg: Color::Rgb(0x35, 0x28, 0x79),
        fg: Color::Rgb(0x6c, 0x5e, 0xb5),
        fg_dim: Color::Rgb(0x4a, 0x3d, 0x99),
        border: Color::Rgb(0x6c, 0x5e, 0xb5),
        border_focus: Color::White,
        accent: Color::White,
        note: Color::Rgb(0x6c, 0x5e, 0xb5),
        instrument: Color::Rgb(0x70, 0xa4, 0xb2),
        volume: Color::White,
        effect: Color::Rgb(0x9a, 0x67, 0x59),
        meter_low: Color::Rgb(0x6c, 0x5e, 0xb5),
        meter_mid: Color::White,
        meter_high: Color::Rgb(0x9a, 0x67, 0x59),
        current_row_bg: Color::Rgb(0x4a, 0x3d, 0x99),
    }
}

pub open spec fn mono_palette() -> Theme {
    Theme {
        bg: Color::Black,
        fg: Color::Rgb(0xe0, 0xe0, 0xe0),
        fg_dim: Color::Rgb(0x70, 0x70, 0x70),
        border: Color::Rgb(0x40, 0x40, 0x40),
        border_focus: Color::White,
        accent: Color::White,
        note: Color::Rgb(0xd0, 0xd0, 0xd0),
        instrument: Color::Rgb(0xb0, 0xb0, 0xb0),
        volume: Color::Rgb(0xc0, 0xc0, 0xc0),
        effect: Color::Rgb(0x90, 0x90, 0x90),
        meter_low: Color::Rgb(0x60, 0x60, 0x60),
        meter_mid: Color::Rgb(0xa0, 0xa0, 0xa0),
        meter_high: Color::White,
        current_row_bg: Color::Rgb(0x1a, 0x1a, 0x1a),
    }
}

/// The high-contrast palette: the default one with plain white text and
/// borders, gray dim text, a yellow focus border and a magenta accent.
pub open spec fn high_contrast_palette() -> Theme {
    Theme {
        fg: Color::White,
        fg_dim: Color::Gray,
        border: Color::White,
        border_focus: Color::Yellow,
        accent: Color::Magenta,
        current_row_bg: Color::DarkGray,
        ..default_truecolor_palette()
    }
}

/// The palette of a built-in theme.
pub open spec fn builtin_palette(t: BuiltInTheme) -> Theme {
    match t {
        BuiltInTheme::Default => default_truecolor_palette(),
        BuiltInTheme::HighContrast => high_contrast_palette(),
        BuiltInTheme::Sixteen => sixteen_palette(),
        BuiltInTheme::NeonBlue => neon_blue_palette(),
        BuiltInTheme::NeonGreen => neon_green_palette(),
        BuiltInTheme::NeonOrange => neon_orange_palette(),
        BuiltInTheme::C64 => c64_palette(),
        BuiltInTheme::Mono => mono_palette(),
    }
}

impl Theme {
    pub fn built_in(theme: BuiltInTheme) -> (r: Theme)
        ensures
            r == builtin_palette(theme),
    {
        match theme {
            BuiltInTheme::Default => Theme::default_truecolor(),
            BuiltInTheme::HighContrast => Theme::high_contrast(),
            BuiltInTheme::Sixteen => Theme::sixteen(),
            BuiltInTheme::NeonBlue => Theme::neon_blue(),
            BuiltInTheme::NeonGreen => Theme::neon_green(),
            BuiltInTheme::NeonOrange => Theme::neon_orange(),
            BuiltInTheme::C64 => Theme::c64(),
            BuiltInTheme::Mono => Theme::mono(),
        }
    }

    pub fn high_contrast() -> (r: Theme)
        ensures
            r == high_contrast_palette(),
    {
        let mut t = Theme::default_truecolor();
        t.fg = Color::White;
        t.fg_dim = Color::Gray;
        t.border = Color::White;
        t.border_focus = Color::Yellow;
        t.accent = Color::Magenta;
        t.current_row_bg = Color::DarkGray;
        t
    }

    pub fn default_truecolor() -> (r: Theme)
        ensures
            r == default_truecolor_palette(),
    {
        Theme {
            bg: Color::Reset,
            fg: Color::Rgb(0xc8, 0xd0, 0xc4),
            fg_dim: Color::Rgb(0x60, 0x6a, 0x66),
            border: Color::Rgb(0x36, 0x44, 0x44),
            border_focus: Color::Rgb(0x7a, 0xc8, 0xb0),
            accent: Color::Rgb(0xff, 0x6f, 0xc0),
            note: Color::Rgb(0x9d, 0xe6, 0xc5),
            instrument: Color::Rgb(0x8d, 0xc2, 0xff),
            volume: Color::Rgb(0xff, 0xc4, 0x7a),
            effect: Color::Rgb(0xff, 0x8a, 0xa9),
            meter_low: Color::Rgb(0x5d, 0xa8, 0x88),
            meter_mid: Color::Rgb(0xff, 0xc4, 0x7a),
            meter_high: Color::Rgb(0xff, 0x5d, 0x5d),
            current_row_bg: Color::Rgb(0x1d, 0x2a, 0x28),
        }
    }

    pub fn sixteen() -> (r: Theme)
        ensures
            r == sixteen_palette(),
    {
        Theme {
            bg: Color::Reset,
            fg: Color::Gray,
            fg_dim: Color::DarkGray,
            border: Color::DarkGray,
            border_focus: Color::Cyan,
            accent: Color::Magenta,
            note: Color::Green,
            instrument: Color::Cyan,
            volume: Color::Yellow,
            effect: Color::LightMagenta,
            meter_low: Color::Green,
            meter_mid: Color::Yellow,
            meter_high: Color::Red,
            current_row_bg: Color::DarkGray,
        }
    }

    pub fn neon_blue() -> (r: Theme)
        ensures
            r == neon_blue_palette(),
    {
        Theme {
            bg: Color::Reset,
            fg: Color::Rgb(0xd8, 0xf7, 0xff),
            fg_dim: Color::Rgb(0x5a, 0x8f, 0xaa),
            border: Color::Rgb(0x16, 0x48, 0x66),
            border_focus: Color::Rgb(0x00, 0xcc, 0xff),
            accent: Color::Rgb(0x33, 0xf6, 0xff),
            note: Color::Rgb(0x8f, 0xef, 0xff),
            instrument: Color::Rgb(0x4c, 0xb8, 0xff),
            volume: Color::Rgb(0x6c, 0xe7, 0xff),
            effect: Color::Rgb(0xb6, 0xf4, 0xff),
            meter_low: Color::Rgb(0x16, 0x8d, 0xff),
            meter_mid: Color::Rgb(0x22, 0xd8, 0xff),
            meter_high: Color::Rgb(0xe2, 0xfb, 0xff),
            current_row_bg: Color::Rgb(0x06, 0x28, 0x3b),
        }
    }

    pub fn neon_green() -> (r: Theme)
        ensures
            r == neon_green_palette(),
    {
        Theme {
            bg: Color::Reset,
            fg: Color::Rgb(0xd8, 0xff, 0xdf),
            fg_dim: Color::Rgb(0x5a, 0xaa, 0x6a),
            border: Color::Rgb(0x16, 0x5a, 0x22),
            border_focus: Color::Rgb(0x00, 0xff, 0x66),
            accent: Color::Rgb(0x33, 0xff, 0x88),
            note: Color::Rgb(0x8f, 0xff, 0xa0),
            instrument: Color::Rgb(0x4c, 0xff, 0xaa),
            volume: Color::Rgb(0x6c, 0xff, 0xc0),
            effect: Color::Rgb(0xb6, 0xff, 0xe0),
            meter_low: Color::Rgb(0x16, 0xcc, 0x44),
            meter_mid: Color::Rgb(0x22, 0xff, 0x77),
            meter_high: Color::Rgb(0xe2, 0xff, 0xf0),
            current_row_bg: Color::Rgb(0x06, 0x28, 0x10),
        }
    }

    pub fn neon_orange() -> (r: Theme)
        ensures
            r == neon_orange_palette(),
    {
        Theme {
            bg: Color::Reset,
            fg: Color::Rgb(0xff, 0xf0, 0xd8),
            fg_dim: Color::Rgb(0xaa, 0x88, 0x5a),
            border: Color::Rgb(0x66, 0x33, 0x16),
            border_focus: Color::Rgb(0xff, 0x88, 0x00),
            accent: Color::Rgb(0xff, 0xaa, 0x33),
            note: Color::Rgb(0xff, 0xd5, 0x8f),
            instrument: Color::Rgb(0xff, 0x8c, 0x4c),
            volume: Color::Rgb(0xff, 0xc6, 0x6c),
            effect: Color::Rgb(0xff, 0xd4, 0xb6),
            meter_low: Color::Rgb(0xff, 0x6a, 0x16),
            meter_mid: Color::Rgb(0xff, 0xa0, 0x22),
            meter_high: Color::Rgb(0xff, 0xf2, 0xe2),
            current_row_bg: Color::Rgb(0x3b, 0x1f, 0x06),
        }
    }

    pub fn c64() -> (r: Theme)
        ensures
            r == c64_palette(),
    {
        Theme {
            bg: Color::Rgb(0x35, 0x28, 0x79),
            fg: Color::Rgb(0x6c, 0x5e, 0xb5),
            fg_dim: Color::Rgb(0x4a, 0x3d, 0x99),
            border: Color::Rgb(0x6c, 0x5e, 0xb5),
            border_focus: Color::White,
            accent: Color::White,
            note: Color::Rgb(0x6c, 0x5e, 0xb5),
            instrument: Color::Rgb(0x70, 0xa4, 0xb2),
            volume: Color::White,
            effect: Color::Rgb(0x9a, 0x67, 0x59),
            meter_low: Color::Rgb(0x6c, 0x5e, 0xb5),
            meter_mid: Color::White,
            meter_high: Color::Rgb(0x9a, 0x67, 0x59),
            current_row_bg: Color::Rgb(0x4a, 0x3d, 0x99),
        }
    }

    pub fn mono() -> (r: Theme)
        ensures
            r == mono_palette(),
    {
        Theme {
            bg: Color::Black,
            fg: Color::Rgb(0xe0, 0xe0, 0xe0),
            fg_dim: Color::Rgb(0x70, 0x70, 0x70),
            border: Color::Rgb(0x40, 0x40, 0x40),
            border_focus: Color::White,
            accent: Color::White,
            note: Color::Rgb(0xd0, 0xd0, 0xd0),
            instrument: Color::Rgb(0xb0, 0xb0, 0xb0),
            volume: Color::Rgb(0xc0, 0xc0, 0xc0),
            effect: Color::Rgb(0x90, 0x90, 0x90),
            meter_low: Color::Rgb(0x60, 0x60, 0x60),
            meter_mid: Color::Rgb(0xa0, 0xa0, 0xa0),
            meter_high: Color::White,
            current_row_bg: Color::Rgb(0x1a, 0x1a, 0x1a),
        }
    }
}

/// The colour a normalized name denotes.
pub open spec fn named_color(n: Seq<char>) -> Option<Color> {
    if n == "reset"@ {
        Some(Color::Reset)
    } else if n == "black"@ {
        Some(Color::Black)
    } else if n == "red"@ {
        Some(Color::Red)
    } else if n == "green"@ {
        Some(Color::Green)
    } else if n == "yellow"@ {
        Some(Color::Yellow)
    } else if n == "blue"@ {
        Some(Color::Blue)
    } else if n == "magenta"@ {
        Some(Color::Magenta)
    } else if n == "cyan"@ {
        Some(Color::Cyan)
    } else if n == "gray"@ || n == "grey"@ {
        Some(Color::Gray)
    } else if n == "dark-gray"@ || n == "dark-grey"@ {
        Some(Color::DarkGray)
    } else if n == "light-red"@ {
        Some(Color::LightRed)
    } else if n == "light-green"@ {
        Some(Color::LightGreen)
    } else if n == "light-yellow"@ {
        Some(Color::LightYellow)
    } else if n == "light-blue"@ {
        Some(Color::LightBlue)
    } else if n == "light-magenta"@ {
        Some(Color::LightMagenta)
    } else if n == "light-cyan"@ {
        Some(Color::LightCyan)
    } else if n == "white"@ {
        Some(Color::White)
    } else {
        None
    }
}

/// Every colour name denotes the colour of that name, however it is written
/// (surrounding blanks, any ASCII case, `_` or ` ` for `-`): a value whose
/// normalized form is a colour name parses to exactly that colour.
pub proof fn color_names_denote_their_colors(value: Seq<char>)
    ensures
        normalized(value) == "reset"@ ==> color_of(value) == Ok::<Color, ColorError>(Color::Reset),
        normalized(value) == "black"@ ==> color_of(value) == Ok::<Color, ColorError>(Color::Black),
        normalized(value) == "red"@ ==> color_of(value) == Ok::<Color, ColorError>(Color::Red),
        normalized(value) == "green"@ ==> color_of(value) == Ok::<Color, ColorError>(Color::Green),
        normalized(value) == "yellow"@ ==> color_of(value) == Ok::<Color, ColorError>(Color::Yellow),
        normalized(value) == "blue"@ ==> color_of(value) == Ok::<Color, ColorError>(Color::Blue),
        normalized(value) == "magenta"@ ==> color_of(value) == Ok::<Color, ColorError>(
            Color::Magenta,
        ),
        normalized(value) == "cyan"@ ==> color_of(value) == Ok::<Color, ColorError>(Color::Cyan),
        normalized(value) == "gray"@ ==> color_of(value) == Ok::<Color, ColorError>(Color::Gray),
        normalized(value) == "grey"@ ==> color_of(value) == Ok::<Color, ColorError>(Color::Gray),
        normalized(value) == "dark-gray"@ ==> color_of(value) == Ok::<Color, ColorError>(
            Color::DarkGray,
        ),
        normalized(value) == "dark-grey"@ ==> color_of(value) == Ok::<Color, ColorError>(
            Color::DarkGray,
        ),
        normalized(value) == "light-red"@ ==> color_of(value) == Ok::<Color, ColorError>(
            Color::LightRed,
        ),
        normalized(value) == "light-green"@ ==> color_of(value) == Ok::<Color, ColorError>(
            Color::LightGreen,
        ),
        normalized(value) == "light-yellow"@ ==> color_of(value) == Ok::<Color, ColorError>(
            Color::LightYellow,
        ),
        normalized(value) == "light-blue"@ ==> color_of(value) == Ok::<Color, ColorError>(
            Color::LightBlue,
        ),
        normalized(value) == "light-magenta"@ ==> color_of(value) == Ok::<Color, ColorError>(
            Color::LightMagenta,
        ),
        normalized(value) == "light-cyan"@ ==> color_of(value) == Ok::<Color, ColorError>(
            Color::LightCyan,
        ),
        normalized(value) == "white"@ ==> color_of(value) == Ok::<Color, ColorError>(Color::White),
{
    reveal_strlit("reset");
    reveal_strlit("black");
    reveal_strlit("red");
    reveal_strlit("green");
    reveal_strlit("yellow");
    reveal_strlit("blue");
    reveal_strlit("magenta");
    reveal_strlit("cyan");
    reveal_strlit("gray");
    reveal_strlit("grey");
    reveal_strlit("dark-gray");
    reveal_strlit("dark-grey");
    reveal_strlit("light-red");
    reveal_strlit("light-green");
    reveal_strlit("light-yellow");
    reveal_strlit("light-blue");
    reveal_strlit("light-magenta");
    reveal_strlit("light-cyan");
    reveal_strlit("white");
}

/// Why a colour value was refused.
#[derive(Debug, Clone, Copy, PartialEq, Eq, Structural)]
pub enum ColorError {
    /// Neither a colour name nor `#` and six characters.
    NotAColor,
    /// `#` and six characters, but not three hexadecimal bytes.
    BadHex,
}

/// The number of UTF-8 bytes of a character.
pub open spec fn utf8_width(c: char) -> nat {
    if (c as int) < 0x80 {
        1
    } else if (c as int) < 0x800 {
        2
    } else if (c as int) < 0x10000 {
        3
    } else {
        4
    }
}

/// The number of UTF-8 bytes of a text.
pub open spec fn utf8_len(s: Seq<char>) -> nat
    decreases s.len(),
{
    if s.len() == 0 {
        0
    } else {
        utf8_len(s.drop_last()) + utf8_width(s.last())
    }
}

/// Whether byte offset `b` of the text is the start of a character (or its
/// end).
pub open spec fn is_char_boundary(s: Seq<char>, b: nat) -> bool {
    exists|k: int| 0 <= k <= s.len() && #[trigger] utf8_len(s.subrange(0, k)) == b
}

/// A `#` and six more bytes: the shape of a hex colour.
pub open spec fn hex_shaped(n: Seq<char>) -> bool {
    n.len() > 0 && n[0] == '#' && utf8_len(n) == 7
}

/// Reading the three two-byte pieces of a hex-shaped text cuts a character
/// in two.
pub open spec fn hex_cut_splits_char(n: Seq<char>) -> bool {
    hex_shaped(n) && !(is_char_boundary(n, 3) && is_char_boundary(n, 5))
}

/// The value of a hexadecimal digit.
pub open spec fn hex_digit(c: char) -> Option<nat> {
    if '0' <= c && c <= '9' {
        Some((c as int - '0' as int) as nat)
    } else if 'a' <= c && c <= 'f' {
        Some((c as int - 'a' as int + 10) as nat)
    } else if 'A' <= c && c <= 'F' {
        Some((c as int - 'A' as int + 10) as nat)
    } else {
        None
    }
}

/// A two-character piece read as a hexadecimal byte, as `u8::from_str_radix`
/// reads it: two digits, or `+` and one digit.
pub open spec fn hex_byte(a: char, b: char) -> Option<u8> {
    if a == '+' {
        match hex_digit(b) {
            Some(d) => Some(d as u8),
            None => None,
        }
    } else {
        match (hex_digit(a), hex_digit(b)) {
            (Some(x), Some(y)) => Some((x * 16 + y) as u8),
            _ => None,
        }
    }
}

/// The colour a theme file's value denotes: after trimming, ASCII
/// lower-casing and turning `_` and spaces into `-`, a colour name, or `#`
/// followed by three hexadecimal bytes.
pub open spec fn color_of(value: Seq<char>) -> Result<Color, ColorError> {
    let n = normalized(value);
    match named_color(n) {
        Some(c) => Ok(c),
        None => if hex_shaped(n) {
            if n.len() == 7 {
                match (hex_byte(n[1], n[2]), hex_byte(n[3], n[4]), hex_byte(n[5], n[6])) {
                    (Some(r), Some(g), Some(b)) => Ok(Color::Rgb(r, g, b)),
                    _ => Err(ColorError::BadHex),
                }
            } else {
                Err(ColorError::BadHex)
            }
        } else {
            Err(ColorError::NotAColor)
        },
    }
}

fn hex_digit_exec(c: char) -> (r: Option<u8>)
    ensures
        match hex_digit(c) {
            Some(d) => r == Some(d as u8) && d < 16,
            None => r is None,
        },
{
    if '0' <= c && c <= '9' {
        Some((c as u32 - '0' as u32) as u8)
    } else if 'a' <= c && c <= 'f' {
        Some((c as u32 - 'a' as u32 + 10) as u8)
    } else if 'A' <= c && c <= 'F' {
        Some((c as u32 - 'A' as u32 + 10) as u8)
    } else {
        None
    }
}

fn hex_byte_exec(a: char, b: char) -> (r: Option<u8>)
    ensures
        r == hex_byte(a, b),
{
    if a == '+' {
        hex_digit_exec(b)
    } else {
        match (hex_digit_exec(a), hex_digit_exec(b)) {
            (Some(x), Some(y)) => Some(x * 16 + y),
            _ => None,
        }
    }
}

fn utf8_width_exec(c: char) -> (r: usize)
    ensures
        r == utf8_width(c),
{
    let v = c as u32;
    if v < 0x80 {
        1
    } else if v < 0x800 {
        2
    } else if v < 0x10000 {
        3
    } else {
        4
    }
}

proof fn lemma_utf8_len_at_least(s: Seq<char>)
    ensures
        utf8_len(s) >= s.len(),
        utf8_len(s) == s.len() ==> forall|i: int| 0 <= i < s.len() ==> utf8_width(#[trigger] s[i]) == 1,
    decreases s.len(),
{
    if s.len() > 0 {
        lemma_utf8_len_at_least(s.drop_last());
        assert forall|i: int| 0 <= i < s.len() && utf8_len(s) == s.len() implies utf8_width(
            #[trigger] s[i],
        ) == 1 by {
            if i < s.len() - 1 {
                assert(s.drop_last()[i] == s[i]);
            }
        }
    }
}

/// Parse a theme file's colour value. A hex-shaped value whose byte pieces
/// would cut a character in two is outside what this accepts.
pub fn parse_color(value: &str) -> (r: Result<Color, ColorError>)
    requires
        !hex_cut_splits_char(normalized(value@)),
    ensures
        r == color_of(value@),
{
    let raw = chars_of(value);
    let n = normalize_chars(raw.as_slice());
    let n = n.as_slice();
    let named = if chars_are(n, "reset") {
        Some(Color::Reset)
    } else if chars_are(n, "black") {
        Some(Color::Black)
    } else if chars_are(n, "red") {
        Some(Color::Red)
    } else if chars_are(n, "green") {
        Some(Color::Green)
    } else if chars_are(n, "yellow") {
        Some(Color::Yellow)
    } else if chars_are(n, "blue") {
        Some(Color::Blue)
    } else if chars_are(n, "magenta") {
        Some(Color::Magenta)
    } else if chars_are(n, "cyan") {
        Some(Color::Cyan)
    } else if chars_are(n, "gray") || chars_are(n, "grey") {
        Some(Color::Gray)
    } else if chars_are(n, "dark-gray") || chars_are(n, "dark-grey") {
        Some(Color::DarkGray)
    } else if chars_are(n, "light-red") {
        Some(Color::LightRed)
    } else if chars_are(n, "light-green") {
        Some(Color::LightGreen)
    } else if chars_are(n, "light-yellow") {
        Some(Color::LightYellow)
    } else if chars_are(n, "light-blue") {
        Some(Color::LightBlue)
    } else if chars_are(n, "light-magenta") {
        Some(Color::LightMagenta)
    } else if chars_are(n, "light-cyan") {
        Some(Color::LightCyan)
    } else if chars_are(n, "white") {
        Some(Color::White)
    } else {
        None
    };
    if let Some(c) = named {
        return Ok(c);
    }
    if n.len() == 0 || n[0] != '#' {
        return Err(ColorError::NotAColor);
    }
    let mut bytes: usize = 0;
    let mut i: usize = 0;
    while i < n.len() && bytes <= 7
        invariant
            i <= n@.len(),
            bytes == utf8_len(n@.subrange(0, i as int)),
        decreases n@.len() - i,
    {
        proof {
            assert(n@.subrange(0, i + 1).drop_last() =~= n@.subrange(0, i as int));
        }
        bytes = bytes + utf8_width_exec(n[i]);
        i = i + 1;
    }
    proof {
        if i < n@.len() {
            lemma_utf8_prefix_grows(n@, i as int);
        } else {
            assert(n@.subrange(0, n@.len() as int) =~= n@);
        }
    }
    if i < n.len() || bytes != 7 {
        return Err(ColorError::NotAColor);
    }
    if n.len() != 7 {
        return Err(ColorError::BadHex);
    }
    match (hex_byte_exec(n[1], n[2]), hex_byte_exec(n[3], n[4]), hex_byte_exec(n[5], n[6])) {
        (Some(r), Some(g), Some(b)) => Ok(Color::Rgb(r, g, b)),
        _ => Err(ColorError::BadHex),
    }
}

/// A longer prefix of a text has at least as many bytes.
proof fn lemma_utf8_prefix_grows(s: Seq<char>, k: int)
    requires
        0 <= k <= s.len(),
    ensures
        utf8_len(s) >= utf8_len(s.subrange(0, k)),
    decreases s.len() - k,
{
    if k < s.len() {
        lemma_utf8_prefix_grows(s, k + 1);
        assert(s.subrange(0, k + 1).drop_last() =~= s.subrange(0, k));
    } else {
        assert(s.subrange(0, k) =~= s);
    }
}

/// The fields a theme file may set, in the order they are applied.
#[derive(Debug, Clone, Copy, PartialEq, Eq, Structural)]
pub enum ThemeField {
    Bg,
    Fg,
    FgDim,
    Border,
    BorderFocus,
    Accent,
    Note,
    Instrument,
    Volume,
    Effect,
    MeterLow,
    MeterMid,
    MeterHigh,
    CurrentRowBg,
}

/// The contents of a theme file: an optional base to extend, and an optional
/// colour value per field.
pub struct ThemeFile {
    pub extends: Option<ThemeChoice>,
    pub bg: Option<String>,
    pub fg: Option<String>,
    pub fg_dim: Option<String>,
    pub border: Option<String>,
    pub border_focus: Option<String>,
    pub accent: Option<String>,
    pub note: Option<String>,
    pub instrument: Option<String>,
    pub volume: Option<String>,
    pub effect: Option<String>,
    pub meter_low: Option<String>,
    pub meter_mid: Option<String>,
    pub meter_high: Option<String>,
    pub current_row_bg: Option<String>,
}

/// Why a theme could not be built.
#[derive(Debug, Clone, PartialEq, Eq)]
pub enum ThemeError {
    /// A field's colour value was refused.
    InvalidColor(ThemeField),
    /// The chain of `extends` returns to this theme.
    Cycle(String),
    /// There is no theme directory to read custom themes from.
    NoThemeDirectory,
}

/// The field values of a theme file, in application order.
pub open spec fn field_values(f: ThemeFile) -> Seq<Option<String>> {
    seq![
        f.bg,
        f.fg,
        f.fg_dim,
        f.border,
        f.border_focus,
        f.accent,
        f.note,
        f.instrument,
        f.volume,
        f.effect,
        f.meter_low,
        f.meter_mid,
        f.meter_high,
        f.current_row_bg,
    ]
}

/// The field at position `i` of the application order.
pub open spec fn field_at(i: int) -> ThemeField {
    if i == 0 {
        ThemeField::Bg
    } else if i == 1 {
        ThemeField::Fg
    } else if i == 2 {
        ThemeField::FgDim
    } else if i == 3 {
        ThemeField::Border
    } else if i == 4 {
        ThemeField::BorderFocus
    } else if i == 5 {
        ThemeField::Accent
    } else if i == 6 {
        ThemeField::Note
    } else if i == 7 {
        ThemeField::Instrument
    } else if i == 8 {
        ThemeField::Volume
    } else if i == 9 {
        ThemeField::Effect
    } else if i == 10 {
        ThemeField::MeterLow
    } else if i == 11 {
        ThemeField::MeterMid
    } else if i == 12 {
        ThemeField::MeterHigh
    } else {
        ThemeField::CurrentRowBg
    }
}

/// A field value is usable: absent, or a colour `parse_color` decides
/// without cutting a character.
pub open spec fn value_parsable(v: Option<String>) -> bool {
    match v {
        Some(s) => !hex_cut_splits_char(normalized(s@)),
        None => true,
    }
}

/// Every field value of the file is usable.
pub open spec fn file_parsable(f: ThemeFile) -> bool {
    forall|i: int| 0 <= i < 14 ==> #[trigger] value_parsable(field_values(f)[i])
}

/// Whether a field value is refused.
pub open spec fn value_refused(v: Option<String>) -> bool {
    match v {
        Some(s) => color_of(s@) is Err,
        None => false,
    }
}

/// The first field (in application order) whose value is refused.
pub open spec fn first_refused(vs: Seq<Option<String>>, from: nat) -> Option<int>
    decreases 14 - from,
{
    if from >= 14 {
        None
    } else if value_refused(vs[from as int]) {
        Some(from as int)
    } else {
        first_refused(vs, from + 1)
    }
}

/// A slot after applying a value: the value's colour, or the slot unchanged.
pub open spec fn set_slot(slot: Color, v: Option<String>) -> Color {
    match v {
        Some(s) => match color_of(s@) {
            Ok(c) => c,
            Err(_) => slot,
        },
        None => slot,
    }
}

/// `base` with every colour the file gives put in place.
pub open spec fn overlaid(f: ThemeFile, base: Theme) -> Theme {
    Theme {
        bg: set_slot(base.bg, f.bg),
        fg: set_slot(base.fg, f.fg),
        fg_dim: set_slot(base.fg_dim, f.fg_dim),
        border: set_slot(base.border, f.border),
        border_focus: set_slot(base.border_focus, f.border_focus),
        accent: set_slot(base.accent, f.accent),
        note: set_slot(base.note, f.note),
        instrument: set_slot(base.instrument, f.instrument),
        volume: set_slot(base.volume, f.volume),
        effect: set_slot(base.effect, f.effect),
        meter_low: set_slot(base.meter_low, f.meter_low),
        meter_mid: set_slot(base.meter_mid, f.meter_mid),
        meter_high: set_slot(base.meter_high, f.meter_high),
        current_row_bg: set_slot(base.current_row_bg, f.current_row_bg),
    }
}

/// The theme a file makes of `base`: refused at its first refused value,
/// otherwise `base` with the file's colours in place.
pub open spec fn applied(f: ThemeFile, base: Theme) -> Result<Theme, ThemeError> {
    match first_refused(field_values(f), 0) {
        Some(i) => Err(ThemeError::InvalidColor(field_at(i))),
        None => Ok(overlaid(f, base)),
    }
}

/// Put one field value in place.
fn apply_value(slot: &mut Color, value: &Option<String>) -> (r: bool)
    requires
        value_parsable(*value),
    ensures
        r == !value_refused(*value),
        r ==> *final(slot) == set_slot(*old(slot), *value),
{
    match value {
        Some(v) => match parse_color(v.as_str()) {
            Ok(c) => {
                *slot = c;
                true
            },
            Err(_) => false,
        },
        None => true,
    }
}

impl ThemeFile {
    /// Apply the file's colours to `base`.
    pub fn apply(&self, base: Theme) -> (r: Result<Theme, ThemeError>)
        requires
            file_parsable(*self),
        ensures
            r == applied(*self, base),
    {
        let ghost vs = field_values(*self);
        proof {
            assert forall|i: int| 0 <= i < 14 implies value_parsable(#[trigger] vs[i]) by {}
            assert(value_parsable(vs[0]) && value_parsable(vs[1]) && value_parsable(vs[2])
                && value_parsable(vs[3]) && value_parsable(vs[4]) && value_parsable(vs[5])
                && value_parsable(vs[6]) && value_parsable(vs[7]) && value_parsable(vs[8])
                && value_parsable(vs[9]) && value_parsable(vs[10]) && value_parsable(vs[11])
                && value_parsable(vs[12]) && value_parsable(vs[13]));
            reveal_with_fuel(first_refused, 15);
        }
        let mut t = base;
        if !apply_value(&mut t.bg, &self.bg) {
            return Err(ThemeError::InvalidColor(ThemeField::Bg));
        }
        if !apply_value(&mut t.fg, &self.fg) {
            return Err(ThemeError::InvalidColor(ThemeField::Fg));
        }
        if !apply_value(&mut t.fg_dim, &self.fg_dim) {
            return Err(ThemeError::InvalidColor(ThemeField::FgDim));
        }
        if !apply_value(&mut t.border, &self.border) {
            return Err(ThemeError::InvalidColor(ThemeField::Border));
        }
        if !apply_value(&mut t.border_focus, &self.border_focus) {
            return Err(ThemeError::InvalidColor(ThemeField::BorderFocus));
        }
        if !apply_value(&mut t.accent, &self.accent) {
            return Err(ThemeError::InvalidColor(ThemeField::Accent));
        }
        if !apply_value(&mut t.note, &self.note) {
            return Err(ThemeError::InvalidColor(ThemeField::Note));
        }
        if !apply_value(&mut t.instrument, &self.instrument) {
            return Err(ThemeError::InvalidColor(ThemeField::Instrument));
        }
        if !apply_value(&mut t.volume, &self.volume) {
            return Err(ThemeError::InvalidColor(ThemeField::Volume));
        }
        if !apply_value(&mut t.effect, &self.effect) {
            return Err(ThemeError::InvalidColor(ThemeField::Effect));
        }
        if !apply_value(&mut t.meter_low, &self.meter_low) {
            return Err(ThemeError::InvalidColor(ThemeField::MeterLow));
        }
        if !apply_value(&mut t.meter_mid, &self.meter_mid) {
            return Err(ThemeError::InvalidColor(ThemeField::MeterMid));
        }
        if !apply_value(&mut t.meter_high, &self.meter_high) {
            return Err(ThemeError::InvalidColor(ThemeField::MeterHigh));
        }
        if !apply_value(&mut t.current_row_bg, &self.current_row_bg) {
            return Err(ThemeError::InvalidColor(ThemeField::CurrentRowBg));
        }
        Ok(t)
    }
}

/// The file a custom theme is read from: `<name>.toml` in the theme
/// directory (`name` itself when it already ends in `.toml`).
pub open spec fn theme_file_name(name: Seq<char>) -> Seq<char> {
    if name.len() >= 5 && name.subrange(name.len() - 5, name.len() as int) == ".toml"@ {
        name
    } else {
        name + ".toml"@
    }
}

pub fn custom_theme_path(theme_dir: Option<&str>, name: &str) -> (r: Result<String, ThemeError>)
    ensures
        match theme_dir {
            None => r == Err::<String, ThemeError>(ThemeError::NoThemeDirectory),
            Some(d) => r matches Ok(p) && p@ == join(d@, theme_file_name(name@)),
        },
{
    let dir = match theme_dir {
        Some(d) => d,
        None => return Err(ThemeError::NoThemeDirectory),
    };
    let n = chars_of(name);
    let ext = chars_of(".toml");
    let ends = crate::text::ends_with_chars(n.as_slice(), ext.as_slice());
    let mut file: Vec<char> = Vec::new();
    crate::text::push_all(&mut file, n.as_slice());
    if !ends {
        push_str(&mut file, ".toml");
    }
    proof {
        reveal_strlit(".toml");
        assert(file@ == theme_file_name(name@));
    }
    let f = string_from_chars(file.as_slice());
    Ok(join_path(dir, f.as_str()))
}

/// What building a custom theme needs next.
pub enum ThemeStep {
    /// Read and parse the theme file of this name, and feed it in.
    NeedFile(String),
    /// The theme is built.
    Done(Theme),
}

/// Builds a custom theme through its chain of `extends`: it asks for one
/// theme file at a time, innermost base last, and once a file extends a
/// built-in theme (or nothing) it applies the files from the innermost out.
pub struct ThemeResolver {
    /// The names asked for so far, outermost first.
    stack: Vec<String>,
    /// The files fed in so far, outermost first.
    files: Vec<ThemeFile>,
}

/// The theme a chain of files makes of `base`, applying the last file first:
/// refused at the first file (from the innermost out) that refuses.
pub open spec fn applied_chain(files: Seq<ThemeFile>, base: Theme) -> Result<Theme, ThemeError>
    decreases files.len(),
{
    if files.len() == 0 {
        Ok(base)
    } else {
        match applied(files.last(), base) {
            Err(e) => Err(e),
            Ok(t) => applied_chain(files.drop_last(), t),
        }
    }
}

/// Whether the names hold `n`.
pub open spec fn names_hold(names: Seq<String>, n: Seq<char>) -> bool {
    exists|i: int| 0 <= i < names.len() && (#[trigger] names[i])@ == n
}

/// Whether the names hold `n`.
fn names_contain(names: &Vec<String>, n: &str) -> (r: bool)
    ensures
        r == names_hold(names@, n@),
{
    let p = chars_of(n);
    let mut i: usize = 0;
    while i < names.len()
        invariant
            i <= names@.len(),
            p@ == n@,
            forall|k: int| 0 <= k < i ==> (#[trigger] names@[k])@ != n@,
        decreases names@.len() - i,
    {
        let seen = chars_of(names[i].as_str());
        if chars_eq(seen.as_slice(), p.as_slice()) {
            return true;
        }
        i = i + 1;
    }
    false
}

impl ThemeResolver {
    pub closed spec fn names(&self) -> Seq<String> {
        self.stack@
    }

    pub closed spec fn chain(&self) -> Seq<ThemeFile> {
        self.files@
    }

    /// Start building the custom theme `name`: its file comes first.
    pub fn start(name: &str) -> (r: (ThemeResolver, String))
        ensures
            r.0.names().len() == 1,
            r.0.names()[0]@ == name@,
            r.0.chain().len() == 0,
            r.1@ == name@,
    {
        let mut stack: Vec<String> = Vec::new();
        stack.push(name.to_owned());
        (ThemeResolver { stack, files: Vec::new() }, name.to_owned())
    }

    /// Feed in the file last asked for. When it extends another custom theme
    /// that is not already in the chain, that theme's file is asked for next;
    /// when it extends a theme already in the chain, that is a cycle. When it
    /// extends a built-in theme, or nothing (the default palette), the chain
    /// is applied to that base.
    pub fn feed(&mut self, file: ThemeFile) -> (r: Result<ThemeStep, ThemeError>)
        requires
            forall|i: int| 0 <= i < old(self).chain().len() ==> file_parsable(
                #[trigger] old(self).chain()[i],
            ),
            file_parsable(file),
        ensures
            final(self).chain() == old(self).chain().push(file),
            match file.extends {
                Some(ThemeChoice::Custom(parent)) => if names_hold(old(self).names(), parent@) {
                    r matches Err(ThemeError::Cycle(n)) && n@ == parent@
                } else {
                    r matches Ok(ThemeStep::NeedFile(n)) && n@ == parent@ && final(self).names()
                        == old(self).names().push(parent)
                },
                Some(ThemeChoice::BuiltIn(b)) => match applied_chain(
                    old(self).chain().push(file),
                    builtin_palette(b),
                ) {
                    Ok(t) => r == Ok::<ThemeStep, ThemeError>(ThemeStep::Done(t)),
                    Err(e) => r == Err::<ThemeStep, ThemeError>(e),
                },
                None => match applied_chain(
                    old(self).chain().push(file),
                    default_truecolor_palette(),
                ) {
                    Ok(t) => r == Ok::<ThemeStep, ThemeError>(ThemeStep::Done(t)),
                    Err(e) => r == Err::<ThemeStep, ThemeError>(e),
                },
            },
    {
        let ghost ext = file.extends;
        let ghost fv = file;
        let parent_name: Option<String> = match &file.extends {
            Some(ThemeChoice::Custom(parent)) => Some(parent.clone()),
            _ => None,
        };
        let base: Theme = match &file.extends {
            Some(ThemeChoice::BuiltIn(b)) => Theme::built_in(*b),
            _ => Theme::default_truecolor(),
        };
        self.files.push(file);
        match parent_name {
            Some(parent) => {
                if names_contain(&self.stack, parent.as_str()) {
                    return Err(ThemeError::Cycle(parent));
                }
                let next = parent.clone();
                self.stack.push(parent);
                Ok(ThemeStep::NeedFile(next))
            },
            None => match self.apply_chain(base) {
                Ok(t) => Ok(ThemeStep::Done(t)),
                Err(e) => Err(e),
            },
        }
    }

    /// Apply the chain to `base`, innermost file first.
    fn apply_chain(&self, base: Theme) -> (r: Result<Theme, ThemeError>)
        requires
            forall|i: int| 0 <= i < self.chain().len() ==> file_parsable(#[trigger] self.chain()[i]),
        ensures
            r == applied_chain(self.chain(), base),
    {
        let mut t = base;
        let mut k: usize = self.files.len();
        assert(self.files@.subrange(0, k as int) =~= self.files@);
        while k > 0
            invariant
                k <= self.files@.len(),
                forall|i: int| 0 <= i < self.files@.len() ==> file_parsable(#[trigger] self.files@[i]),
                applied_chain(self.files@, base) == applied_chain(self.files@.subrange(0, k as int), t),
            decreases k,
        {
            let ghost pre = self.files@.subrange(0, k as int);
            assert(pre.drop_last() =~= self.files@.subrange(0, k - 1));
            match self.files[k - 1].apply(t) {
                Ok(next) => {
                    t = next;
                },
                Err(e) => {
                    return Err(e);
                },
            }
            k = k - 1;
        }
        assert(self.files@.subrange(0, 0) =~= Seq::<ThemeFile>::empty());
        Ok(t)
    }
}

/// Whether `s` is the configuration name of a built-in theme.
pub open spec fn is_builtin_name(s: Seq<char>) -> bool {
    exists|t: BuiltInTheme| theme_config_name(t) == s
}

/// The custom theme a theme-directory entry offers: a `.toml` file, named by
/// its stem, unless the stem is a built-in theme's name.
pub open spec fn custom_name(l: Listed) -> Option<Seq<char>> {
    if spec_extension(l.path@) == Some("toml"@) {
        match spec_file_stem(l.path@) {
            Some(st) => if is_builtin_name(st) {
                None
            } else {
                Some(st)
            },
            None => None,
        }
    } else {
        None
    }
}

/// The custom theme names a theme directory offers, in listing order.
pub open spec fn custom_names(ls: Seq<Listed>) -> Seq<Seq<char>> {
    ls.filter_map(|l: Listed| custom_name(l))
}

/// The built-in themes in cycle order.
pub open spec fn builtin_order(i: int) -> BuiltInTheme {
    if i == 0 {
        BuiltInTheme::Default
    } else if i == 1 {
        BuiltInTheme::HighContrast
    } else if i == 2 {
        BuiltInTheme::Sixteen
    } else if i == 3 {
        BuiltInTheme::NeonBlue
    } else if i == 4 {
        BuiltInTheme::NeonGreen
    } else if i == 5 {
        BuiltInTheme::NeonOrange
    } else if i == 6 {
        BuiltInTheme::C64
    } else {
        BuiltInTheme::Mono
    }
}

fn is_builtin_name_exec(s: &[char]) -> (r: bool)
    ensures
        r == is_builtin_name(s@),
{
    proof {
        reveal_strlit("default");
        reveal_strlit("high-contrast");
        reveal_strlit("sixteen");
        reveal_strlit("neon-blue");
        reveal_strlit("neon-green");
        reveal_strlit("neon-orange");
        reveal_strlit("c64");
        reveal_strlit("mono");
    }
    let r = chars_are(s, "default") || chars_are(s, "high-contrast") || chars_are(s, "sixteen")
        || chars_are(s, "neon-blue") || chars_are(s, "neon-green") || chars_are(s, "neon-orange")
        || chars_are(s, "c64") || chars_are(s, "mono");
    proof {
        if r {
            if s@ == "default"@ {
                assert(theme_config_name(BuiltInTheme::Default) == s@);
            } else if s@ == "high-contrast"@ {
                assert(theme_config_name(BuiltInTheme::HighContrast) == s@);
            } else if s@ == "sixteen"@ {
                assert(theme_config_name(BuiltInTheme::Sixteen) == s@);
            } else if s@ == "neon-blue"@ {
                assert(theme_config_name(BuiltInTheme::NeonBlue) == s@);
            } else if s@ == "neon-green"@ {
                assert(theme_config_name(BuiltInTheme::NeonGreen) == s@);
            } else if s@ == "neon-orange"@ {
                assert(theme_config_name(BuiltInTheme::NeonOrange) == s@);
            } else if s@ == "c64"@ {
                assert(theme_config_name(BuiltInTheme::C64) == s@);
            } else {
                assert(theme_config_name(BuiltInTheme::Mono) == s@);
            }
        } else {
            assert forall|t: BuiltInTheme| theme_config_name(t) != s@ by {
                match t {
                    BuiltInTheme::Default => {},
                    BuiltInTheme::HighContrast => {},
                    BuiltInTheme::Sixteen => {},
                    BuiltInTheme::NeonBlue => {},
                    BuiltInTheme::NeonGreen => {},
                    BuiltInTheme::NeonOrange => {},
                    BuiltInTheme::C64 => {},
                    BuiltInTheme::Mono => {},
                }
            }
        }
    }
    r
}

/// The custom theme an entry offers, computed.
fn custom_name_of(l: &Listed) -> (r: Option<String>)
    ensures
        match custom_name(*l) {
            Some(n) => r matches Some(s) && s@ == n,
            None => r is None,
        },
{
    let ext = match extension(l.path.as_str()) {
        Some(e) => e,
        None => return None,
    };
    let e = chars_of(ext.as_str());
    if !chars_are(e.as_slice(), "toml") {
        return None;
    }
    match file_stem(l.path.as_str()) {
        Some(st) => {
            let c = chars_of(st.as_str());
            if is_builtin_name_exec(c.as_slice()) {
                None
            } else {
                Some(st)
            }
        },
        None => None,
    }
}

/// The themes to cycle through: the built-ins in their order, then the
/// custom themes the theme directory offers (what was listed there; `None`
/// when there is none or it could not be read), sorted by name.
pub fn available_choices(listing: Option<Vec<Listed>>) -> (r: Vec<ThemeChoice>)
    ensures
        r@.len() >= 8,
        forall|i: int| 0 <= i < 8 ==> (#[trigger] r@[i]).model() == ThemeChoiceModel::BuiltIn(
            builtin_order(i),
        ),
        match listing {
            None => r@.len() == 8,
            Some(ls) => exists|sorted: Seq<Seq<char>>|
                #[trigger] crate::files::sorted_as(custom_names(ls@), custom_names(ls@), sorted)
                    && r@.len() == 8 + sorted.len() && forall|j: int|
                    0 <= j < sorted.len() ==> (#[trigger] r@[8 + j]).model()
                        == ThemeChoiceModel::Custom(sorted[j]),
        },
{
    let mut out: Vec<ThemeChoice> = Vec::new();
    out.push(ThemeChoice::BuiltIn(BuiltInTheme::Default));
    out.push(ThemeChoice::BuiltIn(BuiltInTheme::HighContrast));
    out.push(ThemeChoice::BuiltIn(BuiltInTheme::Sixteen));
    out.push(ThemeChoice::BuiltIn(BuiltInTheme::NeonBlue));
    out.push(ThemeChoice::BuiltIn(BuiltInTheme::NeonGreen));
    out.push(ThemeChoice::BuiltIn(BuiltInTheme::NeonOrange));
    out.push(ThemeChoice::BuiltIn(BuiltInTheme::C64));
    out.push(ThemeChoice::BuiltIn(BuiltInTheme::Mono));
    let items = match listing {
        Some(ls) => ls,
        None => return out,
    };
    let ghost ls = items@;
    let mut names: Vec<String> = Vec::new();
    let mut keys: Vec<Vec<char>> = Vec::new();
    let mut i: usize = 0;
    while i < items.len()
        invariant
            i <= items@.len(),
            ls == items@,
            views(names@) == custom_names(items@.subrange(0, i as int)),
            char_views(keys@) == views(names@),
        decreases items@.len() - i,
    {
        let ghost pre = items@.subrange(0, i as int);
        let ghost next = items@.subrange(0, i + 1);
        assert(next.drop_last() =~= pre);
        match custom_name_of(&items[i]) {
            Some(n) => {
                let ghost n0 = views(names@);
                let ghost k0 = char_views(keys@);
                keys.push(chars_of(n.as_str()));
                names.push(n);
                proof {
                    assert(custom_names(next) =~= custom_names(pre).push(n@));
                    assert(views(names@) =~= n0.push(n@));
                    assert(char_views(keys@) =~= k0.push(n@));
                }
            },
            None => {
                assert(custom_names(next) == custom_names(pre));
            },
        }
        i = i + 1;
    }
    assert(items@.subrange(0, items@.len() as int) =~= items@);
    let order = stable_order(&keys);
    let ghost cn = custom_names(ls);
    let mut k: usize = 0;
    while k < order.len()
        invariant
            k <= order@.len(),
            is_permutation_of_range(order@, names@.len()),
            views(names@) == cn,
            out@.len() == 8 + k,
            forall|i: int| 0 <= i < 8 ==> (#[trigger] out@[i]).model() == ThemeChoiceModel::BuiltIn(
                builtin_order(i),
            ),
            forall|j: int|
                0 <= j < k ==> (#[trigger] out@[8 + j]).model() == ThemeChoiceModel::Custom(
                    cn[order@[j] as int],
                ),
        decreases order@.len() - k,
    {
        let j = order[k];
        let name = names[j].clone();
        out.push(ThemeChoice::Custom(name));
        k = k + 1;
    }
    proof {
        let sorted = order@.map_values(|i: usize| cn[i as int]);
        assert(crate::files::sorted_as(cn, cn, sorted));
        assert forall|j: int| 0 <= j < sorted.len() implies (#[trigger] out@[8 + j]).model()
            == ThemeChoiceModel::Custom(sorted[j]) by {}
    }
    out
}

} // verus!
