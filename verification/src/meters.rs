//! Level-meter drawing that does not depend on the measured levels: which
//! glyph each cell of a bar shows once the level has been turned into a
//! number of filled eighth-steps, how the per-channel meters are laid out in
//! columns (left over right for each channel), and how many channels the info
//! pane lists by name.

use crate::text::{decimal, decimal_chars, pad_left, pad_left_chars, push_str, string_from_chars};
use vstd::prelude::*;

verus! {

/// Width of one channel's bar, in cells.
pub const METER_BAR_W: usize = 8;

/// Width of one channel entry: two-digit label, space, side, space, bar.
pub const METER_ENTRY_W: usize = 13;

/// Gap between two columns of entries.
pub const METER_COL_GAP: usize = 2;

/// The partial-block glyph for `k` eighths (1 to 7), and the full block from
/// eight on.
pub open spec fn eighth_glyph(k: int) -> char {
    if k <= 1 {
        '▁'
    } else if k == 2 {
        '▂'
    } else if k == 3 {
        '▃'
    } else if k == 4 {
        '▄'
    } else if k == 5 {
        '▅'
    } else if k == 6 {
        '▆'
    } else if k == 7 {
        '▇'
    } else {
        '█'
    }
}

/// The glyph of cell `cell` of a bar filled to `filled` eighth-steps: a full
/// block when the fill covers the cell, a partial block when it ends inside
/// it, a space when it ends before it.
pub open spec fn cell_glyph(cell: int, filled: int) -> char {
    let lo = cell * 8;
    if filled >= lo + 8 {
        '█'
    } else if filled > lo {
        eighth_glyph(filled - lo)
    } else {
        ' '
    }
}

/// The meter glyphs are the Unicode lower-block characters: `k` eighths of
/// a cell's height (1 to 8) is the character at `U+2580 + k` (`▁` for one
/// eighth up to `█` for a full cell).
pub proof fn level_glyphs_rise_with_the_level(k: int)
    requires
        1 <= k <= 8,
    ensures
        eighth_glyph(k) as u32 == 0x2580 + k,
{
}

/// Cell `cell` of a meter bar filled to `filled` eighth-steps: a full block
/// when the fill covers it, the block of the eighths that reach into it when
/// the fill ends inside it, blank when the fill ends before it.
pub proof fn meter_cells_fill_bottom_up(cell: int, filled: int)
    requires
        cell >= 0,
        filled >= 0,
    ensures
        filled >= cell * 8 + 8 ==> cell_glyph(cell, filled) == '█',
        cell * 8 < filled < cell * 8 + 8 ==> cell_glyph(cell, filled) as u32 == 0x2580 + (filled
            - cell * 8),
        filled <= cell * 8 ==> cell_glyph(cell, filled) == ' ',
{
}

/// The glyphs of a `width`-cell bar filled to `filled` eighth-steps.
pub open spec fn bar_glyphs(width: nat, filled: nat) -> Seq<char> {
    Seq::new(width, |c: int| cell_glyph(c, filled as int))
}

fn glyph_for(k: usize) -> (r: char)
    requires
        1 <= k <= 8,
    ensures
        r == eighth_glyph(k as int),
{
    match k {
        1 => '▁',
        2 => '▂',
        3 => '▃',
        4 => '▄',
        5 => '▅',
        6 => '▆',
        7 => '▇',
        _ => '█',
    }
}

/// The glyphs of a `width`-cell bar filled to `filled` eighth-steps.
pub fn meter_glyphs(width: usize, filled: usize) -> (r: Vec<char>)
    requires
        width * 8 <= usize::MAX,
    ensures
        r@ == bar_glyphs(width as nat, filled as nat),
{
    let mut out: Vec<char> = Vec::new();
    let mut cell: usize = 0;
    while cell < width
        invariant
            cell <= width,
            width * 8 <= usize::MAX,
            out@ == bar_glyphs(cell as nat, filled as nat),
        decreases width - cell,
    {
        let lo = cell * 8;
        let g = if filled >= lo + 8 {
            '█'
        } else if filled > lo {
            glyph_for(filled - lo)
        } else {
            ' '
        };
        out.push(g);
        cell = cell + 1;
        assert(out@ =~= bar_glyphs(cell as nat, filled as nat));
    }
    out
}

/// How the channel meters fill a pane: `cols` columns of entries, `rows`
/// text rows (two per channel, left over right), `per_col` channels in each
/// column.
#[derive(Debug, Clone, Copy, PartialEq, Eq, Structural)]
pub struct MeterGrid {
    pub cols: usize,
    pub rows: usize,
    pub per_col: usize,
}

/// As many columns of entries as fit the width, at least one.
pub open spec fn grid_cols(width: nat) -> nat {
    let c = width / ((METER_ENTRY_W + METER_COL_GAP) as nat);
    if c < 1 {
        1
    } else {
        c
    }
}

/// `a` divided by `b`, rounded up.
pub open spec fn div_up(a: nat, b: nat) -> nat {
    a / b + if a % b == 0 {
        0nat
    } else {
        1nat
    }
}

/// The text rows the meters use: two per channel of the fullest column, but
/// no more than the even number of rows that fit the height (so a channel's
/// left bar is never shown without its right).
pub open spec fn grid_rows(channels: nat, width: nat, height: nat) -> nat {
    let want = 2 * div_up(channels, grid_cols(width));
    let room = (height / 2) * 2;
    if want <= room {
        want
    } else {
        room
    }
}

/// The layout of `channels` meters in a pane of `width` by `height` cells.
pub fn meter_grid(channels: usize, width: usize, height: usize) -> (r: MeterGrid)
    ensures
        r.cols == grid_cols(width as nat),
        r.rows == grid_rows(channels as nat, width as nat, height as nat),
        r.per_col == r.rows / 2,
{
    let c = width / (METER_ENTRY_W + METER_COL_GAP);
    let cols = if c < 1 {
        1
    } else {
        c
    };
    assert(channels % cols != 0 ==> channels / cols < usize::MAX) by (nonlinear_arith)
        requires
            cols >= 1,
            channels <= usize::MAX,
    {
        if cols == 1 {
            assert(channels % cols == 0);
        } else {
            assert(channels / cols <= channels / 2);
        }
    }
    let per = channels / cols + if channels % cols == 0 {
        0
    } else {
        1
    };
    let room = (height / 2) * 2;
    let rows = if per > room / 2 {
        room
    } else {
        per * 2
    };
    MeterGrid { cols, rows, per_col: rows / 2 }
}

/// What text row `row` of column `col` shows: channel `col * per_col +
/// row / 2`, its left side on even rows and its right side on odd ones, or
/// nothing past the last channel.
pub open spec fn slot_of(channels: nat, per_col: nat, row: nat, col: nat) -> Option<(nat, bool)> {
    let ch = col * per_col + row / 2;
    if ch < channels {
        Some((ch, row % 2 == 0))
    } else {
        None
    }
}

/// The channel and side shown at text row `row` of column `col`.
pub fn meter_slot(channels: usize, per_col: usize, row: usize, col: usize) -> (r: Option<
    (usize, bool),
>)
    ensures
        match r {
            Some((ch, left)) => slot_of(channels as nat, per_col as nat, row as nat, col as nat)
                == Some((ch as nat, left)),
            None => slot_of(channels as nat, per_col as nat, row as nat, col as nat) is None,
        },
{
    let base = match col.checked_mul(per_col) {
        Some(b) => b,
        None => return None,
    };
    let ch = match base.checked_add(row / 2) {
        Some(c) => c,
        None => return None,
    };
    if ch < channels {
        Some((ch, row % 2 == 0))
    } else {
        None
    }
}

/// The label in front of a bar: the channel number (from one) right-aligned
/// in two characters and `L` for the left side, or just `R` under it for the
/// right side.
pub open spec fn entry_label(ch: nat, left: bool) -> Seq<char> {
    if left {
        pad_left(decimal(ch + 1), 2) + " L "@
    } else {
        "   R "@
    }
}

/// The label in front of channel `ch`'s left or right bar.
pub fn meter_label(ch: usize, left: bool) -> (r: String)
    requires
        ch < u64::MAX,
    ensures
        r@ == entry_label(ch as nat, left),
{
    if left {
        let d = decimal_chars(ch as u64 + 1);
        let mut v = pad_left_chars(d.as_slice(), 2);
        push_str(&mut v, " L ");
        string_from_chars(v.as_slice())
    } else {
        "   R ".to_owned()
    }
}

/// How the info pane's channel list fits `height` rows: how many channels
/// are listed by name, and how many the closing "more channels" line counts
/// (zero when every channel fits, and that line then is not shown).
pub open spec fn channel_list_of(channels: nat, height: nat) -> (nat, nat) {
    if channels == 0 || height == 0 {
        (0, 0)
    } else if channels <= height {
        (channels, 0)
    } else {
        ((height - 1) as nat, (channels - height + 1) as nat)
    }
}

/// The info pane's channel list for `channels` channels in `height` rows.
pub fn channel_list(channels: usize, height: usize) -> (r: (usize, usize))
    ensures
        (r.0 as nat, r.1 as nat) == channel_list_of(channels as nat, height as nat),
{
    if channels == 0 || height == 0 {
        (0, 0)
    } else if channels <= height {
        (channels, 0)
    } else {
        (height - 1, channels - height + 1)
    }
}

} // verus!
