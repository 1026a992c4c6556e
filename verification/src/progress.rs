//! Song progress bar — a small horizontal indicator in the header. Four
//! styles are supported; pick one in `config.toml` or cycle at runtime.
//!
//! Every style takes a target `width` in cells and a position along it, and
//! returns pieces whose texts together are exactly `width` characters wide
//! (zero-width inputs, and triangles under three cells, give nothing). Every
//! character used is one cell wide.
//!
//! The position arrives as a raw count the caller computed from the playback
//! fraction (the fraction times the relevant length, truncated or rounded as
//! each style says); each style clamps it to what fits.

use crate::config::ProgressBarStyle;
use crate::text::{repeat_char, repeated, string_from_chars};
use vstd::prelude::*;

verus! {

/// How a piece of the bar is coloured.
#[derive(Debug, Clone, Copy, PartialEq, Eq, Structural)]
pub enum BarTone {
    /// The dimmed foreground.
    Dim,
    /// The plain foreground.
    Fg,
    /// The accent colour, bold.
    AccentBold,
    /// The accent colour.
    Accent,
    /// No style of its own.
    Raw,
}

pub struct BarPiece {
    pub text: String,
    pub tone: BarTone,
}

/// The text of a bar: its pieces joined.
pub open spec fn bar_text(pieces: Seq<BarPiece>) -> Seq<char>
    decreases pieces.len(),
{
    if pieces.len() == 0 {
        Seq::empty()
    } else {
        bar_text(pieces.drop_last()) + pieces.last().text@
    }
}

fn piece(chars: Vec<char>, tone: BarTone) -> (r: BarPiece)
    ensures
        r.text@ == chars@,
        r.tone == tone,
{
    BarPiece { text: string_from_chars(chars.as_slice()), tone }
}

/// The smaller of two counts.
pub open spec fn at_most(a: nat, b: nat) -> nat {
    if a < b {
        a
    } else {
        b
    }
}

/// `[━━━━▲────]`: a marker over a track inside brackets. The marker stands
/// `raw_pos` cells into the inner track, at most at its last cell.
pub open spec fn triangle_text(width: nat, raw_pos: nat) -> Seq<char> {
    if width < 3 {
        Seq::empty()
    } else {
        let inner = (width - 2) as nat;
        let pos = at_most(raw_pos, (inner - 1) as nat);
        seq!['['] + repeated('━', pos) + seq!['▲'] + repeated('─', (inner - pos - 1) as nat) + seq![
            ']',
        ]
    }
}

pub fn triangle(width: usize, raw_pos: usize) -> (r: Vec<BarPiece>)
    ensures
        bar_text(r@) == triangle_text(width as nat, raw_pos as nat),
{
    let mut out: Vec<BarPiece> = Vec::new();
    if width < 3 {
        return out;
    }
    let inner = width - 2;
    let pos = if raw_pos < inner - 1 {
        raw_pos
    } else {
        inner - 1
    };
    let mut open: Vec<char> = Vec::new();
    open.push('[');
    let mut marker: Vec<char> = Vec::new();
    marker.push('▲');
    let mut close: Vec<char> = Vec::new();
    close.push(']');
    out.push(piece(open, BarTone::Dim));
    out.push(piece(repeat_char('━', pos), BarTone::Fg));
    out.push(piece(marker, BarTone::AccentBold));
    out.push(piece(repeat_char('─', inner - pos - 1), BarTone::Dim));
    out.push(piece(close, BarTone::Dim));
    proof {
        reveal_with_fuel(bar_text, 6);
    }
    out
}

/// The eighth-block character for `eighths` eighths of a cell (a full block
/// for anything but 1 to 7).
pub open spec fn eighth_char(eighths: nat) -> char {
    if eighths == 1 {
        '▏'
    } else if eighths == 2 {
        '▎'
    } else if eighths == 3 {
        '▍'
    } else if eighths == 4 {
        '▌'
    } else if eighths == 5 {
        '▋'
    } else if eighths == 6 {
        '▊'
    } else if eighths == 7 {
        '▉'
    } else {
        '█'
    }
}

pub fn eighth_partial(eighths: usize) -> (r: char)
    ensures
        r == eighth_char(eighths as nat),
{
    match eighths {
        1 => '▏',
        2 => '▎',
        3 => '▍',
        4 => '▌',
        5 => '▋',
        6 => '▊',
        7 => '▉',
        _ => '█',
    }
}

/// `████▌   `: a solid fill with a smooth eighth-block trailing edge. The
/// fill covers `raw_eighths` eighths of a cell, at most the whole bar.
pub open spec fn blocks_text(width: nat, raw_eighths: nat) -> Seq<char> {
    if width == 0 {
        Seq::empty()
    } else {
        let total = at_most(raw_eighths, width * 8);
        let full = total / 8;
        let partial = total % 8;
        let filled = if partial > 0 && full < width {
            repeated('█', full) + seq![eighth_char(partial)]
        } else {
            repeated('█', full)
        };
        filled + repeated(' ', (width - filled.len()) as nat)
    }
}

pub fn blocks(width: usize, raw_eighths: usize) -> (r: Vec<BarPiece>)
    requires
        width * 8 <= usize::MAX,
    ensures
        bar_text(r@) == blocks_text(width as nat, raw_eighths as nat),
{
    let mut out: Vec<BarPiece> = Vec::new();
    if width == 0 {
        return out;
    }
    let total = if raw_eighths < width * 8 {
        raw_eighths
    } else {
        width * 8
    };
    let full = total / 8;
    let partial = total % 8;
    let mut filled = repeat_char('█', full);
    let mut consumed = full;
    if partial > 0 && full < width {
        filled.push(eighth_partial(partial));
        consumed = consumed + 1;
    }
    let ghost fill_text = filled@;
    out.push(piece(filled, BarTone::Accent));
    out.push(piece(repeat_char(' ', width - consumed), BarTone::Raw));
    proof {
        reveal_with_fuel(bar_text, 3);
        assert(fill_text.len() == consumed);
    }
    out
}

/// `━━━━╸────`: a heavy line up to the play head, a light one after it. The
/// head stands `raw_head` cells in, at most at the last cell.
pub open spec fn line_text(width: nat, raw_head: nat) -> Seq<char> {
    if width == 0 {
        Seq::empty()
    } else {
        let head = at_most(raw_head, (width - 1) as nat);
        repeated('━', head) + seq!['╸'] + repeated('─', (width - head - 1) as nat)
    }
}

pub fn line(width: usize, raw_head: usize) -> (r: Vec<BarPiece>)
    ensures
        bar_text(r@) == line_text(width as nat, raw_head as nat),
{
    let mut out: Vec<BarPiece> = Vec::new();
    if width == 0 {
        return out;
    }
    let head = if raw_head < width - 1 {
        raw_head
    } else {
        width - 1
    };
    let mut marker: Vec<char> = Vec::new();
    marker.push('╸');
    out.push(piece(repeat_char('━', head), BarTone::Fg));
    out.push(piece(marker, BarTone::AccentBold));
    out.push(piece(repeat_char('─', width - head - 1), BarTone::Dim));
    proof {
        reveal_with_fuel(bar_text, 4);
    }
    out
}

/// `▰▰▰▰▱▱▱▱`: discrete pips, `raw_filled` of them filled (at most all).
pub open spec fn segments_text(width: nat, raw_filled: nat) -> Seq<char> {
    let filled = at_most(raw_filled, width);
    repeated('▰', filled) + repeated('▱', (width - filled) as nat)
}

pub fn segments(width: usize, raw_filled: usize) -> (r: Vec<BarPiece>)
    ensures
        bar_text(r@) == segments_text(width as nat, raw_filled as nat),
{
    let mut out: Vec<BarPiece> = Vec::new();
    if width == 0 {
        proof {
            assert(segments_text(0, raw_filled as nat) =~= Seq::<char>::empty());
        }
        return out;
    }
    let filled = if raw_filled < width {
        raw_filled
    } else {
        width
    };
    out.push(piece(repeat_char('▰', filled), BarTone::Accent));
    out.push(piece(repeat_char('▱', width - filled), BarTone::Dim));
    proof {
        reveal_with_fuel(bar_text, 3);
    }
    out
}

/// Every style fills exactly the requested width (a triangle needs at least
/// three cells, the others at least one).
pub proof fn bars_fill_their_width(width: nat, raw: nat)
    ensures
        width >= 3 ==> triangle_text(width, raw).len() == width,
        width < 3 ==> triangle_text(width, raw).len() == 0,
        blocks_text(width, raw).len() == width,
        line_text(width, raw).len() == width,
        segments_text(width, raw).len() == width,
{
    if width > 0 {
        let total = at_most(raw, width * 8);
        let full = total / 8;
        assert(full <= width) by (nonlinear_arith)
            requires
                total <= width * 8,
                full == total / 8,
        ;
    }
}

/// The line bar of `width` cells: the head `╸` stands in cell
/// `min(raw_head, width - 1)`, every cell before it is heavy `━` and every
/// cell after it light `─`. So the head moves with the position, one cell per
/// step, until it reaches the last cell.
pub proof fn line_head_follows_the_position(width: nat, raw_head: nat, i: int)
    requires
        width > 0,
        0 <= i < width,
    ensures
        line_text(width, raw_head).len() == width,
        ({
            let head: int = if raw_head < width - 1 {
                raw_head as int
            } else {
                width - 1
            };
            line_text(width, raw_head)[i] == if i < head {
                '━'
            } else if i == head {
                '╸'
            } else {
                '─'
            }
        }),
{
    let head = at_most(raw_head, (width - 1) as nat);
    let t = repeated('━', head) + seq!['╸'] + repeated('─', (width - head - 1) as nat);
    if i < head {
        assert(t[i] == repeated('━', head)[i]);
    } else if i == head {
        assert(t[i] == '╸');
    } else {
        assert(t[i] == repeated('─', (width - head - 1) as nat)[i - head - 1]);
    }
}

/// The triangle bar of `width >= 3` cells: brackets at both ends, and inside
/// them the marker `▲` in cell `1 + min(raw_pos, width - 3)`, heavy `━` before
/// it and light `─` after it.
pub proof fn triangle_marker_follows_the_position(width: nat, raw_pos: nat, i: int)
    requires
        width >= 3,
        0 <= i < width,
    ensures
        triangle_text(width, raw_pos).len() == width,
        ({
            let m: int = 1 + if raw_pos < width - 3 {
                raw_pos as int
            } else {
                width - 3
            };
            triangle_text(width, raw_pos)[i] == if i == 0 {
                '['
            } else if i == width - 1 {
                ']'
            } else if i < m {
                '━'
            } else if i == m {
                '▲'
            } else {
                '─'
            }
        }),
{
    let inner = (width - 2) as nat;
    let pos = at_most(raw_pos, (inner - 1) as nat);
    let a = seq!['['] + repeated('━', pos);
    let b = a + seq!['▲'];
    let c = b + repeated('─', (inner - pos - 1) as nat);
    let t = c + seq![']'];
    assert(triangle_text(width, raw_pos) == t);
    if i == width - 1 {
        assert(t[i] == ']');
    } else {
        assert(t[i] == c[i]);
        if i <= pos + 1 {
            assert(c[i] == b[i]);
            if i <= pos {
                assert(b[i] == a[i]);
                if i > 0 {
                    assert(a[i] == repeated('━', pos)[i - 1]);
                }
            }
        } else {
            assert(c[i] == repeated('─', (inner - pos - 1) as nat)[i - pos - 2]);
        }
    }
}

/// The partial blocks are the Unicode left-block characters: `k` eighths of
/// a cell (1 to 8) is the character at `U+2590 - k` (`▏` for one eighth up to
/// `█` for a full cell); any other count gives the full block.
pub proof fn eighth_blocks_grow_with_the_fraction(k: nat)
    ensures
        1 <= k <= 8 ==> eighth_char(k) as u32 == 0x2590 - k,
        !(1 <= k <= 8) ==> eighth_char(k) == '█',
{
}

/// The blocks bar of `width` cells filled to `raw_eighths` eighths (at most
/// the whole bar): the first `filled / 8` cells are full blocks, the next
/// shows the remaining eighths when there are some, the rest are blank.
pub proof fn blocks_fill_by_eighths(width: nat, raw_eighths: nat, i: int)
    requires
        0 <= i < width,
    ensures
        blocks_text(width, raw_eighths).len() == width,
        ({
            let total = if raw_eighths < width * 8 {
                raw_eighths
            } else {
                width * 8
            };
            blocks_text(width, raw_eighths)[i] == if i < total / 8 {
                '█'
            } else if i == total / 8 && total % 8 > 0 {
                eighth_char((total % 8) as nat)
            } else {
                ' '
            }
        }),
{
    bars_fill_their_width(width, raw_eighths);
    let total = at_most(raw_eighths, width * 8);
    let full = total / 8;
    let partial = total % 8;
    assert(full <= width) by (nonlinear_arith)
        requires
            total <= width * 8,
            full == total / 8,
    ;
    assert(partial > 0 ==> full < width) by (nonlinear_arith)
        requires
            total <= width * 8,
            full == total / 8,
            partial == total % 8,
    ;
    let filled = if partial > 0 && full < width {
        repeated('█', full) + seq![eighth_char(partial)]
    } else {
        repeated('█', full)
    };
    let t = filled + repeated(' ', (width - filled.len()) as nat);
    assert(blocks_text(width, raw_eighths) == t);
    if i < filled.len() {
        assert(t[i] == filled[i]);
        if i < full {
            assert(filled[i] == repeated('█', full)[i]);
        }
    } else {
        assert(t[i] == repeated(' ', (width - filled.len()) as nat)[i - filled.len()]);
    }
}

/// The segment bar of `width` cells: the first `min(raw_filled, width)` pips
/// are filled `▰`, the rest empty `▱`.
pub proof fn segments_fill_from_the_left(width: nat, raw_filled: nat, i: int)
    requires
        0 <= i < width,
    ensures
        segments_text(width, raw_filled).len() == width,
        segments_text(width, raw_filled)[i] == if i < raw_filled {
            '▰'
        } else {
            '▱'
        },
{
    let filled = at_most(raw_filled, width);
    let t = repeated('▰', filled) + repeated('▱', (width - filled) as nat);
    if i < filled {
        assert(t[i] == repeated('▰', filled)[i]);
    } else {
        assert(t[i] == repeated('▱', (width - filled) as nat)[i - filled]);
    }
}

/// The bar in the given style; `raw` is the raw position that style takes.
pub fn bar(style: ProgressBarStyle, width: usize, raw: usize) -> (r: Vec<BarPiece>)
    requires
        width * 8 <= usize::MAX,
    ensures
        bar_text(r@) == match style {
            ProgressBarStyle::Triangle => triangle_text(width as nat, raw as nat),
            ProgressBarStyle::Blocks => blocks_text(width as nat, raw as nat),
            ProgressBarStyle::Line => line_text(width as nat, raw as nat),
            ProgressBarStyle::Segments => segments_text(width as nat, raw as nat),
        },
{
    match style {
        ProgressBarStyle::Triangle => triangle(width, raw),
        ProgressBarStyle::Blocks => blocks(width, raw),
        ProgressBarStyle::Line => line(width, raw),
        ProgressBarStyle::Segments => segments(width, raw),
    }
}

} // verus!
