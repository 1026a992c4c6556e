//! The pattern view: the snapshot of rows around the playing row, the view
//! settings (lane count, compact cells), and the layout decisions the view
//! makes — which channels each lane shows, which rows are visible, what each
//! cell reads and how each character of it is coloured.
//!
//! When the view is stacked, the inner area is split into vertically-stacked
//! lanes. Each lane is a complete pattern view (full row context, own centered
//! current row) but shows only its slice of channels — lane 0 gets channels
//! 0..K, lane 1 gets K..2K, etc.

use crate::text::{
    chars_of, decimal, decimal_chars, is_white_space, pad_left, pad_left_chars, push_all, push_str,
    repeat_char, repeated, string_from_chars, trim, trim_chars, views,
};
use vstd::prelude::*;

verus! {

/// How many rows above and below the current row are snapshotted.
pub const WINDOW_RADIUS: usize = 16;

/// Rows in a snapshot: the radius on both sides and the current row.
pub const WINDOW_ROWS: usize = 33;

pub struct PatternRow {
    pub row_index: i32,
    /// One pre-formatted cell per channel, e.g. `"C-5 01 .. A20"`.
    pub cells: Vec<String>,
}

pub struct PatternWindow {
    /// The pattern these rows belong to. `-1` means "not initialised yet".
    pub pattern: i32,
    /// Rows centered on the current row. Some may be empty placeholders if the
    /// window falls outside the pattern boundary.
    pub rows: Vec<PatternRow>,
    /// Position within `rows` of the currently-playing row.
    pub current_index: usize,
    /// Number of channels in the snapshot.
    pub channel_count: usize,
}

impl Default for PatternRow {
    fn default() -> (r: PatternRow)
        ensures
            r.row_index == 0,
            r.cells@.len() == 0,
    {
        PatternRow { row_index: 0, cells: Vec::new() }
    }
}

impl Default for PatternWindow {
    fn default() -> (r: PatternWindow)
        ensures
            r.pattern == 0,
            r.rows@.len() == 0,
            r.current_index == 0,
            r.channel_count == 0,
    {
        PatternWindow { pattern: 0, rows: Vec::new(), current_index: 0, channel_count: 0 }
    }
}

impl PatternWindow {
    /// The currently-playing row, if the window holds it.
    pub fn current_row(&self) -> (r: Option<&PatternRow>)
        ensures
            (self.current_index as int) < self.rows@.len() ==> r == Some(
                &self.rows@[self.current_index as int],
            ),
            (self.current_index as int) >= self.rows@.len() ==> r is None,
    {
        if self.current_index < self.rows.len() {
            Some(&self.rows[self.current_index])
        } else {
            None
        }
    }
}

/// The row indices a snapshot centered on `row` covers: `row - 16` up to
/// `row + 16`.
pub open spec fn window_row(row: int, offset: int) -> int {
    row - WINDOW_RADIUS + offset
}

/// Whether the snapshot row `r` lies inside a pattern of `num_rows` rows, so
/// its cells are read; rows outside are empty placeholders.
pub open spec fn row_in_pattern(r: int, num_rows: int) -> bool {
    0 <= r < num_rows
}

/// The row indices of the snapshot centered on `row`, each with whether it
/// lies inside the pattern (and so has cells to read).
pub fn window_rows(row: i32, num_rows: i32) -> (r: Vec<(i32, bool)>)
    requires
        i32::MIN + WINDOW_RADIUS <= row <= i32::MAX - WINDOW_RADIUS,
    ensures
        r@.len() == WINDOW_ROWS,
        forall|k: int|
            0 <= k < WINDOW_ROWS ==> (#[trigger] r@[k]).0 == window_row(row as int, k) && r@[k].1
                == row_in_pattern(window_row(row as int, k), num_rows as int),
{
    let start: i32 = row - 16;
    let mut out: Vec<(i32, bool)> = Vec::new();
    let mut offset: i32 = 0;
    while offset < 33
        invariant
            0 <= offset <= 33,
            start == row - 16,
            i32::MIN + WINDOW_RADIUS <= row <= i32::MAX - WINDOW_RADIUS,
            out@.len() == offset,
            forall|k: int|
                0 <= k < offset ==> (#[trigger] out@[k]).0 == window_row(row as int, k)
                    && out@[k].1 == row_in_pattern(window_row(row as int, k), num_rows as int),
        decreases 33 - offset,
    {
        let r: i32 = start + offset;
        out.push((r, 0 <= r && r < num_rows));
        offset = offset + 1;
    }
    out
}

/// A snapshot centered on its middle row.
pub fn assemble_window(pattern: i32, rows: Vec<PatternRow>, channel_count: usize) -> (r: PatternWindow)
    ensures
        r.pattern == pattern,
        r.rows@ == rows@,
        r.current_index == WINDOW_RADIUS,
        r.channel_count == channel_count,
{
    PatternWindow { pattern, rows, current_index: 16, channel_count }
}

/// The cells of a snapshot row: one per channel — what was read for that
/// channel when the row lies inside the pattern (empty where nothing was
/// read), and all empty for a placeholder row outside it.
pub open spec fn row_cells_of(inside: bool, read: Seq<Seq<char>>, num_channels: nat) -> Seq<
    Seq<char>,
> {
    Seq::new(
        num_channels,
        |c: int|
            if inside && c < read.len() {
                read[c]
            } else {
                Seq::<char>::empty()
            },
    )
}

/// The cells read for snapshot row `i`; nothing when none were given.
pub open spec fn read_for(cells: Seq<Vec<String>>, i: int) -> Seq<Seq<char>> {
    if 0 <= i < cells.len() {
        views(cells[i]@)
    } else {
        Seq::empty()
    }
}

/// The snapshot rows for the row indices of `window` (with whether each lies
/// inside the pattern) and the cells read from the module for each: every row
/// holds exactly `num_channels` cells, padded with empty ones, and the rows
/// outside the pattern hold only empty cells.
pub fn rows_from_cells(window: Vec<(i32, bool)>, cells: Vec<Vec<String>>, num_channels: usize) -> (r:
    Vec<PatternRow>)
    ensures
        r@.len() == window@.len(),
        forall|i: int|
            0 <= i < window@.len() ==> (#[trigger] r@[i]).row_index == window@[i].0 && views(
                r@[i].cells@,
            ) == row_cells_of(window@[i].1, read_for(cells@, i), num_channels as nat),
{
    let mut out: Vec<PatternRow> = Vec::new();
    let mut i: usize = 0;
    while i < window.len()
        invariant
            i <= window@.len(),
            out@.len() == i,
            forall|k: int|
                0 <= k < i ==> (#[trigger] out@[k]).row_index == window@[k].0 && views(
                    out@[k].cells@,
                ) == row_cells_of(window@[k].1, read_for(cells@, k), num_channels as nat),
        decreases window@.len() - i,
    {
        let (row_index, inside) = window[i];
        let have: usize = if i < cells.len() {
            cells[i].len()
        } else {
            0
        };
        let ghost read = read_for(cells@, i as int);
        assert(read.len() == have);
        let mut row: Vec<String> = Vec::new();
        let mut c: usize = 0;
        while c < num_channels
            invariant
                i < window@.len(),
                inside == window@[i as int].1,
                read == read_for(cells@, i as int),
                read.len() == have,
                have == (if (i as int) < cells@.len() { cells@[i as int]@.len() } else { 0 }),
                c <= num_channels,
                row@.len() == c,
                forall|q: int|
                    0 <= q < c ==> (#[trigger] row@[q])@ == row_cells_of(
                        inside,
                        read,
                        num_channels as nat,
                    )[q],
            decreases num_channels - c,
        {
            if inside && c < have {
                let cell = cells[i][c].clone();
                assert(cell@ == read[c as int]);
                row.push(cell);
            } else {
                row.push(String::new());
            }
            c = c + 1;
        }
        assert(views(row@) =~= row_cells_of(inside, read, num_channels as nat));
        out.push(PatternRow { row_index, cells: row });
        i = i + 1;
    }
    out
}

/// User-controlled pattern view settings.
#[derive(Debug, Clone, Copy, PartialEq, Eq, Structural)]
pub struct PatternView {
    /// How many vertically-stacked lanes the channel band is split into. Each
    /// lane shows the same row window but a different slice of channels.
    pub stack: u8,
    /// When true, cells display only note + instrument (6 chars) instead of
    /// the full note/inst/volume/effect (14 chars).
    pub compact: bool,
}

impl Default for PatternView {
    fn default() -> (r: PatternView)
        ensures
            r == (PatternView { stack: 1, compact: false }),
    {
        PatternView { stack: 1, compact: false }
    }
}

/// The lane count after one press of the stack key: 1, 2, 4, then back to 1.
pub open spec fn next_stack(s: u8) -> u8 {
    if s == 1 {
        2
    } else if s == 2 {
        4
    } else {
        1
    }
}

/// The layout auto-picked for a module with `channels` channels.
pub open spec fn auto_view(channels: nat) -> PatternView {
    if channels <= 8 {
        PatternView { stack: 1, compact: false }
    } else if channels <= 16 {
        PatternView { stack: 2, compact: false }
    } else {
        PatternView { stack: 4, compact: true }
    }
}

impl PatternView {
    pub fn cycle_stack(&mut self)
        ensures
            final(self).stack == next_stack(old(self).stack),
            final(self).compact == old(self).compact,
    {
        self.stack = match self.stack {
            1 => 2,
            2 => 4,
            _ => 1,
        };
    }

    pub fn toggle_compact(&mut self)
        ensures
            final(self).compact == !old(self).compact,
            final(self).stack == old(self).stack,
    {
        self.compact = !self.compact;
    }

    /// Pick a sensible lane count + compact flag for a module with `channels`
    /// channels, so as many channels as possible are visible at once. A
    /// standard 4-channel MOD collapses to a single full-width lane; denser
    /// modules fan out into stacked lanes and switch to compact cells to fit.
    pub fn auto_for_channels(channels: usize) -> (r: PatternView)
        ensures
            r == auto_view(channels as nat),
    {
        if channels <= 8 {
            PatternView { stack: 1, compact: false }
        } else if channels <= 16 {
            PatternView { stack: 2, compact: false }
        } else {
            PatternView { stack: 4, compact: true }
        }
    }
}

/// Cells per lane: the channels spread evenly over the lanes (rounded up),
/// clamped to what fits, and at least one.
pub open spec fn cells_per_lane(channel_count: nat, lanes: nat, max_cells: nat) -> nat {
    let l = if lanes == 0 {
        1
    } else {
        lanes
    };
    let per = (channel_count + l - 1) / (l as int);
    let fit = if max_cells == 0 {
        1
    } else {
        max_cells
    };
    let c = if per < fit {
        per
    } else {
        fit as int
    };
    if c < 1 {
        1
    } else {
        c as nat
    }
}

/// How many lanes get channels: lanes are filled in order, each with the same
/// number of cells, until the channels run out.
pub open spec fn populated_lanes(channel_count: nat, lanes: nat, cpl: nat) -> nat {
    let l = if lanes == 0 {
        1
    } else {
        lanes
    };
    let needed = (channel_count + cpl - 1) / (cpl as int);
    if needed < l {
        needed as nat
    } else {
        l
    }
}

/// The `(first channel, channel count)` each lane renders.
pub open spec fn lane_slices(channel_count: nat, lanes: nat, max_cells: nat) -> Seq<(usize, usize)> {
    let cpl = cells_per_lane(channel_count, lanes, max_cells);
    Seq::new(
        populated_lanes(channel_count, lanes, cpl),
        |i: int|
            (
                (i * cpl) as usize,
                (if channel_count - i * cpl < cpl {
                    channel_count - i * cpl
                } else {
                    cpl as int
                }) as usize,
            ),
    )
}

/// Compute the `(ch_start, cells_in_lane)` slice each lane renders.
///
/// The stride between lanes equals the number of cells a lane actually shows,
/// which keeps the rendered channels contiguous starting at 0 — no band ever
/// drops out of the middle. When every channel fits, the channels are spread
/// evenly across the lanes; when the per-lane block is wider than
/// `max_cells_per_lane`, each lane is clamped to what fits and only the tail
/// channels are dropped.
pub fn lane_channel_slices(channel_count: usize, lanes: usize, max_cells_per_lane: usize) -> (r: Vec<
    (usize, usize),
>)
    ensures
        r@ == lane_slices(channel_count as nat, lanes as nat, max_cells_per_lane as nat),
{
    let l: usize = if lanes == 0 {
        1
    } else {
        lanes
    };
    let q: usize = channel_count / l;
    let per: usize = if channel_count % l == 0 {
        q
    } else {
        assert(l >= 2);
        assert(q < usize::MAX) by (nonlinear_arith)
            requires
                q == channel_count / l,
                l >= 2,
        ;
        q + 1
    };
    let fit: usize = if max_cells_per_lane == 0 {
        1
    } else {
        max_cells_per_lane
    };
    let c: usize = if per < fit {
        per
    } else {
        fit
    };
    let cpl: usize = if c < 1 {
        1
    } else {
        c
    };
    let ghost cc = channel_count as int;
    proof {
        lemma_div_ceil(cc, l as int);
        lemma_div_ceil(cc, cpl as int);
    }
    let ghost count = populated_lanes(channel_count as nat, lanes as nat, cpl as nat);
    let ghost need = (cc + cpl - 1) / (cpl as int);
    assert(cpl == cells_per_lane(channel_count as nat, lanes as nat, max_cells_per_lane as nat));
    let mut out: Vec<(usize, usize)> = Vec::new();
    let mut lane: usize = 0;
    let mut start: usize = 0;
    while lane < l && start < channel_count
        invariant
            l >= 1,
            cpl >= 1,
            cc == channel_count,
            need == (cc + cpl - 1) / (cpl as int),
            count == (if need < l {
                need
            } else {
                l as int
            }),
            need * cpl >= cc,
            (need - 1) * cpl < cc,
            lane <= l,
            start == (if lane * cpl < cc {
                lane * cpl
            } else {
                cc
            }),
            lane <= count,
            out@.len() == lane,
            forall|i: int|
                0 <= i < lane ==> #[trigger] out@[i] == (
                    (i * cpl) as usize,
                    (if cc - i * cpl < cpl {
                        cc - i * cpl
                    } else {
                        cpl as int
                    }) as usize,
                ),
        decreases l - lane,
    {
        proof {
            assert(lane < count) by (nonlinear_arith)
                requires
                    start == lane * cpl,
                    start < cc,
                    lane < l,
                    cpl >= 1,
                    count == (if need < l {
                        need
                    } else {
                        l as int
                    }),
                    (need - 1) * cpl < cc,
                    need * cpl >= cc,
            ;
        }
        let rest = channel_count - start;
        let len = if rest < cpl {
            rest
        } else {
            cpl
        };
        out.push((start, len));
        lane = lane + 1;
        if rest <= cpl {
            start = channel_count;
            assert(lane * cpl >= cc) by (nonlinear_arith)
                requires
                    cc - (lane - 1) * cpl <= cpl,
            ;
        } else {
            start = start + cpl;
            assert(start == lane * cpl) by (nonlinear_arith)
                requires
                    start == (lane - 1) * cpl + cpl,
            ;
        }
    }
    proof {
        if lane < l {
            assert(lane * cpl >= cc);
            if cc > 0 && lane < need {
                assert(lane * cpl <= (need - 1) * cpl) by (nonlinear_arith)
                    requires
                        lane <= need - 1,
                        cpl >= 1,
                ;
            }
            if cc == 0 {
                assert(need == 0) by (nonlinear_arith)
                    requires
                        need == (cc + cpl - 1) / (cpl as int),
                        cc == 0,
                        cpl >= 1,
                ;
            }
        }
        assert(out@ =~= lane_slices(channel_count as nat, lanes as nat, max_cells_per_lane as nat));
    }
    out
}

/// Rounded-up division, and the bounds that make it the least multiple count
/// covering `n`.
proof fn lemma_div_ceil(n: int, d: int)
    requires
        n >= 0,
        d >= 1,
    ensures
        (n + d - 1) / d * d >= n,
        ((n + d - 1) / d - 1) * d < n,
        (n + d - 1) / d >= 0,
        (n + d - 1) / d == n / d + if n % d == 0 {
            0int
        } else {
            1int
        },
{
    assert((n + d - 1) / d * d >= n) by (nonlinear_arith)
        requires
            n >= 0,
            d >= 1,
    ;
    assert(((n + d - 1) / d - 1) * d < n) by (nonlinear_arith)
        requires
            n >= 0,
            d >= 1,
    ;
    assert((n + d - 1) / d >= 0) by (nonlinear_arith)
        requires
            n >= 0,
            d >= 1,
    ;
    assert((n + d - 1) / d == n / d + if n % d == 0 {
        0int
    } else {
        1int
    }) by (nonlinear_arith)
        requires
            n >= 0,
            d >= 1,
    ;
}

proof fn lemma_start_below(i: int, cpl: int, need: int, cc: int)
    requires
        0 <= i < need,
        (need - 1) * cpl < cc,
        cpl >= 1,
    ensures
        i * cpl < cc,
        i * cpl + cpl == (i + 1) * cpl,
{
    assert(i * cpl <= (need - 1) * cpl) by (nonlinear_arith)
        requires
            i <= need - 1,
            cpl >= 1,
    ;
    assert(i * cpl + cpl == (i + 1) * cpl) by (nonlinear_arith);
}

/// The lanes never leave a gap: when there are channels the first lane starts
/// at channel 0, each lane starts where the previous one ends, no lane is
/// empty, and together they show a prefix of the channels — every channel
/// when the evenly spread share per lane fits in `max_cells`, otherwise the
/// first `lanes × max_cells`.
pub proof fn lane_slices_are_contiguous(channel_count: nat, lanes: nat, max_cells: nat)
    requires
        channel_count <= usize::MAX,
    ensures
        ({
            let s = lane_slices(channel_count, lanes, max_cells);
            let l = if lanes == 0 {
                1
            } else {
                lanes
            };
            let fit = if max_cells == 0 {
                1
            } else {
                max_cells
            };
            &&& channel_count > 0 <==> s.len() > 0
            &&& s.len() > 0 ==> s[0].0 == 0
            &&& forall|i: int| 0 < i < s.len() ==> #[trigger] s[i].0 == s[i - 1].0 + s[i - 1].1
            &&& forall|i: int| 0 <= i < s.len() ==> #[trigger] s[i].1 >= 1
            &&& s.len() > 0 && (channel_count + l - 1) / (l as int) <= fit ==> s.last().0
                + s.last().1 == channel_count
            &&& s.len() > 0 && (channel_count + l - 1) / (l as int) > fit ==> s.last().0
                + s.last().1 == if channel_count < l * fit {
                channel_count as int
            } else {
                (l * fit) as int
            }
        }),
{
    let l: nat = if lanes == 0 {
        1
    } else {
        lanes
    };
    let fit: nat = if max_cells == 0 {
        1
    } else {
        max_cells
    };
    let cc = channel_count as int;
    let cpl = cells_per_lane(channel_count, lanes, max_cells);
    let need = (cc + cpl - 1) / (cpl as int);
    let count = populated_lanes(channel_count, lanes, cpl);
    let s = lane_slices(channel_count, lanes, max_cells);
    lemma_div_ceil(cc, l as int);
    lemma_div_ceil(cc, cpl as int);
    assert forall|i: int| 0 < i < s.len() implies #[trigger] s[i].0 == s[i - 1].0 + s[i - 1].1 by {
        lemma_start_below(i, cpl as int, need, cc);
        lemma_start_below(i - 1, cpl as int, need, cc);
    }
    assert forall|i: int| 0 <= i < s.len() implies #[trigger] s[i].1 >= 1 by {
        lemma_start_below(i, cpl as int, need, cc);
    }
    if s.len() > 0 {
        let k = count - 1;
        lemma_start_below(k, cpl as int, need, cc);
        lemma_last_lane_end(cc, l as int, fit as int, cpl as int, need, count as int);
    }
    if cc > 0 {
        assert(need >= 1) by (nonlinear_arith)
            requires
                need * cpl >= cc,
                cc > 0,
                cpl >= 1,
        ;
    } else {
        assert(need == 0) by (nonlinear_arith)
            requires
                need == (cc + cpl - 1) / (cpl as int),
                cc == 0,
                cpl >= 1,
        ;
    }
}

/// Where the last populated lane ends.
proof fn lemma_last_lane_end(cc: int, l: int, fit: int, cpl: int, need: int, count: int)
    requires
        cc >= 0,
        l >= 1,
        fit >= 1,
        cpl >= 1,
        cpl == (if (cc + l - 1) / l < fit {
            if (cc + l - 1) / l < 1 {
                1
            } else {
                (cc + l - 1) / l
            }
        } else {
            fit
        }),
        (cc + l - 1) / l * l >= cc,
        need == (cc + cpl - 1) / cpl,
        need * cpl >= cc,
        (need - 1) * cpl < cc,
        count == (if need < l {
            need
        } else {
            l
        }),
        count >= 1,
    ensures
        need <= l ==> (count - 1) * cpl + (if cc - (count - 1) * cpl < cpl {
            cc - (count - 1) * cpl
        } else {
            cpl
        }) == cc,
        (cc + l - 1) / l <= fit ==> need <= l,
        (cc + l - 1) / l > fit ==> (count - 1) * cpl + (if cc - (count - 1) * cpl < cpl {
            cc - (count - 1) * cpl
        } else {
            cpl
        }) == (if cc < l * fit {
            cc
        } else {
            l * fit
        }),
{
    let k = count - 1;
    if need <= l {
        assert(cc - k * cpl <= cpl) by (nonlinear_arith)
            requires
                k == need - 1,
                need * cpl >= cc,
        ;
    }
    if (cc + l - 1) / l <= fit {
        let per = (cc + l - 1) / l;
        if per >= 1 {
            assert(need <= l) by (nonlinear_arith)
                requires
                    cpl == per,
                    cpl >= 1,
                    need == (cc + cpl - 1) / cpl,
                    per * l >= cc,
                    l >= 1,
            ;
        } else {
            assert(cc == 0) by (nonlinear_arith)
                requires
                    per == (cc + l - 1) / l,
                    per < 1,
                    cc >= 0,
                    l >= 1,
            ;
            assert(need == 0) by (nonlinear_arith)
                requires
                    need == (cc + cpl - 1) / cpl,
                    cc == 0,
                    cpl >= 1,
            ;
        }
    } else {
        assert(cpl == fit);
        if need > l {
            assert(cc - k * cpl > cpl) by (nonlinear_arith)
                requires
                    k == l - 1,
                    need > l,
                    (need - 1) * cpl < cc,
                    cpl >= 1,
            ;
            assert(k * cpl + cpl == l * fit) by (nonlinear_arith)
                requires
                    k == l - 1,
                    cpl == fit,
            ;
        } else {
            assert(cc <= l * fit) by (nonlinear_arith)
                requires
                    need <= l,
                    need * cpl >= cc,
                    cpl == fit,
                    need >= 0,
                    fit >= 1,
            ;
            assert(cc - k * cpl <= cpl) by (nonlinear_arith)
                requires
                    k == need - 1,
                    need * cpl >= cc,
            ;
        }
    }
}

/// The title of the pattern pane: ` pattern`, then ` ×N` when stacked into N
/// lanes, then ` compact` in compact mode, then a closing space.
pub open spec fn title_text(v: PatternView) -> Seq<char> {
    " pattern"@ + (if v.stack > 1 {
        " ×"@ + decimal(v.stack as nat)
    } else {
        Seq::empty()
    }) + (if v.compact {
        " compact"@
    } else {
        Seq::empty()
    }) + " "@
}

pub fn pattern_title(view: PatternView) -> (r: String)
    ensures
        r@ == title_text(view),
{
    let mut s: Vec<char> = Vec::new();
    push_str(&mut s, " pattern");
    if view.stack > 1 {
        push_str(&mut s, " ×");
        let d = decimal_chars(view.stack as u64);
        push_all(&mut s, d.as_slice());
    }
    if view.compact {
        push_str(&mut s, " compact");
    }
    push_str(&mut s, " ");
    string_from_chars(s.as_slice())
}

/// Cell width in characters: `C-5 01 v40 A20`, or `C-5 01` when compact.
pub open spec fn cell_width(compact: bool) -> nat {
    if compact {
        6
    } else {
        14
    }
}

/// What an empty cell shows.
pub open spec fn empty_cell_text(compact: bool) -> Seq<char> {
    if compact {
        "... .."@
    } else {
        "... .. .. ..."@
    }
}

/// The characters a cell displays: its text, or the empty-cell dots when it
/// is missing or blank, cut to the cell width.
pub open spec fn cell_chars(cell: Option<Seq<char>>, compact: bool) -> Seq<char> {
    let text = match cell {
        Some(c) => c,
        None => Seq::empty(),
    };
    let source = if trim(text).len() == 0 {
        empty_cell_text(compact)
    } else {
        text
    };
    if source.len() <= cell_width(compact) {
        source
    } else {
        source.subrange(0, cell_width(compact) as int)
    }
}

/// The characters channel `channel` of a row displays.
pub fn cell_display(row: &PatternRow, channel: usize, compact: bool) -> (r: Vec<char>)
    ensures
        r@ == cell_chars(
            if (channel as int) < row.cells@.len() {
                Some(row.cells@[channel as int]@)
            } else {
                None
            },
            compact,
        ),
{
    let text = if channel < row.cells.len() {
        chars_of(row.cells[channel].as_str())
    } else {
        Vec::new()
    };
    let trimmed = trim_chars(text.as_slice());
    let source = if trimmed.len() == 0 {
        if compact {
            chars_of("... ..")
        } else {
            chars_of("... .. .. ...")
        }
    } else {
        text
    };
    let w: usize = if compact {
        6
    } else {
        14
    };
    let mut out: Vec<char> = Vec::new();
    let mut i: usize = 0;
    while i < source.len() && i < w
        invariant
            i <= source@.len(),
            i <= w,
            out@ == source@.subrange(0, i as int),
        decreases w - i,
    {
        out.push(source[i]);
        i = i + 1;
    }
    assert(source@.len() <= w ==> source@.subrange(0, source@.len() as int) =~= source@);
    out
}

/// How a character of a pattern cell is coloured. libopenmpt lays a cell out
/// as `C-5 01 v40 A20`: three characters of note, two of instrument, then the
/// volume command (three) and the effect (three), with spaces between; the
/// character's position decides, not its value.
#[derive(Debug, Clone, Copy, PartialEq, Eq, Structural)]
pub enum CellTone {
    /// A dot or a space: dimmed, never bold.
    Blank,
    Note,
    /// A separator position: dimmed, bold on the current row.
    Separator,
    Instrument,
    Volume,
    Effect,
    /// Past the last field: the plain foreground colour.
    Plain,
}

pub open spec fn tone_of(ch: char, idx: nat) -> CellTone {
    if ch == '.' || ch == ' ' {
        CellTone::Blank
    } else if idx <= 2 {
        CellTone::Note
    } else if idx == 3 || idx == 6 || idx == 10 {
        CellTone::Separator
    } else if idx <= 5 {
        CellTone::Instrument
    } else if idx <= 9 {
        CellTone::Volume
    } else if idx <= 13 {
        CellTone::Effect
    } else {
        CellTone::Plain
    }
}

/// The tone of the character `ch` at position `idx` of a cell.
pub fn classify(ch: char, idx: usize) -> (r: CellTone)
    ensures
        r == tone_of(ch, idx as nat),
{
    if ch == '.' || ch == ' ' {
        return CellTone::Blank;
    }
    match idx {
        0..=2 => CellTone::Note,
        3 => CellTone::Separator,
        4..=5 => CellTone::Instrument,
        6 => CellTone::Separator,
        7..=9 => CellTone::Volume,
        10 => CellTone::Separator,
        11..=13 => CellTone::Effect,
        _ => CellTone::Plain,
    }
}

/// The row-number column: the row index right-aligned in three characters and
/// a space, or four spaces for placeholder rows outside the pattern.
pub open spec fn row_label_text(row_index: int) -> Seq<char> {
    if row_index < 0 {
        "    "@
    } else {
        pad_left(decimal(row_index as nat), 3) + " "@
    }
}

pub fn row_label(row_index: i32) -> (r: String)
    ensures
        r@ == row_label_text(row_index as int),
{
    if row_index < 0 {
        return "    ".to_owned();
    }
    let d = decimal_chars(row_index as u64);
    let mut v = pad_left_chars(d.as_slice(), 3);
    push_str(&mut v, " ");
    string_from_chars(v.as_slice())
}

/// The rows a lane shows: `visible` rows with the current row in the middle
/// where possible, cut at the end of the window. The range is `start..end`.
pub open spec fn visible_range(center: nat, total: nat, visible: nat) -> (nat, nat) {
    let half = visible / 2;
    let start: nat = if center >= half {
        (center - half) as nat
    } else {
        0
    };
    let end: nat = if start + visible < total {
        start + visible
    } else {
        total
    };
    (start, end)
}

pub fn visible_rows(center: usize, total: usize, visible: usize) -> (r: (usize, usize))
    requires
        center + visible <= usize::MAX,
    ensures
        (r.0 as nat, r.1 as nat) == visible_range(center as nat, total as nat, visible as nat),
{
    let half = visible / 2;
    let start = if center >= half {
        center - half
    } else {
        0
    };
    let end = if start + visible < total {
        start + visible
    } else {
        total
    };
    (start, end)
}

/// The channel-range label of a stacked lane: ` ch N ` for one channel,
/// ` ch A-B ` for several (1-based), nothing for none.
pub open spec fn lane_label_text(ch_start: nat, cells: nat) -> Seq<char> {
    if cells == 0 {
        Seq::empty()
    } else if cells == 1 {
        " ch "@ + decimal(ch_start + 1) + " "@
    } else {
        " ch "@ + decimal(ch_start + 1) + "-"@ + decimal(ch_start + cells) + " "@
    }
}

/// The header line of a stacked lane, as its three pieces: two leading
/// dashes, the channel-range label, and the dashes that fill the rest of
/// `width`.
pub fn lane_header(ch_start: usize, cells: usize, width: usize) -> (r: (String, String, String))
    requires
        ch_start + cells + 1 <= u64::MAX,
        ch_start + cells + 1 <= usize::MAX,
    ensures
        r.0@ == repeated('─', 2),
        r.1@ == lane_label_text(ch_start as nat, cells as nat),
        r.2@ == repeated(
            '─',
            if width >= 2 + r.1@.len() {
                (width - 2 - r.1@.len()) as nat
            } else {
                0
            },
        ),
{
    let mut label: Vec<char> = Vec::new();
    if cells == 1 {
        push_str(&mut label, " ch ");
        let a = decimal_chars((ch_start + 1) as u64);
        push_all(&mut label, a.as_slice());
        push_str(&mut label, " ");
    } else if cells > 1 {
        push_str(&mut label, " ch ");
        let a = decimal_chars((ch_start + 1) as u64);
        push_all(&mut label, a.as_slice());
        push_str(&mut label, "-");
        let b = decimal_chars((ch_start + cells) as u64);
        push_all(&mut label, b.as_slice());
        push_str(&mut label, " ");
    }
    let used = label.len();
    let trail: usize = if width >= 2 && width - 2 >= used {
        width - 2 - used
    } else {
        0
    };
    let lead = repeat_char('─', 2);
    let fill = repeat_char('─', trail);
    (string_from_chars(lead.as_slice()), string_from_chars(label.as_slice()), string_from_chars(
        fill.as_slice(),
    ))
}

/// Columns taken by the row marker and row number in front of the cells.
pub const ROW_LABEL_W: usize = 4;

/// How the pattern pane is divided: the number of lanes, the width of a
/// cell, how many cells fit across a lane, and the rows each lane gets.
#[derive(Debug, Clone, Copy, PartialEq, Eq, Structural)]
pub struct LaneLayout {
    pub lanes: usize,
    pub cell_w: usize,
    pub max_cells: usize,
    pub lane_height: u16,
}

/// The lanes shown: the stack setting (at least one), but no more than there
/// are channels.
pub open spec fn layout_lanes(stack: u8, channel_count: nat) -> nat {
    let s: nat = if stack < 1 {
        1
    } else {
        stack as nat
    };
    if s < channel_count {
        s
    } else {
        channel_count
    }
}

/// Cells across a lane: what fits beside the row label, each cell followed
/// by a one-column separator; at least one.
pub open spec fn layout_max_cells(compact: bool, width: nat) -> nat {
    let avail: nat = if width >= ROW_LABEL_W {
        (width - ROW_LABEL_W) as nat
    } else {
        0
    };
    let m = avail / (cell_width(compact) + 1);
    if m < 1 {
        1
    } else {
        m
    }
}

/// Rows per lane: the height shared evenly, at least one.
pub open spec fn layout_lane_height(height: nat, lanes: nat) -> nat {
    let h = height / lanes;
    if h < 1 {
        1
    } else {
        h
    }
}

/// The lane layout of a pane `width` by `height` cells showing
/// `channel_count` channels. (With no channels the pane shows a placeholder
/// instead; there are then no lanes to share the height.)
pub fn lane_layout(view: PatternView, channel_count: usize, width: u16, height: u16) -> (r:
    LaneLayout)
    requires
        channel_count > 0,
    ensures
        r.lanes == layout_lanes(view.stack, channel_count as nat),
        r.cell_w == cell_width(view.compact),
        r.max_cells == layout_max_cells(view.compact, width as nat),
        r.lane_height == layout_lane_height(height as nat, r.lanes as nat),
{
    let s: usize = if view.stack < 1 {
        1
    } else {
        view.stack as usize
    };
    let lanes = if s < channel_count {
        s
    } else {
        channel_count
    };
    let cell_w: usize = if view.compact {
        6
    } else {
        14
    };
    let w = width as usize;
    let avail = if w >= ROW_LABEL_W {
        w - ROW_LABEL_W
    } else {
        0
    };
    let m = avail / (cell_w + 1);
    let max_cells = if m < 1 {
        1
    } else {
        m
    };
    let h = (height as usize) / lanes;
    assert(h <= height) by (nonlinear_arith)
        requires
            lanes >= 1,
            h == (height as usize) / lanes,
    ;
    let lane_height: u16 = if h < 1 {
        1
    } else {
        h as u16
    };
    LaneLayout { lanes, cell_w, max_cells, lane_height }
}

/// A row number capped at the last row a terminal can address.
pub open spec fn sat16(x: nat) -> nat {
    if x > u16::MAX {
        u16::MAX as nat
    } else {
        x
    }
}

/// Where lane `idx` sits in a pane whose rows start at `top` and number
/// `height`: its first row, its row count (the last lane takes all rows
/// left over) and whether it is tall enough for a channel header when the
/// pane is stacked; none when the lanes above have used every row.
pub open spec fn lane_rows_of(lanes: nat, lane_height: nat, idx: nat, top: nat, height: nat) -> Option<
    (nat, nat, bool),
> {
    let bottom = sat16(top + height);
    let y = sat16(top + lane_height * idx);
    if y >= bottom {
        None
    } else {
        let remaining = (bottom - y) as nat;
        let h = if idx + 1 == lanes {
            remaining
        } else if lane_height < remaining {
            lane_height
        } else {
            remaining
        };
        Some((y, h, lanes > 1 && h >= 2))
    }
}

/// The rows of lane `idx` of the layout for `view`, `channel_count` channels
/// and a pane of `height` rows starting at row `top`.
pub fn lane_rows(view: PatternView, channel_count: usize, top: u16, height: u16, idx: usize) -> (r:
    Option<(u16, u16, bool)>)
    requires
        channel_count > 0,
        idx < layout_lanes(view.stack, channel_count as nat),
    ensures
        match r {
            Some((y, h, header)) => lane_rows_of(
                layout_lanes(view.stack, channel_count as nat),
                layout_lane_height(height as nat, layout_lanes(view.stack, channel_count as nat)),
                idx as nat,
                top as nat,
                height as nat,
            ) == Some((y as nat, h as nat, header)),
            None => lane_rows_of(
                layout_lanes(view.stack, channel_count as nat),
                layout_lane_height(height as nat, layout_lanes(view.stack, channel_count as nat)),
                idx as nat,
                top as nat,
                height as nat,
            ) is None,
        },
{
    let layout = lane_layout(view, channel_count, 0, height);
    let lanes = layout.lanes;
    let lh = layout.lane_height as usize;
    proof {
        let q = height as int / lanes as int;
        if q >= 1 {
            assert(q * idx <= q * (lanes - 1)) by (nonlinear_arith)
                requires
                    idx <= lanes - 1,
                    q >= 1,
            ;
            assert(q * (lanes - 1) + q <= height) by (nonlinear_arith)
                requires
                    lanes >= 1,
                    q == height as int / lanes as int,
                    height >= 0,
            ;
        }
        assert(lanes <= 255);
    }
    let prod: usize = lh * idx;
    let bottom = top.saturating_add(height);
    let y = top.saturating_add(prod as u16);
    if y >= bottom {
        return None;
    }
    let remaining = bottom - y;
    let lh16 = layout.lane_height;
    let h = if idx + 1 == lanes {
        remaining
    } else if lh16 < remaining {
        lh16
    } else {
        remaining
    };
    Some((y, h, lanes > 1 && h >= 2))
}

} // verus!
