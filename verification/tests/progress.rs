use rtrax::config::ProgressBarStyle;
use rtrax::progress;
use rtrax::progress::{bar, blocks, eighth_partial, segments, triangle, BarPiece};

fn text(pieces: &[BarPiece]) -> String {
    pieces.iter().map(|p| p.text.as_str()).collect()
}

fn cell_width(pieces: &[BarPiece]) -> usize {
    text(pieces).chars().count()
}

// The raw positions the front end derives from the playback fraction.
fn clamp(frac: f32) -> f32 {
    if frac.is_finite() {
        frac.clamp(0.0, 1.0)
    } else {
        0.0
    }
}

fn tri(width: usize, frac: f32) -> Vec<BarPiece> {
    let inner = width.saturating_sub(2);
    triangle(width, (frac * inner as f32) as usize)
}

fn blk(width: usize, frac: f32) -> Vec<BarPiece> {
    blocks(width, (frac * (width as f32) * 8.0).round() as usize)
}

fn lin(width: usize, frac: f32) -> Vec<BarPiece> {
    progress::line(width, (frac * width as f32) as usize)
}

fn seg(width: usize, frac: f32) -> Vec<BarPiece> {
    segments(width, (frac * width as f32).round() as usize)
}

#[test]
fn triangle_under_three_wide_is_empty() {
    assert_eq!(text(&tri(0, 0.5)), "");
    assert_eq!(text(&tri(2, 0.5)), "");
}

#[test]
fn triangle_at_start_places_marker_at_left_inside_brackets() {
    assert_eq!(text(&tri(10, 0.0)), "[▲───────]");
}

#[test]
fn triangle_at_end_places_marker_at_right_inside_brackets() {
    assert_eq!(text(&tri(10, 1.0)), "[━━━━━━━▲]");
}

#[test]
fn triangle_midpoint_falls_in_middle() {
    assert_eq!(text(&tri(10, 0.5)), "[━━━━▲───]");
}

#[test]
fn triangle_total_width_matches_requested() {
    for w in 3..=24 {
        for f in [0.0_f32, 0.25, 0.5, 0.75, 1.0] {
            assert_eq!(cell_width(&tri(w, f)), w, "w={w} f={f}");
        }
    }
}

#[test]
fn blocks_empty_width_is_empty() {
    assert_eq!(text(&blk(0, 0.5)), "");
}

#[test]
fn blocks_at_zero_is_all_space() {
    assert_eq!(text(&blk(8, 0.0)), "        ");
}

#[test]
fn blocks_at_one_is_all_full() {
    assert_eq!(text(&blk(8, 1.0)), "████████");
}

#[test]
fn blocks_half_is_half_full() {
    assert_eq!(text(&blk(8, 0.5)), "████    ");
}

#[test]
fn blocks_uses_eighth_partial_for_subcell() {
    assert_eq!(text(&blk(8, 1.0 / 16.0)), "▌       ");
}

#[test]
fn blocks_total_width_matches_requested() {
    for w in 1..=24 {
        for f in [0.0_f32, 0.1, 0.5, 0.9, 1.0] {
            assert_eq!(cell_width(&blk(w, f)), w, "w={w} f={f}");
        }
    }
}

#[test]
fn line_empty_width_is_empty() {
    assert_eq!(text(&lin(0, 0.5)), "");
}

#[test]
fn line_at_start_head_at_left() {
    assert_eq!(text(&lin(10, 0.0)), "╸─────────");
}

#[test]
fn line_at_end_head_at_right() {
    assert_eq!(text(&lin(10, 1.0)), "━━━━━━━━━╸");
}

#[test]
fn line_total_width_matches_requested() {
    for w in 1..=24 {
        for f in [0.0_f32, 0.25, 0.5, 0.75, 1.0] {
            assert_eq!(cell_width(&lin(w, f)), w, "w={w} f={f}");
        }
    }
}

#[test]
fn segments_empty_width_is_empty() {
    assert_eq!(text(&seg(0, 0.5)), "");
}

#[test]
fn segments_at_zero_is_all_empty_pips() {
    assert_eq!(text(&seg(8, 0.0)), "▱▱▱▱▱▱▱▱");
}

#[test]
fn segments_at_one_is_all_filled_pips() {
    assert_eq!(text(&seg(8, 1.0)), "▰▰▰▰▰▰▰▰");
}

#[test]
fn segments_half_is_half_filled() {
    assert_eq!(text(&seg(8, 0.5)), "▰▰▰▰▱▱▱▱");
}

#[test]
fn segments_total_width_matches_requested() {
    for w in 1..=24 {
        for f in [0.0_f32, 0.25, 0.5, 0.75, 1.0] {
            assert_eq!(cell_width(&seg(w, f)), w, "w={w} f={f}");
        }
    }
}

#[test]
fn render_treats_nan_as_zero() {
    let l = seg(8, clamp(f32::NAN));
    assert_eq!(text(&l), "▱▱▱▱▱▱▱▱");
}

#[test]
fn render_clamps_over_one() {
    let l = seg(8, clamp(5.0));
    assert_eq!(text(&l), "▰▰▰▰▰▰▰▰");
}

#[test]
fn raw_positions_past_the_end_are_clamped() {
    assert_eq!(text(&triangle(5, 99)), "[━━▲]");
    assert_eq!(text(&blocks(2, 99)), "██");
    assert_eq!(text(&progress::line(3, 99)), "━━╸");
    assert_eq!(text(&segments(3, 99)), "▰▰▰");
    assert_eq!(text(&bar(ProgressBarStyle::Segments, 3, 1)), "▰▱▱");
}

#[test]
fn eighth_partial_maps_every_count() {
    let got: String = (0..9).map(eighth_partial).collect();
    assert_eq!(got, "█▏▎▍▌▋▊▉█");
}
