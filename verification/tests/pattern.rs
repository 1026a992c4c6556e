use rtrax::pattern::{
    cell_display, classify, lane_channel_slices, lane_header, pattern_title, row_label,
    visible_rows, window_rows, CellTone, PatternRow, PatternView, PatternWindow,
};

#[test]
fn cycle_stack_progresses_1_2_4_1() {
    let mut v = PatternView::default();
    assert_eq!(v.stack, 1);
    v.cycle_stack();
    assert_eq!(v.stack, 2);
    v.cycle_stack();
    assert_eq!(v.stack, 4);
    v.cycle_stack();
    assert_eq!(v.stack, 1);
}

#[test]
fn toggle_compact_flips() {
    let mut v = PatternView::default();
    assert!(!v.compact);
    v.toggle_compact();
    assert!(v.compact);
    v.toggle_compact();
    assert!(!v.compact);
}

fn covered(channel_count: usize, lanes: usize, max_cells: usize) -> Vec<usize> {
    lane_channel_slices(channel_count, lanes, max_cells)
        .into_iter()
        .flat_map(|(start, len)| start..start + len)
        .collect()
}

#[test]
fn slices_cover_all_channels_contiguously_when_they_fit() {
    let got = covered(64, 4, 16);
    assert_eq!(got, (0..64).collect::<Vec<_>>());
}

#[test]
fn slices_never_drop_a_middle_band_when_width_constrained() {
    let got = covered(64, 4, 8);
    assert_eq!(got, (0..32).collect::<Vec<_>>());
    assert!(got.windows(2).all(|w| w[1] == w[0] + 1));
}

#[test]
fn slices_single_lane_shows_a_prefix_of_channels() {
    assert_eq!(covered(4, 1, 16), vec![0, 1, 2, 3]);
    assert_eq!(covered(40, 1, 8), (0..8).collect::<Vec<_>>());
}

#[test]
fn slices_skip_empty_trailing_lanes() {
    let slices = lane_channel_slices(5, 4, 16);
    assert_eq!(slices, vec![(0, 2), (2, 2), (4, 1)]);
}

#[test]
fn slices_degenerate_inputs() {
    assert_eq!(lane_channel_slices(0, 4, 16), vec![]);
    assert_eq!(lane_channel_slices(3, 0, 0), vec![(0, 1)]);
    assert_eq!(lane_channel_slices(7, 2, 0), vec![(0, 1), (1, 1)]);
}

#[test]
fn auto_for_channels_picks_expected_layout() {
    let v = PatternView::auto_for_channels(4);
    assert_eq!(v.stack, 1);
    assert!(!v.compact);
    assert_eq!(PatternView::auto_for_channels(16).stack, 2);
    let v32 = PatternView::auto_for_channels(32);
    assert_eq!(v32.stack, 4);
    assert!(v32.compact);
    let v64 = PatternView::auto_for_channels(64);
    assert_eq!(v64.stack, 4);
    assert!(v64.compact);
}

#[test]
fn title_reflects_active_modifiers() {
    assert_eq!(pattern_title(PatternView::default()), " pattern ");
    assert_eq!(pattern_title(PatternView { stack: 2, compact: false }), " pattern ×2 ");
    assert_eq!(pattern_title(PatternView { stack: 4, compact: true }), " pattern ×4 compact ");
}

#[test]
fn cells_fall_back_to_dots_and_are_cut_to_width() {
    let row = PatternRow {
        row_index: 3,
        cells: vec!["C-5 01 v40 A20".to_string(), "   ".to_string()],
    };
    let s = |v: Vec<char>| v.into_iter().collect::<String>();
    assert_eq!(s(cell_display(&row, 0, false)), "C-5 01 v40 A20");
    assert_eq!(s(cell_display(&row, 0, true)), "C-5 01");
    assert_eq!(s(cell_display(&row, 1, false)), "... .. .. ...");
    assert_eq!(s(cell_display(&row, 9, true)), "... ..");
}

#[test]
fn classify_by_position() {
    assert_eq!(classify('C', 0), CellTone::Note);
    assert_eq!(classify('-', 3), CellTone::Separator);
    assert_eq!(classify('0', 4), CellTone::Instrument);
    assert_eq!(classify('v', 7), CellTone::Volume);
    assert_eq!(classify('A', 11), CellTone::Effect);
    assert_eq!(classify('x', 20), CellTone::Plain);
    assert_eq!(classify('.', 0), CellTone::Blank);
    assert_eq!(classify(' ', 12), CellTone::Blank);
}

#[test]
fn row_labels_and_lane_headers() {
    assert_eq!(row_label(-1), "    ");
    assert_eq!(row_label(5), "  5 ");
    assert_eq!(row_label(123), "123 ");
    assert_eq!(row_label(1234), "1234 ");
    let (lead, label, trail) = lane_header(0, 1, 12);
    assert_eq!(lead, "──");
    assert_eq!(label, " ch 1 ");
    assert_eq!(trail, "────");
    let (_, label, trail) = lane_header(8, 8, 10);
    assert_eq!(label, " ch 9-16 ");
    assert_eq!(trail, "");
    let (_, label, _) = lane_header(4, 0, 10);
    assert_eq!(label, "");
}

#[test]
fn visible_rows_center_the_current_row() {
    assert_eq!(visible_rows(16, 33, 10), (11, 21));
    assert_eq!(visible_rows(2, 33, 10), (0, 10));
    assert_eq!(visible_rows(30, 33, 10), (25, 33));
}

#[test]
fn window_rows_span_the_radius() {
    let rows = window_rows(3, 64);
    assert_eq!(rows.len(), 33);
    assert_eq!(rows[0], (-13, false));
    assert_eq!(rows[13], (0, true));
    assert_eq!(rows[16], (3, true));
    assert_eq!(rows[32], (19, true));
    let w = PatternWindow { pattern: 2, rows: vec![PatternRow::default()], current_index: 0, channel_count: 4 };
    assert_eq!(w.current_row().map(|r| r.row_index), Some(0));
    let w = PatternWindow::default();
    assert!(w.current_row().is_none());
}

#[test]
fn lane_layout_shares_width_and_height() {
    let v = PatternView { stack: 4, compact: true };
    let l = rtrax::pattern::lane_layout(v, 24, 80, 30);
    assert_eq!((l.lanes, l.cell_w, l.max_cells, l.lane_height), (4, 6, 10, 7));
    let v = PatternView { stack: 4, compact: false };
    let l = rtrax::pattern::lane_layout(v, 2, 10, 1);
    assert_eq!((l.lanes, l.cell_w, l.max_cells, l.lane_height), (2, 14, 1, 1));
}

#[test]
fn last_lane_takes_the_leftover_rows() {
    let v = PatternView { stack: 4, compact: true };
    assert_eq!(rtrax::pattern::lane_rows(v, 24, 5, 30, 0), Some((5, 7, true)));
    assert_eq!(rtrax::pattern::lane_rows(v, 24, 5, 30, 2), Some((19, 7, true)));
    assert_eq!(rtrax::pattern::lane_rows(v, 24, 5, 30, 3), Some((26, 9, true)));
    // Too few rows: lanes past the bottom get none.
    assert_eq!(rtrax::pattern::lane_rows(v, 24, 0, 2, 1), Some((1, 1, false)));
    assert_eq!(rtrax::pattern::lane_rows(v, 24, 0, 2, 2), None);
}

#[test]
fn snapshot_rows_hold_one_cell_per_channel() {
    let window = vec![(-1, false), (0, true), (1, true), (64, false)];
    let read = vec![
        vec![],
        vec!["C-5 01".to_string(), "D-5 02".to_string()],
        vec![],
        vec!["ignored".to_string()],
    ];
    let rows = rtrax::pattern::rows_from_cells(window, read, 3);
    assert_eq!(rows.len(), 4);
    assert_eq!(rows[0].row_index, -1);
    assert_eq!(rows[0].cells, vec![String::new(); 3]);
    assert_eq!(rows[1].cells, vec!["C-5 01".to_string(), "D-5 02".to_string(), String::new()]);
    assert_eq!(rows[2].cells, vec![String::new(); 3]);
    assert_eq!(rows[3].row_index, 64);
    assert_eq!(rows[3].cells, vec![String::new(); 3]);
}
