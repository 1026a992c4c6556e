use rtrax::meters::{channel_list, meter_glyphs, meter_grid, meter_label, meter_slot};

fn glyphs(width: usize, filled: usize) -> String {
    meter_glyphs(width, filled).into_iter().collect()
}

#[test]
fn empty_bar_is_blank() {
    assert_eq!(glyphs(8, 0), "        ");
    assert_eq!(glyphs(0, 5), "");
}

#[test]
fn bar_fills_whole_cells_then_a_partial_one() {
    assert_eq!(glyphs(4, 8), "█   ");
    assert_eq!(glyphs(4, 11), "█▃  ");
    assert_eq!(glyphs(4, 1), "▁   ");
    assert_eq!(glyphs(4, 15), "█▇  ");
    assert_eq!(glyphs(4, 32), "████");
    assert_eq!(glyphs(4, 40), "████");
}

#[test]
fn grid_fits_columns_and_keeps_left_right_pairs() {
    // 40 cells wide: two 15-cell columns; 10 rows high.
    let g = meter_grid(8, 40, 10);
    assert_eq!((g.cols, g.rows, g.per_col), (2, 8, 4));
    // An odd height drops the last row so no left bar stands alone.
    let g = meter_grid(8, 40, 7);
    assert_eq!((g.cols, g.rows, g.per_col), (2, 6, 3));
    // A narrow pane still has one column.
    let g = meter_grid(3, 5, 20);
    assert_eq!((g.cols, g.rows, g.per_col), (1, 6, 3));
    // Uneven split rounds up.
    let g = meter_grid(5, 30, 40);
    assert_eq!((g.cols, g.rows, g.per_col), (2, 6, 3));
}

#[test]
fn slots_run_down_each_column() {
    assert_eq!(meter_slot(5, 3, 0, 0), Some((0, true)));
    assert_eq!(meter_slot(5, 3, 1, 0), Some((0, false)));
    assert_eq!(meter_slot(5, 3, 4, 0), Some((2, true)));
    assert_eq!(meter_slot(5, 3, 0, 1), Some((3, true)));
    assert_eq!(meter_slot(5, 3, 3, 1), Some((4, false)));
    assert_eq!(meter_slot(5, 3, 4, 1), None);
    assert_eq!(meter_slot(5, usize::MAX, 0, 2), None);
}

#[test]
fn labels_number_channels_from_one() {
    assert_eq!(meter_label(0, true), " 1 L ");
    assert_eq!(meter_label(0, false), "   R ");
    assert_eq!(meter_label(11, true), "12 L ");
    assert_eq!(meter_label(99, true), "100 L ");
}

#[test]
fn channel_list_hints_at_the_rest() {
    assert_eq!(channel_list(0, 10), (0, 0));
    assert_eq!(channel_list(4, 0), (0, 0));
    assert_eq!(channel_list(4, 10), (4, 0));
    assert_eq!(channel_list(4, 4), (4, 0));
    assert_eq!(channel_list(32, 10), (9, 23));
    assert_eq!(channel_list(2, 1), (0, 2));
}
