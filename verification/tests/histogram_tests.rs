use snowlv::axis::SortOrder;
use snowlv::histogram::{clamp_grid_size, HistogramControls, HistogramMode, HistogramUpdates, TableOperation};

type Controls = HistogramControls<(f64, f64), Vec<f64>, (usize, usize), Vec<Vec<f64>>, String>;
type Updates = HistogramUpdates<(f64, f64), String>;

fn controls() -> Controls {
    HistogramControls {
        x_channel: Some(0),
        y_channel: Some(1),
        z_channel: None,
        mode: HistogramMode::HitCount,
        custom_grid_columns: 16,
        custom_grid_rows: 16,
        custom_x_bins: Some(vec![1.0, 2.0]),
        custom_x_bins_text: "1, 2".to_string(),
        custom_y_bins: Some(vec![3.0]),
        custom_y_bins_text: "3".to_string(),
        decimal_precision: 1,
        color_by_count: false,
        min_hits_filter: 0,
        custom_x_range: None,
        custom_y_range: Some((0.0, 10.0)),
        x_sort_order: SortOrder::Increasing,
        y_sort_order: SortOrder::Increasing,
        table_operation: TableOperation::Add,
        show_comparison_view: true,
        pasted_table: Some(vec![vec![1.0]]),
        selected_cell: Some((2, 3)),
        sample_filters: vec!["a".to_string(), "b".to_string(), "c".to_string()],
    }
}

fn no_updates() -> Updates {
    HistogramUpdates {
        x_channel: None,
        y_channel: None,
        z_channel: None,
        mode: None,
        grid_columns: None,
        grid_rows: None,
        decimal_precision: None,
        color_by_count: None,
        min_hits_filter: None,
        custom_x_range: None,
        custom_y_range: None,
        x_sort_order: None,
        y_sort_order: None,
        table_operation: None,
        show_comparison_view: None,
        clear_pasted_table: false,
        filter_updates: Vec::new(),
        filters_to_remove: Vec::new(),
        new_filter: None,
    }
}

#[test]
fn no_updates_change_nothing() {
    let mut c = controls();
    c.apply_updates(no_updates());
    assert_eq!(c.selected_cell, Some((2, 3)));
    assert_eq!(c.custom_x_bins_text, "1, 2");
    assert_eq!(c.sample_filters, vec!["a", "b", "c"]);
    assert!(c.show_comparison_view);
}

#[test]
fn display_updates_keep_the_selected_cell() {
    let mut c = controls();
    let mut u = no_updates();
    u.decimal_precision = Some(3);
    u.color_by_count = Some(true);
    u.min_hits_filter = Some(5);
    u.x_sort_order = Some(SortOrder::Decreasing);
    u.table_operation = Some(TableOperation::Divide);
    c.apply_updates(u);
    assert_eq!(c.selected_cell, Some((2, 3)));
    assert_eq!((c.decimal_precision, c.color_by_count, c.min_hits_filter), (3, true, 5));
    assert_eq!(c.x_sort_order, SortOrder::Decreasing);
    assert_eq!(c.table_operation, TableOperation::Divide);
}

#[test]
fn channel_or_mode_change_clears_the_selection() {
    let mut c = controls();
    let mut u = no_updates();
    u.z_channel = Some(4);
    u.mode = Some(HistogramMode::AverageZ);
    c.apply_updates(u);
    assert_eq!(c.z_channel, Some(4));
    assert_eq!(c.mode, HistogramMode::AverageZ);
    assert_eq!(c.selected_cell, None);
    let mut c = controls();
    let mut u = no_updates();
    u.custom_y_range = Some(None);
    c.apply_updates(u);
    assert_eq!(c.custom_y_range, None);
    assert_eq!(c.selected_cell, None);
}

#[test]
fn grid_change_drops_that_axis_bins() {
    let mut c = controls();
    let mut u = no_updates();
    u.grid_columns = Some(32);
    c.apply_updates(u);
    assert_eq!(c.custom_grid_columns, 32);
    assert_eq!(c.custom_x_bins, None);
    assert_eq!(c.custom_x_bins_text, "");
    assert_eq!(c.custom_y_bins, Some(vec![3.0]));
    assert_eq!(c.custom_y_bins_text, "3");
    assert_eq!(c.selected_cell, None);
}

#[test]
fn clearing_the_pasted_table_leaves_the_comparison() {
    let mut c = controls();
    let mut u = no_updates();
    u.show_comparison_view = Some(true);
    u.clear_pasted_table = true;
    c.apply_updates(u);
    assert_eq!(c.pasted_table, None);
    assert!(!c.show_comparison_view);
}

#[test]
fn filters_are_edited_then_removed_then_added() {
    let mut c = controls();
    let mut u = no_updates();
    u.filter_updates = vec![(1, "B".to_string()), (9, "lost".to_string()), (1, "B2".to_string())];
    u.filters_to_remove = vec![0, 7, 1];
    u.new_filter = Some("d".to_string());
    c.apply_updates(u);
    // "a","B2","c" -> remove 1 -> "a","c" -> remove 7 (ignored) -> remove 0 -> "c"
    assert_eq!(c.sample_filters, vec!["c", "d"]);
}

#[test]
fn grid_updates_are_clamped_to_the_grid_limits() {
    let mut c = controls();
    let mut u = no_updates();
    u.grid_columns = Some(2);
    u.grid_rows = Some(0);
    c.apply_updates(u);
    assert_eq!((c.custom_grid_columns, c.custom_grid_rows), (4, 4));
    let mut u = no_updates();
    u.grid_columns = Some(1000);
    u.grid_rows = Some(-7);
    c.apply_updates(u);
    assert_eq!((c.custom_grid_columns, c.custom_grid_rows), (256, 4));
    assert_eq!(clamp_grid_size(100), 100);
    assert_eq!(clamp_grid_size(i32::MIN), 4);
    assert_eq!(clamp_grid_size(i32::MAX), 256);
}
