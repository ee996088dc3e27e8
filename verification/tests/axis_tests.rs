use snowlv::axis::{
    apply_sort_order, commit_pending_histogram_label_edits, fit_axis_centers, write_axis_values, AxisCommit,
    AxisLabelEdits, SortOrder,
};

#[test]
fn sort_order_keeps_increasing_indices() {
    assert_eq!(apply_sort_order(0, 4, SortOrder::Increasing), 0);
    assert_eq!(apply_sort_order(3, 4, SortOrder::Increasing), 3);
}

#[test]
fn sort_order_mirrors_decreasing_indices() {
    assert_eq!(apply_sort_order(0, 4, SortOrder::Decreasing), 3);
    assert_eq!(apply_sort_order(3, 4, SortOrder::Decreasing), 0);
    assert_eq!(apply_sort_order(1, 4, SortOrder::Decreasing), 2);
}

#[test]
fn sort_order_saturates_past_the_axis() {
    assert_eq!(apply_sort_order(5, 4, SortOrder::Decreasing), 0);
    assert_eq!(apply_sort_order(0, 0, SortOrder::Decreasing), 0);
}

#[test]
fn sort_order_twice_is_identity() {
    for size in 1..8usize {
        for i in 0..size {
            let once = apply_sort_order(i, size, SortOrder::Decreasing);
            assert!(once < size);
            assert_eq!(apply_sort_order(once, size, SortOrder::Decreasing), i);
        }
    }
}

#[test]
fn commit_reports_edited_axes_and_closes_them() {
    let mut edits = AxisLabelEdits {
        editing_x_axis_label: Some(1),
        editing_y_axis_label: Some(0),
        x_sort_order: SortOrder::Increasing,
        y_sort_order: SortOrder::Decreasing,
    };
    let commits = commit_pending_histogram_label_edits(&mut edits, 8, 5);
    assert_eq!(commits.x, Some(AxisCommit { start_index: 1, axis_len: 8 }));
    assert_eq!(commits.y, Some(AxisCommit { start_index: 4, axis_len: 5 }));
    assert_eq!(edits.editing_x_axis_label, None);
    assert_eq!(edits.editing_y_axis_label, None);
    let again = commit_pending_histogram_label_edits(&mut edits, 8, 5);
    assert_eq!(again.x, None);
    assert_eq!(again.y, None);
}

#[test]
fn commit_without_edits_reports_nothing() {
    let mut edits = AxisLabelEdits {
        editing_x_axis_label: None,
        editing_y_axis_label: Some(2),
        x_sort_order: SortOrder::Decreasing,
        y_sort_order: SortOrder::Increasing,
    };
    let commits = commit_pending_histogram_label_edits(&mut edits, 3, 6);
    assert_eq!(commits.x, None);
    assert_eq!(commits.y, Some(AxisCommit { start_index: 2, axis_len: 6 }));
}

#[test]
fn centers_are_fitted_to_the_axis() {
    let defaults = vec![10, 20, 30, 40];
    assert_eq!(fit_axis_centers(None, defaults.clone(), 4), vec![10, 20, 30, 40]);
    assert_eq!(fit_axis_centers(Some(vec![1, 2]), defaults.clone(), 4), vec![1, 2, 30, 40]);
    assert_eq!(fit_axis_centers(Some(vec![1, 2, 3, 4, 5]), defaults.clone(), 4), vec![1, 2, 3, 4]);
    assert_eq!(fit_axis_centers(Some(vec![1, 2]), vec![10, 20, 30], 4), vec![10, 20, 30]);
}

#[test]
fn label_values_are_written_from_the_edited_bin() {
    let mut centers = vec![1, 2, 3, 4];
    write_axis_values(&mut centers, vec![7, 8, 9], 2);
    assert_eq!(centers, vec![1, 2, 7, 8]);
    let mut centers = vec![1, 2, 3];
    write_axis_values(&mut centers, vec![5], 0);
    assert_eq!(centers, vec![5, 2, 3]);
    write_axis_values(&mut centers, vec![6, 6], usize::MAX);
    assert_eq!(centers, vec![5, 2, 3]);
}
