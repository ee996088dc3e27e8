use snowlv::layout::{choose_peak_label_position, clamp_label_rect, rects_overlap};

#[test]
fn overlap_needs_shared_area() {
    assert!(rects_overlap((0, 0, 10, 10), (5, 5, 15, 15)));
    assert!(!rects_overlap((0, 0, 10, 10), (10, 0, 20, 10)));
    assert!(!rects_overlap((0, 0, 10, 10), (0, 20, 10, 30)));
}

#[test]
fn clamp_moves_label_inside_bounds() {
    let bounds = (0, 0, 200, 100);
    assert_eq!(clamp_label_rect(50, 40, 30, 10, bounds), (50, 40, (44, 35, 86, 55)));
    assert_eq!(clamp_label_rect(-20, -20, 30, 10, bounds), (6, 5, (0, 0, 42, 20)));
    assert_eq!(clamp_label_rect(500, 500, 30, 10, bounds), (164, 85, (158, 80, 200, 100)));
}

#[test]
fn first_label_goes_right_of_the_peak() {
    let mut used = Vec::new();
    let pos = choose_peak_label_position(100, 50, 30, 10, (0, 0, 400, 200), &mut used);
    assert_eq!(pos, (114, 45));
    assert_eq!(used, vec![(108, 40, 150, 60)]);
}

#[test]
fn second_label_avoids_the_first() {
    let mut used = vec![(108, 40, 150, 60)];
    let pos = choose_peak_label_position(100, 50, 30, 10, (0, 0, 400, 200), &mut used);
    assert_eq!(pos, (56, 45));
    assert_eq!(used.len(), 2);
    assert!(!rects_overlap(used[1], used[0]));
}

#[test]
fn crowded_label_falls_back_to_last_position() {
    let mut used = vec![(0, 0, 400, 200)];
    let pos = choose_peak_label_position(100, 50, 30, 10, (0, 0, 400, 200), &mut used);
    assert_eq!(pos, (85, 164));
    assert_eq!(used.len(), 2);
}

#[test]
fn label_width_past_i32_range_is_read_as_negative() {
    let mut used = Vec::new();
    let pos = choose_peak_label_position(50, 50, u32::MAX, 10, (0, 0, 100, 100), &mut used);
    assert_eq!(pos, (64, 45));
    assert_eq!(used, vec![(58, 40, 69, 60)]);
}

#[test]
fn odd_label_sizes_are_halved_toward_zero() {
    let mut used = vec![(0, 0, 400, 34)];
    let pos = choose_peak_label_position(100, 50, 31, 11, (0, 0, 400, 200), &mut used);
    assert_eq!(pos, (114, 45));
}
