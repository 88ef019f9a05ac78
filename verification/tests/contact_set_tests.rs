use physics_core::contact_set::{distinct_indices, keep_first_points, MAX_MANIFOLD_POINTS};

fn numbered(n: u32) -> Vec<u32> {
    (0..n).collect()
}

#[test]
fn manifold_point_cap_is_four() {
    assert_eq!(MAX_MANIFOLD_POINTS, 4);
}

#[test]
fn keep_first_points_leaves_short_lists() {
    assert_eq!(keep_first_points(numbered(0)), numbered(0));
    assert_eq!(keep_first_points(numbered(3)), numbered(3));
    assert_eq!(keep_first_points(numbered(4)), numbered(4));
}

#[test]
fn keep_first_points_cuts_long_lists() {
    assert_eq!(keep_first_points(numbered(5)), numbered(4));
    assert_eq!(keep_first_points(numbered(17)), numbered(4));
}

#[test]
fn nothing_to_thin() {
    assert_eq!(distinct_indices(0, |_, _| true), Vec::<usize>::new());
    assert_eq!(distinct_indices(1, |_, _| true), vec![0]);
}

#[test]
fn candidates_that_are_all_apart_are_all_kept() {
    assert_eq!(distinct_indices(5, |_, _| false), vec![0, 1, 2, 3, 4]);
}

#[test]
fn candidates_that_all_coincide_leave_the_first() {
    assert_eq!(distinct_indices(5, |_, _| true), vec![0]);
}

#[test]
fn near_duplicates_of_kept_points_are_dropped() {
    let xs: [f32; 7] = [0.0, 0.001, 1.0, 1.002, 0.0005, 2.0, 1.001];
    let kept = distinct_indices(xs.len(), |k, c| (xs[k] - xs[c]).abs() < 0.01);
    assert_eq!(kept, vec![0, 2, 5]);
}

#[test]
fn a_candidate_is_held_against_kept_points_only() {
    // 1 lies near 0 and is dropped; 2 lies near 1 but not near 0, so it stays.
    let xs: [f32; 3] = [0.0, 0.6, 1.2];
    let kept = distinct_indices(xs.len(), |k, c| (xs[k] - xs[c]).abs() < 1.0);
    assert_eq!(kept, vec![0, 2]);
}

#[test]
fn the_test_is_asked_earliest_kept_first_and_stops_at_a_hit() {
    let asked = std::cell::RefCell::new(Vec::new());
    let kept = distinct_indices(4, |k, c| {
        asked.borrow_mut().push((k, c));
        c == 3 && k == 1
    });
    assert_eq!(kept, vec![0, 1, 2]);
    assert_eq!(asked.into_inner(), vec![(0, 1), (0, 2), (1, 2), (0, 3), (1, 3)]);
}
