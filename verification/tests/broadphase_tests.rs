use physics_core::broadphase::enumerate_pairs;

#[test]
fn no_pairs_in_small_scenes() {
    assert_eq!(enumerate_pairs(0, |_, _| true), vec![]);
    assert_eq!(enumerate_pairs(1, |_, _| true), vec![]);
}

#[test]
fn all_pairs_in_row_major_order() {
    assert_eq!(
        enumerate_pairs(4, |_, _| true),
        vec![(0, 1), (0, 2), (0, 3), (1, 2), (1, 3), (2, 3)]
    );
}

#[test]
fn rejected_pairs_are_left_out() {
    assert_eq!(enumerate_pairs(5, |_, _| false), vec![]);
    assert_eq!(
        enumerate_pairs(5, |i, j| (i + j) % 2 == 1),
        vec![(0, 1), (0, 3), (1, 2), (1, 4), (2, 3), (3, 4)]
    );
}

#[test]
fn the_test_sees_each_pair_once_with_the_smaller_index_first() {
    let seen = std::cell::RefCell::new(Vec::new());
    let pairs = enumerate_pairs(4, |i, j| {
        seen.borrow_mut().push((i, j));
        j == 3
    });
    assert_eq!(pairs, vec![(0, 3), (1, 3), (2, 3)]);
    assert_eq!(
        seen.into_inner(),
        vec![(0, 1), (0, 2), (0, 3), (1, 2), (1, 3), (2, 3)]
    );
}

#[test]
fn pairs_of_overlapping_spheres_with_a_mobile_end() {
    let centers: [f32; 4] = [0.0, 1.5, 10.0, 10.5];
    let radius: f32 = 1.0;
    let mobile: [bool; 4] = [false, true, false, false];
    let pairs = enumerate_pairs(centers.len(), |i, j| {
        (mobile[i] || mobile[j]) && (centers[j] - centers[i]).abs() <= 2.0 * radius
    });
    assert_eq!(pairs, vec![(0, 1)]);
}

#[test]
fn pair_count_of_a_full_scene() {
    let n: usize = 40;
    assert_eq!(enumerate_pairs(n, |_, _| true).len(), n * (n - 1) / 2);
}
