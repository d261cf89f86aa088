use torch::index::{element_index_1d, flat_index};

#[test]
fn flat_index_scales_each_coordinate_by_its_extent() {
    // coordinate 0 scaled by extent 2, plus the last coordinate
    assert_eq!(flat_index(&[1, 2], &[2, 3]), Some(4));
    assert_eq!(flat_index(&[2, 1], &[3, 2]), Some(7));
    assert_eq!(flat_index(&[1, 1, 1], &[2, 3, 4]), Some(6));
    assert_eq!(flat_index(&[4], &[5]), Some(4));
}

#[test]
fn flat_index_refuses_wrong_rank() {
    assert_eq!(flat_index(&[1], &[2, 3]), None);
    assert_eq!(flat_index(&[], &[]), None);
}

#[test]
fn flat_index_refuses_out_of_range() {
    assert_eq!(flat_index(&[2, 0], &[2, 3]), None);
    assert_eq!(flat_index(&[0, 3], &[2, 3]), None);
}

#[test]
fn flat_index_refuses_overflow() {
    // a negative coordinate reads as a huge usize
    assert_eq!(flat_index(&[-1, 0], &[2, 3]), None);
    assert_eq!(flat_index(&[1, -1], &[2, 3]), None);
    // without overflow the wrapped coordinate is the position itself
    assert_eq!(flat_index(&[0, -1], &[2, 3]), Some(usize::MAX));
}

#[test]
fn element_index_1d_checks_rank_and_range() {
    assert_eq!(element_index_1d(&[5], 4), Some(4));
    assert_eq!(element_index_1d(&[5], 5), None);
    assert_eq!(element_index_1d(&[5, 2], 0), None);
    assert_eq!(element_index_1d(&[], 0), None);
}

#[test]
fn one_dimensional_accesses_agree() {
    for n in 0..6usize {
        for i in 0..8usize {
            assert_eq!(flat_index(&[i as isize], &[n]), element_index_1d(&[n], i));
        }
    }
}
