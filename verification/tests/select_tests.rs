use torch::select::{select_steps, squeeze_dims};

#[test]
fn select_steps_one_per_selector() {
    assert_eq!(select_steps(&[3, 4, 5], &[2, 0]), Some(vec![(0, 2), (1, 0)]));
    assert_eq!(select_steps(&[3, 4, 5], &[]), Some(vec![]));
}

#[test]
fn select_steps_refuses_too_many_selectors() {
    assert_eq!(select_steps(&[3], &[0, 0]), None);
}

#[test]
fn select_steps_refuses_out_of_range() {
    assert_eq!(select_steps(&[3, 4], &[3, 0]), None);
    assert_eq!(select_steps(&[3, 4], &[0, -2]), None);
}

#[test]
fn select_steps_refuses_wildcard() {
    assert_eq!(select_steps(&[3, 4], &[-1]), None);
    assert_eq!(select_steps(&[usize::MAX], &[-1]), None);
}

#[test]
fn squeeze_dims_given_dimension() {
    assert_eq!(squeeze_dims(&[1, 3, 1], Some(2)), vec![2]);
    assert_eq!(squeeze_dims(&[], Some(5)), vec![5]);
}

#[test]
fn squeeze_dims_all_unit_dimensions_last_first() {
    assert_eq!(squeeze_dims(&[1, 3, 1, 1, 4], None), vec![3, 2, 0]);
    assert_eq!(squeeze_dims(&[2, 3], None), Vec::<usize>::new());
    assert_eq!(squeeze_dims(&[], None), Vec::<usize>::new());
}
