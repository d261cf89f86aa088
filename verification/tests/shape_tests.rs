use torch::shape::{covers_elements, dims_to_long, long_to_dims, make_vec, numel};

#[test]
fn numel_multiplies_extents() {
    assert_eq!(numel(&[2, 3, 4]), Some(24));
    assert_eq!(numel(&[]), Some(1));
    assert_eq!(numel(&[5, 0, 7]), Some(0));
}

#[test]
fn numel_overflow_is_refused() {
    assert_eq!(numel(&[usize::MAX, 2]), None);
    // the running product overflows before the zero is reached
    assert_eq!(numel(&[usize::MAX, 2, 0]), None);
    // a zero first keeps every running product at zero
    assert_eq!(numel(&[0, usize::MAX, 2]), Some(0));
}

#[test]
fn covers_elements_compares_with_count() {
    assert_eq!(covers_elements(&[2, 3], 6), Some(true));
    assert_eq!(covers_elements(&[2, 3], 7), Some(true));
    assert_eq!(covers_elements(&[2, 3], 5), Some(false));
    assert_eq!(covers_elements(&[usize::MAX, 3], 5), None);
}

#[test]
fn extents_convert_to_long_and_back() {
    let dims = vec![3usize, 1, 4, 1, 5];
    let long = dims_to_long(&dims);
    assert_eq!(long, vec![3i64, 1, 4, 1, 5]);
    assert_eq!(long_to_dims(&long), dims);
}

#[test]
fn extents_wrap_like_casts() {
    assert_eq!(dims_to_long(&[usize::MAX]), vec![-1i64]);
    assert_eq!(long_to_dims(&[-1i64]), vec![usize::MAX]);
}

#[test]
fn make_vec_repeats_value() {
    assert_eq!(make_vec(7, 3), vec![7isize, 7, 7]);
    assert_eq!(make_vec(7, 0), Vec::<isize>::new());
    assert_eq!(make_vec(usize::MAX, 2), vec![-1isize, -1]);
}
