use torch::data::{set_storage_values, tensor_kind_eq, RustTensor, THVec, TensorType};

#[test]
fn tensor_kind_eq_needs_type_and_id() {
    assert!(tensor_kind_eq(&TensorType::Float, 3, &TensorType::Float, 3));
    assert!(tensor_kind_eq(&TensorType::Long, 3, &TensorType::Long, 3));
    assert!(tensor_kind_eq(&TensorType::Byte, 0, &TensorType::Byte, 0));
    assert!(!tensor_kind_eq(&TensorType::Float, 3, &TensorType::Float, 4));
    assert!(!tensor_kind_eq(&TensorType::Float, 3, &TensorType::Long, 3));
    assert!(!tensor_kind_eq(&TensorType::Double, 3, &TensorType::Double, 3));
}

#[test]
fn rust_tensor_parts() {
    let rt = RustTensor::from_parts(vec![2, 3], Some(vec![3, 1]), vec![1u8, 2, 3, 4, 5, 6]);
    assert_eq!(rt.size(), &[2i64, 3][..]);
    assert_eq!(rt.storage(), &[1u8, 2, 3, 4, 5, 6][..]);
    assert_eq!(rt.dims(), vec![2usize, 3]);
    let (size, stride, storage) = rt.into_parts();
    assert_eq!(size, vec![2, 3]);
    assert_eq!(stride, vec![3, 1]);
    assert_eq!(storage, vec![1, 2, 3, 4, 5, 6]);
}

#[test]
fn rust_tensor_without_strides() {
    let rt = RustTensor::from_parts(vec![4], None, vec![7i64, 8, 9, 10]);
    let (_, stride, _) = rt.into_parts();
    assert!(stride.is_empty());
}

#[test]
fn thvec_build_parts() {
    let v = THVec { data: vec![1u8, 2], dims: vec![2] };
    assert!(!v.is_shapeless());
    assert_eq!(v.into_build_parts(), (vec![2], Some(vec![1u8, 2])));
    let e: THVec<u8> = THVec { data: vec![], dims: vec![] };
    assert!(e.is_shapeless());
    assert_eq!(e.into_build_parts(), (vec![], None));
}

#[test]
fn set_storage_values_copies() {
    let mut s = vec![0i64; 3];
    set_storage_values(&mut s, 0, &[4, 5, 6]);
    assert_eq!(s, vec![4, 5, 6]);
    let mut empty: Vec<i64> = vec![];
    set_storage_values(&mut empty, 9, &[]);
    assert!(empty.is_empty());
}
