use torch::element::{cast_values, NumLimits};

#[test]
fn cast_values_keeps_values_in_range() {
    let v: Vec<i64> = vec![0, 5, 255];
    let w: Option<Vec<u8>> = cast_values(&v);
    assert_eq!(w, Some(vec![0u8, 5, 255]));
}

#[test]
fn cast_values_refuses_out_of_range() {
    let v: Vec<i64> = vec![5, 300];
    assert_eq!(cast_values::<i64, u8>(&v), None);
    let n: Vec<i32> = vec![-1];
    assert_eq!(cast_values::<i32, u32>(&n), None);
    let big: Vec<u32> = vec![u32::MAX];
    assert_eq!(cast_values::<u32, i32>(&big), None);
    assert_eq!(cast_values::<u32, i64>(&big), Some(vec![u32::MAX as i64]));
}

#[test]
fn cast_values_round_trip() {
    let v: Vec<u8> = vec![1, 2, 250];
    let wide: Vec<i64> = cast_values(&v).unwrap();
    assert_eq!(wide, vec![1i64, 2, 250]);
    let back: Vec<u8> = cast_values(&wide).unwrap();
    assert_eq!(back, v);
    let s: Vec<i8> = vec![-128, 0, 127];
    let w16: Vec<i16> = cast_values(&s).unwrap();
    assert_eq!(cast_values::<i16, i8>(&w16), Some(s));
}

#[test]
fn from_i64_uses_type_range() {
    assert_eq!(<u16 as NumLimits>::from_i64(65535), Some(65535u16));
    assert_eq!(<u16 as NumLimits>::from_i64(65536), None);
    assert_eq!(<i8 as NumLimits>::from_i64(-129), None);
    assert_eq!(<i8 as NumLimits>::from_i64(-128), Some(-128i8));
    assert_eq!(<i64 as NumLimits>::from_i64(i64::MIN), Some(i64::MIN));
    assert_eq!(<u32 as NumLimits>::to_i64(u32::MAX), 4294967295i64);
}
