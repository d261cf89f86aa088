use vstd::prelude::*;

verus! {

/// Element types that a tensor can hold (the integer ones; the
/// floating-point element types stay outside this library). Each has a
/// mathematical value, a range of values, and conversions through `i64`.
pub trait NumLimits: Copy + Sized {
    /// The mathematical value of an element.
    spec fn int_value(self) -> int;

    /// The smallest value the type holds.
    spec fn lowest() -> int;

    /// The largest value the type holds.
    spec fn highest() -> int;

    /// Every element lies in the type's range, and the range lies in `i64`'s.
    proof fn lemma_value_in_range(x: Self)
        ensures
            Self::lowest() <= x.int_value() <= Self::highest(),
            i64::MIN <= Self::lowest() <= Self::highest() <= i64::MAX,
    ;

    /// Two elements with one value are one element.
    proof fn lemma_value_injective(x: Self, y: Self)
        ensures
            x.int_value() == y.int_value() ==> x == y,
    ;

    /// The element as an `i64`; no value is lost.
    fn to_i64(self) -> (r: i64)
        ensures
            r as int == self.int_value(),
    ;

    /// The element of value `x`, by `num`'s checked conversion: `None`
    /// exactly where `x` lies outside the type's range.
    fn from_i64(x: i64) -> (r: Option<Self>)
        ensures
            r is Some <==> Self::lowest() <= x <= Self::highest(),
            r matches Some(v) ==> v.int_value() == x,
    ;
}

/// Calls `<i8 as num::NumCast>::from` on an `i64`. For integer sources num
/// converts through `ToPrimitive::to_i8`, which gives `Some` of the same
/// value exactly when the value lies in `i8`'s range, and `None` otherwise.
#[verifier::external_body]
fn num_cast_to_i8(x: i64) -> (r: Option<i8>)
    ensures
        r == (if i8::MIN <= x <= i8::MAX { Some(x as i8) } else { None }),
{
    <i8 as num::NumCast>::from(x)
}

impl NumLimits for i8 {
    open spec fn int_value(self) -> int {
        self as int
    }

    open spec fn lowest() -> int {
        i8::MIN as int
    }

    open spec fn highest() -> int {
        i8::MAX as int
    }

    proof fn lemma_value_in_range(x: Self) {
    }

    proof fn lemma_value_injective(x: Self, y: Self) {
    }

    fn to_i64(self) -> (r: i64) {
        self as i64
    }

    fn from_i64(x: i64) -> (r: Option<Self>) {
        num_cast_to_i8(x)
    }
}

/// Calls `<u8 as num::NumCast>::from` on an `i64`. For integer sources num
/// converts through `ToPrimitive::to_u8`, which gives `Some` of the same
/// value exactly when the value lies in `u8`'s range, and `None` otherwise.
#[verifier::external_body]
fn num_cast_to_u8(x: i64) -> (r: Option<u8>)
    ensures
        r == (if 0 <= x <= u8::MAX { Some(x as u8) } else { None }),
{
    <u8 as num::NumCast>::from(x)
}

impl NumLimits for u8 {
    open spec fn int_value(self) -> int {
        self as int
    }

    open spec fn lowest() -> int {
        0 as int
    }

    open spec fn highest() -> int {
        u8::MAX as int
    }

    proof fn lemma_value_in_range(x: Self) {
    }

    proof fn lemma_value_injective(x: Self, y: Self) {
    }

    fn to_i64(self) -> (r: i64) {
        self as i64
    }

    fn from_i64(x: i64) -> (r: Option<Self>) {
        num_cast_to_u8(x)
    }
}

/// Calls `<i16 as num::NumCast>::from` on an `i64`. For integer sources num
/// converts through `ToPrimitive::to_i16`, which gives `Some` of the same
/// value exactly when the value lies in `i16`'s range, and `None` otherwise.
#[verifier::external_body]
fn num_cast_to_i16(x: i64) -> (r: Option<i16>)
    ensures
        r == (if i16::MIN <= x <= i16::MAX { Some(x as i16) } else { None }),
{
    <i16 as num::NumCast>::from(x)
}

impl NumLimits for i16 {
    open spec fn int_value(self) -> int {
        self as int
    }

    open spec fn lowest() -> int {
        i16::MIN as int
    }

    open spec fn highest() -> int {
        i16::MAX as int
    }

    proof fn lemma_value_in_range(x: Self) {
    }

    proof fn lemma_value_injective(x: Self, y: Self) {
    }

    fn to_i64(self) -> (r: i64) {
        self as i64
    }

    fn from_i64(x: i64) -> (r: Option<Self>) {
        num_cast_to_i16(x)
    }
}

/// Calls `<u16 as num::NumCast>::from` on an `i64`. For integer sources num
/// converts through `ToPrimitive::to_u16`, which gives `Some` of the same
/// value exactly when the value lies in `u16`'s range, and `None` otherwise.
#[verifier::external_body]
fn num_cast_to_u16(x: i64) -> (r: Option<u16>)
    ensures
        r == (if 0 <= x <= u16::MAX { Some(x as u16) } else { None }),
{
    <u16 as num::NumCast>::from(x)
}

impl NumLimits for u16 {
    open spec fn int_value(self) -> int {
        self as int
    }

    open spec fn lowest() -> int {
        0 as int
    }

    open spec fn highest() -> int {
        u16::MAX as int
    }

    proof fn lemma_value_in_range(x: Self) {
    }

    proof fn lemma_value_injective(x: Self, y: Self) {
    }

    fn to_i64(self) -> (r: i64) {
        self as i64
    }

    fn from_i64(x: i64) -> (r: Option<Self>) {
        num_cast_to_u16(x)
    }
}

/// Calls `<i32 as num::NumCast>::from` on an `i64`. For integer sources num
/// converts through `ToPrimitive::to_i32`, which gives `Some` of the same
/// value exactly when the value lies in `i32`'s range, and `None` otherwise.
#[verifier::external_body]
fn num_cast_to_i32(x: i64) -> (r: Option<i32>)
    ensures
        r == (if i32::MIN <= x <= i32::MAX { Some(x as i32) } else { None }),
{
    <i32 as num::NumCast>::from(x)
}

impl NumLimits for i32 {
    open spec fn int_value(self) -> int {
        self as int
    }

    open spec fn lowest() -> int {
        i32::MIN as int
    }

    open spec fn highest() -> int {
        i32::MAX as int
    }

    proof fn lemma_value_in_range(x: Self) {
    }

    proof fn lemma_value_injective(x: Self, y: Self) {
    }

    fn to_i64(self) -> (r: i64) {
        self as i64
    }

    fn from_i64(x: i64) -> (r: Option<Self>) {
        num_cast_to_i32(x)
    }
}

/// Calls `<u32 as num::NumCast>::from` on an `i64`. For integer sources num
/// converts through `ToPrimitive::to_u32`, which gives `Some` of the same
/// value exactly when the value lies in `u32`'s range, and `None` otherwise.
#[verifier::external_body]
fn num_cast_to_u32(x: i64) -> (r: Option<u32>)
    ensures
        r == (if 0 <= x <= u32::MAX { Some(x as u32) } else { None }),
{
    <u32 as num::NumCast>::from(x)
}

impl NumLimits for u32 {
    open spec fn int_value(self) -> int {
        self as int
    }

    open spec fn lowest() -> int {
        0 as int
    }

    open spec fn highest() -> int {
        u32::MAX as int
    }

    proof fn lemma_value_in_range(x: Self) {
    }

    proof fn lemma_value_injective(x: Self, y: Self) {
    }

    fn to_i64(self) -> (r: i64) {
        self as i64
    }

    fn from_i64(x: i64) -> (r: Option<Self>) {
        num_cast_to_u32(x)
    }
}

/// Calls `<i64 as num::NumCast>::from` on an `i64`. For integer sources num
/// converts through `ToPrimitive::to_i64`, which gives `Some` of the same
/// value exactly when the value lies in `i64`'s range, and `None` otherwise.
#[verifier::external_body]
fn num_cast_to_i64(x: i64) -> (r: Option<i64>)
    ensures
        r == (if i64::MIN <= x <= i64::MAX { Some(x as i64) } else { None }),
{
    <i64 as num::NumCast>::from(x)
}

impl NumLimits for i64 {
    open spec fn int_value(self) -> int {
        self as int
    }

    open spec fn lowest() -> int {
        i64::MIN as int
    }

    open spec fn highest() -> int {
        i64::MAX as int
    }

    proof fn lemma_value_in_range(x: Self) {
    }

    proof fn lemma_value_injective(x: Self, y: Self) {
    }

    fn to_i64(self) -> (r: i64) {
        self as i64
    }

    fn from_i64(x: i64) -> (r: Option<Self>) {
        num_cast_to_i64(x)
    }
}

/// Every element of `v` has a value that `D` can hold.
pub open spec fn all_representable<S: NumLimits, D: NumLimits>(v: Seq<S>) -> bool {
    forall|i: int| 0 <= i < v.len() ==> D::lowest() <= #[trigger] v[i].int_value() <= D::highest()
}

/// `w` holds the values of `v`, element by element.
pub open spec fn same_values<S: NumLimits, D: NumLimits>(v: Seq<S>, w: Seq<D>) -> bool {
    &&& w.len() == v.len()
    &&& forall|i: int| 0 <= i < v.len() ==> #[trigger] w[i].int_value() == v[i].int_value()
}

/// Converts every element of `v` to the element type `D` by `num`'s checked
/// conversion, keeping the order. `None` exactly where some element lies
/// outside `D`'s range (where an unwrapping conversion would stop).
pub fn cast_values<S: NumLimits, D: NumLimits>(v: &[S]) -> (r: Option<Vec<D>>)
    ensures
        r is Some <==> all_representable::<S, D>(v@),
        r matches Some(w) ==> same_values(v@, w@),
{
    let mut out: Vec<D> = Vec::new();
    let mut i: usize = 0;
    while i < v.len()
        invariant
            i <= v@.len(),
            out@.len() == i,
            forall|j: int| 0 <= j < i ==> D::lowest() <= #[trigger] v@[j].int_value() <= D::highest(),
            forall|j: int| 0 <= j < i ==> #[trigger] out@[j].int_value() == v@[j].int_value(),
        decreases v.len() - i,
    {
        let x = v[i].to_i64();
        match D::from_i64(x) {
            None => {
                assert(!(D::lowest() <= v@[i as int].int_value() <= D::highest()));
                return None;
            },
            Some(d) => {
                out.push(d);
            },
        }
        i = i + 1;
    }
    Some(out)
}

/// Converting elements and converting the result back gives the elements
/// one started from: a conversion that succeeds loses nothing.
pub proof fn lemma_cast_round_trip<S: NumLimits, D: NumLimits>(v: Seq<S>, w: Seq<D>, u: Seq<S>)
    requires
        same_values(v, w),
        same_values(w, u),
    ensures
        all_representable::<D, S>(w),
        u == v,
{
    assert forall|i: int| 0 <= i < w.len() implies S::lowest() <= #[trigger] w[i].int_value()
        <= S::highest() by {
        S::lemma_value_in_range(v[i]);
    }
    assert forall|i: int| 0 <= i < v.len() implies u[i] == v[i] by {
        assert(u[i].int_value() == w[i].int_value());
        S::lemma_value_injective(u[i], v[i]);
    }
    assert(u =~= v);
}

} // verus!
