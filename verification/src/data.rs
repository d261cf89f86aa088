use vstd::prelude::*;
use crate::shape::{long_to_dims, size_as_usize};

verus! {

/// The element types of the storage layer.
pub enum TensorType {
    Float,
    Double,
    Byte,
    Char,
    Short,
    Int,
    Long,
}

/// The element types that a tagged tensor can carry.
pub open spec fn is_kind_type(t: TensorType) -> bool {
    t is Float || t is Long || t is Byte
}

/// Two tagged tensors are one: both carry the same element type, one of
/// the three that a tagged tensor can carry, and the same tensor id.
pub open spec fn same_kind_tensor(a: TensorType, a_id: usize, b: TensorType, b_id: usize) -> bool {
    is_kind_type(a) && a == b && a_id == b_id
}

/// Identity of two tagged tensors: both carry the same element type, one of
/// the three that a tagged tensor can carry, and the same tensor id.
pub fn tensor_kind_eq(a: &TensorType, a_id: usize, b: &TensorType, b_id: usize) -> (r: bool)
    ensures
        r == same_kind_tensor(*a, a_id, *b, b_id),
        r ==> a_id == b_id,
        r ==> *a == *b,
        (*a == *b && a_id == b_id && (*a is Float || *a is Long || *a is Byte)) ==> r,
{
    match (a, b) {
        (TensorType::Float, TensorType::Float) => a_id == b_id,
        (TensorType::Long, TensorType::Long) => a_id == b_id,
        (TensorType::Byte, TensorType::Byte) => a_id == b_id,
        _ => false,
    }
}

/// Two tagged tensors are equal exactly when they carry the same element
/// type (float, long or byte) and the same tensor id: tensors with
/// different ids never compare equal, whatever their element type.
pub proof fn lemma_kind_eq_means_same_id(a: TensorType, a_id: usize, b: TensorType, b_id: usize)
    ensures
        same_kind_tensor(a, a_id, b, b_id) <==> (a == b && a_id == b_id && (a is Float || a is Long
            || a is Byte)),
        a_id != b_id ==> !same_kind_tensor(a, a_id, b, b_id),
{
}

/// The identity of tagged tensors is an equivalence: reflexive on every
/// tagged tensor, symmetric and transitive, as `Eq` asks.
pub proof fn lemma_kind_eq_equivalence(
    a: TensorType,
    a_id: usize,
    b: TensorType,
    b_id: usize,
    c: TensorType,
    c_id: usize,
)
    ensures
        is_kind_type(a) ==> same_kind_tensor(a, a_id, a, a_id),
        same_kind_tensor(a, a_id, b, b_id) ==> same_kind_tensor(b, b_id, a, a_id),
        same_kind_tensor(a, a_id, b, b_id) && same_kind_tensor(b, b_id, c, c_id)
            ==> same_kind_tensor(a, a_id, c, c_id),
{
}

/// Data and extents from which a tensor is built.
#[derive(Clone, Debug)]
pub struct THVec<T> {
    pub data: Vec<T>,
    pub dims: Vec<usize>,
}

impl<T> THVec<T> {
    /// Whether no extents are given, in which case a tensor built from these
    /// arguments is a fresh empty one.
    pub fn is_shapeless(&self) -> (r: bool)
        ensures
            r == (self.dims@.len() == 0),
    {
        self.dims.len() == 0
    }

    /// The extents of the tensor to build, and the data to store in it:
    /// none where no data is given, so that the storage is left as made.
    pub fn into_build_parts(self) -> (r: (Vec<usize>, Option<Vec<T>>))
        ensures
            r.0@ == self.dims@,
            r.1 is Some <==> self.data@.len() != 0,
            r.1 matches Some(d) ==> d@ == self.data@,
    {
        let THVec { data, dims } = self;
        if data.len() != 0 {
            (dims, Some(data))
        } else {
            (dims, None)
        }
    }
}

/// Data (as `i64`) and extents from which a tensor of any element type is
/// built.
#[derive(Clone, Debug)]
pub struct THVecGeneric {
    pub data: Vec<i64>,
    pub dims: Vec<usize>,
}

/// Extents alone.
#[derive(Clone, Debug)]
pub struct THDims {
    pub dims: Vec<usize>,
}

/// A tensor as plain values: its sizes, its strides (empty where the
/// storage layer kept none) and its whole storage.
pub struct RustTensor<T> {
    size: Vec<i64>,
    stride: Vec<i64>,
    storage: Vec<T>,
}

impl<T> RustTensor<T> {
    /// The sizes, one per dimension.
    pub closed spec fn size_view(&self) -> Seq<i64> {
        self.size@
    }

    /// The strides, one per dimension, or none.
    pub closed spec fn stride_view(&self) -> Seq<i64> {
        self.stride@
    }

    /// The storage contents.
    pub closed spec fn storage_view(&self) -> Seq<T> {
        self.storage@
    }

    /// A snapshot from its parts: the strides where the storage layer keeps
    /// them, else none.
    pub fn from_parts(size: Vec<i64>, stride: Option<Vec<i64>>, storage: Vec<T>) -> (r: Self)
        ensures
            r.size_view() == size@,
            r.stride_view() == (match stride {
                Some(s) => s@,
                None => Seq::empty(),
            }),
            r.storage_view() == storage@,
    {
        let stride = match stride {
            Some(s) => s,
            None => Vec::new(),
        };
        RustTensor { size, stride, storage }
    }

    /// The snapshot taken apart into sizes, strides and storage.
    pub fn into_parts(self) -> (r: (Vec<i64>, Vec<i64>, Vec<T>))
        ensures
            r.0@ == self.size_view(),
            r.1@ == self.stride_view(),
            r.2@ == self.storage_view(),
    {
        (self.size, self.stride, self.storage)
    }

    /// The sizes.
    pub fn size(&self) -> (r: &[i64])
        ensures
            r@ == self.size_view(),
    {
        self.size.as_slice()
    }

    /// The storage contents.
    pub fn storage(&self) -> (r: &[T])
        ensures
            r@ == self.storage_view(),
    {
        self.storage.as_slice()
    }

    /// The sizes read back as extents, to which a tensor is resized when it
    /// is filled from this snapshot.
    pub fn dims(&self) -> (r: Vec<usize>)
        ensures
            r@.len() == self.size_view().len(),
            forall|i: int|
                0 <= i < r@.len() ==> #[trigger] r@[i] == size_as_usize(self.size_view()[i]),
    {
        long_to_dims(self.size.as_slice())
    }
}

/// Copies `v` into the storage `storage`, element `i` to position
/// `offset + i`, for every position of the storage. `v` must be as long as
/// the storage, and every position written must lie in it (so the offset
/// is zero unless the storage is empty).
pub fn set_storage_values<T: Copy>(storage: &mut Vec<T>, offset: usize, v: &[T])
    requires
        v@.len() == old(storage)@.len(),
        offset == 0 || old(storage)@.len() == 0,
    ensures
        final(storage)@ == v@,
{
    let n = storage.len();
    let mut i: usize = 0;
    while i < n
        invariant
            n == storage@.len(),
            n == v@.len(),
            offset == 0 || n == 0,
            i <= n,
            forall|j: int| 0 <= j < i ==> #[trigger] storage@[j] == v@[j],
        decreases n - i,
    {
        storage.set(offset + i, v[i]);
        i = i + 1;
    }
    assert(storage@ =~= v@);
}

} // verus!
