use vstd::prelude::*;
use crate::index::extent_as_isize;

verus! {

/// The product of a sequence of extents, folded from the left as
/// `Iterator::product` does.
pub open spec fn spec_product(dims: Seq<usize>) -> int
    decreases dims.len(),
{
    if dims.len() == 0 {
        1
    } else {
        spec_product(dims.drop_last()) * dims.last()
    }
}

/// Every running product met while folding `dims` from the left fits in a
/// `usize`, so the fold never overflows.
pub open spec fn prefix_products_fit(dims: Seq<usize>) -> bool
    decreases dims.len(),
{
    dims.len() == 0 || (prefix_products_fit(dims.drop_last()) && spec_product(dims)
        <= usize::MAX)
}

proof fn lemma_fit_prefix(dims: Seq<usize>, k: int)
    requires
        prefix_products_fit(dims),
        0 <= k <= dims.len(),
    ensures
        prefix_products_fit(dims.take(k)),
    decreases dims.len(),
{
    if k == dims.len() {
        assert(dims.take(k) =~= dims);
    } else {
        assert(dims.drop_last().take(k) =~= dims.take(k));
        lemma_fit_prefix(dims.drop_last(), k);
    }
}

/// Number of elements of a tensor with extents `dims`: the product of the
/// extents. `None` exactly where folding the product overflows a `usize`.
pub fn numel(dims: &[usize]) -> (r: Option<usize>)
    ensures
        r is Some <==> prefix_products_fit(dims@),
        r matches Some(n) ==> n == spec_product(dims@),
{
    let mut acc: usize = 1;
    let mut i: usize = 0;
    assert(dims@.take(0) =~= Seq::<usize>::empty());
    while i < dims.len()
        invariant
            i <= dims.len(),
            acc == spec_product(dims@.take(i as int)),
            prefix_products_fit(dims@.take(i as int)),
        decreases dims.len() - i,
    {
        assert(dims@.take(i + 1).drop_last() =~= dims@.take(i as int));
        match acc.checked_mul(dims[i]) {
            None => {
                proof {
                    if prefix_products_fit(dims@) {
                        lemma_fit_prefix(dims@, i + 1);
                    }
                }
                return None;
            },
            Some(p) => {
                acc = p;
            },
        }
        i = i + 1;
    }
    assert(dims@.take(dims.len() as int) =~= dims@);
    Some(acc)
}

/// Whether a buffer of `len` elements can take every element of a tensor
/// with extents `size`. `None` exactly where counting the elements
/// overflows a `usize`.
pub fn covers_elements(size: &[usize], len: usize) -> (r: Option<bool>)
    ensures
        r is Some <==> prefix_products_fit(size@),
        r matches Some(b) ==> b == (len >= spec_product(size@)),
{
    match numel(size) {
        Some(n) => Some(len >= n),
        None => None,
    }
}

/// An extent read as an `i64`, as an `as` cast reads it.
pub open spec fn extent_as_i64(d: usize) -> i64 {
    #[verifier::truncate]
    (d as i64)
}

/// A stored size read back as a `usize`, as an `as` cast reads it.
pub open spec fn size_as_usize(s: i64) -> usize {
    #[verifier::truncate]
    (s as usize)
}

/// The extents in the `i64` form that the storage layer's size arrays and
/// the serialized form hold, one for one.
pub fn dims_to_long(dims: &[usize]) -> (r: Vec<i64>)
    ensures
        r@.len() == dims@.len(),
        forall|i: int| 0 <= i < dims@.len() ==> #[trigger] r@[i] == extent_as_i64(dims@[i]),
{
    let mut out: Vec<i64> = Vec::new();
    let mut i: usize = 0;
    while i < dims.len()
        invariant
            i <= dims@.len(),
            out@.len() == i,
            forall|j: int| 0 <= j < i ==> #[trigger] out@[j] == extent_as_i64(dims@[j]),
        decreases dims.len() - i,
    {
        out.push(dims[i] as i64);
        i = i + 1;
    }
    out
}

/// Stored `i64` sizes read back as extents, one for one.
pub fn long_to_dims(size: &[i64]) -> (r: Vec<usize>)
    ensures
        r@.len() == size@.len(),
        forall|i: int| 0 <= i < size@.len() ==> #[trigger] r@[i] == size_as_usize(size@[i]),
{
    let mut out: Vec<usize> = Vec::new();
    let mut i: usize = 0;
    while i < size.len()
        invariant
            i <= size@.len(),
            out@.len() == i,
            forall|j: int| 0 <= j < i ==> #[trigger] out@[j] == size_as_usize(size@[j]),
        decreases size.len() - i,
    {
        out.push(size[i] as usize);
        i = i + 1;
    }
    out
}

/// Writing extents in `i64` form and reading them back gives the extents
/// one started from, for every extent that an `i64` can hold.
pub proof fn lemma_extents_round_trip(dims: Seq<usize>, long: Seq<i64>, back: Seq<usize>)
    requires
        forall|i: int| 0 <= i < dims.len() ==> #[trigger] dims[i] <= i64::MAX,
        long.len() == dims.len(),
        forall|i: int| 0 <= i < dims.len() ==> #[trigger] long[i] == extent_as_i64(dims[i]),
        back.len() == long.len(),
        forall|i: int| 0 <= i < long.len() ==> #[trigger] back[i] == size_as_usize(long[i]),
    ensures
        back == dims,
{
    assert forall|i: int| 0 <= i < dims.len() implies back[i] == dims[i] by {
        assert(dims[i] <= i64::MAX);
        assert(long[i] == dims[i]);
    }
    assert(back =~= dims);
}

/// `count` copies of `val`, each read as an `isize`.
pub fn make_vec(val: usize, count: usize) -> (r: Vec<isize>)
    ensures
        r@.len() == count,
        forall|i: int| 0 <= i < count ==> #[trigger] r@[i] == extent_as_isize(val),
{
    let mut vec: Vec<isize> = Vec::new();
    let mut k: usize = 0;
    while k < count
        invariant
            k <= count,
            vec@.len() == k,
            forall|i: int| 0 <= i < k ==> #[trigger] vec@[i] == extent_as_isize(val),
        decreases count - k,
    {
        vec.push(val as isize);
        k = k + 1;
    }
    vec
}

} // verus!
