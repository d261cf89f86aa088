use vstd::prelude::*;

verus! {

/// The bound checks that element access by a multi-index performs: one
/// coordinate per dimension, at least one dimension, and every coordinate
/// below its extent, the extent read as an `isize`.
pub open spec fn index_in_bounds(idx: Seq<isize>, dims: Seq<usize>) -> bool {
    &&& idx.len() == dims.len()
    &&& idx.len() > 0
    &&& forall|i: int| 0 <= i < idx.len() ==> idx[i] < extent_as_isize(dims[i])
}

/// A coordinate read as a `usize`, as an `as` cast reads it (a negative
/// coordinate wraps around).
pub open spec fn coord_as_usize(c: isize) -> usize {
    #[verifier::truncate]
    (c as usize)
}

/// An extent read as an `isize`, as an `as` cast reads it.
pub open spec fn extent_as_isize(d: usize) -> isize {
    #[verifier::truncate]
    (d as isize)
}

/// Sum over the first `k` coordinates of the coordinate (read as a `usize`)
/// times the extent of its own dimension.
pub open spec fn leading_sum(idx: Seq<isize>, dims: Seq<usize>, k: int) -> int
    decreases k,
{
    if k <= 0 {
        0
    } else {
        leading_sum(idx, dims, k - 1) + coord_as_usize(idx[k - 1]) * dims[k - 1]
    }
}

/// The storage position that a multi-index addresses: every coordinate but
/// the last scaled by the extent of its own dimension, plus the last one.
pub open spec fn flat_offset(idx: Seq<isize>, dims: Seq<usize>) -> int {
    leading_sum(idx, dims, idx.len() - 1) + coord_as_usize(idx.last())
}

proof fn lemma_leading_sum_nonnegative(idx: Seq<isize>, dims: Seq<usize>, k: int)
    ensures
        0 <= leading_sum(idx, dims, k),
    decreases k,
{
    if k > 0 {
        lemma_leading_sum_nonnegative(idx, dims, k - 1);
        vstd::arithmetic::mul::lemma_mul_nonnegative(
            coord_as_usize(idx[k - 1]) as int,
            dims[k - 1] as int,
        );
    }
}

proof fn lemma_leading_sum_monotone(idx: Seq<isize>, dims: Seq<usize>, j: int, k: int)
    requires
        0 <= j <= k,
    ensures
        0 <= leading_sum(idx, dims, j) <= leading_sum(idx, dims, k),
    decreases k,
{
    lemma_leading_sum_nonnegative(idx, dims, j);
    if k > j {
        lemma_leading_sum_monotone(idx, dims, j, k - 1);
        vstd::arithmetic::mul::lemma_mul_nonnegative(
            coord_as_usize(idx[k - 1]) as int,
            dims[k - 1] as int,
        );
    }
}

/// Storage position of the element at multi-index `idx` in a tensor with
/// extents `dims`. `None` exactly where the access is refused: a wrong
/// number of coordinates, no coordinate at all, a coordinate at or past its
/// extent, or a position that overflows a `usize`.
pub fn flat_index(idx: &[isize], dims: &[usize]) -> (r: Option<usize>)
    ensures
        r is Some <==> index_in_bounds(idx@, dims@) && flat_offset(idx@, dims@) <= usize::MAX,
        r matches Some(n) ==> n == flat_offset(idx@, dims@),
        (idx@.len() == dims@.len() && idx@.len() > 0 && (forall|i: int|
            0 <= i < idx@.len() ==> 0 <= #[trigger] idx@[i] && (idx@[i] as int) < dims@[i]
                && dims@[i] <= isize::MAX) && flat_offset(idx@, dims@) <= usize::MAX) ==> r is Some,
        r is Some ==> idx@.len() == dims@.len() && idx@.len() > 0 && forall|i: int|
            0 <= i < idx@.len() && dims@[i] <= isize::MAX ==> (#[trigger] idx@[i] as int)
                < dims@[i],
{
    proof {
        lemma_index_acceptance(idx@, dims@);
    }
    if idx.len() != dims.len() || idx.len() == 0 {
        return None;
    }
    let last = idx.len() - 1;
    let mut index: usize = 0;
    let mut i: usize = 0;
    while i < last
        invariant
            idx@.len() == dims@.len(),
            last == idx@.len() - 1,
            i <= last,
            index == leading_sum(idx@, dims@, i as int),
            forall|j: int| 0 <= j < i ==> idx@[j] < extent_as_isize(dims@[j]),
        decreases last - i,
    {
        if idx[i] >= dims[i] as isize {
            return None;
        }
        let coord = idx[i] as usize;
        proof {
            lemma_leading_sum_monotone(idx@, dims@, i + 1, last as int);
            vstd::arithmetic::mul::lemma_mul_nonnegative(coord as int, dims@[i as int] as int);
        }
        match coord.checked_mul(dims[i]) {
            None => {
                return None;
            },
            Some(term) => match index.checked_add(term) {
                None => {
                    return None;
                },
                Some(sum) => {
                    index = sum;
                },
            },
        }
        i = i + 1;
    }
    if idx[last] >= dims[last] as isize {
        return None;
    }
    index.checked_add(idx[last] as usize)
}

/// A multi-index is in bounds when it has one coordinate per dimension
/// (and at least one), each a valid index into its own dimension; and an
/// in-bounds multi-index never has a coordinate at or past the extent of
/// its own dimension (for extents that an `isize` can hold).
pub proof fn lemma_index_acceptance(idx: Seq<isize>, dims: Seq<usize>)
    ensures
        (idx.len() == dims.len() && idx.len() > 0 && forall|i: int|
            0 <= i < idx.len() ==> 0 <= #[trigger] idx[i] && (idx[i] as int) < dims[i] && dims[i]
                <= isize::MAX) ==> index_in_bounds(idx, dims),
        index_in_bounds(idx, dims) ==> idx.len() == dims.len() && idx.len() > 0 && forall|i: int|
            0 <= i < idx.len() && dims[i] <= isize::MAX ==> (#[trigger] idx[i] as int) < dims[i],
{
    assert forall|i: int| 0 <= i < dims.len() && dims[i] <= isize::MAX implies extent_as_isize(
        #[trigger] dims[i],
    ) == dims[i] by {}
}

/// The position of the all-zero multi-index is zero.
pub proof fn lemma_flat_offset_origin(idx: Seq<isize>, dims: Seq<usize>)
    requires
        idx.len() > 0,
        forall|i: int| 0 <= i < idx.len() ==> #[trigger] idx[i] == 0,
    ensures
        flat_offset(idx, dims) == 0,
{
    lemma_leading_sum_zero(idx, dims, idx.len() - 1);
    assert(coord_as_usize(0) == 0);
}

proof fn lemma_leading_sum_zero(idx: Seq<isize>, dims: Seq<usize>, k: int)
    requires
        k <= idx.len(),
        forall|i: int| 0 <= i < idx.len() ==> #[trigger] idx[i] == 0,
    ensures
        leading_sum(idx, dims, k) == 0,
    decreases k,
{
    if k > 0 {
        lemma_leading_sum_zero(idx, dims, k - 1);
        assert(coord_as_usize(idx[k - 1]) == 0);
    }
}

proof fn lemma_leading_sum_step(idx: Seq<isize>, dims: Seq<usize>, j: int, k: int)
    requires
        0 <= j < idx.len(),
        0 <= idx[j] < isize::MAX,
        k <= idx.len(),
    ensures
        leading_sum(idx.update(j, (idx[j] + 1) as isize), dims, k) == leading_sum(idx, dims, k) + (
        if j < k {
            dims[j] as int
        } else {
            0
        }),
    decreases k,
{
    let up = idx.update(j, (idx[j] + 1) as isize);
    if k > 0 {
        lemma_leading_sum_step(idx, dims, j, k - 1);
        if k - 1 == j {
            let c = coord_as_usize(idx[j]) as int;
            let d = dims[j] as int;
            assert(coord_as_usize(up[j]) == c + 1);
            assert((c + 1) * d == c * d + d) by (nonlinear_arith);
        } else {
            assert(up[k - 1] == idx[k - 1]);
        }
    }
}

/// Moving one coordinate of a multi-index up by one moves its position by
/// the extent of that coordinate's own dimension, or by one for the last
/// coordinate. With the all-zero position this fixes every position:
/// each leading coordinate is scaled by its own extent, the last by one.
pub proof fn lemma_flat_offset_step(idx: Seq<isize>, dims: Seq<usize>, j: int)
    requires
        idx.len() > 0,
        0 <= j < idx.len(),
        0 <= idx[j] < isize::MAX,
    ensures
        flat_offset(idx.update(j, (idx[j] + 1) as isize), dims) == flat_offset(idx, dims) + (if j
            == idx.len() - 1 {
            1
        } else {
            dims[j] as int
        }),
{
    let up = idx.update(j, (idx[j] + 1) as isize);
    lemma_leading_sum_step(idx, dims, j, idx.len() - 1);
    if j == idx.len() - 1 {
        assert(up.last() == idx[j] + 1);
        assert(coord_as_usize(up.last()) == coord_as_usize(idx.last()) + 1);
    } else {
        assert(up.last() == idx.last());
    }
}

/// Storage position of element `idx` of a one-dimensional tensor whose
/// extents are `size`. `None` exactly where the access is refused: the
/// tensor does not have exactly one dimension, or `idx` is not below its
/// extent.
pub fn element_index_1d(size: &[usize], idx: usize) -> (r: Option<usize>)
    ensures
        r is Some <==> size@.len() == 1 && idx < size@[0],
        r matches Some(n) ==> n == idx,
{
    if size.len() != 1 {
        return None;
    }
    if size[0] <= idx {
        return None;
    }
    Some(idx)
}

/// On a one-dimensional tensor, access by a one-coordinate multi-index and
/// access by a plain index accept the same indices and reach the same
/// storage position (for index and extent that an `isize` can hold).
pub proof fn lemma_one_dimensional_access_agrees(i: usize, n: usize)
    requires
        i <= isize::MAX,
        n <= isize::MAX,
    ensures
        ({
            let idx = seq![i as isize];
            let dims = seq![n];
            &&& (index_in_bounds(idx, dims) && flat_offset(idx, dims) <= usize::MAX) <==> (
            dims.len() == 1 && i < dims[0])
            &&& flat_offset(idx, dims) == i
        }),
{
    let idx = seq![i as isize];
    let dims = seq![n];
    assert(coord_as_usize(i as isize) == i);
    assert(extent_as_isize(n) == n);
    assert(leading_sum(idx, dims, 0) == 0);
    assert(idx.last() == i as isize);
}

} // verus!
