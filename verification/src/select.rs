use vstd::prelude::*;
use crate::index::coord_as_usize;

verus! {

/// A dimension position read as an `i32`, as an `as` cast reads it.
pub open spec fn position_as_i32(i: int) -> i32 {
    #[verifier::truncate]
    (i as i32)
}

/// The checks that slicing performs before it selects: no more selectors
/// than dimensions, and every selector, read as a `usize`, below the extent
/// of its dimension and not below -1.
pub open spec fn select_in_range(sizes: Seq<usize>, dims: Seq<isize>) -> bool {
    &&& dims.len() <= sizes.len()
    &&& forall|i: int|
        0 <= i < dims.len() ==> coord_as_usize(#[trigger] dims[i]) < sizes[i] && dims[i] >= -1
}

/// The selections that slicing by the first `k` selectors performs, in
/// order: for each selector that is not -1, its position (as an `i32`) and
/// the selected index (as an `i64`).
pub open spec fn select_plan(dims: Seq<isize>, k: int) -> Seq<(i32, i64)>
    decreases k,
{
    if k <= 0 {
        Seq::empty()
    } else if dims[k - 1] == -1 {
        select_plan(dims, k - 1)
    } else {
        select_plan(dims, k - 1).push((position_as_i32(k - 1), dims[k - 1] as i64))
    }
}

/// The selections that slicing a tensor with extents `sizes` by the
/// selectors `dims` performs, one `(dimension, index)` pair per call of
/// the storage layer's select, in order. `None` exactly where slicing
/// refuses the selectors.
pub fn select_steps(sizes: &[usize], dims: &[isize]) -> (r: Option<Vec<(i32, i64)>>)
    ensures
        r is Some <==> select_in_range(sizes@, dims@),
        r matches Some(steps) ==> steps@ == select_plan(dims@, dims@.len() as int),
        r is Some <==> (dims@.len() <= sizes@.len() && forall|i: int|
            0 <= i < dims@.len() ==> 0 <= #[trigger] dims@[i] && (dims@[i] as int) < sizes@[i]),
        r matches Some(steps) ==> steps@.len() == dims@.len() && forall|i: int|
            0 <= i < dims@.len() ==> (#[trigger] steps@[i]).0 == position_as_i32(i) && steps@[i].1
                == dims@[i] as i64,
{
    proof {
        lemma_select_acceptance(sizes@, dims@);
        if select_in_range(sizes@, dims@) {
            lemma_select_never_skips(sizes@, dims@);
        }
    }
    if sizes.len() < dims.len() {
        return None;
    }
    let mut i: usize = 0;
    while i < dims.len()
        invariant
            dims@.len() <= sizes@.len(),
            i <= dims@.len(),
            forall|j: int|
                0 <= j < i ==> coord_as_usize(#[trigger] dims@[j]) < sizes@[j] && dims@[j] >= -1,
        decreases dims.len() - i,
    {
        if dims[i] as usize >= sizes[i] || dims[i] < -1 {
            proof {
                let _ = dims@[i as int];
            }
            return None;
        }
        i = i + 1;
    }
    let mut steps: Vec<(i32, i64)> = Vec::new();
    let mut k: usize = 0;
    while k < dims.len()
        invariant
            k <= dims@.len(),
            steps@ == select_plan(dims@, k as int),
        decreases dims.len() - k,
    {
        if dims[k] != -1 {
            steps.push((k as i32, dims[k] as i64));
        }
        k = k + 1;
    }
    Some(steps)
}

/// A selector of -1 is never accepted: read as a `usize` it is the largest
/// value, which no extent exceeds. Hence every accepted selector is a real
/// index, and slicing performs exactly one selection per selector.
pub proof fn lemma_select_never_skips(sizes: Seq<usize>, dims: Seq<isize>)
    requires
        select_in_range(sizes, dims),
    ensures
        forall|i: int| 0 <= i < dims.len() ==> dims[i] >= 0,
        select_plan(dims, dims.len() as int).len() == dims.len(),
        forall|i: int|
            0 <= i < dims.len() ==> #[trigger] select_plan(dims, dims.len() as int)[i] == (
            position_as_i32(i), dims[i] as i64),
{
    assert forall|i: int| 0 <= i < dims.len() implies dims[i] >= 0 by {
        let c = dims[i];
        if c == -1 {
            let extent: usize = sizes[i];
            assert(extent <= (-1isize) as usize) by (bit_vector);
            assert(coord_as_usize(dims[i]) < sizes[i]);
        }
    }
    lemma_plan_maps(dims, dims.len() as int);
}

/// Slicing accepts its selectors exactly when there are no more of them
/// than dimensions and each one is an index into its own dimension: at
/// least zero and below that dimension's extent.
pub proof fn lemma_select_acceptance(sizes: Seq<usize>, dims: Seq<isize>)
    ensures
        select_in_range(sizes, dims) <==> (dims.len() <= sizes.len() && forall|i: int|
            0 <= i < dims.len() ==> 0 <= #[trigger] dims[i] && (dims[i] as int) < sizes[i]),
{
    if select_in_range(sizes, dims) {
        lemma_select_never_skips(sizes, dims);
        assert forall|i: int| 0 <= i < dims.len() implies 0 <= #[trigger] dims[i] && (dims[i] as int)
            < sizes[i] by {
            assert(coord_as_usize(dims[i]) < sizes[i]);
        }
    }
    if dims.len() <= sizes.len() && forall|i: int|
        0 <= i < dims.len() ==> 0 <= #[trigger] dims[i] && (dims[i] as int) < sizes[i] {
        assert forall|i: int| 0 <= i < dims.len() implies coord_as_usize(#[trigger] dims[i])
            < sizes[i] && dims[i] >= -1 by {
            assert(0 <= dims[i]);
        }
    }
}

proof fn lemma_plan_maps(dims: Seq<isize>, k: int)
    requires
        0 <= k <= dims.len(),
        forall|i: int| 0 <= i < dims.len() ==> dims[i] >= 0,
    ensures
        select_plan(dims, k).len() == k,
        forall|i: int|
            0 <= i < k ==> #[trigger] select_plan(dims, k)[i] == (position_as_i32(i), dims[i] as i64),
    decreases k,
{
    if k > 0 {
        lemma_plan_maps(dims, k - 1);
    }
}

/// Whether a reduction over dimension `dim` (read as an `i32`) names one
/// of the `ndim` dimensions of the tensor reduced.
pub fn reduce_dim_in_range(dim: usize, ndim: i32) -> (r: bool)
    ensures
        r == (position_as_i32(dim as int) < ndim),
{
    (dim as i32) < ndim
}

/// The dimensions that squeezing removes, in the order in which it removes
/// them: the one given, or else every dimension of extent one, from the
/// last to the first.
pub open spec fn squeeze_plan(sizes: Seq<usize>, dim: Option<usize>) -> Seq<usize> {
    match dim {
        Some(t) => seq![t],
        None => unit_dims(sizes, sizes.len() as int).reverse(),
    }
}

/// The positions among the first `k` extents that equal one, ascending.
pub open spec fn unit_dims(sizes: Seq<usize>, k: int) -> Seq<usize>
    decreases k,
{
    if k <= 0 {
        Seq::empty()
    } else if sizes[k - 1] == 1 {
        unit_dims(sizes, k - 1).push((k - 1) as usize)
    } else {
        unit_dims(sizes, k - 1)
    }
}

/// The dimensions, in order, that squeezing a tensor with extents `sizes`
/// hands to the storage layer's squeeze: `dim` alone where one is given,
/// else every dimension of extent one, last first.
pub fn squeeze_dims(sizes: &[usize], dim: Option<usize>) -> (r: Vec<usize>)
    ensures
        r@ == squeeze_plan(sizes@, dim),
        dim matches Some(t) ==> r@ == seq![t],
        dim is None ==> forall|a: int, b: int| 0 <= a < b < r@.len() ==> r@[a] > r@[b],
        dim is None ==> forall|a: int|
            0 <= a < r@.len() ==> #[trigger] r@[a] < sizes@.len() && sizes@[r@[a] as int] == 1,
        dim is None ==> forall|d: int|
            0 <= d < sizes@.len() && sizes@[d] == 1 ==> r@.contains(d as usize),
{
    proof {
        assert(sizes@.len() == sizes.len());
        lemma_squeeze_plan_descending(sizes@);
    }
    let mut dims: Vec<usize> = Vec::new();
    match dim {
        Some(t) => {
            dims.push(t);
            assert(dims@ =~= seq![t]);
            dims
        },
        None => {
            let mut i: usize = 0;
            while i < sizes.len()
                invariant
                    i <= sizes@.len(),
                    dims@ == unit_dims(sizes@, i as int),
                decreases sizes.len() - i,
            {
                if sizes[i] == 1 {
                    dims.push(i);
                }
                i = i + 1;
            }
            let mut rev: Vec<usize> = Vec::new();
            let n = dims.len();
            let mut j: usize = 0;
            while j < n
                invariant
                    n == dims@.len(),
                    j <= n,
                    rev@ =~= dims@.reverse().take(j as int),
                decreases n - j,
            {
                rev.push(dims[n - 1 - j]);
                j = j + 1;
            }
            assert(dims@.reverse().take(n as int) =~= dims@.reverse());
            rev
        },
    }
}

/// Squeezing a given dimension hands the storage layer that dimension
/// alone, whatever the extents.
pub proof fn lemma_squeeze_given_dimension(sizes: Seq<usize>, t: usize)
    ensures
        squeeze_plan(sizes, Some(t)) == seq![t],
{
}

proof fn lemma_unit_dims_facts(sizes: Seq<usize>, k: int)
    requires
        0 <= k <= sizes.len(),
        sizes.len() <= usize::MAX,
    ensures
        forall|a: int, b: int|
            0 <= a < b < unit_dims(sizes, k).len() ==> unit_dims(sizes, k)[a] < unit_dims(
                sizes,
                k,
            )[b],
        forall|a: int|
            0 <= a < unit_dims(sizes, k).len() ==> #[trigger] unit_dims(sizes, k)[a] < k
                && sizes[unit_dims(sizes, k)[a] as int] == 1,
        forall|d: int| 0 <= d < k && sizes[d] == 1 ==> unit_dims(sizes, k).contains(d as usize),
    decreases k,
{
    if k > 0 {
        lemma_unit_dims_facts(sizes, k - 1);
        let prev = unit_dims(sizes, k - 1);
        if sizes[k - 1] == 1 {
            let cur = prev.push((k - 1) as usize);
            assert(cur == unit_dims(sizes, k));
            assert forall|a: int, b: int| 0 <= a < b < cur.len() implies cur[a] < cur[b] by {
                if b < prev.len() {
                    assert(cur[a] == prev[a] && cur[b] == prev[b]);
                } else {
                    assert(cur[a] == prev[a]);
                    assert(prev[a] < k - 1);
                }
            }
            assert forall|a: int| 0 <= a < cur.len() implies #[trigger] cur[a] < k && sizes[cur[a] as int] == 1 by {
                if a < prev.len() {
                    assert(cur[a] == prev[a]);
                }
            }
            assert forall|d: int| 0 <= d < k && sizes[d] == 1 implies cur.contains(d as usize) by {
                if d == k - 1 {
                    assert(cur[cur.len() - 1] == d as usize);
                } else {
                    let w = choose|w: int| 0 <= w < prev.len() && prev[w] == d as usize;
                    assert(cur[w] == d as usize);
                }
            }
        }
    }
}

/// Squeezing every dimension of extent one hands the storage layer exactly
/// those dimensions, each once, from the last to the first: so removing one
/// never moves a dimension that is still to be removed.
pub proof fn lemma_squeeze_plan_descending(sizes: Seq<usize>)
    requires
        sizes.len() <= usize::MAX,
    ensures
        ({
            let plan = squeeze_plan(sizes, None);
            &&& forall|a: int, b: int| 0 <= a < b < plan.len() ==> plan[a] > plan[b]
            &&& forall|a: int|
                0 <= a < plan.len() ==> #[trigger] plan[a] < sizes.len() && sizes[plan[a] as int]
                    == 1
            &&& forall|d: int| 0 <= d < sizes.len() && sizes[d] == 1 ==> plan.contains(d as usize)
        }),
{
    let asc = unit_dims(sizes, sizes.len() as int);
    lemma_unit_dims_facts(sizes, sizes.len() as int);
    let plan = squeeze_plan(sizes, None);
    assert(plan == asc.reverse());
    assert forall|a: int, b: int| 0 <= a < b < plan.len() implies plan[a] > plan[b] by {
        assert(plan[a] == asc[asc.len() - 1 - a]);
        assert(plan[b] == asc[asc.len() - 1 - b]);
    }
    assert forall|a: int| 0 <= a < plan.len() implies #[trigger] plan[a] < sizes.len()
        && sizes[plan[a] as int] == 1 by {
        assert(plan[a] == asc[asc.len() - 1 - a]);
    }
    assert forall|d: int| 0 <= d < sizes.len() && sizes[d] == 1 implies plan.contains(
        d as usize,
    ) by {
        let w = choose|w: int| 0 <= w < asc.len() && asc[w] == d as usize;
        assert(plan[asc.len() - 1 - w] == asc[w]);
    }
}

} // verus!
