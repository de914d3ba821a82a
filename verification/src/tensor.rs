//! Trusted boundary to the tensor library.
//!
//! Every function here is an `external_body` wrapper around exactly one
//! tensor operation of `candle_core` / `candle_nn` (plus argument or
//! result conversion); the contract of each states what the operation's
//! source shows about the *shape* of its result, and — for the integer
//! index tensors used by routing — about its contents.  Floating-point
//! contents are never described: they stay opaque to the verifier.
//!
//! Two names tie the opaque values to the specifications:
//! `dims_of` (the dimension list of a tensor) and `u32_rows_of` (the rows
//! of a two-dimensional `u32` index tensor).

use vstd::prelude::*;

use crate::err::ModelError;
use crate::shape::{broadcast_shape, broadcastable, perm_row, prod};

verus! {

/// `candle_core::Tensor`, opaque to the verifier.
#[verifier::external_type_specification]
#[verifier::external_body]
pub struct ExTensor(candle_core::Tensor);

/// `candle_core::DType`, opaque to the verifier; only carried through
/// `to_dtype_t` for the autocast path of a projection.
#[verifier::external_type_specification]
#[verifier::external_body]
pub struct ExDType(candle_core::DType);

/// The dimension list of a tensor.
pub uninterp spec fn dims_of(t: candle_core::Tensor) -> Seq<usize>;

/// The rows of a two-dimensional `u32` tensor.  Unspecified for tensors
/// of any other rank or element type.
pub uninterp spec fn u32_rows_of(t: candle_core::Tensor) -> Seq<Seq<u32>>;

/// Extent needed along `dim` to concatenate the tensors of `ts`.
pub open spec fn cat_extent(ts: Seq<candle_core::Tensor>, dim: int) -> int
    decreases ts.len(),
{
    if ts.len() == 0 {
        0
    } else {
        dims_of(ts[0])[dim] + cat_extent(ts.skip(1), dim)
    }
}

/// Concatenating tensors that all have extent 1 along `dim` needs
/// extent `ts.len()` there.
pub proof fn lemma_cat_extent_ones(ts: Seq<candle_core::Tensor>, dim: int)
    requires
        forall|i: int| 0 <= i < ts.len() ==> #[trigger] dims_of(ts[i])[dim] == 1,
    ensures
        cat_extent(ts, dim) == ts.len(),
    decreases ts.len(),
{
    if ts.len() > 0 {
        lemma_cat_extent_ones(ts.skip(1), dim);
    }
}

/// Concatenating exactly two tensors needs the sum of their extents.
pub proof fn lemma_cat_extent_pair(a: candle_core::Tensor, b: candle_core::Tensor, dim: int)
    ensures
        cat_extent(seq![a, b], dim) == dims_of(a)[dim] + dims_of(b)[dim],
{
    let pair = seq![a, b];
    assert(pair.skip(1) =~= seq![b]);
    assert(seq![b].skip(1) =~= Seq::<candle_core::Tensor>::empty());
    assert(cat_extent(Seq::<candle_core::Tensor>::empty(), dim) == 0);
    assert(cat_extent(seq![b], dim) == dims_of(b)[dim] + cat_extent(seq![b].skip(1), dim));
    assert(cat_extent(pair, dim) == dims_of(a)[dim] + cat_extent(pair.skip(1), dim));
}

/// Relies on `candle_core::Tensor::dims`: the dimension list.
#[verifier::external_body]
pub fn dims_vec(t: &candle_core::Tensor) -> (r: Vec<usize>)
    ensures
        r@ == dims_of(*t),
{
    t.dims().to_vec()
}

/// Relies on `Clone for candle_core::Tensor`: a clone shares the same
/// storage and layout, so shape and contents are unchanged.
#[verifier::external_body]
pub fn clone_tensor(t: &candle_core::Tensor) -> (r: candle_core::Tensor)
    ensures
        dims_of(r) == dims_of(*t),
        u32_rows_of(r) == u32_rows_of(*t),
{
    t.clone()
}

/// Relies on `candle_core::Tensor::reshape`: same element count, new
/// dimension list.
#[verifier::external_body]
pub fn reshape_to(t: &candle_core::Tensor, dims: &Vec<usize>) -> (r: Result<
    candle_core::Tensor,
    ModelError,
>)
    requires
        prod(dims@) == prod(dims_of(*t)),
    ensures
        (r matches Ok(y) ==> dims_of(y) == dims@),
        (r matches Err(e) ==> e is Numeric),
{
    t.reshape(dims.clone()).map_err(ModelError::Numeric)
}

/// Relies on `candle_core::Tensor::transpose`: the two axes swap.
#[verifier::external_body]
pub fn transpose_t(t: &candle_core::Tensor, d1: usize, d2: usize) -> (r: Result<
    candle_core::Tensor,
    ModelError,
>)
    requires
        d1 < dims_of(*t).len(),
        d2 < dims_of(*t).len(),
    ensures
        (r matches Ok(y) ==> dims_of(y) == dims_of(*t).update(d1 as int, dims_of(*t)[d2 as int]).update(
            d2 as int,
            dims_of(*t)[d1 as int],
        )),
        (r matches Err(e) ==> e is Numeric),
{
    t.transpose(d1, d2).map_err(ModelError::Numeric)
}

/// Relies on `candle_core::Tensor::narrow`: a window of `len` along `dim`
/// starting at `start`.
#[verifier::external_body]
pub fn narrow_t(t: &candle_core::Tensor, dim: usize, start: usize, len: usize) -> (r: Result<
    candle_core::Tensor,
    ModelError,
>)
    requires
        dim < dims_of(*t).len(),
        start + len <= dims_of(*t)[dim as int],
    ensures
        (r matches Ok(y) ==> dims_of(y) == dims_of(*t).update(dim as int, len)),
        (r matches Err(e) ==> e is Numeric),
{
    t.narrow(dim, start, len).map_err(ModelError::Numeric)
}

/// Relies on `candle_core::Tensor::contiguous`: same shape, contiguous
/// layout.
#[verifier::external_body]
pub fn contiguous_t(t: &candle_core::Tensor) -> (r: Result<candle_core::Tensor, ModelError>)
    ensures
        (r matches Ok(y) ==> dims_of(y) == dims_of(*t)),
        (r matches Err(e) ==> e is Numeric),
{
    t.contiguous().map_err(ModelError::Numeric)
}

/// Relies on `candle_core::Tensor::cat`: extents along `dim` accumulate,
/// every other axis is unchanged.
#[verifier::external_body]
pub fn cat_dim(ts: &Vec<candle_core::Tensor>, dim: usize) -> (r: Result<
    candle_core::Tensor,
    ModelError,
>)
    requires
        ts@.len() >= 1,
        dim < dims_of(ts@[0]).len(),
        forall|i: int| 0 <= i < ts@.len() ==> #[trigger] dims_of(ts@[i]).len() == dims_of(
            ts@[0],
        ).len(),
        forall|i: int, j: int|
            0 <= i < ts@.len() && 0 <= j < dims_of(ts@[0]).len() && j != dim ==> #[trigger] dims_of(
                ts@[i],
            )[j] == dims_of(ts@[0])[j],
        cat_extent(ts@, dim as int) <= usize::MAX,
    ensures
        (r matches Ok(y) ==> dims_of(y) == dims_of(ts@[0]).update(
            dim as int,
            cat_extent(ts@, dim as int) as usize,
        )),
        (r matches Err(e) ==> e is Numeric),
{
    candle_core::Tensor::cat(ts.as_slice(), dim).map_err(ModelError::Numeric)
}

/// Relies on `candle_core::Tensor::matmul` (same-rank batched matrix
/// product): the last axis becomes the column count of `b`.
#[verifier::external_body]
pub fn matmul_t(a: &candle_core::Tensor, b: &candle_core::Tensor) -> (r: Result<
    candle_core::Tensor,
    ModelError,
>)
    requires
        dims_of(*a).len() >= 2,
        dims_of(*a).len() == dims_of(*b).len(),
        forall|i: int|
            0 <= i < dims_of(*a).len() - 2 ==> #[trigger] dims_of(*a)[i] == dims_of(*b)[i],
        dims_of(*a)[dims_of(*a).len() - 1] == dims_of(*b)[dims_of(*b).len() - 2],
    ensures
        (r matches Ok(y) ==> dims_of(y) == dims_of(*a).update(
            dims_of(*a).len() - 1,
            dims_of(*b)[dims_of(*b).len() - 1],
        )),
        (r matches Err(e) ==> e is Numeric),
{
    a.matmul(b).map_err(ModelError::Numeric)
}

/// Relies on `candle_core::Tensor::broadcast_matmul`: batch axes
/// broadcast, the matrix axes multiply.
#[verifier::external_body]
pub fn broadcast_matmul_t(a: &candle_core::Tensor, b: &candle_core::Tensor) -> (r: Result<
    candle_core::Tensor,
    ModelError,
>)
    requires
        dims_of(*a).len() >= 2,
        dims_of(*b).len() >= 2,
        dims_of(*a)[dims_of(*a).len() - 1] == dims_of(*b)[dims_of(*b).len() - 2],
        broadcastable(
            dims_of(*a).take(dims_of(*a).len() - 2),
            dims_of(*b).take(dims_of(*b).len() - 2),
        ),
    ensures
        (r matches Ok(y) ==> dims_of(y) == broadcast_shape(
            dims_of(*a).take(dims_of(*a).len() - 2),
            dims_of(*b).take(dims_of(*b).len() - 2),
        ) + seq![dims_of(*a)[dims_of(*a).len() - 2], dims_of(*b)[dims_of(*b).len() - 1]]),
        (r matches Err(e) ==> e is Numeric),
{
    a.broadcast_matmul(b).map_err(ModelError::Numeric)
}

/// Relies on `candle_core::Tensor::broadcast_add`.
#[verifier::external_body]
pub fn bc_add(a: &candle_core::Tensor, b: &candle_core::Tensor) -> (r: Result<
    candle_core::Tensor,
    ModelError,
>)
    requires
        broadcastable(dims_of(*a), dims_of(*b)),
    ensures
        (r matches Ok(y) ==> dims_of(y) == broadcast_shape(dims_of(*a), dims_of(*b))),
        (r matches Err(e) ==> e is Numeric),
{
    a.broadcast_add(b).map_err(ModelError::Numeric)
}

/// Relies on `candle_core::Tensor::broadcast_sub`.
#[verifier::external_body]
pub fn bc_sub(a: &candle_core::Tensor, b: &candle_core::Tensor) -> (r: Result<
    candle_core::Tensor,
    ModelError,
>)
    requires
        broadcastable(dims_of(*a), dims_of(*b)),
    ensures
        (r matches Ok(y) ==> dims_of(y) == broadcast_shape(dims_of(*a), dims_of(*b))),
        (r matches Err(e) ==> e is Numeric),
{
    a.broadcast_sub(b).map_err(ModelError::Numeric)
}

/// Relies on `candle_core::Tensor::broadcast_mul`.
#[verifier::external_body]
pub fn bc_mul(a: &candle_core::Tensor, b: &candle_core::Tensor) -> (r: Result<
    candle_core::Tensor,
    ModelError,
>)
    requires
        broadcastable(dims_of(*a), dims_of(*b)),
    ensures
        (r matches Ok(y) ==> dims_of(y) == broadcast_shape(dims_of(*a), dims_of(*b))),
        (r matches Err(e) ==> e is Numeric),
{
    a.broadcast_mul(b).map_err(ModelError::Numeric)
}

/// Relies on `candle_core::Tensor::exp` (elementwise, shape kept).
#[verifier::external_body]
pub fn exp_t(t: &candle_core::Tensor) -> (r: Result<candle_core::Tensor, ModelError>)
    ensures
        (r matches Ok(y) ==> dims_of(y) == dims_of(*t)),
        (r matches Err(e) ==> e is Numeric),
{
    t.exp().map_err(ModelError::Numeric)
}

/// Relies on `candle_core::Tensor::log` (elementwise, shape kept).
#[verifier::external_body]
pub fn log_t(t: &candle_core::Tensor) -> (r: Result<candle_core::Tensor, ModelError>)
    ensures
        (r matches Ok(y) ==> dims_of(y) == dims_of(*t)),
        (r matches Err(e) ==> e is Numeric),
{
    t.log().map_err(ModelError::Numeric)
}

/// Relies on `candle_core::Tensor::sqrt` (elementwise, shape kept).
#[verifier::external_body]
pub fn sqrt_t(t: &candle_core::Tensor) -> (r: Result<candle_core::Tensor, ModelError>)
    ensures
        (r matches Ok(y) ==> dims_of(y) == dims_of(*t)),
        (r matches Err(e) ==> e is Numeric),
{
    t.sqrt().map_err(ModelError::Numeric)
}

/// Relies on `candle_core::Tensor::recip` (elementwise, shape kept).
#[verifier::external_body]
pub fn recip_t(t: &candle_core::Tensor) -> (r: Result<candle_core::Tensor, ModelError>)
    ensures
        (r matches Ok(y) ==> dims_of(y) == dims_of(*t)),
        (r matches Err(e) ==> e is Numeric),
{
    t.recip().map_err(ModelError::Numeric)
}

/// Relies on `candle_core::Tensor::neg` (elementwise, shape kept).
#[verifier::external_body]
pub fn neg_t(t: &candle_core::Tensor) -> (r: Result<candle_core::Tensor, ModelError>)
    ensures
        (r matches Ok(y) ==> dims_of(y) == dims_of(*t)),
        (r matches Err(e) ==> e is Numeric),
{
    t.neg().map_err(ModelError::Numeric)
}

/// Relies on `candle_core::Tensor::sin` (elementwise, shape kept).
#[verifier::external_body]
pub fn sin_t(t: &candle_core::Tensor) -> (r: Result<candle_core::Tensor, ModelError>)
    ensures
        (r matches Ok(y) ==> dims_of(y) == dims_of(*t)),
        (r matches Err(e) ==> e is Numeric),
{
    t.sin().map_err(ModelError::Numeric)
}

/// Relies on `candle_core::Tensor::cos` (elementwise, shape kept).
#[verifier::external_body]
pub fn cos_t(t: &candle_core::Tensor) -> (r: Result<candle_core::Tensor, ModelError>)
    ensures
        (r matches Ok(y) ==> dims_of(y) == dims_of(*t)),
        (r matches Err(e) ==> e is Numeric),
{
    t.cos().map_err(ModelError::Numeric)
}

/// Relies on `candle_nn::ops::softmax_last_dim` (shape kept).  An
/// empty last axis is excluded: the kernel chunks rows by its extent.
#[verifier::external_body]
pub fn softmax_last_dim_t(t: &candle_core::Tensor) -> (r: Result<candle_core::Tensor, ModelError>)
    requires
        dims_of(*t).len() >= 1,
        dims_of(*t)[dims_of(*t).len() - 1] >= 1,
    ensures
        (r matches Ok(y) ==> dims_of(y) == dims_of(*t)),
        (r matches Err(e) ==> e is Numeric),
{
    candle_nn::ops::softmax_last_dim(t).map_err(ModelError::Numeric)
}

/// Relies on `candle_nn::ops::sigmoid` (elementwise, shape kept).
#[verifier::external_body]
pub fn sigmoid_t(t: &candle_core::Tensor) -> (r: Result<candle_core::Tensor, ModelError>)
    ensures
        (r matches Ok(y) ==> dims_of(y) == dims_of(*t)),
        (r matches Err(e) ==> e is Numeric),
{
    candle_nn::ops::sigmoid(t).map_err(ModelError::Numeric)
}

/// Relies on `candle_nn::ops::silu` (elementwise, shape kept).
#[verifier::external_body]
pub fn silu_t(t: &candle_core::Tensor) -> (r: Result<candle_core::Tensor, ModelError>)
    ensures
        (r matches Ok(y) ==> dims_of(y) == dims_of(*t)),
        (r matches Err(e) ==> e is Numeric),
{
    candle_nn::ops::silu(t).map_err(ModelError::Numeric)
}

/// Relies on `candle_nn::ops::rms_norm`: normalises over the last axis
/// and scales by `alpha`; the shape of `x` is kept.  The epsilon is
/// carried as a scalar tensor and read out for the call.
#[verifier::external_body]
pub fn rms_norm_t(
    x: &candle_core::Tensor,
    alpha: &candle_core::Tensor,
    eps: &candle_core::Tensor,
) -> (r: Result<candle_core::Tensor, ModelError>)
    requires
        dims_of(*x).len() >= 1,
        dims_of(*alpha).len() == 1,
        dims_of(*alpha)[0] >= 1,
        dims_of(*alpha)[0] == dims_of(*x)[dims_of(*x).len() - 1],
        dims_of(*eps).len() == 0,
    ensures
        (r matches Ok(y) ==> dims_of(y) == dims_of(*x)),
        (r matches Err(e) ==> e is Numeric),
{
    let e = eps.to_scalar().map_err(ModelError::Numeric)?;
    candle_nn::ops::rms_norm(x, alpha, e).map_err(ModelError::Numeric)
}

/// Relies on `candle_core::Tensor::sum_keepdim` over the last axis: that
/// axis collapses to 1.
#[verifier::external_body]
pub fn sum_keepdim_last(t: &candle_core::Tensor) -> (r: Result<candle_core::Tensor, ModelError>)
    requires
        dims_of(*t).len() >= 1,
    ensures
        (r matches Ok(y) ==> dims_of(y) == dims_of(*t).update(dims_of(*t).len() - 1, 1usize)),
        (r matches Err(e) ==> e is Numeric),
{
    t.sum_keepdim(candle_core::D::Minus1).map_err(ModelError::Numeric)
}

/// Relies on `candle_core::Tensor::sum` over the last axis: that axis is
/// removed.
#[verifier::external_body]
pub fn sum_last(t: &candle_core::Tensor) -> (r: Result<candle_core::Tensor, ModelError>)
    requires
        dims_of(*t).len() >= 1,
    ensures
        (r matches Ok(y) ==> dims_of(y) == dims_of(*t).take(dims_of(*t).len() - 1)),
        (r matches Err(e) ==> e is Numeric),
{
    t.sum(candle_core::D::Minus1).map_err(ModelError::Numeric)
}

/// Relies on `candle_core::Tensor::max` over the last axis: that axis is
/// removed.  An empty axis is excluded: the reduce kernel divides by
/// its extent.
#[verifier::external_body]
pub fn max_last(t: &candle_core::Tensor) -> (r: Result<candle_core::Tensor, ModelError>)
    requires
        dims_of(*t).len() >= 1,
        dims_of(*t)[dims_of(*t).len() - 1] >= 1,
    ensures
        (r matches Ok(y) ==> dims_of(y) == dims_of(*t).take(dims_of(*t).len() - 1)),
        (r matches Err(e) ==> e is Numeric),
{
    t.max(candle_core::D::Minus1).map_err(ModelError::Numeric)
}

/// Relies on `candle_core::Tensor::broadcast_div`.
#[verifier::external_body]
pub fn bc_div(a: &candle_core::Tensor, b: &candle_core::Tensor) -> (r: Result<
    candle_core::Tensor,
    ModelError,
>)
    requires
        broadcastable(dims_of(*a), dims_of(*b)),
    ensures
        (r matches Ok(y) ==> dims_of(y) == broadcast_shape(dims_of(*a), dims_of(*b))),
        (r matches Err(e) ==> e is Numeric),
{
    a.broadcast_div(b).map_err(ModelError::Numeric)
}

/// Relies on `candle_core::Tensor::zeros`, with element type and device
/// taken from `like`.
#[verifier::external_body]
pub fn zeros_shaped(like: &candle_core::Tensor, dims: &Vec<usize>) -> (r: Result<
    candle_core::Tensor,
    ModelError,
>)
    ensures
        (r matches Ok(y) ==> dims_of(y) == dims@),
        (r matches Err(e) ==> e is Numeric),
{
    candle_core::Tensor::zeros(dims.clone(), like.dtype(), like.device()).map_err(
        ModelError::Numeric,
    )
}

/// Relies on `candle_core::Tensor::slice_assign` on a rank-4 tensor:
/// writes `src` into the window of the last axis starting at `start`;
/// the shape is kept.
#[verifier::external_body]
pub fn slice_assign4_last(
    t: &candle_core::Tensor,
    start: usize,
    src: &candle_core::Tensor,
) -> (r: Result<candle_core::Tensor, ModelError>)
    requires
        dims_of(*t).len() == 4,
        dims_of(*src).len() == 4,
        forall|i: int| 0 <= i < 3 ==> #[trigger] dims_of(*src)[i] == dims_of(*t)[i],
        forall|i: int| 0 <= i < 3 ==> #[trigger] dims_of(*t)[i] >= 1,
        dims_of(*src)[3] >= 1,
        start + dims_of(*src)[3] <= dims_of(*t)[3],
    ensures
        (r matches Ok(y) ==> dims_of(y) == dims_of(*t)),
        (r matches Err(e) ==> e is Numeric),
{
    let d = t.dims();
    let s = src.dims();
    let ranges = [0..d[0], 0..d[1], 0..d[2], start..start + s[3]];
    t.slice_assign(&ranges, src).map_err(ModelError::Numeric)
}

/// Relies on `candle_core::Tensor::pad_with_zeros` on the last axis:
/// `right` zero columns are appended.
#[verifier::external_body]
pub fn pad_last_zeros(t: &candle_core::Tensor, right: usize) -> (r: Result<
    candle_core::Tensor,
    ModelError,
>)
    requires
        dims_of(*t).len() >= 1,
        dims_of(*t)[dims_of(*t).len() - 1] + right <= usize::MAX,
    ensures
        (r matches Ok(y) ==> dims_of(y) == dims_of(*t).update(
            dims_of(*t).len() - 1,
            (dims_of(*t)[dims_of(*t).len() - 1] + right) as usize,
        )),
        (r matches Err(e) ==> e is Numeric),
{
    t.pad_with_zeros(candle_core::D::Minus1, 0, right).map_err(ModelError::Numeric)
}

/// Relies on `candle_core::Tensor::repeat` with one repetition count per
/// axis: every extent is multiplied by its count.  Counts of zero are
/// excluded: candle applies a count only when it exceeds one, so a zero
/// count would leave the axis unchanged rather than empty it.
#[verifier::external_body]
pub fn repeat_t(t: &candle_core::Tensor, reps: &Vec<usize>) -> (r: Result<
    candle_core::Tensor,
    ModelError,
>)
    requires
        reps@.len() == dims_of(*t).len(),
        forall|i: int| 0 <= i < reps@.len() ==> #[trigger] reps@[i] >= 1,
        forall|i: int|
            0 <= i < reps@.len() ==> #[trigger] (dims_of(*t)[i] * reps@[i]) <= usize::MAX,
    ensures
        (r matches Ok(y) ==> dims_of(y) == Seq::new(
            dims_of(*t).len(),
            |i: int| (dims_of(*t)[i] * reps@[i]) as usize,
        )),
        (r matches Err(e) ==> e is Numeric),
{
    t.repeat(reps.clone()).map_err(ModelError::Numeric)
}

/// Relies on `candle_core::Tensor::arange` over `u32`: the values
/// `0, 1, …, len-1` on the device of `like`.
#[verifier::external_body]
pub fn arange_u32(len: usize, like: &candle_core::Tensor) -> (r: Result<
    candle_core::Tensor,
    ModelError,
>)
    requires
        len <= u32::MAX,
    ensures
        (r matches Ok(y) ==> dims_of(y) == seq![len]),
        (r matches Err(e) ==> e is Numeric),
{
    candle_core::Tensor::arange(0u32, len as u32, like.device()).map_err(ModelError::Numeric)
}

/// Relies on `candle_core::Tensor::new` on a single `u32`: a rank-0
/// scalar tensor on the device of `like`.
#[verifier::external_body]
pub fn scalar_u32(n: u32, like: &candle_core::Tensor) -> (r: Result<
    candle_core::Tensor,
    ModelError,
>)
    ensures
        (r matches Ok(y) ==> dims_of(y) == Seq::<usize>::empty()),
        (r matches Err(e) ==> e is Numeric),
{
    candle_core::Tensor::new(n, like.device()).map_err(ModelError::Numeric)
}

/// Relies on `candle_core::Tensor::dtype`: the element type, carried
/// opaquely.
#[verifier::external_body]
pub fn dtype_of(t: &candle_core::Tensor) -> candle_core::DType {
    t.dtype()
}

/// Relies on the unit value `candle_core::DType::F32`.
#[verifier::external_body]
pub fn dtype_f32() -> candle_core::DType {
    candle_core::DType::F32
}

/// Relies on `candle_core::Tensor::to_dtype`: element conversion, shape
/// kept.
#[verifier::external_body]
pub fn to_dtype_t(t: &candle_core::Tensor, dt: candle_core::DType) -> (r: Result<
    candle_core::Tensor,
    ModelError,
>)
    ensures
        (r matches Ok(y) ==> dims_of(y) == dims_of(*t)),
        (r matches Err(e) ==> e is Numeric),
{
    t.to_dtype(dt).map_err(ModelError::Numeric)
}

/// Relies on `candle_core::Tensor::arg_sort_last_dim` in descending
/// order on a two-dimensional tensor: each output row holds the indices
/// that sort the corresponding input row, hence a permutation of
/// `0 .. columns`.
#[verifier::external_body]
pub fn arg_sort_desc(t: &candle_core::Tensor) -> (r: Result<candle_core::Tensor, ModelError>)
    requires
        dims_of(*t).len() == 2,
        dims_of(*t)[1] >= 1,
        dims_of(*t)[1] <= u32::MAX,
    ensures
        (r matches Ok(y) ==> {
            &&& dims_of(y) == dims_of(*t)
            &&& u32_rows_of(y).len() == dims_of(*t)[0]
            &&& forall|i: int|
                0 <= i < u32_rows_of(y).len() ==> perm_row(
                    #[trigger] u32_rows_of(y)[i],
                    dims_of(*t)[1] as int,
                )
        }),
        (r matches Err(e) ==> e is Numeric),
{
    t.arg_sort_last_dim(false).map_err(ModelError::Numeric)
}

/// Relies on `candle_core::Tensor::sort_last_dim` in descending order;
/// only the sorted values are returned, with the shape kept.
#[verifier::external_body]
pub fn sort_desc_values(t: &candle_core::Tensor) -> (r: Result<candle_core::Tensor, ModelError>)
    requires
        dims_of(*t).len() >= 1,
        dims_of(*t)[dims_of(*t).len() - 1] >= 1,
        dims_of(*t)[dims_of(*t).len() - 1] <= u32::MAX,
    ensures
        (r matches Ok(y) ==> dims_of(y) == dims_of(*t)),
        (r matches Err(e) ==> e is Numeric),
{
    let (values, _indices) = t.sort_last_dim(false).map_err(ModelError::Numeric)?;
    Ok(values)
}

/// Relies on `candle_core::Tensor::to_vec2` over `u32`: the rows of a
/// two-dimensional `u32` tensor as vectors.
#[verifier::external_body]
pub fn to_vec2_u32(t: &candle_core::Tensor) -> (r: Result<Vec<Vec<u32>>, ModelError>)
    requires
        dims_of(*t).len() == 2,
    ensures
        (r matches Ok(v) ==> {
            &&& v.deep_view() == u32_rows_of(*t)
            &&& v@.len() == dims_of(*t)[0]
            &&& forall|i: int| 0 <= i < v@.len() ==> (#[trigger] v@[i])@.len() == dims_of(*t)[1]
        }),
        (r matches Err(e) ==> e is Numeric),
{
    t.to_vec2::<u32>().map_err(ModelError::Numeric)
}

/// Relies on `candle_core::Tensor::new` on rows of `u32`: a
/// two-dimensional `u32` tensor holding exactly those rows, on the
/// device of `like`.
#[verifier::external_body]
pub fn tensor_of_u32_rows(rows: &Vec<Vec<u32>>, like: &candle_core::Tensor) -> (r: Result<
    candle_core::Tensor,
    ModelError,
>)
    requires
        rows@.len() >= 1,
        forall|i: int| 0 <= i < rows@.len() ==> (#[trigger] rows@[i])@.len() == rows@[0]@.len(),
        rows@[0]@.len() >= 1,
    ensures
        (r matches Ok(y) ==> {
            &&& dims_of(y) == seq![rows@.len() as usize, rows@[0]@.len() as usize]
            &&& u32_rows_of(y) == rows.deep_view()
        }),
        (r matches Err(e) ==> e is Numeric),
{
    candle_core::Tensor::new(rows.clone(), like.device()).map_err(ModelError::Numeric)
}

/// Relies on `candle_core::Tensor::index_select` along axis 0, the index
/// vector being converted to a `u32` tensor first: row `j` of the result
/// is row `idx[j]` of `src`.
#[verifier::external_body]
pub fn index_select_rows(src: &candle_core::Tensor, idx: &Vec<u32>) -> (r: Result<
    candle_core::Tensor,
    ModelError,
>)
    requires
        dims_of(*src).len() >= 1,
        idx@.len() >= 1,
        forall|j: int| 0 <= j < idx@.len() ==> (#[trigger] idx@[j] as int) < dims_of(*src)[0],
    ensures
        (r matches Ok(y) ==> dims_of(y) == dims_of(*src).update(0, idx@.len() as usize)),
        (r matches Err(e) ==> e is Numeric),
{
    let it = candle_core::Tensor::new(idx.clone(), src.device()).map_err(ModelError::Numeric)?;
    src.index_select(&it, 0).map_err(ModelError::Numeric)
}

/// Relies on `candle_core::Tensor::index_add` along axis 0, the index
/// vector being converted to a `u32` tensor first: row `idx[j]` of the
/// result accumulates row `j` of `src`; the shape of `t` is kept.
#[verifier::external_body]
pub fn index_add_rows(
    t: &candle_core::Tensor,
    idx: &Vec<u32>,
    src: &candle_core::Tensor,
) -> (r: Result<candle_core::Tensor, ModelError>)
    requires
        dims_of(*t).len() >= 1,
        dims_of(*src).len() == dims_of(*t).len(),
        dims_of(*src)[0] == idx@.len(),
        forall|i: int|
            1 <= i < dims_of(*t).len() ==> #[trigger] dims_of(*src)[i] == dims_of(*t)[i],
        forall|j: int| 0 <= j < idx@.len() ==> (#[trigger] idx@[j] as int) < dims_of(*t)[0],
    ensures
        (r matches Ok(y) ==> dims_of(y) == dims_of(*t)),
        (r matches Err(e) ==> e is Numeric),
{
    let it = candle_core::Tensor::new(idx.clone(), t.device()).map_err(ModelError::Numeric)?;
    t.index_add(&it, src, 0).map_err(ModelError::Numeric)
}

/// Relies on `candle_core::Tensor::gather` along axis 1, the index rows
/// being converted to a `u32` tensor first: entry `(i, j)` of the result
/// is entry `(i, rows[i][j])` of `src`.
#[verifier::external_body]
pub fn gather_rows(src: &candle_core::Tensor, rows: &Vec<Vec<u32>>) -> (r: Result<
    candle_core::Tensor,
    ModelError,
>)
    requires
        dims_of(*src).len() == 2,
        rows@.len() == dims_of(*src)[0],
        rows@.len() >= 1,
        forall|i: int| 0 <= i < rows@.len() ==> (#[trigger] rows@[i])@.len() == rows@[0]@.len(),
        rows@[0]@.len() >= 1,
        forall|i: int, j: int|
            0 <= i < rows@.len() && 0 <= j < rows@[i]@.len() ==> (#[trigger] rows@[i]@[j] as int)
                < dims_of(*src)[1],
    ensures
        (r matches Ok(y) ==> dims_of(y) == seq![rows@.len() as usize, rows@[0]@.len() as usize]),
        (r matches Err(e) ==> e is Numeric),
{
    let it = candle_core::Tensor::new(rows.clone(), src.device()).map_err(ModelError::Numeric)?;
    src.gather(&it, 1).map_err(ModelError::Numeric)
}

} // verus!
