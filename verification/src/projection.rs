//! The linear-projection capability and its plain implementation.
//!
//! Every weight matrix of the layer core is consumed through the
//! `Projection` trait: a forward map from `(…, m, in)` to `(…, m, out)`.
//! Quantised or otherwise specialised implementations can be supplied by
//! an embedding application; `Linear` is the plain full-precision one.

use vstd::prelude::*;

use crate::err::ModelError;
use crate::shape::lemma_bc_suffix;
use crate::tensor::{
    bc_add, broadcast_matmul_t, contiguous_t, dims_of, dims_vec, rms_norm_t, transpose_t,
};

verus! {

/// A linear map applied to the last axis of its input.
///
/// `forward_autocast` may run at a different internal precision;
/// `quantized_act_type` names the element type activations must be cast
/// to first, if any.  Both forwards promise the same shape law.
pub trait Projection: Sized {
    /// Width of the axis the map consumes.
    spec fn in_dim(&self) -> usize;

    /// Width of the axis the map produces.
    spec fn out_dim(&self) -> usize;

    /// Internal consistency, established at construction.
    spec fn proj_wf(&self) -> bool;

    fn forward(&self, x: &candle_core::Tensor) -> (r: Result<candle_core::Tensor, ModelError>)
        requires
            self.proj_wf(),
            dims_of(*x).len() >= 2,
            dims_of(*x)[dims_of(*x).len() - 1] == self.in_dim(),
        ensures
            (r matches Ok(y) ==> dims_of(y) == dims_of(*x).update(
                dims_of(*x).len() - 1,
                self.out_dim(),
            )),
            (r matches Err(e) ==> e is Numeric),
    ;

    fn forward_autocast(&self, x: &candle_core::Tensor) -> (r: Result<
        candle_core::Tensor,
        ModelError,
    >)
        requires
            self.proj_wf(),
            dims_of(*x).len() >= 2,
            dims_of(*x)[dims_of(*x).len() - 1] == self.in_dim(),
        ensures
            (r matches Ok(y) ==> dims_of(y) == dims_of(*x).update(
                dims_of(*x).len() - 1,
                self.out_dim(),
            )),
            (r matches Err(e) ==> e is Numeric),
    ;

    fn quantized_act_type(&self) -> Option<candle_core::DType>;

    fn in_features(&self) -> (r: usize)
        requires
            self.proj_wf(),
        ensures
            r == self.in_dim(),
    ;

    fn out_features(&self) -> (r: usize)
        requires
            self.proj_wf(),
        ensures
            r == self.out_dim(),
    ;
}

/// What `Linear::new` accepts: a `(out, in)` weight with positive
/// extents and, if present, an `(out,)` bias.
pub open spec fn linear_parts_ok(w: candle_core::Tensor, b: Option<candle_core::Tensor>) -> bool {
    &&& dims_of(w).len() == 2
    &&& dims_of(w)[0] >= 1
    &&& dims_of(w)[1] >= 1
    &&& (b matches Some(bt) ==> dims_of(bt) == seq![dims_of(w)[0]])
}

/// Plain full-precision linear map: `x · wᵀ (+ bias)`.
pub struct Linear {
    w: candle_core::Tensor,
    b: Option<candle_core::Tensor>,
}

impl Linear {
    /// The weight is `(out, in)`; the bias, if present, is `(out,)`.
    pub closed spec fn wf(&self) -> bool {
        &&& dims_of(self.w).len() == 2
        &&& dims_of(self.w)[0] >= 1
        &&& dims_of(self.w)[1] >= 1
        &&& (self.b matches Some(bt) ==> dims_of(bt) =~= seq![dims_of(self.w)[0]])
    }

    /// Builds the map from a `(out, in)` weight and an optional `(out,)`
    /// bias, rejecting mismatched dimensions.
    pub fn new(w: candle_core::Tensor, b: Option<candle_core::Tensor>) -> (r: Result<
        Linear,
        ModelError,
    >)
        ensures
            (r is Ok <==> linear_parts_ok(w, b)),
            (r matches Ok(l) ==> {
                &&& l.wf()
                &&& l.in_dim() == dims_of(w)[1]
                &&& l.out_dim() == dims_of(w)[0]
            }),
            (r matches Err(e) ==> e is Configuration),
    {
        let wd = dims_vec(&w);
        if wd.len() != 2 || wd[0] < 1 || wd[1] < 1 {
            return Err(ModelError::Configuration);
        }
        if let Some(bt) = &b {
            let bd = dims_vec(bt);
            if bd.len() != 1 || bd[0] != wd[0] {
                assert(!(dims_of(*bt) =~= seq![dims_of(w)[0]]));
                return Err(ModelError::Configuration);
            }
            assert(dims_of(*bt) =~= seq![dims_of(w)[0]]);
        }
        Ok(Linear { w, b })
    }
}

impl Projection for Linear {
    closed spec fn in_dim(&self) -> usize {
        dims_of(self.w)[1]
    }

    closed spec fn out_dim(&self) -> usize {
        dims_of(self.w)[0]
    }

    closed spec fn proj_wf(&self) -> bool {
        self.wf()
    }

    fn forward(&self, x: &candle_core::Tensor) -> (r: Result<candle_core::Tensor, ModelError>) {
        let ghost xd = dims_of(*x);
        let ghost rank = xd.len() as int;
        let wt = transpose_t(&self.w, 0, 1)?;
        assert(dims_of(wt) =~= seq![dims_of(self.w)[1], dims_of(self.w)[0]]);
        proof {
            lemma_bc_suffix(xd.take(rank - 2), dims_of(wt).take(0));
        }
        let y = broadcast_matmul_t(x, &wt)?;
        assert(dims_of(y) =~= xd.update(rank - 1, self.out_dim()));
        match &self.b {
            Some(bt) => {
                proof {
                    lemma_bc_suffix(dims_of(y), dims_of(*bt));
                }
                let z = bc_add(&y, bt)?;
                assert(dims_of(z) =~= xd.update(rank - 1, self.out_dim()));
                Ok(z)
            },
            None => Ok(y),
        }
    }

    fn forward_autocast(&self, x: &candle_core::Tensor) -> (r: Result<
        candle_core::Tensor,
        ModelError,
    >) {
        self.forward(x)
    }

    fn quantized_act_type(&self) -> Option<candle_core::DType> {
        None
    }

    fn in_features(&self) -> usize {
        let wd = dims_vec(&self.w);
        wd[1]
    }

    fn out_features(&self) -> usize {
        let wd = dims_vec(&self.w);
        wd[0]
    }
}

/// What `RmsNorm::new` accepts: a non-empty `(dim,)` scale and a scalar
/// epsilon.
pub open spec fn rms_norm_parts_ok(weight: candle_core::Tensor, eps: candle_core::Tensor) -> bool {
    &&& dims_of(weight).len() == 1
    &&& dims_of(weight)[0] >= 1
    &&& dims_of(eps).len() == 0
}

/// Root-mean-square normalisation over the last axis, with a learned
/// per-channel scale and a fixed epsilon carried as a scalar tensor.
pub struct RmsNorm {
    weight: candle_core::Tensor,
    eps: candle_core::Tensor,
}

impl RmsNorm {
    /// The scale is `(dim,)`; the epsilon is a scalar.
    pub closed spec fn wf(&self) -> bool {
        &&& dims_of(self.weight).len() == 1
        &&& dims_of(self.weight)[0] >= 1
        &&& dims_of(self.eps).len() == 0
    }

    /// Width of the axis being normalised.
    pub closed spec fn norm_dim(&self) -> usize {
        dims_of(self.weight)[0]
    }

    /// Builds the normaliser from a `(dim,)` scale and a scalar epsilon.
    pub fn new(weight: candle_core::Tensor, eps: candle_core::Tensor) -> (r: Result<
        RmsNorm,
        ModelError,
    >)
        ensures
            (r is Ok <==> rms_norm_parts_ok(weight, eps)),
            (r matches Ok(n) ==> n.wf() && n.norm_dim() == dims_of(weight)[0]),
            (r matches Err(e) ==> e is Configuration),
    {
        let wd = dims_vec(&weight);
        let ed = dims_vec(&eps);
        if wd.len() != 1 || wd[0] < 1 || ed.len() != 0 {
            return Err(ModelError::Configuration);
        }
        Ok(RmsNorm { weight, eps })
    }

    /// Runtime view of `norm_dim`.
    pub fn dim(&self) -> (r: usize)
        requires
            self.wf(),
        ensures
            r == self.norm_dim(),
    {
        let wd = dims_vec(&self.weight);
        wd[0]
    }

    /// Normalises the last axis; the shape is kept.
    pub fn forward(&self, x: &candle_core::Tensor) -> (r: Result<candle_core::Tensor, ModelError>)
        requires
            self.wf(),
            dims_of(*x).len() >= 1,
            dims_of(*x)[dims_of(*x).len() - 1] == self.norm_dim(),
        ensures
            (r matches Ok(y) ==> dims_of(y) == dims_of(*x)),
            (r matches Err(e) ==> e is Numeric),
    {
        let xc = contiguous_t(x)?;
        rms_norm_t(&xc, &self.weight, &self.eps)
    }
}

} // verus!
