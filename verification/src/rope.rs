//! Rotary position encoding for the decoupled "rope" sub-slice of query
//! and key vectors.
//!
//! The encoder precomputes sine and cosine caches for every position up
//! to `max_pos` at the supplied base frequency, and applies the
//! half-split rotation convention: the rope slice is split in two
//! halves `(x₁, x₂)` and rotated to `(x₁cos − x₂sin, x₂cos + x₁sin)`.
//! Each batch element is rotated at its own position offset.  A
//! non-linear frequency-scaling law is applied by building the encoder
//! from pre-stretched frequencies (`new_with_inv_freq`); the scalar
//! logit factor such a law yields (mscale) is folded into the softmax
//! scale at attention construction.

use vstd::prelude::*;

use crate::err::ModelError;
use crate::shape::{lemma_bc_outer, lemma_bc_suffix, lemma_prod1, lemma_prod2};
use crate::tensor::{
    arange_u32, bc_add, bc_div, bc_mul, bc_sub, cat_dim, cos_t, dims_of, dims_vec,
    dtype_f32, exp_t, lemma_cat_extent_ones, lemma_cat_extent_pair, log_t, narrow_t, neg_t,
    reshape_to, scalar_u32, sin_t, to_dtype_t,
};

verus! {

/// What `RotaryPositionEncoder::new` accepts: a scalar base frequency,
/// an even positive rotated width, and a positive position bound, both
/// within index range.
pub open spec fn rope_args_ok(theta: candle_core::Tensor, rope_dim: usize, max_pos: usize) -> bool {
    &&& dims_of(theta).len() == 0
    &&& 2 <= rope_dim <= u32::MAX
    &&& rope_dim % 2 == 0
    &&& 1 <= max_pos <= u32::MAX
}

/// What `RotaryPositionEncoder::new_with_inv_freq` accepts: the same
/// width and bound, with a `(rope_dim/2,)` frequency vector.
pub open spec fn rope_freq_args_ok(
    inv_freq: candle_core::Tensor,
    rope_dim: usize,
    max_pos: usize,
) -> bool {
    &&& 2 <= rope_dim <= u32::MAX
    &&& rope_dim % 2 == 0
    &&& 1 <= max_pos <= u32::MAX
    &&& dims_of(inv_freq) == seq![(rope_dim / 2) as usize]
}

/// Precomputed rotation caches, one instance per physical device.
pub struct RotaryPositionEncoder {
    /// `(max_pos, half_dim)` sine table.
    pub sin_cache: candle_core::Tensor,
    /// `(max_pos, half_dim)` cosine table.
    pub cos_cache: candle_core::Tensor,
    /// Width of the rotated slice; twice `half_dim`.
    pub rope_dim: usize,
    pub half_dim: usize,
    pub max_pos: usize,
}

impl RotaryPositionEncoder {
    pub open spec fn wf(&self) -> bool {
        &&& self.half_dim >= 1
        &&& self.rope_dim == 2 * self.half_dim
        &&& self.max_pos >= 1
        &&& dims_of(self.sin_cache) == seq![self.max_pos, self.half_dim]
        &&& dims_of(self.cos_cache) == seq![self.max_pos, self.half_dim]
    }

    /// Builds the caches: frequency `i` is `theta^(−2i/rope_dim)`,
    /// realised as `exp(−(2i/rope_dim)·ln theta)`; position `p` rotates
    /// by angle `p·freqᵢ`.  `theta` is a scalar tensor, which also fixes
    /// the device.
    pub fn new(theta: &candle_core::Tensor, rope_dim: usize, max_pos: usize) -> (r: Result<
        RotaryPositionEncoder,
        ModelError,
    >)
        ensures
            (r matches Ok(rp) ==> rp.wf() && rp.rope_dim == rope_dim && rp.max_pos == max_pos),
            ((r matches Err(e) && e is Configuration) <==> !rope_args_ok(*theta, rope_dim, max_pos)),
            (r matches Err(e) ==> e is Configuration || e is Numeric),
    {
        let td = dims_vec(theta);
        if !(td.len() == 0 && rope_dim >= 2 && rope_dim % 2 == 0 && rope_dim <= u32::MAX as usize
            && max_pos >= 1 && max_pos <= u32::MAX as usize) {
            return Err(ModelError::Configuration);
        }
        let half = rope_dim / 2;
        let idx = arange_u32(half, theta)?;
        let idxf = to_dtype_t(&idx, dtype_f32())?;
        let two = scalar_u32(2, theta)?;
        let two = to_dtype_t(&two, dtype_f32())?;
        let rd = scalar_u32(rope_dim as u32, theta)?;
        let rd = to_dtype_t(&rd, dtype_f32())?;
        proof {
            lemma_bc_suffix(dims_of(idxf), dims_of(two));
        }
        let expo = bc_mul(&idxf, &two)?;
        proof {
            lemma_bc_suffix(dims_of(expo), dims_of(rd));
        }
        let expo = bc_div(&expo, &rd)?;
        let lnt = log_t(theta)?;
        proof {
            lemma_bc_suffix(dims_of(expo), dims_of(lnt));
        }
        let scaled = bc_mul(&expo, &lnt)?;
        let scaled = neg_t(&scaled)?;
        let inv_freq = exp_t(&scaled)?;
        assert(dims_of(inv_freq) =~= seq![half]);

        let pos = arange_u32(max_pos, theta)?;
        let posf = to_dtype_t(&pos, dtype_f32())?;
        let mut col: Vec<usize> = Vec::new();
        col.push(max_pos);
        col.push(1);
        let mut row: Vec<usize> = Vec::new();
        row.push(1);
        row.push(half);
        proof {
            lemma_prod1(max_pos);
            lemma_prod2(max_pos, 1);
            lemma_prod1(half);
            lemma_prod2(1, half);
            assert(col@ =~= seq![max_pos, 1usize]);
            assert(row@ =~= seq![1usize, half]);
        }
        let pos2 = reshape_to(&posf, &col)?;
        let invf2 = reshape_to(&inv_freq, &row)?;
        proof {
            lemma_bc_outer(max_pos, half);
        }
        let freqs = bc_mul(&pos2, &invf2)?;
        assert(dims_of(freqs) =~= seq![max_pos, half]);
        let sin_cache = sin_t(&freqs)?;
        let cos_cache = cos_t(&freqs)?;
        Ok(RotaryPositionEncoder { sin_cache, cos_cache, rope_dim, half_dim: half, max_pos })
    }

    /// Builds the caches from an already-stretched `(rope_dim/2,)`
    /// frequency vector, as a non-linear scaling law produces; position
    /// `p` rotates by angle `p·freqᵢ`.
    pub fn new_with_inv_freq(
        inv_freq: &candle_core::Tensor,
        rope_dim: usize,
        max_pos: usize,
    ) -> (r: Result<RotaryPositionEncoder, ModelError>)
        ensures
            (r matches Ok(rp) ==> rp.wf() && rp.rope_dim == rope_dim && rp.max_pos == max_pos),
            ((r matches Err(e) && e is Configuration) <==> !rope_freq_args_ok(
                *inv_freq,
                rope_dim,
                max_pos,
            )),
            (r matches Err(e) ==> e is Configuration || e is Numeric),
    {
        let fd = dims_vec(inv_freq);
        if !(rope_dim >= 2 && rope_dim % 2 == 0 && rope_dim <= u32::MAX as usize && max_pos >= 1
            && max_pos <= u32::MAX as usize && fd.len() == 1 && fd[0] == rope_dim / 2) {
            proof {
                if dims_of(*inv_freq) == seq![(rope_dim / 2) as usize] {
                    assert(fd@.len() == 1);
                    assert(fd@[0] == rope_dim / 2);
                }
            }
            return Err(ModelError::Configuration);
        }
        assert(dims_of(*inv_freq) =~= seq![(rope_dim / 2) as usize]) by {
            assert(fd@ == dims_of(*inv_freq));
            assert(fd@.len() == 1 && fd@[0] == rope_dim / 2);
        }
        let half = rope_dim / 2;
        let pos = arange_u32(max_pos, inv_freq)?;
        let posf = to_dtype_t(&pos, dtype_f32())?;
        let mut col: Vec<usize> = Vec::new();
        col.push(max_pos);
        col.push(1);
        let mut row: Vec<usize> = Vec::new();
        row.push(1);
        row.push(half);
        proof {
            lemma_prod1(max_pos);
            lemma_prod2(max_pos, 1);
            lemma_prod1(half);
            lemma_prod2(1, half);
            assert(col@ =~= seq![max_pos, 1usize]);
            assert(row@ =~= seq![1usize, half]);
            assert(dims_of(*inv_freq) =~= seq![half]);
        }
        let pos2 = reshape_to(&posf, &col)?;
        let invf2 = reshape_to(inv_freq, &row)?;
        proof {
            lemma_bc_outer(max_pos, half);
        }
        let freqs = bc_mul(&pos2, &invf2)?;
        assert(dims_of(freqs) =~= seq![max_pos, half]);
        let sin_cache = sin_t(&freqs)?;
        let cos_cache = cos_t(&freqs)?;
        Ok(RotaryPositionEncoder { sin_cache, cos_cache, rope_dim, half_dim: half, max_pos })
    }

    /// Half-split rotation of a `(b, heads, s, rope_dim)` slice by the
    /// `(s, half_dim)` angle tables.
    fn rotate(
        &self,
        x: &candle_core::Tensor,
        cos: &candle_core::Tensor,
        sin: &candle_core::Tensor,
    ) -> (r: Result<candle_core::Tensor, ModelError>)
        requires
            self.wf(),
            dims_of(*x).len() == 4,
            dims_of(*x)[3] == self.rope_dim,
            dims_of(*cos) == seq![dims_of(*x)[2], self.half_dim],
            dims_of(*sin) == seq![dims_of(*x)[2], self.half_dim],
        ensures
            (r matches Ok(y) ==> dims_of(y) == dims_of(*x)),
            (r matches Err(e) ==> e is Numeric),
    {
        let half = self.half_dim;
        let x1 = narrow_t(x, 3, 0, half)?;
        let x2 = narrow_t(x, 3, half, half)?;
        proof {
            lemma_bc_suffix(dims_of(x1), dims_of(*cos));
            lemma_bc_suffix(dims_of(x2), dims_of(*sin));
            lemma_bc_suffix(dims_of(x2), dims_of(*cos));
            lemma_bc_suffix(dims_of(x1), dims_of(*sin));
        }
        let t1 = bc_mul(&x1, cos)?;
        let t2 = bc_mul(&x2, sin)?;
        proof {
            lemma_bc_suffix(dims_of(t1), dims_of(t2));
        }
        let p1 = bc_sub(&t1, &t2)?;
        let t3 = bc_mul(&x2, cos)?;
        let t4 = bc_mul(&x1, sin)?;
        proof {
            lemma_bc_suffix(dims_of(t3), dims_of(t4));
        }
        let p2 = bc_add(&t3, &t4)?;
        let mut parts: Vec<candle_core::Tensor> = Vec::new();
        let ghost gp1 = p1;
        let ghost gp2 = p2;
        parts.push(p1);
        parts.push(p2);
        proof {
            assert(parts@ =~= seq![gp1, gp2]);
            lemma_cat_extent_pair(gp1, gp2, 3);
        }
        let out = cat_dim(&parts, 3)?;
        assert(dims_of(out) =~= dims_of(*x));
        Ok(out)
    }

    /// Rotates the query-rope `(b, heads, s, rope_dim)` and key-rope
    /// `(b, 1, s, rope_dim)` slices, batch element `i` starting at angle
    /// position `offsets[i]`.
    pub fn forward(
        &self,
        q_pe: &candle_core::Tensor,
        k_pe: &candle_core::Tensor,
        offsets: &Vec<usize>,
    ) -> (r: Result<(candle_core::Tensor, candle_core::Tensor), ModelError>)
        requires
            self.wf(),
            dims_of(*q_pe).len() == 4,
            dims_of(*k_pe).len() == 4,
            dims_of(*q_pe)[0] >= 1,
            dims_of(*q_pe)[3] == self.rope_dim,
            dims_of(*k_pe)[0] == dims_of(*q_pe)[0],
            dims_of(*k_pe)[1] == 1,
            dims_of(*k_pe)[2] == dims_of(*q_pe)[2],
            dims_of(*k_pe)[3] == self.rope_dim,
            offsets@.len() == dims_of(*q_pe)[0],
            forall|i: int|
                0 <= i < offsets@.len() ==> #[trigger] (offsets@[i] + dims_of(*q_pe)[2])
                    <= self.max_pos,
        ensures
            (r matches Ok(y) ==> dims_of(y.0) == dims_of(*q_pe) && dims_of(y.1) == dims_of(
                *k_pe,
            )),
            (r matches Err(e) ==> e is Numeric),
    {
        let b = dims_vec(q_pe)[0];
        let s = dims_vec(q_pe)[2];
        let mut qs: Vec<candle_core::Tensor> = Vec::new();
        let mut ks: Vec<candle_core::Tensor> = Vec::new();
        let mut i: usize = 0;
        while i < b
            invariant
                self.wf(),
                dims_of(*q_pe).len() == 4,
                dims_of(*k_pe).len() == 4,
                b == dims_of(*q_pe)[0],
                s == dims_of(*q_pe)[2],
                dims_of(*q_pe)[3] == self.rope_dim,
                dims_of(*k_pe)[0] == b,
                dims_of(*k_pe)[1] == 1,
                dims_of(*k_pe)[2] == s,
                dims_of(*k_pe)[3] == self.rope_dim,
                offsets@.len() == b,
                forall|a: int|
                    0 <= a < offsets@.len() ==> #[trigger] (offsets@[a] + s) <= self.max_pos,
                i <= b,
                qs@.len() == i,
                ks@.len() == i,
                forall|a: int|
                    0 <= a < i ==> #[trigger] dims_of(qs@[a]) == dims_of(*q_pe).update(0, 1usize),
                forall|a: int|
                    0 <= a < i ==> #[trigger] dims_of(ks@[a]) == dims_of(*k_pe).update(0, 1usize),
            decreases b - i,
        {
            let qb = narrow_t(q_pe, 0, i, 1)?;
            let kb = narrow_t(k_pe, 0, i, 1)?;
            let off = offsets[i];
            let cos_i = narrow_t(&self.cos_cache, 0, off, s)?;
            let sin_i = narrow_t(&self.sin_cache, 0, off, s)?;
            assert(dims_of(cos_i) =~= seq![s, self.half_dim]);
            assert(dims_of(sin_i) =~= seq![s, self.half_dim]);
            assert(dims_of(qb)[2] == s && dims_of(kb)[2] == s);
            let rq = self.rotate(&qb, &cos_i, &sin_i)?;
            let rk = self.rotate(&kb, &cos_i, &sin_i)?;
            qs.push(rq);
            ks.push(rk);
            i += 1;
        }
        proof {
            lemma_cat_extent_ones(qs@, 0);
            lemma_cat_extent_ones(ks@, 0);
        }
        let q_out = cat_dim(&qs, 0)?;
        let k_out = cat_dim(&ks, 0)?;
        assert(dims_of(q_out) =~= dims_of(*q_pe));
        assert(dims_of(k_out) =~= dims_of(*k_pe));
        Ok((q_out, k_out))
    }
}

} // verus!
