//! Multi-head latent attention: rank-reduced query/key/value projection,
//! decoupled rotary encoding, and two mutually exclusive execution
//! backends (incremental KV cache, paged).

use vstd::prelude::*;

use crate::config::{cfg_wf, q_head_dim_spec, DeepSeekV3Config};
use crate::err::ModelError;
use crate::projection::{Projection, RmsNorm};
use crate::rope::RotaryPositionEncoder;
use crate::shape::{
    broadcast_shape, broadcastable, lemma_bc_suffix, lemma_prod3, lemma_prod4,
};
use crate::tensor::{
    bc_add, bc_mul, cat_dim, cat_extent, clone_tensor, contiguous_t, dims_of, dims_vec, lemma_cat_extent_pair,
    matmul_t, narrow_t, pad_last_zeros, repeat_t, reshape_to, scalar_u32, slice_assign4_last,
    softmax_last_dim_t, sqrt_t, to_dtype_t, dtype_f32, recip_t, transpose_t, zeros_shaped,
};

verus! {

/// Softmax attention over `(batch, heads, query_len, width)` queries and
/// `(batch, heads, key_len, width)` keys/values: softmax of the scaled,
/// optionally masked score matrix applied to the values.
pub fn scaled_dot_product_attention(
    q: &candle_core::Tensor,
    k: &candle_core::Tensor,
    v: &candle_core::Tensor,
    mask: Option<&candle_core::Tensor>,
    scale: &candle_core::Tensor,
) -> (r: Result<candle_core::Tensor, ModelError>)
    requires
        dims_of(*q).len() == 4,
        dims_of(*k).len() == 4,
        dims_of(*v).len() == 4,
        dims_of(*k)[0] == dims_of(*q)[0],
        dims_of(*k)[1] == dims_of(*q)[1],
        dims_of(*k)[3] == dims_of(*q)[3],
        dims_of(*k)[2] >= 1,
        dims_of(*v)[0] == dims_of(*k)[0],
        dims_of(*v)[1] == dims_of(*k)[1],
        dims_of(*v)[2] == dims_of(*k)[2],
        dims_of(*scale).len() == 0,
        (mask matches Some(m) ==> {
            let att = seq![dims_of(*q)[0], dims_of(*q)[1], dims_of(*q)[2], dims_of(*k)[2]];
            broadcastable(att, dims_of(*m)) && broadcast_shape(att, dims_of(*m)) =~= att
        }),
    ensures
        (r matches Ok(y) ==> dims_of(y) == seq![
            dims_of(*q)[0],
            dims_of(*q)[1],
            dims_of(*q)[2],
            dims_of(*v)[3],
        ]),
        (r matches Err(e) ==> e is Numeric),
{
    let kt = transpose_t(k, 2, 3)?;
    assert(dims_of(kt) =~= seq![dims_of(*k)[0], dims_of(*k)[1], dims_of(*k)[3], dims_of(*k)[2]]);
    let att = matmul_t(q, &kt)?;
    assert(dims_of(att) =~= seq![dims_of(*q)[0], dims_of(*q)[1], dims_of(*q)[2], dims_of(*k)[2]]);
    proof {
        lemma_bc_suffix(dims_of(att), dims_of(*scale));
    }
    let att = bc_mul(&att, scale)?;
    let att = match mask {
        Some(m) => {
            let masked = bc_add(&att, m)?;
            assert(dims_of(masked) =~= dims_of(att));
            masked
        },
        None => att,
    };
    let att = softmax_last_dim_t(&att)?;
    let out = matmul_t(&att, v)?;
    assert(dims_of(out) =~= seq![dims_of(*q)[0], dims_of(*q)[1], dims_of(*q)[2], dims_of(*v)[3]]);
    Ok(out)
}

/// The query path: a single projection, or a rank-reduced pair with an
/// intermediate normalisation.  Fixed at construction, matched
/// exhaustively at forward time.
pub enum QueryProjection<P: Projection> {
    Direct(P),
    LowRank { down: P, norm: RmsNorm, up: P },
}

impl<P: Projection> QueryProjection<P> {
    pub open spec fn wf(&self) -> bool {
        match self {
            QueryProjection::Direct(p) => p.proj_wf(),
            QueryProjection::LowRank { down, norm, up } => {
                &&& down.proj_wf()
                &&& norm.wf()
                &&& up.proj_wf()
                &&& norm.norm_dim() == down.out_dim()
                &&& up.in_dim() == down.out_dim()
            },
        }
    }

    /// Width consumed.
    pub open spec fn q_in(&self) -> usize {
        match self {
            QueryProjection::Direct(p) => p.in_dim(),
            QueryProjection::LowRank { down, .. } => down.in_dim(),
        }
    }

    /// Width produced.
    pub open spec fn q_out(&self) -> usize {
        match self {
            QueryProjection::Direct(p) => p.out_dim(),
            QueryProjection::LowRank { up, .. } => up.out_dim(),
        }
    }

    /// The variant follows the optional low-rank setting: a direct
    /// projection exactly when no rank is configured, a rank-reduced
    /// pair whose inner width is the configured rank otherwise.
    pub open spec fn matches_lora(&self, q_lora_rank: Option<usize>) -> bool {
        match self {
            QueryProjection::Direct(_) => q_lora_rank is None,
            QueryProjection::LowRank { down, .. } => {
                q_lora_rank matches Some(rank) && down.out_dim() == rank
            },
        }
    }

    /// Runtime check of `matches_lora`.
    pub fn check_lora(&self, q_lora_rank: Option<usize>) -> (r: bool)
        requires
            self.wf(),
        ensures
            r == self.matches_lora(q_lora_rank),
    {
        match (self, q_lora_rank) {
            (QueryProjection::Direct(_), None) => true,
            (QueryProjection::LowRank { down, .. }, Some(rank)) => down.out_features() == rank,
            _ => false,
        }
    }

    /// Runtime view of `q_in`.
    pub fn in_features(&self) -> (r: usize)
        requires
            self.wf(),
        ensures
            r == self.q_in(),
    {
        match self {
            QueryProjection::Direct(p) => p.in_features(),
            QueryProjection::LowRank { down, .. } => down.in_features(),
        }
    }

    /// Runtime view of `q_out`.
    pub fn out_features(&self) -> (r: usize)
        requires
            self.wf(),
        ensures
            r == self.q_out(),
    {
        match self {
            QueryProjection::Direct(p) => p.out_features(),
            QueryProjection::LowRank { up, .. } => up.out_features(),
        }
    }

    /// Applies the active variant to the last axis.
    pub fn forward(&self, xs: &candle_core::Tensor) -> (r: Result<candle_core::Tensor, ModelError>)
        requires
            self.wf(),
            dims_of(*xs).len() >= 2,
            dims_of(*xs)[dims_of(*xs).len() - 1] == self.q_in(),
        ensures
            (r matches Ok(y) ==> dims_of(y) == dims_of(*xs).update(
                dims_of(*xs).len() - 1,
                self.q_out(),
            )),
            (r matches Err(e) ==> e is Numeric),
    {
        match self {
            QueryProjection::Direct(p) => p.forward_autocast(xs),
            QueryProjection::LowRank { down, norm, up } => {
                let a = down.forward_autocast(xs)?;
                let n = norm.forward(&a)?;
                up.forward_autocast(&n)
            },
        }
    }
}

/// Incremental per-layer key/value cache: `append` accumulates along the
/// sequence axis and hands back the full history.
pub struct KvCache {
    pub kv: Option<(candle_core::Tensor, candle_core::Tensor)>,
}

impl KvCache {
    /// Number of cached positions.
    pub open spec fn cached_len(&self) -> int {
        match self.kv {
            Some(p) => dims_of(p.0)[2] as int,
            None => 0,
        }
    }

    /// The cached keys are `(b, heads, len, dk)` and the cached values
    /// `(b, heads, len, dv)`.
    pub open spec fn shape_wf(&self, b: usize, heads: usize, dk: usize, dv: usize) -> bool {
        match self.kv {
            None => true,
            Some(p) => {
                &&& dims_of(p.0).len() == 4
                &&& dims_of(p.0)[0] == b
                &&& dims_of(p.0)[1] == heads
                &&& dims_of(p.0)[3] == dk
                &&& dims_of(p.1) == dims_of(p.0).update(3, dv)
            },
        }
    }

    /// An empty cache.
    pub fn new() -> (r: KvCache)
        ensures
            r.cached_len() == 0,
            forall|b: usize, heads: usize, dk: usize, dv: usize| r.shape_wf(b, heads, dk, dv),
    {
        KvCache { kv: None }
    }

    /// Appends one step of keys/values and returns the full accumulated
    /// keys and values.
    pub fn append(
        &mut self,
        k: &candle_core::Tensor,
        v: &candle_core::Tensor,
    ) -> (r: Result<(candle_core::Tensor, candle_core::Tensor), ModelError>)
        requires
            dims_of(*k).len() == 4,
            dims_of(*v) == dims_of(*k).update(3, dims_of(*v)[3]),
            old(self).shape_wf(
                dims_of(*k)[0],
                dims_of(*k)[1],
                dims_of(*k)[3],
                dims_of(*v)[3],
            ),
            old(self).cached_len() + dims_of(*k)[2] <= usize::MAX,
        ensures
            (r matches Ok(y) ==> {
                &&& dims_of(y.0) == dims_of(*k).update(
                    2,
                    (old(self).cached_len() + dims_of(*k)[2]) as usize,
                )
                &&& dims_of(y.1) == dims_of(*v).update(
                    2,
                    (old(self).cached_len() + dims_of(*k)[2]) as usize,
                )
                &&& final (self).shape_wf(
                    dims_of(*k)[0],
                    dims_of(*k)[1],
                    dims_of(*k)[3],
                    dims_of(*v)[3],
                )
                &&& final (self).cached_len() == old(self).cached_len() + dims_of(*k)[2]
            }),
            (r matches Err(e) ==> e is Numeric && *final (self) == *old(self)),
    {
        match &self.kv {
            None => {
                let nk = clone_tensor(k);
                let nv = clone_tensor(v);
                let sk = clone_tensor(&nk);
                let sv = clone_tensor(&nv);
                self.kv = Some((sk, sv));
                assert(dims_of(nk) =~= dims_of(*k).update(2, dims_of(*k)[2]));
                assert(dims_of(nv) =~= dims_of(*v).update(2, dims_of(*k)[2]));
                assert(self.shape_wf(
                    dims_of(*k)[0],
                    dims_of(*k)[1],
                    dims_of(*k)[3],
                    dims_of(*v)[3],
                )) by {
                    assert(dims_of(sv) =~= dims_of(sk).update(3, dims_of(*v)[3]));
                }
                Ok((nk, nv))
            },
            Some(p) => {
                let mut kparts: Vec<candle_core::Tensor> = Vec::new();
                let ghost gck = p.0;
                let ghost gk = *k;
                kparts.push(clone_tensor(&p.0));
                kparts.push(clone_tensor(k));
                proof {
                    assert(dims_of(kparts@[0]) == dims_of(gck));
                    assert(dims_of(kparts@[1]) == dims_of(gk));
                    lemma_cat_extent_pair(kparts@[0], kparts@[1], 2);
                    assert(kparts@.skip(1) =~= seq![kparts@[1]]);
                    assert(cat_extent(kparts@, 2) == cat_extent(seq![kparts@[0], kparts@[1]], 2))
                        by {
                        assert(kparts@ =~= seq![kparts@[0], kparts@[1]]);
                    }
                }
                let nk = cat_dim(&kparts, 2)?;
                let mut vparts: Vec<candle_core::Tensor> = Vec::new();
                let ghost gcv = p.1;
                let ghost gv = *v;
                vparts.push(clone_tensor(&p.1));
                vparts.push(clone_tensor(v));
                proof {
                    assert(dims_of(vparts@[0]) == dims_of(gcv));
                    assert(dims_of(vparts@[1]) == dims_of(gv));
                    assert(vparts@ =~= seq![vparts@[0], vparts@[1]]);
                    lemma_cat_extent_pair(vparts@[0], vparts@[1], 2);
                }
                let nv = cat_dim(&vparts, 2)?;
                assert(dims_of(nk) =~= dims_of(*k).update(
                    2,
                    (old(self).cached_len() + dims_of(*k)[2]) as usize,
                ));
                assert(dims_of(nv) =~= dims_of(*v).update(
                    2,
                    (old(self).cached_len() + dims_of(*k)[2]) as usize,
                ));
                let sk = clone_tensor(&nk);
                let sv = clone_tensor(&nv);
                self.kv = Some((sk, sv));
                assert(self.shape_wf(
                    dims_of(*k)[0],
                    dims_of(*k)[1],
                    dims_of(*k)[3],
                    dims_of(*v)[3],
                )) by {
                    assert(dims_of(sv) =~= dims_of(sk).update(3, dims_of(*v)[3]));
                }
                Ok((nk, nv))
            },
        }
    }
}

/// The mask broadcasts onto the score matrix without changing its shape.
pub open spec fn mask_fits(att: Seq<usize>, m: Seq<usize>) -> bool {
    broadcastable(att, m) && broadcast_shape(att, m) =~= att
}

/// Externally-owned paged-attention backend: reads and writes key/value
/// state through block tables and metadata instead of the incremental
/// cache.  `ReferencePagedBackend` is the library's own dense reference
/// implementation; kernel-backed implementations can be supplied by an
/// embedding application.
pub trait PagedAttentionBackend: Sized {
    type Meta;

    spec fn backend_wf(&self) -> bool;

    /// One attention pass over uniform-width `(b, heads, s, d)` query,
    /// key and value tensors (the value zero-padded to width `d` by the
    /// caller); the result has the query's shape.
    fn forward(
        &self,
        q: &candle_core::Tensor,
        k: &candle_core::Tensor,
        v: &candle_core::Tensor,
        mask: Option<&candle_core::Tensor>,
        kv_pair: Option<(&candle_core::Tensor, &candle_core::Tensor)>,
        meta: &Self::Meta,
    ) -> (r: Result<candle_core::Tensor, ModelError>)
        requires
            self.backend_wf(),
            dims_of(*q).len() == 4,
            dims_of(*q)[2] >= 1,
            dims_of(*k) == dims_of(*q),
            dims_of(*v) == dims_of(*q),
            (mask matches Some(m) ==> mask_fits(
                seq![dims_of(*q)[0], dims_of(*q)[1], dims_of(*q)[2], dims_of(*q)[2]],
                dims_of(*m),
            )),
        ensures
            (r matches Ok(y) ==> dims_of(y) == dims_of(*q)),
            (r matches Err(e) ==> e is Numeric),
    ;

    /// Empty metadata for a statistics-only pass over a prompt.
    fn dummy_meta(&self, like: &candle_core::Tensor) -> (r: Result<Self::Meta, ModelError>)
        ensures
            (r matches Err(e) ==> e is Numeric),
    ;
}

/// Dense reference implementation of the paged backend: attends within
/// the handed query/key/value block, ignoring block tables — the
/// semantics of a prompt-only (dummy-metadata) pass.
pub struct ReferencePagedBackend {
    /// Scalar softmax scale.
    pub scale: candle_core::Tensor,
}

impl PagedAttentionBackend for ReferencePagedBackend {
    type Meta = ();

    open spec fn backend_wf(&self) -> bool {
        dims_of(self.scale).len() == 0
    }

    fn forward(
        &self,
        q: &candle_core::Tensor,
        k: &candle_core::Tensor,
        v: &candle_core::Tensor,
        mask: Option<&candle_core::Tensor>,
        kv_pair: Option<(&candle_core::Tensor, &candle_core::Tensor)>,
        meta: &(),
    ) -> (r: Result<candle_core::Tensor, ModelError>) {
        let out = scaled_dot_product_attention(q, k, v, mask, &self.scale)?;
        assert(dims_of(out) =~= dims_of(*q));
        Ok(out)
    }

    fn dummy_meta(&self, like: &candle_core::Tensor) -> (r: Result<(), ModelError>) {
        Ok(())
    }
}

/// What `softmax_scale_tensor` accepts: a positive per-head width in
/// index range, and a scalar mscale factor if one is supplied.
pub open spec fn scale_args_ok(q_head_dim: usize, mscale: Option<candle_core::Tensor>) -> bool {
    &&& 1 <= q_head_dim <= u32::MAX
    &&& (mscale matches Some(m) ==> dims_of(m).len() == 0)
}

/// The scalar softmax scale `1/√q_head_dim`, multiplied by `mscale²`
/// when a frequency-scaling law supplies an mscale factor.
pub fn softmax_scale_tensor(
    q_head_dim: usize,
    mscale: Option<&candle_core::Tensor>,
    like: &candle_core::Tensor,
) -> (r: Result<candle_core::Tensor, ModelError>)
    ensures
        (r matches Ok(y) ==> dims_of(y).len() == 0),
        ((r matches Err(e) && e is Configuration) <==> !scale_args_ok(
            q_head_dim,
            match mscale {
                Some(m) => Some(*m),
                None => None,
            },
        )),
        (r matches Err(e) ==> e is Configuration || e is Numeric),
{
    if q_head_dim < 1 || q_head_dim > u32::MAX as usize {
        return Err(ModelError::Configuration);
    }
    if let Some(m) = mscale {
        let md = dims_vec(m);
        if md.len() != 0 {
            return Err(ModelError::Configuration);
        }
    }
    let d = scalar_u32(q_head_dim as u32, like)?;
    let d = to_dtype_t(&d, dtype_f32())?;
    let rt = sqrt_t(&d)?;
    let base = recip_t(&rt)?;
    match mscale {
        Some(m) => {
            proof {
                lemma_bc_suffix(dims_of(base), dims_of(*m));
            }
            let s1 = bc_mul(&base, m)?;
            let s2 = bc_mul(&s1, m)?;
            Ok(s2)
        },
        None => Ok(base),
    }
}

/// What `Attention::new` accepts: a well-formed configuration with
/// every projection, the rotary encoder and the scalar scale sized to
/// it, and the query variant following `q_lora_rank`.
pub open spec fn attention_parts_ok<P: Projection>(
    cfg: DeepSeekV3Config,
    q: QueryProjection<P>,
    kv_a_proj_with_mqa: P,
    kv_a_layernorm: RmsNorm,
    kv_b_proj: P,
    o_proj: P,
    rotary_emb: RotaryPositionEncoder,
    softmax_scale: candle_core::Tensor,
) -> bool {
    &&& cfg_wf(cfg)
    &&& q.q_in() == cfg.hidden_size
    &&& q.q_out() as int == cfg.num_attention_heads as int * q_head_dim_spec(cfg)
    &&& q.matches_lora(cfg.q_lora_rank)
    &&& kv_a_proj_with_mqa.in_dim() == cfg.hidden_size
    &&& kv_a_proj_with_mqa.out_dim() as int == cfg.kv_lora_rank + cfg.qk_rope_head_dim
    &&& kv_a_layernorm.norm_dim() == cfg.kv_lora_rank
    &&& kv_b_proj.in_dim() == cfg.kv_lora_rank
    &&& kv_b_proj.out_dim() as int == cfg.num_attention_heads as int * (cfg.qk_nope_head_dim
        + cfg.v_head_dim)
    &&& o_proj.in_dim() as int == cfg.num_attention_heads as int * cfg.v_head_dim as int
    &&& o_proj.out_dim() == cfg.hidden_size
    &&& rotary_emb.rope_dim == cfg.qk_rope_head_dim
    &&& rotary_emb.max_pos == cfg.max_position_embeddings
    &&& dims_of(softmax_scale).len() == 0
}

/// The multi-head latent attention block.
pub struct Attention<P: Projection, B: PagedAttentionBackend> {
    pub q: QueryProjection<P>,
    pub kv_a_proj_with_mqa: P,
    pub kv_a_layernorm: RmsNorm,
    pub kv_b_proj: P,
    pub o_proj: P,
    pub rotary_emb: RotaryPositionEncoder,
    /// The paged backend; `None` selects the incremental-cache backend.
    /// Fixed and mutually exclusive for the lifetime of the instance.
    pub paged_attn: Option<B>,
    /// Scalar softmax scale, with any mscale² factor already folded in.
    pub softmax_scale: candle_core::Tensor,
    pub cfg: DeepSeekV3Config,
    pub q_head_dim: usize,
}

impl<P: Projection, B: PagedAttentionBackend> Attention<P, B> {
    pub open spec fn wf(&self) -> bool {
        &&& cfg_wf(self.cfg)
        &&& self.q_head_dim == q_head_dim_spec(self.cfg)
        &&& self.q.wf()
        &&& self.q.q_in() == self.cfg.hidden_size
        &&& self.q.q_out() as int == self.cfg.num_attention_heads as int * q_head_dim_spec(
            self.cfg,
        )
        &&& self.q.matches_lora(self.cfg.q_lora_rank)
        &&& self.kv_a_proj_with_mqa.proj_wf()
        &&& self.kv_a_proj_with_mqa.in_dim() == self.cfg.hidden_size
        &&& self.kv_a_proj_with_mqa.out_dim() as int == self.cfg.kv_lora_rank
            + self.cfg.qk_rope_head_dim
        &&& self.kv_a_layernorm.wf()
        &&& self.kv_a_layernorm.norm_dim() == self.cfg.kv_lora_rank
        &&& self.kv_b_proj.proj_wf()
        &&& self.kv_b_proj.in_dim() == self.cfg.kv_lora_rank
        &&& self.kv_b_proj.out_dim() as int == self.cfg.num_attention_heads as int * (
        self.cfg.qk_nope_head_dim + self.cfg.v_head_dim)
        &&& self.o_proj.proj_wf()
        &&& self.o_proj.in_dim() as int == self.cfg.num_attention_heads as int
            * self.cfg.v_head_dim as int
        &&& self.o_proj.out_dim() == self.cfg.hidden_size
        &&& self.rotary_emb.wf()
        &&& self.rotary_emb.rope_dim == self.cfg.qk_rope_head_dim
        &&& self.rotary_emb.max_pos == self.cfg.max_position_embeddings
        &&& (self.paged_attn matches Some(b) ==> b.backend_wf())
        &&& dims_of(self.softmax_scale).len() == 0
    }

    /// Assembles the block, rejecting any projection or cache width that
    /// does not fit the configuration: mismatched head or rank
    /// dimensions are a construction-time failure.
    pub fn new(
        cfg: &DeepSeekV3Config,
        q: QueryProjection<P>,
        kv_a_proj_with_mqa: P,
        kv_a_layernorm: RmsNorm,
        kv_b_proj: P,
        o_proj: P,
        rotary_emb: RotaryPositionEncoder,
        paged_attn: Option<B>,
        softmax_scale: candle_core::Tensor,
    ) -> (r: Result<Attention<P, B>, ModelError>)
        requires
            q.wf(),
            kv_a_proj_with_mqa.proj_wf(),
            kv_a_layernorm.wf(),
            kv_b_proj.proj_wf(),
            o_proj.proj_wf(),
            rotary_emb.wf(),
            (paged_attn matches Some(b) ==> b.backend_wf()),
        ensures
            (r is Ok <==> attention_parts_ok(
                *cfg,
                q,
                kv_a_proj_with_mqa,
                kv_a_layernorm,
                kv_b_proj,
                o_proj,
                rotary_emb,
                softmax_scale,
            )),
            (r matches Ok(a) ==> {
                &&& a.wf()
                &&& a.cfg == *cfg
                &&& a.q == q
                &&& a.kv_a_proj_with_mqa == kv_a_proj_with_mqa
                &&& a.kv_a_layernorm == kv_a_layernorm
                &&& a.kv_b_proj == kv_b_proj
                &&& a.o_proj == o_proj
                &&& a.rotary_emb == rotary_emb
                &&& a.paged_attn == paged_attn
                &&& a.softmax_scale == softmax_scale
                &&& a.q_head_dim == q_head_dim_spec(*cfg)
            }),
            (r matches Err(e) ==> e is Configuration),
    {
        if !cfg.validate() {
            return Err(ModelError::Configuration);
        }
        let qhd = cfg.q_head_dim();
        let heads = cfg.num_attention_heads;
        let q_width = match heads.checked_mul(qhd) {
            Some(w) => w,
            None => {
                return Err(ModelError::Configuration);
            },
        };
        if q.in_features() != cfg.hidden_size || q.out_features() != q_width {
            return Err(ModelError::Configuration);
        }
        if !q.check_lora(cfg.q_lora_rank) {
            return Err(ModelError::Configuration);
        }
        let kv_a_width = match cfg.kv_lora_rank.checked_add(cfg.qk_rope_head_dim) {
            Some(w) => w,
            None => {
                return Err(ModelError::Configuration);
            },
        };
        if kv_a_proj_with_mqa.in_features() != cfg.hidden_size || kv_a_proj_with_mqa.out_features()
            != kv_a_width {
            return Err(ModelError::Configuration);
        }
        if kv_a_layernorm.dim() != cfg.kv_lora_rank {
            return Err(ModelError::Configuration);
        }
        let nope_v = cfg.qk_nope_head_dim + cfg.v_head_dim;
        let kv_b_width = match heads.checked_mul(nope_v) {
            Some(w) => w,
            None => {
                return Err(ModelError::Configuration);
            },
        };
        if kv_b_proj.in_features() != cfg.kv_lora_rank || kv_b_proj.out_features() != kv_b_width {
            return Err(ModelError::Configuration);
        }
        let o_width = match heads.checked_mul(cfg.v_head_dim) {
            Some(w) => w,
            None => {
                return Err(ModelError::Configuration);
            },
        };
        if o_proj.in_features() != o_width || o_proj.out_features() != cfg.hidden_size {
            return Err(ModelError::Configuration);
        }
        if rotary_emb.rope_dim != cfg.qk_rope_head_dim || rotary_emb.max_pos
            != cfg.max_position_embeddings {
            return Err(ModelError::Configuration);
        }
        let sd = dims_vec(&softmax_scale);
        if sd.len() != 0 {
            return Err(ModelError::Configuration);
        }
        Ok(
            Attention {
                q,
                kv_a_proj_with_mqa,
                kv_a_layernorm,
                kv_b_proj,
                o_proj,
                rotary_emb,
                paged_attn,
                softmax_scale,
                cfg: *cfg,
                q_head_dim: qhd,
            },
        )
    }

    /// One attention pass over `(batch, seq, hidden)` hidden states.
    ///
    /// The backend fixed at construction runs: the incremental cache is
    /// appended to and attended over in full, or the paged backend is
    /// called on zero-padded values.  A paged call without metadata is a
    /// statistics-only pass and demands an explicit mask — that demand
    /// is a precondition, not a runtime case.
    #[verifier::rlimit(60)]
    pub fn forward(
        &self,
        xs: &candle_core::Tensor,
        attention_mask: Option<&candle_core::Tensor>,
        seqlen_offsets: &Vec<usize>,
        kv_cache: &mut KvCache,
        metadata: Option<((&candle_core::Tensor, &candle_core::Tensor), &B::Meta)>,
    ) -> (r: Result<candle_core::Tensor, ModelError>)
        requires
            self.wf(),
            dims_of(*xs).len() == 3,
            dims_of(*xs)[2] == self.cfg.hidden_size,
            dims_of(*xs)[0] >= 1,
            dims_of(*xs)[1] >= 1,
            seqlen_offsets@.len() == dims_of(*xs)[0],
            forall|i: int|
                0 <= i < seqlen_offsets@.len() ==> #[trigger] (seqlen_offsets@[i] + dims_of(
                    *xs,
                )[1]) <= self.cfg.max_position_embeddings,
            (self.paged_attn is None ==> {
                &&& old(kv_cache).shape_wf(
                    dims_of(*xs)[0],
                    self.cfg.num_attention_heads,
                    self.q_head_dim,
                    self.cfg.v_head_dim,
                )
                &&& old(kv_cache).cached_len() + dims_of(*xs)[1] <= usize::MAX
                &&& (attention_mask matches Some(m) ==> mask_fits(
                    seq![
                        dims_of(*xs)[0],
                        self.cfg.num_attention_heads,
                        dims_of(*xs)[1],
                        (old(kv_cache).cached_len() + dims_of(*xs)[1]) as usize,
                    ],
                    dims_of(*m),
                ))
            }),
            (self.paged_attn is Some ==> {
                &&& (metadata is None ==> attention_mask is Some)
                &&& (attention_mask matches Some(m) ==> mask_fits(
                    seq![
                        dims_of(*xs)[0],
                        self.cfg.num_attention_heads,
                        dims_of(*xs)[1],
                        dims_of(*xs)[1],
                    ],
                    dims_of(*m),
                ))
            }),
        ensures
            (r matches Ok(y) ==> dims_of(y) == dims_of(*xs)),
            (r matches Err(e) ==> e is Numeric),
            (self.paged_attn is Some ==> *final (kv_cache) == *old(kv_cache)),
            (self.paged_attn is None ==> final (kv_cache).shape_wf(
                dims_of(*xs)[0],
                self.cfg.num_attention_heads,
                self.q_head_dim,
                self.cfg.v_head_dim,
            )),
            (self.paged_attn is None && r is Ok ==> final (kv_cache).cached_len() == old(
                kv_cache,
            ).cached_len() + dims_of(*xs)[1]),
    {
        let xd = dims_vec(xs);
        let b = xd[0];
        let s = xd[1];
        let heads = self.cfg.num_attention_heads;
        let qhd = self.q_head_dim;
        let nope = self.cfg.qk_nope_head_dim;
        let rope = self.cfg.qk_rope_head_dim;
        let vh = self.cfg.v_head_dim;
        proof {
            assert(dims_of(*xs) =~= seq![b, s, self.cfg.hidden_size]);
        }

        // Query path: project, split heads, split rope from non-rope.
        let q1 = self.q.forward(xs)?;
        let mut qdims: Vec<usize> = Vec::new();
        qdims.push(b);
        qdims.push(s);
        qdims.push(heads);
        qdims.push(qhd);
        proof {
            assert(qdims@ =~= seq![b, s, heads, qhd]);
            lemma_prod4(b, s, heads, qhd);
            lemma_prod3(b, s, self.q.q_out());
            assert(dims_of(q1) =~= seq![b, s, self.q.q_out()]);
        }
        let q2 = reshape_to(&q1, &qdims)?;
        let q3 = transpose_t(&q2, 1, 2)?;
        assert(dims_of(q3) =~= seq![b, heads, s, qhd]);
        let q_nope = narrow_t(&q3, 3, 0, nope)?;
        let q_pe = narrow_t(&q3, 3, nope, rope)?;

        // Key/value path: one compressed projection, split into the
        // latent KV and the shared key-rope slice.
        let ckv = self.kv_a_proj_with_mqa.forward_autocast(xs)?;
        assert(dims_of(ckv) =~= seq![b, s, self.kv_a_proj_with_mqa.out_dim()]);
        let compressed = narrow_t(&ckv, 2, 0, self.cfg.kv_lora_rank)?;
        let k_pe0 = narrow_t(&ckv, 2, self.cfg.kv_lora_rank, rope)?;
        let mut kpe_dims: Vec<usize> = Vec::new();
        kpe_dims.push(b);
        kpe_dims.push(s);
        kpe_dims.push(1);
        kpe_dims.push(rope);
        proof {
            assert(kpe_dims@ =~= seq![b, s, 1usize, rope]);
            lemma_prod4(b, s, 1, rope);
            lemma_prod3(b, s, rope);
            assert(dims_of(k_pe0) =~= seq![b, s, rope]);
        }
        let k_pe1 = reshape_to(&k_pe0, &kpe_dims)?;
        let k_pe2 = transpose_t(&k_pe1, 1, 2)?;
        assert(dims_of(k_pe2) =~= seq![b, 1usize, s, rope]);

        let ckv_n = self.kv_a_layernorm.forward(&compressed)?;
        let kv = self.kv_b_proj.forward_autocast(&ckv_n)?;
        let nope_v = nope + vh;
        let mut kvdims: Vec<usize> = Vec::new();
        kvdims.push(b);
        kvdims.push(s);
        kvdims.push(heads);
        kvdims.push(nope_v);
        proof {
            assert(kvdims@ =~= seq![b, s, heads, nope_v]);
            lemma_prod4(b, s, heads, nope_v);
            lemma_prod3(b, s, self.kv_b_proj.out_dim());
            assert(dims_of(kv) =~= seq![b, s, self.kv_b_proj.out_dim()]);
        }
        let kv2 = reshape_to(&kv, &kvdims)?;
        let kv3 = transpose_t(&kv2, 1, 2)?;
        assert(dims_of(kv3) =~= seq![b, heads, s, nope_v]);
        let k_nope = narrow_t(&kv3, 3, 0, nope)?;
        let v = narrow_t(&kv3, 3, nope, vh)?;

        // Rotate the rope slices at each sequence's offset.
        let rotated = self.rotary_emb.forward(&q_pe, &k_pe2, seqlen_offsets)?;
        let q_pe = rotated.0;
        let k_pe = rotated.1;

        // Reassemble full-width query and key: non-rope and rotated
        // rope slices written into disjoint ranges; the head-shared
        // key-rope is broadcast across all heads.
        let mut full_dims: Vec<usize> = Vec::new();
        full_dims.push(b);
        full_dims.push(heads);
        full_dims.push(s);
        full_dims.push(qhd);
        assert(full_dims@ =~= seq![b, heads, s, qhd]);
        let zq = zeros_shaped(&q_pe, &full_dims)?;
        let q4 = slice_assign4_last(&zq, 0, &q_nope)?;
        let q5 = slice_assign4_last(&q4, nope, &q_pe)?;

        let zk = zeros_shaped(&k_pe, &full_dims)?;
        let k4 = slice_assign4_last(&zk, 0, &k_nope)?;
        let mut reps: Vec<usize> = Vec::new();
        reps.push(1);
        reps.push(heads);
        reps.push(1);
        reps.push(1);
        proof {
            assert(reps@ =~= seq![1usize, heads, 1usize, 1usize]);
            assert(dims_of(k_pe) =~= seq![b, 1usize, s, rope]);
            assert forall|i: int| 0 <= i < reps@.len() implies #[trigger] reps@[i] >= 1 by {
                assert(i == 0 || i == 1 || i == 2 || i == 3);
            }
            assert forall|i: int| 0 <= i < reps@.len() implies #[trigger] (dims_of(k_pe)[i]
                * reps@[i]) <= usize::MAX by {
                assert(i == 0 || i == 1 || i == 2 || i == 3);
                assert(dims_of(k_pe)[0] as int * reps@[0] as int == b);
                assert(dims_of(k_pe)[1] as int * reps@[1] as int == heads);
                assert(dims_of(k_pe)[2] as int * reps@[2] as int == s);
                assert(dims_of(k_pe)[3] as int * reps@[3] as int == rope);
            }
        }
        let k_rep = repeat_t(&k_pe, &reps)?;
        proof {
            assert(dims_of(k_pe)[0] as int * reps@[0] as int == b);
            assert(dims_of(k_pe)[1] as int * reps@[1] as int == heads);
            assert(dims_of(k_pe)[2] as int * reps@[2] as int == s);
            assert(dims_of(k_pe)[3] as int * reps@[3] as int == rope);
            assert(dims_of(k_rep) =~= seq![b, heads, s, rope]);
        }
        let k5 = slice_assign4_last(&k4, nope, &k_rep)?;
        assert(dims_of(q5) =~= seq![b, heads, s, qhd]);
        assert(dims_of(k5) =~= seq![b, heads, s, qhd]);

        // Attention execution: exactly one of the two backends.
        let attn_out = match &self.paged_attn {
            Some(pb) => {
                let v_pad = pad_last_zeros(&v, qhd - vh)?;
                assert(dims_of(v_pad) =~= seq![b, heads, s, qhd]);
                let v_pad = contiguous_t(&v_pad)?;
                let att = match metadata {
                    Some((kv_pair, meta)) => {
                        pb.forward(&q5, &k5, &v_pad, attention_mask, Some(kv_pair), meta)?
                    },
                    None => {
                        // Statistics-only pass: synthesize empty
                        // metadata; the precondition guarantees a mask.
                        let dummy = pb.dummy_meta(&q5)?;
                        pb.forward(&q5, &k5, &v_pad, attention_mask, None, &dummy)?
                    },
                };
                let narrowed = narrow_t(&att, 3, 0, vh)?;
                assert(dims_of(narrowed) =~= seq![b, heads, s, vh]);
                narrowed
            },
            None => {
                proof {
                    assert(dims_of(v) =~= dims_of(k5).update(3, dims_of(v)[3]));
                }
                let appended = kv_cache.append(&k5, &v)?;
                let kk = appended.0;
                let vv = appended.1;
                let att = scaled_dot_product_attention(
                    &q5,
                    &kk,
                    &vv,
                    attention_mask,
                    &self.softmax_scale,
                )?;
                assert(dims_of(att) =~= seq![b, heads, s, vh]);
                att
            },
        };

        // Back to (batch, seq, heads × v_head_dim), then the output
        // projection.
        let o_in = self.o_proj.in_features();
        let mut out_dims: Vec<usize> = Vec::new();
        out_dims.push(b);
        out_dims.push(s);
        out_dims.push(o_in);
        assert(out_dims@ =~= seq![b, s, o_in]);
        let resh = if attention_mask.is_some() {
            let t1 = transpose_t(&attn_out, 1, 2)?;
            assert(dims_of(t1) =~= seq![b, s, heads, vh]);
            proof {
                lemma_prod4(b, s, heads, vh);
                lemma_prod3(b, s, o_in);
            }
            reshape_to(&t1, &out_dims)?
        } else {
            proof {
                lemma_prod4(b, heads, s, vh);
                lemma_prod3(b, s, o_in);
                assert(heads as int * (s as int * vh as int) == s as int * (heads as int
                    * vh as int)) by (nonlinear_arith);
            }
            reshape_to(&attn_out, &out_dims)?
        };
        let out = self.o_proj.forward_autocast(&resh)?;
        assert(dims_of(out) =~= dims_of(*xs));
        Ok(out)
    }
}

} // verus!
