//! One decoder layer: pre-norm attention with a residual add, then a
//! pre-norm feed-forward block — dense or mixture-of-experts, fixed at
//! construction — with a second residual add.

use vstd::prelude::*;

use crate::attention::{mask_fits, Attention, KvCache, PagedAttentionBackend};
use crate::err::ModelError;
use crate::moe::{bank_input_ok, ExpertBank, FeedForward};
use crate::projection::{Projection, RmsNorm};
use crate::shape::lemma_bc_suffix;
use crate::tensor::{bc_add, dims_of};

verus! {

/// The feed-forward half of a layer: either the sparsely-routed expert
/// bank or the dense block.  Chosen once per layer index, never
/// re-evaluated per call.
pub enum MoeOrMlp<P: Projection> {
    Moe(ExpertBank<P>),
    Mlp(FeedForward<P>),
}

impl<P: Projection> MoeOrMlp<P> {
    /// Well-formed, reading and writing the model width `hidden`.
    pub open spec fn wf(&self, hidden: usize) -> bool {
        match self {
            MoeOrMlp::Moe(m) => m.wf() && m.hidden() == hidden,
            MoeOrMlp::Mlp(f) => f.wf() && f.width_in() == hidden && f.width_out() == hidden,
        }
    }

    /// Applies the chosen block; the shape is kept.
    pub fn forward(&self, xs: &candle_core::Tensor, hidden: usize) -> (r: Result<
        candle_core::Tensor,
        ModelError,
    >)
        requires
            self.wf(hidden),
            bank_input_ok(dims_of(*xs), hidden),
        ensures
            (r matches Ok(y) ==> dims_of(y) == dims_of(*xs)),
            (r matches Err(e) ==> e is Numeric),
    {
        match self {
            MoeOrMlp::Mlp(f) => {
                let y = f.forward(xs)?;
                assert(dims_of(y) =~= dims_of(*xs));
                Ok(y)
            },
            MoeOrMlp::Moe(m) => {
                let y = m.forward(xs)?;
                Ok(y)
            },
        }
    }
}

/// What `DecoderLayer::new` accepts: both normalisers read the
/// attention block's model width.
pub open spec fn layer_parts_ok<P: Projection, B: PagedAttentionBackend>(
    input_layernorm: RmsNorm,
    post_attention_layernorm: RmsNorm,
    attn: Attention<P, B>,
) -> bool {
    &&& input_layernorm.norm_dim() == attn.cfg.hidden_size
    &&& post_attention_layernorm.norm_dim() == attn.cfg.hidden_size
}

/// One decoder layer.
pub struct DecoderLayer<P: Projection, B: PagedAttentionBackend> {
    pub input_layernorm: RmsNorm,
    pub post_attention_layernorm: RmsNorm,
    pub attn: Attention<P, B>,
    pub moe_or_mlp: MoeOrMlp<P>,
}

impl<P: Projection, B: PagedAttentionBackend> DecoderLayer<P, B> {
    /// Model width of the layer.
    pub open spec fn hidden(&self) -> usize {
        self.attn.cfg.hidden_size
    }

    pub open spec fn wf(&self) -> bool {
        &&& self.attn.wf()
        &&& self.input_layernorm.wf()
        &&& self.input_layernorm.norm_dim() == self.hidden()
        &&& self.post_attention_layernorm.wf()
        &&& self.post_attention_layernorm.norm_dim() == self.hidden()
        &&& self.moe_or_mlp.wf(self.hidden())
    }

    /// Assembles the layer, rejecting normalisers of the wrong width.
    pub fn new(
        input_layernorm: RmsNorm,
        post_attention_layernorm: RmsNorm,
        attn: Attention<P, B>,
        moe_or_mlp: MoeOrMlp<P>,
    ) -> (r: Result<DecoderLayer<P, B>, ModelError>)
        requires
            attn.wf(),
            input_layernorm.wf(),
            post_attention_layernorm.wf(),
            moe_or_mlp.wf(attn.cfg.hidden_size),
        ensures
            (r is Ok <==> layer_parts_ok(input_layernorm, post_attention_layernorm, attn)),
            (r matches Ok(l) ==> {
                &&& l.wf()
                &&& l.input_layernorm == input_layernorm
                &&& l.post_attention_layernorm == post_attention_layernorm
                &&& l.attn == attn
                &&& l.moe_or_mlp == moe_or_mlp
            }),
            (r matches Err(e) ==> e is Configuration),
    {
        if input_layernorm.dim() != attn.cfg.hidden_size || post_attention_layernorm.dim()
            != attn.cfg.hidden_size {
            return Err(ModelError::Configuration);
        }
        Ok(DecoderLayer { input_layernorm, post_attention_layernorm, attn, moe_or_mlp })
    }

    /// One pass: `x + attn(norm₁(x))`, then `y + ffn(norm₂(y))`.
    pub fn forward(
        &self,
        xs: &candle_core::Tensor,
        attention_mask: Option<&candle_core::Tensor>,
        seqlen_offsets: &Vec<usize>,
        kv_cache: &mut KvCache,
        metadata: Option<((&candle_core::Tensor, &candle_core::Tensor), &B::Meta)>,
    ) -> (r: Result<candle_core::Tensor, ModelError>)
        requires
            self.wf(),
            bank_input_ok(dims_of(*xs), self.hidden()),
            seqlen_offsets@.len() == dims_of(*xs)[0],
            forall|i: int|
                0 <= i < seqlen_offsets@.len() ==> #[trigger] (seqlen_offsets@[i] + dims_of(
                    *xs,
                )[1]) <= self.attn.cfg.max_position_embeddings,
            (self.attn.paged_attn is None ==> {
                &&& old(kv_cache).shape_wf(
                    dims_of(*xs)[0],
                    self.attn.cfg.num_attention_heads,
                    self.attn.q_head_dim,
                    self.attn.cfg.v_head_dim,
                )
                &&& old(kv_cache).cached_len() + dims_of(*xs)[1] <= usize::MAX
                &&& (attention_mask matches Some(m) ==> mask_fits(
                    seq![
                        dims_of(*xs)[0],
                        self.attn.cfg.num_attention_heads,
                        dims_of(*xs)[1],
                        (old(kv_cache).cached_len() + dims_of(*xs)[1]) as usize,
                    ],
                    dims_of(*m),
                ))
            }),
            (self.attn.paged_attn is Some ==> {
                &&& (metadata is None ==> attention_mask is Some)
                &&& (attention_mask matches Some(m) ==> mask_fits(
                    seq![
                        dims_of(*xs)[0],
                        self.attn.cfg.num_attention_heads,
                        dims_of(*xs)[1],
                        dims_of(*xs)[1],
                    ],
                    dims_of(*m),
                ))
            }),
        ensures
            (r matches Ok(y) ==> dims_of(y) == dims_of(*xs)),
            (r matches Err(e) ==> e is Numeric),
            (self.attn.paged_attn is Some ==> *final (kv_cache) == *old(kv_cache)),
            (self.attn.paged_attn is None ==> final (kv_cache).shape_wf(
                dims_of(*xs)[0],
                self.attn.cfg.num_attention_heads,
                self.attn.q_head_dim,
                self.attn.cfg.v_head_dim,
            )),
            (self.attn.paged_attn is None && r is Ok ==> final (kv_cache).cached_len() == old(
                kv_cache,
            ).cached_len() + dims_of(*xs)[1]),
    {
        let h1 = self.input_layernorm.forward(xs)?;
        let h2 = self.attn.forward(&h1, attention_mask, seqlen_offsets, kv_cache, metadata)?;
        proof {
            lemma_bc_suffix(dims_of(h2), dims_of(*xs));
        }
        let x2 = bc_add(&h2, xs)?;
        assert(dims_of(x2) =~= dims_of(*xs));
        let h3 = self.post_attention_layernorm.forward(&x2)?;
        let h4 = self.moe_or_mlp.forward(&h3, self.attn.cfg.hidden_size)?;
        proof {
            lemma_bc_suffix(dims_of(x2), dims_of(h4));
        }
        let out = bc_add(&x2, &h4)?;
        assert(dims_of(out) =~= dims_of(*xs));
        Ok(out)
    }
}

} // verus!
