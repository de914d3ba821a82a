//! Per-model constants of the decoder layer and their well-formedness.
//!
//! The floating-point constants of a checkpoint (normalisation epsilon,
//! rope base frequency, routed scaling factor, mscale) are not held here:
//! they are carried as scalar tensors and handed to the constructors that
//! need them.

use vstd::prelude::*;

use vstd::arithmetic::div_mod::lemma_fundamental_div_mod;
use vstd::arithmetic::mul::lemma_mul_inequality;

verus! {

/// How the router picks `top_k` experts per token.
#[derive(Clone, Copy, PartialEq, Eq, Structural, Debug)]
pub enum TopkMethod {
    /// Bias-corrected, group-limited, auxiliary-loss-free selection.
    NoAuxTc,
    /// Unsorted top-k straight over the per-token scores.
    Greedy,
    /// Group-limited selection ranked by per-group maximum score.
    GroupLimitedGreedy,
}

/// How raw affinity scores become probabilities.
#[derive(Clone, Copy, PartialEq, Eq, Structural, Debug)]
pub enum ScoringFunc {
    Softmax,
    Sigmoid,
}

/// Immutable per-model constants.
#[derive(Clone, Copy, Debug)]
pub struct DeepSeekV3Config {
    pub vocab_size: usize,
    pub hidden_size: usize,
    pub intermediate_size: usize,
    pub moe_intermediate_size: usize,
    pub num_hidden_layers: usize,
    pub num_attention_heads: usize,
    pub n_shared_experts: Option<usize>,
    pub n_routed_experts: Option<usize>,
    pub topk_method: TopkMethod,
    pub num_experts_per_tok: Option<usize>,
    pub moe_layer_freq: usize,
    pub first_k_dense_replace: usize,
    pub norm_topk_prob: bool,
    pub scoring_func: ScoringFunc,
    pub max_position_embeddings: usize,
    pub q_lora_rank: Option<usize>,
    pub qk_rope_head_dim: usize,
    pub kv_lora_rank: usize,
    pub v_head_dim: usize,
    pub qk_nope_head_dim: usize,
    pub n_group: usize,
    pub topk_group: usize,
}

/// Full per-head query/key width: rotary plus non-rotary sub-dimensions.
pub open spec fn q_head_dim_spec(c: DeepSeekV3Config) -> int {
    c.qk_nope_head_dim + c.qk_rope_head_dim
}

/// The routing constants fit together: the group count divides the
/// expert count, the kept groups can host the requested `top_k`, and the
/// bias-corrected policy has at least two experts per group to score.
pub open spec fn moe_cfg_wf(c: DeepSeekV3Config) -> bool {
    c.n_routed_experts matches Some(e) ==> {
        &&& 1 <= e <= u32::MAX
        &&& c.n_group >= 1
        &&& e % c.n_group == 0
        &&& 1 <= c.topk_group <= c.n_group
        &&& c.num_experts_per_tok matches Some(k) && 1 <= k <= c.topk_group * (
            e as int / c.n_group as int)
        &&& (c.topk_method is NoAuxTc ==> e as int / c.n_group as int >= 2)
    }
}

/// Construction-time well-formedness of the whole configuration.
pub open spec fn cfg_wf(c: DeepSeekV3Config) -> bool {
    &&& c.vocab_size >= 1
    &&& c.hidden_size >= 1
    &&& c.intermediate_size >= 1
    &&& c.moe_intermediate_size >= 1
    &&& c.num_attention_heads >= 1
    &&& c.qk_nope_head_dim >= 1
    &&& c.qk_rope_head_dim >= 2
    &&& c.qk_rope_head_dim % 2 == 0
    &&& c.kv_lora_rank >= 1
    &&& 1 <= c.v_head_dim <= q_head_dim_spec(c)
    &&& c.moe_layer_freq >= 1
    &&& c.max_position_embeddings >= 1
    &&& (c.q_lora_rank matches Some(r) ==> r >= 1)
    &&& (c.n_shared_experts matches Some(s) ==> s >= 1)
    &&& q_head_dim_spec(c) + c.v_head_dim <= usize::MAX
    &&& moe_cfg_wf(c)
}

/// Consequences of the routing constraints: at least one expert per
/// group, and both the group count and the requested `top_k` bounded by
/// the expert count.
pub proof fn lemma_routing_bounds(e: usize, g: usize, tg: usize, k: usize)
    requires
        e >= 1,
        g >= 1,
        e % g == 0,
        1 <= tg <= g,
        1 <= k <= tg * (e as int / g as int),
    ensures
        e as int / g as int >= 1,
        g * (e as int / g as int) == e,
        k <= e,
        g <= e,
{
    lemma_fundamental_div_mod(e as int, g as int);
    let q = e as int / g as int;
    assert(e == g * q);
    assert(q <= 0 ==> g as int * q <= 0) by (nonlinear_arith)
        requires
            g >= 1,
    ;
    assert(q >= 1);
    assert(tg * q <= g * q) by (nonlinear_arith)
        requires
            1 <= tg <= g,
            q >= 1,
    ;
    assert(g <= g * q) by (nonlinear_arith)
        requires
            g >= 1,
            q >= 1,
    ;
}

impl DeepSeekV3Config {
    /// Full per-head query/key width.
    pub fn q_head_dim(&self) -> (r: usize)
        requires
            q_head_dim_spec(*self) <= usize::MAX,
        ensures
            r == q_head_dim_spec(*self),
    {
        self.qk_nope_head_dim + self.qk_rope_head_dim
    }

    /// Does the layer at `layer_idx` carry the expert bank rather than
    /// the dense feed-forward block?  Fixed at construction: experts are
    /// present, the index is past the dense prefix, and the index lies
    /// on the expert-layer stride.
    pub fn layer_uses_moe(&self, layer_idx: usize) -> (r: bool)
        requires
            self.moe_layer_freq >= 1,
        ensures
            r == (self.n_routed_experts is Some && layer_idx >= self.first_k_dense_replace
                && layer_idx as int % self.moe_layer_freq as int == 0),
    {
        self.n_routed_experts.is_some() && layer_idx >= self.first_k_dense_replace && layer_idx
            % self.moe_layer_freq == 0
    }

    /// Runtime check of `cfg_wf`; constructors reject a configuration
    /// for which this is false.
    pub fn validate(&self) -> (r: bool)
        ensures
            r == cfg_wf(*self),
    {
        let base = self.vocab_size >= 1 && self.hidden_size >= 1 && self.intermediate_size >= 1
            && self.moe_intermediate_size >= 1 && self.num_attention_heads >= 1
            && self.qk_nope_head_dim >= 1 && self.qk_rope_head_dim >= 2 && self.qk_rope_head_dim % 2
            == 0 && self.kv_lora_rank >= 1 && self.v_head_dim >= 1 && self.moe_layer_freq >= 1
            && self.max_position_embeddings >= 1;
        if !base {
            return false;
        }
        if self.qk_nope_head_dim > usize::MAX - self.qk_rope_head_dim {
            return false;
        }
        let qhd = self.qk_nope_head_dim + self.qk_rope_head_dim;
        if self.v_head_dim > qhd {
            return false;
        }
        if self.v_head_dim > usize::MAX - qhd {
            return false;
        }
        if let Some(r) = self.q_lora_rank {
            if r < 1 {
                return false;
            }
        }
        if let Some(s) = self.n_shared_experts {
            if s < 1 {
                return false;
            }
        }
        if let Some(e) = self.n_routed_experts {
            if self.num_experts_per_tok.is_none() {
                return false;
            }
            let k = match self.num_experts_per_tok {
                Some(k) => k,
                None => 1,
            };
            let g = self.n_group;
            if !(e >= 1 && e <= u32::MAX as usize && g >= 1 && e % g == 0 && 1 <= self.topk_group
                && self.topk_group <= g && k >= 1) {
                return false;
            }
            let per_group = e / g;
            proof {
                lemma_fundamental_div_mod(e as int, g as int);
                lemma_mul_inequality(
                    self.topk_group as int,
                    g as int,
                    per_group as int,
                );
                assert(g as int * per_group as int == e);
                assert(self.topk_group as int * per_group as int <= e);
            }
            let cap = self.topk_group * per_group;
            if k > cap {
                return false;
            }
            if matches!(self.topk_method, TopkMethod::NoAuxTc) && per_group < 2 {
                return false;
            }
        }
        true
    }
}

} // verus!
