//! The full decoder stack: token embedding, the tower of decoder
//! layers threading per-layer KV caches, the final normalisation, the
//! output head, and per-sequence logit extraction.

use vstd::prelude::*;

use crate::attention::{mask_fits, KvCache, PagedAttentionBackend};
use crate::config::{cfg_wf, q_head_dim_spec, DeepSeekV3Config};
use crate::err::ModelError;
use crate::layer::DecoderLayer;
use crate::projection::{Projection, RmsNorm};
use crate::shape::{lemma_prod2, lemma_prod3};
use crate::tensor::{
    cat_dim, dims_of, dims_vec, index_select_rows, lemma_cat_extent_ones, narrow_t, reshape_to,
    to_vec2_u32, u32_rows_of,
};

verus! {

/// What `Embedding::new` accepts: a `(vocab, hidden)` table with
/// positive extents.
pub open spec fn embedding_parts_ok(weight: candle_core::Tensor) -> bool {
    &&& dims_of(weight).len() == 2
    &&& dims_of(weight)[0] >= 1
    &&& dims_of(weight)[1] >= 1
}

/// Token embedding: row lookup in a `(vocab, hidden)` table.
pub struct Embedding {
    pub weight: candle_core::Tensor,
}

/// The ids are a non-empty `(batch, seq)` grid, every id below `vocab`,
/// and the flattened count fits the machine.
pub open spec fn embed_input_ok(ids: candle_core::Tensor, vocab: usize) -> bool {
    &&& dims_of(ids).len() == 2
    &&& dims_of(ids)[0] >= 1
    &&& dims_of(ids)[1] >= 1
    &&& dims_of(ids)[0] * dims_of(ids)[1] <= usize::MAX
    &&& u32_rows_of(ids).len() == dims_of(ids)[0]
    &&& forall|i: int, j: int|
        0 <= i < u32_rows_of(ids).len() && 0 <= j < u32_rows_of(ids)[i].len() ==> (
        #[trigger] u32_rows_of(ids)[i][j] as int) < vocab
}

impl Embedding {
    pub open spec fn wf(&self) -> bool {
        &&& dims_of(self.weight).len() == 2
        &&& dims_of(self.weight)[0] >= 1
        &&& dims_of(self.weight)[1] >= 1
    }

    pub open spec fn vocab(&self) -> usize {
        dims_of(self.weight)[0]
    }

    pub open spec fn hidden(&self) -> usize {
        dims_of(self.weight)[1]
    }

    /// Builds the table from a `(vocab, hidden)` weight.
    pub fn new(weight: candle_core::Tensor) -> (r: Result<Embedding, ModelError>)
        ensures
            (r is Ok <==> embedding_parts_ok(weight)),
            (r matches Ok(e) ==> e.wf() && e.weight == weight && e.vocab() == dims_of(weight)[0]
                && e.hidden() == dims_of(weight)[1]),
            (r matches Err(e) ==> e is Configuration),
    {
        let wd = dims_vec(&weight);
        if wd.len() != 2 || wd[0] < 1 || wd[1] < 1 {
            return Err(ModelError::Configuration);
        }
        Ok(Embedding { weight })
    }

    /// Looks every id of the `(batch, seq)` grid up, giving
    /// `(batch, seq, hidden)`; ids at or above the vocabulary size are
    /// rejected.
    pub fn forward(&self, ids: &candle_core::Tensor) -> (r: Result<candle_core::Tensor, ModelError>)
        requires
            self.wf(),
        ensures
            (r matches Ok(y) ==> embed_input_ok(*ids, self.vocab()) && dims_of(y) == seq![
                dims_of(*ids)[0],
                dims_of(*ids)[1],
                self.hidden(),
            ]),
            (r matches Err(e) && e is Shape ==> !embed_input_ok(*ids, self.vocab())),
            (r matches Err(e) ==> e is Shape || e is Numeric),
    {
        let idd = dims_vec(ids);
        if !(idd.len() == 2 && idd[0] >= 1 && idd[1] >= 1) {
            return Err(ModelError::Shape);
        }
        let b = idd[0];
        let s = idd[1];
        let n = match b.checked_mul(s) {
            Some(n) => n,
            None => {
                return Err(ModelError::Shape);
            },
        };
        let rows = to_vec2_u32(ids)?;
        let vocab = dims_vec(&self.weight)[0];
        let mut flat: Vec<u32> = Vec::new();
        let mut i: usize = 0;
        while i < rows.len()
            invariant
                i <= rows@.len(),
                rows@.len() == b,
                rows.deep_view() == u32_rows_of(*ids),
                forall|a: int| 0 <= a < rows@.len() ==> (#[trigger] rows@[a])@.len() == s,
                n as int == b as int * s as int,
                vocab == dims_of(self.weight)[0],
                flat@.len() == i as int * s as int,
                forall|a: int| 0 <= a < flat@.len() ==> (#[trigger] flat@[a] as int) < vocab,
                forall|a: int, c: int|
                    0 <= a < i && 0 <= c < s ==> (#[trigger] rows@[a]@[c] as int) < vocab,
            decreases rows@.len() - i,
        {
            let row = &rows[i];
            let mut j: usize = 0;
            while j < row.len()
                invariant
                    i < rows@.len(),
                    row == &rows@[i as int],
                    row@.len() == s,
                    j <= s,
                    rows.deep_view() == u32_rows_of(*ids),
                    vocab == dims_of(self.weight)[0],
                    flat@.len() == i as int * s as int + j as int,
                    forall|a: int| 0 <= a < flat@.len() ==> (#[trigger] flat@[a] as int) < vocab,
                    forall|a: int, c: int|
                        0 <= a < i && 0 <= c < row@.len() ==> (#[trigger] rows@[a]@[c] as int)
                            < vocab,
                    forall|c: int| 0 <= c < j ==> (#[trigger] row@[c] as int) < vocab,
                decreases s - j,
            {
                let id = row[j];
                if id as usize >= vocab {
                    proof {
                        // This very id refutes the all-ids-in-vocabulary
                        // conjunct of `embed_input_ok`.
                        crate::router::lemma_rows_deep_view(rows);
                        assert(u32_rows_of(*ids)[i as int] == rows@[i as int]@);
                        assert(u32_rows_of(*ids)[i as int][j as int] == id);
                    }
                    return Err(ModelError::Shape);
                }
                flat.push(id);
                j += 1;
            }
            proof {
                assert((i as int + 1) * s as int == i as int * s as int + s as int)
                    by (nonlinear_arith);
            }
            i += 1;
        }
        proof {
            assert(flat@.len() == n);
            assert(n >= 1) by (nonlinear_arith)
                requires
                    n as int == b as int * s as int,
                    b >= 1,
                    s >= 1,
            ;
            assert forall|a: int, c: int|
                0 <= a < u32_rows_of(*ids).len() && 0 <= c < u32_rows_of(*ids)[a].len() implies (
            #[trigger] u32_rows_of(*ids)[a][c] as int) < vocab by {
                crate::router::lemma_rows_deep_view(rows);
                assert(u32_rows_of(*ids)[a] == rows@[a]@);
            }
        }
        let gathered = index_select_rows(&self.weight, &flat)?;
        assert(dims_of(gathered) =~= seq![n, dims_of(self.weight)[1]]);
        let mut out_dims: Vec<usize> = Vec::new();
        out_dims.push(b);
        out_dims.push(s);
        out_dims.push(dims_vec(&self.weight)[1]);
        proof {
            assert(out_dims@ =~= seq![b, s, dims_of(self.weight)[1]]);
            lemma_prod3(b, s, dims_of(self.weight)[1]);
            lemma_prod2(n, dims_of(self.weight)[1]);
            assert((b as int * s as int) * dims_of(self.weight)[1] as int == b as int * (
            s as int * dims_of(self.weight)[1] as int)) by (nonlinear_arith);
        }
        let out = reshape_to(&gathered, &out_dims)?;
        Ok(out)
    }
}

/// Every sequence asks for a window `(start, len)` of its positions, all
/// windows the same length, all inside the sequence axis.
pub open spec fn context_lens_ok(cl: Seq<(usize, usize)>, d: Seq<usize>) -> bool {
    &&& cl.len() == d[0]
    &&& cl.len() >= 1
    &&& cl[0].1 >= 1
    &&& forall|i: int| 0 <= i < cl.len() ==> (#[trigger] cl[i]).1 == cl[0].1
    &&& forall|i: int| 0 <= i < cl.len() ==> (#[trigger] cl[i]).0 + cl[i].1 <= d[1]
}

/// Cuts, for each sequence of a `(batch, seq, vocab)` logit tensor, its
/// requested window of positions, giving `(batch, window, vocab)`.
pub fn extract_logits(
    xs: &candle_core::Tensor,
    context_lens: &Vec<(usize, usize)>,
) -> (r: Result<candle_core::Tensor, ModelError>)
    requires
        dims_of(*xs).len() == 3,
    ensures
        (r matches Ok(y) ==> context_lens_ok(context_lens@, dims_of(*xs)) && dims_of(y) == seq![
            dims_of(*xs)[0],
            context_lens@[0].1,
            dims_of(*xs)[2],
        ]),
        (r matches Err(e) && e is Shape ==> !context_lens_ok(context_lens@, dims_of(*xs))),
        (r matches Err(e) ==> e is Shape || e is Numeric),
{
    let xd = dims_vec(xs);
    let b = xd[0];
    if context_lens.len() != b || context_lens.len() < 1 {
        return Err(ModelError::Shape);
    }
    let l0 = context_lens[0].1;
    if l0 < 1 {
        return Err(ModelError::Shape);
    }
    let mut parts: Vec<candle_core::Tensor> = Vec::new();
    let mut i: usize = 0;
    while i < b
        invariant
            i <= b,
            b == dims_of(*xs)[0],
            dims_of(*xs).len() == 3,
            context_lens@.len() == b,
            b >= 1,
            l0 == context_lens@[0].1,
            l0 >= 1,
            parts@.len() == i,
            forall|a: int| 0 <= a < i ==> (#[trigger] context_lens@[a]).1 == l0,
            forall|a: int|
                0 <= a < i ==> (#[trigger] context_lens@[a]).0 + context_lens@[a].1 <= dims_of(
                    *xs,
                )[1],
            forall|a: int| 0 <= a < i ==> #[trigger] dims_of(parts@[a]) == seq![
                1usize,
                l0,
                dims_of(*xs)[2],
            ],
        decreases b - i,
    {
        let pair = context_lens[i];
        let start = pair.0;
        let len = pair.1;
        if len != l0 {
            return Err(ModelError::Shape);
        }
        if start > dims_vec(xs)[1] || len > dims_vec(xs)[1] - start {
            return Err(ModelError::Shape);
        }
        let row = narrow_t(xs, 0, i, 1)?;
        let win = narrow_t(&row, 1, start, len)?;
        assert(dims_of(win) =~= seq![1usize, l0, dims_of(*xs)[2]]);
        parts.push(win);
        i += 1;
    }
    proof {
        lemma_cat_extent_ones(parts@, 0);
    }
    let out = cat_dim(&parts, 0)?;
    assert(dims_of(out) =~= seq![dims_of(*xs)[0], l0, dims_of(*xs)[2]]);
    Ok(out)
}

/// What `DeepSeekV3::new` accepts: a well-formed configuration with
/// embedding, final norm and output head sized to it, and one decoder
/// layer per configured hidden layer.
pub open spec fn model_parts_ok<P: Projection>(
    cfg: DeepSeekV3Config,
    embed_tokens: Embedding,
    n_layers: int,
    norm: RmsNorm,
    lm_head: P,
) -> bool {
    &&& cfg_wf(cfg)
    &&& embed_tokens.vocab() == cfg.vocab_size
    &&& embed_tokens.hidden() == cfg.hidden_size
    &&& norm.norm_dim() == cfg.hidden_size
    &&& lm_head.in_dim() == cfg.hidden_size
    &&& lm_head.out_dim() == cfg.vocab_size
    &&& n_layers == cfg.num_hidden_layers
}

/// The full decoder-only model.
pub struct DeepSeekV3<P: Projection, B: PagedAttentionBackend> {
    pub embed_tokens: Embedding,
    pub layers: Vec<DecoderLayer<P, B>>,
    pub norm: RmsNorm,
    pub lm_head: P,
    pub cfg: DeepSeekV3Config,
}

impl<P: Projection, B: PagedAttentionBackend> DeepSeekV3<P, B> {
    pub open spec fn wf(&self) -> bool {
        &&& cfg_wf(self.cfg)
        &&& self.embed_tokens.wf()
        &&& self.embed_tokens.vocab() == self.cfg.vocab_size
        &&& self.embed_tokens.hidden() == self.cfg.hidden_size
        &&& self.norm.wf()
        &&& self.norm.norm_dim() == self.cfg.hidden_size
        &&& self.lm_head.proj_wf()
        &&& self.lm_head.in_dim() == self.cfg.hidden_size
        &&& self.lm_head.out_dim() == self.cfg.vocab_size
        &&& self.layers@.len() == self.cfg.num_hidden_layers
        &&& forall|i: int|
            0 <= i < self.layers@.len() ==> (#[trigger] self.layers@[i]).wf()
                && self.layers@[i].attn.cfg == self.cfg
    }

    /// Assembles the model over already-built layers.
    pub fn new(
        cfg: &DeepSeekV3Config,
        embed_tokens: Embedding,
        layers: Vec<DecoderLayer<P, B>>,
        norm: RmsNorm,
        lm_head: P,
    ) -> (r: Result<DeepSeekV3<P, B>, ModelError>)
        requires
            embed_tokens.wf(),
            norm.wf(),
            lm_head.proj_wf(),
            forall|i: int|
                0 <= i < layers@.len() ==> (#[trigger] layers@[i]).wf() && layers@[i].attn.cfg
                    == *cfg,
        ensures
            (r is Ok <==> model_parts_ok(*cfg, embed_tokens, layers@.len() as int, norm, lm_head)),
            (r matches Ok(m) ==> {
                &&& m.wf()
                &&& m.cfg == *cfg
                &&& m.embed_tokens == embed_tokens
                &&& m.layers == layers
                &&& m.norm == norm
                &&& m.lm_head == lm_head
            }),
            (r matches Err(e) ==> e is Configuration),
    {
        if !cfg.validate() {
            return Err(ModelError::Configuration);
        }
        let ed = dims_vec(&embed_tokens.weight);
        if ed[0] != cfg.vocab_size || ed[1] != cfg.hidden_size {
            return Err(ModelError::Configuration);
        }
        if norm.dim() != cfg.hidden_size {
            return Err(ModelError::Configuration);
        }
        if lm_head.in_features() != cfg.hidden_size || lm_head.out_features() != cfg.vocab_size {
            return Err(ModelError::Configuration);
        }
        if layers.len() != cfg.num_hidden_layers {
            return Err(ModelError::Configuration);
        }
        Ok(DeepSeekV3 { embed_tokens, layers, norm, lm_head, cfg: *cfg })
    }

    /// One decoding step over the incremental-cache execution path:
    /// embeds the ids, runs every layer against its own cache, applies
    /// the final norm and the output head, and extracts each sequence's
    /// requested logit window.
    #[verifier::rlimit(30)]
    #[verifier::loop_isolation(false)]
    pub fn forward(
        &self,
        input_ids: &candle_core::Tensor,
        seqlen_offsets: &Vec<usize>,
        attention_mask: Option<&candle_core::Tensor>,
        caches: &mut Vec<KvCache>,
        context_lens: &Vec<(usize, usize)>,
    ) -> (r: Result<candle_core::Tensor, ModelError>)
        requires
            self.wf(),
            forall|i: int|
                0 <= i < self.layers@.len() ==> (#[trigger] self.layers@[i]).attn.paged_attn
                    is None,
            old(caches)@.len() == self.layers@.len(),
            forall|i: int|
                0 <= i < old(caches)@.len() ==> (#[trigger] old(caches)@[i]).shape_wf(
                    dims_of(*input_ids)[0],
                    self.cfg.num_attention_heads,
                    (q_head_dim_spec(self.cfg)) as usize,
                    self.cfg.v_head_dim,
                ),
            forall|i: int|
                0 <= i < old(caches)@.len() ==> (#[trigger] old(caches)@[i]).cached_len() == old(
                    caches,
                )@[0].cached_len(),
            old(caches)@.len() >= 1,
            old(caches)@[0].cached_len() + dims_of(*input_ids)[1] <= usize::MAX,
            seqlen_offsets@.len() == dims_of(*input_ids)[0],
            forall|i: int|
                0 <= i < seqlen_offsets@.len() ==> #[trigger] (seqlen_offsets@[i] + dims_of(
                    *input_ids,
                )[1]) <= self.cfg.max_position_embeddings,
            dims_of(*input_ids)[0] * dims_of(*input_ids)[1] <= u32::MAX,
            (attention_mask matches Some(m) ==> mask_fits(
                seq![
                    dims_of(*input_ids)[0],
                    self.cfg.num_attention_heads,
                    dims_of(*input_ids)[1],
                    (old(caches)@[0].cached_len() + dims_of(*input_ids)[1]) as usize,
                ],
                dims_of(*m),
            )),
        ensures
            (r matches Ok(y) ==> {
                &&& embed_input_ok(*input_ids, self.cfg.vocab_size)
                &&& dims_of(y) == seq![
                    dims_of(*input_ids)[0],
                    context_lens@[0].1,
                    self.cfg.vocab_size,
                ]
                &&& forall|i: int|
                    0 <= i < final (caches)@.len() ==> (#[trigger] final (caches)@[i]).cached_len()
                        == old(caches)@[0].cached_len() + dims_of(*input_ids)[1]
            }),
            (r matches Err(e) && e is Shape ==> !embed_input_ok(*input_ids, self.cfg.vocab_size)
                || !context_lens_ok(
                context_lens@,
                seq![dims_of(*input_ids)[0], dims_of(*input_ids)[1], self.cfg.vocab_size],
            )),
            (r matches Err(e) ==> e is Shape || e is Numeric),
            final (caches)@.len() == old(caches)@.len(),
    {
        let xs0 = self.embed_tokens.forward(input_ids)?;
        let idd = dims_vec(input_ids);
        let b = idd[0];
        let s = idd[1];
        let ghost past = old(caches)@[0].cached_len();
        let mut xs = xs0;
        assert(dims_of(xs) =~= seq![b, s, self.cfg.hidden_size]);
        let mut i: usize = 0;
        while i < self.layers.len()
            invariant
                self.wf(),
                forall|a: int|
                    0 <= a < self.layers@.len() ==> (#[trigger] self.layers@[a]).attn.paged_attn
                        is None,
                i <= self.layers@.len(),
                caches@.len() == self.layers@.len(),
                b == dims_of(*input_ids)[0],
                s == dims_of(*input_ids)[1],
                b >= 1,
                s >= 1,
                b as int * s as int <= u32::MAX,
                dims_of(xs) == seq![b, s, self.cfg.hidden_size],
                seqlen_offsets@.len() == b,
                forall|a: int|
                    0 <= a < seqlen_offsets@.len() ==> #[trigger] (seqlen_offsets@[a] + s)
                        <= self.cfg.max_position_embeddings,
                past + s <= usize::MAX,
                forall|a: int|
                    0 <= a < caches@.len() ==> (#[trigger] caches@[a]).shape_wf(
                        b,
                        self.cfg.num_attention_heads,
                        (q_head_dim_spec(self.cfg)) as usize,
                        self.cfg.v_head_dim,
                    ),
                forall|a: int| i <= a < caches@.len() ==> (#[trigger] caches@[a]).cached_len()
                    == past,
                forall|a: int| 0 <= a < i ==> (#[trigger] caches@[a]).cached_len() == past + s,
                (attention_mask matches Some(m) ==> mask_fits(
                    seq![b, self.cfg.num_attention_heads, s, (past + s) as usize],
                    dims_of(*m),
                )),
            decreases self.layers@.len() - i,
        {
            let layer = &self.layers[i];
            proof {
                assert(crate::moe::bank_input_ok(dims_of(xs), self.cfg.hidden_size));
            }
            let y = layer.forward(
                &xs,
                attention_mask,
                seqlen_offsets,
                &mut caches[i],
                None,
            )?;
            assert(dims_of(y) =~= seq![b, s, self.cfg.hidden_size]);
            xs = y;
            i += 1;
        }
        let normed = self.norm.forward(&xs)?;
        let logits = self.lm_head.forward_autocast(&normed)?;
        assert(dims_of(logits) =~= seq![b, s, self.cfg.vocab_size]);
        let out = extract_logits(&logits, context_lens)?;
        Ok(out)
    }

    /// One decoding step over the paged execution path: every layer
    /// reads and writes key/value state through its entry of the
    /// externally-owned `paged_kv` tables and the shared metadata; the
    /// incremental caches are never touched.
    #[verifier::rlimit(30)]
    #[verifier::loop_isolation(false)]
    pub fn forward_paged(
        &self,
        input_ids: &candle_core::Tensor,
        seqlen_offsets: &Vec<usize>,
        attention_mask: Option<&candle_core::Tensor>,
        paged_kv: &Vec<(candle_core::Tensor, candle_core::Tensor)>,
        meta: &B::Meta,
        context_lens: &Vec<(usize, usize)>,
    ) -> (r: Result<candle_core::Tensor, ModelError>)
        requires
            self.wf(),
            forall|i: int|
                0 <= i < self.layers@.len() ==> (#[trigger] self.layers@[i]).attn.paged_attn
                    is Some,
            paged_kv@.len() == self.layers@.len(),
            seqlen_offsets@.len() == dims_of(*input_ids)[0],
            forall|i: int|
                0 <= i < seqlen_offsets@.len() ==> #[trigger] (seqlen_offsets@[i] + dims_of(
                    *input_ids,
                )[1]) <= self.cfg.max_position_embeddings,
            dims_of(*input_ids)[0] * dims_of(*input_ids)[1] <= u32::MAX,
            (attention_mask matches Some(m) ==> mask_fits(
                seq![
                    dims_of(*input_ids)[0],
                    self.cfg.num_attention_heads,
                    dims_of(*input_ids)[1],
                    dims_of(*input_ids)[1],
                ],
                dims_of(*m),
            )),
        ensures
            (r matches Ok(y) ==> {
                &&& embed_input_ok(*input_ids, self.cfg.vocab_size)
                &&& dims_of(y) == seq![
                    dims_of(*input_ids)[0],
                    context_lens@[0].1,
                    self.cfg.vocab_size,
                ]
            }),
            (r matches Err(e) && e is Shape ==> !embed_input_ok(*input_ids, self.cfg.vocab_size)
                || !context_lens_ok(
                context_lens@,
                seq![dims_of(*input_ids)[0], dims_of(*input_ids)[1], self.cfg.vocab_size],
            )),
            (r matches Err(e) ==> e is Shape || e is Numeric),
    {
        let xs0 = self.embed_tokens.forward(input_ids)?;
        let idd = dims_vec(input_ids);
        let b = idd[0];
        let s = idd[1];
        let mut xs = xs0;
        assert(dims_of(xs) =~= seq![b, s, self.cfg.hidden_size]);
        // Scratch incremental cache: the paged path leaves it untouched.
        let mut unused_cache = KvCache::new();
        let mut i: usize = 0;
        while i < self.layers.len()
            invariant
                i <= self.layers@.len(),
                b == dims_of(*input_ids)[0],
                s == dims_of(*input_ids)[1],
                b >= 1,
                s >= 1,
                dims_of(xs) == seq![b, s, self.cfg.hidden_size],
            decreases self.layers@.len() - i,
        {
            let layer = &self.layers[i];
            proof {
                assert(crate::moe::bank_input_ok(dims_of(xs), self.cfg.hidden_size));
            }
            let pair = &paged_kv[i];
            let y = layer.forward(
                &xs,
                attention_mask,
                seqlen_offsets,
                &mut unused_cache,
                Some(((&pair.0, &pair.1), meta)),
            )?;
            assert(dims_of(y) =~= seq![b, s, self.cfg.hidden_size]);
            xs = y;
            i += 1;
        }
        let normed = self.norm.forward(&xs)?;
        let logits = self.lm_head.forward_autocast(&normed)?;
        assert(dims_of(logits) =~= seq![b, s, self.cfg.vocab_size]);
        let out = extract_logits(&logits, context_lens)?;
        Ok(out)
    }
}


} // verus!
