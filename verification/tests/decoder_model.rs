//! Decoder layer and full model on concrete values.

use candle_core::{Device, Tensor};
use mla_moe::attention::{
    softmax_scale_tensor, Attention, KvCache, QueryProjection, ReferencePagedBackend,
};
use mla_moe::config::{DeepSeekV3Config, ScoringFunc, TopkMethod};
use mla_moe::err::ModelError;
use mla_moe::layer::{DecoderLayer, MoeOrMlp};
use mla_moe::model::{extract_logits, DeepSeekV3, Embedding};
use mla_moe::moe::{ExpertBank, FeedForward};
use mla_moe::projection::{Linear, RmsNorm};
use mla_moe::rope::RotaryPositionEncoder;
use mla_moe::router::ExpertRouter;

fn cfg() -> DeepSeekV3Config {
    DeepSeekV3Config {
        vocab_size: 16,
        hidden_size: 8,
        intermediate_size: 16,
        moe_intermediate_size: 8,
        num_hidden_layers: 2,
        num_attention_heads: 2,
        n_shared_experts: Some(1),
        n_routed_experts: Some(4),
        topk_method: TopkMethod::Greedy,
        num_experts_per_tok: Some(2),
        moe_layer_freq: 1,
        first_k_dense_replace: 1,
        norm_topk_prob: true,
        scoring_func: ScoringFunc::Softmax,
        max_position_embeddings: 32,
        q_lora_rank: Some(6),
        qk_rope_head_dim: 2,
        kv_lora_rank: 4,
        v_head_dim: 4,
        qk_nope_head_dim: 2,
        n_group: 2,
        topk_group: 2,
    }
}

fn seeded(rows: usize, cols: usize, seed: usize) -> Tensor {
    let vals: Vec<f32> = (0..rows * cols)
        .map(|i| (((i * 37 + seed * 11 + 5) % 41) as f32 - 20.0) / 41.0)
        .collect();
    Tensor::new(vals, &Device::Cpu)
        .unwrap()
        .reshape((rows, cols))
        .unwrap()
}

fn rms(dim: usize) -> RmsNorm {
    let w = Tensor::new(vec![1f32; dim], &Device::Cpu).unwrap();
    let eps = Tensor::new(1e-6f32, &Device::Cpu).unwrap();
    RmsNorm::new(w, eps).unwrap()
}

fn ffn(hidden: usize, inter: usize, seed: usize) -> FeedForward<Linear> {
    FeedForward::new(
        Linear::new(seeded(inter, hidden, seed), None).unwrap(),
        Linear::new(seeded(inter, hidden, seed + 1), None).unwrap(),
        Linear::new(seeded(hidden, inter, seed + 2), None).unwrap(),
    )
    .unwrap()
}

fn attention(c: &DeepSeekV3Config, seed: usize, paged: bool) -> Attention<Linear, ReferencePagedBackend> {
    let dev = Device::Cpu;
    let qhd = c.qk_nope_head_dim + c.qk_rope_head_dim;
    let heads = c.num_attention_heads;
    // The rank-reduced query path with its intermediate normalisation.
    let lora = c.q_lora_rank.unwrap();
    let q = QueryProjection::LowRank {
        down: Linear::new(seeded(lora, c.hidden_size, seed), None).unwrap(),
        norm: rms(lora),
        up: Linear::new(seeded(heads * qhd, lora, seed + 1), None).unwrap(),
    };
    let kv_a = Linear::new(
        seeded(c.kv_lora_rank + c.qk_rope_head_dim, c.hidden_size, seed + 2),
        None,
    )
    .unwrap();
    let kv_b = Linear::new(
        seeded(heads * (c.qk_nope_head_dim + c.v_head_dim), c.kv_lora_rank, seed + 3),
        None,
    )
    .unwrap();
    let o = Linear::new(seeded(c.hidden_size, heads * c.v_head_dim, seed + 4), None).unwrap();
    let theta = Tensor::new(10000f32, &dev).unwrap();
    let rope = RotaryPositionEncoder::new(&theta, c.qk_rope_head_dim, c.max_position_embeddings)
        .unwrap();
    let like = Tensor::new(0f32, &dev).unwrap();
    let scale = softmax_scale_tensor(qhd, None, &like).unwrap();
    let backend = if paged {
        Some(ReferencePagedBackend {
            scale: softmax_scale_tensor(qhd, None, &like).unwrap(),
        })
    } else {
        None
    };
    Attention::new(c, q, kv_a, rms(c.kv_lora_rank), kv_b, o, rope, backend, scale).unwrap()
}

fn moe_block(c: &DeepSeekV3Config, seed: usize) -> MoeOrMlp<Linear> {
    let e = c.n_routed_experts.unwrap();
    let router = ExpertRouter::new(
        c,
        seeded(e, c.hidden_size, seed + 50),
        None,
        Tensor::new(1f32, &Device::Cpu).unwrap(),
    )
    .unwrap();
    let experts: Vec<FeedForward<Linear>> = (0..e)
        .map(|i| ffn(c.hidden_size, c.moe_intermediate_size, seed + i * 7))
        .collect();
    let shared = Some(ffn(c.hidden_size, c.moe_intermediate_size, seed + 99));
    MoeOrMlp::Moe(ExpertBank::new(experts, shared, router).unwrap())
}

fn layer(
    c: &DeepSeekV3Config,
    idx: usize,
    seed: usize,
    paged: bool,
) -> DecoderLayer<Linear, ReferencePagedBackend> {
    // The dense-versus-expert choice is fixed from the layer index.
    let block = if c.layer_uses_moe(idx) {
        moe_block(c, seed)
    } else {
        MoeOrMlp::Mlp(ffn(c.hidden_size, c.intermediate_size, seed + 5))
    };
    DecoderLayer::new(rms(c.hidden_size), rms(c.hidden_size), attention(c, seed, paged), block)
        .unwrap()
}

fn causal_mask(s: usize) -> Tensor {
    let mut vals: Vec<f32> = Vec::new();
    for i in 0..s {
        for j in 0..s {
            vals.push(if j <= i { 0.0 } else { f32::NEG_INFINITY });
        }
    }
    Tensor::new(vals, &Device::Cpu)
        .unwrap()
        .reshape((1, 1, s, s))
        .unwrap()
}

fn model(c: &DeepSeekV3Config, paged: bool) -> DeepSeekV3<Linear, ReferencePagedBackend> {
    let embed = Embedding::new(seeded(c.vocab_size, c.hidden_size, 200)).unwrap();
    let layers = vec![layer(c, 0, 300, paged), layer(c, 1, 400, paged)];
    let lm_head = Linear::new(seeded(c.vocab_size, c.hidden_size, 500), None).unwrap();
    DeepSeekV3::new(c, embed, layers, rms(c.hidden_size), lm_head).unwrap()
}

#[test]
fn layer_keeps_hidden_shape() {
    let c = cfg();
    let l = layer(&c, 1, 42, false);
    let vals: Vec<f32> = (0..24).map(|i| ((i * 19 % 29) as f32 - 14.0) / 29.0).collect();
    let xs = Tensor::new(vals, &Device::Cpu)
        .unwrap()
        .reshape((1, 3, 8))
        .unwrap();
    let mask = causal_mask(3);
    let mut cache = KvCache::new();
    let y = l
        .forward(&xs, Some(&mask), &vec![0], &mut cache, None)
        .unwrap();
    assert_eq!(y.dims(), &[1, 3, 8]);
}

#[test]
fn layer_causality_holds_through_the_residual_path() {
    let c = cfg();
    let l = layer(&c, 1, 7, false);
    let mask = causal_mask(3);
    let base: Vec<f32> = (0..24).map(|i| ((i * 23 % 31) as f32 - 15.0) / 31.0).collect();
    let mut changed = base.clone();
    for v in changed[16..24].iter_mut() {
        *v -= 0.6;
    }
    let xa = Tensor::new(base, &Device::Cpu).unwrap().reshape((1, 3, 8)).unwrap();
    let xb = Tensor::new(changed, &Device::Cpu).unwrap().reshape((1, 3, 8)).unwrap();
    let mut ca = KvCache::new();
    let mut cb = KvCache::new();
    let ya = l.forward(&xa, Some(&mask), &vec![0], &mut ca, None).unwrap();
    let yb = l.forward(&xb, Some(&mask), &vec![0], &mut cb, None).unwrap();
    let a = ya.flatten_all().unwrap().to_vec1::<f32>().unwrap();
    let b = yb.flatten_all().unwrap().to_vec1::<f32>().unwrap();
    for lane in 0..16 {
        assert!((a[lane] - b[lane]).abs() < 1e-6);
    }
}

#[test]
fn model_forward_extracts_requested_logits() {
    let c = cfg();
    let m = model(&c, false);
    let ids = Tensor::new(vec![1u32, 7, 12], &Device::Cpu)
        .unwrap()
        .reshape((1, 3))
        .unwrap();
    let mask = causal_mask(3);
    let mut caches = vec![KvCache::new(), KvCache::new()];
    let y = m
        .forward(&ids, &vec![0], Some(&mask), &mut caches, &vec![(2, 1)])
        .unwrap();
    assert_eq!(y.dims(), &[1, 1, 16]);
    for cache in &caches {
        assert_eq!(cache.kv.as_ref().unwrap().0.dims()[2], 3);
    }
}

#[test]
fn out_of_vocabulary_id_is_rejected() {
    let c = cfg();
    let m = model(&c, false);
    let ids = Tensor::new(vec![1u32, 99, 2], &Device::Cpu)
        .unwrap()
        .reshape((1, 3))
        .unwrap();
    let mask = causal_mask(3);
    let mut caches = vec![KvCache::new(), KvCache::new()];
    let r = m.forward(&ids, &vec![0], Some(&mask), &mut caches, &vec![(2, 1)]);
    assert!(matches!(r, Err(ModelError::Shape)));
}

#[test]
fn paged_model_matches_eager_model_on_a_prompt() {
    // The same weights through the paged execution path (dense
    // reference backend, dummy block tables) and through the
    // incremental-cache path give the same logits.
    let c = cfg();
    let eager = model(&c, false);
    let paged = model(&c, true);
    let ids = Tensor::new(vec![1u32, 7, 12], &Device::Cpu)
        .unwrap()
        .reshape((1, 3))
        .unwrap();
    let mask = causal_mask(3);
    let mut caches = vec![KvCache::new(), KvCache::new()];
    let y1 = eager
        .forward(&ids, &vec![0], Some(&mask), &mut caches, &vec![(2, 1)])
        .unwrap();
    let dummy = Tensor::new(0f32, &Device::Cpu).unwrap();
    let tables = vec![
        (dummy.clone(), dummy.clone()),
        (dummy.clone(), dummy.clone()),
    ];
    let y2 = paged
        .forward_paged(&ids, &vec![0], Some(&mask), &tables, &(), &vec![(2, 1)])
        .unwrap();
    let a = y1.flatten_all().unwrap().to_vec1::<f32>().unwrap();
    let b = y2.flatten_all().unwrap().to_vec1::<f32>().unwrap();
    for (x, y) in a.iter().zip(b.iter()) {
        assert!((x - y).abs() < 1e-5, "{x} vs {y}");
    }
}

#[test]
fn layer_count_must_match_configuration() {
    let c = cfg();
    // Only one layer where the configuration names two.
    let embed = Embedding::new(seeded(c.vocab_size, c.hidden_size, 200)).unwrap();
    let layers = vec![layer(&c, 0, 300, false)];
    let lm_head = Linear::new(seeded(c.vocab_size, c.hidden_size, 500), None).unwrap();
    let r = DeepSeekV3::new(&c, embed, layers, rms(c.hidden_size), lm_head);
    assert!(matches!(r, Err(ModelError::Configuration)));
}

#[test]
fn extract_logits_cuts_each_window() {
    let vals: Vec<f32> = (0..2 * 3 * 2).map(|i| i as f32).collect();
    let xs = Tensor::new(vals, &Device::Cpu)
        .unwrap()
        .reshape((2, 3, 2))
        .unwrap();
    let y = extract_logits(&xs, &vec![(2, 1), (1, 1)]).unwrap();
    assert_eq!(y.dims(), &[2, 1, 2]);
    let v = y.flatten_all().unwrap().to_vec1::<f32>().unwrap();
    // Batch 0 keeps position 2 (values 4, 5); batch 1 keeps position 1
    // (values 8, 9).
    assert_eq!(v, vec![4.0, 5.0, 8.0, 9.0]);
}

#[test]
fn extract_logits_rejects_mismatched_windows() {
    let xs = Tensor::zeros((2, 3, 2), candle_core::DType::F32, &Device::Cpu).unwrap();
    let r = extract_logits(&xs, &vec![(0, 2), (0, 1)]);
    assert!(matches!(r, Err(ModelError::Shape)));
    let r2 = extract_logits(&xs, &vec![(2, 2), (0, 2)]);
    assert!(matches!(r2, Err(ModelError::Shape)));
}
