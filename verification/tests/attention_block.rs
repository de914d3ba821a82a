//! The MLA attention block on concrete values: causal masking, the
//! scenario configuration, and agreement of the two backends.

use candle_core::{Device, Tensor};
use mla_moe::attention::{
    softmax_scale_tensor, Attention, KvCache, QueryProjection, ReferencePagedBackend,
};
use mla_moe::config::{DeepSeekV3Config, ScoringFunc, TopkMethod};
use mla_moe::projection::{Linear, RmsNorm};
use mla_moe::rope::RotaryPositionEncoder;

fn scenario_cfg() -> DeepSeekV3Config {
    // Hidden size 8, 2 heads, qk_nope 2, qk_rope 2, kv_lora_rank 4,
    // v_head_dim 4, 4 routed experts, top_k 2, greedy routing.
    DeepSeekV3Config {
        vocab_size: 16,
        hidden_size: 8,
        intermediate_size: 16,
        moe_intermediate_size: 8,
        num_hidden_layers: 1,
        num_attention_heads: 2,
        n_shared_experts: None,
        n_routed_experts: Some(4),
        topk_method: TopkMethod::Greedy,
        num_experts_per_tok: Some(2),
        moe_layer_freq: 1,
        first_k_dense_replace: 0,
        norm_topk_prob: false,
        scoring_func: ScoringFunc::Softmax,
        max_position_embeddings: 32,
        q_lora_rank: None,
        qk_rope_head_dim: 2,
        kv_lora_rank: 4,
        v_head_dim: 4,
        qk_nope_head_dim: 2,
        n_group: 1,
        topk_group: 1,
    }
}

fn seeded(rows: usize, cols: usize, seed: usize) -> Tensor {
    let vals: Vec<f32> = (0..rows * cols)
        .map(|i| (((i * 29 + seed * 13 + 3) % 31) as f32 - 15.0) / 31.0)
        .collect();
    Tensor::new(vals, &Device::Cpu)
        .unwrap()
        .reshape((rows, cols))
        .unwrap()
}

fn build_attention(
    c: &DeepSeekV3Config,
    paged: bool,
) -> Attention<Linear, ReferencePagedBackend> {
    let dev = Device::Cpu;
    let qhd = c.qk_nope_head_dim + c.qk_rope_head_dim;
    let heads = c.num_attention_heads;
    let q = QueryProjection::Direct(Linear::new(seeded(heads * qhd, c.hidden_size, 1), None).unwrap());
    let kv_a = Linear::new(
        seeded(c.kv_lora_rank + c.qk_rope_head_dim, c.hidden_size, 2),
        None,
    )
    .unwrap();
    let norm_w = Tensor::new(vec![1f32; c.kv_lora_rank], &dev).unwrap();
    let eps = Tensor::new(1e-6f32, &dev).unwrap();
    let kv_a_norm = RmsNorm::new(norm_w, eps).unwrap();
    let kv_b = Linear::new(
        seeded(heads * (c.qk_nope_head_dim + c.v_head_dim), c.kv_lora_rank, 3),
        None,
    )
    .unwrap();
    let o = Linear::new(seeded(c.hidden_size, heads * c.v_head_dim, 4), None).unwrap();
    let theta = Tensor::new(10000f32, &dev).unwrap();
    let rope = RotaryPositionEncoder::new(&theta, c.qk_rope_head_dim, c.max_position_embeddings)
        .unwrap();
    let like = Tensor::new(0f32, &dev).unwrap();
    let scale = softmax_scale_tensor(qhd, None, &like).unwrap();
    let backend = if paged {
        Some(ReferencePagedBackend {
            scale: softmax_scale_tensor(qhd, None, &like).unwrap(),
        })
    } else {
        None
    };
    Attention::new(c, q, kv_a, kv_a_norm, kv_b, o, rope, backend, scale).unwrap()
}

fn causal_mask(s: usize) -> Tensor {
    let mut vals: Vec<f32> = Vec::new();
    for i in 0..s {
        for j in 0..s {
            vals.push(if j <= i { 0.0 } else { f32::NEG_INFINITY });
        }
    }
    Tensor::new(vals, &Device::Cpu)
        .unwrap()
        .reshape((1, 1, s, s))
        .unwrap()
}

fn hidden_input(change_last: bool) -> Tensor {
    let mut vals: Vec<f32> = (0..3 * 8)
        .map(|i| (((i * 17 + 5) % 23) as f32 - 11.0) / 23.0)
        .collect();
    if change_last {
        for v in vals[16..24].iter_mut() {
            *v += 0.8;
        }
    }
    Tensor::new(vals, &Device::Cpu)
        .unwrap()
        .reshape((1, 3, 8))
        .unwrap()
}

#[test]
fn scenario_output_shape() {
    let c = scenario_cfg();
    let attn = build_attention(&c, false);
    let mut cache = KvCache::new();
    let xs = hidden_input(false);
    let mask = causal_mask(3);
    let y = attn
        .forward(&xs, Some(&mask), &vec![0], &mut cache, None)
        .unwrap();
    assert_eq!(y.dims(), &[1, 3, 8]);
}

#[test]
fn causal_mask_blocks_future_positions() {
    // Changing token 2's embedding must not change the attention
    // output at tokens 0 and 1 under a causal mask.
    let c = scenario_cfg();
    let mask = causal_mask(3);
    let attn = build_attention(&c, false);

    let mut cache_a = KvCache::new();
    let ya = attn
        .forward(&hidden_input(false), Some(&mask), &vec![0], &mut cache_a, None)
        .unwrap();
    let mut cache_b = KvCache::new();
    let yb = attn
        .forward(&hidden_input(true), Some(&mask), &vec![0], &mut cache_b, None)
        .unwrap();

    let a = ya.flatten_all().unwrap().to_vec1::<f32>().unwrap();
    let b = yb.flatten_all().unwrap().to_vec1::<f32>().unwrap();
    for lane in 0..16 {
        assert!(
            (a[lane] - b[lane]).abs() < 1e-6,
            "position {} lane {} moved",
            lane / 8,
            lane % 8
        );
    }
    // The changed token itself must move, or the test shows nothing.
    let moved = (16..24).any(|lane| (a[lane] - b[lane]).abs() > 1e-4);
    assert!(moved);
}

#[test]
fn cache_and_paged_backends_agree_on_a_prompt() {
    // On a fresh prompt the incremental-cache backend and the paged
    // backend (dummy-metadata path over the dense reference backend)
    // must produce the same output.
    let c = scenario_cfg();
    let mask = causal_mask(3);
    let xs = hidden_input(false);

    let plain = build_attention(&c, false);
    let mut cache = KvCache::new();
    let y1 = plain
        .forward(&xs, Some(&mask), &vec![0], &mut cache, None)
        .unwrap();

    let paged = build_attention(&c, true);
    let mut unused_cache = KvCache::new();
    let y2 = paged
        .forward(&xs, Some(&mask), &vec![0], &mut unused_cache, None)
        .unwrap();

    let a = y1.flatten_all().unwrap().to_vec1::<f32>().unwrap();
    let b = y2.flatten_all().unwrap().to_vec1::<f32>().unwrap();
    assert_eq!(a.len(), b.len());
    for (x, y) in a.iter().zip(b.iter()) {
        assert!((x - y).abs() < 1e-5, "{x} vs {y}");
    }
}

#[test]
fn incremental_decoding_matches_the_batched_prompt() {
    // Feeding three tokens one at a time through the cache, each at its
    // own offset, reproduces the causally-masked batched run token by
    // token.
    let c = scenario_cfg();
    let attn = build_attention(&c, false);
    let xs = hidden_input(false);
    let mask = causal_mask(3);
    let mut batch_cache = KvCache::new();
    let batched = attn
        .forward(&xs, Some(&mask), &vec![0], &mut batch_cache, None)
        .unwrap();
    let bv = batched.flatten_all().unwrap().to_vec1::<f32>().unwrap();

    let mut cache = KvCache::new();
    for t in 0..3 {
        let step = xs.narrow(1, t, 1).unwrap();
        let y = attn
            .forward(&step, None, &vec![t], &mut cache, None)
            .unwrap();
        let yv = y.flatten_all().unwrap().to_vec1::<f32>().unwrap();
        for lane in 0..8 {
            assert!(
                (yv[lane] - bv[t * 8 + lane]).abs() < 1e-4,
                "token {t} lane {lane}: {} vs {}",
                yv[lane],
                bv[t * 8 + lane]
            );
        }
    }
}

#[test]
fn decode_step_grows_the_cache() {
    // A prompt of 3 tokens then a single-token decode step: the second
    // call attends over all four cached positions.
    let c = scenario_cfg();
    let attn = build_attention(&c, false);
    let mut cache = KvCache::new();
    let mask = causal_mask(3);
    let _ = attn
        .forward(&hidden_input(false), Some(&mask), &vec![0], &mut cache, None)
        .unwrap();
    let step: Vec<f32> = (0..8).map(|i| (i as f32 - 4.0) / 9.0).collect();
    let xs = Tensor::new(step, &Device::Cpu)
        .unwrap()
        .reshape((1, 1, 8))
        .unwrap();
    let y = attn.forward(&xs, None, &vec![3], &mut cache, None).unwrap();
    assert_eq!(y.dims(), &[1, 1, 8]);
    let (k, _v) = cache.kv.as_ref().unwrap();
    assert_eq!(k.dims()[2], 4);
}
