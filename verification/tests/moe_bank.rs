//! Expert-bank dispatch on concrete values.

use candle_core::{Device, Tensor};
use mla_moe::config::{DeepSeekV3Config, ScoringFunc, TopkMethod};
use mla_moe::moe::{ExpertBank, FeedForward};
use mla_moe::projection::Linear;
use mla_moe::router::ExpertRouter;

fn cfg(e: usize, k: usize, shared: Option<usize>) -> DeepSeekV3Config {
    DeepSeekV3Config {
        vocab_size: 16,
        hidden_size: 4,
        intermediate_size: 8,
        moe_intermediate_size: 6,
        num_hidden_layers: 1,
        num_attention_heads: 2,
        n_shared_experts: shared,
        n_routed_experts: Some(e),
        topk_method: TopkMethod::Greedy,
        num_experts_per_tok: Some(k),
        moe_layer_freq: 1,
        first_k_dense_replace: 0,
        norm_topk_prob: false,
        scoring_func: ScoringFunc::Softmax,
        max_position_embeddings: 32,
        q_lora_rank: None,
        qk_rope_head_dim: 2,
        kv_lora_rank: 4,
        v_head_dim: 2,
        qk_nope_head_dim: 2,
        n_group: 1,
        topk_group: 1,
    }
}

fn seeded(rows: usize, cols: usize, seed: usize) -> Tensor {
    let vals: Vec<f32> = (0..rows * cols)
        .map(|i| (((i * 31 + seed * 17 + 7) % 23) as f32 - 11.0) / 23.0)
        .collect();
    Tensor::new(vals, &Device::Cpu)
        .unwrap()
        .reshape((rows, cols))
        .unwrap()
}

fn ffn(hidden: usize, inter: usize, seed: usize) -> FeedForward<Linear> {
    let gate = Linear::new(seeded(inter, hidden, seed), None).unwrap();
    let up = Linear::new(seeded(inter, hidden, seed + 1), None).unwrap();
    let down = Linear::new(seeded(hidden, inter, seed + 2), None).unwrap();
    FeedForward::new(gate, up, down).unwrap()
}

fn bank(c: &DeepSeekV3Config, seed: usize) -> ExpertBank<Linear> {
    let e = c.n_routed_experts.unwrap();
    let dev = Device::Cpu;
    let gate_w = seeded(e, c.hidden_size, seed + 90);
    let scale = Tensor::new(1f32, &dev).unwrap();
    let router = ExpertRouter::new(c, gate_w, None, scale).unwrap();
    let experts: Vec<FeedForward<Linear>> = (0..e)
        .map(|i| ffn(c.hidden_size, c.moe_intermediate_size, seed + i * 10))
        .collect();
    let shared = c
        .n_shared_experts
        .map(|s| ffn(c.hidden_size, c.moe_intermediate_size * s, seed + 777));
    ExpertBank::new(experts, shared, router).unwrap()
}

fn to3(vals: Vec<f32>, b: usize, s: usize, h: usize) -> Tensor {
    Tensor::new(vals, &Device::Cpu)
        .unwrap()
        .reshape((b, s, h))
        .unwrap()
}

#[test]
fn single_expert_top1_equals_dense_feed_forward() {
    // One routed expert and top_k = 1 under softmax scoring: the
    // routing weight is exactly 1, so the bank output equals the
    // expert's own dense output.
    let c = cfg(1, 1, None);
    let b = bank(&c, 3);
    let xs = to3(vec![0.3, -0.2, 0.5, 0.1, -0.4, 0.2, 0.0, 0.7], 1, 2, 4);
    let y = b.forward(&xs).unwrap();
    let direct = b.experts[0].forward(&xs).unwrap();
    let ya = y.flatten_all().unwrap().to_vec1::<f32>().unwrap();
    let da = direct.flatten_all().unwrap().to_vec1::<f32>().unwrap();
    for (a, d) in ya.iter().zip(da.iter()) {
        assert!((a - d).abs() < 1e-6, "{a} vs {d}");
    }
}

#[test]
fn single_expert_with_shared_adds_unweighted_shared_term() {
    let c = cfg(1, 1, Some(1));
    let b = bank(&c, 5);
    let xs = to3(vec![0.3, -0.2, 0.5, 0.1, -0.4, 0.2, 0.0, 0.7], 1, 2, 4);
    let y = b.forward(&xs).unwrap();
    let direct = b.experts[0].forward(&xs).unwrap();
    let shared = b.shared_experts.as_ref().unwrap().forward(&xs).unwrap();
    let expect = (direct + shared).unwrap();
    let ya = y.flatten_all().unwrap().to_vec1::<f32>().unwrap();
    let ea = expect.flatten_all().unwrap().to_vec1::<f32>().unwrap();
    for (a, d) in ya.iter().zip(ea.iter()) {
        assert!((a - d).abs() < 1e-6, "{a} vs {d}");
    }
}

#[test]
fn non_square_feed_forward_is_rejected() {
    // The block must map its input width back to itself.
    let gate = Linear::new(seeded(6, 4, 1), None).unwrap();
    let up = Linear::new(seeded(6, 4, 2), None).unwrap();
    let down = Linear::new(seeded(5, 6, 3), None).unwrap();
    assert!(FeedForward::new(gate, up, down).is_err());
}

#[test]
fn shared_expert_presence_must_match_configuration() {
    // The configuration names a shared expert but none is supplied, or
    // the other way round: both are construction-time failures.
    let with_shared = cfg(2, 1, Some(1));
    let b = bank(&with_shared, 21);
    drop(b);
    let e = 2usize;
    let dev = Device::Cpu;
    let gate_w = seeded(e, with_shared.hidden_size, 77);
    let scale = Tensor::new(1f32, &dev).unwrap();
    let router = ExpertRouter::new(&with_shared, gate_w, None, scale).unwrap();
    let experts: Vec<FeedForward<Linear>> = (0..e)
        .map(|i| ffn(with_shared.hidden_size, with_shared.moe_intermediate_size, 80 + i))
        .collect();
    // Config says Some(1) but no shared expert is handed over.
    assert!(ExpertBank::new(experts, None, router).is_err());
}

#[test]
fn bank_output_keeps_shape() {
    let c = cfg(4, 2, Some(1));
    let b = bank(&c, 9);
    let vals: Vec<f32> = (0..2 * 3 * 4).map(|i| ((i * 5 % 17) as f32 - 8.0) / 17.0).collect();
    let xs = to3(vals, 2, 3, 4);
    let y = b.forward(&xs).unwrap();
    assert_eq!(y.dims(), &[2, 3, 4]);
}

#[test]
fn every_token_receives_exactly_top_k_weighted_terms() {
    // Experts that always output 1 in every lane (zero down-weight,
    // unit bias) make the bank output the sum of each token's routing
    // weights; with renormalisation on, that sum is exactly 1 for every
    // token, so no token is dropped and none is counted twice.
    let mut c = cfg(4, 2, None);
    c.norm_topk_prob = true;
    let dev = Device::Cpu;
    let e = 4usize;
    let gate_w = seeded(e, c.hidden_size, 33);
    let scale = Tensor::new(1f32, &dev).unwrap();
    let router = ExpertRouter::new(&c, gate_w, None, scale).unwrap();
    let experts: Vec<FeedForward<Linear>> = (0..e)
        .map(|i| {
            let gate = Linear::new(seeded(6, 4, 40 + i), None).unwrap();
            let up = Linear::new(seeded(6, 4, 50 + i), None).unwrap();
            let zero_w = Tensor::zeros((4, 6), candle_core::DType::F32, &dev).unwrap();
            let ones_b = Tensor::new(vec![1f32; 4], &dev).unwrap();
            let down = Linear::new(zero_w, Some(ones_b)).unwrap();
            FeedForward::new(gate, up, down).unwrap()
        })
        .collect();
    let bank = ExpertBank::new(experts, None, router).unwrap();
    let vals: Vec<f32> = (0..2 * 3 * 4).map(|i| ((i * 7 % 19) as f32 - 9.0) / 19.0).collect();
    let xs = to3(vals, 2, 3, 4);
    let y = bank.forward(&xs).unwrap();
    let yv = y.flatten_all().unwrap().to_vec1::<f32>().unwrap();
    for (i, v) in yv.iter().enumerate() {
        assert!((v - 1.0).abs() < 1e-5, "lane {i} was {v}");
    }
}

#[test]
fn bank_matches_manual_weighted_sum() {
    // Recompute the dispatch by hand from the routing decision: each
    // token's output is the weighted sum of its selected experts (no
    // shared expert here).
    let c = cfg(4, 2, None);
    let b = bank(&c, 11);
    let vals: Vec<f32> = (0..1 * 3 * 4).map(|i| ((i * 11 % 13) as f32 - 6.0) / 13.0).collect();
    let xs = to3(vals, 1, 3, 4);
    let y = b.forward(&xs).unwrap();

    let d = b.gate.forward(&xs).unwrap();
    let idx = d.indices.to_vec2::<u32>().unwrap();
    let w = d.weights.to_vec2::<f32>().unwrap();
    let xflat = xs.reshape((3, 4)).unwrap();
    let yv = y.reshape((3, 4)).unwrap().to_vec2::<f32>().unwrap();
    for t in 0..3 {
        let xt = xflat.narrow(0, t, 1).unwrap();
        let mut acc = vec![0f32; 4];
        for j in 0..2 {
            let out = b.experts[idx[t][j] as usize].forward(&xt).unwrap();
            let ov = out.flatten_all().unwrap().to_vec1::<f32>().unwrap();
            for h in 0..4 {
                acc[h] += w[t][j] * ov[h];
            }
        }
        for h in 0..4 {
            assert!((acc[h] - yv[t][h]).abs() < 1e-5, "token {t} lane {h}");
        }
    }
}
