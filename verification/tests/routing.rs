//! Expert-router behaviour on concrete scores.

use candle_core::{Device, Tensor};
use mla_moe::config::{DeepSeekV3Config, ScoringFunc, TopkMethod};
use mla_moe::err::ModelError;
use mla_moe::router::ExpertRouter;

fn cfg(e: usize, k: usize, g: usize, tg: usize, method: TopkMethod, norm: bool) -> DeepSeekV3Config {
    DeepSeekV3Config {
        vocab_size: 16,
        hidden_size: e,
        intermediate_size: 8,
        moe_intermediate_size: 4,
        num_hidden_layers: 1,
        num_attention_heads: 2,
        n_shared_experts: None,
        n_routed_experts: Some(e),
        topk_method: method,
        num_experts_per_tok: Some(k),
        moe_layer_freq: 1,
        first_k_dense_replace: 0,
        norm_topk_prob: norm,
        scoring_func: ScoringFunc::Softmax,
        max_position_embeddings: 32,
        q_lora_rank: None,
        qk_rope_head_dim: 2,
        kv_lora_rank: 4,
        v_head_dim: 2,
        qk_nope_head_dim: 2,
        n_group: g,
        topk_group: tg,
    }
}

/// Identity centroids: logits equal the input coordinates.
fn identity_router(c: &DeepSeekV3Config, bias: Option<Vec<f32>>, scale: f64) -> ExpertRouter {
    let e = c.n_routed_experts.unwrap();
    let dev = Device::Cpu;
    let mut rows: Vec<Vec<f32>> = vec![vec![0f32; e]; e];
    for (i, row) in rows.iter_mut().enumerate() {
        row[i] = 1.0;
    }
    let w = Tensor::new(rows, &dev).unwrap();
    let b = bias.map(|v| Tensor::new(v, &dev).unwrap());
    let s = Tensor::new(scale as f32, &dev).unwrap();
    ExpertRouter::new(c, w, b, s).unwrap()
}

fn softmax(xs: &[f32]) -> Vec<f32> {
    let m = xs.iter().cloned().fold(f32::NEG_INFINITY, f32::max);
    let exps: Vec<f32> = xs.iter().map(|x| (x - m).exp()).collect();
    let z: f32 = exps.iter().sum();
    exps.iter().map(|e| e / z).collect()
}

fn forward_rows(r: &ExpertRouter, tokens: Vec<Vec<f32>>) -> (Vec<Vec<u32>>, Vec<Vec<f32>>) {
    let dev = Device::Cpu;
    let b = 1usize;
    let s = tokens.len();
    let h = tokens[0].len();
    let flat: Vec<f32> = tokens.into_iter().flatten().collect();
    let xs = Tensor::new(flat, &dev)
        .unwrap()
        .reshape((b, s, h))
        .unwrap();
    let d = r.forward(&xs).unwrap();
    (
        d.indices.to_vec2::<u32>().unwrap(),
        d.weights.to_vec2::<f32>().unwrap(),
    )
}

#[test]
fn greedy_picks_highest_scoring_experts() {
    let c = cfg(4, 2, 1, 1, TopkMethod::Greedy, false);
    let r = identity_router(&c, None, 1.0);
    let (idx, w) = forward_rows(&r, vec![vec![0.1, 3.0, 0.2, 2.0]]);
    let mut sel = idx[0].clone();
    sel.sort();
    assert_eq!(sel, vec![1, 3]);
    // Weights are the raw probabilities at the selected experts.
    let p = softmax(&[0.1, 3.0, 0.2, 2.0]);
    for (j, &ei) in idx[0].iter().enumerate() {
        assert!((w[0][j] - p[ei as usize]).abs() < 1e-5);
    }
}

#[test]
fn weights_renormalise_to_one_per_token() {
    // Normalisation on and top_k > 1: the selected weights of every
    // token sum to 1.
    let c = cfg(4, 2, 1, 1, TopkMethod::Greedy, true);
    let r = identity_router(&c, None, 1.0);
    let (_idx, w) = forward_rows(
        &r,
        vec![vec![0.1, 3.0, 0.2, 2.0], vec![5.0, -1.0, 0.0, 0.3]],
    );
    for row in &w {
        let s: f32 = row.iter().sum();
        assert!((s - 1.0).abs() < 1e-5, "sum was {s}");
    }
}

#[test]
fn weights_scale_by_routed_scaling_factor() {
    // Normalisation off: weights equal raw scores times the global
    // scale.
    let c = cfg(4, 2, 1, 1, TopkMethod::Greedy, false);
    let r = identity_router(&c, None, 2.5);
    let x = vec![0.5, 1.5, -0.5, 0.25];
    let (idx, w) = forward_rows(&r, vec![x.clone()]);
    let p = softmax(&x);
    for (j, &ei) in idx[0].iter().enumerate() {
        assert!((w[0][j] - 2.5 * p[ei as usize]).abs() < 1e-5);
    }
}

#[test]
fn each_token_gets_top_k_distinct_experts() {
    let c = cfg(8, 3, 2, 2, TopkMethod::Greedy, true);
    let r = identity_router(&c, None, 1.0);
    let tokens: Vec<Vec<f32>> = (0..5)
        .map(|t| (0..8).map(|i| ((t * 13 + i * 7) % 11) as f32 / 11.0).collect())
        .collect();
    let (idx, _w) = forward_rows(&r, tokens);
    for row in &idx {
        assert_eq!(row.len(), 3);
        for j in 0..row.len() {
            assert!((row[j] as usize) < 8);
            for l in 0..j {
                assert_ne!(row[l], row[j], "duplicate expert in {row:?}");
            }
        }
    }
}

#[test]
fn group_limited_routing_stays_in_top_group() {
    // Two groups of two experts, one group kept: no token may select an
    // expert from the losing group.
    let c = cfg(4, 2, 2, 1, TopkMethod::GroupLimitedGreedy, false);
    let r = identity_router(&c, None, 1.0);
    let (idx, _w) = forward_rows(&r, vec![vec![0.1, 0.2, 5.0, 0.05]]);
    // Group 1 (experts 2 and 3) has the highest per-group maximum.
    let mut sel = idx[0].clone();
    sel.sort();
    assert_eq!(sel, vec![2, 3]);
}

#[test]
fn group_ranking_uses_raw_scores() {
    // The group-limited greedy policy ranks groups from the raw,
    // uncorrected probabilities — unlike the bias-corrected policy,
    // which ranks them after adding the correction bias.  The asymmetry
    // is deliberate and preserved.
    let c = cfg(4, 1, 2, 1, TopkMethod::GroupLimitedGreedy, false);
    let r = identity_router(&c, None, 1.0);
    let (idx, _w) = forward_rows(&r, vec![vec![4.0, 0.0, 3.0, 3.5]]);
    assert_eq!(idx[0], vec![0]);
}

#[test]
fn bias_correction_moves_selection_not_weights() {
    // A large bias pulls group 0 ahead for selection, but the reported
    // weights still come from the uncorrected probabilities.
    let c = cfg(4, 2, 2, 1, TopkMethod::NoAuxTc, false);
    let r = identity_router(&c, Some(vec![10.0, 10.0, 0.0, 0.0]), 1.0);
    let x = vec![0.0, 0.0, 1.0, 1.0];
    let (idx, w) = forward_rows(&r, vec![x.clone()]);
    let mut sel = idx[0].clone();
    sel.sort();
    assert_eq!(sel, vec![0, 1]);
    let p = softmax(&x);
    for (j, &ei) in idx[0].iter().enumerate() {
        assert!((w[0][j] - p[ei as usize]).abs() < 1e-5);
    }
}

#[test]
fn sigmoid_scoring_reports_per_expert_probabilities() {
    let mut c = cfg(4, 2, 1, 1, TopkMethod::Greedy, false);
    c.scoring_func = ScoringFunc::Sigmoid;
    let r = identity_router(&c, None, 1.0);
    let x = vec![0.5, 2.0, -1.0, 1.0];
    let (idx, w) = forward_rows(&r, vec![x.clone()]);
    let mut sel = idx[0].clone();
    sel.sort();
    assert_eq!(sel, vec![1, 3]);
    for (j, &ei) in idx[0].iter().enumerate() {
        let p = 1.0 / (1.0 + (-x[ei as usize]).exp());
        assert!((w[0][j] - p).abs() < 1e-5);
    }
}

#[test]
fn empty_batch_is_a_shape_error() {
    let c = cfg(4, 2, 1, 1, TopkMethod::Greedy, false);
    let r = identity_router(&c, None, 1.0);
    let dev = Device::Cpu;
    let xs = Tensor::zeros((0, 2, 4), candle_core::DType::F32, &dev).unwrap();
    assert!(matches!(r.forward(&xs), Err(ModelError::Shape)));
}

#[test]
fn missing_bias_is_a_configuration_error() {
    let c = cfg(4, 2, 2, 1, TopkMethod::NoAuxTc, false);
    let dev = Device::Cpu;
    let w = Tensor::zeros((4, 4), candle_core::DType::F32, &dev).unwrap();
    let s = Tensor::new(1f32, &dev).unwrap();
    let r = ExpertRouter::new(&c, w, None, s);
    assert!(matches!(r, Err(ModelError::Configuration)));
}

#[test]
fn superfluous_bias_is_a_configuration_error() {
    // A correction bias outside the bias-corrected policy is rejected:
    // the original loads one only under that policy.
    let c = cfg(4, 2, 1, 1, TopkMethod::Greedy, false);
    let dev = Device::Cpu;
    let mut rows: Vec<Vec<f32>> = vec![vec![0f32; 4]; 4];
    for (i, row) in rows.iter_mut().enumerate() {
        row[i] = 1.0;
    }
    let w = Tensor::new(rows, &dev).unwrap();
    let b = Tensor::new(vec![0f32; 4], &dev).unwrap();
    let s = Tensor::new(1f32, &dev).unwrap();
    let r = ExpertRouter::new(&c, w, Some(b), s);
    assert!(matches!(r, Err(ModelError::Configuration)));
}

#[test]
fn group_count_must_divide_expert_count() {
    let c = cfg(4, 2, 3, 1, TopkMethod::GroupLimitedGreedy, false);
    let dev = Device::Cpu;
    let w = Tensor::zeros((4, 4), candle_core::DType::F32, &dev).unwrap();
    let s = Tensor::new(1f32, &dev).unwrap();
    let r = ExpertRouter::new(&c, w, None, s);
    assert!(matches!(r, Err(ModelError::Configuration)));
}

#[test]
fn wrong_input_width_is_a_shape_error() {
    let c = cfg(4, 2, 1, 1, TopkMethod::Greedy, false);
    let r = identity_router(&c, None, 1.0);
    let dev = Device::Cpu;
    let xs = Tensor::zeros((1, 2, 5), candle_core::DType::F32, &dev).unwrap();
    let out = r.forward(&xs);
    assert!(matches!(out, Err(ModelError::Shape)));
    assert_eq!(out.unwrap_err().label(), "shape");
}
