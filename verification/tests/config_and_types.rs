//! Configuration validation, construction-time errors, and the small
//! interface types.

use candle_core::{Device, Tensor};
use mla_moe::config::{DeepSeekV3Config, ScoringFunc, TopkMethod};
use mla_moe::err::ModelError;
use mla_moe::projection::{Linear, Projection, RmsNorm};
use mla_moe::rope::RotaryPositionEncoder;
use mla_moe::sampling::StopTokens;

fn good() -> DeepSeekV3Config {
    DeepSeekV3Config {
        vocab_size: 16,
        hidden_size: 8,
        intermediate_size: 16,
        moe_intermediate_size: 8,
        num_hidden_layers: 2,
        num_attention_heads: 2,
        n_shared_experts: None,
        n_routed_experts: Some(8),
        topk_method: TopkMethod::NoAuxTc,
        num_experts_per_tok: Some(2),
        moe_layer_freq: 2,
        first_k_dense_replace: 1,
        norm_topk_prob: false,
        scoring_func: ScoringFunc::Sigmoid,
        max_position_embeddings: 64,
        q_lora_rank: None,
        qk_rope_head_dim: 4,
        kv_lora_rank: 8,
        v_head_dim: 4,
        qk_nope_head_dim: 4,
        n_group: 4,
        topk_group: 2,
    }
}

#[test]
fn valid_configuration_passes() {
    assert!(good().validate());
    assert_eq!(good().q_head_dim(), 8);
}

#[test]
fn invalid_configurations_fail() {
    let mut c = good();
    c.n_group = 3;  // does not divide 8
    assert!(!c.validate());

    let mut c = good();
    c.topk_group = 5;  // more than n_group
    assert!(!c.validate());

    let mut c = good();
    c.num_experts_per_tok = Some(5);  // beyond the kept groups' capacity
    assert!(!c.validate());

    let mut c = good();
    c.num_experts_per_tok = None;  // experts without a top_k
    assert!(!c.validate());

    let mut c = good();
    c.qk_rope_head_dim = 3;  // rotation needs an even width
    assert!(!c.validate());

    let mut c = good();
    c.n_group = 8;
    c.topk_group = 8;  // one expert per group: too few for NoAuxTc top-2
    assert!(!c.validate());

    let mut c = good();
    c.hidden_size = 0;
    assert!(!c.validate());
}

#[test]
fn moe_layer_choice_follows_stride_and_dense_prefix() {
    let c = good();
    // first_k_dense_replace = 1, moe_layer_freq = 2.
    assert!(!c.layer_uses_moe(0));
    assert!(!c.layer_uses_moe(1));
    assert!(c.layer_uses_moe(2));
    assert!(!c.layer_uses_moe(3));
    assert!(c.layer_uses_moe(4));
    let mut dense = c;
    dense.n_routed_experts = None;
    assert!(!dense.layer_uses_moe(2));
}

#[test]
fn linear_rejects_mismatched_bias() {
    let w = Tensor::zeros((3, 4), candle_core::DType::F32, &Device::Cpu).unwrap();
    let bad_b = Tensor::zeros(4usize, candle_core::DType::F32, &Device::Cpu).unwrap();
    assert!(matches!(
        Linear::new(w.clone(), Some(bad_b)),
        Err(ModelError::Configuration)
    ));
    let good_b = Tensor::zeros(3usize, candle_core::DType::F32, &Device::Cpu).unwrap();
    assert!(Linear::new(w, Some(good_b)).is_ok());
}

#[test]
fn linear_applies_weight_and_bias() {
    let w = Tensor::new(vec![1f32, 2.0, 3.0, 4.0], &Device::Cpu)
        .unwrap()
        .reshape((2, 2))
        .unwrap();
    let b = Tensor::new(vec![10f32, 20.0], &Device::Cpu).unwrap();
    let l = Linear::new(w, Some(b)).unwrap();
    let x = Tensor::new(vec![1f32, 1.0], &Device::Cpu)
        .unwrap()
        .reshape((1, 2))
        .unwrap();
    let y = l.forward(&x).unwrap();
    let v = y.flatten_all().unwrap().to_vec1::<f32>().unwrap();
    // Rows of the weight act on x: [1+2, 3+4] plus the bias.
    assert_eq!(v, vec![13.0, 27.0]);
}

#[test]
fn rms_norm_rejects_non_scalar_eps() {
    let w = Tensor::zeros(4usize, candle_core::DType::F32, &Device::Cpu).unwrap();
    let eps = Tensor::zeros(2usize, candle_core::DType::F32, &Device::Cpu).unwrap();
    assert!(matches!(RmsNorm::new(w, eps), Err(ModelError::Configuration)));
}

#[test]
fn rms_norm_normalises_to_unit_power() {
    let w = Tensor::new(vec![1f32, 1.0], &Device::Cpu).unwrap();
    let eps = Tensor::new(0f32, &Device::Cpu).unwrap();
    let n = RmsNorm::new(w, eps).unwrap();
    let x = Tensor::new(vec![3f32, 4.0], &Device::Cpu)
        .unwrap()
        .reshape((1, 2))
        .unwrap();
    let y = n.forward(&x).unwrap();
    let v = y.flatten_all().unwrap().to_vec1::<f32>().unwrap();
    // rms = sqrt((9 + 16) / 2): each lane divided by it.
    let rms = (12.5f32).sqrt();
    assert!((v[0] - 3.0 / rms).abs() < 1e-5);
    assert!((v[1] - 4.0 / rms).abs() < 1e-5);
}

#[test]
fn rope_rejects_odd_width() {
    let theta = Tensor::new(10000f32, &Device::Cpu).unwrap();
    assert!(matches!(
        RotaryPositionEncoder::new(&theta, 3, 8),
        Err(ModelError::Configuration)
    ));
    assert!(matches!(
        RotaryPositionEncoder::new(&theta, 4, 0),
        Err(ModelError::Configuration)
    ));
}

#[test]
fn stop_tokens_count_entries() {
    let s = StopTokens::Seqs(vec!["a".to_string(), "bb".to_string()]);
    assert_eq!(s.entry_count(), 2);
    let ids = StopTokens::Ids(vec![3, 5, 8]);
    assert_eq!(ids.entry_count(), 3);
    assert_eq!(ids, StopTokens::Ids(vec![3, 5, 8]));
}

#[test]
fn error_labels_name_the_taxonomy() {
    assert_eq!(ModelError::Configuration.label(), "configuration");
    assert_eq!(ModelError::Shape.label(), "shape");
}
