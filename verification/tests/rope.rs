//! Rotary encoding on concrete values.

use candle_core::{Device, Tensor};
use mla_moe::rope::RotaryPositionEncoder;

fn t4(vals: Vec<f32>, d: (usize, usize, usize, usize)) -> Tensor {
    Tensor::new(vals, &Device::Cpu).unwrap().reshape(d).unwrap()
}

fn encoder(rope_dim: usize, max_pos: usize) -> RotaryPositionEncoder {
    let theta = Tensor::new(10000f32, &Device::Cpu).unwrap();
    RotaryPositionEncoder::new(&theta, rope_dim, max_pos).unwrap()
}

#[test]
fn rotation_preserves_pair_norms() {
    // A rotation never changes the norm of the (x₁, x₂) pair it mixes,
    // at any offset.
    let enc = encoder(4, 32);
    let q_vals: Vec<f32> = (0..2 * 2 * 3 * 4)
        .map(|i| (((i * 13 + 5) % 19) as f32 - 9.0) / 9.5)
        .collect();
    let k_vals: Vec<f32> = (0..2 * 1 * 3 * 4)
        .map(|i| (((i * 7 + 3) % 17) as f32 - 8.0) / 8.5)
        .collect();
    for offsets in [vec![0usize, 0], vec![5, 11]] {
        let q = t4(q_vals.clone(), (2, 2, 3, 4));
        let k = t4(k_vals.clone(), (2, 1, 3, 4));
        let (rq, rk) = enc.forward(&q, &k, &offsets).unwrap();
        for (orig, rot) in [(&q, &rq), (&k, &rk)] {
            let o = orig.flatten_all().unwrap().to_vec1::<f32>().unwrap();
            let r = rot.flatten_all().unwrap().to_vec1::<f32>().unwrap();
            // Pairs are (x[i], x[i + half]) within each 4-wide slice.
            for base in (0..o.len()).step_by(4) {
                for h in 0..2 {
                    let no = o[base + h].powi(2) + o[base + h + 2].powi(2);
                    let nr = r[base + h].powi(2) + r[base + h + 2].powi(2);
                    assert!((no - nr).abs() < 1e-4, "norm changed: {no} vs {nr}");
                }
            }
        }
    }
}

#[test]
fn zero_offset_first_position_is_identity() {
    // Angle 0 rotates by (cos 0, sin 0) = (1, 0): the first position at
    // offset 0 passes through unchanged.
    let enc = encoder(4, 8);
    let q = t4(vec![0.3, -0.7, 0.2, 0.9], (1, 1, 1, 4));
    let k = t4(vec![0.1, 0.4, -0.2, 0.5], (1, 1, 1, 4));
    let (rq, rk) = enc.forward(&q, &k, &vec![0]).unwrap();
    let rqv = rq.flatten_all().unwrap().to_vec1::<f32>().unwrap();
    let rkv = rk.flatten_all().unwrap().to_vec1::<f32>().unwrap();
    for (a, b) in rqv.iter().zip([0.3f32, -0.7, 0.2, 0.9].iter()) {
        assert!((a - b).abs() < 1e-6);
    }
    for (a, b) in rkv.iter().zip([0.1f32, 0.4, -0.2, 0.5].iter()) {
        assert!((a - b).abs() < 1e-6);
    }
}

#[test]
fn nonzero_offset_changes_values() {
    // The rotation is real: a later offset must move the vector.
    let enc = encoder(4, 8);
    let q = t4(vec![1.0, 0.0, 0.0, 1.0], (1, 1, 1, 4));
    let k = t4(vec![0.0, 1.0, 1.0, 0.0], (1, 1, 1, 4));
    let (rq, _rk) = enc.forward(&q, &k, &vec![3]).unwrap();
    let rqv = rq.flatten_all().unwrap().to_vec1::<f32>().unwrap();
    let moved = rqv
        .iter()
        .zip([1.0f32, 0.0, 0.0, 1.0].iter())
        .any(|(a, b)| (a - b).abs() > 1e-3);
    assert!(moved, "offset 3 left the vector unchanged: {rqv:?}");
}

#[test]
fn matches_explicit_angle_formula() {
    // freq₀ = 1, so position p rotates the first pair by exactly p
    // radians: check against cos/sin computed directly.
    let enc = encoder(2, 8);
    let q = t4(vec![1.0, 0.0], (1, 1, 1, 2));
    let k = t4(vec![1.0, 0.0], (1, 1, 1, 2));
    let (rq, _rk) = enc.forward(&q, &k, &vec![2]).unwrap();
    let rqv = rq.flatten_all().unwrap().to_vec1::<f32>().unwrap();
    let p = 2f32;
    assert!((rqv[0] - p.cos()).abs() < 1e-5);
    assert!((rqv[1] - p.sin()).abs() < 1e-5);
}

#[test]
fn per_sequence_offsets_differ() {
    // Two batch elements with different offsets get different
    // rotations of the same content.
    let enc = encoder(4, 16);
    let vals = vec![0.5f32, -0.3, 0.8, 0.2];
    let q = t4([vals.clone(), vals.clone()].concat(), (2, 1, 1, 4));
    let k = t4([vals.clone(), vals.clone()].concat(), (2, 1, 1, 4));
    let (rq, _rk) = enc.forward(&q, &k, &vec![0, 7]).unwrap();
    let rv = rq.flatten_all().unwrap().to_vec1::<f32>().unwrap();
    let first = &rv[0..4];
    let second = &rv[4..8];
    assert!(first.iter().zip(second.iter()).any(|(a, b)| (a - b).abs() > 1e-3));
}
