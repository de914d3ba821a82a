//! Verified computational core of a decoder layer with multi-head latent
//! attention (MLA) and a mixture-of-experts (MoE) feed-forward block.
//!
//! Tensor values are carried by `candle_core::Tensor`; their floating-point
//! contents are opaque to the verifier.  What is verified is everything the
//! verifier can see: the tensor-shape algebra of every projection, split,
//! rotation and attention step, and the integer index logic of expert
//! routing (top-k selection, group-limited masking, gather/scatter
//! bookkeeping).

pub mod attention;
pub mod config;
pub mod err;
pub mod layer;
pub mod model;
pub mod moe;
pub mod projection;
pub mod rope;
pub mod router;
pub mod sampling;
pub mod shape;
pub mod tensor;
