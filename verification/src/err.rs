//! Error taxonomy of the layer core.
//!
//! Construction-time inconsistencies are `Configuration`; shape mismatches
//! detected before any tensor work are `Shape`; everything the tensor
//! library reports is propagated unchanged inside `Numeric`.

use vstd::prelude::*;

verus! {

/// `candle_core::Error` carried through `ModelError::Numeric`; the type is
/// opaque to the verifier and is only moved, never inspected.
#[verifier::external_type_specification]
#[verifier::external_body]
pub struct ExCandleError(candle_core::Error);

/// What a forward or constructor call can report to its caller.
#[derive(Debug)]
pub enum ModelError {
    /// Inconsistent construction-time constants: head or rank dimensions
    /// that do not fit together, a group count that does not divide the
    /// expert count, or a routing policy missing its required bias.
    Configuration,
    /// An input tensor whose dimensions do not match the configuration.
    Shape,
    /// A failure propagated from the underlying tensor library.
    Numeric(candle_core::Error),
}

impl ModelError {
    /// A short stable label for each variant, usable by an embedding
    /// application for reporting.
    pub fn label(&self) -> (r: &'static str)
        ensures
            (self is Configuration ==> r@ == "configuration"@),
            (self is Shape ==> r@ == "shape"@),
            (self is Numeric ==> r@ == "numeric"@),
    {
        match self {
            ModelError::Configuration => "configuration",
            ModelError::Shape => "shape",
            ModelError::Numeric(_) => "numeric",
        }
    }
}

} // verus!
