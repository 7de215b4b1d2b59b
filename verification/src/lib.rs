//! A first-order linear-chain conditional random field (CRF) toolkit.
//!
//! The crate trains a probabilistic sequence labeler from labeled training
//! sequences, persists the learned model in the `lCRF` binary format, and
//! applies it to tag new sequences.
//!
//! Real-valued quantities (scores, weights, frequencies) are carried
//! everywhere as IEEE-754 binary64 bit patterns stored in `u64`; the
//! arithmetic on them is done through the software IEEE-754 implementation
//! of the `rustc_apfloat` crate, so that every algorithm in this crate is
//! expressed over plain integers.  Elementwise exponentials and logarithms
//! cannot be computed here; the functions that need them take the
//! exponentiated (or logarithm) tables as inputs, and the caller supplies
//! them.

pub mod context;
pub mod data;
pub mod dataset;
pub mod encoder;
pub mod evaluation;
pub mod features;
pub mod floats;
pub mod model;
pub mod quark;
pub mod tagger;
pub mod trainer;

use vstd::prelude::*;

verus! {

/// The errors that the toolkit's operations surface to callers.
#[derive(Debug, Clone, Copy, PartialEq, Eq, Structural)]
pub enum CrfError {
    /// Bytes fail the magic/size/offset checks of the model format.
    InvalidModel,
    /// A sequence's item list and label list have different lengths,
    /// or an id is out of range.
    ShapeMismatch,
    /// A hyperparameter name is not recognised.
    UnknownParam,
    /// A hyperparameter value is rejected.
    BadValue,
    /// Training was requested with zero sequences or zero features.
    Empty,
}

} // verus!
