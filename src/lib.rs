//! Witness-level logic of a composed email-verification circuit: the pattern-match, hash,
//! text-encoding and signature sub-circuits over one private input, the constraints that
//! bind them together, and the shape rules of the proving pipeline.
pub mod encoding;
pub mod hash;
pub mod pattern;
pub mod binding;
pub mod circuit;
pub mod signature;
pub mod email;
pub mod pipeline;
