//! A toolkit for constructing and verifying non-interactive zero-knowledge
//! proofs of knowledge of discrete logarithms, in the Camenisch-Stadler style,
//! over the BLS12-381 G1 group.

pub mod algebra;
pub mod codec;
pub mod errors;
pub mod laws;
pub mod point;
pub mod scalar;
pub mod statement;
pub mod toolbox;
pub mod transcript;
pub mod util;
