//! A designated-verifier zero-knowledge proof engine over the BN254 scalar
//! field: small-field VOLE, seed commitments, Fiat-Shamir challenges and a
//! degree-2 Quicksilver prover and verifier for R1CS.
pub mod challenges;
pub mod field;
pub mod linalg;
pub mod smallvole;
pub mod vecccom;
pub mod zkp;

pub use field::Fr;
pub use linalg::{DotProduct, FrMatrix, FrVec};
