//! Validation of Brazilian identification numbers by their check digits.
//!
//! The crate is built from a small set of verified primitives — digit
//! extraction, left padding and a weighted-sum checksum engine — and one
//! validator per document format on top of them.  Every validator states in
//! its contract exactly which digit layout and which modulo-11 variant the
//! format uses.

pub mod funcoes;
pub mod parser;
pub mod types;
pub mod validador;
