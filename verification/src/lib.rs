//! Groth16 proofs over BN254 for compiled arithmetic circuits.
//!
//! The crate covers one proof pipeline: taking in a constraint system,
//! binding named inputs into a full assignment, generating a pair of keys,
//! proving, verifying, and encoding keys, proofs and public inputs byte for
//! byte as an external verifier reads them.
//!
//! The scheme, the curve and the field arithmetic are those of the
//! arkworks crates. Everything around them is verified: what is handed to
//! them, what is made of their answers, and every encoding that this crate
//! lays out itself.
pub mod artifact;
pub mod bytes;
pub mod circuit;
pub mod encoder;
pub mod error;
pub mod field;
pub mod groth16;
pub mod layout;
pub mod pipeline;
pub mod request;
pub mod resolver;
pub mod text;
pub mod witness;
