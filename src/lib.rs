//! A ZIP archive synthesizer with an exact byte-level model, the pieces of a
//! differential fuzzer built around it, and the proofs that tie them together.

pub mod align;
pub mod bytes_mutation;
pub mod cdh;
pub mod codec;
pub mod config;
pub mod construction;
pub mod corpus;
pub mod crc;
pub mod dd;
pub mod encode;
pub mod eocd;
pub mod error;
pub mod extra;
pub mod feature;
pub mod fields;
pub mod fingerprint;
pub mod generate;
pub mod le;
pub mod lfh;
pub mod lookup;
pub mod rng;
pub mod zip;
pub mod zip_mutation;
