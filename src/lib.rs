//! Event construction for the elliptic curve precompiles of a zkVM: point addition,
//! doubling and decompression over secp256k1 and BLS12-381, with exact memory records
//! and reconciliation of the per-instruction local memory access log.

pub mod codec;
pub mod curve;
pub mod ec;
pub mod memory;
