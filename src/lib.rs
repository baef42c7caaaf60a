//! A Bloom filter over string keys: a fixed-length bit array probed at
//! `hash_count` positions per key, each position taken from the 128-bit
//! MurmurHash3 (x64 variant) of the key under a distinct seed.
pub mod bits;
pub mod filter;
pub mod hashing;
pub mod laws;

pub use filter::{BloomError, BloomFilter};
