//! AstroBWTv3: a 256-bit hash built from stream ciphers, small hashes, a
//! data-dependent byte-mutation loop and a suffix array over the loop's
//! accumulated snapshots.
//!
//! An input is hashed in five stages. Its SHA-256 digest is expanded to 256
//! bytes with Salsa20 and masked with RC4; a loop of 261 to 277 iterations
//! mutates that buffer, each iteration choosing one of 256 four-step byte
//! programs and a short range from two running hashes, and leaves a snapshot
//! of the buffer per iteration; the suffix array of the snapshots is built;
//! and its serialization is hashed with SHA-256.
//!
//! Every stage has a mathematical description next to its code, and the
//! code is proved to compute it. SHA-256, Salsa20, RC4, FNV-1a, XXH64,
//! SipHash-2-4 and the suffix sort are computed by the crates that implement
//! them; `primitives` says what is taken for granted about each.

pub mod bits;
pub mod opcode;
pub mod primitives;
pub mod suffix;
pub mod state;
pub mod stream;
pub mod engine;
pub mod mixer;
pub mod astrobwtv3;
