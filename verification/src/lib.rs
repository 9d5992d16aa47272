//! Recursive proof aggregation: commits a list of verification keys into a
//! fixed-depth registry tree, combines many base proofs into one aggregated
//! bundle with two deferred pairing operands, and verifies that bundle in two
//! stages (structural proof check, then the deferred pairing equation).
//!
//! The cryptographic collaborators (proving system, commitment scheme,
//! transcript hashing, curve arithmetic) are consulted only through their
//! interfaces; the protocol logic here works on plain limb-encoded values.
pub mod codec;
pub mod field;
pub mod pairing;
pub mod recursive;
