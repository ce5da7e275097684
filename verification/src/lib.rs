//! Brute-force search for "vanity" blockchain account addresses.
//!
//! The library generates fresh secp256k1 keypairs, derives the matching
//! account address, tests the address against a set of user-supplied
//! patterns, and formats any hit for durable recording. The pattern
//! classification and matching engine, the per-candidate search step with
//! its shared progress counters, and the record layout are all verified;
//! key generation, hashing and regex evaluation are called through narrow
//! trusted wrappers around the respective crates.

pub mod addresses;
pub mod counters;
pub mod generator;
pub mod patterns;
pub mod scheduler;
pub mod storage;
