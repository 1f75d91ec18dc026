//! Analysis of hash-bucket distributions for sets of integer identifiers.
//!
//! Given an ascending list of identifiers, the library evaluates candidate
//! moduli ("seeds"): for each seed it computes occupancy statistics of the
//! buckets `id % seed`, sweeps a bounded seed range for the most compact
//! distribution, and searches for a collision-free (perfect) modulus.

pub mod analysis;
pub mod bits;
pub mod run;
pub mod search;
