//! Harvesting of the content hashes declared by the derivations of a package set:
//! extraction from derivation metadata, deduplication, batching under a bounded
//! number of concurrent queries, and throughput estimation; with the parsing of
//! hashes and the resolution of flake lock inputs.
pub mod extract;
pub mod fetchers;
pub mod flake;
pub mod harvest;
pub mod hash;
pub mod json;
pub mod pipeline;
pub mod timing;
