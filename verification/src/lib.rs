//! Manifest-driven asset synchronization engine.
//!
//! Given a manifest document — a JSON object naming a version and an
//! ordered list of assets, each with a URL, a destination-relative path,
//! a declared size, and an optional SHA-256 checksum — the synchronizer
//! validates each asset's path against directory-escape, verifies
//! downloaded bytes against the declared checksum, and reports progress
//! through a sequence of events whose byte counts never decrease and end
//! at the manifest's total declared size. All network and filesystem work
//! is left to the caller; this crate holds the decisions and their proofs.

pub mod digest;
pub mod json;
pub mod manifest;
pub mod path_check;
pub mod progress;
pub mod sync;
pub mod text;
