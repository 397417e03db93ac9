//! Verified core of an image-classification benchmarking harness.
//!
//! The library owns the logic that is shared by every execution backend:
//! the resource catalog that maps file names to small integer handles, the
//! capability check that confines a sandboxed guest to its declared roots,
//! the compiled-module cache policy, the preprocessing pipeline that turns
//! an encoded image into a normalized channel-first tensor, the top-1
//! extraction over raw output scores, and the benchmark session state
//! machine.  Image decoding and resizing are delegated to the `image`
//! crate behind trusted wrappers; inference engines and all I/O live in
//! the unverified driver around this library.

pub mod bridge;
pub mod cache;
pub mod catalog;
pub mod errors;
pub mod harness;
pub mod preprocess;
pub mod scores;
