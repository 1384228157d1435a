//! A verified orchestration core for batch image inference.
//!
//! The library moves frames from a lazily enumerated image source through
//! inference, annotation and persistence stages. The stages that talk to the
//! outside world (the inference engine, the rasterizer, the image codec, the
//! file system) are reached through collaborator traits and a few trusted
//! wrappers; everything the library itself decides — enumeration, batching
//! arithmetic, fallback policy, strategy selection, ordering and progress
//! accounting — is verified.

pub mod annotate;
pub mod batch_channel_ppl;
pub mod batch_loader;
pub mod batch_sequential;
pub mod batch_utils;
pub mod channel_ppl;
pub mod collab;
pub mod error;
pub mod infer_fn;
pub mod loader;
pub mod pathname;
pub mod predict;
pub mod progress;
pub mod sequential;
pub mod source;
