//! Verified core of a command-line front end for a local media library.
//!
//! The library engine itself (content-addressed storage, hashing, series
//! persistence) is an external collaborator; this crate holds the verified
//! ingestion and resolution pipelines that drive it: resolving a batch of
//! file references, classifying media, reconciling per-file ingestion
//! outcomes, binding outcomes into a series, and resolving a free-form
//! query string into media identifiers.

pub mod text;
pub mod media;
pub mod manifest;
pub mod engine;
pub mod ingest;
pub mod series;
pub mod resolve;
pub mod config;
