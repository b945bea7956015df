//! A library for classifying text by natural language, script and confidence,
//! exposed through three protocol surfaces: a one-shot command line, a REST
//! endpoint and a GraphQL-style schema, with a best-effort audit log of past
//! classifications.
//!
//! The detection algorithm itself is an external collaborator; this crate
//! orchestrates it: it normalizes the detector's report into a validated
//! `ClassificationInfo`, encodes it per protocol, and keeps the persistence
//! path isolated from the response path.

pub mod confidence;
mod text;
pub mod classify;
pub mod json;
pub mod sink;
pub mod rest;
pub mod rpc;
pub mod cli;
