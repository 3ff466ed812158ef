//! Deterministic generation of Buck build declarations from a resolved
//! third-party package graph.
//!
//! The crate models Buck rules, renders them into starlark-style call
//! syntax with stable key order and omission of empty attributes, and
//! walks the package graph to decide which declarations each target
//! contributes.

pub mod buck;
pub mod buckify;
pub mod cargo;
pub mod config;
pub mod fixups;
pub mod laws;
pub mod order;
pub mod platform;
pub mod render;
pub mod sorted;
pub mod strutil;
