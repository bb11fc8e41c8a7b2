//! A personal knowledge-vault engine.
//!
//! A vault is a directory tree of structured text documents ("shards").
//! The crate builds an arena-owned syntax graph for each document,
//! converts an externally parsed tree into that graph, walks and
//! re-serializes it, and exposes a virtual filesystem view of the vault
//! with a content-based symbolic-link convention.

pub mod arena;
pub mod codec;
pub mod emerald;
pub mod convert;
pub mod fork;
pub mod fs;
pub mod header;
pub mod jewel;
pub mod node;
pub mod parse;
pub mod path;
pub mod raw;
pub mod render;
pub mod script;
pub mod shard;
pub mod value;
pub mod walker;
pub mod writer;

pub use crate::emerald::Emerald;
