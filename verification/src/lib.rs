//! Live media index and transcode-pipeline core.
//!
//! The crate keeps a duplicate-free registry of tracked media paths, decides
//! which filesystem entries belong in it, reconciles it against filesystem
//! change events, and plans bounded-size preview ("thumbnail") encodes from
//! probed media metadata.

pub mod classify;
pub mod config;
pub mod index;
pub mod metadata;
pub mod num;
pub mod scan;
pub mod shared;
pub mod pipeline;
pub mod probe_json;
pub mod strutil;
