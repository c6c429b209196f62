//! Configuration model of a file-synchronization tool: global policy flags
//! plus a tree of per-path overrides, parsed from a JSON document value.

pub mod json;
pub mod options;
pub mod canonical;
