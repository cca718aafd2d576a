//! A structured map of a Rust workspace's public API surface: per-crate
//! module trees with public items, imports, re-exports and dependencies;
//! cross-crate references; flat indexes for lookups by canonical path,
//! short name and file; and validation of orphan files and dead
//! re-exports.
pub mod text;
pub mod split_join;
pub mod paths;
pub mod sort;
pub mod ordered_map;
pub mod schema;
pub mod syntax;
pub mod rust_source;
pub mod describe;
pub mod file_parser;
pub mod module_tree;
pub mod toml_model;
pub mod cargo_info;
pub mod workspace;
pub mod cross_refs;
pub mod indexes;
pub mod lookup;
pub mod validate;
pub mod map;
