//! Verified core of a file inspector: configuration, name exclusion rules,
//! tag handling, size formatting, indexing tallies and the inspector's state.

pub mod text;
pub mod sizes;
pub mod config;
pub mod exclusion;
pub mod tags;
pub mod metadata;
pub mod indexing;
pub mod search;
pub mod inspector;
pub mod json_cache;
pub mod rows;

pub use exclusion::is_file_excluded;
pub use sizes::format_file_size;
