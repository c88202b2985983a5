//! Assembly of documentation bundles ("docsets") from a rustdoc HTML tree.
//!
//! The library holds the logic of the pipeline: the classification of HTML
//! pages into symbol entries, the walk over a documentation tree, the rows and
//! schema of the search index, the descriptor of the bundle, its layout, and
//! the arguments handed to cargo. Reading and writing files is left to the
//! caller, which hands the library plain values.

pub mod common;
pub mod config;
pub mod index;
pub mod layout;
pub mod classify;
pub mod plist;
pub mod report;
pub mod text;
pub mod walk;
