//! Packing a directory tree of map tiles into a single archive: the rules.
//!
//! The crate holds the decisions of a packing run, each with a contract: how
//! a tile's place is read from its path, how rows are renumbered, which
//! payload formats may be mixed, what the archive's metadata says. Reading
//! the tree and writing the archive are left to the caller.

pub mod args;
pub mod decimal;
pub mod format;
pub mod ingest;
pub mod metadata;
pub mod path;
pub mod report;
pub mod scheme;
pub mod text;
pub mod zoom;
