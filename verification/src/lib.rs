//! Fetching a package with all it depends on, and choosing what to unpack.
//!
//! The library holds the decisions of the tool: which packages make up the
//! dependency closure of a root package, which archive entries are written
//! to disk, which package job runs when under a bound on concurrency, what
//! a command line configures and what the progress display shows. Network,
//! archive decoding, the file system and the terminal stay with the program
//! that drives it.
pub mod config;
pub mod error;
pub mod filter;
pub mod package;
pub mod progress;
pub mod resolver;
pub mod scheduler;
