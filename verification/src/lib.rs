//! Repository analysis orchestration: run a fixed battery of external
//! analyzers over a directory of repositories and emit one structured
//! record per repository.
//!
//! The library holds the decisions and the encodings; starting processes and
//! touching the file system is left to its caller, who hands in a process
//! runner and an output sink.
//!
//! - [`registry`]: the ordered list of analyzers;
//! - [`invocation`]: how an invocation can end, what text is kept of it, and
//!   the timed wrapper;
//! - [`report`]: the per-repository analyzer and its report;
//! - [`sink`]: the record encoding of the output stream;
//! - [`batch`]: the driver over all repositories under a root;
//! - [`filter`], [`fetch`], [`source_dump`], [`pipeline`]: the steps around
//!   the analysis;
//! - [`text`]: lines and numerals.

pub mod batch;
pub mod fetch;
pub mod filter;
pub mod invocation;
pub mod pipeline;
pub mod registry;
pub mod report;
pub mod sink;
pub mod source_dump;
pub mod text;
