//! Batch comparison of phylogenetic trees against a reference set.
//!
//! The crate matches candidate trees to reference trees by identifier,
//! compares each matched pair with an external tree-comparison engine,
//! and turns the outcomes into tabular records routed to up to three
//! output streams (topology, branch lengths, pairwise distances), with
//! an optional marker column stamped on every row.  Failures are either
//! accumulated and summarized at the end of a run or, in strict mode,
//! abort the run at the first parse error.

pub mod comp;
pub mod csv;
pub mod engine;
pub mod errors;
pub mod index;
pub mod num;
pub mod paths;
pub mod pipeline;
pub mod route;
