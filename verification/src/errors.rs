//! The error taxonomy of the pipeline.
//!
//! `Config` faults are always fatal; `Parse` faults are fatal only in
//! strict mode; `Comparison` faults follow the same strict/lenient
//! policy as `Parse` faults (a deliberate choice: a failed comparison
//! aborts the run only in strict mode, otherwise it is accumulated and
//! reported at the end).  A reference miss is never an error value; it
//! is tracked as data by the failure log.

use vstd::prelude::*;

verus! {

/// A fault that the pipeline can encounter.
#[derive(Debug)]
pub enum PipelineError {
    /// Invalid run configuration or an unusable reference directory.
    Config(String),
    /// A tree file could not be parsed or yields no identifier.
    Parse(String),
    /// The comparison engine failed on a matched pair of trees.
    Comparison(String),
}

impl PipelineError {
    /// The human-readable text of the fault.
    pub fn message(&self) -> (r: String)
        ensures
            r@ == self.message_spec(),
    {
        match self {
            PipelineError::Config(m) => m.clone(),
            PipelineError::Parse(m) => m.clone(),
            PipelineError::Comparison(m) => m.clone(),
        }
    }

    /// The text carried by the fault.
    pub open spec fn message_spec(self) -> Seq<char> {
        match self {
            PipelineError::Config(m) => m@,
            PipelineError::Parse(m) => m@,
            PipelineError::Comparison(m) => m@,
        }
    }

    /// Whether the fault is a configuration fault.
    pub fn is_config(&self) -> (r: bool)
        ensures
            r == (self is Config),
    {
        match self {
            PipelineError::Config(_) => true,
            _ => false,
        }
    }

    /// Whether the fault is a parse fault.
    pub fn is_parse(&self) -> (r: bool)
        ensures
            r == (self is Parse),
    {
        match self {
            PipelineError::Parse(_) => true,
            _ => false,
        }
    }

    /// Whether the fault is a comparison fault.
    pub fn is_comparison(&self) -> (r: bool)
        ensures
            r == (self is Comparison),
    {
        match self {
            PipelineError::Comparison(_) => true,
            _ => false,
        }
    }
}

} // verus!
