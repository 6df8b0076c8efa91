//! The ways in which a run can fail. Every one of them ends the run.

use vstd::prelude::*;

verus! {

/// Why a run was given up.
#[derive(Debug, Clone, Copy, PartialEq, Eq, Structural)]
pub enum PipelineError {
    /// The input could not be read to its end as UTF-8.
    Input,
    /// The tokenizer could not load its dictionary or model.
    Resource,
    /// A record could not be serialised.
    Serialization,
}

} // verus!
