//! The first phase of analysis: framework detection and business-domain
//! inference over a codebase.
use vstd::prelude::*;

verus! {

/// Runs the first phase of analysis on the codebase under `codebase_path`.
pub struct Phase1Demo {
    pub codebase_path: String,
}

impl Phase1Demo {
    /// A run over the codebase under `codebase_path`.
    pub fn new(codebase_path: String) -> (r: Self)
        ensures
            r.codebase_path@ == codebase_path@,
    {
        Phase1Demo { codebase_path }
    }
}

} // verus!
