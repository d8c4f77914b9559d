//! The self-analysis check of context-aware classification.
use std::path::PathBuf;
use vstd::prelude::*;

verus! {

/// Checks context-aware classification on the project at `project_path`.
pub struct ContextAwareSelfTest {
    pub project_path: PathBuf,
}

impl ContextAwareSelfTest {
    /// A check of the project at `project_path`.
    pub fn for_path(project_path: PathBuf) -> (r: Self)
        ensures
            r.project_path == project_path,
    {
        ContextAwareSelfTest { project_path }
    }
}

} // verus!
