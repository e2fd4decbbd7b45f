//! The plain values exchanged with the outside collaborators: workspace
//! entries handed in by the script repository and the captured output handed
//! back by the script runner.

use vstd::prelude::*;

verus! {

/// What one entry of a workspace directory is.
#[derive(Debug, Clone, Copy, PartialEq, Eq, Structural)]
pub enum WorkspaceEntryKind {
    Directory,
    Script,
}

/// One entry of a workspace directory: directories are navigable, scripts are
/// runnable.
#[derive(Debug)]
pub struct WorkspaceEntry {
    pub path: String,
    pub kind: WorkspaceEntryKind,
}

impl Clone for WorkspaceEntry {
    fn clone(&self) -> (r: WorkspaceEntry)
        ensures
            r == *self,
    {
        WorkspaceEntry { path: self.path.clone(), kind: self.kind }
    }
}

/// What running a script produced.
#[derive(Debug)]
pub struct ScriptRunOutput {
    pub stdout: String,
    pub stderr: String,
    pub exit_code: Option<i32>,
    pub success: bool,
}

} // verus!
