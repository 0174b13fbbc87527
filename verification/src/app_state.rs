use vstd::prelude::*;

verus! {

/// Tracks whether the managed Xray process is running and how it was started.
#[derive(Clone, Copy, Default)]
pub struct XrayProcessState {
    pub is_running: bool,
    pub pid: Option<u32>,
    pub started_at: Option<i64>,
    pub restart_count: u32,
}

impl XrayProcessState {
    /// Whether the process is currently marked as running.
    pub fn is_running(&self) -> (r: bool)
        ensures
            r == self.is_running,
    {
        self.is_running
    }
}

} // verus!
