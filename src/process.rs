//! Settings for running step processes.
use vstd::prelude::*;

verus! {

/// How a step process runs: an optional time limit in milliseconds, extra
/// environment variables, and an optional working directory.
#[derive(Debug, Clone)]
pub struct ProcessConfig {
    pub timeout_ms: Option<u64>,
    pub env: Vec<(String, String)>,
    pub working_directory: Option<String>,
}

impl Default for ProcessConfig {
    fn default() -> (r: Self)
        ensures
            r.timeout_ms is None,
            r.env@.len() == 0,
            r.working_directory is None,
    {
        ProcessConfig { timeout_ms: None, env: Vec::new(), working_directory: None }
    }
}

} // verus!
