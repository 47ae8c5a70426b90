//! The library's error type.
use vstd::prelude::*;
use vstd::string::*;

verus! {

/// What can go wrong. An I/O error is carried as its text.
#[derive(Debug, Clone, PartialEq)]
pub enum PulsioraError {
    ParseError(String),
    ExecutionError(String),
    IoError(String),
    GitHubError(String),
    PipelineNotFound(String),
    InvalidConfiguration(String),
    NetworkError(String),
}

/// The text that introduces each kind of error.
pub open spec fn error_prefix(e: PulsioraError) -> Seq<char> {
    match e {
        PulsioraError::ParseError(_) => "Parse error: "@,
        PulsioraError::ExecutionError(_) => "Execution error: "@,
        PulsioraError::IoError(_) => "IO error: "@,
        PulsioraError::GitHubError(_) => "GitHub API error: "@,
        PulsioraError::PipelineNotFound(_) => "Pipeline not found: "@,
        PulsioraError::InvalidConfiguration(_) => "Invalid configuration: "@,
        PulsioraError::NetworkError(_) => "Network error: "@,
    }
}

/// The message that each kind of error carries.
pub open spec fn error_detail(e: PulsioraError) -> Seq<char> {
    match e {
        PulsioraError::ParseError(m) => m@,
        PulsioraError::ExecutionError(m) => m@,
        PulsioraError::IoError(m) => m@,
        PulsioraError::GitHubError(m) => m@,
        PulsioraError::PipelineNotFound(m) => m@,
        PulsioraError::InvalidConfiguration(m) => m@,
        PulsioraError::NetworkError(m) => m@,
    }
}

impl PulsioraError {
    /// The error as text: its kind, then its message.
    pub fn to_string(&self) -> (r: String)
        ensures
            r@ == error_prefix(*self) + error_detail(*self),
    {
        match self {
            PulsioraError::ParseError(m) => String::from_str("Parse error: ").concat(m.as_str()),
            PulsioraError::ExecutionError(m) => String::from_str("Execution error: ").concat(
                m.as_str(),
            ),
            PulsioraError::IoError(m) => String::from_str("IO error: ").concat(m.as_str()),
            PulsioraError::GitHubError(m) => String::from_str("GitHub API error: ").concat(
                m.as_str(),
            ),
            PulsioraError::PipelineNotFound(m) => String::from_str("Pipeline not found: ").concat(
                m.as_str(),
            ),
            PulsioraError::InvalidConfiguration(m) => String::from_str(
                "Invalid configuration: ",
            ).concat(m.as_str()),
            PulsioraError::NetworkError(m) => String::from_str("Network error: ").concat(
                m.as_str(),
            ),
        }
    }
}

} // verus!
