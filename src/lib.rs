//! Pipelines described in the Pulsefile language: parsing, trigger matching
//! and the decisions of the execution engine, with their contracts.
pub mod error;
pub mod text;
pub mod models;
pub mod trigger;
pub mod lexer;
pub mod grammar;
pub mod parser;
pub mod engine;
pub mod storage;
pub mod webhook;
pub mod client;
pub mod process;

pub use client::{format_status, format_step_status, normalize_repo_identifier};
pub use engine::PipelineExecutor;
pub use error::PulsioraError;
pub use models::{
    GitEvent, GitEventType, GitTriggers, Pipeline, PipelineExecution, PipelineStatus, PullRequest,
    Repository, Step, StepResult, StepStatus, Triggers,
};
pub use parser::parse_pulsefile;
pub use process::ProcessConfig;
pub use storage::{InMemoryStorage, RegisteredRepo, RepoType};
pub use webhook::event_from_webhook;
