use pulsiora::{
    event_from_webhook, format_status, format_step_status, normalize_repo_identifier,
    GitEventType, PipelineStatus, ProcessConfig, PullRequest, PulsioraError, Repository,
    StepStatus,
};

fn repo() -> Repository {
    Repository {
        owner: "o".to_string(),
        name: "r".to_string(),
        full_name: "o/r".to_string(),
        clone_url: "https://github.com/o/r.git".to_string(),
        default_branch: "main".to_string(),
    }
}

#[test]
fn repo_urls_become_owner_and_name() {
    assert_eq!(normalize_repo_identifier("https://github.com/owner/repo"), "owner/repo");
    assert_eq!(normalize_repo_identifier("https://github.com/owner/repo.git"), "owner/repo");
    assert_eq!(normalize_repo_identifier("http://host/a/b.git.git"), "a/b");
    assert_eq!(normalize_repo_identifier("owner/repo"), "owner/repo");
    assert_eq!(normalize_repo_identifier("repo.git"), "repo.git");
    assert_eq!(normalize_repo_identifier("https://github.com/"), "github.com/");
}

#[test]
fn status_labels() {
    assert_eq!(format_status(PipelineStatus::Pending), "PENDING");
    assert_eq!(format_status(PipelineStatus::Running), "RUNNING");
    assert_eq!(format_status(PipelineStatus::Success), "SUCCESS");
    assert_eq!(format_status(PipelineStatus::Failed), "FAILED");
    assert_eq!(format_status(PipelineStatus::Cancelled), "CANCELLED");
    assert_eq!(format_status(PipelineStatus::Skipped), "SKIPPED");
    assert_eq!(format_step_status(StepStatus::Pending), "PENDING");
    assert_eq!(format_step_status(StepStatus::Running), "RUNNING");
    assert_eq!(format_step_status(StepStatus::Success), "SUCCESS");
    assert_eq!(format_step_status(StepStatus::Failed), "FAILED");
    assert_eq!(format_step_status(StepStatus::Skipped), "SKIPPED");
}

#[test]
fn push_delivery_carries_branch_and_commit() {
    let e = event_from_webhook(
        "push",
        repo(),
        Some("refs/heads/feature/x".to_string()),
        None,
        Some("abc".to_string()),
        "me".to_string(),
    )
    .unwrap();
    assert_eq!(e.event_type, GitEventType::Push);
    assert_eq!(e.branch, Some("feature/x".to_string()));
    assert_eq!(e.commit_sha, Some("abc".to_string()));
    assert_eq!(e.sender, "me");
    let tag_push = event_from_webhook("push", repo(), Some("refs/tags/v1".to_string()), None, None, String::new()).unwrap();
    assert_eq!(tag_push.branch, None);
}

#[test]
fn create_delivery_is_a_tag_or_a_branch() {
    let t = event_from_webhook("create", repo(), Some("refs/tags/v1.2".to_string()), None, None, "u".to_string()).unwrap();
    assert_eq!(t.event_type, GitEventType::Tag);
    assert_eq!(t.tag, Some("v1.2".to_string()));
    assert_eq!(t.branch, None);
    let b = event_from_webhook("create", repo(), Some("refs/heads/dev".to_string()), None, None, "u".to_string()).unwrap();
    assert_eq!(b.event_type, GitEventType::BranchCreate);
    assert_eq!(b.branch, Some("dev".to_string()));
    assert_eq!(b.tag, None);
}

#[test]
fn delete_and_pull_request_deliveries() {
    let d = event_from_webhook("delete", repo(), Some("refs/heads/old".to_string()), None, None, "u".to_string()).unwrap();
    assert_eq!(d.event_type, GitEventType::BranchDelete);
    assert_eq!(d.branch, Some("old".to_string()));
    let pr = PullRequest {
        number: 4,
        title: "t".to_string(),
        base_branch: "main".to_string(),
        head_branch: "f".to_string(),
        state: "open".to_string(),
    };
    let p = event_from_webhook("pull_request", repo(), None, Some(pr.clone()), Some("c".to_string()), "u".to_string()).unwrap();
    assert_eq!(p.event_type, GitEventType::PullRequest);
    assert_eq!(p.pull_request, Some(pr));
    assert_eq!(p.commit_sha, None);
    assert!(event_from_webhook("issues", repo(), None, None, None, "u".to_string()).is_none());
}

#[test]
fn error_texts_name_their_kind() {
    assert_eq!(PulsioraError::ExecutionError("x".to_string()).to_string(), "Execution error: x");
    assert_eq!(PulsioraError::IoError("x".to_string()).to_string(), "IO error: x");
    assert_eq!(PulsioraError::GitHubError("x".to_string()).to_string(), "GitHub API error: x");
    assert_eq!(PulsioraError::PipelineNotFound("x".to_string()).to_string(), "Pipeline not found: x");
    assert_eq!(PulsioraError::InvalidConfiguration("x".to_string()).to_string(), "Invalid configuration: x");
    assert_eq!(PulsioraError::NetworkError("x".to_string()).to_string(), "Network error: x");
}

#[test]
fn process_config_defaults() {
    let c = ProcessConfig::default();
    assert!(c.timeout_ms.is_none());
    assert!(c.env.is_empty());
    assert!(c.working_directory.is_none());
}
