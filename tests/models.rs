use pulsiora::{GitEvent, GitEventType, GitTriggers, Repository, Step};

fn create_test_repo() -> Repository {
    Repository {
        owner: "test".to_string(),
        name: "repo".to_string(),
        full_name: "test/repo".to_string(),
        clone_url: "https://github.com/test/repo.git".to_string(),
        default_branch: "main".to_string(),
    }
}

fn event(kind: GitEventType, branch: Option<&str>, tag: Option<&str>) -> GitEvent {
    GitEvent {
        event_type: kind,
        repository: create_test_repo(),
        branch: branch.map(|b| b.to_string()),
        tag: tag.map(|t| t.to_string()),
        pull_request: None,
        commit_sha: None,
        sender: "user".to_string(),
    }
}

#[test]
fn test_git_triggers_default() {
    let triggers = GitTriggers::default();
    assert!(!triggers.on_push);
    assert_eq!(triggers.branches, vec!["*".to_string()]);
}

#[test]
fn test_git_triggers_matches_branch_wildcard() {
    let triggers = GitTriggers {
        branches: vec!["*".to_string()],
        ..Default::default()
    };
    assert!(triggers.matches_branch("main"));
    assert!(triggers.matches_branch("feature/abc"));
}

#[test]
fn test_git_triggers_matches_branch_specific() {
    let triggers = GitTriggers {
        branches: vec!["main".to_string()],
        ..Default::default()
    };
    assert!(triggers.matches_branch("main"));
    assert!(!triggers.matches_branch("develop"));
}

#[test]
fn test_git_triggers_matches_branch_pattern() {
    let triggers = GitTriggers {
        branches: vec!["feature/*".to_string()],
        ..Default::default()
    };
    assert!(triggers.matches_branch("feature/abc"));
    assert!(triggers.matches_branch("feature/xyz"));
    assert!(!triggers.matches_branch("main"));
}

#[test]
fn test_git_triggers_matches_event() {
    let triggers = GitTriggers {
        on_push: true,
        branches: vec!["main".to_string()],
        ..Default::default()
    };

    let event = GitEvent {
        event_type: GitEventType::Push,
        repository: create_test_repo(),
        branch: Some("main".to_string()),
        tag: None,
        pull_request: None,
        commit_sha: None,
        sender: "user".to_string(),
    };

    assert!(triggers.matches(&event));
}

#[test]
fn test_git_triggers_no_match_wrong_event() {
    let triggers = GitTriggers {
        on_push: true,
        on_pull_request: false,
        ..Default::default()
    };

    let event = GitEvent {
        event_type: GitEventType::PullRequest,
        repository: create_test_repo(),
        branch: None,
        tag: None,
        pull_request: None,
        commit_sha: None,
        sender: "user".to_string(),
    };

    assert!(!triggers.matches(&event));
}

#[test]
fn test_step_new() {
    let step = Step::new("test".to_string(), "echo hello".to_string());
    assert_eq!(step.name, "test");
    assert_eq!(step.run, "echo hello");
    assert!(!step.allow_failure);
}

#[test]
fn test_step_with_allow_failure() {
    let step = Step::new("test".to_string(), "echo hello".to_string())
        .with_allow_failure(true);
    assert!(step.allow_failure);
}

#[test]
fn prefix_pattern_matches_prefix_and_bare_slash_only() {
    let triggers = GitTriggers {
        branches: vec!["feature/*".to_string()],
        ..Default::default()
    };
    assert!(triggers.matches_branch("feature/abc"));
    assert!(triggers.matches_branch("feature/"));
    assert!(!triggers.matches_branch("main"));
    assert!(!triggers.matches_branch("feature"));
}

#[test]
fn empty_pattern_list_matches_no_branch() {
    let triggers = GitTriggers {
        on_push: true,
        branches: vec![],
        ..Default::default()
    };
    assert!(!triggers.matches_branch("main"));
    assert!(!triggers.matches(&event(GitEventType::Push, Some("main"), None)));
}

#[test]
fn any_pattern_of_several_may_match() {
    let triggers = GitTriggers {
        branches: vec!["main".to_string(), "release/*".to_string()],
        ..Default::default()
    };
    assert!(triggers.matches_branch("release/1.2"));
    assert!(triggers.matches_branch("main"));
    assert!(!triggers.matches_branch("releases"));
}

#[test]
fn event_without_branch_or_tag_needs_only_its_flag() {
    let triggers = GitTriggers {
        on_merge: true,
        branches: vec![],
        ..Default::default()
    };
    assert!(triggers.matches(&event(GitEventType::Merge, None, None)));
    assert!(!triggers.matches(&event(GitEventType::Release, None, None)));
}

#[test]
fn tag_without_branch_follows_the_tag_flag() {
    let tags = GitTriggers {
        on_tag: true,
        ..Default::default()
    };
    assert!(tags.matches(&event(GitEventType::Tag, None, Some("v1.0"))));
    let pushes = GitTriggers {
        on_push: true,
        ..Default::default()
    };
    assert!(!pushes.matches(&event(GitEventType::Push, None, Some("v1.0"))));
    let both = GitTriggers {
        on_push: true,
        on_tag: true,
        ..Default::default()
    };
    assert!(both.matches(&event(GitEventType::Push, None, Some("v1.0"))));
}

#[test]
fn each_flag_gates_its_own_kind() {
    let kinds = [
        GitEventType::Push,
        GitEventType::PullRequest,
        GitEventType::Merge,
        GitEventType::Tag,
        GitEventType::Release,
        GitEventType::BranchCreate,
        GitEventType::BranchDelete,
    ];
    for (i, k) in kinds.iter().enumerate() {
        let mut t = GitTriggers::default();
        match i {
            0 => t.on_push = true,
            1 => t.on_pull_request = true,
            2 => t.on_merge = true,
            3 => t.on_tag = true,
            4 => t.on_release = true,
            5 => t.on_branch_create = true,
            _ => t.on_branch_delete = true,
        }
        for (j, other) in kinds.iter().enumerate() {
            assert_eq!(t.matches(&event(*other, Some("main"), None)), i == j);
        }
        assert!(t.matches(&event(*k, None, None)));
    }
}

#[test]
fn event_kind_from_name() {
    assert_eq!(GitEventType::from("push"), GitEventType::Push);
    assert_eq!(GitEventType::from("pull_request"), GitEventType::PullRequest);
    assert_eq!(GitEventType::from("merge"), GitEventType::Merge);
    assert_eq!(GitEventType::from("tag"), GitEventType::Tag);
    assert_eq!(GitEventType::from("release"), GitEventType::Release);
    assert_eq!(GitEventType::from("branch_create"), GitEventType::BranchCreate);
    assert_eq!(GitEventType::from("branch_delete"), GitEventType::BranchDelete);
    assert_eq!(GitEventType::from("something"), GitEventType::Push);
}
