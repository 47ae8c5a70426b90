use pulsiora::{
    GitEvent, GitEventType, InMemoryStorage, PipelineExecution, PipelineStatus, RegisteredRepo,
    RepoType, Repository,
};
use uuid::Uuid;

fn create_test_execution(id: Uuid) -> PipelineExecution {
    execution_in(id.as_u128(), "test/repo", chrono::Utc::now().timestamp_millis())
}

fn execution_in(id: u128, full_name: &str, started_at: i64) -> PipelineExecution {
    let repo = Repository {
        owner: "test".to_string(),
        name: "repo".to_string(),
        full_name: full_name.to_string(),
        clone_url: "https://github.com/test/repo.git".to_string(),
        default_branch: "main".to_string(),
    };

    let event = GitEvent {
        event_type: GitEventType::Push,
        repository: repo.clone(),
        branch: Some("main".to_string()),
        tag: None,
        pull_request: None,
        commit_sha: None,
        sender: "test".to_string(),
    };

    PipelineExecution {
        id,
        pipeline_name: "test".to_string(),
        pipeline_version: "1.0".to_string(),
        repository: repo,
        git_event: event,
        status: PipelineStatus::Success,
        step_results: vec![],
        started_at,
        completed_at: Some(started_at),
    }
}

#[test]
fn test_storage_store_and_retrieve() {
    let mut storage = InMemoryStorage::new();
    let id = Uuid::new_v4();
    let execution = create_test_execution(id);

    storage.store_execution(execution.clone());
    let retrieved = storage.get_execution(&id.to_string());

    assert!(retrieved.is_some());
    assert_eq!(retrieved.unwrap().id, id.as_u128());
}

#[test]
fn test_storage_not_found() {
    let storage = InMemoryStorage::new();
    let id = Uuid::new_v4();

    assert!(storage.get_execution(&id.to_string()).is_none());
}

#[test]
fn test_storage_list_executions() {
    let mut storage = InMemoryStorage::new();
    let id1 = Uuid::new_v4();
    let id2 = Uuid::new_v4();

    storage.store_execution(create_test_execution(id1));
    storage.store_execution(create_test_execution(id2));

    let executions = storage.list_executions();
    assert_eq!(executions.len(), 2);
}

#[test]
fn uuid_text_is_read_as_its_value() {
    let mut storage = InMemoryStorage::new();
    storage.store_execution(execution_in(0xa1a2a3a4b1b2c1c2d1d2d3d4d5d6d7d8, "o/r", 1));
    let e = storage.get_execution("a1a2a3a4-b1b2-c1c2-d1d2-d3d4d5d6d7d8").unwrap();
    assert_eq!(e.id, 0xa1a2a3a4b1b2c1c2d1d2d3d4d5d6d7d8);
    assert!(storage.get_execution("not-a-uuid").is_none());
    assert!(storage.get_execution_by_id(7).is_none());
}

#[test]
fn storing_an_id_again_replaces_its_record() {
    let mut storage = InMemoryStorage::new();
    storage.store_execution(execution_in(1, "o/r", 10));
    storage.store_execution(execution_in(2, "o/r", 20));
    let mut again = execution_in(1, "o/r", 30);
    again.pipeline_name = "renamed".to_string();
    storage.store_execution(again);
    let all = storage.list_executions();
    assert_eq!(all.len(), 2);
    assert_eq!(all[0].id, 1);
    assert_eq!(all[0].pipeline_name, "renamed");
    assert_eq!(all[1].id, 2);
}

#[test]
fn by_repo_is_latest_first_and_limited() {
    let mut storage = InMemoryStorage::new();
    storage.store_execution(execution_in(1, "o/r", 10));
    storage.store_execution(execution_in(2, "x/y", 50));
    storage.store_execution(execution_in(3, "o/r", 30));
    storage.store_execution(execution_in(4, "o/r", 20));
    storage.store_execution(execution_in(5, "o/r", 30));
    let ids: Vec<u128> = storage.get_executions_by_repo("o/r", 10).iter().map(|e| e.id).collect();
    assert_eq!(ids, vec![3, 5, 4, 1]);
    let ids: Vec<u128> = storage.get_executions_by_repo("o/r", 2).iter().map(|e| e.id).collect();
    assert_eq!(ids, vec![3, 5]);
    assert!(storage.get_executions_by_repo("none/here", 10).is_empty());
    assert!(storage.get_executions_by_repo("o/r", 0).is_empty());
}

fn repo(ident: &str, pulsefile: &str) -> RegisteredRepo {
    RegisteredRepo {
        repo_url: format!("https://github.com/{}", ident),
        repo_identifier: ident.to_string(),
        pulsefile: pulsefile.to_string(),
        repo_type: RepoType::GitHub,
    }
}

#[test]
fn registry_registers_replaces_and_removes() {
    let mut storage = InMemoryStorage::default();
    assert!(!storage.is_repo_registered("o/r"));
    storage.register_repo(repo("o/r", "pipeline { }"));
    storage.register_repo(repo("a/b", "x"));
    assert!(storage.is_repo_registered("o/r"));
    assert_eq!(storage.get_repo_pulsefile("o/r"), Some("pipeline { }".to_string()));
    storage.register_repo(repo("o/r", "pipeline { name: \"n\"; }"));
    assert_eq!(storage.get_repo_pulsefile("o/r"), Some("pipeline { name: \"n\"; }".to_string()));
    assert!(storage.unregister_repo("o/r"));
    assert!(!storage.unregister_repo("o/r"));
    assert!(!storage.is_repo_registered("o/r"));
    assert_eq!(storage.get_repo_pulsefile("o/r"), None);
    assert_eq!(storage.get_repo_pulsefile("a/b"), Some("x".to_string()));
}
