use pulsiora::{
    parse_pulsefile, GitEvent, GitEventType, Pipeline, PipelineExecution, PipelineExecutor,
    PipelineStatus, Repository, Step, StepResult, StepStatus,
};

fn create_test_repo() -> Repository {
    Repository {
        owner: "test".to_string(),
        name: "repo".to_string(),
        full_name: "test/repo".to_string(),
        clone_url: "https://github.com/test/repo.git".to_string(),
        default_branch: "main".to_string(),
    }
}

fn create_test_event() -> GitEvent {
    GitEvent {
        event_type: GitEventType::Push,
        repository: create_test_repo(),
        branch: Some("main".to_string()),
        tag: None,
        pull_request: None,
        commit_sha: None,
        sender: "test".to_string(),
    }
}

/// Drives a run as a caller does, with each step's process ending with the
/// exit code that `exit_code_of` gives for its command.
fn run(pipeline: &Pipeline, event: &GitEvent, exit_code_of: &dyn Fn(&str) -> i32) -> PipelineExecution {
    let executor = PipelineExecutor::new();
    let mut execution = executor.start(pipeline, event);
    while let Some(k) = execution.next_step() {
        let step = &pipeline.steps[k];
        let code = exit_code_of(&step.run);
        let result = StepResult::from_exit(step, Some(code), String::new(), String::new(), 1, 2, 3);
        execution.record_step(pipeline, result);
    }
    execution
}

/// What `sh -c` gives for the commands of these tests.
fn shell(command: &str) -> i32 {
    if command.starts_with("exit ") {
        command[5..].trim().parse().unwrap()
    } else {
        0
    }
}

fn execute_from_pulsefile(pulsefile: &str, event: &GitEvent) -> PipelineExecution {
    let pipeline = parse_pulsefile(pulsefile).unwrap();
    run(&pipeline, event, &shell)
}

#[test]
fn test_executor_skips_non_matching_trigger() {
    let pulsefile = r#"
pipeline {
  name: "test";
  triggers {
    git {
      on_push: false;
    }
  }
  steps {
    step "test" {
      run: """echo "test"""";
    }
  }
}
"#;

    let execution = execute_from_pulsefile(pulsefile, &create_test_event());

    assert_eq!(execution.status, PipelineStatus::Skipped);
    assert_eq!(execution.step_results.len(), 0);
    assert!(execution.completed_at.is_some());
}

#[test]
fn test_executor_executes_matching_pipeline() {
    let pulsefile = r#"
pipeline {
  name: "test";
  triggers {
    git {
      on_push: true;
      branches: ["main"];
    }
  }
  steps {
    step "test" {
      run: """echo "hello world"""";
    }
  }
}
"#;

    let execution = execute_from_pulsefile(pulsefile, &create_test_event());

    assert_eq!(execution.status, PipelineStatus::Success);
    assert_eq!(execution.step_results.len(), 1);
    assert_eq!(execution.step_results[0].step_name, "test");
    assert_eq!(execution.step_results[0].status, StepStatus::Success);
}

#[test]
fn test_executor_stops_on_failure() {
    let pulsefile = r#"
pipeline {
  name: "test";
  triggers {
    git {
      on_push: true;
    }
  }
  steps {
    step "failing" {
      run: """exit 1""";
    }
    step "should_not_run" {
      run: """echo "should not run"""";
    }
  }
}
"#;

    let execution = execute_from_pulsefile(pulsefile, &create_test_event());

    assert_eq!(execution.status, PipelineStatus::Failed);
    assert_eq!(execution.step_results.len(), 1);
}

#[test]
fn test_executor_continues_on_allow_failure() {
    let pulsefile = r#"
pipeline {
  name: "test";
  triggers {
    git {
      on_push: true;
    }
  }
  steps {
    step "failing" {
      run: """exit 1""";
      allow_failure: true;
    }
    step "success" {
      run: """echo "success"""";
    }
  }
}
"#;

    let execution = execute_from_pulsefile(pulsefile, &create_test_event());

    assert_eq!(execution.status, PipelineStatus::Success);
    assert_eq!(execution.step_results.len(), 2);
    assert_eq!(execution.step_results[0].status, StepStatus::Failed);
    assert_eq!(execution.step_results[1].status, StepStatus::Success);
}

#[test]
fn test_executor_multiple_steps() {
    let pulsefile = r#"
pipeline {
  name: "test";
  triggers {
    git {
      on_push: true;
    }
  }
  steps {
    step "step1" {
      run: """echo "step1"""";
    }
    step "step2" {
      run: """echo "step2"""";
    }
    step "step3" {
      run: """echo "step3"""";
    }
  }
}
"#;

    let execution = execute_from_pulsefile(pulsefile, &create_test_event());

    assert_eq!(execution.status, PipelineStatus::Success);
    assert_eq!(execution.step_results.len(), 3);
    assert_eq!(execution.step_results[0].step_name, "step1");
    assert_eq!(execution.step_results[1].step_name, "step2");
    assert_eq!(execution.step_results[2].step_name, "step3");
}

#[test]
fn push_on_main_with_one_passing_step_succeeds() {
    let pulsefile = "pipeline { triggers { git { on_push: true; branches: [\"main\"]; } } steps { step \"hi\" { run: \"\"\"echo hi\"\"\"; } } }";
    let execution = execute_from_pulsefile(pulsefile, &create_test_event());
    assert_eq!(execution.status, PipelineStatus::Success);
    assert_eq!(execution.step_results.len(), 1);
    assert_eq!(execution.step_results[0].status, StepStatus::Success);
    assert_eq!(execution.step_results[0].exit_code, Some(0));
    assert_eq!(execution.pipeline_name, "default");
    assert_eq!(execution.repository.full_name, "test/repo");
}

#[test]
fn fatal_failure_in_the_middle_stops_the_run() {
    let steps = vec![
        Step::new("a".to_string(), "echo a".to_string()),
        Step::new("b".to_string(), "exit 3".to_string()).with_allow_failure(true),
        Step::new("c".to_string(), "exit 2".to_string()),
        Step::new("d".to_string(), "echo d".to_string()),
    ];
    let pipeline = Pipeline {
        name: "p".to_string(),
        version: "2".to_string(),
        triggers: pulsiora::Triggers {
            git: pulsiora::GitTriggers { on_push: true, ..Default::default() },
        },
        steps,
    };
    let execution = run(&pipeline, &create_test_event(), &shell);
    assert_eq!(execution.status, PipelineStatus::Failed);
    assert_eq!(execution.step_results.len(), 3);
    assert_eq!(execution.step_results[2].step_name, "c");
    assert_eq!(execution.step_results[2].exit_code, Some(2));
    assert!(execution.completed_at.is_some());
    assert!(execution.next_step().is_none());
}

#[test]
fn pipeline_without_steps_succeeds_at_once() {
    let pipeline = parse_pulsefile("pipeline { triggers { git { on_push: true; } } }").unwrap();
    let execution = PipelineExecutor::new().start(&pipeline, &create_test_event());
    assert_eq!(execution.status, PipelineStatus::Success);
    assert!(execution.next_step().is_none());
    assert!(execution.completed_at.is_some());
}

#[test]
fn running_run_names_the_next_step_and_stays_open() {
    let pipeline = parse_pulsefile(
        "pipeline { triggers { git { on_push: true; } } steps { step \"a\" { run: \"x\"; } step \"b\" { run: \"y\"; } } }",
    )
    .unwrap();
    let mut execution = PipelineExecutor::new().start(&pipeline, &create_test_event());
    assert_eq!(execution.status, PipelineStatus::Running);
    assert!(execution.completed_at.is_none());
    assert_eq!(execution.next_step(), Some(0));
    let r = StepResult::from_exit(&pipeline.steps[0], Some(0), "out".to_string(), String::new(), 5, 6, 11);
    execution.record_step(&pipeline, r);
    assert_eq!(execution.status, PipelineStatus::Running);
    assert_eq!(execution.next_step(), Some(1));
    assert!(execution.completed_at.is_none());
}

#[test]
fn exit_codes_classify_steps() {
    let step = Step::new("s".to_string(), "x".to_string());
    let ok = StepResult::from_exit(&step, Some(0), "o".to_string(), "e".to_string(), 7, 100, 107);
    assert_eq!(ok.status, StepStatus::Success);
    assert_eq!(ok.stdout, "o");
    assert_eq!(ok.stderr, "e");
    assert_eq!(ok.duration_ms, 7);
    assert_eq!(ok.completed_at, Some(107));
    let bad = StepResult::from_exit(&step, Some(127), String::new(), String::new(), 0, 0, 0);
    assert_eq!(bad.status, StepStatus::Failed);
    assert_eq!(bad.exit_code, Some(127));
    let killed = StepResult::from_exit(&step, None, String::new(), String::new(), 0, 0, 0);
    assert_eq!(killed.status, StepStatus::Failed);
}

#[test]
fn spawn_failure_is_a_failed_step_with_the_reason() {
    let step = Step::new("s".to_string(), "x".to_string());
    let r = StepResult::from_spawn_error(&step, "No such file or directory", 1, 2, 3);
    assert_eq!(r.status, StepStatus::Failed);
    assert_eq!(r.exit_code, None);
    assert_eq!(r.stdout, "");
    assert_eq!(r.stderr, "Failed to execute command: No such file or directory");
    assert_eq!(r.step_name, "s");
}

#[test]
fn executions_get_fresh_version_four_ids() {
    let pipeline = parse_pulsefile("pipeline { }").unwrap();
    let a = PipelineExecutor::new().start(&pipeline, &create_test_event());
    let b = PipelineExecutor::default().start(&pipeline, &create_test_event());
    assert_ne!(a.id, b.id);
    assert_eq!((a.id >> 76) & 0xf, 4);
    assert_eq!((a.id >> 62) & 0x3, 2);
    assert_eq!(a.status, PipelineStatus::Skipped);
}

#[test]
fn work_dir_is_kept() {
    let e = PipelineExecutor::new().with_work_dir("/tmp/build".to_string());
    assert_eq!(e.work_dir, Some("/tmp/build".to_string()));
    assert_eq!(PipelineExecutor::new().work_dir, None);
}
