use pulsiora::{parse_pulsefile, PulsioraError};

#[test]
fn test_parse_simple_pipeline() {
    let input = r#"
pipeline {
  name: "test-pipeline";
  version: "1.0";
  triggers {
    git {
      on_push: true;
      branches: ["main"];
    }
  }
  steps {
    step "test" {
      run: """
        echo "test"
      """;
    }
  }
}
"#;
    let pipeline = parse_pulsefile(input).unwrap();
    assert_eq!(pipeline.name, "test-pipeline");
    assert_eq!(pipeline.version, "1.0");
    assert!(pipeline.triggers.git.on_push);
    assert_eq!(pipeline.triggers.git.branches, vec!["main"]);
    assert_eq!(pipeline.steps.len(), 1);
    assert_eq!(pipeline.steps[0].name, "test");
}

#[test]
fn test_parse_complex_pipeline() {
    let input = r#"
pipeline {
  name: "build-and-deploy";
  version: "1.0";
  triggers {
    git {
      on_push: true;
      on_pull_request: true;
      on_merge: true;
      on_tag: true;
      on_release: true;
      on_branch_create: true;
      on_branch_delete: true;
      branches: ["*"];
    }
  }
  steps {
    step "install" {
      run: """
        npm install
        pip install -r requirements.txt
      """;
    }
    step "lint" {
      run: """
        npm run lint
        pylint src/
      """;
      allow_failure: true;
    }
    step "test" {
      run: """
        npm test
        pytest tests/
      """;
    }
    step "build" {
      run: """
        npm run build
        docker build -t app:latest .
      """;
    }
    step "deploy" {
      run: """
        ./deploy.sh
      """;
    }
  }
}
"#;
    let pipeline = parse_pulsefile(input).unwrap();
    assert_eq!(pipeline.name, "build-and-deploy");
    assert_eq!(pipeline.version, "1.0");
    assert!(pipeline.triggers.git.on_push);
    assert!(pipeline.triggers.git.on_pull_request);
    assert!(pipeline.triggers.git.on_tag);
    assert_eq!(pipeline.triggers.git.branches, vec!["*"]);
    assert_eq!(pipeline.steps.len(), 5);
    assert_eq!(pipeline.steps[0].name, "install");
    assert_eq!(pipeline.steps[1].name, "lint");
    assert!(pipeline.steps[1].allow_failure);
    assert!(!pipeline.steps[0].allow_failure);
}

#[test]
fn test_parse_minimal_pipeline() {
    let input = r#"
pipeline {
  triggers {
    git {
    }
  }
  steps {
  }
}
"#;
    let pipeline = parse_pulsefile(input).unwrap();
    assert_eq!(pipeline.name, "default");
    assert_eq!(pipeline.version, "1.0");
    assert_eq!(pipeline.steps.len(), 0);
}

#[test]
fn test_parse_with_multiline_string() {
    let input = r#"
pipeline {
  name: "test";
  triggers {
    git {
      on_push: true;
    }
  }
  steps {
    step "multiline" {
      run: """
        echo "line 1"
        echo "line 2"
        echo "line 3"
      """;
    }
  }
}
"#;
    let pipeline = parse_pulsefile(input).unwrap();
    assert_eq!(pipeline.steps.len(), 1);
    let run_content = pipeline.steps[0].run.clone();
    assert!(run_content.contains("line 1"));
    assert!(run_content.contains("line 2"));
    assert!(run_content.contains("line 3"));
}

#[test]
fn test_parse_invalid_syntax() {
    let input = "invalid syntax here";
    assert!(parse_pulsefile(input).is_err());
}

#[test]
fn test_parse_empty_file() {
    let input = "";
    assert!(parse_pulsefile(input).is_err());
}

#[test]
fn test_parse_multiple_steps_with_allow_failure() {
    let input = r#"
pipeline {
  name: "test";
  triggers {
    git {
      on_push: true;
    }
  }
  steps {
    step "step1" {
      run: """echo "step1"""";
    }
    step "step2" {
      run: """echo "step2"""";
      allow_failure: true;
    }
    step "step3" {
      run: """echo "step3"""";
      allow_failure: false;
    }
  }
}
"#;
    let pipeline = parse_pulsefile(input).unwrap();
    assert_eq!(pipeline.steps.len(), 3);
    assert!(!pipeline.steps[0].allow_failure);
    assert!(pipeline.steps[1].allow_failure);
    assert!(!pipeline.steps[2].allow_failure);
}

fn parse_error_text(input: &str) -> String {
    match parse_pulsefile(input) {
        Err(PulsioraError::ParseError(m)) => m,
        Err(other) => panic!("not a parse error: {:?}", other),
        Ok(p) => panic!("parsed: {:?}", p),
    }
}

#[test]
fn empty_text_is_a_parse_error() {
    assert_eq!(parse_error_text(""), "line 1, column 1: unexpected end of input");
}

#[test]
fn text_without_pipeline_keyword_is_a_parse_error() {
    assert_eq!(
        parse_error_text("invalid syntax here"),
        "line 1, column 1: unexpected input at: invalid syntax here"
    );
    assert!(parse_pulsefile("steps { }").is_err());
    assert!(parse_pulsefile("pipelines { }").is_err());
}

#[test]
fn bare_pipeline_gets_every_default() {
    let p = parse_pulsefile("pipeline { }").unwrap();
    assert_eq!(p.name, "default");
    assert_eq!(p.version, "1.0");
    assert_eq!(p.steps.len(), 0);
    let g = &p.triggers.git;
    assert!(!g.on_push && !g.on_pull_request && !g.on_merge && !g.on_tag);
    assert!(!g.on_release && !g.on_branch_create && !g.on_branch_delete);
    assert_eq!(g.branches, vec!["*"]);
}

#[test]
fn empty_blocks_get_every_default() {
    let p = parse_pulsefile("pipeline {\n triggers { git { } }\n steps { }\n}\n").unwrap();
    assert_eq!(p.name, "default");
    assert_eq!(p.version, "1.0");
    assert_eq!(p.steps.len(), 0);
    assert!(!p.triggers.git.on_push);
    assert_eq!(p.triggers.git.branches, vec!["*"]);
}

#[test]
fn empty_name_and_version_take_defaults() {
    let p = parse_pulsefile("pipeline { name: \"\"; version: \"\"; }").unwrap();
    assert_eq!(p.name, "default");
    assert_eq!(p.version, "1.0");
}

#[test]
fn unterminated_strings_are_parse_errors() {
    assert_eq!(
        parse_error_text("pipeline { name: \"abc; }"),
        "line 1, column 18: unexpected input at: \"abc; }"
    );
    assert!(parse_pulsefile("pipeline { steps { step \"a\" { run: \"\"\"echo; } } }").is_err());
}

#[test]
fn unbalanced_braces_are_parse_errors() {
    assert_eq!(
        parse_error_text("pipeline { steps { }"),
        "line 1, column 21: unexpected end of input"
    );
    assert_eq!(parse_error_text("pipeline { } }"), "line 1, column 14: unexpected input at: }");
}

#[test]
fn error_quotes_the_rest_of_the_offending_line() {
    let text = "pipeline {\n  name: \"x\"\n  version: \"2\";\n}\n";
    assert_eq!(parse_error_text(text), "line 3, column 3: unexpected input at: version: \"2\";");
}

#[test]
fn unknown_fields_and_blocks_are_ignored() {
    let text = r#"
pipeline {
  name: "x";
  owner: "someone";
  retries: 3;
  labels: ["a", "b"];
  notify { email { to: "a@b"; } }
  triggers {
    git {
      on_push: true;
      extra: maybe;
    }
    cron { every: "1h"; }
  }
  steps {
    note: "ignored";
    step "one" {
      run: """true""";
      timeout: 10;
      env { A: "1"; }
    }
  }
}
"#;
    let p = parse_pulsefile(text).unwrap();
    assert_eq!(p.name, "x");
    assert!(p.triggers.git.on_push);
    assert_eq!(p.steps.len(), 1);
    assert_eq!(p.steps[0].name, "one");
    assert_eq!(p.steps[0].run, "true");
}

#[test]
fn comments_are_skipped() {
    let text = "# a Pulsefile\npipeline { # the block\n  name: \"c\"; # its name\n}\n";
    let p = parse_pulsefile(text).unwrap();
    assert_eq!(p.name, "c");
}

#[test]
fn multiline_command_is_trimmed_and_keeps_inner_quotes() {
    let text = "pipeline { steps { step \"s\" { run: \"\"\"\n   echo \"hi\"\n   ls\n  \"\"\"; } } }";
    let p = parse_pulsefile(text).unwrap();
    assert_eq!(p.steps[0].run, "echo \"hi\"\n   ls");
    let tight = "pipeline { steps { step \"s\" { run: \"\"\"echo \"step1\"\"\"\"; } } }";
    let p = parse_pulsefile(tight).unwrap();
    assert_eq!(p.steps[0].run, "echo \"step1\"");
}

#[test]
fn step_without_run_or_name_is_empty() {
    let p = parse_pulsefile("pipeline { steps { step { } } }").unwrap();
    assert_eq!(p.steps.len(), 1);
    assert_eq!(p.steps[0].name, "");
    assert_eq!(p.steps[0].run, "");
    assert!(!p.steps[0].allow_failure);
}

#[test]
fn branch_lists_hold_strings_in_order() {
    let p = parse_pulsefile(
        "pipeline { triggers { git { branches: [\"main\", \"feature/*\", \"*\"]; } } }",
    )
    .unwrap();
    assert_eq!(p.triggers.git.branches, vec!["main", "feature/*", "*"]);
    let p = parse_pulsefile("pipeline { triggers { git { branches: []; } } }").unwrap();
    assert!(p.triggers.git.branches.is_empty());
    assert!(parse_pulsefile("pipeline { triggers { git { branches: [main]; } } }").is_err());
    assert!(parse_pulsefile("pipeline { triggers { git { branches: \"main\"; } } }").is_err());
}

#[test]
fn flags_are_true_only_for_the_word_true() {
    let p = parse_pulsefile(
        "pipeline { triggers { git { on_tag: true; on_merge: yes; on_release: \"true\"; } } }",
    )
    .unwrap();
    assert!(p.triggers.git.on_tag);
    assert!(!p.triggers.git.on_merge);
    assert!(!p.triggers.git.on_release);
}

#[test]
fn later_fields_and_blocks_win() {
    let p = parse_pulsefile(
        "pipeline { name: \"a\"; name: \"b\"; steps { step \"x\" { run: \"1\"; } } steps { } }",
    )
    .unwrap();
    assert_eq!(p.name, "b");
    assert_eq!(p.steps.len(), 0);
}

#[test]
fn name_must_be_a_string() {
    assert_eq!(parse_error_text("pipeline { name: abc; }"), "line 1, column 18: unexpected input at: abc; }");
}

#[test]
fn parse_error_text_names_its_kind() {
    let e = parse_pulsefile("").unwrap_err();
    assert_eq!(e.to_string(), "Parse error: line 1, column 1: unexpected end of input");
}

#[test]
fn error_position_counts_lines_and_columns() {
    let text = "# header\n\npipeline {\n  steps {\n    step \"a\" { run: [\"x\"]; }\n  }\n}\n";
    assert_eq!(
        parse_error_text(text),
        "line 5, column 21: unexpected input at: [\"x\"]; }"
    );
}
