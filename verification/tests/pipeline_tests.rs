//! Tests of the clone/build/test stage state machine, the pipeline
//! orchestration, workspace cleanup, and the log-text helpers.

use std::path::Path;

use foundry_bench::benchmark::Benchmarks;
use foundry_bench::benchmark::BuildEvent;
use foundry_bench::benchmark::CloneEvent;
use foundry_bench::benchmark::ProjectState;
use foundry_bench::benchmark::Source;
use foundry_bench::benchmark::Stage;
use foundry_bench::benchmark::TestEvent;
use foundry_bench::benchmark::TestRun;
use foundry_bench::benchmark::TestStep;
use foundry_bench::benchmark::Tested;
use foundry_bench::benchmark::Workspace;
use foundry_bench::benchmark::env_file_content;
use foundry_bench::benchmark::forge_install_args;
use foundry_bench::benchmark::forge_test_args;
use foundry_bench::benchmark::git_clone_args;
use foundry_bench::benchmark::remappings_file_content;
use foundry_bench::benchmark::run_pipeline;
use foundry_bench::benchmark::try_build_project;
use foundry_bench::benchmark::try_clone_project;
use foundry_bench::benchmark::try_test_project;
use foundry_bench::benchmark::unique_names;
use foundry_bench::benchmark::verbosity_flag;
use foundry_bench::ui::banner;
use foundry_bench::utils::EnvVars;
use foundry_bench::utils::ProjectConfig;

fn fresh_workspace() -> Workspace {
    let temp_dir = tempfile::TempDir::new().unwrap();
    let path = temp_dir.path().to_string_lossy().to_string();
    Workspace { path, temp_dir }
}

fn ok_clone() -> CloneEvent {
    CloneEvent::Completed { workspace: fresh_workspace(), success: true, stderr: String::new() }
}

fn ok_build(duration_millis: u64) -> BuildEvent {
    BuildEvent::Completed { success: true, stderr: String::new(), duration_millis }
}

fn ok_test(duration_millis: u64) -> TestEvent {
    TestEvent::Completed { success: true, stdout: String::new(), duration_millis }
}

#[test]
fn clone_success_keeps_workspace() {
    let repo = ProjectConfig::new("owner/repo");
    let workspace = fresh_workspace();
    let path = workspace.path.clone();
    let state = try_clone_project(
        &repo,
        CloneEvent::Completed { workspace, success: true, stderr: String::new() },
    );
    match state {
        ProjectState::Cloned(ready) => {
            assert_eq!(ready.config.name, "owner/repo");
            assert_eq!(ready.path, path);
            assert!(Path::new(&path).exists());
        },
        _ => panic!("expected a cloned state"),
    }
    // The state value owning the directory has been dropped by now.
    assert!(!Path::new(&path).exists());
}

#[test]
fn clone_failure_preserves_stderr_and_cleans_up() {
    let repo = ProjectConfig::new("owner/repo");
    let workspace = fresh_workspace();
    let path = workspace.path.clone();
    let state = try_clone_project(
        &repo,
        CloneEvent::Completed {
            workspace,
            success: false,
            stderr: "fatal: repository not found".to_string(),
        },
    );
    match state {
        ProjectState::Failed { name, stage, error } => {
            assert_eq!(name, "owner/repo");
            assert_eq!(stage, Stage::Clone);
            assert_eq!(error, "fatal: repository not found");
        },
        _ => panic!("expected a failed state"),
    }
    assert!(!Path::new(&path).exists());
}

#[test]
fn clone_spawn_failure_cleans_up() {
    let repo = ProjectConfig::new("owner/repo");
    let workspace = fresh_workspace();
    let path = workspace.path.clone();
    let state = try_clone_project(
        &repo,
        CloneEvent::SpawnFailed { workspace, message: "binary not found".to_string() },
    );
    match state {
        ProjectState::Failed { stage, error, .. } => {
            assert_eq!(stage, Stage::Clone);
            assert_eq!(error, "binary not found");
        },
        _ => panic!("expected a failed state"),
    }
    assert!(!Path::new(&path).exists());
}

#[test]
fn build_failure_tagged_build_stage() {
    let repo = ProjectConfig::new("owner/repo");
    let state = try_clone_project(&repo, ok_clone());
    let ready = match state {
        ProjectState::Cloned(r) => r,
        _ => panic!("expected a cloned state"),
    };
    let path = ready.path.clone();
    let state = try_build_project(
        ready,
        BuildEvent::Completed {
            success: false,
            stderr: "compilation failed".to_string(),
            duration_millis: 123,
        },
    );
    match state {
        ProjectState::Failed { name, stage, error } => {
            assert_eq!(name, "owner/repo");
            assert_eq!(stage, Stage::Build);
            assert_eq!(error, "compilation failed");
        },
        _ => panic!("expected a failed state"),
    }
    assert!(!Path::new(&path).exists());
}

#[test]
fn build_success_records_duration() {
    let repo = ProjectConfig::new("owner/repo");
    let ready = match try_clone_project(&repo, ok_clone()) {
        ProjectState::Cloned(r) => r,
        _ => panic!("expected a cloned state"),
    };
    match try_build_project(ready, ok_build(4321)) {
        ProjectState::Built(built) => {
            assert_eq!(built.build_time_millis, 4321);
            assert_eq!(built.state.config.name, "owner/repo");
        },
        _ => panic!("expected a built state"),
    }
}

fn built_project(name: &str, build_millis: u64) -> foundry_bench::benchmark::Built {
    let repo = ProjectConfig::new(name);
    let ready = match try_clone_project(&repo, ok_clone()) {
        ProjectState::Cloned(r) => r,
        _ => panic!("expected a cloned state"),
    };
    match try_build_project(ready, ok_build(build_millis)) {
        ProjectState::Built(b) => b,
        _ => panic!("expected a built state"),
    }
}

#[test]
fn average_is_sum_over_runs() {
    let built = built_project("owner/repo", 100);
    let tested = Tested::new(built, vec![1000, 3000], 2);
    assert_eq!(tested.avg_test_time_millis, 2000);
    assert_eq!(tested.runs, 2);
    assert_eq!(tested.name, "owner/repo");
    assert_eq!(tested.url, "https://github.com/owner/repo");
    assert_eq!(tested.build_time_millis, 100);
}

#[test]
fn average_of_zero_runs_is_zero() {
    let built = built_project("owner/repo", 100);
    let tested = Tested::new(built, vec![], 0);
    assert_eq!(tested.avg_test_time_millis, 0);
    assert_eq!(tested.runs, 0);
}

#[test]
fn failing_run_fails_project_not_partial_record() {
    let built = built_project("owner/repo", 100);
    let mut run = TestRun::new(built, 3);
    run = match run.step(ok_test(500)) {
        TestStep::Continue(r) => r,
        TestStep::Done(_) => panic!("expected the run to continue"),
    };
    match run.step(TestEvent::Completed {
        success: false,
        stdout: "test xyz panicked".to_string(),
        duration_millis: 50,
    }) {
        TestStep::Done(ProjectState::Failed { name, stage, error }) => {
            assert_eq!(name, "owner/repo");
            assert_eq!(stage, Stage::Test);
            assert_eq!(error, "test xyz panicked");
        },
        _ => panic!("expected a failed state"),
    }
}

#[test]
fn spawn_failure_fails_test_stage() {
    let built = built_project("owner/repo", 100);
    let state = try_test_project(
        built,
        vec![TestEvent::SpawnFailed { message: "binary not found".to_string() }],
        2,
    );
    match state {
        ProjectState::Failed { stage, error, .. } => {
            assert_eq!(stage, Stage::Test);
            assert_eq!(error, "binary not found");
        },
        _ => panic!("expected a failed state"),
    }
}

#[test]
fn too_few_run_outcomes_fail_test_stage() {
    let built = built_project("owner/repo", 100);
    let state = try_test_project(built, vec![ok_test(100)], 3);
    match state {
        ProjectState::Failed { stage, .. } => assert_eq!(stage, Stage::Test),
        _ => panic!("expected a failed state"),
    }
}

#[test]
fn all_runs_passing_yield_tested_record() {
    let built = built_project("owner/repo", 777);
    let path = built.state.path.clone();
    let state = try_test_project(built, vec![ok_test(100), ok_test(200), ok_test(300)], 3);
    match state {
        ProjectState::Tested(t) => {
            assert_eq!(t.avg_test_time_millis, 200);
            assert_eq!(t.runs, 3);
            assert_eq!(t.build_time_millis, 777);
        },
        _ => panic!("expected a tested record"),
    }
    assert!(!Path::new(&path).exists());
}

#[test]
fn empty_project_list_yields_empty_outcome() {
    let projects: Vec<ProjectConfig> = vec![];
    let outcome = run_pipeline(&projects, vec![], vec![], vec![], 10);
    assert_eq!(outcome.tested.len(), 0);
    assert_eq!(outcome.failed_names.len(), 0);
}

#[test]
fn three_projects_one_survives() {
    let projects = vec![
        ProjectConfig::new("proj/a"),
        ProjectConfig::new("proj/b"),
        ProjectConfig::new("proj/c"),
    ];

    let workspace_a = fresh_workspace();
    let workspace_b = fresh_workspace();
    let workspace_c = fresh_workspace();
    let path_a = workspace_a.path.clone();
    let path_b = workspace_b.path.clone();
    let path_c = workspace_c.path.clone();

    let clone_events = vec![
        CloneEvent::Completed { workspace: workspace_a, success: true, stderr: String::new() },
        CloneEvent::Completed {
            workspace: workspace_b,
            success: false,
            stderr: "bad URL".to_string(),
        },
        CloneEvent::Completed { workspace: workspace_c, success: true, stderr: String::new() },
    ];
    // Projects a and c were cloned; both build.
    let build_events = vec![ok_build(5000), ok_build(7000)];
    // Project a passes both runs; project c fails its first run.
    let test_events = vec![
        vec![ok_test(1000), ok_test(3000)],
        vec![TestEvent::Completed {
            success: false,
            stdout: "test failed".to_string(),
            duration_millis: 10,
        }],
    ];

    let outcome = run_pipeline(&projects, clone_events, build_events, test_events, 2);

    assert_eq!(outcome.tested.len(), 1);
    assert_eq!(outcome.tested[0].name, "proj/a");
    assert_eq!(outcome.tested[0].url, "https://github.com/proj/a");
    assert_eq!(outcome.tested[0].build_time_millis, 5000);
    assert_eq!(outcome.tested[0].avg_test_time_millis, 2000);
    assert_eq!(outcome.tested[0].runs, 2);

    assert_eq!(outcome.failed_names, vec!["proj/b".to_string(), "proj/c".to_string()]);

    // Every workspace is gone once its project's pipeline has ended.
    assert!(!Path::new(&path_a).exists());
    assert!(!Path::new(&path_b).exists());
    assert!(!Path::new(&path_c).exists());
}

#[test]
fn duplicate_failure_names_collapse() {
    let names = vec![
        "proj/a".to_string(),
        "proj/b".to_string(),
        "proj/a".to_string(),
        "proj/c".to_string(),
        "proj/b".to_string(),
    ];
    let unique = unique_names(&names);
    assert_eq!(
        unique,
        vec!["proj/a".to_string(), "proj/b".to_string(), "proj/c".to_string()]
    );
}

#[test]
fn project_counts_are_conserved() {
    let projects = vec![ProjectConfig::new("proj/a"), ProjectConfig::new("proj/b")];
    let clone_events = vec![
        CloneEvent::DirFailed { message: "no space".to_string() },
        ok_clone(),
    ];
    let build_events = vec![BuildEvent::SetupFailed { message: "install failed".to_string() }];
    let outcome = run_pipeline(&projects, clone_events, build_events, vec![], 1);
    assert_eq!(outcome.tested.len() + outcome.failed_names.len(), projects.len());
    assert_eq!(outcome.failed_names, vec!["proj/a".to_string(), "proj/b".to_string()]);
}

#[test]
fn source_accessors() {
    let version = Source::Version("v1.2.0".to_string());
    let branch = Source::Branch("main".to_string());
    assert_eq!(version.short(), "-v");
    assert_eq!(branch.short(), "-b");
    assert_eq!(version.ty(), "version");
    assert_eq!(branch.ty(), "branch");
    assert_eq!(version.name(), "v1.2.0");
    assert_eq!(branch.name(), "main");
    assert_eq!(
        branch.github_url("foundry-rs/foundry"),
        "https://github.com/foundry-rs/foundry/tree/main"
    );
    assert_eq!(
        version.github_url("foundry-rs/foundry"),
        "https://github.com/foundry-rs/foundry/releases/tag/v1.2.0"
    );
}

#[test]
fn stage_names() {
    assert_eq!(Stage::Clone.as_str(), "clone");
    assert_eq!(Stage::Build.as_str(), "build");
    assert_eq!(Stage::Test.as_str(), "test");
}

#[test]
fn command_argument_shapes() {
    assert_eq!(
        git_clone_args("https://github.com/owner/repo", "/tmp/work"),
        vec!["clone", "--depth", "1", "https://github.com/owner/repo", "/tmp/work"]
    );
    assert_eq!(
        forge_install_args(&vec!["a/b".to_string(), "c/d@v1".to_string()]),
        vec!["install", "a/b", "c/d@v1"]
    );
    assert_eq!(forge_test_args(0), vec!["test"]);
    assert_eq!(forge_test_args(3), vec!["test", "-vvv"]);
    assert_eq!(verbosity_flag(1), "-v");
    assert_eq!(verbosity_flag(5), "-vvvvv");
}

#[test]
fn generated_file_contents() {
    let remappings = vec!["@lib/=lib/".to_string(), "@std/=lib/std/".to_string()];
    assert_eq!(remappings_file_content(&remappings), "@lib/=lib/\n@std/=lib/std/");
    assert_eq!(remappings_file_content(&vec![]), "");

    let mut env = EnvVars::new();
    env.insert("RPC_URL".to_string(), "https://test.rpc".to_string());
    env.insert("KEY".to_string(), "value".to_string());
    assert_eq!(env_file_content(&env), "RPC_URL=https://test.rpc\nKEY=value");
}

#[test]
fn banner_lines() {
    let base = "-".repeat(72);
    assert_eq!(banner(None), base);
    let expected = format!("-- TEST {}", "-".repeat(64));
    assert_eq!(banner(Some("TEST")), expected);
}

#[test]
fn benchmarks_carries_both_runs() {
    let b = Benchmarks {
        foundry_repo: "foundry-rs/foundry".to_string(),
        verbosity: "-vv".to_string(),
        ref_source: Source::Version("stable".to_string()),
        ref_tests: vec![],
        vs_source: Source::Branch("perf".to_string()),
        vs_tests: vec![],
    };
    assert_eq!(b.ref_source.ty(), "version");
    assert_eq!(b.vs_source.ty(), "branch");
    assert_eq!(b.foundry_repo, "foundry-rs/foundry");
}
