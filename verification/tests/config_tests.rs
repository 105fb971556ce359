//! Tests of the configuration records, the configuration-file merge rules,
//! and the command-line selection logic.

use foundry_bench::cmd::Cli;
use foundry_bench::cmd::Commands;
use foundry_bench::cmd::ComparisonSource;
use foundry_bench::cmd::DiffConfig;
use foundry_bench::cmd::ReferenceSource;
use foundry_bench::cmd::RepoSpec;
use foundry_bench::cmd::parse_env_pairs;
use foundry_bench::cmd::split_repo_spec;
use foundry_bench::benchmark::Source;
use foundry_bench::config::ConfigFile;
use foundry_bench::config::ProjectConfigToml;
use foundry_bench::utils::EnvVars;
use foundry_bench::utils::JsonProjectConfig;
use foundry_bench::utils::ProjectConfig;

fn env_from(pairs: &[(&str, &str)]) -> EnvVars {
    let mut env = EnvVars::new();
    for (key, value) in pairs {
        env.insert(key.to_string(), value.to_string());
    }
    env
}

fn bare_cli() -> Cli {
    Cli {
        repos: None,
        config: None,
        repo: None,
        deps: None,
        remappings: None,
        env: None,
        num_runs: 10,
        verbosity: 0,
        command: None,
    }
}

#[test]
fn test_parse_env_pairs() {
    let pairs = vec!["KEY1=value1".to_string(), "KEY2=value2".to_string()];

    let result = parse_env_pairs(&pairs).unwrap();
    assert_eq!(result.get("KEY1"), Some(&"value1".to_string()));
    assert_eq!(result.get("KEY2"), Some(&"value2".to_string()));
}

#[test]
fn test_parse_env_pairs_with_equals_in_value() {
    let pairs = vec!["KEY=value=with=equals".to_string()];

    let result = parse_env_pairs(&pairs).unwrap();
    assert_eq!(result.get("KEY"), Some(&"value=with=equals".to_string()));
}

#[test]
fn test_parse_env_pairs_invalid_format() {
    let pairs = vec!["INVALID_FORMAT".to_string()];

    let result = parse_env_pairs(&pairs);
    assert!(result.is_err());
    assert_eq!(
        result.unwrap_err(),
        "Invalid environment variable format: 'INVALID_FORMAT'. Expected KEY=VALUE"
    );
}

#[test]
fn test_parse_env_pairs_empty_key() {
    let pairs = vec!["=value".to_string()];

    let result = parse_env_pairs(&pairs).unwrap();
    assert_eq!(result.get(""), Some(&"value".to_string()));
}

#[test]
fn test_to_project_configs_use_custom() {
    let mut config = ConfigFile::default();

    config.custom.env_vars = Some(env_from(&[("CUSTOM_VAR", "custom_value")]));

    config.defaults.env_vars = Some(env_from(&[("DEFAULT_VAR", "default_value")]));

    config.project.push(ProjectConfigToml {
        name: "test/project".to_string(),
        dependencies: Some(vec!["dep1".to_string()]),
        remappings: None,
        env_vars: Some(env_from(&[("PROJECT_VAR", "project_value")])),
    });

    let projects = config.to_project_configs(true);

    assert_eq!(projects.len(), 1);
    let project = &projects[0];

    assert_eq!(project.name, "test/project");
    assert_eq!(project.dependencies().unwrap(), &vec!["dep1"]);

    let env_vars = project.env_vars().unwrap();
    assert_eq!(env_vars.get("CUSTOM_VAR"), Some(&"custom_value".to_string()));
    assert_eq!(env_vars.get("PROJECT_VAR"), Some(&"project_value".to_string()));
    assert_eq!(env_vars.get("DEFAULT_VAR"), None);
}

#[test]
fn test_to_project_configs_use_defaults() {
    let mut config = ConfigFile::default();

    config.custom.env_vars = Some(env_from(&[("CUSTOM_VAR", "custom_value")]));

    config.defaults.env_vars = Some(env_from(&[("DEFAULT_VAR", "default_value")]));

    config.project.push(ProjectConfigToml {
        name: "test/project".to_string(),
        dependencies: None,
        remappings: Some(vec!["@std/=lib/".to_string()]),
        env_vars: None,
    });

    let projects = config.to_project_configs(false);

    assert_eq!(projects.len(), 1);
    let project = &projects[0];

    assert_eq!(project.remappings().unwrap(), &vec!["@std/=lib/"]);

    let env_vars = project.env_vars().unwrap();
    assert_eq!(env_vars.get("DEFAULT_VAR"), Some(&"default_value".to_string()));
    assert_eq!(env_vars.get("CUSTOM_VAR"), None);
}

#[test]
fn test_to_project_configs_empty_merge_gives_no_env() {
    let mut config = ConfigFile::default();
    config.project.push(ProjectConfigToml {
        name: "test/project".to_string(),
        dependencies: None,
        remappings: None,
        env_vars: None,
    });

    let projects = config.to_project_configs(true);
    assert_eq!(projects.len(), 1);
    assert!(projects[0].env_vars().is_none());
}

#[test]
fn test_has_custom_config() {
    let mut config = ConfigFile::default();
    assert!(!config.has_custom_config());

    config.custom.env_vars = Some(EnvVars::new());
    assert!(config.has_custom_config());
}

#[test]
fn test_expand_env_vars_keeps_unset_references() {
    let mut config = ConfigFile::default();
    config.custom.env_vars = Some(env_from(&[("RPC_URL", "${MISSING_VAR_UNIQUE_12345}")]));
    config.project.push(ProjectConfigToml {
        name: "test/project".to_string(),
        dependencies: None,
        remappings: None,
        env_vars: Some(env_from(&[("PROJECT_RPC", "$MISSING_VAR_UNIQUE_12345/v1")])),
    });

    config.expand_env_vars();

    assert_eq!(
        config.custom.env_vars.as_ref().unwrap().get("RPC_URL"),
        Some(&"${MISSING_VAR_UNIQUE_12345}".to_string())
    );
    assert_eq!(
        config.project[0].env_vars.as_ref().unwrap().get("PROJECT_RPC"),
        Some(&"$MISSING_VAR_UNIQUE_12345/v1".to_string())
    );
}

#[test]
fn test_project_config_new() {
    let config = ProjectConfig::new("test/repo");
    assert_eq!(config.name, "test/repo");
    assert!(config.dependencies().is_none());
    assert!(config.remappings().is_none());
    assert!(config.env_vars().is_none());
}

#[test]
fn test_project_config_with_deps() {
    let config = ProjectConfig::new("test/repo").with_deps(vec!["dep1", "dep2"]);

    assert_eq!(config.dependencies().unwrap(), &vec!["dep1", "dep2"]);
}

#[test]
fn test_project_config_with_remappings() {
    let config =
        ProjectConfig::new("test/repo").with_remappings(vec!["@lib/=lib/", "@std/=lib/std/"]);

    assert_eq!(
        config.remappings().unwrap(),
        &vec!["@lib/=lib/", "@std/=lib/std/"]
    );
}

#[test]
fn test_project_config_with_env_vars() {
    let config = ProjectConfig::new("test/repo")
        .with_env_vars(vec!["VAR1", "VAR2"], vec!["value1", "value2"]);

    let env_vars = config.env_vars().unwrap();
    assert_eq!(env_vars.get("VAR1"), Some(&"value1".to_string()));
    assert_eq!(env_vars.get("VAR2"), Some(&"value2".to_string()));
}

#[test]
fn test_project_config_builder_chain() {
    let config = ProjectConfig::new("test/repo")
        .with_deps(vec!["forge-std", "openzeppelin"])
        .with_remappings(vec!["@std/=lib/forge-std/"])
        .with_env_vars(vec!["RPC_URL"], vec!["https://test.rpc"]);

    assert_eq!(config.name, "test/repo");
    assert_eq!(config.dependencies().unwrap().len(), 2);
    assert_eq!(config.remappings().unwrap().len(), 1);
    assert_eq!(config.env_vars().unwrap().len(), 1);
}

#[test]
fn test_project_config_url() {
    let config = ProjectConfig::new("owner/repo");
    assert_eq!(config.url(), "https://github.com/owner/repo");
}

#[test]
fn test_project_config_label() {
    let config = ProjectConfig::new("owner/repo");
    assert_eq!(config.label(), "[owner/repo]");
}

#[test]
fn test_project_config_with_config() {
    let json_config = JsonProjectConfig {
        dependencies: Some(vec!["dep1".to_string()]),
        remappings: Some(vec!["@lib/=lib/".to_string()]),
        env_vars: Some(env_from(&[("KEY", "value")])),
    };

    let config = ProjectConfig::new("test/repo").with_config(json_config);

    assert_eq!(config.name, "test/repo");
    assert_eq!(config.dependencies().unwrap(), &vec!["dep1"]);
    assert_eq!(config.remappings().unwrap(), &vec!["@lib/=lib/"]);
    assert_eq!(
        config.env_vars().unwrap().get("KEY"),
        Some(&"value".to_string())
    );
}

#[test]
fn test_env_vars_insert_replaces() {
    let mut env = EnvVars::new();
    env.insert("KEY".to_string(), "first".to_string());
    env.insert("KEY".to_string(), "second".to_string());
    assert_eq!(env.len(), 1);
    assert_eq!(env.get("KEY"), Some(&"second".to_string()));
    assert_eq!(env.get("OTHER"), None);
}

#[test]
fn test_env_vars_extend_overrides() {
    let mut base = env_from(&[("A", "1"), ("B", "2")]);
    let other = env_from(&[("B", "20"), ("C", "30")]);
    base.extend(&other);
    assert_eq!(base.get("A"), Some(&"1".to_string()));
    assert_eq!(base.get("B"), Some(&"20".to_string()));
    assert_eq!(base.get("C"), Some(&"30".to_string()));
    assert_eq!(base.len(), 3);
}

#[test]
fn test_split_repo_spec() {
    let (name, json) = split_repo_spec("owner/repo:{\"dependencies\":[\"d\"]}");
    assert_eq!(name, "owner/repo");
    assert_eq!(json, Some("{\"dependencies\":[\"d\"]}".to_string()));

    let (name, json) = split_repo_spec("owner/repo");
    assert_eq!(name, "owner/repo");
    assert_eq!(json, None);
}

#[test]
fn test_get_cmd_diff_config() {
    let cli = Cli {
        repos: None,
        config: None,
        repo: None,
        deps: None,
        remappings: None,
        env: None,
        num_runs: 10,
        verbosity: 0,
        command: Some(Commands::Diff(DiffConfig {
            reference_source: ReferenceSource {
                ref_version: None,
                ref_branch: Some("master".to_string()),
            },
            comparison_source: ComparisonSource {
                vs_version: Some("v1.0.0".to_string()),
                vs_branch: None,
            },
            foundry_repo: "foundry-rs/foundry".to_string(),
        })),
    };

    let result = cli.get_cmd().unwrap();
    assert!(result.is_some());

    let (repo, ref_source, vs_source) = result.unwrap();
    assert_eq!(repo, "foundry-rs/foundry");

    match ref_source {
        Source::Branch(b) => assert_eq!(b, "master"),
        _ => panic!("Expected branch source"),
    }

    match vs_source {
        Source::Version(v) => assert_eq!(v, "v1.0.0"),
        _ => panic!("Expected version source"),
    }
}

#[test]
fn test_get_cmd_no_subcommand() {
    let cli = bare_cli();
    let result = cli.get_cmd().unwrap();
    assert!(result.is_none());
}

#[test]
fn test_get_cmd_missing_reference_source() {
    let mut cli = bare_cli();
    cli.command = Some(Commands::Diff(DiffConfig {
        reference_source: ReferenceSource { ref_version: None, ref_branch: None },
        comparison_source: ComparisonSource {
            vs_version: Some("v1.0.0".to_string()),
            vs_branch: None,
        },
        foundry_repo: "foundry-rs/foundry".to_string(),
    }));
    assert_eq!(
        cli.get_cmd().unwrap_err(),
        "(single) Foundry reference source is required"
    );
}

#[test]
fn test_get_cmd_ambiguous_comparison_source() {
    let mut cli = bare_cli();
    cli.command = Some(Commands::Diff(DiffConfig {
        reference_source: ReferenceSource {
            ref_version: Some("stable".to_string()),
            ref_branch: None,
        },
        comparison_source: ComparisonSource {
            vs_version: Some("v1.0.0".to_string()),
            vs_branch: Some("main".to_string()),
        },
        foundry_repo: "foundry-rs/foundry".to_string(),
    }));
    assert_eq!(
        cli.get_cmd().unwrap_err(),
        "(single) Foundry comparison source is required"
    );
}

#[test]
fn test_get_repos_with_repos_flag() {
    let mut file = ConfigFile::default();
    file.project.push(ProjectConfigToml {
        name: "default/project".to_string(),
        dependencies: None,
        remappings: None,
        env_vars: None,
    });

    let mut cli = bare_cli();
    cli.repos = Some(vec!["owner/repo1".to_string(), "owner/repo2".to_string()]);

    let repos = cli.get_repos(&file).unwrap();
    assert_eq!(repos.len(), 2);
    assert_eq!(repos[0].name, "owner/repo1");
    assert_eq!(repos[1].name, "owner/repo2");
}

#[test]
fn test_get_repos_with_global_flags() {
    let file = ConfigFile::default();

    let mut cli = bare_cli();
    cli.repos = Some(vec!["test/repo".to_string()]);
    cli.deps = Some(vec!["forge-std".to_string(), "openzeppelin".to_string()]);
    cli.remappings = Some(vec!["@std/=lib/".to_string()]);
    cli.env = Some(vec!["RPC_URL=https://test.rpc".to_string()]);

    let repos = cli.get_repos(&file).unwrap();
    assert_eq!(repos.len(), 1);

    let repo = &repos[0];
    assert_eq!(repo.name, "test/repo");
    assert_eq!(repo.dependencies().unwrap(), &vec!["forge-std", "openzeppelin"]);
    assert_eq!(repo.remappings().unwrap(), &vec!["@std/=lib/"]);
    assert_eq!(
        repo.env_vars().unwrap().get("RPC_URL"),
        Some(&"https://test.rpc".to_string())
    );
}

#[test]
fn test_get_repos_bad_env_pair() {
    let file = ConfigFile::default();

    let mut cli = bare_cli();
    cli.repos = Some(vec!["test/repo".to_string()]);
    cli.env = Some(vec!["NO_EQUALS_SIGN".to_string()]);

    assert!(cli.get_repos(&file).is_err());
}

#[test]
fn test_get_repos_custom_section_without_overrides() {
    let mut file = ConfigFile::default();
    file.custom.env_vars = Some(env_from(&[("CUSTOM_VAR", "custom_value")]));
    file.defaults.env_vars = Some(env_from(&[("DEFAULT_VAR", "default_value")]));
    file.project.push(ProjectConfigToml {
        name: "test/repo".to_string(),
        dependencies: None,
        remappings: None,
        env_vars: None,
    });

    let cli = bare_cli();
    let repos = cli.get_repos(&file).unwrap();
    assert_eq!(repos.len(), 1);
    assert_eq!(
        repos[0].env_vars().unwrap().get("CUSTOM_VAR"),
        Some(&"custom_value".to_string())
    );
    assert_eq!(repos[0].env_vars().unwrap().get("DEFAULT_VAR"), None);
}

#[test]
fn test_get_repos_defaults_section_with_overrides() {
    let mut file = ConfigFile::default();
    file.custom.env_vars = Some(env_from(&[("CUSTOM_VAR", "custom_value")]));
    file.defaults.env_vars = Some(env_from(&[("DEFAULT_VAR", "default_value")]));
    file.project.push(ProjectConfigToml {
        name: "test/repo".to_string(),
        dependencies: None,
        remappings: None,
        env_vars: None,
    });

    let mut cli = bare_cli();
    cli.repos = Some(vec!["test/repo".to_string()]);
    cli.deps = Some(vec!["new-dep".to_string()]);

    let repos = cli.get_repos(&file).unwrap();
    assert_eq!(repos.len(), 1);
    assert_eq!(
        repos[0].env_vars().unwrap().get("DEFAULT_VAR"),
        Some(&"default_value".to_string())
    );
    assert_eq!(repos[0].env_vars().unwrap().get("CUSTOM_VAR"), None);
    assert_eq!(repos[0].dependencies().unwrap(), &vec!["new-dep"]);
}

#[test]
fn test_get_repos_repo_specs_merge() {
    let mut file = ConfigFile::default();
    file.project.push(ProjectConfigToml {
        name: "test/repo1".to_string(),
        dependencies: Some(vec!["base-dep".to_string()]),
        remappings: Some(vec!["@base/=lib/".to_string()]),
        env_vars: None,
    });

    let mut cli = bare_cli();
    cli.repo = Some(vec![
        RepoSpec {
            name: "test/repo1".to_string(),
            config: Some(JsonProjectConfig {
                dependencies: Some(vec!["override-dep".to_string()]),
                remappings: None,
                env_vars: None,
            }),
        },
        RepoSpec { name: "test/repo2".to_string(), config: None },
    ]);

    let repos = cli.get_repos(&file).unwrap();
    assert_eq!(repos.len(), 2);

    assert_eq!(repos[0].name, "test/repo1");
    assert_eq!(repos[0].dependencies().unwrap(), &vec!["override-dep"]);
    assert_eq!(repos[0].remappings().unwrap(), &vec!["@base/=lib/"]);

    assert_eq!(repos[1].name, "test/repo2");
    assert!(repos[1].dependencies().is_none());
}

#[test]
fn test_get_repos_empty_repos_list() {
    let file = ConfigFile::default();
    let mut cli = bare_cli();
    cli.repos = Some(vec![]);

    let repos = cli.get_repos(&file).unwrap();
    assert_eq!(repos.len(), 0);
}

#[test]
fn test_get_repos_duplicate_file_entries_last_wins() {
    let mut file = ConfigFile::default();
    file.project.push(ProjectConfigToml {
        name: "test/repo".to_string(),
        dependencies: Some(vec!["old-dep".to_string()]),
        remappings: None,
        env_vars: None,
    });
    file.project.push(ProjectConfigToml {
        name: "test/repo".to_string(),
        dependencies: Some(vec!["new-dep".to_string()]),
        remappings: None,
        env_vars: None,
    });

    let cli = bare_cli();
    let repos = cli.get_repos(&file).unwrap();
    assert_eq!(repos.len(), 1);
    assert_eq!(repos[0].dependencies().unwrap(), &vec!["new-dep"]);
}
