use kustomize_envcheck::checker::{CheckStatus, EnvChecker};
use kustomize_envcheck::config::{Application, Config, EnvVar, Environment};
use kustomize_envcheck::k8s::{ContainerInfo, K8sResource};

fn var(name: &str, default: Option<&str>, pattern: Option<&str>) -> EnvVar {
    EnvVar {
        name: name.to_string(),
        description: format!("{} variable", name),
        default: default.map(|s| s.to_string()),
        pattern: pattern.map(|s| s.to_string()),
    }
}

fn config_with_env(env_name: &str, required: Vec<EnvVar>, optional: Vec<EnvVar>) -> Config {
    Config {
        environments: vec![(
            env_name.to_string(),
            Environment {
                required_vars: required,
                optional_vars: optional,
            },
        )],
        applications: Vec::new(),
    }
}

fn workload(name: &str, env_pairs: Vec<(&str, &str)>) -> K8sResource {
    K8sResource {
        kind: "Deployment".to_string(),
        name: name.to_string(),
        containers: vec![ContainerInfo {
            name: "main".to_string(),
            env_vars: env_pairs
                .into_iter()
                .map(|(k, v)| (k.to_string(), v.to_string()))
                .collect(),
            env_from_refs: Vec::new(),
        }],
    }
}

#[test]
fn scenario_required_pattern_satisfied() {
    let config = config_with_env(
        "production",
        vec![var("DATABASE_URL", None, Some("^postgres://"))],
        Vec::new(),
    );
    let checker = EnvChecker::new(config);
    let wl = workload("api", vec![("DATABASE_URL", "postgres://db:5432/app")]);
    let outcome = checker.check_resource(&wl, Some("production"));
    assert_eq!(outcome.status, CheckStatus::Passed);
    assert_eq!(
        outcome.passed_vars,
        vec![(
            "DATABASE_URL".to_string(),
            "postgres://db:5432/app".to_string()
        )]
    );
    assert!(outcome.missing_required.is_empty());
    assert!(outcome.validation_errors.is_empty());
}

#[test]
fn scenario_required_pattern_mismatch() {
    let config = config_with_env(
        "production",
        vec![var("DATABASE_URL", None, Some("^postgres://"))],
        Vec::new(),
    );
    let checker = EnvChecker::new(config);
    let wl = workload("api", vec![("DATABASE_URL", "mysql://db/app")]);
    let outcome = checker.check_resource(&wl, Some("production"));
    assert_eq!(outcome.status, CheckStatus::Failed);
    assert_eq!(outcome.validation_errors.len(), 1);
    assert_eq!(outcome.validation_errors[0].var_name, "DATABASE_URL");
    assert_eq!(
        outcome.validation_errors[0].message,
        "Value 'mysql://db/app' does not match pattern '^postgres://'"
    );
    assert!(outcome.passed_vars.is_empty());
}

#[test]
fn scenario_optional_default_absent() {
    let config = config_with_env(
        "production",
        Vec::new(),
        vec![var("LOG_LEVEL", Some("info"), None)],
    );
    let checker = EnvChecker::new(config);
    let wl = workload("api", vec![]);
    let outcome = checker.check_resource(&wl, Some("production"));
    assert_eq!(outcome.status, CheckStatus::Passed);
    assert_eq!(outcome.using_defaults, vec!["LOG_LEVEL".to_string()]);
    assert!(outcome.missing_optional.is_empty());
}

#[test]
fn scenario_extra_variable_recorded() {
    let config = config_with_env("production", Vec::new(), Vec::new());
    let checker = EnvChecker::new(config);
    let wl = workload("api", vec![("FOO", "bar")]);
    let outcome = checker.check_resource(&wl, Some("production"));
    assert_eq!(outcome.extra_vars, vec!["FOO".to_string()]);
    assert_eq!(outcome.status, CheckStatus::Passed);
}

#[test]
fn empty_mapping_fails_with_all_required_missing() {
    let config = config_with_env(
        "production",
        vec![var("A", None, None), var("B", None, None)],
        Vec::new(),
    );
    let checker = EnvChecker::new(config);
    let wl = workload("api", vec![]);
    let outcome = checker.check_resource(&wl, Some("production"));
    assert_eq!(outcome.status, CheckStatus::Failed);
    assert_eq!(
        outcome.missing_required,
        vec!["A".to_string(), "B".to_string()]
    );
}

#[test]
fn required_present_without_pattern_is_satisfied() {
    let config = config_with_env("production", vec![var("TOKEN", None, None)], Vec::new());
    let checker = EnvChecker::new(config);
    let wl = workload("api", vec![("TOKEN", "abc")]);
    let outcome = checker.check_resource(&wl, Some("production"));
    assert_eq!(outcome.status, CheckStatus::Passed);
    assert_eq!(
        outcome.passed_vars,
        vec![("TOKEN".to_string(), "abc".to_string())]
    );
    assert!(outcome.missing_required.is_empty());
}

#[test]
fn missing_optional_without_default_warns() {
    let config = config_with_env("production", Vec::new(), vec![var("OPT", None, None)]);
    let checker = EnvChecker::new(config);
    let wl = workload("api", vec![]);
    let outcome = checker.check_resource(&wl, Some("production"));
    assert_eq!(outcome.status, CheckStatus::Warning);
    assert_eq!(outcome.missing_optional, vec!["OPT".to_string()]);
}

#[test]
fn failed_never_downgraded_by_later_warning() {
    let config = config_with_env(
        "production",
        vec![var("REQ", None, None)],
        vec![var("OPT", None, None)],
    );
    let checker = EnvChecker::new(config);
    let wl = workload("api", vec![]);
    let outcome = checker.check_resource(&wl, Some("production"));
    assert_eq!(outcome.status, CheckStatus::Failed);
    assert_eq!(outcome.missing_required, vec!["REQ".to_string()]);
    assert_eq!(outcome.missing_optional, vec!["OPT".to_string()]);
}

#[test]
fn invalid_pattern_forces_failure() {
    let config = config_with_env("production", vec![var("X", None, Some("("))], Vec::new());
    let checker = EnvChecker::new(config);
    let wl = workload("api", vec![("X", "anything")]);
    let outcome = checker.check_resource(&wl, Some("production"));
    assert_eq!(outcome.status, CheckStatus::Failed);
    assert_eq!(outcome.validation_errors.len(), 1);
    assert_eq!(outcome.validation_errors[0].var_name, "X");
    assert!(outcome.validation_errors[0]
        .message
        .starts_with("Invalid regex pattern: "));
}

#[test]
fn validate_pattern_search_is_unanchored() {
    let checker = EnvChecker::new(config_with_env("production", Vec::new(), Vec::new()));
    assert!(checker.validate_pattern("V", "abc-db-xyz", "db").is_ok());
    assert!(checker.validate_pattern("V", "abc", "db").is_err());
}

#[test]
fn unknown_environment_has_no_requirements() {
    let config = config_with_env("production", vec![var("REQ", None, None)], Vec::new());
    let checker = EnvChecker::new(config);
    let wl = workload("api", vec![("REQ", "x")]);
    let outcome = checker.check_resource(&wl, Some("staging"));
    assert_eq!(outcome.status, CheckStatus::Passed);
    assert!(outcome.missing_required.is_empty());
    assert_eq!(outcome.extra_vars, vec!["REQ".to_string()]);
}

#[test]
fn unknown_environment_ignores_application_additions() {
    // The application lists the unknown environment with an additional
    // required variable; the workload still passes, since an unknown
    // environment has no declared requirements at all.
    let mut config = config_with_env("production", vec![var("BASE", None, None)], Vec::new());
    config.applications = vec![(
        "api".to_string(),
        Application {
            environments: vec!["nowhere".to_string()],
            additional_vars: vec![var("EXTRA_REQ", None, None)],
        },
    )];
    let checker = EnvChecker::new(config);
    let wl = workload("api", vec![]);
    let outcome = checker.check_resource(&wl, Some("nowhere"));
    assert_eq!(outcome.status, CheckStatus::Passed);
    assert!(outcome.missing_required.is_empty());
}

#[test]
fn default_environment_is_development() {
    let config = config_with_env("development", vec![var("DEV_ONLY", None, None)], Vec::new());
    let checker = EnvChecker::new(config);
    let wl = workload("api", vec![]);
    let outcome = checker.check_resource(&wl, None);
    assert_eq!(outcome.status, CheckStatus::Failed);
    assert_eq!(outcome.missing_required, vec!["DEV_ONLY".to_string()]);
}

#[test]
fn application_additional_vars_apply_in_listed_environment() {
    let mut config = config_with_env("production", vec![var("BASE", None, None)], Vec::new());
    config.applications = vec![(
        "api".to_string(),
        Application {
            environments: vec!["production".to_string()],
            additional_vars: vec![var("EXTRA_REQ", None, None)],
        },
    )];
    let checker = EnvChecker::new(config);
    let wl = workload("api", vec![("BASE", "1")]);
    let outcome = checker.check_resource(&wl, Some("production"));
    assert_eq!(outcome.status, CheckStatus::Failed);
    assert_eq!(outcome.missing_required, vec!["EXTRA_REQ".to_string()]);
}

#[test]
fn application_additional_vars_skipped_in_unlisted_environment() {
    let mut config = config_with_env("staging", vec![], Vec::new());
    config.applications = vec![(
        "api".to_string(),
        Application {
            environments: vec!["production".to_string()],
            additional_vars: vec![var("EXTRA_REQ", None, None)],
        },
    )];
    let checker = EnvChecker::new(config);
    let wl = workload("api", vec![]);
    let outcome = checker.check_resource(&wl, Some("staging"));
    assert_eq!(outcome.status, CheckStatus::Passed);
    assert!(outcome.missing_required.is_empty());
}

#[test]
fn check_twice_yields_identical_outcomes() {
    let config = config_with_env(
        "production",
        vec![var("DATABASE_URL", None, Some("^postgres://"))],
        vec![var("LOG_LEVEL", Some("info"), None)],
    );
    let checker = EnvChecker::new(config);
    let wl = workload(
        "api",
        vec![("DATABASE_URL", "mysql://db/app"), ("FOO", "bar")],
    );
    let first = checker.check_resource(&wl, Some("production"));
    let second = checker.check_resource(&wl, Some("production"));
    assert_eq!(first.app_name, second.app_name);
    assert_eq!(first.status, second.status);
    assert_eq!(first.missing_required, second.missing_required);
    assert_eq!(first.missing_optional, second.missing_optional);
    assert_eq!(first.using_defaults, second.using_defaults);
    assert_eq!(first.extra_vars, second.extra_vars);
    assert_eq!(first.passed_vars, second.passed_vars);
    assert_eq!(
        first.validation_errors.len(),
        second.validation_errors.len()
    );
    for (a, b) in first
        .validation_errors
        .iter()
        .zip(second.validation_errors.iter())
    {
        assert_eq!(a.var_name, b.var_name);
        assert_eq!(a.message, b.message);
    }
}

#[test]
fn later_container_overwrites_earlier_on_collision() {
    let config = config_with_env("production", vec![var("NAME", None, None)], Vec::new());
    let checker = EnvChecker::new(config);
    let wl = K8sResource {
        kind: "Deployment".to_string(),
        name: "api".to_string(),
        containers: vec![
            ContainerInfo {
                name: "first".to_string(),
                env_vars: vec![("NAME".to_string(), "old".to_string())],
                env_from_refs: Vec::new(),
            },
            ContainerInfo {
                name: "second".to_string(),
                env_vars: vec![("NAME".to_string(), "new".to_string())],
                env_from_refs: Vec::new(),
            },
        ],
    };
    let outcome = checker.check_resource(&wl, Some("production"));
    assert_eq!(
        outcome.passed_vars,
        vec![("NAME".to_string(), "new".to_string())]
    );
}

#[test]
fn check_resources_preserves_input_order() {
    let config = config_with_env("production", vec![var("REQ", None, None)], Vec::new());
    let checker = EnvChecker::new(config);
    let good = workload("good", vec![("REQ", "x")]);
    let bad = workload("bad", vec![]);
    let outcomes = checker.check_resources(&vec![good, bad], Some("production"));
    assert_eq!(outcomes.len(), 2);
    assert_eq!(outcomes[0].app_name, "good");
    assert_eq!(outcomes[0].status, CheckStatus::Passed);
    assert_eq!(outcomes[1].app_name, "bad");
    assert_eq!(outcomes[1].status, CheckStatus::Failed);
}
