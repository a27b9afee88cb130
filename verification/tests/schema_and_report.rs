use kustomize_envcheck::checker::{CheckResult, CheckStatus};
use kustomize_envcheck::config::{Application, Config, EnvVar, Environment};
use kustomize_envcheck::report::{has_failures, overall_status};

fn var(name: &str) -> EnvVar {
    EnvVar {
        name: name.to_string(),
        description: String::new(),
        default: None,
        pattern: None,
    }
}

fn outcome(name: &str, status: CheckStatus) -> CheckResult {
    CheckResult {
        app_name: name.to_string(),
        status,
        missing_required: Vec::new(),
        missing_optional: Vec::new(),
        using_defaults: Vec::new(),
        extra_vars: Vec::new(),
        validation_errors: Vec::new(),
        passed_vars: Vec::new(),
    }
}

#[test]
fn required_vars_concatenate_environment_and_application() {
    let config = Config {
        environments: vec![(
            "production".to_string(),
            Environment {
                required_vars: vec![var("A"), var("B")],
                optional_vars: vec![var("O")],
            },
        )],
        applications: vec![(
            "api".to_string(),
            Application {
                environments: vec!["production".to_string()],
                additional_vars: vec![var("C")],
            },
        )],
    };
    let req = config.get_required_vars("api", "production");
    let names: Vec<&str> = req.iter().map(|v| v.name.as_str()).collect();
    assert_eq!(names, vec!["A", "B", "C"]);
    let opt = config.get_optional_vars("api", "production");
    assert_eq!(opt.len(), 1);
    assert_eq!(opt[0].name, "O");
}

#[test]
fn unknown_application_gets_only_environment_vars() {
    let config = Config {
        environments: vec![(
            "production".to_string(),
            Environment {
                required_vars: vec![var("A")],
                optional_vars: Vec::new(),
            },
        )],
        applications: Vec::new(),
    };
    let req = config.get_required_vars("stranger", "production");
    assert_eq!(req.len(), 1);
    assert_eq!(req[0].name, "A");
}

#[test]
fn unknown_environment_yields_empty_lists() {
    // The application even lists the unknown environment, with additional
    // variables: an unknown environment has no declared requirements, so the
    // addition must not apply either.
    let config = Config {
        environments: Vec::new(),
        applications: vec![(
            "api".to_string(),
            Application {
                environments: vec!["nowhere".to_string(), "production".to_string()],
                additional_vars: vec![var("C")],
            },
        )],
    };
    assert!(config.get_required_vars("api", "nowhere").is_empty());
    assert!(config.get_optional_vars("api", "nowhere").is_empty());
}

#[test]
fn has_failures_spots_a_single_failed_outcome() {
    let results = vec![
        outcome("a", CheckStatus::Passed),
        outcome("b", CheckStatus::Failed),
        outcome("c", CheckStatus::Warning),
    ];
    assert!(has_failures(&results));
    let all_green = vec![outcome("a", CheckStatus::Passed)];
    assert!(!has_failures(&all_green));
}

#[test]
fn overall_status_joins_outcomes() {
    assert_eq!(
        overall_status(&vec![
            outcome("a", CheckStatus::Passed),
            outcome("b", CheckStatus::Warning),
        ]),
        CheckStatus::Warning
    );
    assert_eq!(
        overall_status(&vec![
            outcome("a", CheckStatus::Warning),
            outcome("b", CheckStatus::Failed),
        ]),
        CheckStatus::Failed
    );
    assert_eq!(overall_status(&Vec::new()), CheckStatus::Passed);
}
