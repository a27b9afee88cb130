use kustomize_envcheck::k8s::{
    ContainerSpec, EnvEntry, EnvFromSource, EnvValue, K8sParser, ManifestDoc,
};

fn entry(name: &str, value: EnvValue) -> EnvEntry {
    EnvEntry {
        name: name.to_string(),
        value: Some(value),
    }
}

fn doc(kind: &str, name: Option<&str>, containers: Option<Vec<ContainerSpec>>) -> ManifestDoc {
    ManifestDoc {
        kind: kind.to_string(),
        name: name.map(|s| s.to_string()),
        containers,
    }
}

fn simple_container(env: Vec<EnvEntry>) -> ContainerSpec {
    ContainerSpec {
        name: "main".to_string(),
        env,
        env_from: Vec::new(),
    }
}

#[test]
fn unrecognized_kind_is_skipped_silently() {
    let parser = K8sParser::new();
    let docs = vec![
        doc(
            "Deployment",
            Some("one"),
            Some(vec![simple_container(vec![])]),
        ),
        doc("Service", Some("svc"), None),
        doc(
            "Deployment",
            Some("two"),
            Some(vec![simple_container(vec![])]),
        ),
    ];
    let resources = parser.extract_resources(&docs);
    assert_eq!(resources.len(), 2);
    assert_eq!(resources[0].name, "one");
    assert_eq!(resources[1].name, "two");
}

#[test]
fn statefulset_and_daemonset_are_recognized() {
    let parser = K8sParser::new();
    let docs = vec![
        doc(
            "StatefulSet",
            Some("db"),
            Some(vec![simple_container(vec![])]),
        ),
        doc(
            "DaemonSet",
            Some("agent"),
            Some(vec![simple_container(vec![])]),
        ),
    ];
    let resources = parser.extract_resources(&docs);
    assert_eq!(resources.len(), 2);
    assert_eq!(resources[0].kind, "StatefulSet");
    assert_eq!(resources[1].kind, "DaemonSet");
}

#[test]
fn document_without_name_is_skipped() {
    let parser = K8sParser::new();
    let docs = vec![doc("Deployment", None, Some(vec![simple_container(vec![])]))];
    assert!(parser.extract_resources(&docs).is_empty());
}

#[test]
fn document_without_template_is_skipped() {
    let parser = K8sParser::new();
    let docs = vec![doc("Deployment", Some("broken"), None)];
    assert!(parser.extract_resources(&docs).is_empty());
}

#[test]
fn later_entry_with_same_name_wins() {
    let parser = K8sParser::new();
    let env = vec![
        entry("NAME", EnvValue::Literal("first".to_string())),
        entry("OTHER", EnvValue::Literal("kept".to_string())),
        entry("NAME", EnvValue::Literal("second".to_string())),
    ];
    let flat = parser.extract_env_vars(&env);
    assert_eq!(
        flat,
        vec![
            ("NAME".to_string(), "second".to_string()),
            ("OTHER".to_string(), "kept".to_string()),
        ]
    );
}

#[test]
fn entry_without_value_contributes_nothing() {
    let parser = K8sParser::new();
    let env = vec![EnvEntry {
        name: "EMPTY".to_string(),
        value: None,
    }];
    assert!(parser.extract_env_vars(&env).is_empty());
}

#[test]
fn provenance_descriptors_take_their_exact_forms() {
    let parser = K8sParser::new();
    assert_eq!(
        parser.describe_value_from(&EnvValue::SecretKeyRef {
            name: "creds".to_string(),
            key: "password".to_string(),
        }),
        "Secret[creds:password]"
    );
    assert_eq!(
        parser.describe_value_from(&EnvValue::ConfigMapKeyRef {
            name: "settings".to_string(),
            key: "mode".to_string(),
        }),
        "ConfigMap[settings:mode]"
    );
    assert_eq!(
        parser.describe_value_from(&EnvValue::FieldRef {
            field_path: "metadata.name".to_string(),
        }),
        "Field[metadata.name]"
    );
    assert_eq!(
        parser.describe_value_from(&EnvValue::ResourceFieldRef {
            resource: "limits.cpu".to_string(),
        }),
        "Resource[limits.cpu]"
    );
    assert_eq!(
        parser.describe_value_from(&EnvValue::UnknownSource),
        "<unknown source>"
    );
}

#[test]
fn indirect_values_flatten_as_descriptors() {
    let parser = K8sParser::new();
    let env = vec![entry(
        "PASSWORD",
        EnvValue::SecretKeyRef {
            name: "creds".to_string(),
            key: "pw".to_string(),
        },
    )];
    let flat = parser.extract_env_vars(&env);
    assert_eq!(
        flat,
        vec![("PASSWORD".to_string(), "Secret[creds:pw]".to_string())]
    );
}

#[test]
fn bulk_imports_stay_out_of_the_flattened_mapping() {
    let parser = K8sParser::new();
    let container = ContainerSpec {
        name: "main".to_string(),
        env: Vec::new(),
        env_from: vec![
            EnvFromSource {
                config_map: Some("common".to_string()),
                secret: None,
            },
            EnvFromSource {
                config_map: None,
                secret: Some("creds".to_string()),
            },
            EnvFromSource {
                config_map: Some("both".to_string()),
                secret: Some("both-secret".to_string()),
            },
        ],
    };
    let infos = parser.extract_containers(&vec![container]);
    assert_eq!(infos.len(), 1);
    assert!(infos[0].env_vars.is_empty());
    assert_eq!(
        infos[0].env_from_refs,
        vec![
            "ConfigMap: common".to_string(),
            "Secret: creds".to_string(),
            "ConfigMap: both".to_string(),
            "Secret: both-secret".to_string(),
        ]
    );
}

#[test]
fn extraction_keeps_workload_kind_and_name() {
    let parser = K8sParser::new();
    let docs = vec![doc(
        "Deployment",
        Some("api"),
        Some(vec![simple_container(vec![entry(
            "PORT",
            EnvValue::Literal("8080".to_string()),
        )])]),
    )];
    let resources = parser.extract_resources(&docs);
    assert_eq!(resources.len(), 1);
    assert_eq!(resources[0].kind, "Deployment");
    assert_eq!(resources[0].name, "api");
    assert_eq!(resources[0].containers.len(), 1);
    assert_eq!(
        resources[0].containers[0].env_vars,
        vec![("PORT".to_string(), "8080".to_string())]
    );
}
