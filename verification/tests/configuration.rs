//! Settings from the environment.

use flint::catalog::{CatalogDocument, RuntimeCatalog, RuntimeDocument};
use flint::config::{
    parse_list, valid_custom_header, valid_docker_network, ConfigError, EntryRule, RuntimeConfig,
    RuntimeSourceConfig, Setting, Settings,
};
use flint::descriptor::LifecycleConfigurationDocument;
use flint::labels::Labels;
use flint::runtime::{ConnectivityMode, Protocol};
use flint::session_store::locate;

fn config_from(values: &[(&str, &str)]) -> Result<RuntimeConfig, ConfigError> {
    let entries = values
        .iter()
        .map(|(name, value)| Setting {
            name: (*name).to_owned(),
            value: Some((*value).to_owned()),
        })
        .collect();
    RuntimeConfig::from_lookup(&Settings { entries })
}

#[test]
fn docker_discovery_is_the_default_source() {
    let config = config_from(&[("AGENTCORE_RUNTIME_OWNER", "owner")]).expect("config");
    let RuntimeSourceConfig::Docker(discovery) = config.runtime_source else {
        panic!("Docker discovery source");
    };
    assert!(discovery.image_allowlist.is_empty());
    assert_eq!(discovery.refresh_seconds, 30);
}

#[test]
fn catalog_source_uses_global_policy_and_rejects_discovery_only_options() {
    let config = config_from(&[
        ("AGENTCORE_RUNTIME_OWNER", "owner"),
        ("AGENTCORE_RUNTIME_SOURCE", "catalog"),
        ("FLINT_CONNECTIVITY_MODE", "container"),
        ("FLINT_DOCKER_NETWORK", "flint-agentcore"),
        ("FLINT_RUNTIME_ENV_ALLOWLIST", "MODEL"),
        ("FLINT_RUNTIME_HEADER_ALLOWLIST", "x-one"),
    ])
    .expect("catalog config");
    let RuntimeSourceConfig::Catalog { policy, .. } = config.runtime_source else {
        panic!("catalog source");
    };
    let document = CatalogDocument {
        runtimes: vec![RuntimeDocument {
            name: Some("flint_local".to_owned()),
            image: "fixture:local".to_owned(),
            protocol: Protocol::Http,
            environment_variables: Vec::new(),
            lifecycle_configuration: LifecycleConfigurationDocument {
                idle_runtime_session_timeout: None,
                max_lifetime: None,
            },
        }],
    };
    let deployment = match RuntimeCatalog::from_bytes_with_environment(
        "fixture.json",
        b"{}",
        &document,
        &policy,
        &Labels::new(),
    ) {
        Ok(catalog) => catalog.default_snapshot(),
        Err(error) => panic!("{}", error.message()),
    };
    assert_eq!(deployment.connectivity.mode, ConnectivityMode::Container);
    assert_eq!(deployment.allowed_custom_headers, ["x-one"]);
    let error = config_from(&[
        ("AGENTCORE_RUNTIME_OWNER", "owner"),
        ("AGENTCORE_RUNTIME_SOURCE", "catalog"),
        ("AGENTCORE_RUNTIME_IMAGES", "fixture:local"),
    ])
    .expect_err("conflicting discovery option");
    assert!(matches!(error, ConfigError::Conflict(_)));
}

#[test]
fn container_discovery_requires_a_named_network() {
    for values in [
        vec![
            ("AGENTCORE_RUNTIME_OWNER", "owner"),
            ("FLINT_CONNECTIVITY_MODE", "container"),
        ],
        vec![
            ("AGENTCORE_RUNTIME_OWNER", "owner"),
            ("FLINT_CONNECTIVITY_MODE", "container"),
            ("FLINT_DOCKER_NETWORK", "host"),
        ],
    ] {
        assert!(config_from(&values).is_err());
    }
    assert!(config_from(&[
        ("AGENTCORE_RUNTIME_OWNER", "owner"),
        ("FLINT_CONNECTIVITY_MODE", "container"),
        ("FLINT_DOCKER_NETWORK", "flint-agentcore"),
    ])
    .is_ok());
}

#[test]
fn discovery_lists_are_sorted_unique_and_validated() {
    let config = config_from(&[
        ("AGENTCORE_RUNTIME_OWNER", "owner"),
        ("AGENTCORE_RUNTIME_IMAGES", "second:local,first:local"),
        ("FLINT_RUNTIME_ENV_ALLOWLIST", "MODEL,OPENAI_API_KEY"),
        ("FLINT_RUNTIME_HEADER_ALLOWLIST", "x-two,x-one"),
    ])
    .expect("discovery config");
    let RuntimeSourceConfig::Docker(discovery) = config.runtime_source else {
        panic!("Docker discovery source");
    };
    assert_eq!(discovery.image_allowlist, ["first:local", "second:local"]);
    assert_eq!(discovery.policy.header_allowlist, ["x-one", "x-two"]);
    assert!(config_from(&[
        ("AGENTCORE_RUNTIME_OWNER", "owner"),
        (
            "FLINT_RUNTIME_ENV_ALLOWLIST",
            "OPENAI_API_KEY,OPENAI_API_KEY"
        ),
    ])
    .is_err());
}

#[test]
fn the_owner_and_the_state_have_defaults() {
    let config = config_from(&[]).expect("defaults");
    assert_eq!(config.runtime_owner, "flint");
    assert!(matches!(config.runtime_source, RuntimeSourceConfig::Docker(_)));
    assert_eq!(config.state_path, None);
    assert_eq!(config.session_storage_mount_path, "/workspace");
    assert_eq!(config.health_check_interval_seconds, 5);
    let home = ("HOME", "/home/flint");
    let config = config_from(&[home]).expect("home");
    assert_eq!(
        config.state_path.as_deref(),
        Some("/home/flint/.local/state/flint/flint.sqlite3")
    );
    let config = config_from(&[home, ("XDG_STATE_HOME", "/state")]).expect("state home");
    assert_eq!(config.state_path.as_deref(), Some("/state/flint/flint.sqlite3"));
    let config = config_from(&[home, ("XDG_STATE_HOME", " ")]).expect("blank state home");
    assert_eq!(
        config.state_path.as_deref(),
        Some("/home/flint/.local/state/flint/flint.sqlite3")
    );
    let config = config_from(&[home, ("FLINT_STATE_PATH", "/data/x.sqlite3")]).expect("path");
    assert_eq!(config.state_path.as_deref(), Some("/data/x.sqlite3"));
    let config = config_from(&[home, ("FLINT_STATE_PATH", " ")]).expect("blank path");
    assert_eq!(config.state_path, None);
}

#[test]
fn a_database_without_a_place_is_an_error_of_the_store() {
    assert_eq!(locate(Some("/data/x.sqlite3".to_owned())).expect("path"), "/data/x.sqlite3");
    match locate(None) {
        Ok(path) => panic!("{path}"),
        Err(error) => assert_eq!(
            error.message(),
            "invalid session state path: set FLINT_STATE_PATH, XDG_STATE_HOME or HOME"
        ),
    }
}

#[test]
fn storage_and_health_settings_are_taken_as_they_are_or_have_defaults() {
    let config = config_from(&[
        ("FLINT_SESSION_STORAGE_MOUNT_PATH", "data"),
        ("FLINT_HEALTH_CHECK_INTERVAL_SECONDS", "7"),
    ])
    .expect("settings");
    assert_eq!(config.session_storage_mount_path, "data");
    assert_eq!(config.health_check_interval_seconds, 7);
    for value in ["0", "soon", " "] {
        let config =
            config_from(&[("FLINT_HEALTH_CHECK_INTERVAL_SECONDS", value)]).expect("default");
        assert_eq!(config.health_check_interval_seconds, 5, "{value}");
    }
}

#[test]
fn blank_and_unknown_values_are_invalid() {
    assert!(matches!(
        config_from(&[("AGENTCORE_RUNTIME_OWNER", "  ")]),
        Err(ConfigError::Invalid("AGENTCORE_RUNTIME_OWNER"))
    ));
    assert!(matches!(
        config_from(&[("FLINT_CONNECTIVITY_MODE", "bridge")]),
        Err(ConfigError::Invalid("FLINT_CONNECTIVITY_MODE"))
    ));
    assert!(matches!(
        config_from(&[("AGENTCORE_RUNTIME_SOURCE", "cloud")]),
        Err(ConfigError::Invalid("AGENTCORE_RUNTIME_SOURCE"))
    ));
    assert!(matches!(
        config_from(&[("FLINT_DISCOVERY_REFRESH_SECONDS", "0")]),
        Err(ConfigError::Invalid("FLINT_DISCOVERY_REFRESH_SECONDS"))
    ));
    let unreadable = Settings {
        entries: vec![Setting { name: "AGENTCORE_RUNTIME_OWNER".to_owned(), value: None }],
    };
    assert!(matches!(
        RuntimeConfig::from_lookup(&unreadable),
        Err(ConfigError::Invalid("AGENTCORE_RUNTIME_OWNER"))
    ));
}

#[test]
fn reserved_headers_cannot_be_allowed() {
    assert!(valid_custom_header("x-flint-invocation-id"));
    for name in ["authorization", "host", "X-Upper", "", "content-length", "x_y"] {
        assert!(!valid_custom_header(name), "{name}");
    }
    assert!(matches!(
        parse_list("LIST", Some("x-one,authorization".to_owned()), EntryRule::CustomHeader),
        Err(ConfigError::Invalid("LIST"))
    ));
    assert_eq!(
        parse_list("LIST", None, EntryRule::AnyText).expect("absent list"),
        Vec::<String>::new()
    );
}

#[test]
fn networks_have_names_of_their_own() {
    assert!(valid_docker_network("flint-agentcore"));
    for name in ["bridge", "default", "host", "none", "container:x", "", "-x", "a b"] {
        assert!(!valid_docker_network(name), "{name}");
    }
    assert!(valid_docker_network(&"a".repeat(255)));
    assert!(!valid_docker_network(&"a".repeat(256)));
}

#[test]
fn configuration_errors_have_their_texts() {
    assert_eq!(ConfigError::Missing("X").message(), "X is required");
    assert_eq!(ConfigError::Invalid("X").message(), "X has an invalid value");
    assert_eq!(ConfigError::Conflict("a and b").message(), "configuration conflict: a and b");
}
