//! Catalogs, descriptors and the registry.

use flint::arn::{local_runtime_arn, parse_runtime_arn};
use flint::catalog::{
    catalog_generation, CatalogDocument, DiscoveredRuntimeImage, DiscoveryPolicy, ResolvedImage,
    ResolvedImages, RuntimeCatalog, RuntimeDocument,
};
use flint::catalog_error::{validate_environment_name, CatalogError};
use flint::descriptor::{
    parse_runtime_descriptor, resolve_lifecycle, runtime_name_from_image, valid_runtime_id,
    LifecycleConfigurationDocument, RuntimeDescriptor, RuntimeDescriptorError,
    RUNTIME_ENVIRONMENT_VARIABLES_LABEL, RUNTIME_IDLE_TIMEOUT_LABEL, RUNTIME_MAX_LIFETIME_LABEL,
    RUNTIME_NAME_LABEL, RUNTIME_PROTOCOL_LABEL,
};
use flint::discovery::refresh_discovered_catalog;
use flint::environment::resolve_requested_environment;
use flint::images::DockerBackendError;
use flint::json::{canonical_descriptor, write_descriptor};
use flint::labels::Labels;
use flint::registry::RuntimeRegistry;
use flint::runtime::{
    Connectivity, ConnectivityMode, LifecyclePolicy, LocalIdentity, Protocol, DEFAULT_ACCOUNT_ID,
    DEFAULT_QUALIFIER,
};

const CATALOG: &str = r#"{
      "runtimes": [{
        "name": "flint_local",
        "image": "flint-runtime-fixture:local",
        "protocol": "HTTP",
        "environmentVariables": ["MODEL", "MISSING"],
        "lifecycleConfiguration": {
          "idleRuntimeSessionTimeout": 600,
          "maxLifetime": 3600
        }
      }]
    }"#;

fn runtime_labels() -> Labels {
    Labels::from_pairs(vec![
        (RUNTIME_NAME_LABEL.to_owned(), "flint_local".to_owned()),
        (RUNTIME_PROTOCOL_LABEL.to_owned(), "HTTP".to_owned()),
        (
            RUNTIME_ENVIRONMENT_VARIABLES_LABEL.to_owned(),
            "MODEL,MISSING".to_owned(),
        ),
        (RUNTIME_IDLE_TIMEOUT_LABEL.to_owned(), "600".to_owned()),
        (RUNTIME_MAX_LIFETIME_LABEL.to_owned(), "3600".to_owned()),
    ])
}

fn policy() -> DiscoveryPolicy {
    DiscoveryPolicy {
        connectivity: Connectivity {
            mode: ConnectivityMode::Native,
            docker_network: None,
            add_host_gateway: false,
        },
        environment_allowlist: vec!["MODEL".to_owned(), "MISSING".to_owned()],
        header_allowlist: vec!["x-flint-invocation-id".to_owned()],
    }
}

fn document(json: &str) -> CatalogDocument {
    let value: serde_json::Value = serde_json::from_str(json).expect("JSON");
    let runtimes = value["runtimes"].as_array().expect("runtimes");
    CatalogDocument {
        runtimes: runtimes
            .iter()
            .map(|runtime| RuntimeDocument {
                name: runtime["name"].as_str().map(str::to_owned),
                image: runtime["image"].as_str().expect("image").to_owned(),
                protocol: match runtime["protocol"].as_str() {
                    Some("HTTP") => Protocol::Http,
                    Some("MCP") => Protocol::Mcp,
                    Some("A2A") => Protocol::A2a,
                    Some("AGUI") => Protocol::AgUi,
                    other => panic!("unknown protocol {other:?}"),
                },
                environment_variables: runtime["environmentVariables"]
                    .as_array()
                    .map(|names| {
                        names
                            .iter()
                            .map(|name| name.as_str().expect("name").to_owned())
                            .collect()
                    })
                    .unwrap_or_default(),
                lifecycle_configuration: LifecycleConfigurationDocument {
                    idle_runtime_session_timeout: runtime["lifecycleConfiguration"]
                        ["idleRuntimeSessionTimeout"]
                        .as_u64(),
                    max_lifetime: runtime["lifecycleConfiguration"]["maxLifetime"].as_u64(),
                },
            })
            .collect(),
    }
}

fn environment(pairs: &[(&str, &str)]) -> Labels {
    Labels::from_pairs(
        pairs
            .iter()
            .map(|(name, value)| ((*name).to_owned(), (*value).to_owned()))
            .collect(),
    )
}

fn read(json: &str, pairs: &[(&str, &str)]) -> Result<RuntimeCatalog, CatalogError> {
    RuntimeCatalog::from_bytes_with_environment(
        "fixture.json",
        json.as_bytes(),
        &document(json),
        &policy(),
        &environment(pairs),
    )
}

fn catalog_with_environment(pairs: &[(&str, &str)]) -> RuntimeCatalog {
    match read(CATALOG, pairs) {
        Ok(catalog) => catalog,
        Err(error) => panic!("{}", error.message()),
    }
}

fn failure<T>(result: Result<T, CatalogError>) -> CatalogError {
    match result {
        Ok(_) => panic!("the catalog was accepted"),
        Err(error) => error,
    }
}

fn discovered_image(
    image_id: &str,
    image_reference: &str,
    descriptor: RuntimeDescriptor,
) -> DiscoveredRuntimeImage {
    DiscoveredRuntimeImage {
        image: ResolvedImage {
            immutable_reference: image_id.to_owned(),
            platform: "linux/amd64".to_owned(),
            entrypoint: Some(vec!["runtime".to_owned()]),
            command: None,
            environment: vec!["BASE=value".to_owned()],
            working_directory: Some("/workspace".to_owned()),
        },
        image_reference: image_reference.to_owned(),
        descriptor,
    }
}

fn descriptor() -> RuntimeDescriptor {
    parse_runtime_descriptor(&runtime_labels(), "fallback").expect("descriptor")
}

fn identity() -> LocalIdentity {
    LocalIdentity {
        region: "us-west-2".to_owned(),
        account_id: "123456789012".to_owned(),
    }
}

#[test]
fn protocol_contracts_are_fixed() {
    assert_eq!(Protocol::Http.port(), 8080);
    assert_eq!(Protocol::Http.invocation_path(), "/invocations");
    assert_eq!(Protocol::Http.ping_path(), Some("/ping"));
    assert_eq!(Protocol::Http.agent_card_path(), None);
    assert_eq!(Protocol::Mcp.port(), 8000);
    assert_eq!(Protocol::Mcp.invocation_path(), "/mcp");
    assert_eq!(Protocol::Mcp.ping_path(), None);
    assert_eq!(Protocol::Mcp.agent_card_path(), None);
    assert_eq!(Protocol::A2a.port(), 9000);
    assert_eq!(Protocol::A2a.invocation_path(), "/");
    assert_eq!(Protocol::A2a.ping_path(), Some("/ping"));
    assert_eq!(
        Protocol::A2a.agent_card_path(),
        Some("/.well-known/agent-card.json")
    );
    assert_eq!(Protocol::AgUi.port(), 8080);
    assert_eq!(Protocol::AgUi.invocation_path(), "/invocations");
    assert_eq!(Protocol::AgUi.ping_path(), Some("/ping"));
    assert_eq!(Protocol::AgUi.agent_card_path(), None);
}

#[test]
fn image_names_provide_runtime_name_defaults() {
    assert_eq!(
        runtime_name_from_image("ghcr.io/acme/my-runtime:latest"),
        "my-runtime"
    );
    assert_eq!(
        runtime_name_from_image("my-runtime@sha256:abc"),
        "my-runtime"
    );

    let json = r#"{"runtimes":[{"image":"ghcr.io/acme/my-runtime:latest","protocol":"HTTP"}]}"#;
    let catalog = match read(json, &[]) {
        Ok(catalog) => catalog,
        Err(error) => panic!("{}", error.message()),
    };
    assert_eq!(catalog.default_snapshot().runtime_id, "my-runtime");
}

#[test]
fn runtime_labels_parse_into_a_descriptor() {
    let mut labels = runtime_labels();
    let descriptor = parse_runtime_descriptor(&labels, "fallback").expect("runtime labels");
    assert_eq!(descriptor.name, "flint_local");
    assert_eq!(descriptor.protocol, Protocol::Http);
    assert_eq!(descriptor.environment_variables, ["MODEL", "MISSING"]);
    assert_eq!(
        descriptor
            .lifecycle_configuration
            .idle_runtime_session_timeout,
        Some(600)
    );
    assert_eq!(descriptor.lifecycle_configuration.max_lifetime, Some(3600));

    labels.remove(RUNTIME_ENVIRONMENT_VARIABLES_LABEL);
    labels.remove(RUNTIME_IDLE_TIMEOUT_LABEL);
    labels.remove(RUNTIME_MAX_LIFETIME_LABEL);
    let minimal = parse_runtime_descriptor(&labels, "fallback").expect("minimal runtime labels");
    assert!(minimal.environment_variables.is_empty());
    assert!(minimal
        .lifecycle_configuration
        .idle_runtime_session_timeout
        .is_none());
    assert!(minimal.lifecycle_configuration.max_lifetime.is_none());
}

#[test]
fn runtime_labels_default_the_name_and_reject_invalid_values() {
    let mut labels = runtime_labels();
    labels.remove(RUNTIME_NAME_LABEL);
    let descriptor = parse_runtime_descriptor(&labels, "my-runtime").expect("default name");
    assert_eq!(descriptor.name, "my-runtime");

    let mut labels = runtime_labels();
    labels.remove(RUNTIME_PROTOCOL_LABEL);
    assert!(matches!(
        parse_runtime_descriptor(&labels, "fallback"),
        Err(RuntimeDescriptorError::MissingLabel {
            label: RUNTIME_PROTOCOL_LABEL
        })
    ));

    let mut labels = runtime_labels();
    labels.insert(RUNTIME_PROTOCOL_LABEL.to_owned(), "GRPC".to_owned());
    assert!(matches!(
        parse_runtime_descriptor(&labels, "fallback"),
        Err(RuntimeDescriptorError::InvalidLabel {
            label: RUNTIME_PROTOCOL_LABEL,
            ..
        })
    ));

    let mut labels = runtime_labels();
    labels.insert(
        RUNTIME_ENVIRONMENT_VARIABLES_LABEL.to_owned(),
        "MODEL,,MISSING".to_owned(),
    );
    assert!(matches!(
        parse_runtime_descriptor(&labels, "fallback"),
        Err(RuntimeDescriptorError::InvalidLabel {
            label: RUNTIME_ENVIRONMENT_VARIABLES_LABEL,
            ..
        })
    ));

    let mut labels = runtime_labels();
    labels.insert(
        RUNTIME_IDLE_TIMEOUT_LABEL.to_owned(),
        "not-a-number".to_owned(),
    );
    assert!(matches!(
        parse_runtime_descriptor(&labels, "fallback"),
        Err(RuntimeDescriptorError::InvalidLabel {
            label: RUNTIME_IDLE_TIMEOUT_LABEL,
            ..
        })
    ));

    let mut labels = runtime_labels();
    labels.insert(RUNTIME_IDLE_TIMEOUT_LABEL.to_owned(), "59".to_owned());
    assert!(matches!(
        parse_runtime_descriptor(&labels, "fallback"),
        Err(RuntimeDescriptorError::Validation(_))
    ));

    let mut labels = runtime_labels();
    labels.insert(
        RUNTIME_ENVIRONMENT_VARIABLES_LABEL.to_owned(),
        "MODEL,MODEL".to_owned(),
    );
    assert!(matches!(
        parse_runtime_descriptor(&labels, "fallback"),
        Err(RuntimeDescriptorError::Validation(_))
    ));
}

#[test]
fn invalid_labels_are_shown_in_quotes() {
    let mut labels = runtime_labels();
    labels.insert(RUNTIME_PROTOCOL_LABEL.to_owned(), "G\"R".to_owned());
    let error = parse_runtime_descriptor(&labels, "fallback").expect_err("unknown protocol");
    assert!(error.message().contains(r#""G\"R""#), "{}", error.message());
}

#[test]
fn catalog_resolves_environment_and_records_nonblocking_warnings() {
    let catalog = catalog_with_environment(&[("MODEL", "fixture-model")]);
    let deployment = catalog.default_snapshot();
    assert_eq!(deployment.environment_value("MODEL"), Some("fixture-model"));
    assert_eq!(deployment.environment_value("MISSING"), None);
    assert_eq!(deployment.environment_warnings.len(), 1);
    assert!(deployment.environment_warnings[0].contains("MISSING"));
    assert_eq!(deployment.lifecycle.idle_timeout_seconds, 600);
    assert_eq!(deployment.lifecycle.maximum_lifetime_seconds, 3600);
    assert_eq!(deployment.allowed_custom_headers, ["x-flint-invocation-id"]);
}

#[test]
fn a_variable_that_is_asked_for_twice_is_given_once() {
    let requested = vec!["MODEL".to_owned(), "REGION".to_owned(), "MODEL".to_owned()];
    let mut values = Vec::new();
    let (variables, warnings) = resolve_requested_environment(
        "flint_local",
        &requested,
        &requested,
        &environment(&[("MODEL", "m"), ("REGION", "r")]),
        &mut values,
    );
    let names: Vec<&str> = variables.iter().map(|variable| variable.name.as_str()).collect();
    assert_eq!(names, ["MODEL", "REGION"]);
    assert!(warnings.is_empty());
    assert_eq!(values.len(), 3);
}

#[test]
fn lifecycle_defaults_match_agentcore_microvm_behavior() {
    let parse = |lifecycle: &str| {
        let json = format!(
            r#"{{"runtimes":[{{"name":"agent","image":"agent:local","protocol":"HTTP"{lifecycle}}}]}}"#
        );
        read(&json, &[]).map(|catalog| catalog.default_snapshot().lifecycle)
    };
    let defaults = parse("").expect("default lifecycle");
    assert_eq!(defaults.idle_timeout_seconds, 900);
    assert_eq!(defaults.maximum_lifetime_seconds, 28_800);
    let max_only =
        parse(r#", "lifecycleConfiguration":{"maxLifetime":600}"#).expect("max-only lifecycle");
    assert_eq!(max_only.idle_timeout_seconds, 600);
    assert_eq!(max_only.maximum_lifetime_seconds, 600);
    let idle_only = parse(r#", "lifecycleConfiguration":{"idleRuntimeSessionTimeout":1200}"#)
        .expect("idle-only lifecycle");
    assert_eq!(idle_only.idle_timeout_seconds, 1200);
    assert_eq!(idle_only.maximum_lifetime_seconds, 28_800);
    for lifecycle in [
        r#", "lifecycleConfiguration":{"idleRuntimeSessionTimeout":59}"#,
        r#", "lifecycleConfiguration":{"maxLifetime":28801}"#,
        r#", "lifecycleConfiguration":{"idleRuntimeSessionTimeout":601,"maxLifetime":600}"#,
    ] {
        assert!(parse(lifecycle).is_err());
    }
}

#[test]
fn lifecycles_stay_within_their_limits() {
    let resolve = |idle, max| {
        resolve_lifecycle(&LifecycleConfigurationDocument {
            idle_runtime_session_timeout: idle,
            max_lifetime: max,
        })
    };
    assert_eq!(
        resolve(Some(60), Some(28_800)).expect("limits"),
        LifecyclePolicy {
            startup_timeout_seconds: resolve(None, None).expect("defaults").startup_timeout_seconds,
            idle_timeout_seconds: 60,
            maximum_lifetime_seconds: 28_800,
        }
    );
    assert!(resolve(Some(28_801), None).is_err());
    assert!(resolve(None, Some(59)).is_err());
}

#[test]
fn discovered_runtime_uses_immutable_image_and_rejects_duplicate_names() {
    let catalog = match RuntimeCatalog::from_discovered_images(
        vec![discovered_image("sha256:immutable", "runtime:local", descriptor())],
        &policy(),
        &environment(&[("MODEL", "fixture-model")]),
    ) {
        Ok(catalog) => catalog,
        Err(error) => panic!("{}", error.message()),
    };
    let deployment = catalog.default_snapshot();
    assert_eq!(deployment.image_id, "sha256:immutable");
    assert_eq!(deployment.image_platform, "linux/amd64");
    assert_eq!(deployment.environment_value("MODEL"), Some("fixture-model"));
    let error = failure(RuntimeCatalog::from_discovered_images(
        vec![
            discovered_image("sha256:first", "runtime:first", descriptor()),
            discovered_image("sha256:second", "runtime:second", descriptor()),
        ],
        &policy(),
        &Labels::new(),
    ));
    assert!(error.message().contains("claimed by multiple images"));
}

#[test]
fn the_order_of_images_plays_no_part() {
    let named = |name: &str| {
        let mut descriptor = descriptor();
        descriptor.name = name.to_owned();
        descriptor
    };
    let images = |order: [usize; 3]| {
        order
            .iter()
            .map(|number| match number {
                0 => discovered_image("sha256:c", "first:local", named("zebra")),
                1 => discovered_image("sha256:a", "second:local", named("antelope")),
                _ => discovered_image("sha256:a", "second:local", named("lion")),
            })
            .collect::<Vec<_>>()
    };
    let discover = |order: [usize; 3], model: &str| match RuntimeCatalog::from_discovered_images(
        images(order),
        &policy(),
        &environment(&[("MODEL", model)]),
    ) {
        Ok(catalog) => catalog,
        Err(error) => panic!("{}", error.message()),
    };
    let first = discover([0, 1, 2], "one");
    for order in [[0, 2, 1], [1, 0, 2], [2, 1, 0]] {
        let other = discover(order, "one");
        assert_eq!(first.generation(), other.generation());
        let ids: Vec<String> =
            other.snapshots().into_iter().map(|runtime| runtime.runtime_id).collect();
        assert_eq!(ids, ["antelope", "lion", "zebra"]);
    }
    assert_ne!(first.generation(), discover([0, 1, 2], "two").generation());
}

#[test]
fn resolves_floci_style_identity_and_rejects_mismatches() {
    let catalog = catalog_with_environment(&[]);
    let identity = identity();
    let by_arn = match catalog.resolve(
        "arn:aws:bedrock-agentcore:us-west-2:123456789012:runtime/flint_local",
        None,
        None,
        &identity,
    ) {
        Ok(runtime) => runtime,
        Err(error) => panic!("{}", error.message()),
    };
    let by_id = match catalog.resolve(
        "flint_local",
        Some("123456789012"),
        Some(DEFAULT_QUALIFIER),
        &identity,
    ) {
        Ok(runtime) => runtime,
        Err(error) => panic!("{}", error.message()),
    };
    assert_eq!(by_arn.runtime_arn, by_id.runtime_arn);
    assert_eq!(by_arn.account_id, "123456789012");
    assert!(matches!(
        catalog.resolve("flint_local", Some(DEFAULT_ACCOUNT_ID), None, &identity),
        Err(CatalogError::IdentityMismatch(_))
    ));
    assert!(matches!(
        catalog.resolve(
            "arn:aws:bedrock-agentcore:us-west-2:123456789012:runtime/flint_local",
            Some(DEFAULT_ACCOUNT_ID),
            None,
            &identity,
        ),
        Err(CatalogError::IdentityMismatch(_))
    ));
    assert!(catalog
        .resolve("flint_local", Some("123456789012"), Some("BLUE"), &identity)
        .is_err());
}

#[test]
fn an_identifier_needs_its_account_and_unknown_ones_are_not_found() {
    let catalog = catalog_with_environment(&[]);
    assert!(matches!(
        catalog.resolve("flint_local", None, None, &identity()),
        Err(CatalogError::Resolution(message)) if message.contains("accountId is required")
    ));
    assert!(matches!(
        catalog.resolve("missing", Some("123456789012"), None, &identity()),
        Err(CatalogError::Resolution(_))
    ));
}

#[test]
fn stored_names_resolve_to_what_they_named() {
    let catalog = catalog_with_environment(&[]);
    let seen = match catalog.resolve("flint_local", Some("123456789012"), None, &identity()) {
        Ok(runtime) => runtime,
        Err(error) => panic!("{}", error.message()),
    };
    let stored = match catalog.resolve_stored(&seen.runtime_arn, Some(&seen.qualifier)) {
        Ok(runtime) => runtime,
        Err(error) => panic!("{}", error.message()),
    };
    assert_eq!(stored.runtime_arn, seen.runtime_arn);
    assert_eq!(stored.account_id, seen.account_id);
    assert!(catalog.resolve_stored("flint_local", None).is_err());
}

#[test]
fn registry_preserves_last_known_good_snapshot() {
    let mut registry = RuntimeRegistry::new(RuntimeCatalog::empty_discovery(), 10);
    let initial = registry.snapshot().generation().to_owned();
    registry.mark_refresh_failure("invalid marked image".to_owned());
    assert_eq!(registry.snapshot().generation(), initial);
    assert_eq!(registry.health().discovery_status, "degraded");
    registry.replace(catalog_with_environment(&[]), 20);
    assert_eq!(registry.health().discovery_status, "ready");
    assert_eq!(registry.health().runtime_count, 1);
    let snapshots = registry.snapshot().snapshots();
    assert_eq!(snapshots.len(), 1);
    assert_eq!(snapshots[0].runtime_arn, registry.snapshot().default_snapshot().runtime_arn);
}

#[test]
fn a_failed_refresh_keeps_the_catalog_and_its_time() {
    let mut registry = RuntimeRegistry::new(catalog_with_environment(&[]), 10);
    refresh_discovered_catalog(
        &mut registry,
        Err(DockerBackendError::Discovery("no daemon".to_owned())),
        20,
    );
    let health = registry.health();
    assert_eq!(health.runtime_count, 1);
    assert_eq!(health.last_successful_refresh_unix_seconds, Some(10));
    assert!(health.last_error.expect("error").contains("no daemon"));
    refresh_discovered_catalog(&mut registry, Ok(RuntimeCatalog::empty_discovery()), 30);
    assert_eq!(registry.health().runtime_count, 0);
    assert_eq!(registry.health().last_error, None);
}

#[test]
fn catalogs_take_their_topology_from_the_policy() {
    let json = r#"{"runtimes":[{"name":"flint_local","image":"fixture:local","protocol":"HTTP"}]}"#;
    let native = read(json, &[]).map(|catalog| catalog.default_snapshot().connectivity.mode);
    assert_eq!(native.expect("native catalog"), ConnectivityMode::Native);
    let mut container_policy = policy();
    container_policy.connectivity = Connectivity {
        mode: ConnectivityMode::Container,
        docker_network: Some("flint-agentcore".to_owned()),
        add_host_gateway: false,
    };
    let compose = match RuntimeCatalog::from_bytes_with_environment(
        "compose.json",
        json.as_bytes(),
        &document(json),
        &container_policy,
        &Labels::new(),
    ) {
        Ok(catalog) => catalog,
        Err(error) => panic!("{}", error.message()),
    };
    assert_eq!(compose.default_snapshot().qualifier, DEFAULT_QUALIFIER);
    assert_eq!(compose.default_snapshot().connectivity.mode, ConnectivityMode::Container);
}

#[test]
fn catalog_generation_tracks_environment_but_not_json_whitespace() {
    let first = catalog_with_environment(&[("MODEL", "one")]);
    let second = catalog_with_environment(&[("MODEL", "two")]);
    assert_ne!(first.generation(), second.generation());
    let whitespace = format!("\n{CATALOG}\n");
    let same = match read(&whitespace, &[("MODEL", "one")]) {
        Ok(catalog) => catalog,
        Err(error) => panic!("{}", error.message()),
    };
    assert_eq!(first.generation(), same.generation());
}

#[test]
fn generations_are_digests_of_source_and_values() {
    assert_eq!(
        RuntimeCatalog::empty_discovery().generation(),
        flint::sigv4::sha256_hex(b"docker-discovery-empty-v1")
    );
    assert_eq!(
        catalog_generation(b"{}", &vec!["b".to_owned(), "a".to_owned()]),
        flint::sigv4::sha256_hex(b"flint-file-catalog-v2\0{}b\0a\0")
    );
}

#[test]
fn broken_catalogs_say_what_is_wrong() {
    let error = failure(RuntimeCatalog::from_bytes_with_environment(
        "broken.json",
        b"{",
        &CatalogDocument { runtimes: Vec::new() },
        &policy(),
        &Labels::new(),
    ));
    assert!(matches!(error, CatalogError::Parse { .. }), "{}", error.message());
    assert!(error.message().starts_with("failed to parse runtime catalog broken.json: "));
    let empty = failure(read(r#"{"runtimes":[]}"#, &[]));
    assert!(matches!(empty, CatalogError::Validation(_)), "{}", empty.message());
    let twice = r#"{"runtimes":[
        {"name":"a","image":"a:1","protocol":"HTTP"},
        {"name":"a","image":"a:2","protocol":"HTTP"}]}"#;
    assert!(matches!(failure(read(twice, &[])), CatalogError::Validation(_)));
    assert!(validate_environment_name("variable", "1BAD").is_err());
    assert!(validate_environment_name("variable", "GOOD_1").is_ok());
    assert_eq!(
        CatalogError::Read { path: "p".to_owned(), source: "s".to_owned() }.message(),
        "failed to read runtime catalog p: s"
    );
}

#[test]
fn images_are_pinned_without_changing_the_runtimes() {
    let catalog = catalog_with_environment(&[]);
    let pinned = match catalog.with_resolved_image_ids(&ResolvedImages {
        entries: vec![(
            "flint-runtime-fixture:local".to_owned(),
            discovered_image("sha256:pinned", "flint-runtime-fixture:local", descriptor()).image,
        )],
    }) {
        Ok(catalog) => catalog,
        Err(error) => panic!("{}", error.message()),
    };
    let runtime = pinned.default_snapshot();
    assert_eq!(runtime.image_id, "sha256:pinned");
    assert_eq!(runtime.image, "flint-runtime-fixture:local");
    assert_eq!(runtime.runtime_id, "flint_local");
    assert_ne!(pinned.generation(), catalog.generation());
}

#[test]
fn names_and_their_parts_belong_together() {
    let arn = local_runtime_arn("us-west-2", "123456789012", "flint_local");
    assert_eq!(arn, "arn:aws:bedrock-agentcore:us-west-2:123456789012:runtime/flint_local");
    let parts = parse_runtime_arn(&arn).expect("ARN");
    assert_eq!(parts.region, "us-west-2");
    assert_eq!(parts.account_id, "123456789012");
    assert_eq!(parts.runtime_id, "flint_local");
    assert!(parse_runtime_arn("arn:aws:s3:::bucket").is_err());
    assert!(valid_runtime_id("flint_local"));
    assert!(!valid_runtime_id(""));
    assert!(!valid_runtime_id("a/b"));
}

#[test]
fn descriptors_have_a_canonical_text() {
    let written = write_descriptor(&descriptor());
    let value: serde_json::Value = serde_json::from_str(&written).expect("JSON");
    assert_eq!(value["name"], "flint_local");
    assert_eq!(value["environmentVariables"][1], "MISSING");
    let canonical = canonical_descriptor(&descriptor()).expect("canonical text");
    let again: serde_json::Value = serde_json::from_slice(&canonical).expect("JSON");
    assert_eq!(value, again);
    assert!(canonical.starts_with(b"{\"environmentVariables\":[\"MODEL\",\"MISSING\"]"));
}
