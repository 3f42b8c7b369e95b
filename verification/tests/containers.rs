//! Images, networks and containers.

use flint::backend::{
    admit_command, command_exit, command_line, command_pid_file, command_timeout,
    complete_command, http_health, needs_termination, new_command_pid_file, pid_cleanup_command,
    ping_target, readiness, removal_step, signal_command, startup_error, startup_step,
    still_starting, stuck_command, tcp_health, termination_step, CommandEvent, CommandMeter,
    Completion, OutputStream, PingReply, PingTarget, Readiness, RemovalAnswer, RemovalStep,
    StartupEnd, StartupStep, TerminationStage, TerminationStep,
};
use flint::catalog::{CatalogDocument, DiscoveryPolicy, RuntimeCatalog, RuntimeDocument};
use flint::container::{
    adopt, adoption_ping, agent_host_config, container_endpoint, container_plan,
    is_owned_reconciliation_candidate, labels_are_owned, prior_container, session_container_name,
    session_host_config, session_volume, session_volume_labels, session_volume_name,
    AdoptionError, AdoptionPing, ContainerInspection, PortMapping, MANAGED_LABEL, OWNER_LABEL,
    SESSION_LABEL,
};
use flint::descriptor::{
    LifecycleConfigurationDocument, RUNTIME_NAME_LABEL, RUNTIME_PROTOCOL_LABEL,
};
use flint::discovery::{
    discover_runtime_catalog, events_stopped, reconcile_step, select_images, ListedImage,
    ReconcileStep,
};
use flint::images::{
    discovery_reference, image_platform, images_to_inspect, immutable_image_reference,
    needs_image_ids, resolve_catalog_image_ids, DockerBackendError, ImageAnswer, ImageConfig,
    ImageInspection,
};
use flint::labels::Labels;
use flint::preflight::{
    networks_to_inspect, preflight_catalog, NetworkAnswer, NetworkInspection, OwnContainer,
};
use flint::runtime::{Connectivity, ConnectivityMode, Protocol, ResolvedRuntime};
use flint::session::{SessionContainer, SessionHealth};
use flint::session_map::SessionKey;

const VALID_SESSION_LABEL: &str = "20000000-0000-0000-0000-000000000099";

fn policy(mode: ConnectivityMode, network: Option<&str>) -> DiscoveryPolicy {
    DiscoveryPolicy {
        connectivity: Connectivity {
            mode,
            docker_network: network.map(str::to_owned),
            add_host_gateway: false,
        },
        environment_allowlist: Vec::new(),
        header_allowlist: Vec::new(),
    }
}

fn catalog(policy: &DiscoveryPolicy) -> RuntimeCatalog {
    let document = CatalogDocument {
        runtimes: vec![RuntimeDocument {
            name: Some("flint_local".to_owned()),
            image: "flint-runtime-fixture:local".to_owned(),
            protocol: Protocol::Http,
            environment_variables: Vec::new(),
            lifecycle_configuration: LifecycleConfigurationDocument {
                idle_runtime_session_timeout: None,
                max_lifetime: None,
            },
        }],
    };
    match RuntimeCatalog::from_bytes_with_environment(
        "fixture.json",
        b"{}",
        &document,
        policy,
        &Labels::new(),
    ) {
        Ok(catalog) => catalog,
        Err(error) => panic!("{}", error.message()),
    }
}

fn native() -> RuntimeCatalog {
    catalog(&policy(ConnectivityMode::Native, None))
}

fn runtime() -> ResolvedRuntime {
    native().default_snapshot()
}

fn labels(pairs: &[(&str, &str)]) -> Labels {
    Labels::from_pairs(
        pairs
            .iter()
            .map(|(name, value)| ((*name).to_owned(), (*value).to_owned()))
            .collect(),
    )
}

fn inspection(id: &str, tag: &str) -> ImageInspection {
    ImageInspection {
        id: Some(id.to_owned()),
        repo_tags: vec![tag.to_owned()],
        repo_digests: Vec::new(),
        os: Some("linux".to_owned()),
        architecture: Some("amd64".to_owned()),
        variant: None,
        config: Some(ImageConfig {
            entrypoint: Some(vec!["runtime".to_owned()]),
            command: None,
            environment: Vec::new(),
            working_directory: None,
            labels: Some(labels(&[
                (RUNTIME_NAME_LABEL, "flint_local"),
                (RUNTIME_PROTOCOL_LABEL, "HTTP"),
            ])),
        }),
    }
}

fn key() -> SessionKey {
    SessionKey {
        runtime_arn: "arn:aws:bedrock-agentcore:us-west-2:1:runtime/demo".to_owned(),
        qualifier: "DEFAULT".to_owned(),
        runtime_session_id: "session-a".to_owned(),
    }
}

fn container() -> SessionContainer {
    SessionContainer {
        id: "container-1".to_owned(),
        endpoint: "http://127.0.0.1:8080".to_owned(),
        age_nanos: 0,
    }
}

#[test]
fn reconciliation_ownership_requires_exact_managed_owner_and_session_labels() {
    let owner = "owner-a";
    let complete = labels(&[
        (MANAGED_LABEL, "true"),
        (OWNER_LABEL, owner),
        (SESSION_LABEL, VALID_SESSION_LABEL),
    ]);
    assert!(is_owned_reconciliation_candidate(&complete, owner));

    for unrelated in [
        labels(&[(MANAGED_LABEL, "true")]),
        labels(&[(OWNER_LABEL, owner)]),
        labels(&[
            (MANAGED_LABEL, "true"),
            (OWNER_LABEL, "owner-b"),
            (SESSION_LABEL, VALID_SESSION_LABEL),
        ]),
        labels(&[
            (MANAGED_LABEL, "true"),
            (OWNER_LABEL, owner),
            (SESSION_LABEL, "malformed"),
        ]),
    ] {
        assert!(!is_owned_reconciliation_candidate(&unrelated, owner));
    }
}

#[test]
fn native_agent_containers_disable_host_gateway_by_default() {
    let host_config = agent_host_config(&runtime());

    assert_eq!(host_config.network_mode, None);
    assert_eq!(host_config.extra_hosts, None);
}

#[test]
fn native_session_containers_publish_only_an_ephemeral_loopback_port() {
    let mut deployment = runtime();
    deployment.connectivity.mode = ConnectivityMode::Native;
    deployment.connectivity.docker_network = None;
    let host_config = session_host_config(&deployment, "fixture-volume", "/workspace");
    assert!(host_config.tmpfs.is_none());
    let mount = host_config.mount.as_ref().expect("persistent session mount");
    assert_eq!(mount.source, "fixture-volume");
    assert_eq!(mount.target, "/workspace");
    assert!(!mount.read_only);
    assert!(!mount.no_copy);
    let binding = host_config
        .port_binding
        .expect("native session publishes its protocol port");
    assert_eq!(binding.container_port, "8080/tcp");
    assert_eq!(binding.host_ip, "127.0.0.1");
    assert_eq!(binding.host_port, "");
}

#[test]
fn container_session_containers_use_the_configured_network_without_publishing_ports() {
    let mut deployment = runtime();
    deployment.connectivity.mode = ConnectivityMode::Container;
    deployment.connectivity.docker_network = Some("flint-agentcore".to_owned());
    deployment.connectivity.add_host_gateway = false;

    let host_config = session_host_config(&deployment, "fixture-volume", "/workspace");
    assert_eq!(host_config.network_mode.as_deref(), Some("flint-agentcore"));
    assert!(host_config.port_binding.is_none());
    assert_eq!(host_config.extra_hosts, None);

    let inspection = ContainerInspection {
        id: None,
        name: Some("/agentcore-session-owner-session".to_owned()),
        running: None,
        labels: None,
        ports: Vec::new(),
    };
    assert_eq!(
        container_endpoint(&inspection, &deployment).expect("container network endpoint"),
        "http://agentcore-session-owner-session:8080"
    );
}

#[test]
fn session_container_names_are_stable_per_owner_and_session() {
    let key = key();
    let first = session_container_name("owner-a", &key);
    assert_eq!(first, session_container_name("owner-a", &key));
    let volume = session_volume_name("owner-a", &key);
    assert_eq!(volume, session_volume_name("owner-a", &key));
    let mut other = key;
    other.runtime_session_id = "session-b".to_owned();
    assert_ne!(first, session_container_name("owner-a", &other));
    assert_ne!(volume, session_volume_name("owner-a", &other));
    assert!(first.len() <= 63);
    assert!(volume.len() <= 63);
}

#[test]
fn session_names_have_one_form() {
    let key = key();
    let container = session_container_name("owner-a", &key);
    let volume = session_volume_name("owner-a", &key);
    assert_eq!(container.len(), 42);
    assert_eq!(volume.len(), 47);
    let digits = container.strip_prefix("agentcore-session-").expect("container name");
    assert!(digits.bytes().all(|byte| matches!(byte, b'0'..=b'9' | b'a'..=b'f')));
    assert_eq!(volume.strip_prefix("agentcore-session-data-"), Some(digits));
}

#[test]
fn a_made_container_is_found_again() {
    let runtime = runtime();
    let key = SessionKey::new(&runtime, VALID_SESSION_LABEL.to_owned());
    let mut catalog = native();
    for entry in &mut catalog.runtimes {
        entry.image_id = "sha256:pinned".to_owned();
    }
    let deployment = catalog.default_snapshot();
    let plan = container_plan("owner-a", &key, &deployment, "/workspace", 1_000);
    assert_eq!(plan.image, "sha256:pinned");
    assert!(is_owned_reconciliation_candidate(&plan.labels, "owner-a"));
    let found = ContainerInspection {
        id: Some("container-1".to_owned()),
        name: Some(plan.name.clone()),
        running: Some(true),
        labels: Some(plan.labels),
        ports: vec![PortMapping {
            container_port: "8080/tcp".to_owned(),
            first_host_port: Some("49152".to_owned()),
        }],
    };
    let adopted = match adopt(&catalog, "container-1", &found, 1_010, 5) {
        Ok(adopted) => adopted,
        Err(error) => panic!("{error:?}"),
    };
    assert_eq!(adopted.key, key);
    assert_eq!(adopted.container.endpoint, "http://127.0.0.1:49152");
    assert_eq!(adopted.container.age_nanos, 10_000_000_005);

    let stopped = ContainerInspection { running: Some(false), ..found };
    assert!(matches!(
        adopt(&catalog, "container-1", &stopped, 1_010, 5),
        Err(AdoptionError::Invalid(_))
    ));
}

#[test]
fn volumes_and_containers_of_others_are_left_alone() {
    let key = key();
    let own = session_volume_labels("owner-a", &key);
    assert!(labels_are_owned(&own, "owner-a", &key));
    assert!(!labels_are_owned(&own, "owner-b", &key));
    assert_eq!(
        session_volume("owner-a", &key, &own).expect("own volume"),
        session_volume_name("owner-a", &key)
    );
    assert!(session_volume("owner-b", &key, &own).is_err());
    let foreign = ContainerInspection {
        id: Some("container-1".to_owned()),
        name: None,
        running: Some(true),
        labels: Some(Labels::new()),
        ports: Vec::new(),
    };
    assert!(prior_container("owner-a", &key, &foreign).is_err());
    let mine = ContainerInspection { labels: Some(own), ..foreign };
    assert_eq!(prior_container("owner-a", &key, &mine).expect("own container"), "container-1");
}

#[test]
fn found_containers_are_asked_a_few_times() {
    assert_eq!(adoption_ping(1, SessionHealth::Healthy), AdoptionPing::Adopt);
    assert_eq!(adoption_ping(1, SessionHealth::HealthyBusy), AdoptionPing::Adopt);
    assert_eq!(adoption_ping(1, SessionHealth::Unhealthy), AdoptionPing::TryAgain);
    assert_eq!(adoption_ping(u8::MAX, SessionHealth::Unhealthy), AdoptionPing::Reject);
    assert!(matches!(reconcile_step("c", Ok(())), ReconcileStep::Keep));
    assert!(matches!(
        reconcile_step("c", Err(AdoptionError::Invalid("old".to_owned()))),
        ReconcileStep::Remove(reason) if reason == "old"
    ));
    match reconcile_step("c", Err(AdoptionError::Transient("slow".to_owned()))) {
        ReconcileStep::Fail(error) => assert!(error
            .message()
            .contains("could not safely adopt owned container c; it was left untouched: slow")),
        other => panic!("{other:?}"),
    }
}

// Images.

#[test]
fn images_have_a_platform_and_a_content_identifier() {
    let mut image = inspection("sha256:abc", "agent:local");
    assert_eq!(image_platform(&image, "agent:local").expect("platform"), "linux/amd64");
    assert!(immutable_image_reference(&image, "agent:local").is_ok());
    image.variant = Some("v8".to_owned());
    assert_eq!(image_platform(&image, "agent:local").expect("platform"), "linux/amd64/v8");
    image.architecture = None;
    assert!(image_platform(&image, "agent:local").is_err());
    image.id = None;
    assert!(immutable_image_reference(&image, "agent:local").is_err());
}

#[test]
fn an_image_goes_by_the_first_of_its_names() {
    let mut image = inspection("sha256:abc", "b:1");
    image.repo_digests = vec!["a@sha256:abc".to_owned()];
    assert_eq!(discovery_reference(&image).as_deref(), Some("a@sha256:abc"));
    image.repo_tags.clear();
    image.repo_digests.clear();
    assert_eq!(discovery_reference(&image), None);
}

#[test]
fn marked_images_are_searched_where_no_allowlist_is_set() {
    let listed = vec![
        ListedImage { id: "sha256:1".to_owned(), labels: Labels::new() },
        ListedImage {
            id: "sha256:2".to_owned(),
            labels: labels(&[(RUNTIME_PROTOCOL_LABEL, "HTTP")]),
        },
    ];
    assert_eq!(select_images(&Vec::new(), &listed), ["sha256:2"]);
    assert_eq!(select_images(&vec!["agent:local".to_owned()], &listed), ["agent:local"]);
}

#[test]
fn the_images_that_were_looked_at_make_a_catalog() {
    let policy = policy(ConnectivityMode::Native, None);
    let references = vec!["sha256:abc".to_owned(), "sha256:nameless".to_owned()];
    let mut nameless = inspection("sha256:nameless", "x");
    nameless.repo_tags.clear();
    let found = match discover_runtime_catalog(
        false,
        &references,
        &vec![Ok(inspection("sha256:abc", "agent:local")), Ok(nameless)],
        &policy,
        &Labels::new(),
    ) {
        Ok(catalog) => catalog,
        Err(error) => panic!("{}", error.message()),
    };
    assert_eq!(found.len(), 1);
    assert_eq!(found.default_snapshot().runtime_id, "flint_local");

    let error = match discover_runtime_catalog(
        true,
        &vec!["agent:local".to_owned()],
        &vec![Err("no such image".to_owned())],
        &policy,
        &Labels::new(),
    ) {
        Ok(_) => panic!("a missing image is an error"),
        Err(error) => error,
    };
    assert!(error
        .message()
        .contains("allowlisted image agent:local is not present in the Docker daemon: no such image"));
    assert_eq!(events_stopped(None), "Docker image event stream ended");
    assert_eq!(events_stopped(Some("x")), "Docker image event stream failed: x");
}

#[test]
fn catalog_images_are_pinned_to_their_content() {
    let catalog = native();
    assert!(needs_image_ids(&catalog));
    assert_eq!(images_to_inspect(&catalog), ["flint-runtime-fixture:local"]);
    let answers = vec![ImageAnswer {
        reference: "flint-runtime-fixture:local".to_owned(),
        outcome: Ok(inspection("sha256:abc", "flint-runtime-fixture:local")),
    }];
    let pinned = match resolve_catalog_image_ids(&catalog, &answers) {
        Ok(catalog) => catalog,
        Err(error) => panic!("{}", error.message()),
    };
    assert!(!needs_image_ids(&pinned));
    assert!(resolve_catalog_image_ids(
        &catalog,
        &vec![ImageAnswer {
            reference: "flint-runtime-fixture:local".to_owned(),
            outcome: Err("no such image".to_owned()),
        }],
    )
    .is_err());
}

#[test]
fn preflight_wants_the_images_and_the_network() {
    let own = OwnContainer { hostname: None, networks: Ok(Vec::new()) };
    let pinned = |catalog: &RuntimeCatalog| {
        match resolve_catalog_image_ids(
            catalog,
            &vec![ImageAnswer {
                reference: "flint-runtime-fixture:local".to_owned(),
                outcome: Ok(inspection("sha256:abc", "flint-runtime-fixture:local")),
            }],
        ) {
            Ok(catalog) => catalog,
            Err(error) => panic!("{}", error.message()),
        }
    };
    let native = pinned(&native());
    let reference = native.default_snapshot().image;
    let present = vec![ImageAnswer {
        reference: reference.clone(),
        outcome: Ok(inspection("sha256:abc", "flint-runtime-fixture:local")),
    }];
    assert!(networks_to_inspect(&native).is_empty());
    let checked = preflight_catalog(&native, &present, &Vec::new(), &own);
    assert!(checked.is_ok(), "{checked:?}");
    let missing = vec![ImageAnswer { reference, outcome: Err("no such image".to_owned()) }];
    assert!(matches!(
        preflight_catalog(&native, &missing, &Vec::new(), &own),
        Err(DockerBackendError::Preflight(_))
    ));

    let shared = pinned(&catalog(&policy(ConnectivityMode::Container, Some("flint-agentcore"))));
    let needed = networks_to_inspect(&shared);
    assert_eq!(needed.len(), 1);
    assert_eq!(needed[0].network, "flint-agentcore");
    let absent = vec![NetworkAnswer {
        network: "flint-agentcore".to_owned(),
        outcome: Err("no such network".to_owned()),
    }];
    assert!(matches!(
        preflight_catalog(&shared, &present, &absent, &own),
        Err(DockerBackendError::Preflight(_))
    ));
    let there = vec![NetworkAnswer {
        network: "flint-agentcore".to_owned(),
        outcome: Ok(NetworkInspection {
            driver: Some("bridge".to_owned()),
            scope: Some("local".to_owned()),
            ingress: Some(false),
            config_only: Some(false),
        }),
    }];
    let inside = OwnContainer {
        hostname: Some("gateway".to_owned()),
        networks: Ok(vec!["flint-agentcore".to_owned()]),
    };
    let checked = preflight_catalog(&shared, &present, &there, &inside);
    assert!(checked.is_ok(), "{checked:?}");
}

// Coming up and going away.

#[test]
fn containers_are_kept_removed_or_abandoned() {
    assert_eq!(readiness(SessionHealth::HealthyBusy), Readiness::Ready);
    assert_eq!(readiness(SessionHealth::Unhealthy), Readiness::CheckRunning);
    assert!(still_starting(Some(true)).is_ok());
    assert_eq!(
        still_starting(None).expect_err("gone"),
        "runtime container exited before becoming ready"
    );
    assert!(matches!(startup_step(StartupEnd::Started(container())), StartupStep::Keep(_)));
    assert!(matches!(
        startup_step(StartupEnd::TimedOut),
        StartupStep::Abandon(message) if message == "runtime container readiness timed out"
    ));
    assert!(matches!(
        startup_step(StartupEnd::Cancelled),
        StartupStep::Remove(message) if message == "runtime container startup was cancelled"
    ));
    assert_eq!(
        startup_error("a".to_owned(), &Err("b".to_owned())),
        "a; runtime container cleanup also failed: b"
    );
    assert_eq!(removal_step(1, RemovalAnswer::Failed), RemovalStep::TryAgain);
    assert_eq!(removal_step(3, RemovalAnswer::Failed), RemovalStep::GiveUp);
    assert_eq!(removal_step(1, RemovalAnswer::Missing), RemovalStep::Done);
}

#[test]
fn http_health_requires_a_successful_supported_status() {
    let reply = |status, health: Option<&str>| {
        http_health(&Some(PingReply { status, health: health.map(str::to_owned) }))
    };
    assert_eq!(reply(200, Some("Healthy")), SessionHealth::Healthy);
    assert_eq!(reply(200, Some("HealthyBusy")), SessionHealth::HealthyBusy);
    assert_eq!(reply(200, None), SessionHealth::Unhealthy);
    assert_eq!(reply(200, Some("Sleepy")), SessionHealth::Unhealthy);
    assert_eq!(reply(500, Some("Healthy")), SessionHealth::Unhealthy);
    assert_eq!(http_health(&None), SessionHealth::Unhealthy);
}

#[test]
fn mcp_health_is_a_connection_to_the_endpoint() {
    match ping_target("http://127.0.0.1:49152", Protocol::Mcp) {
        PingTarget::Tcp { host, port } => {
            assert_eq!(host, "127.0.0.1");
            assert_eq!(port, 49152);
        }
        other => panic!("{other:?}"),
    }
    assert!(matches!(ping_target("not a url", Protocol::Mcp), PingTarget::Unreachable));
    assert!(matches!(
        ping_target("http://127.0.0.1:8080", Protocol::Http),
        PingTarget::Http { url } if url == "http://127.0.0.1:8080/ping"
    ));
    assert_eq!(tcp_health(true), SessionHealth::Healthy);
    assert_eq!(tcp_health(false), SessionHealth::Unhealthy);
}

// Commands.

#[test]
fn commands_run_in_a_process_group_of_their_own() {
    let mut deployment = runtime();
    deployment.command.enabled = true;
    assert!(admit_command(Some(&deployment)).is_ok());
    deployment.command.enabled = false;
    assert_eq!(
        admit_command(Some(&deployment)).expect_err("disabled"),
        "commands are disabled for this runtime"
    );
    assert_eq!(
        admit_command(None).expect_err("unknown"),
        "runtime session container is not registered"
    );
    assert_eq!(
        command_pid_file("/workspace/", "id"),
        "/workspace/.agentcore-command-id.pid"
    );
    let first = new_command_pid_file("/workspace");
    assert_ne!(first, new_command_pid_file("/workspace"));
    assert_eq!(first.len(), "/workspace/.agentcore-command-.pid".len() + 36);
    let line = command_line(
        &vec!["/bin/sh".to_owned(), "-c".to_owned()],
        "pwd".to_owned(),
        "/p",
    );
    assert_eq!(line[4..], ["/p", "/bin/sh", "-c", "pwd"]);
    assert_eq!(pid_cleanup_command("/p"), ["rm", "-f", "/p"]);
    assert!(signal_command(TerminationStage::Asking, "/p")[2].contains("kill -TERM"));
    assert!(signal_command(TerminationStage::Forcing, "/p")[2].contains("kill -KILL"));
    assert_eq!(command_timeout(Some(10), 60), 10);
    assert_eq!(command_timeout(Some(100), 60), 60);
    assert_eq!(command_timeout(None, 60), 60);
    assert_eq!(command_exit(Some(7)), 7);
    assert_eq!(command_exit(None), -1);
}

#[test]
fn command_output_stops_at_its_limit() {
    let mut meter = CommandMeter::new(5);
    assert!(matches!(
        meter.frame(OutputStream::Stdout, b"abc".to_vec()),
        Ok(Some(CommandEvent::Stdout(bytes))) if bytes == b"abc"
    ));
    assert!(matches!(meter.frame(OutputStream::Stdin, b"ignored".to_vec()), Ok(None)));
    assert!(matches!(
        meter.frame(OutputStream::Stderr, b"de".to_vec()),
        Ok(Some(CommandEvent::Stderr(_)))
    ));
    assert_eq!(
        meter.frame(OutputStream::Console, b"f".to_vec()).expect_err("limit"),
        "runtime command output exceeded its configured limit"
    );
}

#[test]
fn commands_that_do_not_end_are_terminated_in_two_steps() {
    assert!(!needs_termination(&Completion::Finished(Ok(0))));
    assert!(needs_termination(&Completion::TimedOut));
    assert_eq!(
        termination_step(TerminationStage::Asking, Some(true)),
        TerminationStep::Signal(TerminationStage::Forcing)
    );
    assert_eq!(
        termination_step(TerminationStage::Forcing, Some(true)),
        TerminationStep::Signal(TerminationStage::Verifying)
    );
    assert_eq!(termination_step(TerminationStage::Verifying, Some(true)), TerminationStep::Stuck);
    assert_eq!(termination_step(TerminationStage::Asking, None), TerminationStep::Gone);
    assert_eq!(stuck_command(), "runtime command process group could not be terminated");
    assert!(matches!(
        complete_command(Completion::TimedOut, Ok(())),
        Ok(CommandEvent::TimedOut)
    ));
    assert_eq!(
        complete_command(Completion::Finished(Err("a".to_owned())), Err("b".to_owned()))
            .expect_err("failed"),
        "a; b"
    );
    assert!(matches!(
        complete_command(Completion::Finished(Ok(3)), Err("unused".to_owned())),
        Ok(CommandEvent::Exited(3))
    ));
}
