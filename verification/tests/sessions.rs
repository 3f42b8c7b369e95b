//! The life of sessions, their pins and their records.

use flint::catalog::{CatalogDocument, DiscoveryPolicy, RuntimeCatalog, RuntimeDocument};
use flint::container::AdoptedSession;
use flint::descriptor::LifecycleConfigurationDocument;
use flint::labels::Labels;
use flint::pins::{validate_record, SessionPins};
use flint::registry::RuntimeRegistry;
use flint::runtime::{
    Connectivity, ConnectivityMode, LifecyclePolicy, LocalIdentity, Protocol, ResolvedRuntime,
};
use flint::session::{
    AcquireStep, SessionContainer, SessionError, SessionHealth, SessionTable, StartFinish,
    StopPlan,
};
use flint::session_map::SessionKey;
use flint::session_store::{
    keep_or, mark_ready, mark_stopped, migrate, parse_record, raw_record, record_session, touch,
    update_state, upsert, SchemaStep, SessionRecord, SessionStoreError, StoredSessionState,
    SCHEMA_SQL, SCHEMA_VERSION,
};
use flint::startup::{
    health, ping_status, restore_error, restore_plan, runtime_health, RestoreStep, RestoreWork,
    StartupError,
};

const SECOND: u64 = 1_000_000_000;

const LIFECYCLE: LifecyclePolicy = LifecyclePolicy {
    startup_timeout_seconds: 60,
    idle_timeout_seconds: 900,
    maximum_lifetime_seconds: 28_800,
};

fn catalog(image: &str) -> RuntimeCatalog {
    let document = CatalogDocument {
        runtimes: vec![RuntimeDocument {
            name: Some("flint_local".to_owned()),
            image: image.to_owned(),
            protocol: Protocol::Http,
            environment_variables: Vec::new(),
            lifecycle_configuration: LifecycleConfigurationDocument {
                idle_runtime_session_timeout: None,
                max_lifetime: None,
            },
        }],
    };
    let policy = DiscoveryPolicy {
        connectivity: Connectivity {
            mode: ConnectivityMode::Native,
            docker_network: None,
            add_host_gateway: false,
        },
        environment_allowlist: Vec::new(),
        header_allowlist: Vec::new(),
    };
    match RuntimeCatalog::from_bytes_with_environment(
        "fixture.json",
        format!("{{\"image\":\"{image}\"}}").as_bytes(),
        &document,
        &policy,
        &Labels::new(),
    ) {
        Ok(catalog) => catalog,
        Err(error) => panic!("{}", error.message()),
    }
}

fn runtime() -> ResolvedRuntime {
    catalog("flint-runtime-fixture:local").default_snapshot()
}

fn key(session: &str) -> SessionKey {
    SessionKey::new(&runtime(), session.to_owned())
}

fn container(number: u64) -> SessionContainer {
    SessionContainer {
        id: format!("container-{number}"),
        endpoint: "http://127.0.0.1:8080".to_owned(),
        age_nanos: 0,
    }
}

/// A table with the starts that it asked for.
struct Sessions {
    table: SessionTable,
    starts: u64,
}

impl Sessions {
    fn new() -> Self {
        Sessions { table: SessionTable::new(), starts: 0 }
    }

    fn start(&mut self, key: &SessionKey, now: u64) -> u64 {
        match self.table.begin_acquire(key, now) {
            AcquireStep::Start { generation } => generation,
            other => panic!("{other:?}"),
        }
    }

    fn acquire(
        &mut self,
        key: &SessionKey,
        lifecycle: LifecyclePolicy,
        now: u64,
    ) -> Result<(u64, SessionContainer), SessionError> {
        match self.table.begin_acquire(key, now) {
            AcquireStep::Lease { generation, container } => Ok((generation, container)),
            AcquireStep::Refused(error) => Err(error),
            AcquireStep::Start { generation } => {
                self.starts += 1;
                let started = Ok(container(self.starts));
                match self.table.finish_start(key, generation, started, lifecycle, now) {
                    StartFinish::Leased { container } => Ok((generation, container)),
                    other => panic!("{other:?}"),
                }
            }
        }
    }

    fn stop(&mut self, key: &SessionKey, token: Option<&str>) -> (u64, SessionContainer) {
        match self.table.begin_stop(key, token.map(str::to_owned)) {
            StopPlan::Stop { generation, container } => (generation, container),
            other => panic!("{other:?}"),
        }
    }
}

#[test]
fn sequential_requests_reuse_one_container_and_other_sessions_do_not() {
    let mut sessions = Sessions::new();
    let (generation, first) = sessions.acquire(&key("session-a"), LIFECYCLE, 1).expect("lease");
    sessions.table.release(&key("session-a"), generation, 2);
    let (_, second) = sessions.acquire(&key("session-a"), LIFECYCLE, 3).expect("second lease");
    assert_eq!(second.id, first.id);
    let (_, other) = sessions.acquire(&key("session-b"), LIFECYCLE, 4).expect("other lease");
    assert_ne!(other.id, first.id);
    assert_eq!(sessions.starts, 2);
}

#[test]
fn leases_are_counted_and_given_back() {
    let mut sessions = Sessions::new();
    let session = key("command-session");
    assert_eq!(sessions.table.active_request_count(&session), None);
    let (generation, _) = sessions.acquire(&session, LIFECYCLE, 1).expect("lease");
    assert_eq!(sessions.table.active_request_count(&session), Some(1));
    sessions.table.release(&session, generation + 7, 2);
    assert_eq!(sessions.table.active_request_count(&session), Some(1));
    sessions.table.release(&session, generation, 3);
    assert_eq!(sessions.table.active_request_count(&session), Some(0));
}

#[test]
fn provisioning_is_atomic_and_a_second_request_conflicts() {
    let mut sessions = Sessions::new();
    let session = key("session-a");
    let generation = sessions.start(&session, 1);
    assert!(matches!(
        sessions.table.begin_acquire(&session, 2),
        AcquireStep::Refused(SessionError::RetryableConflict(_))
    ));
    assert!(matches!(
        sessions.table.finish_start(&session, generation, Ok(container(1)), LIFECYCLE, 3),
        StartFinish::Leased { .. }
    ));
}

#[test]
fn aborted_acquire_and_stop_tasks_do_not_strand_transitional_states() {
    let mut sessions = Sessions::new();
    let session = key("session-a");
    let generation = sessions.start(&session, 1);
    assert_eq!(sessions.table.state(&session), Some("starting"));
    sessions.table.interrupt_start(&session, generation);
    assert_eq!(sessions.table.state(&session), None);

    let (lease, _) = sessions.acquire(&session, LIFECYCLE, 2).expect("ready session");
    sessions.table.release(&session, lease, 3);
    let (generation, container) = sessions.stop(&session, None);
    assert_eq!(sessions.table.state(&session), Some("stopping"));
    sessions.table.finish_stop(&session, generation, container, &Ok(()));
    assert_eq!(sessions.table.state(&session), None);
}

#[test]
fn a_failed_start_is_remembered_until_the_session_is_stopped() {
    let mut sessions = Sessions::new();
    let session = key("session-a");
    let generation = sessions.start(&session, 1);
    match sessions.table.finish_start(
        &session,
        generation,
        Err("no image".to_owned()),
        LIFECYCLE,
        2,
    ) {
        StartFinish::Failed { error: SessionError::Provisioning(message) } => {
            assert_eq!(message, "no image");
        }
        other => panic!("{other:?}"),
    }
    assert!(matches!(
        sessions.acquire(&session, LIFECYCLE, 3),
        Err(SessionError::Provisioning(message)) if message == "no image"
    ));
    assert!(matches!(sessions.table.begin_stop(&session, None), StopPlan::Complete));
    assert!(sessions.acquire(&session, LIFECYCLE, 4).is_ok());
}

#[test]
fn stop_then_invoke_provisions_a_fresh_container() {
    let mut sessions = Sessions::new();
    let session = key("session-a");
    let (generation, first) = sessions.acquire(&session, LIFECYCLE, 1).expect("first lease");
    sessions.table.release(&session, generation, 2);
    let (generation, stopped) = sessions.stop(&session, Some("stop-token"));
    assert_eq!(stopped.id, first.id);
    sessions.table.finish_stop(&session, generation, stopped, &Ok(()));
    let (_, second) = sessions.acquire(&session, LIFECYCLE, 3).expect("reprovision lease");
    assert_ne!(second.id, first.id);
}

#[test]
fn stopping_what_does_not_run_is_done_at_once() {
    let mut sessions = Sessions::new();
    assert!(matches!(
        sessions.table.begin_stop(&key("session-a"), None),
        StopPlan::Complete
    ));
}

#[test]
fn a_stop_during_a_start_wins() {
    let mut sessions = Sessions::new();
    let session = key("session-a");
    let generation = sessions.start(&session, 1);
    match sessions.table.begin_stop(&session, Some("token".to_owned())) {
        StopPlan::Wait { generation: waiting } => assert_eq!(waiting, generation),
        other => panic!("{other:?}"),
    }
    match sessions.table.finish_start(&session, generation, Ok(container(1)), LIFECYCLE, 2) {
        StartFinish::Interrupted { cleanup: Some(left), .. } => {
            sessions.table.finish_stop(&session, generation, left, &Ok(()));
        }
        other => panic!("{other:?}"),
    }
    assert_eq!(sessions.table.state(&session), None);
}

#[test]
fn failed_stop_blocks_reuse_until_cleanup_is_retried() {
    let mut sessions = Sessions::new();
    let session = key("session-a");
    let (lease, _) = sessions.acquire(&session, LIFECYCLE, 1).expect("lease");
    sessions.table.release(&session, lease, 2);
    let (generation, left) = sessions.stop(&session, Some("cleanup"));
    sessions.table.finish_stop(
        &session,
        generation,
        left,
        &Err("fixture cleanup failure".to_owned()),
    );
    match sessions.acquire(&session, LIFECYCLE, 3) {
        Err(SessionError::Provisioning(message)) => {
            assert_eq!(message, "session cleanup must be retried: fixture cleanup failure");
        }
        other => panic!("{other:?}"),
    }
    let (generation, left) = sessions.stop(&session, Some("cleanup"));
    sessions.table.finish_stop(&session, generation, left, &Ok(()));
    let (_, replacement) = sessions.acquire(&session, LIFECYCLE, 4).expect("fresh session");
    assert_eq!(replacement.id, "container-2");
}

#[test]
fn concurrent_stop_is_idempotent_only_for_the_same_client_token() {
    let mut sessions = Sessions::new();
    let session = key("session-a");
    let (lease, _) = sessions.acquire(&session, LIFECYCLE, 1).expect("lease");
    sessions.table.release(&session, lease, 2);
    let (generation, left) = sessions.stop(&session, Some("same-token"));
    assert_eq!(sessions.table.state(&session), Some("stopping"));
    assert!(matches!(
        sessions.table.begin_stop(&session, Some("other-token".to_owned())),
        StopPlan::Refused(SessionError::RetryableConflict(_))
    ));
    assert!(matches!(
        sessions.table.begin_stop(&session, Some("same-token".to_owned())),
        StopPlan::Wait { .. }
    ));
    sessions.table.finish_stop(&session, generation, left, &Ok(()));
    assert_eq!(sessions.table.state(&session), None);
}

#[test]
fn a_session_outlives_its_container() {
    let mut sessions = Sessions::new();
    let session = key("session-a");
    let (generation, first) = sessions.acquire(&session, LIFECYCLE, SECOND).expect("lease");
    sessions.table.release(&session, generation, SECOND);
    let running = sessions.table.running();
    assert_eq!(running.len(), 1);
    assert_eq!(running[0].generation, generation);
    assert_eq!(running[0].container.id, first.id);

    let (stopped, left) = sessions.stop(&session, None);
    assert!(sessions.table.running().is_empty());
    sessions.table.finish_stop(&session, stopped, left, &Ok(()));
    let (_, second) = sessions.acquire(&session, LIFECYCLE, 2 * SECOND).expect("lease");
    assert_ne!(first.id, second.id);
    assert_eq!(sessions.table.running().len(), 1);
}

#[test]
fn active_request_blocks_idle_reaping_but_not_maximum_lifetime() {
    let mut sessions = Sessions::new();
    let session = key("session-a");
    let brief = LifecyclePolicy {
        startup_timeout_seconds: 60,
        idle_timeout_seconds: 0,
        maximum_lifetime_seconds: 60,
    };
    sessions.acquire(&session, brief, SECOND).expect("lease");
    assert!(sessions.table.reap_candidates(2 * SECOND).is_empty());
    assert_eq!(sessions.table.state(&session), Some("ready"));

    let late = 62 * SECOND;
    let candidates = sessions.table.reap_candidates(late);
    assert_eq!(candidates.len(), 1);
    assert!(candidates[0].expired);
    assert!(sessions.table.decide_reap(&candidates[0], SessionHealth::Healthy, late));
}

#[test]
fn lifecycle_reaper_retries_transient_cleanup_failure() {
    let mut sessions = Sessions::new();
    let session = key("session-a");
    let brief = LifecyclePolicy { idle_timeout_seconds: 0, ..LIFECYCLE };
    let (lease, _) = sessions.acquire(&session, brief, SECOND).expect("lease");
    sessions.table.release(&session, lease, SECOND);
    let candidates = sessions.table.reap_candidates(2 * SECOND);
    assert!(sessions.table.decide_reap(&candidates[0], SessionHealth::Healthy, 2 * SECOND));
    let left = sessions
        .table
        .stop_by_key(&session, candidates[0].generation)
        .expect("container to stop");
    sessions.table.finish_stop(
        &session,
        candidates[0].generation,
        left,
        &Err("fixture cleanup failure".to_owned()),
    );
    assert_eq!(sessions.table.state(&session), Some("failed"));
    let failed = sessions.table.failed_cleanups();
    assert_eq!(failed.len(), 1);
    let left = sessions.table.stop_by_key(&failed[0].0, failed[0].1).expect("retry");
    sessions.table.finish_stop(&failed[0].0, failed[0].1, left, &Ok(()));
    assert_eq!(sessions.table.state(&session), None);
}

#[test]
fn idle_busy_session_is_retained_then_removed_when_idle() {
    let mut sessions = Sessions::new();
    let session = key("session-a");
    let brief = LifecyclePolicy { idle_timeout_seconds: 0, ..LIFECYCLE };
    let (lease, _) = sessions.acquire(&session, brief, SECOND).expect("lease");
    sessions.table.release(&session, lease, SECOND);
    let candidates = sessions.table.reap_candidates(2 * SECOND);
    assert!(!sessions.table.decide_reap(&candidates[0], SessionHealth::HealthyBusy, 2 * SECOND));
    assert_eq!(sessions.table.state(&session), Some("ready"));
    let candidates = sessions.table.reap_candidates(3 * SECOND);
    assert_eq!(candidates.len(), 1);
    assert!(sessions.table.decide_reap(&candidates[0], SessionHealth::Healthy, 3 * SECOND));
}

#[test]
fn use_between_the_look_and_the_decision_saves_an_idle_session() {
    let mut sessions = Sessions::new();
    let session = key("session-a");
    let brief = LifecyclePolicy { idle_timeout_seconds: 0, ..LIFECYCLE };
    let (lease, _) = sessions.acquire(&session, brief, SECOND).expect("lease");
    sessions.table.release(&session, lease, SECOND);
    let candidates = sessions.table.reap_candidates(2 * SECOND);
    sessions.acquire(&session, brief, 2 * SECOND).expect("used meanwhile");
    assert!(!sessions.table.decide_reap(&candidates[0], SessionHealth::Healthy, 3 * SECOND));
}

#[test]
fn the_third_failed_health_check_in_a_row_ends_a_container() {
    let mut sessions = Sessions::new();
    let session = key("session-a");
    let (generation, _) = sessions.acquire(&session, LIFECYCLE, 1).expect("lease");
    let check = |sessions: &mut Sessions, health| {
        sessions.table.record_health(&session, generation, health, 2)
    };
    assert!(!check(&mut sessions, SessionHealth::Unhealthy));
    assert!(!check(&mut sessions, SessionHealth::Unhealthy));
    assert!(!check(&mut sessions, SessionHealth::Healthy));
    assert!(!check(&mut sessions, SessionHealth::Unhealthy));
    assert!(!check(&mut sessions, SessionHealth::Unhealthy));
    assert!(check(&mut sessions, SessionHealth::Unhealthy));
}

#[test]
fn found_containers_keep_their_age_and_drifted_sessions_are_blocked() {
    let mut table = SessionTable::new();
    let brief = LifecyclePolicy { maximum_lifetime_seconds: 60, ..LIFECYCLE };
    let aged = SessionContainer { age_nanos: 61 * SECOND, ..container(1) };
    assert!(table.adopt(key("old"), aged, brief, 100 * SECOND).is_ok());
    assert!(table.adopt(key("old"), container(2), brief, 100 * SECOND).is_err());
    assert_eq!(table.reap_candidates(100 * SECOND).len(), 1);

    assert!(table.restore_drifted(key("drifted"), "changed".to_owned()).is_ok());
    match table.begin_acquire(&key("drifted"), 1) {
        AcquireStep::Refused(SessionError::DeploymentDrift(message)) => {
            assert_eq!(message, "changed");
        }
        other => panic!("{other:?}"),
    }
    assert_eq!(table.state(&key("drifted")), Some("drifted"));
}

#[test]
fn session_errors_have_their_texts() {
    assert_eq!(
        SessionError::RetryableConflict("x".to_owned()).message(),
        "retryable session conflict: x"
    );
    assert_eq!(SessionError::Stopping("x".to_owned()).message(), "session stop failed: x");
    assert_eq!(
        SessionError::StoppedDuringProvisioning.message(),
        "session was stopped during provisioning"
    );
    assert_eq!(SessionError::Command("x".to_owned()).message(), "session command failed: x");
}

// Pins.

#[test]
fn a_session_keeps_the_deployment_it_started_with() {
    let mut pins = SessionPins::new();
    let first = runtime();
    let second = catalog("flint-runtime-fixture:next").default_snapshot();
    let session = key("session-a");
    pins.pin(&session, &first);
    pins.pin(&session, &second);
    assert_eq!(pins.get(&session).expect("pin").image, "flint-runtime-fixture:local");
    let identity = LocalIdentity {
        region: "us-east-1".to_owned(),
        account_id: "000000000000".to_owned(),
    };
    let found = pins
        .pinned_runtime("flint_local", Some("000000000000"), None, "session-a", &identity)
        .expect("pinned session");
    assert_eq!(found.image, "flint-runtime-fixture:local");
    assert!(pins
        .pinned_runtime("flint_local", Some("000000000000"), None, "session-b", &identity)
        .is_none());
    assert!(pins.restore_stopped(&session, &second).is_err());
}

#[test]
fn a_changed_deployment_is_noticed() {
    let record = record();
    assert!(validate_record(&runtime(), &record).is_ok());
    let changed = catalog("flint-runtime-fixture:next").default_snapshot();
    assert!(matches!(
        validate_record(&changed, &record),
        Err(SessionError::DeploymentDrift(_))
    ));
}

// Records.

fn record() -> SessionRecord {
    let runtime = runtime();
    SessionRecord {
        key: SessionKey {
            runtime_arn: runtime.runtime_arn.clone(),
            qualifier: runtime.qualifier.clone(),
            runtime_session_id: "20000000-0000-0000-0000-000000000001".to_owned(),
        },
        catalog_generation: runtime.catalog_generation.clone(),
        image: runtime.image.clone(),
        image_id: runtime.image_id.clone(),
        volume_name: "flint-session-volume".to_owned(),
        created_at_unix_millis: 1_000,
        last_activity_at_unix_millis: 1_000,
        compute_started_at_unix_millis: None,
        state: StoredSessionState::Stopped,
        last_error: None,
        last_stop_token: None,
    }
}

fn reopened(record: &SessionRecord) -> SessionRecord {
    match parse_record(raw_record(record)) {
        Ok(record) => record,
        Err(error) => panic!("{}", error.message()),
    }
}

#[test]
fn schema_contains_metadata_but_no_runtime_secrets() {
    let connection = rusqlite::Connection::open_in_memory().expect("database");
    connection.execute_batch(SCHEMA_SQL).expect("create schema");
    let mut statement = connection
        .prepare("PRAGMA table_info(sessions)")
        .expect("inspect schema");
    let columns = statement
        .query_map([], |row| row.get::<_, String>(1))
        .expect("query schema")
        .collect::<Result<Vec<_>, _>>()
        .expect("schema columns");

    assert!(columns.contains(&"runtime_session_id".to_owned()));
    assert!(columns.contains(&"image_id".to_owned()));
    assert!(columns.contains(&"volume_name".to_owned()));
    assert!(!columns.iter().any(|column| {
        column.contains("environment")
            || column.contains("credential")
            || column.contains("secret")
            || column.contains("payload")
    }));
}

#[test]
fn newer_schema_versions_are_rejected() {
    let connection = rusqlite::Connection::open_in_memory().expect("database");
    connection
        .pragma_update(None, "user_version", 99)
        .expect("set future schema version");
    let version: i64 = connection
        .pragma_query_value(None, "user_version", |row| row.get(0))
        .expect("read schema version");
    assert!(matches!(
        migrate(version),
        Err(SessionStoreError::UnsupportedSchema(99))
    ));
}

#[test]
fn an_empty_database_gets_the_schema_and_a_present_one_keeps_it() {
    assert!(matches!(migrate(0), Ok(SchemaStep::Create)));
    assert!(matches!(migrate(SCHEMA_VERSION), Ok(SchemaStep::Keep)));
}

#[test]
fn session_records_survive_reopen_and_state_transitions() {
    let expected = record();
    let stored = upsert(None, &expected);
    let ready = mark_ready(Some(stored), &expected.key, 2_000, 2_100).expect("mark ready");
    let touched = touch(Some(ready), &expected.key, 2_200).expect("touch session");
    let ready = reopened(&touched);
    assert_eq!(ready.state, StoredSessionState::Ready);
    assert_eq!(ready.compute_started_at_unix_millis, Some(2_000));
    assert_eq!(ready.last_activity_at_unix_millis, 2_200);
    let stopped = mark_stopped(
        Some(ready),
        &expected.key,
        2_300,
        Some("unhealthy".to_owned()),
        Some("stop-token".to_owned()),
    )
    .expect("mark stopped");
    let stopped = reopened(&stopped);
    assert_eq!(stopped.state, StoredSessionState::Stopped);
    assert_eq!(stopped.last_error.as_deref(), Some("unhealthy"));
    assert_eq!(stopped.last_stop_token.as_deref(), Some("stop-token"));
    assert_eq!(stopped.image, expected.image);
    assert_eq!(stopped.volume_name, expected.volume_name);
}

#[test]
fn records_that_are_missing_or_broken_are_errors() {
    let session = key("session-a");
    assert!(matches!(
        touch(None, &session, 1),
        Err(SessionStoreError::MissingSession(id)) if id == "session-a"
    ));
    assert!(update_state(None, &session, StoredSessionState::Ready, None, 1, None, None).is_err());
    let mut raw = raw_record(&record());
    raw.state = "asleep".to_owned();
    assert!(matches!(
        parse_record(raw),
        Err(SessionStoreError::InvalidState(state)) if state == "asleep"
    ));
    assert_eq!(StoredSessionState::Ready.as_str(), "ready");
    assert_eq!(StoredSessionState::Stopped.as_str(), "stopped");
}

#[test]
fn a_new_session_is_recorded_with_its_pin() {
    let runtime = runtime();
    let record = record_session(&runtime, "session-a".to_owned(), "volume".to_owned(), 5);
    assert_eq!(record.key, key("session-a"));
    assert_eq!(record.catalog_generation, runtime.catalog_generation);
    assert_eq!(record.created_at_unix_millis, 5);
    assert_eq!(record.state, StoredSessionState::Stopped);
}

#[test]
fn a_recorded_session_is_not_recorded_again() {
    let first = record();
    let mut second = record();
    second.image_id = "sha256:other".to_owned();
    assert_eq!(keep_or(None, &second).image_id, "sha256:other");
    assert_eq!(keep_or(Some(record()), &second).image_id, first.image_id);
}

#[test]
fn store_errors_have_their_texts() {
    assert_eq!(
        SessionStoreError::UnsupportedSchema(-3).message(),
        "session state schema version -3 is newer than this Flint build supports"
    );
    assert!(SessionStoreError::MissingSession("s".to_owned()).message().contains('s'));
    assert!(SessionStoreError::LockPoisoned.message().len() > 0);
}

// Restarts.

fn adopted(session: &str, number: u64) -> AdoptedSession {
    AdoptedSession { key: key(session), deployment: runtime(), container: container(number) }
}

fn stored(session: &str) -> SessionRecord {
    record_session(&runtime(), session.to_owned(), "volume".to_owned(), 5)
}

#[test]
fn a_restart_adopts_restores_and_blocks_each_session_by_itself() {
    let registry = RuntimeRegistry::new(catalog("flint-runtime-fixture:local"), 1);
    let mut drifted = stored("drifted");
    drifted.image_id = "sha256:gone".to_owned();
    let mut unknown = stored("unknown");
    unknown.key.runtime_arn =
        "arn:aws:bedrock-agentcore:us-east-1:000000000000:runtime/missing".to_owned();
    let plan = restore_plan(
        &registry,
        &vec![stored("running"), drifted, stored("stopped"), unknown],
        vec![
            adopted("legacy", 1),
            adopted("drifted", 2),
            adopted("running", 3),
            adopted("running", 4),
        ],
    );
    assert_eq!(plan.len(), 5);
    match &plan[0] {
        RestoreStep::Adopt(session) => assert_eq!(session.container.id, "container-4"),
        _ => panic!("the running session is adopted"),
    }
    match &plan[1] {
        RestoreStep::Quarantine { key: blocked, compute: Some(compute), .. } => {
            assert_eq!(*blocked, key("drifted"));
            assert_eq!(compute.id, "container-2");
        }
        _ => panic!("the drifted session is blocked"),
    }
    match &plan[2] {
        RestoreStep::RestoreStopped { key: restored, runtime } => {
            assert_eq!(*restored, key("stopped"));
            assert_eq!(runtime.runtime_id, "flint_local");
        }
        _ => panic!("the stopped session is restored"),
    }
    match &plan[3] {
        RestoreStep::Quarantine { message, compute: None, .. } => {
            assert!(message.starts_with(
                "stored runtime session unknown cannot resolve its deployment pin: "
            ));
        }
        _ => panic!("the unknown runtime blocks its session"),
    }
    match &plan[4] {
        RestoreStep::AdoptLegacy(session) => assert_eq!(session.container.id, "container-1"),
        _ => panic!("the legacy container is adopted"),
    }
}

#[test]
fn startup_errors_say_what_failed() {
    assert_eq!(
        restore_error(RestoreWork::Adopt, "x").message(),
        "failed to adopt stored runtime session: x"
    );
    assert_eq!(
        restore_error(RestoreWork::AdoptLegacy, "x").message(),
        "failed to adopt legacy runtime session: x"
    );
    assert_eq!(
        restore_error(RestoreWork::Quarantine, "x").message(),
        "failed to quarantine drifted runtime session: x"
    );
    assert_eq!(
        restore_error(RestoreWork::RemoveCompute, "x").message(),
        "failed to remove drifted runtime session compute: x"
    );
    assert_eq!(
        restore_error(RestoreWork::RestoreStopped, "x").message(),
        "failed to restore stopped runtime session: x"
    );
    let error = StartupError::from(SessionStoreError::UnsupportedSchema(9));
    assert_eq!(
        error.message(),
        "session state schema version 9 is newer than this Flint build supports"
    );
    let error = StartupError::from(flint::config::ConfigError::Missing("HOME"));
    assert_eq!(error.message(), "HOME is required");
    let error = StartupError::from(flint::images::DockerBackendError::Docker("down".to_owned()));
    assert!(error.message().contains("down"));
}

#[test]
fn health_reports_flint_ready() {
    let health = health();
    assert_eq!(health.service, "flint");
    assert_eq!(health.status, "ready");
    let mut registry = RuntimeRegistry::new(RuntimeCatalog::empty_discovery(), 1);
    registry.mark_refresh_failure("x".to_owned());
    let shown = runtime_health(registry.health());
    assert_eq!(shown.status, "degraded");
    assert_eq!(shown.service, "flint");
    assert_eq!(ping_status(false), "Healthy");
    assert_eq!(ping_status(true), "HealthyBusy");
}
