//! Invocations in containers of their own.

use flint::attempt::{
    attempt_plan, conclude_attempt, container_name, deterministic_agent_failure, failed_exit,
    input_line, report_candidates, steer_line, AgentFailure, AgentOutput, AgentStream, AttemptEnd,
    AttemptError, ContainerInvocation, ATTEMPT_LABEL,
};
use flint::catalog::{CatalogDocument, DiscoveryPolicy, RuntimeCatalog, RuntimeDocument};
use flint::descriptor::LifecycleConfigurationDocument;
use flint::invocation::{
    attempt_step, container_failure, infrastructure_health, judge_fields, judge_output,
    late_attempt, map_invocation_error, AttemptReport, AttemptStep, ContainerFailure,
    InvocationDiagnostic, InvocationError, InvocationRequest, InvocationTable, JsonFields,
    OutputVerdict, RuntimeInfrastructureHealth, RuntimeLimits,
};
use flint::labels::Labels;
use flint::runtime::{Connectivity, ConnectivityMode, Protocol, ResolvedRuntime};
use flint::startup::ping_status;

const IDENTITY: &str = "30000000-0000-0000-0000-000000000001";

fn runtime() -> ResolvedRuntime {
    let document = CatalogDocument {
        runtimes: vec![RuntimeDocument {
            name: Some("flint_local".to_owned()),
            image: "flint-runtime-fixture:local".to_owned(),
            protocol: Protocol::Http,
            environment_variables: vec!["OPENAI_API_KEY".to_owned()],
            lifecycle_configuration: LifecycleConfigurationDocument {
                idle_runtime_session_timeout: None,
                max_lifetime: None,
            },
        }],
    };
    let policy = DiscoveryPolicy {
        connectivity: Connectivity {
            mode: ConnectivityMode::Native,
            docker_network: None,
            add_host_gateway: false,
        },
        environment_allowlist: vec!["OPENAI_API_KEY".to_owned()],
        header_allowlist: Vec::new(),
    };
    match RuntimeCatalog::from_bytes_with_environment(
        "fixture.json",
        b"{}",
        &document,
        &policy,
        &Labels::from_pairs(vec![("OPENAI_API_KEY".to_owned(), "key".to_owned())]),
    ) {
        Ok(catalog) => catalog.default_snapshot(),
        Err(error) => panic!("{}", error.message()),
    }
}

fn container_invocation() -> ContainerInvocation {
    ContainerInvocation {
        invocation_id: "invocation-1".to_owned(),
        attempt_id: "attempt-1".to_owned(),
        agent_identity_id: IDENTITY.to_owned(),
        fencing_token: 1,
        backend_credential: "edge-\"opaque\"".to_owned(),
        input: "{\"contentType\":\"text/plain\"}".to_owned(),
        max_cost_usd_micros: Some(500),
    }
}

fn request(id: &str) -> InvocationRequest {
    InvocationRequest {
        invocation_id: id.to_owned(),
        workspace_id: "00000000-0000-0000-0000-000000000000".to_owned(),
        fencing_token: 1,
        backend_credential: "edge-opaque-payload".to_owned(),
        input_is_object: true,
    }
}

fn limits() -> RuntimeLimits {
    RuntimeLimits::default()
}

fn output(text: &str) -> AttemptReport {
    AttemptReport::Output(judge_output(&text.as_bytes().to_vec(), 2_097_152, None))
}

fn history(table: &InvocationTable) -> Vec<InvocationDiagnostic> {
    table.diagnostics(RuntimeInfrastructureHealth::default()).invocations
}

const COMPLETED: &str = r#"{"status":"completed","result":{"kind":"fixture"}}"#;

#[test]
fn a_container_is_made_and_told_for_one_attempt() {
    let invocation = container_invocation();
    assert_eq!(container_name(&invocation), "flint-runtime-fixture-attempt-1");
    let plan = attempt_plan("owner-a", &runtime(), &invocation);
    assert_eq!(plan.image, "flint-runtime-fixture:local");
    assert!(plan.labels.holds(ATTEMPT_LABEL, "attempt-1"));
    assert_eq!(
        plan.environment[plan.environment.len() - 4..],
        [
            "FLINT_INVOCATION_ID=invocation-1".to_owned(),
            format!("FLINT_AGENT_IDENTITY_ID={IDENTITY}"),
            "FLINT_FENCING_TOKEN=1".to_owned(),
            "FLINT_MAX_COST_USD_MICROS=500".to_owned(),
        ]
    );
    let line = input_line(&runtime(), &invocation);
    assert!(line.ends_with('\n'));
    let value: serde_json::Value = serde_json::from_str(&line).expect("JSON");
    assert_eq!(value["schemaVersion"], 1);
    assert_eq!(value["attemptId"], "attempt-1");
    assert_eq!(value["credentials"]["backendAccessToken"], "edge-\"opaque\"");
    assert_eq!(value["credentials"]["openaiApiKey"], "key");
    assert_eq!(value["input"]["contentType"], "text/plain");
    let steer: serde_json::Value =
        serde_json::from_str(&steer_line("invocation-1", Some("go"), 5)).expect("JSON");
    assert_eq!(steer["type"], "steer");
    assert_eq!(steer["text"], "go");
    assert_eq!(steer["timestamp"], 5);
    assert!(steer_line("invocation-1", None, 5).contains("\"text\":\"\""));
}

#[test]
fn output_is_kept_by_stream_up_to_its_limit() {
    let mut kept = AgentOutput::new(4);
    assert!(kept.take_live(AgentStream::Output, b"abcd").is_ok());
    assert!(kept.take_live(AgentStream::Input, b"ignored").is_ok());
    assert!(kept.take_live(AgentStream::Error, b"xy").is_ok());
    assert_eq!(kept.stdout, b"abcd");
    assert_eq!(kept.stderr, b"xy");
    assert_eq!(
        kept.take_live(AgentStream::Error, b"zzz").expect_err("limit"),
        "agent error output exceeded configured limit"
    );
    assert_eq!(
        kept.take_live(AgentStream::Output, b"e").expect_err("limit"),
        "agent output exceeded configured limit"
    );
    assert_eq!(
        kept.take_log(AgentStream::Input, b"").expect_err("limit"),
        "agent failure output exceeded configured limit"
    );
}

#[test]
fn reports_are_looked_for_from_the_last_line() {
    assert_eq!(
        report_candidates(b"first {\"a\":1}\r\nsecond\nx {y {z\r"),
        ["{y {z\r", "{z\r", "{\"a\":1}"]
    );
    assert!(report_candidates(b"\xff{}").is_empty());
    assert_eq!(report_candidates(b"{}\n"), ["{}"]);
}

fn failure(code: &str) -> Option<AgentFailure> {
    Some(AgentFailure { code: code.to_owned(), message: "details".to_owned() })
}

#[test]
fn only_failures_that_would_repeat_are_rejections() {
    for code in [
        "invalid_invocation",
        "invalid_model_policy",
        "model_not_found",
        "effort_not_supported",
        "python_limit_exceeded",
    ] {
        assert!(deterministic_agent_failure(failure(code)).is_some(), "{code}");
    }
    assert!(deterministic_agent_failure(failure("network_error")).is_none());
    assert!(deterministic_agent_failure(None).is_none());
    assert!(matches!(
        failed_exit(1, failure("network_error"), failure("model_not_found")),
        AttemptError::Rejected(found) if found.code == "model_not_found"
    ));
    assert_eq!(
        failed_exit(-9, None, None),
        AttemptError::Execution("agent container exited with status -9".to_owned())
    );
}

#[test]
fn a_container_that_may_be_left_matters_most() {
    let exited = || AttemptEnd::Exited { status: 0, stdout: b"out".to_vec() };
    assert_eq!(conclude_attempt(exited(), Ok(())), Ok(b"out".to_vec()));
    assert_eq!(
        conclude_attempt(exited(), Err("stuck".to_owned())),
        Err(AttemptError::Cleanup("stuck".to_owned()))
    );
    assert_eq!(
        conclude_attempt(AttemptEnd::Cancelled, Ok(())),
        Err(AttemptError::Execution("agent invocation cancelled".to_owned()))
    );
    assert!(matches!(
        container_failure(AttemptError::Cleanup("stuck".to_owned())),
        ContainerFailure::CleanupFailed
    ));
    assert!(matches!(
        container_failure(AttemptError::Execution("x".to_owned())),
        ContainerFailure::Retryable
    ));
}

#[test]
fn outcomes_are_objects_that_say_they_completed() {
    let judge = |text: &str, cost| judge_output(&text.as_bytes().to_vec(), 1024, cost);
    assert_eq!(judge(COMPLETED, None), OutputVerdict::Completed);
    assert_eq!(judge("[]", None), OutputVerdict::Invalid);
    assert_eq!(judge("not json", None), OutputVerdict::Invalid);
    assert_eq!(judge(r#"{"status":"unknown"}"#, None), OutputVerdict::Invalid);
    let costly = r#"{"status":"completed","usage":{"costUsdMicros":501}}"#;
    assert_eq!(judge(costly, Some(500)), OutputVerdict::OverCost);
    assert_eq!(judge(costly, Some(501)), OutputVerdict::Completed);
    assert_eq!(judge(costly, None), OutputVerdict::Completed);
    assert_eq!(
        judge_output(&COMPLETED.as_bytes().to_vec(), 3, None),
        OutputVerdict::Invalid
    );
    assert_eq!(
        judge_fields(
            Some(JsonFields {
                is_object: true,
                text: Some("completed".to_owned()),
                number: Some(9),
            }),
            Some(8),
        ),
        OutputVerdict::OverCost
    );
}

#[test]
fn completed_invocation_is_visible_in_private_diagnostics() {
    let mut table = InvocationTable::new(&limits());
    table.begin(IDENTITY, &request("a")).expect("begin");
    assert!(matches!(
        attempt_step(output(COMPLETED), 1, &limits(), false),
        AttemptStep::Complete
    ));
    table.end(IDENTITY, &request("a"), vec!["1".to_owned()], &Ok(()));
    let diagnostics = table.diagnostics(infrastructure_health(&runtime(), true, false));
    assert_eq!(diagnostics.active_count, 0);
    assert_eq!(diagnostics.invocations[0].status, "completed");
    assert_eq!(diagnostics.invocations[0].attempts, 1);
    assert_eq!(diagnostics.invocations[0].containers_removed, 1);
    assert_eq!(diagnostics.invocations[0].attempt_ids.len(), 1);
    assert!(!format!("{diagnostics:?}").contains(&request("a").backend_credential));
    assert_eq!(
        diagnostics.infrastructure,
        RuntimeInfrastructureHealth {
            docker_available: true,
            open_ai_configured: true,
            agent_image_available: false,
        }
    );
    let mut keyless = runtime();
    keyless.environment.clear();
    assert!(!infrastructure_health(&keyless, true, true).open_ai_configured);
}

#[test]
fn agentcore_ping_reports_busy_while_an_invocation_is_active() {
    let mut table = InvocationTable::new(&limits());
    table.begin(IDENTITY, &request("a")).expect("begin");
    assert_eq!(ping_status(table.is_busy()), "HealthyBusy");
    table.end(IDENTITY, &request("a"), vec!["1".to_owned()], &Ok(()));
    assert_eq!(ping_status(table.is_busy()), "Healthy");
}

#[test]
fn active_identities_are_counted_once_each() {
    let mut table = InvocationTable::new(&limits());
    assert_eq!(table.active_count(), 0);
    for (identity, id, count) in [("a", "1", 1), ("b", "2", 2), ("c", "3", 3)] {
        table.begin(identity, &request(id)).expect("begin");
        assert!(table.begin(identity, &request("other")).is_err());
        assert_eq!(table.active_count(), count);
    }
    table.end("b", &request("2"), vec!["x".to_owned()], &Ok(()));
    assert_eq!(table.active_count(), 2);
}

#[test]
fn oversized_outcome_retries_then_fails_clearly() {
    let oversized = vec![b'x'; limits().max_output_bytes + 1];
    let report =
        || AttemptReport::Output(judge_output(&oversized, limits().max_output_bytes, None));
    for attempt in [1, 2] {
        assert!(matches!(attempt_step(report(), attempt, &limits(), false), AttemptStep::Retry));
    }
    match attempt_step(report(), 3, &limits(), false) {
        AttemptStep::Fail(error) => {
            let mapped = map_invocation_error(&error, "r");
            assert_eq!((mapped.status, mapped.code.as_str()), (424, "invalid_outcome"));
        }
        other => panic!("{other:?}"),
    }
}

#[test]
fn crashed_attempt_retries_in_a_fresh_container() {
    let crash = || AttemptReport::Failed(ContainerFailure::Retryable);
    assert!(matches!(attempt_step(crash(), 1, &limits(), false), AttemptStep::Retry));
    assert!(matches!(
        attempt_step(output(COMPLETED), 2, &limits(), false),
        AttemptStep::Complete
    ));
}

#[test]
fn exhausted_crash_retries_fail_clearly_and_release_the_identity() {
    let mut table = InvocationTable::new(&limits());
    table.begin(IDENTITY, &request("a")).expect("begin");
    let crash = || AttemptReport::Failed(ContainerFailure::Retryable);
    assert!(matches!(attempt_step(crash(), 2, &limits(), false), AttemptStep::Retry));
    let error = match attempt_step(crash(), 3, &limits(), false) {
        AttemptStep::Fail(error) => error,
        other => panic!("{other:?}"),
    };
    let mapped = map_invocation_error(&error, "r");
    assert_eq!(mapped.code, "attempts_exhausted");
    assert_eq!(mapped.status, 424);
    let ids = vec!["1".to_owned(), "2".to_owned(), "3".to_owned()];
    table.end(IDENTITY, &request("a"), ids, &Err(error));
    assert!(!table.is_busy());
    assert_eq!(table.active_count(), 0);
    assert!(table.begin(IDENTITY, &request("b")).is_ok());
    let history = history(&table);
    assert_eq!(history[0].status, "failed");
    assert_eq!(history[0].last_failure, Some("container_crash"));
    assert_eq!(history[0].attempts, 3);
    assert_eq!(history[0].containers_removed, 3);
}

#[test]
fn invalid_outcome_retries_in_a_fresh_container() {
    assert!(matches!(
        attempt_step(output("not json"), 1, &limits(), false),
        AttemptStep::Retry
    ));
}

#[test]
fn unknown_outcome_status_retries_then_fails_validation() {
    let unknown = || output(r#"{"status":"unknown"}"#);
    assert!(matches!(attempt_step(unknown(), 2, &limits(), false), AttemptStep::Retry));
    match attempt_step(unknown(), 3, &limits(), false) {
        AttemptStep::Fail(error) => {
            assert_eq!(map_invocation_error(&error, "r").code, "invalid_outcome");
        }
        other => panic!("{other:?}"),
    }
}

#[test]
fn reported_cost_over_the_configured_limit_fails_without_retrying() {
    match attempt_step(AttemptReport::Output(OutputVerdict::OverCost), 1, &limits(), false) {
        AttemptStep::Fail(error) => {
            assert_eq!(map_invocation_error(&error, "r").code, "cost_limit_exceeded");
        }
        other => panic!("{other:?}"),
    }
}

#[test]
fn deterministic_agent_failure_is_clear_and_not_retried() {
    let rejected = AttemptReport::Failed(ContainerFailure::Rejected {
        code: "model_not_found".to_owned(),
        message: "no such model".to_owned(),
    });
    match attempt_step(rejected, 1, &limits(), false) {
        AttemptStep::Fail(error) => {
            let mapped = map_invocation_error(&error, "r");
            assert_eq!(mapped.code, "model_not_found");
            assert_eq!(
                mapped.message,
                "agent rejected the invocation (model_not_found): no such model"
            );
        }
        other => panic!("{other:?}"),
    }
}

#[test]
fn invocation_timeout_fails_without_retrying_and_releases_the_identity() {
    let late = late_attempt(Some(Err(ContainerFailure::Retryable)));
    match attempt_step(late, 1, &limits(), true) {
        AttemptStep::Fail(error) => {
            assert_eq!(map_invocation_error(&error, "r").code, "invocation_timed_out");
            let mut table = InvocationTable::new(&limits());
            table.begin(IDENTITY, &request("a")).expect("begin");
            table.end(IDENTITY, &request("a"), vec!["1".to_owned()], &Err(error));
            assert_eq!(table.active_count(), 0);
            assert_eq!(history(&table)[0].attempts, 1);
            assert!(table.begin(IDENTITY, &request("b")).is_ok());
            assert_eq!(history(&table)[0].last_failure, Some("timeout"));
        }
        other => panic!("{other:?}"),
    }
    assert!(matches!(late_attempt(Some(Ok(()))), AttemptReport::TimedOut));
}

#[test]
fn cleanup_failure_blocks_new_containers_for_the_identity() {
    let mut table = InvocationTable::new(&limits());
    table.begin(IDENTITY, &request("a")).expect("begin");
    let error = match attempt_step(late_attempt(None), 1, &limits(), true) {
        AttemptStep::Fail(error) => error,
        other => panic!("{other:?}"),
    };
    assert_eq!(map_invocation_error(&error, "r").code, "container_cleanup_failed");
    table.end(IDENTITY, &request("a"), vec!["1".to_owned()], &Err(error));
    assert!(matches!(
        table.begin(IDENTITY, &request("b")),
        Err(InvocationError::IdentityAlreadyActive)
    ));
    assert!(table.is_busy());
    assert_eq!(table.active_count(), 1);
    let entry = &history(&table)[0];
    assert_eq!(entry.status, "cleanup_failed");
    assert_eq!(entry.attempts, 1);
    assert_eq!(entry.containers_removed, 0);
}

#[test]
fn concurrent_delivery_for_one_identity_is_rejected() {
    let mut table = InvocationTable::new(&limits());
    table.begin(IDENTITY, &request("a")).expect("begin");
    let error = table.begin(IDENTITY, &request("b")).expect_err("identity is active");
    let mapped = map_invocation_error(&error, "r");
    assert_eq!((mapped.status, mapped.code.as_str()), (409, "identity_already_active"));
    assert!(matches!(
        table.begin("another", &request("a")),
        Err(InvocationError::IdentityAlreadyActive)
    ));
    assert!(table.begin("another", &request("b")).is_ok());
}

#[test]
fn requests_without_a_token_credential_or_object_are_invalid() {
    let mut table = InvocationTable::new(&limits());
    let mut stale = request("a");
    stale.fencing_token = 0;
    let mut blank = request("a");
    blank.backend_credential = " \t".to_owned();
    let mut shapeless = request("a");
    shapeless.input_is_object = false;
    for request in [stale, blank, shapeless] {
        let error = table.begin(IDENTITY, &request).expect_err("invalid");
        assert_eq!(map_invocation_error(&error, "r").code, "invalid_request");
    }
    assert!(!table.is_busy());
}

#[test]
fn active_invocation_can_be_cancelled() {
    let mut table = InvocationTable::new(&limits());
    assert!(!table.is_active("a"));
    assert!(matches!(
        table.steer("a"),
        Err(InvocationError::InvocationNotActive)
    ));
    table.begin(IDENTITY, &request("a")).expect("begin");
    assert!(table.is_active("a"));
    assert!(table.steer("a").is_ok());
    let cancelled = match attempt_step(
        AttemptReport::Failed(ContainerFailure::Retryable),
        1,
        &limits(),
        true,
    ) {
        AttemptStep::Fail(error) => error,
        other => panic!("{other:?}"),
    };
    assert_eq!(map_invocation_error(&cancelled, "r").code, "invocation_cancelled");
    table.end(IDENTITY, &request("a"), vec!["1".to_owned()], &Err(cancelled));
    assert!(!table.is_active("a"));
    assert_eq!(table.active_count(), 0);
    assert_eq!(history(&table)[0].status, "cancelled");
    assert_eq!(
        map_invocation_error(&InvocationError::InvocationNotActive, "r").status,
        404
    );
}

#[test]
fn private_diagnostics_retains_only_the_configured_history() {
    let mut table = InvocationTable::new(&RuntimeLimits {
        max_diagnostic_entries: 2,
        ..limits()
    });
    for id in ["a", "b", "c"] {
        table.begin(IDENTITY, &request(id)).expect("begin");
        table.end(IDENTITY, &request(id), vec![format!("{id}-1")], &Ok(()));
    }
    let history = history(&table);
    assert_eq!(history.len(), 2);
    assert_eq!(history[0].invocation_id, "b");
    assert_eq!(history[1].invocation_id, "c");
    assert_eq!(history[1].attempt_ids, ["c-1"]);
    assert_eq!(history[1].status, "completed");
    assert_eq!(history[1].last_failure, None);
}

#[test]
fn the_default_limits_are_fixed() {
    let limits = limits();
    assert_eq!(limits.attempt_timeout_seconds, 300);
    assert_eq!(limits.cleanup_timeout_seconds, 10);
    assert_eq!(limits.max_attempts, 3);
    assert_eq!(limits.max_concurrency, 4);
    assert_eq!(limits.max_output_bytes, 2 * 1024 * 1024);
    assert_eq!(limits.max_diagnostic_entries, 100);
}
