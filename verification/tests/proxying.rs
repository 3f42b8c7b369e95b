//! Requests to the runtime API, and what containers see of them.

use flint::backend::CommandEvent;
use flint::catalog::{CatalogDocument, DiscoveryPolicy, RuntimeCatalog, RuntimeDocument};
use flint::catalog_error::CatalogError;
use flint::descriptor::LifecycleConfigurationDocument;
use flint::edge::{
    admit_invocation, admit_invocation_with, admit_session_call, authorize_request,
    check_agent_card, check_command, check_commands_enabled, check_stop, command_headers,
    map_catalog_error, map_proxy_error, map_session_error, payload_refused, request_id,
    stop_headers, validate_runtime_headers, with_request_id, ApiCall, CommandBody, PayloadKind,
    RuntimeApiError,
};
use flint::event_stream::{checksum, event_frame, frame, start_frame, FrameKind};
use flint::headers::{valid_header_name, valid_header_value, Headers};
use flint::labels::Labels;
use flint::pins::SessionPins;
use flint::policy::RuntimeIamAction;
use flint::proxy::{
    forward_plan, forward_step, inbound_headers, outbound_headers, BodyMeter, ForwardStep,
    ProxyError, ProxyTarget, ReadEvent, RelayStep, RequestEvent, SendEnd, StreamFault,
};
use flint::registry::RuntimeRegistry;
use flint::runtime::{
    AuthenticationMode, Connectivity, ConnectivityMode, Protocol, ResolvedRuntime,
};
use flint::session::SessionError;
use flint::session_map::SessionKey;

const SESSION_ID: &str = "20000000-0000-0000-0000-000000000001";

const SESSION_HEADER: &str = "x-amzn-bedrock-agentcore-runtime-session-id";

fn catalog(image: &str) -> RuntimeCatalog {
    let document = CatalogDocument {
        runtimes: vec![RuntimeDocument {
            name: Some("flint_local".to_owned()),
            image: image.to_owned(),
            protocol: Protocol::Http,
            environment_variables: Vec::new(),
            lifecycle_configuration: LifecycleConfigurationDocument {
                idle_runtime_session_timeout: None,
                max_lifetime: None,
            },
        }],
    };
    let policy = DiscoveryPolicy {
        connectivity: Connectivity {
            mode: ConnectivityMode::Native,
            docker_network: None,
            add_host_gateway: false,
        },
        environment_allowlist: Vec::new(),
        header_allowlist: vec!["x-flint-invocation-id".to_owned()],
    };
    match RuntimeCatalog::from_bytes_with_environment(
        "fixture.json",
        b"{}",
        &document,
        &policy,
        &Labels::new(),
    ) {
        Ok(catalog) => catalog,
        Err(error) => panic!("{}", error.message()),
    }
}

fn deployment(protocol: Protocol) -> ResolvedRuntime {
    let mut deployment = catalog("fixture:local").default_snapshot();
    deployment.protocol = protocol;
    deployment
}

fn headers(pairs: &[(&str, &str)]) -> Headers {
    let mut headers = Headers::new();
    for (name, value) in pairs {
        headers.append(name, value.as_bytes().to_vec());
    }
    headers
}

fn request_headers() -> Headers {
    headers(&[
        ("content-type", "application/octet-stream"),
        ("accept", "text/event-stream"),
        ("authorization", "must-not-forward"),
        ("x-amz-date", "must-not-forward"),
        ("connection", "keep-alive"),
        ("traceparent", "request-trace"),
        ("x-flint-invocation-id", "request-custom"),
    ])
}

fn call(extra: &[(&str, &str)]) -> ApiCall {
    ApiCall {
        request_id: "request-1".to_owned(),
        runtime_identifier: "flint_local".to_owned(),
        account_id: Some("000000000000".to_owned()),
        qualifier: None,
        method: "POST".to_owned(),
        path: "/runtimes/flint_local/invocations".to_owned(),
        query: None,
        headers: headers(extra),
    }
}

fn registry() -> RuntimeRegistry {
    RuntimeRegistry::new(catalog("fixture:local"), 1)
}

fn refused<T>(result: Result<T, RuntimeApiError>) -> RuntimeApiError {
    match result {
        Ok(_) => panic!("the request was accepted"),
        Err(error) => error,
    }
}

#[test]
fn routes_all_protocols_without_mutating_payloads_or_forwarding_credentials() {
    let cases = [
        (Protocol::Http, "/invocations"),
        (Protocol::AgUi, "/invocations"),
        (Protocol::Mcp, "/mcp"),
        (Protocol::A2a, "/"),
    ];
    for (protocol, path) in cases {
        let plan = forward_plan(
            &deployment(protocol),
            ProxyTarget::Invocation,
            "http://127.0.0.1:49152/",
            &request_headers(),
            "session-1",
        )
        .expect("plan");
        assert_eq!(plan.method, "POST");
        assert_eq!(plan.url, format!("http://127.0.0.1:49152{path}"));
        assert!(plan.with_body);
        assert!(!plan.headers.contains("authorization"));
        assert!(!plan.headers.contains("x-amz-date"));
        assert!(!plan.headers.contains("connection"));
        assert_eq!(
            plan.headers.get("x-flint-invocation-id"),
            Some(b"request-custom".to_vec())
        );
        assert_eq!(plan.headers.get("traceparent"), Some(b"request-trace".to_vec()));
        assert_eq!(plan.headers.get_all(SESSION_HEADER), [b"session-1".to_vec()]);
        assert!(!plan.headers.contains("mcp-session-id"));
    }
}

#[test]
fn the_agent_card_has_a_path_of_its_own() {
    let plan = forward_plan(
        &deployment(Protocol::A2a),
        ProxyTarget::AgentCard,
        "http://127.0.0.1:49152",
        &Headers::new(),
        "card-session",
    )
    .expect("agent card");
    assert_eq!(plan.method, "GET");
    assert_eq!(plan.url, "http://127.0.0.1:49152/.well-known/agent-card.json");
    assert!(!plan.with_body);
    assert!(matches!(
        forward_plan(
            &deployment(Protocol::Http),
            ProxyTarget::AgentCard,
            "http://127.0.0.1:49152",
            &Headers::new(),
            "card-session",
        ),
        Err(ProxyError::AgentCardNotConfigured)
    ));
}

#[test]
fn the_session_header_of_a_request_is_replaced() {
    let sent = headers(&[(SESSION_HEADER, "forged"), ("mcp-session-id", "mcp-1")]);
    let out = outbound_headers(&sent, Protocol::Mcp, &vec![SESSION_HEADER.to_owned()], "real")
        .expect("headers");
    assert_eq!(out.get_all(SESSION_HEADER), [b"real".to_vec()]);
    assert_eq!(out.get("mcp-session-id"), Some(b"mcp-1".to_vec()));
    let other = outbound_headers(&sent, Protocol::Http, &Vec::new(), "real").expect("headers");
    assert!(!other.contains("mcp-session-id"));
}

#[test]
fn names_and_values_that_no_header_can_have_are_refused() {
    assert!(valid_header_name("X-Custom_1"));
    assert!(!valid_header_name(""));
    assert!(!valid_header_name("a b"));
    assert!(valid_header_value("tab\tand é"));
    assert!(!valid_header_value("line\nbreak"));
    assert!(matches!(
        outbound_headers(&Headers::new(), Protocol::Http, &vec!["a b".to_owned()], "s"),
        Err(ProxyError::InvalidHeader(name)) if name == "a b"
    ));
    assert!(matches!(
        outbound_headers(&Headers::new(), Protocol::Http, &Vec::new(), "a\nb"),
        Err(ProxyError::InvalidHeader(name)) if name == SESSION_HEADER
    ));
}

#[test]
fn answers_keep_their_type_session_and_traces() {
    let answer = headers(&[
        ("content-type", "text/event-stream"),
        ("set-cookie", "secret"),
        ("traceparent", "answer-trace"),
        ("x-flint-invocation-id", "answer-custom"),
    ]);
    let out = inbound_headers(
        &Headers::new(),
        &answer,
        Protocol::Http,
        &vec!["x-flint-invocation-id".to_owned()],
        "session-1",
    );
    assert_eq!(out.get("content-type"), Some(b"text/event-stream".to_vec()));
    assert_eq!(out.get(SESSION_HEADER), Some(b"session-1".to_vec()));
    assert_eq!(out.get("traceparent"), Some(b"answer-trace".to_vec()));
    assert_eq!(out.get("x-flint-invocation-id"), Some(b"answer-custom".to_vec()));
    assert!(!out.contains("set-cookie"));
    let plain = inbound_headers(
        &headers(&[("mcp-session-id", "mcp-1")]),
        &Headers::new(),
        Protocol::Mcp,
        &Vec::new(),
        "session-1",
    );
    assert_eq!(plain.get("content-type"), Some(b"application/octet-stream".to_vec()));
    assert_eq!(plain.get("mcp-session-id"), Some(b"mcp-1".to_vec()));
    let named = with_request_id(plain, "request-1");
    assert_eq!(named.get("x-amzn-requestid"), Some(b"request-1".to_vec()));
}

#[test]
fn streaming_request_limit_is_reported_as_a_request_error() {
    let mut meter = BodyMeter::new(3, 3);
    assert!(matches!(meter.request_step(RequestEvent::Chunk(2)), RelayStep::Pass));
    let over = meter.request_step(RequestEvent::Chunk(2));
    assert!(over.is_over_limit());
    assert!(!meter.request_step(RequestEvent::Cancelled).is_over_limit());
    match over {
        RelayStep::Break(StreamFault::InvalidData(message)) => {
            assert_eq!(message, "runtime request exceeded configured limits");
        }
        other => panic!("{other:?}"),
    }
    for end in [SendEnd::Answered(200), SendEnd::Failed("reset".to_owned())] {
        assert!(matches!(
            forward_step(end, true),
            ForwardStep::Fail(ProxyError::RequestLimit)
        ));
    }
}

#[test]
fn container_errors_are_mapped_without_their_body() {
    assert!(matches!(
        forward_step(SendEnd::Answered(503), false),
        ForwardStep::Drain(ProxyError::RuntimeClient(503))
    ));
    assert!(matches!(forward_step(SendEnd::Answered(204), false), ForwardStep::PassOn));
    assert!(matches!(
        forward_step(SendEnd::Failed("refused".to_owned()), false),
        ForwardStep::Invalidate(ProxyError::Unavailable(_))
    ));
    assert!(matches!(
        forward_step(SendEnd::Cancelled, false),
        ForwardStep::Fail(ProxyError::Cancelled)
    ));
    assert!(matches!(
        forward_step(SendEnd::TimedOut, true),
        ForwardStep::Fail(ProxyError::TimedOut)
    ));
    let mut meter = BodyMeter::new(4, 6);
    assert!(matches!(meter.drain_step(ReadEvent::Chunk(4)), Ok(false)));
    assert!(matches!(meter.drain_step(ReadEvent::Ended), Ok(true)));
    assert!(matches!(
        meter.drain_step(ReadEvent::Chunk(4)),
        Err(ProxyError::ResponseLimit)
    ));
    assert!(matches!(meter.drain_step(ReadEvent::Cancelled), Err(ProxyError::Cancelled)));
    assert!(matches!(meter.drain_step(ReadEvent::TimedOut), Err(ProxyError::TimedOut)));
}

#[test]
fn answers_break_off_at_their_limits() {
    let mut meter = BodyMeter::new(4, 6);
    assert!(matches!(meter.response_step(ReadEvent::Chunk(4)), RelayStep::Pass));
    let message = |step| match step {
        RelayStep::Break(StreamFault::InvalidData(message)) => message,
        other => panic!("{other:?}"),
    };
    assert_eq!(
        message(meter.response_step(ReadEvent::Chunk(5))),
        "runtime response chunk exceeded configured limit"
    );
    assert_eq!(
        message(meter.response_step(ReadEvent::Chunk(3))),
        "runtime response exceeded configured limit"
    );
    assert!(matches!(
        meter.response_step(ReadEvent::TimedOut),
        RelayStep::Break(StreamFault::TimedOut(message)) if message == "runtime response timed out"
    ));
    assert!(matches!(
        meter.response_step(ReadEvent::Cancelled),
        RelayStep::Break(StreamFault::Interrupted(message)) if message == "runtime session stopped"
    ));
    assert!(matches!(meter.response_step(ReadEvent::Ended), RelayStep::End));
    let mut full = BodyMeter { bytes: usize::MAX, max_chunk_bytes: 9, max_bytes: usize::MAX };
    assert!(matches!(full.response_step(ReadEvent::Chunk(9)), RelayStep::Pass));
}

// The API.

#[test]
fn an_invocation_gets_its_session_or_a_fresh_one() {
    let pins = SessionPins::new();
    let registry = registry();
    let named = match admit_invocation(&pins, &registry, &call(&[(SESSION_HEADER, SESSION_ID)])) {
        Ok(admission) => admission,
        Err(error) => panic!("{error:?}"),
    };
    assert_eq!(named.session_id, SESSION_ID);
    assert!(named.streaming);
    let fresh = match admit_invocation(&pins, &registry, &call(&[])) {
        Ok(admission) => admission,
        Err(error) => panic!("{error:?}"),
    };
    assert_eq!(fresh.session_id.len(), 36);
    let again = match admit_invocation(
        &pins,
        &registry,
        &call(&[(SESSION_HEADER, &fresh.session_id)]),
    ) {
        Ok(admission) => admission,
        Err(error) => panic!("{error:?}"),
    };
    assert_eq!(again.session_id, fresh.session_id);
    let given = match admit_invocation_with(&pins, &registry, &call(&[]), "given".to_owned()) {
        Ok(admission) => admission,
        Err(error) => panic!("{error:?}"),
    };
    assert_eq!(given.session_id, "given");
    assert_ne!(request_id(), request_id());
}

#[test]
fn other_calls_must_name_a_valid_session() {
    let pins = SessionPins::new();
    let registry = registry();
    let missing = refused(admit_session_call(&pins, &registry, &call(&[])));
    assert_eq!(missing.status, 400);
    assert_eq!(missing.message, "runtime session ID is required");
    let short = refused(admit_session_call(
        &pins,
        &registry,
        &call(&[(SESSION_HEADER, "too-short")]),
    ));
    assert_eq!(short.error_type, "ValidationException");
    let mut bytes = call(&[]);
    bytes.headers.append(SESSION_HEADER, vec![0xff; 40]);
    assert_eq!(
        refused(admit_session_call(&pins, &registry, &bytes)).message,
        "runtime session ID is not valid header text"
    );
    assert!(admit_session_call(&pins, &registry, &call(&[(SESSION_HEADER, SESSION_ID)])).is_ok());
}

#[test]
fn headers_that_are_there_are_not_empty() {
    assert!(validate_runtime_headers(&Headers::new(), "r").is_ok());
    let empty = headers(&[("mcp-method", ""), ("traceparent", "")]);
    assert_eq!(
        refused(validate_runtime_headers(&empty, "r")).message,
        "header mcp-method cannot be empty"
    );
}

#[test]
fn pinned_sessions_keep_their_deployment_when_the_catalog_changes() {
    let mut pins = SessionPins::new();
    let before = catalog("fixture:before").default_snapshot();
    pins.pin(&SessionKey::new(&before, SESSION_ID.to_owned()), &before);
    let registry = RuntimeRegistry::new(catalog("fixture:after"), 1);
    let admitted = match admit_invocation(
        &pins,
        &registry,
        &call(&[(SESSION_HEADER, SESSION_ID)]),
    ) {
        Ok(admission) => admission,
        Err(error) => panic!("{error:?}"),
    };
    assert_eq!(admitted.runtime.image, "fixture:before");
}

#[test]
fn unknown_runtimes_and_foreign_accounts_are_refused() {
    let pins = SessionPins::new();
    let registry = registry();
    let mut unknown = call(&[]);
    unknown.runtime_identifier = "missing".to_owned();
    assert_eq!(refused(admit_invocation(&pins, &registry, &unknown)).status, 404);
    let mut anonymous = call(&[]);
    anonymous.account_id = None;
    assert_eq!(refused(admit_invocation(&pins, &registry, &anonymous)).status, 400);
    let mut foreign = call(&[]);
    foreign.account_id = Some("123456789012".to_owned());
    assert_eq!(refused(admit_invocation(&pins, &registry, &foreign)).status, 403);
    let garbled = call(&[("authorization", "garbled")]);
    assert_eq!(refused(admit_invocation(&pins, &registry, &garbled)).status, 403);
}

#[test]
fn signed_bodies_are_read_whole() {
    let mut signed = catalog("fixture:local");
    for runtime in &mut signed.runtimes {
        runtime.authentication.mode = AuthenticationMode::Signature;
    }
    let registry = RuntimeRegistry::new(signed, 1);
    let admitted = match admit_invocation(&SessionPins::new(), &registry, &call(&[])) {
        Ok(admission) => admission,
        Err(error) => panic!("{error:?}"),
    };
    assert!(!admitted.streaming);
    let denied = refused(authorize_request(
        &admitted.runtime,
        &call(&[]),
        &Vec::new(),
        RuntimeIamAction::InvokeAgentRuntime,
    ));
    assert_eq!(denied.status, 403);
    assert_eq!(denied.code, "access_denied");
    let refusal = payload_refused(PayloadKind::Stop, 1024, "r");
    assert_eq!(refusal.message, "stop payload exceeds 1024 bytes");
    assert!(authorize_request(
        &deployment(Protocol::Http),
        &call(&[]),
        &Vec::new(),
        RuntimeIamAction::InvokeAgentRuntime,
    )
    .is_ok());
}

#[test]
fn commands_stops_and_cards_are_checked() {
    let mut runtime = deployment(Protocol::Http);
    runtime.command.enabled = false;
    assert_eq!(
        refused(check_commands_enabled(&runtime, "r")).message,
        "commands are disabled for this runtime"
    );
    let body = |command: &str, timeout| Ok(CommandBody { command: command.to_owned(), timeout });
    assert!(check_command(body("pwd", Some(3600)), "r").is_ok());
    assert_eq!(
        refused(check_command(body("", None), "r")).message,
        "command must not be empty"
    );
    for timeout in [0, 3601] {
        assert_eq!(
            refused(check_command(body("pwd", Some(timeout)), "r")).message,
            "command timeout must be between 1 and 3600 seconds"
        );
    }
    assert_eq!(
        refused(check_command(Err("eof".to_owned()), "r")).message,
        "invalid command request body: eof"
    );
    assert_eq!(
        refused(check_stop(Err("eof".to_owned()), "r")).message,
        "stop request body is invalid: eof"
    );
    assert_eq!(check_stop(Ok(Some("t".to_owned())), "r").expect("token").as_deref(), Some("t"));
    let card = refused(check_agent_card(&runtime, "r"));
    assert_eq!(card.status, 424);
    assert_eq!(card.code, "agent_card_not_configured");
    assert!(check_agent_card(&deployment(Protocol::A2a), "r").is_ok());
}

#[test]
fn refusals_are_modeled_errors() {
    let error = map_session_error(SessionError::RetryableConflict("busy".to_owned()), "r");
    assert_eq!((error.status, error.error_type), (409, "RetryableConflictException"));
    assert_eq!(error.code, "session_state_conflict");
    let body: serde_json::Value = serde_json::from_str(&error.body()).expect("JSON");
    assert_eq!(body["message"], "busy");
    assert_eq!(body["detail"], "busy");
    assert_eq!(body["code"], "session_state_conflict");
    let shown = error.headers();
    assert_eq!(shown.get("content-type"), Some(b"application/json".to_vec()));
    assert_eq!(shown.get("x-amzn-errortype"), Some(b"RetryableConflictException".to_vec()));
    assert_eq!(shown.get("x-amzn-requestid"), Some(b"r".to_vec()));
    for (error, status, code) in [
        (SessionError::Provisioning("m".to_owned()), 424, "session_provisioning_failed"),
        (SessionError::Command("m".to_owned()), 424, "runtime_command_failed"),
        (
            SessionError::StoppedDuringProvisioning,
            409,
            "session_stopped_during_provisioning",
        ),
        (SessionError::Stopping("m".to_owned()), 424, "session_stop_failed"),
        (SessionError::DeploymentDrift("m".to_owned()), 424, "session_deployment_drift"),
    ] {
        let mapped = map_session_error(error, "r");
        assert_eq!((mapped.status, mapped.code.as_str()), (status, code));
    }
    for (error, status, code) in [
        (ProxyError::AgentCardNotConfigured, 424, "agent_card_not_configured"),
        (ProxyError::InvalidHeader("h".to_owned()), 400, "invalid_forwarded_header"),
        (ProxyError::Unavailable("m".to_owned()), 424, "runtime_unavailable"),
        (ProxyError::RuntimeClient(503), 424, "runtime_client_error"),
        (ProxyError::RequestLimit, 400, "request_body_too_large"),
        (ProxyError::TimedOut, 424, "runtime_timed_out"),
        (ProxyError::Cancelled, 424, "runtime_cancelled"),
        (ProxyError::ResponseLimit, 424, "runtime_response_limit"),
        (ProxyError::Response("m".to_owned()), 500, "internal_error"),
    ] {
        let mapped = map_proxy_error(&error, "r");
        assert_eq!((mapped.status, mapped.code.as_str()), (status, code));
        assert_eq!(mapped.message, error.message());
    }
    assert_eq!(
        ProxyError::RuntimeClient(503).message(),
        "runtime container returned HTTP 503"
    );
    assert_eq!(
        map_catalog_error(CatalogError::Validation("m".to_owned()), "r").status,
        500
    );
}

#[test]
fn messages_are_written_as_json() {
    let error = RuntimeApiError::internal("r", "a \"quoted\"\nline".to_owned());
    let body: serde_json::Value = serde_json::from_str(&error.body()).expect("JSON");
    assert_eq!(body["message"], "a \"quoted\"\nline");
    let control = RuntimeApiError::internal("r", "\u{1f}\\\t\u{7f}\u{e9}".to_owned());
    assert!(control.body().ends_with(",\"message\":\"\\u001f\\\\\\t\u{7f}\u{e9}\"}"));
}

#[test]
fn answers_to_stops_and_commands_name_the_session() {
    let stop = stop_headers(SESSION_ID, "r");
    assert_eq!(stop.get(SESSION_HEADER), Some(SESSION_ID.as_bytes().to_vec()));
    let command = command_headers(&headers(&[("baggage", "b")]), SESSION_ID, "r");
    assert_eq!(
        command.get("content-type"),
        Some(b"application/vnd.amazon.eventstream".to_vec())
    );
    assert_eq!(command.get("baggage"), Some(b"b".to_vec()));
    assert!(!command.contains("traceparent"));
}

// Event streams.

/// The headers and the payload of a frame, with its checksums looked at.
fn unframe(bytes: &[u8]) -> (Vec<(String, String)>, serde_json::Value) {
    let number = |at: usize| {
        u32::from_be_bytes([bytes[at], bytes[at + 1], bytes[at + 2], bytes[at + 3]]) as usize
    };
    assert_eq!(number(0), bytes.len());
    assert_eq!(number(8) as u32, checksum(&bytes[..8].to_vec()));
    assert_eq!(
        number(bytes.len() - 4) as u32,
        checksum(&bytes[..bytes.len() - 4].to_vec())
    );
    let end = 12 + number(4);
    let mut at = 12;
    let mut headers = Vec::new();
    while at < end {
        let name_end = at + 1 + bytes[at] as usize;
        let name = String::from_utf8(bytes[at + 1..name_end].to_vec()).expect("name");
        assert_eq!(bytes[name_end], 7);
        let size = bytes[name_end + 1] as usize * 256 + bytes[name_end + 2] as usize;
        let value_end = name_end + 3 + size;
        let value = String::from_utf8(bytes[name_end + 3..value_end].to_vec()).expect("value");
        headers.push((name, value));
        at = value_end;
    }
    let payload = serde_json::from_slice(&bytes[end..bytes.len() - 4]).expect("JSON payload");
    (headers, payload)
}

#[test]
fn checksums_have_their_known_values() {
    assert_eq!(checksum(&Vec::new()), 0);
    assert_eq!(checksum(&b"123456789".to_vec()), 0xcbf4_3926);
}

#[test]
fn commands_are_framed_from_start_to_stop() {
    let (headers, start) = unframe(&start_frame().expect("frame"));
    assert_eq!(
        headers,
        [
            (":message-type".to_owned(), "event".to_owned()),
            (":event-type".to_owned(), "chunk".to_owned()),
            (":content-type".to_owned(), "application/json".to_owned()),
        ]
    );
    assert!(start["contentStart"].is_object());
    let payload = |event| unframe(&event_frame(&Ok(event)).expect("frame")).1;
    assert_eq!(
        payload(CommandEvent::Stdout(b"pwd".to_vec()))["contentDelta"]["stdout"],
        "pwd"
    );
    assert_eq!(
        payload(CommandEvent::Stderr(b"a\xffb".to_vec()))["contentDelta"]["stderr"],
        "a\u{fffd}b"
    );
    let stop = payload(CommandEvent::Exited(7));
    assert_eq!(stop["contentStop"]["exitCode"], 7);
    assert_eq!(stop["contentStop"]["status"], "COMPLETED");
    let late = payload(CommandEvent::TimedOut);
    assert_eq!(late["contentStop"]["exitCode"], -1);
    assert_eq!(late["contentStop"]["status"], "TIMED_OUT");
}

#[test]
fn failures_are_framed_without_their_details() {
    let framed = event_frame(&Err("container secret details".to_owned())).expect("frame");
    let (headers, payload) = unframe(&framed);
    assert_eq!(headers[0].1, "exception");
    assert_eq!(payload["message"], "runtime command execution failed");
    assert!(!String::from_utf8_lossy(&framed).contains("secret"));
    assert_eq!(
        event_frame(&Err("other".to_owned())),
        frame(
            FrameKind::Failure,
            b"{\"message\":\"runtime command execution failed\"}"
        )
    );
}
