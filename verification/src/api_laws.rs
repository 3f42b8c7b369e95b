//! What callers are answered, and which calls are admitted.

use vstd::prelude::*;
use vstd::utf8::encode_utf8;

use crate::auth::{authorized, identity_of, AuthorizationRequestView};
use crate::catalog::{resolved, RuntimeCatalogView};
use crate::catalog_error::CatalogErrorView;
use crate::container::is_session_id;
use crate::descriptor::is_runtime_id;
use crate::edge::{
    agent_card_checked, call_authorized, catalog_api_error, client_error, coded_not_found_error,
    coded_validation_error, command_checked, command_headers_of, commands_checked, conflict_error,
    denied_error, error_body, error_headers, first_empty_header, headers_checked, internal_error,
    invocation_admitted, nonempty_headers, not_found_error, payload_name, proxy_api_error,
    session_api_error, session_call_admitted, session_id_of, session_runtime_of, stop_headers_of,
    validation_error, AdmissionView, ApiCallView, PayloadKind, RuntimeApiErrorView,
};
use crate::headers::{text_of, value_of, HeaderView};
use crate::json::json_string_of;
use crate::number::decimal;
use crate::pins::pinned_for;
use crate::policy::RuntimeIamAction;
use crate::primitives::Timestamp;
use crate::proxy::ProxyErrorView;
use crate::runtime::{AuthenticationMode, LocalIdentityView, Protocol, ResolvedRuntimeView};
use crate::session::SessionErrorView;
use crate::session_map::SessionKeyView;
use crate::text::{ascii_lower, holds_text};

verus! {

// Errors.

/// Each kind of error has its status and its type, and says which request it answers.
pub proof fn law_error_kinds(request_id: Seq<char>, message: Seq<char>, code: Seq<char>)
    ensures
        ({
            let e = denied_error(request_id, message);
            e.status == 403 && e.error_type == "AccessDeniedException"@ && e.message == message
                && e.request_id == request_id && e.code == "access_denied"@
        }),
        ({
            let e = coded_validation_error(request_id, message, code);
            e.status == 400 && e.error_type == "ValidationException"@ && e.message == message
                && e.request_id == request_id && e.code == code
        }),
        ({
            let e = validation_error(request_id, message);
            e.status == 400 && e.error_type == "ValidationException"@ && e.message == message
                && e.request_id == request_id && e.code == "validation_error"@
        }),
        ({
            let e = coded_not_found_error(request_id, message, code);
            e.status == 404 && e.error_type == "ResourceNotFoundException"@ && e.message == message
                && e.request_id == request_id && e.code == code
        }),
        ({
            let e = not_found_error(request_id, message);
            e.status == 404 && e.error_type == "ResourceNotFoundException"@ && e.message == message
                && e.request_id == request_id && e.code == "resource_not_found"@
        }),
        ({
            let e = conflict_error(request_id, message, code);
            e.status == 409 && e.error_type == "RetryableConflictException"@ && e.message == message
                && e.request_id == request_id && e.code == code
        }),
        ({
            let e = client_error(request_id, message, code);
            e.status == 424 && e.error_type == "RuntimeClientError"@ && e.message == message
                && e.request_id == request_id && e.code == code
        }),
        ({
            let e = internal_error(request_id, message);
            e.status == 500 && e.error_type == "InternalServerException"@ && e.message == message
                && e.request_id == request_id && e.code == "internal_error"@
        }),
{
}

/// An error is answered with its code and its message, and with its type and the request's
/// identifier in the headers.
pub proof fn law_error_answers(error: RuntimeApiErrorView)
    ensures
        error_body(error) == "{\"code\":"@ + json_string_of(error.code) + ",\"detail\":"@
            + json_string_of(error.message) + ",\"message\":"@ + json_string_of(error.message)
            + "}"@,
        value_of(error_headers(error), "content-type"@) == Some(encode_utf8("application/json"@)),
        value_of(error_headers(error), "x-amzn-errortype"@) == Some(encode_utf8(error.error_type)),
        value_of(error_headers(error), "x-amzn-requestid"@) == Some(encode_utf8(error.request_id)),
        error_headers(error).len() == 3,
{
    let lines = error_headers(error);
    lemma_three_lines(lines, "content-type"@, "x-amzn-errortype"@, "x-amzn-requestid"@);
}

/// Three lines under three names are found under these names.
proof fn lemma_three_lines(lines: Seq<HeaderView>, a: Seq<char>, b: Seq<char>, c: Seq<char>)
    requires
        lines.len() == 3,
        lines[0].name == ascii_lower(a) && lines[1].name == ascii_lower(b) && lines[2].name
            == ascii_lower(c),
        a == "content-type"@ && b == "x-amzn-errortype"@ && c == "x-amzn-requestid"@ || a
            == "content-type"@ && b == "x-amzn-bedrock-agentcore-runtime-session-id"@ && c
            == "x-amzn-requestid"@,
    ensures
        value_of(lines, a) == Some(lines[0].value),
        value_of(lines, b) == Some(lines[1].value),
        value_of(lines, c) == Some(lines[2].value),
{
    lemma_names();
    assert(ascii_lower(a).len() == a.len() && ascii_lower(b).len() == b.len() && ascii_lower(
        c,
    ).len() == c.len());
    if b.len() == c.len() {
        assert(ascii_lower(b)[7] == 'e' && ascii_lower(c)[7] == 'r');
    }
    crate::text_laws::law_first_header(lines, a, 0);
    crate::text_laws::law_first_header(lines, b, 1);
    crate::text_laws::law_first_header(lines, c, 2);
}

proof fn lemma_names()
    ensures
        "content-type"@.len() == 12,
        "x-amzn-errortype"@.len() == 16 && "x-amzn-errortype"@[7] == 'e',
        "x-amzn-requestid"@.len() == 16 && "x-amzn-requestid"@[7] == 'r',
        "x-amzn-bedrock-agentcore-runtime-session-id"@.len() == 43,
{
    reveal_strlit("content-type");
    reveal_strlit("x-amzn-errortype");
    reveal_strlit("x-amzn-requestid");
    reveal_strlit("x-amzn-bedrock-agentcore-runtime-session-id");
    assert("content-type"@.len() == 12);
    assert("x-amzn-errortype"@.len() == 16);
    assert("x-amzn-requestid"@.len() == 16);
    assert("x-amzn-bedrock-agentcore-runtime-session-id"@.len() == 43);
}

/// What goes wrong with a container is the container's fault, but for a header that cannot be sent
/// and a request that is too large, which are the caller's, and an answer that cannot be made, which
/// is the gateway's.
pub proof fn law_proxy_errors_are_reported(error: ProxyErrorView, request_id: Seq<char>)
    ensures
        ({
            let e = proxy_api_error(error, request_id);
            &&& e.message == error.text() && e.request_id == request_id
            &&& (error is InvalidHeader || error is RequestLimit) <==> e.status == 400
            &&& error is Response <==> e.status == 500
            &&& !(error is InvalidHeader || error is RequestLimit || error is Response)
                ==> e.status == 424
            &&& error is AgentCardNotConfigured ==> e.code == "agent_card_not_configured"@
            &&& error is InvalidHeader ==> e.code == "invalid_forwarded_header"@
            &&& error is Unavailable ==> e.code == "runtime_unavailable"@
            &&& error is RuntimeClient ==> e.code == "runtime_client_error"@
            &&& error is RequestLimit ==> e.code == "request_body_too_large"@
            &&& error is TimedOut ==> e.code == "runtime_timed_out"@
            &&& error is Cancelled ==> e.code == "runtime_cancelled"@
            &&& error is ResponseLimit ==> e.code == "runtime_response_limit"@
            &&& error is Response ==> e.code == "internal_error"@
        }),
{
}

/// What a container's error says.
pub proof fn law_proxy_error_texts(m: Seq<char>, status: u16)
    ensures
        ProxyErrorView::AgentCardNotConfigured.text() == "runtime agent card is not configured"@,
        ProxyErrorView::InvalidHeader(m).text() == "runtime request contains invalid header "@ + m,
        ProxyErrorView::Unavailable(m).text() == "runtime container is unavailable: "@ + m,
        ProxyErrorView::RuntimeClient(status).text() == "runtime container returned HTTP "@
            + decimal(status as nat),
        ProxyErrorView::RequestLimit.text() == "runtime request exceeded configured limits"@,
        ProxyErrorView::TimedOut.text() == "runtime request timed out"@,
        ProxyErrorView::Cancelled.text() == "runtime session was stopped"@,
        ProxyErrorView::ResponseLimit.text() == "runtime response exceeded its configured limit"@,
        ProxyErrorView::Response(m).text() == "failed to construct runtime response: "@ + m,
{
}

/// A session that is in the way can be tried again later; anything else about a session is the
/// container's fault.
pub proof fn law_session_errors_are_reported(error: SessionErrorView, request_id: Seq<char>, m: Seq<char>)
    ensures
        ({
            let e = session_api_error(error, request_id);
            &&& e.request_id == request_id
            &&& error is RetryableConflict || error is StoppedDuringProvisioning ==> e.status == 409
                && e.error_type == "RetryableConflictException"@
            &&& !(error is RetryableConflict || error is StoppedDuringProvisioning) ==> e.status
                == 424 && e.error_type == "RuntimeClientError"@
            &&& error == SessionErrorView::RetryableConflict(m) ==> e.message == m && e.code
                == "session_state_conflict"@
            &&& error == SessionErrorView::Provisioning(m) ==> e.message == m && e.code
                == "session_provisioning_failed"@
            &&& error == SessionErrorView::Command(m) ==> e.message == m && e.code
                == "runtime_command_failed"@
            &&& error == SessionErrorView::Stopping(m) ==> e.message == m && e.code
                == "session_stop_failed"@
            &&& error == SessionErrorView::DeploymentDrift(m) ==> e.message == m && e.code
                == "session_deployment_drift"@
            &&& error is StoppedDuringProvisioning ==> e.code
                == "session_stopped_during_provisioning"@
        }),
{
}

/// Who asks for a runtime without saying whose is told so; who asks in the name of another account
/// is refused; a runtime that is not there is not found.
pub proof fn law_resolution_errors_are_reported(
    catalog: RuntimeCatalogView,
    runtime_id: Seq<char>,
    account_id: Option<Seq<char>>,
    qualifier: Option<Seq<char>>,
    identity: LocalIdentityView,
    request_id: Seq<char>,
)
    requires
        is_runtime_id(runtime_id),
        resolved(catalog, runtime_id, account_id, qualifier, identity) is Err,
    ensures
        ({
            let e = catalog_api_error(
                resolved(catalog, runtime_id, account_id, qualifier, identity)->Err_0,
                request_id,
            );
            let found = crate::catalog::find_runtime(catalog.runtimes, runtime_id);
            &&& e.request_id == request_id
            &&& account_id is None ==> e.status == 400
            &&& account_id is Some && account_id != Some(identity.account_id) ==> e.status == 403
            &&& account_id == Some(identity.account_id) && found is None ==> e.status == 404
                && e.message == "runtime "@ + runtime_id + " was not found"@
        }),
{
    crate::discovery_laws::law_plain_identifiers_resolve(
        catalog,
        runtime_id,
        account_id,
        qualifier,
        identity,
    );
    let part = "accountId is required"@;
    reveal_strlit("accountId is required");
    reveal_strlit("accountId is required when resolving a runtime ID");
    let whole = "accountId is required when resolving a runtime ID"@;
    assert(part.len() == 21);
    assert(whole.subrange(0, 21) =~= part);
    assert(holds_text(whole, part)) by {
        assert(whole.subrange(0int, 0int + part.len()) == part);
    }
    reveal_strlit("runtime ");
    reveal_strlit(" was not found");
    let message = "runtime "@ + runtime_id + " was not found"@;
    let n = runtime_id.len() as int;
    if holds_text(message, part) {
        let i = choose|i: int|
            0 <= i <= message.len() - part.len() && #[trigger] message.subrange(i, i + part.len())
                == part;
        let window = message.subrange(i, i + part.len());
        assert(part[9] == ' ' && part[10] == 'i');
        assert(window[9] == message[i + 9] && window[10] == message[i + 10]);
        let at = i + 9;
        if at < 8 + n {
            assert(message[at] == runtime_id[at - 8]);
            assert(runtime_id[at - 8] != ' ');
        } else {
            assert(message[at] == " was not found"@[at - 8 - n]);
            assert(message[at + 1] == " was not found"@[at + 1 - 8 - n]);
        }
        assert(false);
    }
}

/// An identity that does not fit is refused, and what is wrong with the catalog itself is not the
/// caller's to mend.
pub proof fn law_catalog_errors_are_reported(error: CatalogErrorView, request_id: Seq<char>)
    ensures
        ({
            let e = catalog_api_error(error, request_id);
            &&& error matches CatalogErrorView::IdentityMismatch(m) ==> e == denied_error(
                request_id,
                m,
            )
            &&& error is Read || error is Parse || error is Validation ==> e.status == 500
            &&& error matches CatalogErrorView::Resolution(m) ==> e.message == m && (e.status == 400
                || e.status == 404)
        }),
{
}

// Calls.

/// The headers that may not be empty: a call passes exactly where none of these is there and empty.
pub proof fn law_headers_that_may_not_be_empty(headers: Seq<HeaderView>, request_id: Seq<char>)
    ensures
        headers_checked(headers, request_id) is Ok <==> {
            let nothing = Some(Seq::<u8>::empty());
            &&& value_of(headers, "x-amzn-bedrock-agentcore-runtime-user-id"@) != nothing
            &&& value_of(headers, "mcp-session-id"@) != nothing
            &&& value_of(headers, "mcp-protocol-version"@) != nothing
            &&& value_of(headers, "mcp-method"@) != nothing
            &&& value_of(headers, "mcp-name"@) != nothing
            &&& value_of(headers, "x-amzn-trace-id"@) != nothing
            &&& value_of(headers, "traceparent"@) != nothing
            &&& value_of(headers, "tracestate"@) != nothing
            &&& value_of(headers, "baggage"@) != nothing
        },
        headers_checked(headers, request_id) matches Err(e) ==> e.status == 400 && e.request_id
            == request_id,
{
    let names = nonempty_headers();
    lemma_empty_headers(headers, names);
    assert(names.len() == 9);
    assert(names[0] == "x-amzn-bedrock-agentcore-runtime-user-id"@);
    assert(names[1] == "mcp-session-id"@);
    assert(names[2] == "mcp-protocol-version"@);
    assert(names[3] == "mcp-method"@);
    assert(names[4] == "mcp-name"@);
    assert(names[5] == "x-amzn-trace-id"@);
    assert(names[6] == "traceparent"@);
    assert(names[7] == "tracestate"@);
    assert(names[8] == "baggage"@);
}

proof fn lemma_empty_headers(headers: Seq<HeaderView>, names: Seq<Seq<char>>)
    ensures
        first_empty_header(headers, names) is None <==> forall|i: int|
            0 <= i < names.len() ==> value_of(headers, #[trigger] names[i]) != Some(
                Seq::<u8>::empty(),
            ),
    decreases names.len(),
{
    if names.len() > 0 {
        let rest = names.drop_last();
        lemma_empty_headers(headers, rest);
        assert forall|i: int| 0 <= i < rest.len() implies #[trigger] rest[i] == names[i] by {}
        if first_empty_header(headers, names) is None {
            assert forall|i: int| 0 <= i < names.len() implies value_of(headers, #[trigger] names[i])
                != Some(Seq::<u8>::empty()) by {
                if i < rest.len() {
                    assert(rest[i] == names[i]);
                }
            }
        }
        if forall|i: int|
            0 <= i < names.len() ==> value_of(headers, #[trigger] names[i]) != Some(
                Seq::<u8>::empty(),
            ) {
            assert forall|i: int| 0 <= i < rest.len() implies value_of(headers, #[trigger] rest[i])
                != Some(Seq::<u8>::empty()) by {
                assert(rest[i] == names[i]);
            }
            assert(value_of(headers, names[names.len() - 1]) != Some(Seq::<u8>::empty()));
        }
    }
}

/// The session of a call is the one in its header, where that is proper. A call without one is
/// refused, unless it may start one.
pub proof fn law_sessions_of_calls(headers: Seq<HeaderView>, request_id: Seq<char>, id: Seq<char>)
    ensures
        ({
            let value = value_of(headers, "x-amzn-bedrock-agentcore-runtime-session-id"@);
            let may = session_id_of(headers, true, request_id);
            let must = session_id_of(headers, false, request_id);
            let is_named = value is Some && text_of(value->Some_0) == Some(id) && is_session_id(id);
            &&& is_named <==> may == Ok::<Option<Seq<char>>, RuntimeApiErrorView>(Some(id))
            &&& is_named <==> must == Ok::<Option<Seq<char>>, RuntimeApiErrorView>(Some(id))
            &&& value is None <==> may == Ok::<Option<Seq<char>>, RuntimeApiErrorView>(None)
            &&& value is None ==> must is Err
            &&& must != Ok::<Option<Seq<char>>, RuntimeApiErrorView>(None)
            &&& may matches Err(e) ==> e.status == 400 && e.request_id == request_id
            &&& must matches Err(e) ==> e.status == 400 && e.request_id == request_id
        }),
{
}

/// The runtime of a session is the one that it is pinned to, or else the one that the catalog has for
/// the caller.
pub proof fn law_runtimes_of_sessions(
    pins: Map<SessionKeyView, ResolvedRuntimeView>,
    catalog: RuntimeCatalogView,
    call: ApiCallView,
    session_id: Seq<char>,
)
    ensures
        ({
            let identity = identity_of(call.headers);
            let answer = session_runtime_of(pins, catalog, call, session_id);
            let pinned = pinned_for(
                pins,
                call.runtime_identifier,
                call.account_id,
                call.qualifier,
                session_id,
                identity->Ok_0,
            );
            let found = resolved(
                catalog,
                call.runtime_identifier,
                call.account_id,
                call.qualifier,
                identity->Ok_0,
            );
            &&& identity matches Err(message) ==> answer == Err::<
                ResolvedRuntimeView,
                RuntimeApiErrorView,
            >(denied_error(call.request_id, message))
            &&& identity is Ok && pinned is Some ==> answer == Ok::<
                ResolvedRuntimeView,
                RuntimeApiErrorView,
            >(pinned->Some_0)
            &&& identity is Ok && pinned is None && found is Ok ==> answer == Ok::<
                ResolvedRuntimeView,
                RuntimeApiErrorView,
            >(found->Ok_0)
            &&& identity is Ok && pinned is None && found is Err ==> answer == Err::<
                ResolvedRuntimeView,
                RuntimeApiErrorView,
            >(catalog_api_error(found->Err_0, call.request_id))
        }),
{
}

/// An invocation is admitted exactly where its headers are in order, its session is proper or not
/// named, and it means a runtime. It runs in the session that it names or in the fresh one, and its
/// body is passed on as it comes exactly where nothing about it is checked.
pub proof fn law_admitted_invocations(
    pins: Map<SessionKeyView, ResolvedRuntimeView>,
    catalog: RuntimeCatalogView,
    call: ApiCallView,
    fresh: Seq<char>,
)
    ensures
        ({
            let named = session_id_of(call.headers, true, call.request_id);
            let id = if named->Ok_0 is Some {
                named->Ok_0->Some_0
            } else {
                fresh
            };
            let answer = invocation_admitted(pins, catalog, call, fresh);
            let runtime = session_runtime_of(pins, catalog, call, id);
            &&& answer is Ok <==> headers_checked(call.headers, call.request_id) is Ok && named
                is Ok && runtime is Ok
            &&& answer matches Ok(admission) ==> {
                &&& admission.session_id == id
                &&& admission.runtime == runtime->Ok_0
                &&& admission.streaming <==> admission.runtime.authentication.mode
                    == AuthenticationMode::Permissive && value_of(call.headers, "authorization"@)
                    is None
            }
            &&& headers_checked(call.headers, call.request_id) is Ok && named is Ok && runtime
                is Err ==> answer == Err::<AdmissionView, RuntimeApiErrorView>(runtime->Err_0)
        }),
{
}

/// Any other call is admitted exactly where it names a proper session and means a runtime.
pub proof fn law_admitted_calls(
    pins: Map<SessionKeyView, ResolvedRuntimeView>,
    catalog: RuntimeCatalogView,
    call: ApiCallView,
)
    ensures
        ({
            let named = session_id_of(call.headers, false, call.request_id);
            let answer = session_call_admitted(pins, catalog, call);
            let runtime = session_runtime_of(pins, catalog, call, named->Ok_0->Some_0);
            &&& answer is Ok <==> named is Ok && runtime is Ok
            &&& answer matches Ok(admission) ==> admission.session_id == named->Ok_0->Some_0
                && admission.runtime == runtime->Ok_0 && !admission.streaming
        }),
{
}

/// A call is decided on as it came: its method, path, query, headers and body, what it asks for, and
/// the user that it names. Who is refused is told why.
pub proof fn law_authorized_calls(
    runtime: ResolvedRuntimeView,
    call: ApiCallView,
    body: Seq<u8>,
    action: RuntimeIamAction,
    now: Timestamp,
)
    ensures
        ({
            let user = value_of(call.headers, "x-amzn-bedrock-agentcore-runtime-user-id"@);
            let answer = call_authorized(runtime, call, body, action, now);
            let decision = authorized(
                runtime,
                AuthorizationRequestView {
                    method: call.method,
                    path: call.path,
                    query: call.query,
                    headers: call.headers,
                    body,
                    action,
                    runtime_user_id: if user is None {
                        None
                    } else {
                        text_of(user->Some_0)
                    },
                },
                now,
            );
            let is_text = user is Some ==> text_of(user->Some_0) is Some;
            &&& answer is Ok <==> is_text && decision is Ok
            &&& !is_text ==> answer is Err && answer->Err_0.status == 400
            &&& is_text && decision is Err ==> answer == Err::<(), RuntimeApiErrorView>(
                denied_error(call.request_id, decision->Err_0),
            )
        }),
{
}

/// A command is run exactly where the runtime has commands, there is one, and the time that is asked
/// for is from a second to an hour.
pub proof fn law_commands(
    runtime: ResolvedRuntimeView,
    command: Seq<char>,
    timeout: Option<u64>,
    request_id: Seq<char>,
)
    ensures
        commands_checked(runtime, request_id) is Ok <==> runtime.command.enabled,
        commands_checked(runtime, request_id) matches Err(e) ==> e.status == 400,
        command_checked(command, timeout, request_id) is Ok <==> command.len() > 0 && (timeout
            is None || 1 <= timeout->Some_0 <= 3600),
        command_checked(command, timeout, request_id) matches Err(e) ==> e.status == 400,
{
}

/// Only runtimes of one protocol have cards.
pub proof fn law_agent_cards(runtime: ResolvedRuntimeView, request_id: Seq<char>)
    ensures
        agent_card_checked(runtime, request_id) is Ok <==> runtime.protocol == Protocol::A2a,
        agent_card_checked(runtime, request_id) matches Err(e) ==> e.status == 424 && e.code
            == "agent_card_not_configured"@,
{
}

/// What is said of a body that is too large.
pub proof fn law_payload_names()
    ensures
        payload_name(PayloadKind::Invocation) == "payload exceeds "@,
        payload_name(PayloadKind::Command) == "command payload exceeds "@,
        payload_name(PayloadKind::Stop) == "stop payload exceeds "@,
{
}

/// The answer to a command is a stream of events; it names the session and the request.
pub proof fn law_command_answers(
    request: Seq<HeaderView>,
    session_id: Seq<char>,
    request_id: Seq<char>,
)
    ensures
        ({
            let answer = command_headers_of(request, session_id, request_id);
            &&& value_of(answer, "content-type"@) == Some(
                encode_utf8("application/vnd.amazon.eventstream"@),
            )
            &&& value_of(answer, "x-amzn-bedrock-agentcore-runtime-session-id"@) == Some(
                encode_utf8(session_id),
            )
            &&& value_of(answer, "x-amzn-requestid"@) == Some(encode_utf8(request_id))
        }),
{
    let answer = command_headers_of(request, session_id, request_id);
    let a = "content-type"@;
    let b = "x-amzn-bedrock-agentcore-runtime-session-id"@;
    let c = "x-amzn-requestid"@;
    lemma_names();
    assert(ascii_lower(a).len() == 12 && ascii_lower(b).len() == 43 && ascii_lower(c).len() == 16);
    crate::text_laws::law_first_header(answer, a, 0);
    crate::text_laws::law_first_header(answer, b, 1);
    crate::text_laws::law_first_header(answer, c, 2);
}

/// The answer to a stop names the session and the request.
pub proof fn law_stop_answers(session_id: Seq<char>, request_id: Seq<char>)
    ensures
        ({
            let answer = stop_headers_of(session_id, request_id);
            &&& answer.len() == 2
            &&& value_of(answer, "x-amzn-bedrock-agentcore-runtime-session-id"@) == Some(
                encode_utf8(session_id),
            )
            &&& value_of(answer, "x-amzn-requestid"@) == Some(encode_utf8(request_id))
        }),
{
    let answer = stop_headers_of(session_id, request_id);
    let b = "x-amzn-bedrock-agentcore-runtime-session-id"@;
    let c = "x-amzn-requestid"@;
    lemma_names();
    assert(ascii_lower(b).len() == 43 && ascii_lower(c).len() == 16);
    crate::text_laws::law_first_header(answer, c, 0);
    crate::text_laws::law_first_header(answer, b, 1);
}

} // verus!
