//! What holds of every request to the runtime API.

use vstd::prelude::*;
use vstd::utf8::{encode_utf8, is_ascii_chars, is_ascii_chars_encode_utf8};

use crate::auth::identity_of;
use crate::catalog::RuntimeCatalogView;
use crate::container::is_session_id;
use crate::container_laws::law_random_identifiers_are_session_ids;
use crate::edge::{
    agent_card_checked, call_authorized, command_checked, commands_checked, invocation_admitted,
    proxy_api_error, session_api_error, session_call_admitted, session_id_of, session_runtime_of,
    ApiCallView, RuntimeApiErrorView,
};
use crate::headers::{
    lemma_values_with_only, text_of, value_of, values_of, with_only, HeaderView,
};
use crate::pins::pinned_for;
use crate::policy::RuntimeIamAction;
use crate::primitives::{is_uuid_text, Timestamp};
use crate::config::{is_custom_header, is_reserved_header};
use crate::proxy::{
    forwarded_headers, inbound_headers_of, law_only_listed_headers_are_forwarded, lists_name,
    outbound_headers_of, target_path_of, ProxyErrorView, ProxyTarget, MCP_SESSION_ID_HEADER,
    RUNTIME_SESSION_ID_HEADER,
};
use crate::runtime::{AuthenticationMode, Protocol, ResolvedRuntimeView};
use crate::session::SessionErrorView;
use crate::session_map::SessionKeyView;
use crate::text::ascii_lower;

verus! {

/// A session that is pinned to a deployment is served by it, whatever has become of the catalog.
pub proof fn law_pinned_sessions_ignore_the_catalog(
    pins: Map<SessionKeyView, ResolvedRuntimeView>,
    before: RuntimeCatalogView,
    after: RuntimeCatalogView,
    call: ApiCallView,
    session_id: Seq<char>,
)
    requires
        identity_of(call.headers) is Ok,
        pinned_for(
            pins,
            call.runtime_identifier,
            call.account_id,
            call.qualifier,
            session_id,
            identity_of(call.headers)->Ok_0,
        ) is Some,
    ensures
        session_runtime_of(pins, before, call, session_id) is Ok,
        session_runtime_of(pins, before, call, session_id) == session_runtime_of(
            pins,
            after,
            call,
            session_id,
        ),
{
}

/// Every admitted request has a session with a valid identifier.
pub proof fn law_admitted_sessions_are_valid(
    pins: Map<SessionKeyView, ResolvedRuntimeView>,
    catalog: RuntimeCatalogView,
    call: ApiCallView,
    fresh: Seq<char>,
)
    requires
        is_uuid_text(fresh),
    ensures
        invocation_admitted(pins, catalog, call, fresh) matches Ok(admission) ==> is_session_id(
            admission.session_id,
        ),
        session_call_admitted(pins, catalog, call) matches Ok(admission) ==> is_session_id(
            admission.session_id,
        ),
{
    law_random_identifiers_are_session_ids(fresh);
}

/// A body is passed on while it arrives only where it plays no part in the authorization: asking
/// before it has arrived gives the answer that it would give whole.
pub proof fn law_streamed_bodies_are_not_signed(
    pins: Map<SessionKeyView, ResolvedRuntimeView>,
    catalog: RuntimeCatalogView,
    call: ApiCallView,
    fresh: Seq<char>,
    body: Seq<u8>,
    action: RuntimeIamAction,
    now: Timestamp,
)
    requires
        invocation_admitted(pins, catalog, call, fresh) is Ok,
        invocation_admitted(pins, catalog, call, fresh)->Ok_0.streaming,
    ensures
        ({
            let runtime = invocation_admitted(pins, catalog, call, fresh)->Ok_0.runtime;
            &&& runtime.authentication.mode == AuthenticationMode::Permissive
            &&& call_authorized(runtime, call, Seq::empty(), action, now) == call_authorized(
                runtime,
                call,
                body,
                action,
                now,
            )
        }),
{
}

/// A request that names the session in its header.
pub open spec fn naming_session(call: ApiCallView, session_id: Seq<char>) -> ApiCallView {
    ApiCallView {
        headers: with_only(call.headers, RUNTIME_SESSION_ID_HEADER@, encode_utf8(session_id)),
        ..call
    }
}

/// A session that was made for a request can be named by the requests that follow: they reach the
/// same session.
pub proof fn law_fresh_sessions_can_be_continued(
    call: ApiCallView,
    fresh: Seq<char>,
    optional: bool,
)
    requires
        is_uuid_text(fresh),
    ensures
        session_id_of(naming_session(call, fresh).headers, optional, call.request_id) == Ok::<
            Option<Seq<char>>,
            RuntimeApiErrorView,
        >(Some(fresh)),
{
    law_random_identifiers_are_session_ids(fresh);
    let bytes = encode_utf8(fresh);
    assert(is_ascii_chars(fresh)) by {
        assert forall|i: int| 0 <= i < fresh.len() implies '\0' <= #[trigger] fresh[i] <= '\u{7f}' by {
            assert(fresh[i] == fresh[i]);
        }
    }
    is_ascii_chars_encode_utf8(fresh);
    let headers = naming_session(call, fresh).headers;
    lemma_values_with_only(
        call.headers,
        RUNTIME_SESSION_ID_HEADER@,
        bytes,
        RUNTIME_SESSION_ID_HEADER@,
    );
    assert(values_of(headers, RUNTIME_SESSION_ID_HEADER@) == seq![bytes]);
    assert(value_of(headers, RUNTIME_SESSION_ID_HEADER@) == Some(bytes));
    assert forall|i: int| 0 <= i < bytes.len() implies crate::headers::is_text_byte(
        #[trigger] bytes[i],
    ) && bytes[i] as char == fresh[i] by {
        assert(crate::text::is_alnum(fresh[i]) || fresh[i] == '.' || fresh[i] == ':' || fresh[i]
            == '_' || fresh[i] == '-');
        assert(bytes[i] == fresh[i] as u8);
    }
    assert(bytes.map_values(|byte: u8| byte as char) =~= fresh);
    assert(text_of(bytes) == Some(fresh));
}

proof fn lemma_custom_headers_are_lower(name: Seq<char>)
    requires
        is_custom_header(name),
    ensures
        ascii_lower(name) == name,
{
    assert forall|i: int| 0 <= i < name.len() implies #[trigger] ascii_lower(name)[i] == name[i] by {
        assert(crate::text::is_lower(name[i]) || crate::text::is_digit(name[i]) || name[i] == '-');
    }
    assert(ascii_lower(name) =~= name);
}

proof fn lemma_forwarded_headers_are_not_reserved(name: Seq<char>)
    requires
        is_reserved_header(name),
        name != RUNTIME_SESSION_ID_HEADER@,
    ensures
        !lists_name(forwarded_headers(), name),
        name != ascii_lower(RUNTIME_SESSION_ID_HEADER@),
        name != ascii_lower(MCP_SESSION_ID_HEADER@),
{
    reveal_strlit("authorization");
    reveal_strlit("proxy-authorization");
    reveal_strlit("x-amz-date");
    reveal_strlit("x-amz-content-sha256");
    reveal_strlit("x-amz-security-token");
    reveal_strlit("host");
    reveal_strlit("connection");
    reveal_strlit("proxy-connection");
    reveal_strlit("keep-alive");
    reveal_strlit("transfer-encoding");
    reveal_strlit("te");
    reveal_strlit("trailer");
    reveal_strlit("upgrade");
    reveal_strlit("content-length");
    reveal_strlit("x-amzn-bedrock-agentcore-runtime-session-id");
    reveal_strlit("mcp-session-id");
    reveal_strlit("content-type");
    reveal_strlit("accept");
    reveal_strlit("x-amzn-bedrock-agentcore-runtime-user-id");
    reveal_strlit("mcp-protocol-version");
    reveal_strlit("x-amzn-trace-id");
    reveal_strlit("traceparent");
    reveal_strlit("tracestate");
    reveal_strlit("baggage");
    let names = forwarded_headers();
    assert(ascii_lower(MCP_SESSION_ID_HEADER@)[0] == 'm');
    assert(ascii_lower(RUNTIME_SESSION_ID_HEADER@).len() == RUNTIME_SESSION_ID_HEADER@.len());
    assert forall|i: int| 0 <= i < names.len() implies ascii_lower(#[trigger] names[i]) != name by {
        let lowered = ascii_lower(names[i]);
        assert(lowered.len() == names[i].len());
        assert(lowered[0] == crate::text::lower_char(names[i][0]));
    }
}

/// No container sees the credentials of a caller or what belongs to the connection alone, whatever
/// headers its runtime was allowed.
pub proof fn law_credentials_stay_with_the_gateway(
    headers: Seq<HeaderView>,
    protocol: Protocol,
    allowed: Seq<Seq<char>>,
    session_id: Seq<char>,
    name: Seq<char>,
    i: int,
)
    requires
        forall|k: int| 0 <= k < allowed.len() ==> is_custom_header(#[trigger] allowed[k]),
        outbound_headers_of(headers, protocol, allowed, session_id) is Ok,
        0 <= i < outbound_headers_of(headers, protocol, allowed, session_id)->Ok_0.len(),
        is_reserved_header(name),
        name != RUNTIME_SESSION_ID_HEADER@,
    ensures
        outbound_headers_of(headers, protocol, allowed, session_id)->Ok_0[i].name != name,
{
    law_only_listed_headers_are_forwarded(headers, protocol, allowed, session_id, i);
    lemma_forwarded_headers_are_not_reserved(name);
    if lists_name(allowed, name) {
        let k = choose|k: int|
            0 <= k < allowed.len() && ascii_lower(#[trigger] allowed[k]) == name;
        lemma_custom_headers_are_lower(allowed[k]);
    }
}

/// An answer that a container gave names the session that it belongs to, so that the caller can go
/// on with it.
pub proof fn law_answers_name_the_session(
    request: Seq<HeaderView>,
    answer: Seq<HeaderView>,
    protocol: Protocol,
    allowed: Seq<Seq<char>>,
    session_id: Seq<char>,
)
    ensures
        value_of(
            inbound_headers_of(request, answer, protocol, allowed, session_id),
            RUNTIME_SESSION_ID_HEADER@,
        ) == Some(encode_utf8(session_id)),
{
    reveal_strlit("x-amzn-bedrock-agentcore-runtime-session-id");
    reveal_strlit("content-type");
    let all = inbound_headers_of(request, answer, protocol, allowed, session_id);
    let first = all[0];
    let second = all[1];
    assert(first.name == ascii_lower("content-type"@));
    assert(first.name.len() != ascii_lower(RUNTIME_SESSION_ID_HEADER@).len());
    assert(second == (HeaderView {
        name: ascii_lower(RUNTIME_SESSION_ID_HEADER@),
        value: encode_utf8(session_id),
    }));
    let two = all.take(2);
    assert(two.drop_last().drop_last() =~= Seq::<HeaderView>::empty());
    assert(two.last() == second && two.drop_last().last() == first);
    reveal_with_fuel(values_of, 3);
    assert(values_of(two, RUNTIME_SESSION_ID_HEADER@) =~= seq![encode_utf8(session_id)]);
    lemma_values_keep_their_start(all, 2, RUNTIME_SESSION_ID_HEADER@);
    let found = values_of(all, RUNTIME_SESSION_ID_HEADER@);
    assert(values_of(two, RUNTIME_SESSION_ID_HEADER@)[0] == found[0]);
}

proof fn lemma_values_keep_their_start(headers: Seq<HeaderView>, n: int, name: Seq<char>)
    requires
        0 <= n <= headers.len(),
    ensures
        values_of(headers.take(n), name).is_prefix_of(values_of(headers, name)),
    decreases headers.len() - n,
{
    if n < headers.len() {
        assert(headers.take(n + 1).drop_last() =~= headers.take(n));
        lemma_values_keep_their_start(headers, n + 1, name);
    } else {
        assert(headers.take(n) =~= headers);
    }
}

/// Whether a refusal is of one of the kinds that callers know, under the status of its kind.
pub open spec fn is_modeled(error: RuntimeApiErrorView) -> bool {
    ||| error.status == 400 && error.error_type == "ValidationException"@
    ||| error.status == 403 && error.error_type == "AccessDeniedException"@
    ||| error.status == 404 && error.error_type == "ResourceNotFoundException"@
    ||| error.status == 409 && error.error_type == "RetryableConflictException"@
    ||| error.status == 424 && error.error_type == "RuntimeClientError"@
    ||| error.status == 500 && error.error_type == "InternalServerException"@
}

/// A refusal of a kind that callers know, which names the request that it answers.
pub open spec fn answers(error: RuntimeApiErrorView, request_id: Seq<char>) -> bool {
    is_modeled(error) && error.request_id == request_id
}

/// Every refusal is of a kind that callers know and names the request that it answers.
pub proof fn law_refusals_are_modeled(
    pins: Map<SessionKeyView, ResolvedRuntimeView>,
    catalog: RuntimeCatalogView,
    runtime: ResolvedRuntimeView,
    call: ApiCallView,
    fresh: Seq<char>,
    body: Seq<u8>,
    action: RuntimeIamAction,
    now: Timestamp,
    command: Seq<char>,
    timeout: Option<u64>,
    proxy_error: ProxyErrorView,
    session_error: SessionErrorView,
)
    ensures
        invocation_admitted(pins, catalog, call, fresh) matches Err(error) ==> answers(
            error,
            call.request_id,
        ),
        session_call_admitted(pins, catalog, call) matches Err(error) ==> answers(
            error,
            call.request_id,
        ),
        call_authorized(runtime, call, body, action, now) matches Err(error) ==> answers(
            error,
            call.request_id,
        ),
        commands_checked(runtime, call.request_id) matches Err(error) ==> answers(
            error,
            call.request_id,
        ),
        command_checked(command, timeout, call.request_id) matches Err(error) ==> answers(
            error,
            call.request_id,
        ),
        agent_card_checked(runtime, call.request_id) matches Err(error) ==> answers(
            error,
            call.request_id,
        ),
        answers(proxy_api_error(proxy_error, call.request_id), call.request_id),
        answers(session_api_error(session_error, call.request_id), call.request_id),
{
}

/// An agent card is served exactly by the runtimes that have one, and those can be asked for it.
pub proof fn law_agent_cards_are_served_where_they_exist(
    runtime: ResolvedRuntimeView,
    request_id: Seq<char>,
)
    ensures
        agent_card_checked(runtime, request_id) is Ok <==> runtime.protocol == Protocol::A2a,
        agent_card_checked(runtime, request_id) is Ok <==> target_path_of(
            ProxyTarget::AgentCard,
            runtime.protocol,
        ) is Ok,
{
}

} // verus!
