//! What holds of every request that goes to a container and of every answer that comes back.

use vstd::prelude::*;
use vstd::utf8::encode_utf8;

use crate::headers::{
    all_copied, copied, firsts_copied, is_header_name, is_header_value, lemma_values_with_only,
    value_of, values_of, with_only, HeaderView,
};
use crate::proxy::{
    first_invalid_name, forward_plan_of, forward_step_of, forwarded_headers, inbound_headers_of,
    lists_name, mcp_session_of, outbound_headers_of, trace_headers, BodyMeter, ForwardPlanView,
    ForwardStepView, ProxyErrorView, ProxyTarget, ReadEventView, RelayStepView, RequestEventView,
    SendEndView, StreamFaultView,
};
use crate::runtime::{Protocol, ResolvedRuntimeView};
use crate::text::{ascii_lower, without_trailing};

verus! {

// Requests.

proof fn lemma_values_joined(a: Seq<HeaderView>, b: Seq<HeaderView>, name: Seq<char>)
    ensures
        values_of(a + b, name) == values_of(a, name) + values_of(b, name),
    decreases b.len(),
{
    if b.len() == 0 {
        assert(a + b =~= a);
        assert(values_of(a, name) + values_of(b, name) =~= values_of(a, name));
    } else {
        let rest = b.drop_last();
        assert((a + b).drop_last() =~= a + rest);
        lemma_values_joined(a, rest, name);
        assert(values_of(a + b, name) =~= values_of(a, name) + values_of(b, name));
    }
}

proof fn lemma_values_of_one_name(headers: Seq<HeaderView>, a: Seq<char>, b: Seq<char>)
    requires
        ascii_lower(a) == ascii_lower(b),
    ensures
        values_of(headers, a) == values_of(headers, b),
    decreases headers.len(),
{
    if headers.len() > 0 {
        lemma_values_of_one_name(headers.drop_last(), a, b);
    }
}

proof fn lemma_values_under(values: Seq<Seq<u8>>, under: Seq<char>, name: Seq<char>)
    ensures
        values_of(
            values.map_values(|value: Seq<u8>| HeaderView { name: ascii_lower(under), value }),
            name,
        ) == if ascii_lower(under) == ascii_lower(name) {
            values
        } else {
            Seq::<Seq<u8>>::empty()
        },
    decreases values.len(),
{
    let lines = values.map_values(
        |value: Seq<u8>| HeaderView { name: ascii_lower(under), value },
    );
    if values.len() == 0 {
        assert(values =~= Seq::<Seq<u8>>::empty());
    } else {
        let rest = values.drop_last();
        assert(lines.drop_last() =~= rest.map_values(
            |value: Seq<u8>| HeaderView { name: ascii_lower(under), value },
        ));
        lemma_values_under(rest, under, name);
        assert(rest.push(values.last()) =~= values);
    }
}

/// No two of these names can be the same, whatever their case.
spec fn all_lengths_differ(names: Seq<Seq<char>>) -> bool {
    forall|i: int, j: int|
        0 <= i < j < names.len() ==> (#[trigger] names[i]).len() != (#[trigger] names[j]).len()
}

proof fn lemma_values_copied(source: Seq<HeaderView>, names: Seq<Seq<char>>, name: Seq<char>)
    ensures
        ({
            let found = values_of(all_copied(source, names), name);
            &&& !lists_name(names, ascii_lower(name)) ==> found.len() == 0
            &&& values_of(source, name).len() == 0 ==> found.len() == 0
            &&& lists_name(names, ascii_lower(name)) ==> values_of(source, name).is_prefix_of(found)
            &&& all_lengths_differ(names) && lists_name(names, ascii_lower(name)) ==> found
                == values_of(source, name)
        }),
    decreases names.len(),
{
    let wanted = values_of(source, name);
    if names.len() > 0 {
        let rest = names.drop_last();
        let last = names.last();
        lemma_values_copied(source, rest, name);
        lemma_values_joined(all_copied(source, rest), copied(source, last), name);
        lemma_values_under(values_of(source, last), last, name);
        let before = values_of(all_copied(source, rest), name);
        let found = values_of(all_copied(source, names), name);
        if ascii_lower(last) == ascii_lower(name) {
            lemma_values_of_one_name(source, last, name);
            assert(names[names.len() - 1] == last);
            if all_lengths_differ(names) {
                if lists_name(rest, ascii_lower(name)) {
                    let k = choose|k: int|
                        0 <= k < rest.len() && ascii_lower(#[trigger] rest[k]) == ascii_lower(name);
                    assert(names[k] == rest[k]);
                    assert(ascii_lower(names[k]).len() == names[k].len());
                    assert(ascii_lower(last).len() == last.len());
                }
                assert(before =~= Seq::empty());
            }
            assert(found == before + wanted);
            if before.len() == 0 {
                assert(found =~= wanted);
            }
        } else {
            assert(found =~= before);
            if lists_name(names, ascii_lower(name)) {
                let k = choose|k: int|
                    0 <= k < names.len() && ascii_lower(#[trigger] names[k]) == ascii_lower(name);
                assert(rest[k] == names[k]);
            }
            if lists_name(rest, ascii_lower(name)) {
                let k = choose|k: int|
                    0 <= k < rest.len() && ascii_lower(#[trigger] rest[k]) == ascii_lower(name);
                assert(names[k] == rest[k]);
            }
            if all_lengths_differ(names) {
                assert forall|i: int, j: int| 0 <= i < j < rest.len() implies (
                #[trigger] rest[i]).len() != (#[trigger] rest[j]).len() by {
                    assert(names[i] == rest[i] && names[j] == rest[j]);
                }
            }
        }
    }
}

/// Whether a name is one of those under which every container gets what the request has.
pub open spec fn is_passed_on(name: Seq<char>) -> bool {
    ||| name == "content-type"@
    ||| name == "accept"@
    ||| name == "x-amzn-bedrock-agentcore-runtime-user-id"@
    ||| name == "mcp-protocol-version"@
    ||| name == "x-amzn-trace-id"@
    ||| name == "traceparent"@
    ||| name == "tracestate"@
    ||| name == "baggage"@
}

proof fn lemma_forwarded_lengths()
    ensures
        all_lengths_differ(forwarded_headers()),
        forwarded_headers().len() == 8,
        forall|i: int|
            0 <= i < 8 ==> (#[trigger] forwarded_headers()[i]).len() != 43
                && forwarded_headers()[i].len() != 14,
{
    reveal_strlit("content-type");
    reveal_strlit("accept");
    reveal_strlit("x-amzn-bedrock-agentcore-runtime-user-id");
    reveal_strlit("mcp-protocol-version");
    reveal_strlit("x-amzn-trace-id");
    reveal_strlit("traceparent");
    reveal_strlit("tracestate");
    reveal_strlit("baggage");
    assert("content-type"@.len() == 12);
    assert("accept"@.len() == 6);
    assert("x-amzn-bedrock-agentcore-runtime-user-id"@.len() == 40);
    assert("mcp-protocol-version"@.len() == 20);
    assert("x-amzn-trace-id"@.len() == 15);
    assert("traceparent"@.len() == 11);
    assert("tracestate"@.len() == 10);
    assert("baggage"@.len() == 7);
}

proof fn lemma_session_lengths()
    ensures
        "x-amzn-bedrock-agentcore-runtime-session-id"@.len() == 43,
        "mcp-session-id"@.len() == 14,
{
    reveal_strlit("x-amzn-bedrock-agentcore-runtime-session-id");
    reveal_strlit("mcp-session-id");
    assert("x-amzn-bedrock-agentcore-runtime-session-id"@.len() == 43);
    assert("mcp-session-id"@.len() == 14);
}

proof fn lemma_outbound(
    headers: Seq<HeaderView>,
    protocol: Protocol,
    allowed: Seq<Seq<char>>,
    session_id: Seq<char>,
    name: Seq<char>,
)
    requires
        outbound_headers_of(headers, protocol, allowed, session_id) is Ok,
        ascii_lower(name) != ascii_lower("x-amzn-bedrock-agentcore-runtime-session-id"@),
        protocol == Protocol::Mcp ==> ascii_lower(name) != ascii_lower("mcp-session-id"@),
    ensures
        values_of(outbound_headers_of(headers, protocol, allowed, session_id)->Ok_0, name)
            == values_of(all_copied(headers, forwarded_headers()), name) + values_of(
            all_copied(headers, allowed),
            name,
        ),
{
    let base = all_copied(headers, forwarded_headers()) + all_copied(headers, allowed);
    let session = "x-amzn-bedrock-agentcore-runtime-session-id"@;
    let named = with_only(base, session, encode_utf8(session_id));
    lemma_values_joined(
        all_copied(headers, forwarded_headers()),
        all_copied(headers, allowed),
        name,
    );
    lemma_values_with_only(base, session, encode_utf8(session_id), name);
    if let Some(value) = mcp_session_of(headers, protocol) {
        lemma_values_with_only(named, "mcp-session-id"@, value, name);
    }
}

/// What a request says of its content, of what it accepts, of its user, of the protocol's version
/// and of its trace reaches the container: under each of these names the container gets what the
/// request has, all of it and in its order, and nothing more unless the runtime allows the name once
/// again.
pub proof fn law_every_container_gets_these_headers(
    headers: Seq<HeaderView>,
    protocol: Protocol,
    allowed: Seq<Seq<char>>,
    session_id: Seq<char>,
    name: Seq<char>,
)
    requires
        outbound_headers_of(headers, protocol, allowed, session_id) is Ok,
        is_passed_on(name),
    ensures
        ({
            let sent = values_of(
                outbound_headers_of(headers, protocol, allowed, session_id)->Ok_0,
                name,
            );
            &&& values_of(headers, name).is_prefix_of(sent)
            &&& values_of(headers, name).len() == 0 ==> sent.len() == 0
            &&& !lists_name(allowed, ascii_lower(name)) ==> sent == values_of(headers, name)
        }),
{
    lemma_forwarded_lengths();
    lemma_session_lengths();
    let all = forwarded_headers();
    assert(all[0] == "content-type"@);
    assert(all[1] == "accept"@);
    assert(all[2] == "x-amzn-bedrock-agentcore-runtime-user-id"@);
    assert(all[3] == "mcp-protocol-version"@);
    assert(all[4] == "x-amzn-trace-id"@);
    assert(all[5] == "traceparent"@);
    assert(all[6] == "tracestate"@);
    assert(all[7] == "baggage"@);
    let k = choose|k: int| 0 <= k < 8 && #[trigger] all[k] == name;
    assert(ascii_lower(all[k]) == ascii_lower(name));
    assert(lists_name(all, ascii_lower(name)));
    assert(ascii_lower(name).len() == name.len());
    assert(ascii_lower("x-amzn-bedrock-agentcore-runtime-session-id"@).len() == 43);
    assert(ascii_lower("mcp-session-id"@).len() == 14);
    lemma_outbound(headers, protocol, allowed, session_id, name);
    lemma_values_copied(headers, all, name);
    lemma_values_copied(headers, allowed, name);
    let sent = values_of(
        outbound_headers_of(headers, protocol, allowed, session_id)->Ok_0,
        name,
    );
    if !lists_name(allowed, ascii_lower(name)) {
        assert(sent =~= values_of(headers, name));
    }
}

/// What a runtime allows reaches its container: under each allowed name the container gets what the
/// request has, all of it and in its order, and nothing where it has nothing. The sessions are not
/// the request's to set.
pub proof fn law_allowed_headers_are_forwarded(
    headers: Seq<HeaderView>,
    protocol: Protocol,
    allowed: Seq<Seq<char>>,
    session_id: Seq<char>,
    k: int,
)
    requires
        outbound_headers_of(headers, protocol, allowed, session_id) is Ok,
        0 <= k < allowed.len(),
        ascii_lower(allowed[k]) != ascii_lower("x-amzn-bedrock-agentcore-runtime-session-id"@),
        protocol == Protocol::Mcp ==> ascii_lower(allowed[k]) != ascii_lower("mcp-session-id"@),
    ensures
        ({
            let sent = values_of(
                outbound_headers_of(headers, protocol, allowed, session_id)->Ok_0,
                allowed[k],
            );
            &&& values_of(headers, allowed[k]).is_prefix_of(sent)
            &&& values_of(headers, allowed[k]).len() == 0 ==> sent.len() == 0
        }),
{
    let name = allowed[k];
    lemma_outbound(headers, protocol, allowed, session_id, name);
    lemma_values_copied(headers, forwarded_headers(), name);
    lemma_values_copied(headers, allowed, name);
    assert(lists_name(allowed, ascii_lower(name)));
    let first = values_of(all_copied(headers, forwarded_headers()), name);
    let second = values_of(all_copied(headers, allowed), name);
    if first.len() == 0 {
        assert(first + second =~= second);
    } else {
        assert(lists_name(forwarded_headers(), ascii_lower(name)));
        assert(first.is_prefix_of(first + second));
        let wanted = values_of(headers, name);
        assert((first + second).take(wanted.len() as int) =~= first.take(wanted.len() as int));
    }
}

/// Under any other name a container gets nothing of the request.
pub proof fn law_other_headers_are_held_back(
    headers: Seq<HeaderView>,
    protocol: Protocol,
    allowed: Seq<Seq<char>>,
    session_id: Seq<char>,
    name: Seq<char>,
)
    requires
        outbound_headers_of(headers, protocol, allowed, session_id) is Ok,
        ascii_lower(name) != ascii_lower("content-type"@),
        ascii_lower(name) != ascii_lower("accept"@),
        ascii_lower(name) != ascii_lower("x-amzn-bedrock-agentcore-runtime-user-id"@),
        ascii_lower(name) != ascii_lower("mcp-protocol-version"@),
        ascii_lower(name) != ascii_lower("x-amzn-trace-id"@),
        ascii_lower(name) != ascii_lower("traceparent"@),
        ascii_lower(name) != ascii_lower("tracestate"@),
        ascii_lower(name) != ascii_lower("baggage"@),
        ascii_lower(name) != ascii_lower("x-amzn-bedrock-agentcore-runtime-session-id"@),
        protocol == Protocol::Mcp ==> ascii_lower(name) != ascii_lower("mcp-session-id"@),
        forall|i: int|
            0 <= i < allowed.len() ==> ascii_lower(#[trigger] allowed[i]) != ascii_lower(name),
    ensures
        values_of(outbound_headers_of(headers, protocol, allowed, session_id)->Ok_0, name).len()
            == 0,
{
    lemma_outbound(headers, protocol, allowed, session_id, name);
    lemma_values_copied(headers, forwarded_headers(), name);
    lemma_values_copied(headers, allowed, name);
}

/// A container that speaks MCP sees the first MCP session that the request names, and that one
/// alone; any other sees none, unless its runtime allows the header.
pub proof fn law_mcp_sessions_are_forwarded(
    headers: Seq<HeaderView>,
    protocol: Protocol,
    allowed: Seq<Seq<char>>,
    session_id: Seq<char>,
)
    requires
        outbound_headers_of(headers, protocol, allowed, session_id) is Ok,
    ensures
        ({
            let named = values_of(headers, "mcp-session-id"@);
            let sent = values_of(
                outbound_headers_of(headers, protocol, allowed, session_id)->Ok_0,
                "mcp-session-id"@,
            );
            &&& protocol == Protocol::Mcp && named.len() > 0 ==> sent == seq![named[0]]
            &&& protocol == Protocol::Mcp && named.len() == 0 ==> sent.len() == 0
            &&& protocol != Protocol::Mcp && (forall|i: int|
                0 <= i < allowed.len() ==> ascii_lower(#[trigger] allowed[i]) != ascii_lower(
                    "mcp-session-id"@,
                )) ==> sent.len() == 0
        }),
{
    let name = "mcp-session-id"@;
    lemma_session_lengths();
    lemma_forwarded_lengths();
    assert(ascii_lower("x-amzn-bedrock-agentcore-runtime-session-id"@).len() == 43);
    assert(ascii_lower(name).len() == 14);
    assert(!lists_name(forwarded_headers(), ascii_lower(name))) by {
        if lists_name(forwarded_headers(), ascii_lower(name)) {
            let k = choose|k: int|
                0 <= k < 8 && ascii_lower(#[trigger] forwarded_headers()[k]) == ascii_lower(name);
            assert(ascii_lower(forwarded_headers()[k]).len() == forwarded_headers()[k].len());
        }
    }
    lemma_values_copied(headers, forwarded_headers(), name);
    lemma_values_copied(headers, allowed, name);
    let base = all_copied(headers, forwarded_headers()) + all_copied(headers, allowed);
    let session = "x-amzn-bedrock-agentcore-runtime-session-id"@;
    let named = with_only(base, session, encode_utf8(session_id));
    lemma_values_joined(
        all_copied(headers, forwarded_headers()),
        all_copied(headers, allowed),
        name,
    );
    lemma_values_with_only(base, session, encode_utf8(session_id), name);
    if let Some(value) = mcp_session_of(headers, protocol) {
        lemma_values_with_only(named, name, value, name);
    }
}

/// A request is handed on exactly where every allowed name can name a header and the session can
/// stand in one.
pub proof fn law_requests_that_are_handed_on(
    headers: Seq<HeaderView>,
    protocol: Protocol,
    allowed: Seq<Seq<char>>,
    session_id: Seq<char>,
)
    ensures
        ({
            let outbound = outbound_headers_of(headers, protocol, allowed, session_id);
            &&& outbound is Ok <==> is_header_value(session_id) && forall|i: int|
                0 <= i < allowed.len() ==> is_header_name(#[trigger] allowed[i])
            &&& outbound is Err ==> outbound->Err_0 is InvalidHeader
            &&& (!is_header_value(session_id) && forall|i: int|
                0 <= i < allowed.len() ==> is_header_name(#[trigger] allowed[i])) ==> outbound
                == Err::<Seq<HeaderView>, ProxyErrorView>(
                ProxyErrorView::InvalidHeader("x-amzn-bedrock-agentcore-runtime-session-id"@),
            )
        }),
{
    lemma_invalid_names(allowed);
}

proof fn lemma_invalid_names(names: Seq<Seq<char>>)
    ensures
        first_invalid_name(names) is None <==> forall|i: int|
            0 <= i < names.len() ==> is_header_name(#[trigger] names[i]),
    decreases names.len(),
{
    if names.len() > 0 {
        let rest = names.drop_last();
        lemma_invalid_names(rest);
        if first_invalid_name(names) is None {
            assert forall|i: int| 0 <= i < names.len() implies is_header_name(
                #[trigger] names[i],
            ) by {
                if i < rest.len() {
                    assert(rest[i] == names[i]);
                }
            }
        }
        if forall|i: int| 0 <= i < names.len() ==> is_header_name(#[trigger] names[i]) {
            assert forall|i: int| 0 <= i < rest.len() implies is_header_name(
                #[trigger] rest[i],
            ) by {
                assert(rest[i] == names[i]);
            }
            assert(is_header_name(names[names.len() - 1]));
        }
    }
}

/// An invocation is posted with its body to the path of the protocol, behind the endpoint without
/// its slashes; an agent card is fetched, of the one protocol that has cards.
pub proof fn law_forward_plans(
    runtime: ResolvedRuntimeView,
    host: Seq<char>,
    slashes: Seq<char>,
    headers: Seq<HeaderView>,
    session_id: Seq<char>,
)
    requires
        host.len() > 0 && host.last() != '/',
        forall|i: int| 0 <= i < slashes.len() ==> #[trigger] slashes[i] == '/',
    ensures
        ({
            let call = forward_plan_of(
                runtime,
                ProxyTarget::Invocation,
                host + slashes,
                headers,
                session_id,
            );
            let card = forward_plan_of(
                runtime,
                ProxyTarget::AgentCard,
                host + slashes,
                headers,
                session_id,
            );
            let outbound = outbound_headers_of(
                headers,
                runtime.protocol,
                runtime.allowed_custom_headers,
                session_id,
            );
            let path = match runtime.protocol {
                Protocol::Http => "/invocations"@,
                Protocol::AgUi => "/invocations"@,
                Protocol::Mcp => "/mcp"@,
                Protocol::A2a => "/"@,
            };
            &&& outbound matches Err(error) ==> call == Err::<ForwardPlanView, ProxyErrorView>(
                error,
            )
            &&& outbound matches Ok(sent) ==> call == Ok::<ForwardPlanView, ProxyErrorView>(
                ForwardPlanView {
                    method: "POST"@,
                    url: host + path,
                    headers: sent,
                    with_body: true,
                },
            )
            &&& runtime.protocol != Protocol::A2a ==> card == Err::<ForwardPlanView, ProxyErrorView>(
                ProxyErrorView::AgentCardNotConfigured,
            )
            &&& runtime.protocol == Protocol::A2a && outbound is Ok ==> card == Ok::<
                ForwardPlanView,
                ProxyErrorView,
            >(
                ForwardPlanView {
                    method: "GET"@,
                    url: host + "/.well-known/agent-card.json"@,
                    headers: outbound->Ok_0,
                    with_body: false,
                },
            )
        }),
{
    lemma_slashes_go(host, slashes);
}

proof fn lemma_slashes_go(host: Seq<char>, slashes: Seq<char>)
    requires
        host.len() > 0 && host.last() != '/',
        forall|i: int| 0 <= i < slashes.len() ==> #[trigger] slashes[i] == '/',
    ensures
        without_trailing(host + slashes, '/') == host,
    decreases slashes.len(),
{
    if slashes.len() == 0 {
        assert(host + slashes =~= host);
    } else {
        assert((host + slashes).drop_last() =~= host + slashes.drop_last());
        assert((host + slashes).last() == slashes[slashes.len() - 1]);
        lemma_slashes_go(host, slashes.drop_last());
    }
}

// Answers.

proof fn lemma_firsts(source: Seq<HeaderView>, names: Seq<Seq<char>>, name: Seq<char>)
    ensures
        ({
            let found = values_of(firsts_copied(source, names), name);
            &&& !lists_name(names, ascii_lower(name)) ==> found.len() == 0
            &&& value_of(source, name) is None ==> found.len() == 0
            &&& lists_name(names, ascii_lower(name)) && value_of(source, name) is Some ==> found.len()
                > 0 && found[0] == value_of(source, name)->Some_0
            &&& all_lengths_differ(names) ==> found.len() <= 1
        }),
    decreases names.len(),
{
    if names.len() > 0 {
        let rest = names.drop_last();
        let last = names.last();
        lemma_firsts(source, rest, name);
        let before = firsts_copied(source, rest);
        let lines = firsts_copied(source, names);
        if value_of(source, last) is Some {
            assert(lines.drop_last() =~= before);
        }
        if lists_name(rest, ascii_lower(name)) {
            let k = choose|k: int|
                0 <= k < rest.len() && ascii_lower(#[trigger] rest[k]) == ascii_lower(name);
            assert(names[k] == rest[k]);
            assert(ascii_lower(names[k]).len() == names[k].len());
            assert(ascii_lower(last).len() == last.len());
        }
        if ascii_lower(last) == ascii_lower(name) {
            lemma_values_of_one_name(source, last, name);
            assert(names[names.len() - 1] == last);
        } else if lists_name(names, ascii_lower(name)) {
            let k = choose|k: int|
                0 <= k < names.len() && ascii_lower(#[trigger] names[k]) == ascii_lower(name);
            assert(rest[k] == names[k]);
        }
        if all_lengths_differ(names) {
            assert forall|i: int, j: int| 0 <= i < j < rest.len() implies (#[trigger] rest[i]).len()
                != (#[trigger] rest[j]).len() by {
                assert(names[i] == rest[i] && names[j] == rest[j]);
            }
        }
    }
}

/// The headers at the front of an answer that is passed on.
spec fn front_of(
    request: Seq<HeaderView>,
    answer: Seq<HeaderView>,
    protocol: Protocol,
    session_id: Seq<char>,
) -> Seq<HeaderView> {
    let content_type = match value_of(answer, "content-type"@) {
        Some(value) => value,
        None => encode_utf8("application/octet-stream"@),
    };
    let start = seq![
        HeaderView { name: ascii_lower("content-type"@), value: content_type },
        HeaderView {
            name: ascii_lower("x-amzn-bedrock-agentcore-runtime-session-id"@),
            value: encode_utf8(session_id),
        },
    ];
    let session = HeaderView { name: ascii_lower("mcp-session-id"@), value: Seq::empty() };
    match value_of(answer, "mcp-session-id"@) {
        Some(value) => start.push(HeaderView { value, ..session }),
        None => match value_of(request, "mcp-session-id"@) {
            Some(value) if protocol == Protocol::Mcp => start.push(HeaderView { value, ..session }),
            _ => start,
        },
    }
}

/// An answer that is passed on says what its content is, `application/octet-stream` where the
/// container does not say, and which session it is of. It names the MCP session that the container
/// answered with or else, from a container that speaks MCP, the one of the request.
pub proof fn law_answers_name_content_and_sessions(
    request: Seq<HeaderView>,
    answer: Seq<HeaderView>,
    protocol: Protocol,
    allowed: Seq<Seq<char>>,
    session_id: Seq<char>,
)
    ensures
        ({
            let passed = inbound_headers_of(request, answer, protocol, allowed, session_id);
            let mcp = "mcp-session-id"@;
            &&& value_of(answer, "content-type"@) is Some ==> value_of(passed, "content-type"@)
                == value_of(answer, "content-type"@)
            &&& value_of(answer, "content-type"@) is None ==> value_of(passed, "content-type"@)
                == Some(encode_utf8("application/octet-stream"@))
            &&& value_of(passed, "x-amzn-bedrock-agentcore-runtime-session-id"@) == Some(
                encode_utf8(session_id),
            )
            &&& value_of(answer, mcp) is Some ==> value_of(passed, mcp) == value_of(answer, mcp)
            &&& value_of(answer, mcp) is None && protocol == Protocol::Mcp ==> value_of(passed, mcp)
                == value_of(request, mcp)
            &&& value_of(answer, mcp) is None && protocol != Protocol::Mcp ==> value_of(passed, mcp)
                is None
        }),
{
    let a = "content-type"@;
    let b = "x-amzn-bedrock-agentcore-runtime-session-id"@;
    let c = "mcp-session-id"@;
    lemma_front(request, answer, protocol, allowed, session_id, a);
    lemma_front(request, answer, protocol, allowed, session_id, b);
    lemma_front(request, answer, protocol, allowed, session_id, c);
    lemma_front_values(request, answer, protocol, session_id);
    lemma_firsts(answer, trace_headers(), c);
    lemma_firsts(answer, allowed, c);
}

proof fn lemma_front(
    request: Seq<HeaderView>,
    answer: Seq<HeaderView>,
    protocol: Protocol,
    allowed: Seq<Seq<char>>,
    session_id: Seq<char>,
    name: Seq<char>,
)
    ensures
        values_of(inbound_headers_of(request, answer, protocol, allowed, session_id), name)
            == values_of(front_of(request, answer, protocol, session_id), name) + values_of(
            firsts_copied(answer, trace_headers()),
            name,
        ) + values_of(firsts_copied(answer, allowed), name),
{
    let front = front_of(request, answer, protocol, session_id);
    let traces = firsts_copied(answer, trace_headers());
    let custom = firsts_copied(answer, allowed);
    assert(inbound_headers_of(request, answer, protocol, allowed, session_id) =~= front + traces
        + custom);
    lemma_values_joined(front + traces, custom, name);
    lemma_values_joined(front, traces, name);
}

proof fn lemma_front_values(
    request: Seq<HeaderView>,
    answer: Seq<HeaderView>,
    protocol: Protocol,
    session_id: Seq<char>,
)
    ensures
        ({
            let front = front_of(request, answer, protocol, session_id);
            let mcp = match value_of(answer, "mcp-session-id"@) {
                Some(value) => seq![value],
                None => match value_of(request, "mcp-session-id"@) {
                    Some(value) if protocol == Protocol::Mcp => seq![value],
                    _ => Seq::empty(),
                },
            };
            &&& values_of(front, "content-type"@) == seq![
                match value_of(answer, "content-type"@) {
                    Some(value) => value,
                    None => encode_utf8("application/octet-stream"@),
                },
            ]
            &&& values_of(front, "x-amzn-bedrock-agentcore-runtime-session-id"@) == seq![
                encode_utf8(session_id),
            ]
            &&& values_of(front, "mcp-session-id"@) == mcp
            &&& forall|name: Seq<char>|
                ascii_lower(name) != ascii_lower("content-type"@) && ascii_lower(name)
                    != ascii_lower("x-amzn-bedrock-agentcore-runtime-session-id"@) && ascii_lower(
                    name,
                ) != ascii_lower("mcp-session-id"@) ==> (#[trigger] values_of(front, name)).len()
                    == 0
        }),
{
    let front = front_of(request, answer, protocol, session_id);
    let a = "content-type"@;
    let b = "x-amzn-bedrock-agentcore-runtime-session-id"@;
    let c = "mcp-session-id"@;
    lemma_session_lengths();
    reveal_strlit("content-type");
    assert(a.len() == 12);
    assert(ascii_lower(a).len() == 12 && ascii_lower(b).len() == 43 && ascii_lower(c).len() == 14);
    let one = front.take(1);
    let two = front.take(2);
    let none = Seq::<HeaderView>::empty();
    assert(one =~= none.push(front[0]));
    assert(two =~= one.push(front[1]));
    assert(front.len() == 2 || front.len() == 3);
    assert(front.len() == 2 ==> front =~= two);
    assert(front.len() == 3 ==> front =~= two.push(front[2]));
    assert forall|name: Seq<char>| true implies #[trigger] values_of(front, name) == (if front[0].name
        == ascii_lower(name) {
        seq![front[0].value]
    } else {
        Seq::empty()
    }) + (if front[1].name == ascii_lower(name) {
        seq![front[1].value]
    } else {
        Seq::empty()
    }) + (if front.len() == 3 && front[2].name == ascii_lower(name) {
        seq![front[2].value]
    } else {
        Seq::empty()
    }) by {
        crate::text_laws::law_header_values(none, front[0], name);
        crate::text_laws::law_header_values(one, front[1], name);
        if front.len() == 3 {
            crate::text_laws::law_header_values(two, front[2], name);
        }
        assert(values_of(front, name) =~= (if front[0].name == ascii_lower(name) {
            seq![front[0].value]
        } else {
            Seq::empty()
        }) + (if front[1].name == ascii_lower(name) {
            seq![front[1].value]
        } else {
            Seq::empty()
        }) + (if front.len() == 3 && front[2].name == ascii_lower(name) {
            seq![front[2].value]
        } else {
            Seq::empty()
        }));
    }
    assert(values_of(front, a) =~= seq![front[0].value]);
    assert(values_of(front, b) =~= seq![front[1].value]);
    if front.len() == 3 {
        assert(values_of(front, c) =~= seq![front[2].value]);
    } else {
        assert(values_of(front, c) =~= Seq::empty());
    }
}

/// Of what else a container answers, its trace and what its runtime allows are passed on, the first
/// value of each; anything else is held back.
pub proof fn law_answers_pass_traces_and_allowed_headers(
    request: Seq<HeaderView>,
    answer: Seq<HeaderView>,
    protocol: Protocol,
    allowed: Seq<Seq<char>>,
    session_id: Seq<char>,
    name: Seq<char>,
)
    requires
        ascii_lower(name) != ascii_lower("content-type"@),
        ascii_lower(name) != ascii_lower("x-amzn-bedrock-agentcore-runtime-session-id"@),
        ascii_lower(name) != ascii_lower("mcp-session-id"@),
    ensures
        ({
            let passed = inbound_headers_of(request, answer, protocol, allowed, session_id);
            let is_trace = ascii_lower(name) == ascii_lower("x-amzn-trace-id"@) || ascii_lower(name)
                == ascii_lower("traceparent"@) || ascii_lower(name) == ascii_lower("tracestate"@)
                || ascii_lower(name) == ascii_lower("baggage"@);
            let is_allowed = exists|i: int|
                0 <= i < allowed.len() && ascii_lower(#[trigger] allowed[i]) == ascii_lower(name);
            &&& is_trace || is_allowed ==> value_of(passed, name) == value_of(answer, name)
            &&& !is_trace && !is_allowed ==> value_of(passed, name) is None
            &&& !is_allowed ==> values_of(passed, name).len() <= 1
        }),
{
    let traces = trace_headers();
    lemma_front(request, answer, protocol, allowed, session_id, name);
    lemma_front_values(request, answer, protocol, session_id);
    lemma_firsts(answer, traces, name);
    lemma_firsts(answer, allowed, name);
    assert(traces[0] == "x-amzn-trace-id"@ && traces[1] == "traceparent"@ && traces[2]
        == "tracestate"@ && traces[3] == "baggage"@);
    lemma_forwarded_lengths();
    assert(all_lengths_differ(traces)) by {
        assert forall|i: int, j: int| 0 <= i < j < traces.len() implies (#[trigger] traces[i]).len()
            != (#[trigger] traces[j]).len() by {
            assert(forwarded_headers()[i + 4] == traces[i]);
            assert(forwarded_headers()[j + 4] == traces[j]);
        }
    }
    if lists_name(traces, ascii_lower(name)) {
        let k = choose|k: int|
            0 <= k < traces.len() && ascii_lower(#[trigger] traces[k]) == ascii_lower(name);
        assert(k == 0 || k == 1 || k == 2 || k == 3);
    } else {
        assert(ascii_lower(traces[0]) != ascii_lower(name));
        assert(ascii_lower(traces[1]) != ascii_lower(name));
        assert(ascii_lower(traces[2]) != ascii_lower(name));
        assert(ascii_lower(traces[3]) != ascii_lower(name));
    }
}

/// An answer is passed on exactly where its status is one of success; any other is read to its end
/// and reported with its status. A stop and the end of the time are reported as such, and a
/// container that could not be asked is given up, with the reason.
pub proof fn law_what_follows_a_request(status: u16, message: Seq<char>, over_limit: bool)
    ensures
        forward_step_of(SendEndView::Cancelled, over_limit) == ForwardStepView::Fail(
            ProxyErrorView::Cancelled,
        ),
        forward_step_of(SendEndView::TimedOut, over_limit) == ForwardStepView::Fail(
            ProxyErrorView::TimedOut,
        ),
        forward_step_of(SendEndView::Failed(message), false) == ForwardStepView::Invalidate(
            ProxyErrorView::Unavailable(message),
        ),
        200 <= status <= 299 ==> forward_step_of(SendEndView::Answered(status), false)
            == ForwardStepView::PassOn,
        status < 200 || status > 299 ==> forward_step_of(SendEndView::Answered(status), false)
            == ForwardStepView::Drain(ProxyErrorView::RuntimeClient(status)),
        forward_step_of(SendEndView::Failed(message), true) == ForwardStepView::Fail(
            ProxyErrorView::RequestLimit,
        ),
        forward_step_of(SendEndView::Answered(status), true) == ForwardStepView::Fail(
            ProxyErrorView::RequestLimit,
        ),
{
}

/// A piece of a body passes exactly where it is no larger than a piece may be and the body with it
/// no larger than a body may be; what was counted before and this piece are then what is counted. A
/// request, an answer and an answer that is only read are measured alike.
pub proof fn law_pieces_are_measured(meter: BodyMeter, bytes: usize)
    requires
        meter.bytes + bytes <= usize::MAX,
    ensures
        ({
            let request = meter.request_step_of(RequestEventView::Chunk(bytes));
            let answer = meter.response_step_of(ReadEventView::Chunk(bytes));
            let unread = meter.drain_step_of(ReadEventView::Chunk(bytes));
            let fits = bytes <= meter.max_chunk_bytes && meter.bytes + bytes <= meter.max_bytes;
            &&& request.1 == RelayStepView::Pass <==> fits
            &&& answer.1 == RelayStepView::Pass <==> fits
            &&& unread.1 == Ok::<bool, ProxyErrorView>(false) <==> fits
            &&& !fits ==> request.1 == RelayStepView::Break(
                StreamFaultView::InvalidData("runtime request exceeded configured limits"@),
            )
            &&& bytes > meter.max_chunk_bytes ==> answer.1 == RelayStepView::Break(
                StreamFaultView::InvalidData("runtime response chunk exceeded configured limit"@),
            )
            &&& bytes <= meter.max_chunk_bytes && !fits ==> answer.1 == RelayStepView::Break(
                StreamFaultView::InvalidData("runtime response exceeded configured limit"@),
            )
            &&& !fits ==> unread.1 == Err::<bool, ProxyErrorView>(ProxyErrorView::ResponseLimit)
            &&& fits ==> request.0.bytes == meter.bytes + bytes && answer.0.bytes == meter.bytes
                + bytes && unread.0.bytes == meter.bytes + bytes
            &&& request.0.max_bytes == meter.max_bytes && answer.0.max_bytes == meter.max_bytes
                && unread.0.max_bytes == meter.max_bytes
            &&& request.0.max_chunk_bytes == meter.max_chunk_bytes && answer.0.max_chunk_bytes
                == meter.max_chunk_bytes && unread.0.max_chunk_bytes == meter.max_chunk_bytes
        }),
{
}

/// A body ends where it ends, and breaks off with the reason where the session stops, the time is
/// over or it cannot be read.
pub proof fn law_bodies_end(meter: BodyMeter, message: Seq<char>)
    ensures
        meter.request_step_of(RequestEventView::Ended) == (meter, RelayStepView::End),
        meter.response_step_of(ReadEventView::Ended) == (meter, RelayStepView::End),
        meter.drain_step_of(ReadEventView::Ended).1 == Ok::<bool, ProxyErrorView>(true),
        meter.request_step_of(RequestEventView::Cancelled).1 == RelayStepView::Break(
            StreamFaultView::Interrupted("runtime session stopped"@),
        ),
        meter.response_step_of(ReadEventView::Cancelled).1 == RelayStepView::Break(
            StreamFaultView::Interrupted("runtime session stopped"@),
        ),
        meter.drain_step_of(ReadEventView::Cancelled).1 == Err::<bool, ProxyErrorView>(
            ProxyErrorView::Cancelled,
        ),
        meter.response_step_of(ReadEventView::TimedOut).1 == RelayStepView::Break(
            StreamFaultView::TimedOut("runtime response timed out"@),
        ),
        meter.drain_step_of(ReadEventView::TimedOut).1 == Err::<bool, ProxyErrorView>(
            ProxyErrorView::TimedOut,
        ),
        meter.request_step_of(RequestEventView::Failed(message)).1 == RelayStepView::Break(
            StreamFaultView::Broken(message),
        ),
        meter.response_step_of(ReadEventView::Failed(message)).1 == RelayStepView::Break(
            StreamFaultView::Broken(message),
        ),
        meter.drain_step_of(ReadEventView::Failed(message)).1 == Err::<bool, ProxyErrorView>(
            ProxyErrorView::Unavailable(message),
        ),
{
}

} // verus!
