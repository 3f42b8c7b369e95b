//! Who is let in, said of the requests themselves.

use vstd::prelude::*;
use vstd::utf8::encode_utf8;

use crate::auth::{
    authorized, find_credential, first_bad_header, identity_of, is_account_id, permissive,
    policy_checked, region_of, request_context, signed_headers_checked, verified,
    AuthorizationRequestView,
};
use crate::headers::{text_of, value_of, values_of, HeaderView};
use crate::labels::lookup;
use crate::order::{deduped, distinct_sorted, law_distinct_sorted, sorted, text_lt, Ranked};
use crate::policy::{evaluated, RuntimeIamAction};
use crate::primitives::{clock_difference, hex_text, hmac_tag, sha256, unhex, utc_time, Timestamp};
use crate::runtime::{
    AuthenticationMode, PolicyEffect, PolicyStatementView, ResolvedCredentialView,
    ResolvedRuntimeView,
};
use crate::sigv4::{
    all_hex, canonical_request_of, canonical_uri_of, encoded_byte, fields_of, header_lines,
    header_of_fields, normalized, normalized_values, parsed_authorization, some_empty, uri_encoded,
    AuthorizationHeaderView,
};
use crate::sigv4_laws::lemma_split_joined;
use crate::text::{is_hex_digit, is_space, join, lacks, lemma_split_once_joined, split};
use crate::text_laws::{law_first_header, law_lower_case_stays, law_prefix, law_trimmed};
use crate::wildcard::{glob, law_matches_is_glob, matches_bytes, matches_text};

verus! {

// The authorization header.

/// A part of an authorization header: not empty, and without the signs that end it.
pub open spec fn is_plain(s: Seq<char>) -> bool {
    &&& s.len() > 0
    &&& forall|i: int|
        0 <= i < s.len() ==> #[trigger] s[i] != ',' && s[i] != ';' && s[i] != '/' && s[i] != '='
            && !is_space(s[i])
}

/// How a client writes an authorization header.
pub open spec fn written_authorization(header: AuthorizationHeaderView) -> Seq<char> {
    "AWS4-HMAC-SHA256 Credential="@ + header.access_key_id + "/"@ + header.date + "/"@
        + header.region + "/"@ + header.service + "/"@ + header.terminator + ", SignedHeaders="@
        + join(header.signed_headers, ";"@) + ", Signature="@ + header.signature
}

/// What a client writes into an authorization header is what is read from it.
pub proof fn law_authorization_headers_are_read(header: AuthorizationHeaderView)
    requires
        is_plain(header.access_key_id),
        is_plain(header.date),
        is_plain(header.region),
        is_plain(header.service),
        is_plain(header.terminator),
        header.signed_headers.len() > 0,
        forall|i: int|
            0 <= i < header.signed_headers.len() ==> is_plain(#[trigger] header.signed_headers[i]),
        header.signature.len() == 64,
        forall|i: int|
            0 <= i < 64 ==> ('0' <= #[trigger] header.signature[i] <= '9' || 'a'
                <= header.signature[i] <= 'f'),
    ensures
        parsed_authorization(written_authorization(header)) == Ok::<
            AuthorizationHeaderView,
            Seq<char>,
        >(header),
{
    let scope = seq![
        header.access_key_id,
        header.date,
        header.region,
        header.service,
        header.terminator,
    ];
    let credential = join(scope, seq!['/']);
    let signed = join(header.signed_headers, seq![';']);
    lemma_joined_plain(scope, '/');
    lemma_joined_plain(header.signed_headers, ';');
    lemma_split_joined(scope, '/');
    lemma_split_joined(header.signed_headers, ';');
    lemma_written(header, scope, credential, signed);
    lemma_parameters(credential, signed, header.signature);
    lemma_signature(header.signature);
    let parameters = written_parameters(credential, signed, header.signature);
    let rest = join(parameters, seq![',']);
    law_prefix(written_authorization(header), "AWS4-HMAC-SHA256 "@, rest);
    lemma_names_differ();
    assert(!some_empty(scope)) by {
        assert forall|i: int| 0 <= i < scope.len() implies (#[trigger] scope[i]).len() != 0 by {
            assert(is_plain(scope[i]));
        }
    }
    let fields = written_fields(credential, signed, header.signature);
    assert(lookup(fields, "Credential"@) == Some(credential));
    assert(lookup(fields, "SignedHeaders"@) == Some(signed));
    assert(lookup(fields, "Signature"@) == Some(header.signature));
    assert(header_of_fields(fields) == Ok::<AuthorizationHeaderView, Seq<char>>(header));
}

proof fn lemma_names_differ()
    ensures
        "Credential"@ != "SignedHeaders"@,
        "Credential"@ != "Signature"@,
        "SignedHeaders"@ != "Signature"@,
        "Credential"@.len() == 10,
        "SignedHeaders"@.len() == 13,
        "Signature"@.len() == 9,
{
    reveal_strlit("Credential");
    reveal_strlit("SignedHeaders");
    reveal_strlit("Signature");
    assert("Credential"@.len() == 10);
    assert("SignedHeaders"@.len() == 13);
    assert("Signature"@.len() == 9);
}

proof fn lemma_signature(signature: Seq<char>)
    requires
        signature.len() == 64,
        forall|i: int|
            0 <= i < 64 ==> ('0' <= #[trigger] signature[i] <= '9' || 'a' <= signature[i] <= 'f'),
    ensures
        all_hex(signature),
        encode_utf8(signature).len() == 64,
        !is_space(signature.last()),
        lacks(signature, ','),
{
    assert forall|i: int| 0 <= i < signature.len() implies is_hex_digit(
        #[trigger] signature[i],
    ) by {
        let c = signature[i];
        assert('0' <= c <= '9' || 'a' <= c <= 'f');
    }
    assert(vstd::utf8::is_ascii_chars(signature));
    vstd::utf8::is_ascii_chars_encode_utf8(signature);
    let last = signature[63];
    assert('0' <= last <= '9' || 'a' <= last <= 'f');
}

spec fn written_parameters(credential: Seq<char>, signed: Seq<char>, signature: Seq<char>) -> Seq<
    Seq<char>,
> {
    seq![
        "Credential"@ + seq!['='] + credential,
        seq![' '] + ("SignedHeaders"@ + seq!['='] + signed),
        seq![' '] + ("Signature"@ + seq!['='] + signature),
    ]
}

spec fn written_fields(credential: Seq<char>, signed: Seq<char>, signature: Seq<char>) -> Map<
    Seq<char>,
    Seq<char>,
> {
    Map::<Seq<char>, Seq<char>>::empty().insert("Credential"@, credential).insert(
        "SignedHeaders"@,
        signed,
    ).insert("Signature"@, signature)
}

proof fn lemma_join_three(a: Seq<char>, b: Seq<char>, c: Seq<char>, sep: Seq<char>)
    ensures
        join(seq![a, b, c], sep) == a + sep + b + sep + c,
{
    reveal_with_fuel(join, 4);
    assert(seq![a, b, c].drop_last() =~= seq![a, b]);
    assert(seq![a, b].drop_last() =~= seq![a]);
}

proof fn lemma_join_five(
    a: Seq<char>,
    b: Seq<char>,
    c: Seq<char>,
    d: Seq<char>,
    e: Seq<char>,
    sep: Seq<char>,
)
    ensures
        join(seq![a, b, c, d, e], sep) == a + sep + b + sep + c + sep + d + sep + e,
{
    reveal_with_fuel(join, 3);
    lemma_join_three(a, b, c, sep);
    assert(seq![a, b, c, d, e].drop_last() =~= seq![a, b, c, d]);
    assert(seq![a, b, c, d].drop_last() =~= seq![a, b, c]);
}

proof fn lemma_written(
    header: AuthorizationHeaderView,
    scope: Seq<Seq<char>>,
    credential: Seq<char>,
    signed: Seq<char>,
)
    requires
        scope == seq![
            header.access_key_id,
            header.date,
            header.region,
            header.service,
            header.terminator,
        ],
        credential == join(scope, seq!['/']),
        signed == join(header.signed_headers, seq![';']),
    ensures
        written_authorization(header) == "AWS4-HMAC-SHA256 "@ + join(
            written_parameters(credential, signed, header.signature),
            seq![','],
        ),
{
    reveal_strlit("AWS4-HMAC-SHA256 Credential=");
    reveal_strlit("AWS4-HMAC-SHA256 ");
    reveal_strlit("/");
    reveal_strlit(";");
    reveal_strlit(", SignedHeaders=");
    reveal_strlit(", Signature=");
    reveal_strlit("Credential");
    reveal_strlit("SignedHeaders");
    reveal_strlit("Signature");
    assert("/"@ =~= seq!['/']);
    assert(";"@ =~= seq![';']);
    lemma_join_five(
        header.access_key_id,
        header.date,
        header.region,
        header.service,
        header.terminator,
        seq!['/'],
    );
    let p = written_parameters(credential, signed, header.signature);
    lemma_join_three(p[0], p[1], p[2], seq![',']);
    assert(p =~= seq![p[0], p[1], p[2]]);
    assert("AWS4-HMAC-SHA256 Credential="@ =~= "AWS4-HMAC-SHA256 "@ + "Credential"@ + seq!['=']);
    assert(", SignedHeaders="@ =~= seq![','] + seq![' '] + "SignedHeaders"@ + seq!['=']);
    assert(", Signature="@ =~= seq![','] + seq![' '] + "Signature"@ + seq!['=']);
    let left = "AWS4-HMAC-SHA256 "@ + "Credential"@ + seq!['='] + header.access_key_id + seq!['/']
        + header.date + seq!['/'] + header.region + seq!['/'] + header.service + seq!['/']
        + header.terminator;
    let right = "AWS4-HMAC-SHA256 "@ + ("Credential"@ + seq!['='] + credential);
    assert(left =~= right);
    assert(written_authorization(header) =~= right + (seq![','] + seq![' '] + "SignedHeaders"@
        + seq!['=']) + signed + (seq![','] + seq![' '] + "Signature"@ + seq!['='])
        + header.signature);
    assert(written_authorization(header) =~= "AWS4-HMAC-SHA256 "@ + (p[0] + seq![','] + p[1]
        + seq![','] + p[2]));
}

proof fn lemma_parameters(credential: Seq<char>, signed: Seq<char>, signature: Seq<char>)
    requires
        credential.len() > 0 && !is_space(credential.last()) && lacks(credential, ','),
        signed.len() > 0 && !is_space(signed.last()) && lacks(signed, ','),
        signature.len() == 64,
        forall|i: int|
            0 <= i < 64 ==> ('0' <= #[trigger] signature[i] <= '9' || 'a' <= signature[i] <= 'f'),
    ensures
        ({
            let parameters = written_parameters(credential, signed, signature);
            &&& split(join(parameters, seq![',']), ',') == parameters
            &&& fields_of(parameters) == Ok::<Map<Seq<char>, Seq<char>>, Seq<char>>(
                written_fields(credential, signed, signature),
            )
        }),
{
    reveal_strlit("Credential");
    reveal_strlit("SignedHeaders");
    reveal_strlit("Signature");
    lemma_signature(signature);
    lemma_names_differ();
    let parameters = written_parameters(credential, signed, signature);
    let first = "Credential"@ + seq!['='] + credential;
    let second = "SignedHeaders"@ + seq!['='] + signed;
    let third = "Signature"@ + seq!['='] + signature;
    lemma_parameter_lacks(first, credential, "Credential"@);
    lemma_parameter_lacks(second, signed, "SignedHeaders"@);
    lemma_parameter_lacks(third, signature, "Signature"@);
    let space = seq![' '];
    assert forall|i: int| 0 <= i < parameters.len() implies lacks(
        #[trigger] parameters[i],
        ',',
    ) by {
        if i == 1 {
            assert forall|k: int| 0 <= k < parameters[1].len() implies #[trigger] parameters[1][k]
                != ',' by {
                if k > 0 {
                    assert(parameters[1][k] == second[k - 1]);
                }
            }
        } else if i == 2 {
            assert forall|k: int| 0 <= k < parameters[2].len() implies #[trigger] parameters[2][k]
                != ',' by {
                if k > 0 {
                    assert(parameters[2][k] == third[k - 1]);
                }
            }
        }
    }
    lemma_split_joined(parameters, ',');
    let none = Seq::<char>::empty();
    assert(first.last() == credential.last());
    assert(second.last() == signed.last());
    assert(third.last() == signature.last());
    law_trimmed(none, first, none);
    assert(none + first + none =~= first);
    law_trimmed(space, second, none);
    assert(space + second + none =~= space + second);
    law_trimmed(space, third, none);
    assert(space + third + none =~= space + third);
    lemma_split_once_joined("Credential"@, credential, '=');
    lemma_split_once_joined("SignedHeaders"@, signed, '=');
    lemma_split_once_joined("Signature"@, signature, '=');
    let one = seq![first];
    let two = seq![first, space + second];
    assert(parameters.drop_last() =~= two);
    assert(two.drop_last() =~= one);
    assert(one.drop_last() =~= Seq::empty());
    let a = Map::<Seq<char>, Seq<char>>::empty().insert("Credential"@, credential);
    assert(fields_of(Seq::empty()) == Ok::<Map<Seq<char>, Seq<char>>, Seq<char>>(Map::empty()));
    assert(fields_of(one) == Ok::<Map<Seq<char>, Seq<char>>, Seq<char>>(a));
    let b = a.insert("SignedHeaders"@, signed);
    assert(fields_of(two) == Ok::<Map<Seq<char>, Seq<char>>, Seq<char>>(b));
}

/// What joined parts hold, and how they start and end.
proof fn lemma_joined_plain(parts: Seq<Seq<char>>, sep: char)
    requires
        parts.len() > 0,
        forall|i: int| 0 <= i < parts.len() ==> is_plain(#[trigger] parts[i]),
        sep == '/' || sep == ';',
    ensures
        ({
            let s = join(parts, seq![sep]);
            &&& s.len() > 0
            &&& !is_space(s[0]) && !is_space(s.last())
            &&& lacks(s, ',')
        }),
        forall|i: int| 0 <= i < parts.len() ==> lacks(#[trigger] parts[i], sep),
    decreases parts.len(),
{
    let s = join(parts, seq![sep]);
    assert forall|i: int| 0 <= i < parts.len() implies lacks(#[trigger] parts[i], sep) by {
        assert(is_plain(parts[i]));
    }
    let last = parts.last();
    assert(is_plain(parts[parts.len() - 1]));
    if parts.len() > 1 {
        let head = parts.drop_last();
        assert forall|i: int| 0 <= i < head.len() implies is_plain(#[trigger] head[i]) by {
            assert(head[i] == parts[i]);
        }
        lemma_joined_plain(head, sep);
        let before = join(head, seq![sep]);
        assert(s == before + seq![sep] + last);
        assert(s[0] == before[0]);
        assert(s.last() == last.last());
        assert forall|i: int| 0 <= i < s.len() implies #[trigger] s[i] != ',' by {
            if i < before.len() {
                assert(s[i] == before[i]);
            } else if i > before.len() {
                assert(s[i] == last[i - before.len() - 1]);
            }
        }
    }
}

proof fn lemma_parameter_lacks(whole: Seq<char>, value: Seq<char>, name: Seq<char>)
    requires
        whole == name + seq!['='] + value,
        lacks(value, ','),
        lacks(name, ','),
    ensures
        lacks(whole, ','),
{
    assert forall|k: int| 0 <= k < whole.len() implies #[trigger] whole[k] != ',' by {
        if k < name.len() {
            assert(whole[k] == name[k]);
        } else if k > name.len() {
            assert(whole[k] == value[k - name.len() - 1]);
        }
    }
}

/// The region of a runtime stands behind the third colon of its ARN.
pub proof fn law_region_of_a_runtime(region: Seq<char>, rest: Seq<char>)
    requires
        lacks(region, ':'),
    ensures
        region.len() > 0 ==> region_of("arn:aws:bedrock-agentcore:"@ + region + ":"@ + rest) == Ok::<
            Seq<char>,
            Seq<char>,
        >(region),
        region.len() == 0 ==> region_of("arn:aws:bedrock-agentcore:"@ + region + ":"@ + rest) is Err,
{
    reveal_strlit("arn:aws:bedrock-agentcore:");
    reveal_strlit(":");
    reveal_strlit("arn");
    reveal_strlit("aws");
    reveal_strlit("bedrock-agentcore");
    let arn = "arn:aws:bedrock-agentcore:"@ + region + ":"@ + rest;
    let tail = split(rest, ':');
    let parts = seq!["arn"@, "aws"@, "bedrock-agentcore"@, region] + tail;
    crate::text_laws::law_split(rest, parts, ':');
    assert forall|i: int| 0 <= i < parts.len() implies lacks(#[trigger] parts[i], ':') by {
        if i >= 4 {
            assert(parts[i] == tail[i - 4]);
        }
    }
    let colon = seq![':'];
    lemma_join_four("arn"@, "aws"@, "bedrock-agentcore"@, region, tail);
    assert(join(parts, colon) =~= arn);
    assert(parts[3] == region);
}

proof fn lemma_join_four(
    a: Seq<char>,
    b: Seq<char>,
    c: Seq<char>,
    d: Seq<char>,
    tail: Seq<Seq<char>>,
)
    requires
        tail.len() > 0,
    ensures
        join(seq![a, b, c, d] + tail, seq![':']) == a + seq![':'] + (b + seq![':'] + (c + seq![':']
            + (d + seq![':'] + join(tail, seq![':'])))),
{
    let parts = seq![a, b, c, d] + tail;
    let colon = seq![':'];
    crate::sigv4_laws::lemma_join_first(parts, colon);
    let p1 = parts.drop_first();
    crate::sigv4_laws::lemma_join_first(p1, colon);
    let p2 = p1.drop_first();
    crate::sigv4_laws::lemma_join_first(p2, colon);
    let p3 = p2.drop_first();
    crate::sigv4_laws::lemma_join_first(p3, colon);
    assert(p3.drop_first() =~= tail);
}

// Signed headers.

/// The signed headers are in order: `host` is one of them, each comes once and in ascending order,
/// none has a capital letter, and the request has a line for each.
pub open spec fn signs_what_is_there(headers: Seq<HeaderView>, names: Seq<Seq<char>>) -> bool {
    &&& names.contains("host"@)
    &&& forall|i: int, j: int| 0 <= i < j < names.len() ==> text_lt(
        #[trigger] names[i],
        #[trigger] names[j],
    )
    &&& forall|i: int| 0 <= i < names.len() ==> has_line(headers, #[trigger] names[i])
}

/// The name has no capital letter, and a line has it.
pub open spec fn has_line(headers: Seq<HeaderView>, name: Seq<char>) -> bool {
    &&& forall|k: int| 0 <= k < name.len() ==> !('A' <= #[trigger] name[k] <= 'Z')
    &&& exists|k: int| 0 <= k < headers.len() && (#[trigger] headers[k]).name == name
}

proof fn lemma_has_line(headers: Seq<HeaderView>, name: Seq<char>)
    ensures
        crate::auth::signed_header_ok(headers, name) <==> has_line(headers, name),
{
    if !crate::auth::has_upper(name) {
        assert forall|k: int| 0 <= k < name.len() implies !('A' <= #[trigger] name[k] <= 'Z') by {
            assert(!crate::text::is_upper(name[k]));
        }
        law_lower_case_stays(name);
        law_first_header(headers, name, 0);
    } else {
        let k = choose|k: int| 0 <= k < name.len() && crate::text::is_upper(#[trigger] name[k]);
        assert('A' <= name[k] <= 'Z');
    }
}

proof fn lemma_first_bad(headers: Seq<HeaderView>, names: Seq<Seq<char>>)
    ensures
        first_bad_header(headers, names) is None <==> forall|i: int|
            0 <= i < names.len() ==> has_line(headers, #[trigger] names[i]),
    decreases names.len(),
{
    if names.len() > 0 {
        let rest = names.drop_first();
        lemma_first_bad(headers, rest);
        lemma_has_line(headers, names[0]);
        if forall|i: int| 0 <= i < names.len() ==> has_line(headers, #[trigger] names[i]) {
            assert forall|i: int| 0 <= i < rest.len() implies has_line(
                headers,
                #[trigger] rest[i],
            ) by {
                assert(rest[i] == names[i + 1]);
            }
        }
        if has_line(headers, names[0]) && forall|i: int|
            0 <= i < rest.len() ==> has_line(headers, #[trigger] rest[i]) {
            assert forall|i: int| 0 <= i < names.len() implies has_line(
                headers,
                #[trigger] names[i],
            ) by {
                if i > 0 {
                    assert(rest[i - 1] == names[i]);
                }
            }
        }
    }
}

proof fn lemma_ascending_stays(names: Seq<Seq<char>>)
    requires
        forall|i: int, j: int| 0 <= i < j < names.len() ==> text_lt(
            #[trigger] names[i],
            #[trigger] names[j],
        ),
    ensures
        distinct_sorted(names) == names,
{
    let leq = |a: Seq<char>, b: Seq<char>| <String as Ranked>::rank_le(a, b);
    <String as Ranked>::lemma_rank_total();
    names.lemma_sort_by_ensures(leq);
    assert forall|i: int, j: int| 0 <= i < j < names.len() implies #[trigger] leq(
        names[i],
        names[j],
    ) by {
        assert(text_lt(names[i], names[j]));
    }
    vstd::seq_lib::lemma_sorted_unique(sorted(names), names, leq);
    lemma_deduped_stays(names);
}

proof fn lemma_deduped_stays(names: Seq<Seq<char>>)
    requires
        forall|i: int, j: int| 0 <= i < j < names.len() ==> text_lt(
            #[trigger] names[i],
            #[trigger] names[j],
        ),
    ensures
        deduped(names) == names,
    decreases names.len(),
{
    if names.len() > 1 {
        let head = names.drop_last();
        assert forall|i: int, j: int| 0 <= i < j < head.len() implies text_lt(
            #[trigger] head[i],
            #[trigger] head[j],
        ) by {
            assert(text_lt(names[i], names[j]));
        }
        lemma_deduped_stays(head);
        assert(text_lt(names[names.len() - 2], names[names.len() - 1]));
        assert(deduped(names) =~= names);
    }
}

/// Signed headers are accepted exactly where they are in order.
pub proof fn law_signed_headers(headers: Seq<HeaderView>, names: Seq<Seq<char>>)
    ensures
        signed_headers_checked(headers, names) is Ok <==> signs_what_is_there(headers, names),
{
    lemma_first_bad(headers, names);
    law_distinct_sorted(names);
    if forall|i: int, j: int| 0 <= i < j < names.len() ==> text_lt(
        #[trigger] names[i],
        #[trigger] names[j],
    ) {
        lemma_ascending_stays(names);
    }
}

// Unsigned use.

/// The text of a header.
pub open spec fn said(headers: Seq<HeaderView>, name: Seq<char>) -> Option<Seq<char>> {
    match value_of(headers, name) {
        Some(value) => text_of(value),
        None => None,
    }
}

/// In permissive mode everyone is let in who brings no authorization header. Whoever brings one is
/// let in exactly where it can be read, is for this service and for the runtime's region, signs
/// headers that are there, and has a date with which `x-amz-date` starts.
pub proof fn law_permissive_requests(
    runtime: ResolvedRuntimeView,
    request: AuthorizationRequestView,
    header: AuthorizationHeaderView,
)
    ensures
        value_of(request.headers, "authorization"@) is None ==> permissive(runtime, request) == Ok::<
            Option<Seq<char>>,
            Seq<char>,
        >(None),
        (said(request.headers, "authorization"@) matches Some(text) && parsed_authorization(text)
            == Ok::<AuthorizationHeaderView, Seq<char>>(header)) ==> (permissive(
            runtime,
            request,
        ) == Ok::<Option<Seq<char>>, Seq<char>>(None) <==> {
            &&& header.service == "bedrock-agentcore"@
            &&& header.terminator == "aws4_request"@
            &&& region_of(runtime.runtime_arn) == Ok::<Seq<char>, Seq<char>>(header.region)
            &&& signs_what_is_there(request.headers, header.signed_headers)
            &&& said(request.headers, "x-amz-date"@) matches Some(date)
                && header.date.is_prefix_of(date)
        }),
        (value_of(request.headers, "authorization"@) matches Some(value) && (text_of(value) matches
            Some(text) ==> parsed_authorization(text) is Err)) ==> permissive(
            runtime,
            request,
        ) is Err,
        permissive(runtime, request) matches Ok(principal) ==> principal is None,
{
    law_signed_headers(request.headers, header.signed_headers);
    if let Some(date) = said(request.headers, "x-amz-date"@) {
        law_prefix(date, header.date, Seq::empty());
    }
}

/// A client that signs its requests gets in by default: whatever its keys are, its request is let in
/// where it signs headers that are there for this service in the region of the runtime, on the day
/// with which `x-amz-date` starts.
pub proof fn law_signing_clients_are_let_in(
    runtime: ResolvedRuntimeView,
    request: AuthorizationRequestView,
    header: AuthorizationHeaderView,
    behind_region: Seq<char>,
    time_of_day: Seq<char>,
    now: Timestamp,
)
    requires
        runtime.authentication.mode == AuthenticationMode::Permissive,
        runtime.runtime_arn == "arn:aws:bedrock-agentcore:"@ + header.region + ":"@ + behind_region,
        lacks(header.region, ':'),
        is_plain(header.access_key_id),
        is_plain(header.date),
        is_plain(header.region),
        header.service == "bedrock-agentcore"@,
        header.terminator == "aws4_request"@,
        forall|i: int|
            0 <= i < header.signed_headers.len() ==> is_plain(#[trigger] header.signed_headers[i]),
        header.signature.len() == 64,
        forall|i: int|
            0 <= i < 64 ==> ('0' <= #[trigger] header.signature[i] <= '9' || 'a'
                <= header.signature[i] <= 'f'),
        said(request.headers, "authorization"@) == Some(written_authorization(header)),
        said(request.headers, "x-amz-date"@) == Some(header.date + time_of_day),
        signs_what_is_there(request.headers, header.signed_headers),
    ensures
        authorized(runtime, request, now) == Ok::<Option<Seq<char>>, Seq<char>>(None),
{
    reveal_strlit("bedrock-agentcore");
    reveal_strlit("aws4_request");
    assert(is_plain(header.service));
    assert(is_plain(header.terminator));
    law_authorization_headers_are_read(header);
    law_region_of_a_runtime(header.region, behind_region);
    law_permissive_requests(runtime, request, header);
    let date = header.date + time_of_day;
    assert(header.date.is_prefix_of(date));
}

// Signed use.

/// The first credential with a key is the one that counts.
pub proof fn law_first_credential(
    credentials: Seq<ResolvedCredentialView>,
    key: Seq<char>,
    k: int,
)
    ensures
        find_credential(credentials, key) is None <==> forall|i: int|
            0 <= i < credentials.len() ==> (#[trigger] credentials[i]).access_key_id != key,
        (0 <= k < credentials.len() && credentials[k].access_key_id == key && forall|i: int|
            0 <= i < k ==> (#[trigger] credentials[i]).access_key_id != key) ==> find_credential(
            credentials,
            key,
        ) == Some(credentials[k]),
        find_credential(credentials, key) matches Some(credential) ==> credentials.contains(
            credential,
        ) && credential.access_key_id == key,
    decreases credentials.len(),
{
    if credentials.len() > 0 {
        let rest = credentials.drop_first();
        law_first_credential(rest, key, k - 1);
        assert forall|i: int| 0 <= i < rest.len() implies #[trigger] rest[i] == credentials[i
            + 1] by {}
        if credentials[0].access_key_id != key {
            if forall|i: int| 0 <= i < rest.len() ==> (#[trigger] rest[i]).access_key_id != key {
                assert forall|i: int| 0 <= i < credentials.len() implies (
                #[trigger] credentials[i]).access_key_id != key by {
                    if i > 0 {
                        assert(rest[i - 1] == credentials[i]);
                    }
                }
            }
            if find_credential(rest, key) is Some {
                let c = find_credential(rest, key)->Some_0;
                let i = choose|i: int| 0 <= i < rest.len() && rest[i] == c;
                assert(credentials[i + 1] == c);
            }
            if 0 < k < credentials.len() {
                assert(rest[k - 1] == credentials[k]);
                if forall|i: int|
                    0 <= i < k ==> (#[trigger] credentials[i]).access_key_id != key {
                    assert forall|i: int| 0 <= i < k - 1 implies (
                    #[trigger] rest[i]).access_key_id != key by {
                        assert(rest[i] == credentials[i + 1]);
                    }
                }
            }
        }
    }
}

/// What a signature covers, and with which key.
pub open spec fn signature_of(
    request: AuthorizationRequestView,
    header: AuthorizationHeaderView,
    secret: Seq<char>,
    date: Seq<char>,
    canonical: Seq<char>,
) -> Seq<u8> {
    let day = hmac_tag(encode_utf8("AWS4"@ + secret), encode_utf8(header.date));
    let place = hmac_tag(day, encode_utf8(header.region));
    let service = hmac_tag(place, encode_utf8(header.service));
    let key = hmac_tag(service, encode_utf8("aws4_request"@));
    hmac_tag(
        key,
        encode_utf8(
            "AWS4-HMAC-SHA256\n"@ + date + "\n"@ + (header.date + "/"@ + header.region + "/"@
                + header.service + "/"@ + header.terminator) + "\n"@ + hex_text(
                sha256(encode_utf8(canonical)),
            ),
        ),
    )
}

/// A signed request is let in exactly where its header can be read, is for this service and for the
/// runtime's region and signs headers that are there, where it names a key that the runtime knows,
/// brings the session token of that key or none where there is none, has a time that is no further
/// from now than allowed and starts with the date of the header, brings the digest of its payload or
/// none, and where the signature is the one that the secret of the key gives.
pub proof fn law_signed_requests(
    runtime: ResolvedRuntimeView,
    request: AuthorizationRequestView,
    now: Timestamp,
    header: AuthorizationHeaderView,
    credential: ResolvedCredentialView,
    date: Seq<char>,
)
    requires
        said(request.headers, "authorization"@) matches Some(text) && parsed_authorization(text)
            == Ok::<AuthorizationHeaderView, Seq<char>>(header),
        find_credential(runtime.authentication.credentials, header.access_key_id) == Some(
            credential,
        ),
        said(request.headers, "x-amz-date"@) == Some(date),
    ensures
        verified(runtime, request, now) is Ok <==> {
            &&& header.service == "bedrock-agentcore"@
            &&& header.terminator == "aws4_request"@
            &&& region_of(runtime.runtime_arn) == Ok::<Seq<char>, Seq<char>>(header.region)
            &&& signs_what_is_there(request.headers, header.signed_headers)
            &&& match credential.session_token {
                Some(token) => said(request.headers, "x-amz-security-token"@) == Some(token),
                None => value_of(request.headers, "x-amz-security-token"@) is None,
            }
            &&& header.date.is_prefix_of(date)
            &&& (utc_time(date, "%Y%m%dT%H%M%SZ"@) matches Some(time) && clock_difference(now, time)
                matches Some(seconds) && -runtime.authentication.allowed_clock_skew_seconds
                <= seconds <= runtime.authentication.allowed_clock_skew_seconds)
            &&& (value_of(request.headers, "x-amz-content-sha256"@) is None || said(
                request.headers,
                "x-amz-content-sha256"@,
            ) == Some(hex_text(sha256(request.body))))
            &&& (canonical_request_of(
                request.method,
                request.path,
                request.query,
                request.headers,
                header.signed_headers,
                hex_text(sha256(request.body)),
            ) matches Ok(canonical) && unhex(header.signature) == Some(
                signature_of(request, header, credential.secret_access_key, date, canonical),
            ))
        },
        verified(runtime, request, now) matches Ok(found) ==> found == credential,
{
    law_signed_headers(request.headers, header.signed_headers);
    law_prefix(date, header.date, Seq::empty());
}

/// Without an authorization header that can be read, a key that the runtime knows and a time, no
/// signed request is let in.
pub proof fn law_signed_requests_need_all_parts(
    runtime: ResolvedRuntimeView,
    request: AuthorizationRequestView,
    now: Timestamp,
)
    requires
        verified(runtime, request, now) is Ok,
    ensures
        said(request.headers, "authorization"@) matches Some(text) && parsed_authorization(text)
            matches Ok(header) && find_credential(
            runtime.authentication.credentials,
            header.access_key_id,
        ) is Some,
        said(request.headers, "x-amz-date"@) is Some,
{
}

/// The mode of a runtime decides what a request needs: nothing but a right form, a signature, or a
/// signature and the policy's consent.
pub proof fn law_modes(
    runtime: ResolvedRuntimeView,
    request: AuthorizationRequestView,
    now: Timestamp,
)
    ensures
        runtime.authentication.mode == AuthenticationMode::Permissive ==> authorized(
            runtime,
            request,
            now,
        ) == permissive(runtime, request),
        runtime.authentication.mode == AuthenticationMode::Signature ==> (authorized(
            runtime,
            request,
            now,
        ) is Ok <==> verified(runtime, request, now) is Ok),
        runtime.authentication.mode == AuthenticationMode::Policy ==> (authorized(
            runtime,
            request,
            now,
        ) is Ok <==> (verified(runtime, request, now) matches Ok(credential) && policy_checked(
            runtime,
            request,
            credential,
        ) is Ok)),
        runtime.authentication.mode != AuthenticationMode::Permissive && authorized(
            runtime,
            request,
            now,
        ) is Ok ==> authorized(runtime, request, now)->Ok_0 == verified(
            runtime,
            request,
            now,
        )->Ok_0.principal_arn,
{
}

// What is signed.

/// What a signature covers is six lines: the method, the path, the query, the signed headers with a
/// line each, their names, and the digest of the payload.
pub proof fn law_canonical_requests(
    method: Seq<char>,
    path: Seq<char>,
    query: Option<Seq<char>>,
    headers: Seq<HeaderView>,
    names: Seq<Seq<char>>,
    digest: Seq<char>,
    lines: Seq<char>,
)
    requires
        header_lines(headers, names) == Ok::<Seq<char>, Seq<char>>(lines),
    ensures
        canonical_request_of(method, path, query, headers, names, digest) == Ok::<
            Seq<char>,
            Seq<char>,
        >(
            method + "\n"@ + canonical_uri_of(path) + "\n"@ + crate::sigv4::canonical_query_of(
                (match query {
                    Some(query) => query,
                    None => Seq::empty(),
                }),
            ) + "\n"@ + lines + "\n"@ + join(names, ";"@) + "\n"@ + digest,
        ),
{
}

/// The line of a signed header is its name, a colon, and its values, with the white space in each
/// taken together and a comma between each two. The lines stand in the order of the names.
pub proof fn law_signed_lines(
    headers: Seq<HeaderView>,
    names: Seq<Seq<char>>,
    name: Seq<char>,
    before: Seq<char>,
    value: Seq<u8>,
    text: Seq<char>,
)
    requires
        header_lines(headers, names) == Ok::<Seq<char>, Seq<char>>(before),
        values_of(headers, name) == seq![value],
        text_of(value) == Some(text),
    ensures
        header_lines(headers, Seq::empty()) == Ok::<Seq<char>, Seq<char>>(Seq::empty()),
        header_lines(headers, names.push(name)) == Ok::<Seq<char>, Seq<char>>(
            before + (name + ":"@ + normalized(text) + "\n"@),
        ),
{
    assert(names.push(name).drop_last() =~= names);
    let values = seq![value];
    assert(values.drop_last() =~= Seq::empty());
    reveal_with_fuel(normalized_values, 2);
    assert(normalized_values(values, name) == Ok::<Seq<Seq<char>>, Seq<char>>(
        Seq::empty().push(normalized(text)),
    ));
    assert(join(Seq::empty().push(normalized(text)), ","@) == normalized(text));
}

/// In a path letters, digits, `-`, `_`, `.`, `~` and `/` stand for themselves, and every other byte
/// is written as a percent sign and two hexadecimal digits.
pub proof fn law_path_encoding(bytes: Seq<u8>, byte: u8)
    ensures
        uri_encoded(Seq::empty(), true) == Seq::<char>::empty(),
        uri_encoded(bytes.push(byte), true) == uri_encoded(bytes, true) + encoded_byte(byte, true),
        ({
            let c = byte as char;
            &&& ('a' <= c <= 'z' || 'A' <= c <= 'Z' || '0' <= c <= '9' || c == '-' || c == '_' || c
                == '.' || c == '~' || c == '/') ==> encoded_byte(byte, true) == seq![c]
            &&& !('a' <= c <= 'z' || 'A' <= c <= 'Z' || '0' <= c <= '9' || c == '-' || c == '_' || c
                == '.' || c == '~' || c == '/') ==> encoded_byte(byte, true).len() == 3
                && encoded_byte(byte, true)[0] == '%'
        }),
{
    assert(bytes.push(byte).drop_last() =~= bytes);
}

// Policies.

/// Some pattern matches.
pub open spec fn one_matches(patterns: Seq<Seq<char>>, value: Seq<char>) -> bool {
    exists|i: int| 0 <= i < patterns.len() && matches_text(#[trigger] patterns[i], value)
}

/// The conditions of a statement hold: for every key the request has a value, and one that is
/// expected, by equality or by pattern as the operator says.
pub open spec fn meets_conditions(
    statement: PolicyStatementView,
    context: Map<Seq<char>, Seq<char>>,
) -> bool {
    forall|i: int, j: int|
        #![trigger statement.conditions[i].keys[j]]
        0 <= i < statement.conditions.len() && 0 <= j < statement.conditions[i].keys.len() ==> {
            let operator = statement.conditions[i].operator;
            let key = statement.conditions[i].keys[j];
            &&& context.contains_key(key.key)
            &&& ((operator == "StringEquals"@ || operator == "ArnEquals"@) && key.expected.contains(
                context[key.key],
            )) || ((operator == "StringLike"@ || operator == "ArnLike"@) && one_matches(
                key.expected,
                context[key.key],
            ))
        }
}

/// The statement is about the action, the resource and, where one is asked for, the principal, and
/// its conditions hold.
pub open spec fn speaks_of(
    statement: PolicyStatementView,
    action: Seq<char>,
    resource: Seq<char>,
    principal: Option<Seq<char>>,
    context: Map<Seq<char>, Seq<char>>,
) -> bool {
    &&& one_matches(statement.actions, action)
    &&& one_matches(statement.resources, resource)
    &&& (principal matches Some(who) ==> one_matches(statement.principals, who))
    &&& meets_conditions(statement, context)
}

proof fn lemma_one_matches(patterns: Seq<Seq<char>>, value: Seq<char>)
    ensures
        crate::policy::any_matches(patterns, value) <==> one_matches(patterns, value),
{
    if crate::policy::any_matches(patterns, value) {
        let i = choose|i: int| 0 <= i < patterns.len() && #[trigger] matches_text(patterns[i], value);
        assert(matches_text(patterns[i], value));
    }
    if one_matches(patterns, value) {
        let i = choose|i: int| 0 <= i < patterns.len() && matches_text(#[trigger] patterns[i], value);
        assert(matches_text(patterns[i], value));
    }
}

proof fn lemma_conditions(statement: PolicyStatementView, context: Map<Seq<char>, Seq<char>>)
    ensures
        crate::policy::conditions_hold(statement, context) <==> meets_conditions(
            statement,
            context,
        ),
{
    assert forall|i: int, j: int|
        #![trigger statement.conditions[i].keys[j]]
        0 <= i < statement.conditions.len() && 0 <= j
            < statement.conditions[i].keys.len() implies (crate::policy::key_holds(
        statement.conditions[i].operator,
        statement.conditions[i].keys[j],
        context,
    ) <==> {
        let operator = statement.conditions[i].operator;
        let key = statement.conditions[i].keys[j];
        &&& context.contains_key(key.key)
        &&& ((operator == "StringEquals"@ || operator == "ArnEquals"@) && key.expected.contains(
            context[key.key],
        )) || ((operator == "StringLike"@ || operator == "ArnLike"@) && one_matches(
            key.expected,
            context[key.key],
        ))
    }) by {
        let operator = statement.conditions[i].operator;
        let key = statement.conditions[i].keys[j];
        reveal_strlit("StringEquals");
        reveal_strlit("ArnEquals");
        reveal_strlit("StringLike");
        reveal_strlit("ArnLike");
        assert("StringEquals"@.len() == 12 && "ArnEquals"@.len() == 9);
        assert("StringLike"@.len() == 10 && "ArnLike"@.len() == 7);
        if context.contains_key(key.key) {
            lemma_one_matches(key.expected, context[key.key]);
        }
    }
    if crate::policy::conditions_hold(statement, context) {
        assert forall|i: int, j: int|
            #![trigger statement.conditions[i].keys[j]]
            0 <= i < statement.conditions.len() && 0 <= j
                < statement.conditions[i].keys.len() implies crate::policy::key_holds(
            statement.conditions[i].operator,
            statement.conditions[i].keys[j],
            context,
        ) by {
            assert(crate::policy::condition_holds(statement.conditions[i], context));
        }
    }
    if meets_conditions(statement, context) {
        assert forall|i: int| 0 <= i < statement.conditions.len() implies
            #[trigger] crate::policy::condition_holds(statement.conditions[i], context) by {
            assert forall|j: int| 0 <= j < statement.conditions[i].keys.len() implies
                #[trigger] crate::policy::key_holds(
                statement.conditions[i].operator,
                statement.conditions[i].keys[j],
                context,
            ) by {
                let key = statement.conditions[i].keys[j];
            }
        }
    }
}

proof fn lemma_speaks_of(
    statement: PolicyStatementView,
    action: RuntimeIamAction,
    resource: Seq<char>,
    principal: Option<Seq<char>>,
    context: Map<Seq<char>, Seq<char>>,
)
    ensures
        crate::policy::applies(statement, action, resource, principal, context) <==> speaks_of(
            statement,
            action.name(),
            resource,
            principal,
            context,
        ),
{
    lemma_one_matches(statement.actions, action.name());
    lemma_one_matches(statement.resources, resource);
    if let Some(who) = principal {
        lemma_one_matches(statement.principals, who);
    }
    lemma_conditions(statement, context);
}

/// Some statement with this effect is about the request.
pub open spec fn one_says(
    statements: Seq<PolicyStatementView>,
    effect: PolicyEffect,
    action: Seq<char>,
    resource: Seq<char>,
    principal: Option<Seq<char>>,
    context: Map<Seq<char>, Seq<char>>,
) -> bool {
    exists|i: int|
        0 <= i < statements.len() && (#[trigger] statements[i]).effect == effect && speaks_of(
            statements[i],
            action,
            resource,
            principal,
            context,
        )
}

proof fn lemma_one_says(
    statements: Seq<PolicyStatementView>,
    effect: PolicyEffect,
    action: RuntimeIamAction,
    resource: Seq<char>,
    principal: Option<Seq<char>>,
    context: Map<Seq<char>, Seq<char>>,
)
    ensures
        crate::policy::decides(statements, effect, action, resource, principal, context)
            <==> one_says(statements, effect, action.name(), resource, principal, context),
{
    assert forall|i: int| 0 <= i < statements.len() implies (crate::policy::applies(
        #[trigger] statements[i],
        action,
        resource,
        principal,
        context,
    ) <==> speaks_of(statements[i], action.name(), resource, principal, context)) by {
        lemma_speaks_of(statements[i], action, resource, principal, context);
    }
    if crate::policy::decides(statements, effect, action, resource, principal, context) {
        let i = choose|i: int|
            0 <= i < statements.len() && statements[i].effect == effect
                && #[trigger] crate::policy::applies(
                statements[i],
                action,
                resource,
                principal,
                context,
            );
        assert(statements[i].effect == effect);
    }
    if one_says(statements, effect, action.name(), resource, principal, context) {
        let i = choose|i: int|
            0 <= i < statements.len() && (#[trigger] statements[i]).effect == effect && speaks_of(
                statements[i],
                action.name(),
                resource,
                principal,
                context,
            );
        assert(crate::policy::applies(statements[i], action, resource, principal, context));
    }
}

/// An action is allowed exactly where no deny is about it, neither of the caller's statements nor of
/// the runtime's for this principal, where an allow of the caller's statements is, and where the
/// runtime has no statements of its own or one of them allows it to this principal.
pub proof fn law_policy_decisions(
    policy: crate::runtime::AuthorizationPolicyView,
    action: RuntimeIamAction,
    resource: Seq<char>,
    principal: Seq<char>,
    context: Map<Seq<char>, Seq<char>>,
)
    ensures
        ({
            let own = policy.identity_statements;
            let shared = policy.resource_statements;
            let who = Some(principal);
            let name = action.name();
            evaluated(policy, action, resource, principal, context) is Ok <==> {
                &&& !one_says(own, PolicyEffect::Deny, name, resource, None, context)
                &&& !one_says(shared, PolicyEffect::Deny, name, resource, who, context)
                &&& one_says(own, PolicyEffect::Allow, name, resource, None, context)
                &&& shared.len() == 0 || one_says(
                    shared,
                    PolicyEffect::Allow,
                    name,
                    resource,
                    who,
                    context,
                )
            }
        }),
{
    let own = policy.identity_statements;
    let shared = policy.resource_statements;
    lemma_one_says(own, PolicyEffect::Deny, action, resource, None, context);
    lemma_one_says(own, PolicyEffect::Allow, action, resource, None, context);
    lemma_one_says(shared, PolicyEffect::Deny, action, resource, Some(principal), context);
    lemma_one_says(shared, PolicyEffect::Allow, action, resource, Some(principal), context);
}

/// Actions are known by the names that the service gives them.
pub proof fn law_action_names()
    ensures
        RuntimeIamAction::InvokeAgentRuntime.name() == "bedrock-agentcore:InvokeAgentRuntime"@,
        RuntimeIamAction::InvokeAgentRuntimeForUser.name()
            == "bedrock-agentcore:InvokeAgentRuntimeForUser"@,
        RuntimeIamAction::InvokeAgentRuntimeCommand.name()
            == "bedrock-agentcore:InvokeAgentRuntimeCommand"@,
        RuntimeIamAction::StopRuntimeSession.name() == "bedrock-agentcore:StopRuntimeSession"@,
        RuntimeIamAction::GetAgentCard.name() == "bedrock-agentcore:GetAgentCard"@,
{
}

/// Policy mode asks the policy of the runtime about the action on the runtime by the credential's
/// principal, and about invoking for a user as well where a user is named. The policy sees the
/// principal, the region, the qualifier and the user.
pub proof fn law_policy_mode(
    runtime: ResolvedRuntimeView,
    request: AuthorizationRequestView,
    credential: ResolvedCredentialView,
    principal: Seq<char>,
    region: Seq<char>,
)
    requires
        credential.principal_arn == Some(principal),
        region_of(runtime.runtime_arn) == Ok::<Seq<char>, Seq<char>>(region),
    ensures
        ({
            let context = request_context(runtime, principal, region, request.runtime_user_id);
            &&& lookup(context, "aws:PrincipalArn"@) == Some(principal)
            &&& lookup(context, "aws:RequestedRegion"@) == Some(region)
            &&& lookup(context, "bedrock-agentcore:Qualifier"@) == Some(runtime.qualifier)
            &&& lookup(context, "bedrock-agentcore:RuntimeUserId"@) == request.runtime_user_id
            &&& forall|name: Seq<char>| #[trigger]
                context.contains_key(name) ==> name == "aws:PrincipalArn"@ || name
                    == "aws:RequestedRegion"@ || name == "bedrock-agentcore:Qualifier"@ || name
                    == "bedrock-agentcore:RuntimeUserId"@
            &&& policy_checked(runtime, request, credential) is Ok <==> {
                &&& evaluated(
                    runtime.policy,
                    request.action,
                    runtime.runtime_arn,
                    principal,
                    context,
                ) is Ok
                &&& (request.action == RuntimeIamAction::InvokeAgentRuntime
                    && request.runtime_user_id is Some) ==> evaluated(
                    runtime.policy,
                    RuntimeIamAction::InvokeAgentRuntimeForUser,
                    runtime.runtime_arn,
                    principal,
                    context,
                ) is Ok
            }
        }),
{
    reveal_strlit("aws:PrincipalArn");
    reveal_strlit("aws:RequestedRegion");
    reveal_strlit("bedrock-agentcore:Qualifier");
    reveal_strlit("bedrock-agentcore:RuntimeUserId");
    assert("aws:PrincipalArn"@.len() == 16);
    assert("aws:RequestedRegion"@.len() == 19);
    assert("bedrock-agentcore:Qualifier"@.len() == 27);
    assert("bedrock-agentcore:RuntimeUserId"@.len() == 31);
}

/// Policy mode lets no credential in that has no principal.
pub proof fn law_policy_mode_needs_a_principal(
    runtime: ResolvedRuntimeView,
    request: AuthorizationRequestView,
    credential: ResolvedCredentialView,
)
    requires
        credential.principal_arn is None,
    ensures
        policy_checked(runtime, request, credential) is Err,
{
}

/// A signed request is of the region of its scope; where its access key is twelve digits it is of
/// that account, and of the local account otherwise. A scope of another service is refused.
pub proof fn law_signed_identity(
    headers: Seq<HeaderView>,
    text: Seq<char>,
    header: AuthorizationHeaderView,
)
    requires
        said(headers, "authorization"@) == Some(text),
        parsed_authorization(text) == Ok::<AuthorizationHeaderView, Seq<char>>(header),
    ensures
        identity_of(headers) is Ok <==> header.service == "bedrock-agentcore"@ && header.terminator
            == "aws4_request"@,
        identity_of(headers) matches Ok(identity) ==> {
            &&& identity.region == header.region
            &&& identity.account_id == (if header.access_key_id.len() == 12 && (forall|i: int|
                0 <= i < 12 ==> '0' <= #[trigger] header.access_key_id[i] <= '9') {
                header.access_key_id
            } else {
                "000000000000"@
            })
        },
{
    let key = header.access_key_id;
    if key.len() == 12 && (forall|i: int| 0 <= i < 12 ==> '0' <= #[trigger] key[i] <= '9') {
        assert(is_account_id(key));
    }
    if is_account_id(key) {
        assert forall|i: int| 0 <= i < 12 implies '0' <= #[trigger] key[i] <= '9' by {
            assert(crate::text::is_digit(key[i]));
        }
    }
}

// Patterns.

/// How a pattern is read from the left: nothing stands for nothing, a question mark for any one
/// byte, a star for any number of bytes, and every other byte for itself.
pub proof fn law_patterns(first: u8, pattern: Seq<u8>, value: Seq<u8>)
    requires
        forall|i: int| 0 <= i < value.len() ==> #[trigger] value[i] != 42,
    ensures
        matches_bytes(Seq::empty(), value) <==> value.len() == 0,
        first == 63 ==> (matches_bytes(seq![first] + pattern, value) <==> value.len() > 0
            && matches_bytes(pattern, value.drop_first())),
        first == 42 ==> (matches_bytes(seq![first] + pattern, value) <==> exists|k: int|
            0 <= k <= value.len() && #[trigger] matches_bytes(pattern, value.skip(k))),
        first != 42 && first != 63 ==> (matches_bytes(seq![first] + pattern, value) <==> value.len()
            > 0 && value[0] == first && matches_bytes(pattern, value.drop_first())),
{
    let whole = seq![first] + pattern;
    assert(whole.drop_first() =~= pattern);
    law_matches_is_glob(Seq::empty(), value);
    law_matches_is_glob(whole, value);
    if value.len() > 0 {
        let rest = value.drop_first();
        assert forall|i: int| 0 <= i < rest.len() implies #[trigger] rest[i] != 42 by {
            assert(rest[i] == value[i + 1]);
        }
        law_matches_is_glob(pattern, rest);
    }
    if first == 42 {
        lemma_star(pattern, value);
        assert forall|k: int| 0 <= k <= value.len() implies (#[trigger] matches_bytes(
            pattern,
            value.skip(k),
        ) <==> glob(pattern, value.skip(k))) by {
            let rest = value.skip(k);
            assert forall|i: int| 0 <= i < rest.len() implies #[trigger] rest[i] != 42 by {
                assert(rest[i] == value[i + k]);
            }
            law_matches_is_glob(pattern, rest);
        }
        if glob(whole, value) {
            let k = choose|k: int|
                0 <= k <= value.len() && #[trigger] glob(pattern, value.skip(k));
            assert(matches_bytes(pattern, value.skip(k)));
        }
        if exists|k: int| 0 <= k <= value.len() && #[trigger] matches_bytes(
            pattern,
            value.skip(k),
        ) {
            let k = choose|k: int|
                0 <= k <= value.len() && #[trigger] matches_bytes(pattern, value.skip(k));
            assert(glob(pattern, value.skip(k)));
        }
    }
}

proof fn lemma_star(pattern: Seq<u8>, value: Seq<u8>)
    ensures
        glob(seq![42u8] + pattern, value) <==> exists|k: int|
            0 <= k <= value.len() && #[trigger] glob(pattern, value.skip(k)),
    decreases value.len(),
{
    let whole = seq![42u8] + pattern;
    assert(whole.drop_first() =~= pattern);
    assert(value.skip(0) =~= value);
    if value.len() > 0 {
        let rest = value.drop_first();
        lemma_star(pattern, rest);
        if glob(whole, rest) {
            let k = choose|k: int| 0 <= k <= rest.len() && #[trigger] glob(pattern, rest.skip(k));
            assert(value.skip(k + 1) =~= rest.skip(k));
            assert(glob(pattern, value.skip(k + 1)));
        }
        if exists|k: int| 0 <= k <= value.len() && #[trigger] glob(pattern, value.skip(k)) {
            let k = choose|k: int| 0 <= k <= value.len() && #[trigger] glob(pattern, value.skip(k));
            if k > 0 {
                assert(rest.skip(k - 1) =~= value.skip(k));
                assert(glob(pattern, rest.skip(k - 1)));
            }
        }
    } else {
        if exists|k: int| 0 <= k <= value.len() && #[trigger] glob(pattern, value.skip(k)) {
            let k = choose|k: int| 0 <= k <= value.len() && #[trigger] glob(pattern, value.skip(k));
            assert(k == 0);
        }
        if glob(pattern, value) {
            assert(glob(pattern, value.skip(0)));
        }
    }
    if glob(pattern, value) {
        assert(glob(pattern, value.skip(0)));
    }
}

/// Texts are matched byte by byte.
pub proof fn law_texts_are_matched_by_bytes(pattern: Seq<char>, value: Seq<char>)
    ensures
        matches_text(pattern, value) <==> matches_bytes(encode_utf8(pattern), encode_utf8(value)),
{
}

} // verus!
