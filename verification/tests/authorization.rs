//! Identities, policies and signatures.

use flint::auth::{
    authorize, authorize_at, check_skew, local_identity, names_account, parse_amz_date,
    runtime_region, validate_signed_headers, AuthorizationRequest,
};
use flint::catalog::{CatalogDocument, DiscoveryPolicy, RuntimeCatalog, RuntimeDocument};
use flint::descriptor::LifecycleConfigurationDocument;
use flint::edge::{authorize_request_at, ApiCall};
use flint::headers::Headers;
use flint::labels::Labels;
use flint::policy::{
    conditions_match, evaluate_action, statement_matches, AuthorizationError, RuntimeIamAction,
};
use flint::primitives::Timestamp;
use flint::runtime::{
    AuthenticationMode, AuthorizationPolicy, Condition, ConditionKey, Connectivity,
    ConnectivityMode, PolicyEffect, PolicyStatement, Protocol, ResolvedAuthenticationPolicy,
    ResolvedCredential, ResolvedRuntime, DEFAULT_ACCOUNT_ID, DEFAULT_REGION,
};
use flint::sigv4::{
    canonical_query, canonical_request, canonical_uri, normalize_header_value, parse_authorization,
    sha256_hex, signing_key, uri_encode,
};
use flint::wildcard::wildcard_match;
use hmac::{Hmac, Mac};
use sha2::Sha256;

const RUNTIME_ARN: &str = "arn:aws:bedrock-agentcore:us-east-1:000000000000:runtime/flint_local";

fn headers(pairs: &[(&str, &str)]) -> Headers {
    let mut headers = Headers::new();
    for (name, value) in pairs {
        headers.append(name, value.as_bytes().to_vec());
    }
    headers
}

fn runtime() -> ResolvedRuntime {
    let document = CatalogDocument {
        runtimes: vec![RuntimeDocument {
            name: Some("flint_local".to_owned()),
            image: "flint-runtime-fixture:local".to_owned(),
            protocol: Protocol::Http,
            environment_variables: Vec::new(),
            lifecycle_configuration: LifecycleConfigurationDocument {
                idle_runtime_session_timeout: None,
                max_lifetime: None,
            },
        }],
    };
    let policy = DiscoveryPolicy {
        connectivity: Connectivity {
            mode: ConnectivityMode::Native,
            docker_network: None,
            add_host_gateway: false,
        },
        environment_allowlist: Vec::new(),
        header_allowlist: Vec::new(),
    };
    match RuntimeCatalog::from_bytes_with_environment(
        "fixture.json",
        b"{}",
        &document,
        &policy,
        &Labels::new(),
    ) {
        Ok(catalog) => catalog.default_snapshot(),
        Err(error) => panic!("{}", error.message()),
    }
}

fn secured(mode: AuthenticationMode, policy: AuthorizationPolicy) -> ResolvedRuntime {
    let mut runtime = runtime();
    runtime.authentication = ResolvedAuthenticationPolicy {
        mode,
        allowed_clock_skew_seconds: 300,
        credentials: vec![ResolvedCredential {
            access_key_id: "local-access-key".to_owned(),
            secret_access_key: "local-secret-key".to_owned(),
            session_token: None,
            principal_arn: Some("arn:aws:iam::000000000000:role/local-runtime".to_owned()),
        }],
    };
    runtime.policy = policy;
    runtime
}

fn no_policy() -> AuthorizationPolicy {
    AuthorizationPolicy { identity_statements: Vec::new(), resource_statements: Vec::new() }
}

fn hmac(key: &[u8], value: &[u8]) -> Vec<u8> {
    let mut hmac = Hmac::<Sha256>::new_from_slice(key).expect("any key");
    hmac.update(value);
    hmac.finalize().into_bytes().to_vec()
}

/// 20 August 2026, 12:00:00 UTC.
const NOON: i64 = 1_787_227_200;

fn signed_request(secret: &str, body: &[u8], user: Option<&str>) -> AuthorizationRequest {
    let digest = sha256_hex(body);
    let mut all = headers(&[
        ("host", "127.0.0.1:35469"),
        ("x-amz-date", "20260820T120000Z"),
        ("x-amz-content-sha256", &digest),
    ]);
    let mut signed = vec![
        "host".to_owned(),
        "x-amz-content-sha256".to_owned(),
        "x-amz-date".to_owned(),
    ];
    if let Some(user) = user {
        all.append("x-amzn-bedrock-agentcore-runtime-user-id", user.as_bytes().to_vec());
        signed.push("x-amzn-bedrock-agentcore-runtime-user-id".to_owned());
    }
    let path = "/runtimes/flint_local/invocations";
    let canonical = canonical_request("POST", path, None, &all, &signed, &digest)
        .expect("canonical request");
    let string_to_sign = format!(
        "AWS4-HMAC-SHA256\n20260820T120000Z\n20260820/us-east-1/bedrock-agentcore/aws4_request\n{}",
        sha256_hex(canonical.as_bytes())
    );
    let key = signing_key(secret, "20260820", "us-east-1", "bedrock-agentcore");
    let signature = hex::encode(hmac(&key, string_to_sign.as_bytes()));
    all.append(
        "authorization",
        format!(
            "AWS4-HMAC-SHA256 Credential=local-access-key/20260820/us-east-1/bedrock-agentcore/aws4_request, SignedHeaders={}, Signature={signature}",
            signed.join(";")
        )
        .into_bytes(),
    );
    AuthorizationRequest {
        method: "POST".to_owned(),
        path: path.to_owned(),
        query: None,
        headers: all,
        body: body.to_vec(),
        action: RuntimeIamAction::InvokeAgentRuntime,
        runtime_user_id: user.map(str::to_owned),
    }
}

fn refusal<T>(result: Result<T, AuthorizationError>) -> String {
    match result {
        Ok(_) => panic!("the request was let in"),
        Err(error) => error.message(),
    }
}

#[test]
fn local_identity_uses_floci_style_sigv4_context() {
    let unsigned = local_identity(&Headers::new()).expect("unsigned identity");
    assert_eq!(unsigned.region, DEFAULT_REGION);
    assert_eq!(unsigned.account_id, DEFAULT_ACCOUNT_ID);

    let authorization = |access_key: &str, region: &str| {
        format!(
            "AWS4-HMAC-SHA256 Credential={access_key}/20260819/{region}/bedrock-agentcore/aws4_request, SignedHeaders=host;x-amz-date, Signature={}",
            "0".repeat(64)
        )
        .into_bytes()
    };
    let mut headers = Headers::new();
    headers.insert("authorization", authorization("123456789012", "eu-west-1"));
    let multi_account = local_identity(&headers).expect("multi-account identity");
    assert_eq!(multi_account.region, "eu-west-1");
    assert_eq!(multi_account.account_id, "123456789012");

    headers.insert("authorization", authorization("test", "ap-southeast-2"));
    let default_account = local_identity(&headers).expect("default account identity");
    assert_eq!(default_account.region, "ap-southeast-2");
    assert_eq!(default_account.account_id, DEFAULT_ACCOUNT_ID);
}

#[test]
fn wildcard_matching_is_bounded_and_predictable() {
    assert!(wildcard_match(
        "bedrock-agentcore:Invoke*",
        "bedrock-agentcore:InvokeAgentRuntime"
    ));
    assert!(wildcard_match(
        "arn:aws:*:runtime/*",
        "arn:aws:bedrock-agentcore:runtime/demo"
    ));
    assert!(!wildcard_match(
        "bedrock-agentcore:Get*",
        "bedrock-agentcore:InvokeAgentRuntime"
    ));
}

#[test]
fn wildcards_stand_for_runs_and_single_bytes() {
    assert!(wildcard_match("", ""));
    assert!(!wildcard_match("", "a"));
    assert!(wildcard_match("*", ""));
    assert!(wildcard_match("***", "abc"));
    assert!(wildcard_match("a?c", "abc"));
    assert!(!wildcard_match("a?c", "ac"));
    assert!(wildcard_match("*b*b*", "abxb"));
    assert!(!wildcard_match("*b*b", "abxbc"));
    assert!(wildcard_match("??", "é"));
}

#[test]
fn a_literal_star_in_the_value_is_matched_as_itself() {
    assert!(wildcard_match("*", "*"));
    assert!(!wildcard_match("*", "*a"));
}

#[test]
fn statement_matching_requires_action_resource_principal_and_conditions() {
    let statement = PolicyStatement {
        effect: PolicyEffect::Allow,
        actions: vec!["bedrock-agentcore:Invoke*".to_owned()],
        resources: vec!["arn:aws:bedrock-agentcore:*:*:runtime/*".to_owned()],
        principals: vec!["arn:aws:iam::*:role/local-*".to_owned()],
        conditions: vec![Condition {
            operator: "StringEquals".to_owned(),
            keys: vec![ConditionKey {
                key: "bedrock-agentcore:Qualifier".to_owned(),
                expected: vec!["DEFAULT".to_owned()],
            }],
        }],
    };
    let context = Labels::from_pairs(vec![(
        "bedrock-agentcore:Qualifier".to_owned(),
        "DEFAULT".to_owned(),
    )]);
    assert!(statement_matches(
        &statement,
        RuntimeIamAction::InvokeAgentRuntime,
        "arn:aws:bedrock-agentcore:us-west-2:000000000000:runtime/flint_local",
        Some("arn:aws:iam::000000000000:role/local-runtime"),
        &context,
    ));
    assert!(conditions_match(&statement, &context));
    assert!(!conditions_match(&statement, &Labels::new()));
    assert!(!statement_matches(
        &statement,
        RuntimeIamAction::StopRuntimeSession,
        "arn:aws:bedrock-agentcore:us-west-2:000000000000:runtime/flint_local",
        Some("arn:aws:iam::000000000000:role/local-runtime"),
        &context,
    ));
}

#[test]
fn explicit_deny_overrides_matching_allow() {
    let statement = |effect, actions: Vec<String>| PolicyStatement {
        effect,
        actions,
        resources: vec!["*".to_owned()],
        principals: Vec::new(),
        conditions: Vec::new(),
    };
    let policy = AuthorizationPolicy {
        identity_statements: vec![
            statement(PolicyEffect::Allow, vec!["bedrock-agentcore:*".to_owned()]),
            statement(
                PolicyEffect::Deny,
                vec!["bedrock-agentcore:StopRuntimeSession".to_owned()],
            ),
        ],
        resource_statements: Vec::new(),
    };
    let error = evaluate_action(
        &policy,
        RuntimeIamAction::StopRuntimeSession,
        "arn:aws:bedrock-agentcore:us-west-2:000000000000:runtime/flint_local",
        "arn:aws:iam::000000000000:role/local-runtime",
        &Labels::new(),
    )
    .expect_err("explicit deny wins");
    assert!(error.message().contains("explicit policy deny"));
    assert!(evaluate_action(
        &policy,
        RuntimeIamAction::InvokeAgentRuntime,
        "arn:aws:bedrock-agentcore:us-west-2:000000000000:runtime/flint_local",
        "arn:aws:iam::000000000000:role/local-runtime",
        &Labels::new(),
    )
    .is_ok());
}

#[test]
fn what_no_statement_allows_is_denied() {
    assert!(evaluate_action(
        &no_policy(),
        RuntimeIamAction::GetAgentCard,
        RUNTIME_ARN,
        "anyone",
        &Labels::new(),
    )
    .is_err());
}

#[test]
fn a_resource_statement_can_deny_what_the_identity_allows() {
    let statement = |effect, principals: Vec<String>| PolicyStatement {
        effect,
        actions: vec!["*".to_owned()],
        resources: vec!["*".to_owned()],
        principals,
        conditions: Vec::new(),
    };
    let policy = AuthorizationPolicy {
        identity_statements: vec![statement(PolicyEffect::Allow, Vec::new())],
        resource_statements: vec![statement(PolicyEffect::Deny, vec!["*".to_owned()])],
    };
    assert!(evaluate_action(
        &policy,
        RuntimeIamAction::InvokeAgentRuntime,
        RUNTIME_ARN,
        "anyone",
        &Labels::new(),
    )
    .is_err());
}

#[test]
fn actions_have_their_service_names() {
    assert_eq!(
        RuntimeIamAction::InvokeAgentRuntimeForUser.as_str(),
        "bedrock-agentcore:InvokeAgentRuntimeForUser"
    );
    assert_eq!(RuntimeIamAction::GetAgentCard.as_str(), "bedrock-agentcore:GetAgentCard");
}

#[test]
fn accounts_are_twelve_digits() {
    assert!(names_account("123456789012"));
    assert!(!names_account("12345678901"));
    assert!(!names_account("12345678901a"));
}

#[test]
fn digests_and_keys_have_their_known_values() {
    assert_eq!(
        sha256_hex(b""),
        "e3b0c44298fc1c149afbf4c8996fb92427ae41e4649b934ca495991b7852b855"
    );
    assert_eq!(
        sha256_hex(b"abc"),
        "ba7816bf8f01cfea414140de5dae2223b00361a396177a9cb410ff61f20015ad"
    );
    let date = hmac(b"AWS4local-secret-key", b"20260820");
    let region = hmac(&date, b"us-east-1");
    let service = hmac(&region, b"bedrock-agentcore");
    assert_eq!(
        signing_key("local-secret-key", "20260820", "us-east-1", "bedrock-agentcore"),
        hmac(&service, b"aws4_request")
    );
}

#[test]
fn requests_have_a_canonical_form() {
    assert_eq!(uri_encode(b"a b/c~\xff", true), "a%20b/c~%FF");
    assert_eq!(uri_encode(b"a/b", false), "a%2Fb");
    assert_eq!(canonical_uri(""), "/");
    assert_eq!(canonical_uri("/runtimes/arn%3Aaws"), "/runtimes/arn%253Aaws");
    assert_eq!(canonical_query(None), "");
    assert_eq!(canonical_query(Some("b=2&a=1&a=0&c")), "a=0&a=1&b=2&c=");
    assert_eq!(normalize_header_value("  a   b  "), "a b");
    assert_eq!(normalize_header_value("a b"), "a b");
    let all = headers(&[("host", "localhost"), ("x-amz-date", " now ")]);
    assert_eq!(
        canonical_request(
            "GET",
            "/card",
            Some("q=1"),
            &all,
            &vec!["host".to_owned(), "x-amz-date".to_owned()],
            "HASH",
        )
        .expect("canonical request"),
        "GET\n/card\nq=1\nhost:localhost\nx-amz-date:now\n\nhost;x-amz-date\nHASH"
    );
}

#[test]
fn canonical_queries_stay_and_do_not_depend_on_order() {
    let canonical = "a=0&a=1&b=2&c=";
    assert_eq!(canonical_query(Some(canonical)), canonical);
    for query in ["c&a=1&b=2&a=0", "&a=0&&c&a=1&b=2", "b=2&a=0&a=1&c="] {
        assert_eq!(canonical_query(Some(query)), canonical, "{query}");
    }
    assert_eq!(canonical_query(Some("&&")), "");
    assert_eq!(canonical_query(Some("=v&a=b=c")), "=v&a=b=c");
}

#[test]
fn malformed_authorization_headers_are_refused() {
    for value in [
        "",
        "Basic abc",
        "AWS4-HMAC-SHA256 Credential=a/b/c/d, SignedHeaders=host, Signature=00",
        "AWS4-HMAC-SHA256 SignedHeaders=host, Signature=00",
    ] {
        assert!(parse_authorization(value).is_err(), "{value}");
    }
}

#[test]
fn signed_headers_are_sorted_unique_and_present() {
    let all = headers(&[("host", "localhost"), ("x-amz-date", "now")]);
    let check = |names: &[&str]| {
        validate_signed_headers(&all, &names.iter().map(ToString::to_string).collect())
    };
    assert!(check(&["host", "x-amz-date"]).is_ok());
    assert_eq!(refusal(check(&["x-amz-date"])), "access denied: signed headers must include host");
    assert_eq!(
        refusal(check(&["x-amz-date", "host"])),
        "access denied: signed headers must be sorted and unique"
    );
    assert!(check(&["host", "x-missing"]).is_err());
}

#[test]
fn dates_are_read_as_utc() {
    let noon = parse_amz_date("20260820T120000Z").expect("date");
    assert_eq!(noon.seconds, NOON);
    assert_eq!(noon.nanos, 0);
    assert!(parse_amz_date("2026-08-20").is_err());
}

#[test]
fn clocks_may_differ_by_the_allowed_skew_only() {
    assert!(check_skew(Some(300), 300).is_ok());
    assert!(check_skew(Some(-300), 300).is_ok());
    assert!(check_skew(Some(301), 300).is_err());
    assert!(check_skew(Some(-301), 300).is_err());
    assert!(check_skew(Some(i64::MIN), 300).is_err());
    assert!(check_skew(None, 300).is_err());
}

#[test]
fn the_region_of_a_runtime_is_in_its_name() {
    assert_eq!(runtime_region(&runtime()).expect("region"), "us-east-1");
    let mut nameless = runtime();
    nameless.runtime_arn = "arn:aws".to_owned();
    assert_eq!(refusal(runtime_region(&nameless)), "access denied: runtime ARN has no region");
}

#[test]
fn a_right_signature_is_let_in_and_a_wrong_one_is_not() {
    let runtime = secured(AuthenticationMode::Signature, no_policy());
    let now = Timestamp { seconds: NOON + 10, nanos: 0 };
    let request = signed_request("local-secret-key", b"signed payload", None);
    let principal = authorize_at(&runtime, &request, now).expect("valid signature");
    assert_eq!(
        principal.principal_arn.as_deref(),
        Some("arn:aws:iam::000000000000:role/local-runtime")
    );

    let wrong = signed_request("wrong-secret", b"signed payload", None);
    assert!(authorize_at(&runtime, &wrong, now).is_err());

    let mut tampered = signed_request("local-secret-key", b"signed payload", None);
    tampered.body = b"another payload".to_vec();
    assert!(authorize_at(&runtime, &tampered, now).is_err());

    let late = Timestamp { seconds: NOON + 301, nanos: 0 };
    assert!(authorize_at(&runtime, &request, late).is_err());
    let unsigned = AuthorizationRequest { headers: Headers::new(), ..request };
    assert!(authorize_at(&runtime, &unsigned, now).is_err());
}

#[test]
fn calling_for_a_user_needs_both_permissions() {
    let policy = AuthorizationPolicy {
        identity_statements: vec![PolicyStatement {
            effect: PolicyEffect::Allow,
            actions: vec!["bedrock-agentcore:InvokeAgentRuntime".to_owned()],
            resources: vec![RUNTIME_ARN.to_owned()],
            principals: Vec::new(),
            conditions: Vec::new(),
        }],
        resource_statements: Vec::new(),
    };
    let runtime = secured(AuthenticationMode::Policy, policy);
    let now = Timestamp { seconds: NOON, nanos: 0 };
    let allowed = signed_request("local-secret-key", b"allowed", None);
    assert!(authorize_at(&runtime, &allowed, now).is_ok());
    let for_user = signed_request("local-secret-key", b"requires second permission", Some("u"));
    assert!(authorize_at(&runtime, &for_user, now).is_err());
}

#[test]
fn permissive_mode_lets_unsigned_requests_in_at_any_time() {
    let request = AuthorizationRequest {
        method: "POST".to_owned(),
        path: "/".to_owned(),
        query: None,
        headers: Headers::new(),
        body: Vec::new(),
        action: RuntimeIamAction::InvokeAgentRuntime,
        runtime_user_id: None,
    };
    let principal = authorize(&runtime(), &request).expect("permissive");
    assert_eq!(principal.principal_arn, None);
}

#[test]
fn the_present_time_is_past_the_day_of_this_test() {
    // A signature that was made long ago is refused by the clock of the machine.
    let runtime = secured(AuthenticationMode::Signature, no_policy());
    let mut request = signed_request("local-secret-key", b"", None);
    request.headers.insert("x-amz-date", b"20200101T000000Z".to_vec());
    assert!(authorize(&runtime, &request).is_err());
}

#[test]
fn calls_are_judged_by_their_signature_at_a_given_time() {
    let runtime = secured(AuthenticationMode::Signature, no_policy());
    let request = signed_request("local-secret-key", b"signed payload", None);
    let call = ApiCall {
        request_id: "request-1".to_owned(),
        runtime_identifier: "flint_local".to_owned(),
        account_id: None,
        qualifier: None,
        method: request.method,
        path: request.path,
        query: None,
        headers: request.headers,
    };
    let body = b"signed payload".to_vec();
    let action = RuntimeIamAction::InvokeAgentRuntime;
    let soon = Timestamp { seconds: NOON + 10, nanos: 0 };
    assert!(authorize_request_at(&runtime, &call, &body, action, soon).is_ok());
    let late = Timestamp { seconds: NOON + 301, nanos: 0 };
    match authorize_request_at(&runtime, &call, &body, action, late) {
        Ok(()) => panic!("the call was let in"),
        Err(error) => {
            assert_eq!(error.status, 403);
            assert_eq!(error.code, "access_denied");
            assert_eq!(error.request_id, "request-1");
        }
    }
}
