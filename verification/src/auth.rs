//! Who may call a runtime: the caller's identity, signature and policy.

use vstd::prelude::*;
use vstd::utf8::encode_utf8;

use crate::headers::{value_of, HeaderView, Headers};
use crate::labels::Labels;
use crate::order::{distinct_sorted, sort_distinct};
use crate::policy::{denied, evaluate_action, evaluated, AuthorizationError, RuntimeIamAction};
use crate::primitives::{
    clock_difference, hex_decode, hmac_tag, hmac_verifies, read_utc_time, seconds_between,
    unhex, utc_now, utc_time, Timestamp,
};
use crate::runtime::{
    default_account_id, default_identity, AuthenticationMode, LocalIdentity, LocalIdentityView,
    ResolvedCredential, ResolvedCredentialView, ResolvedRuntime, ResolvedRuntimeView,
    DEFAULT_ACCOUNT_ID,
};
use crate::sigv4::{
    canonical_request, canonical_request_of, header_text, header_text_of, optional_header,
    optional_header_of, parse_authorization, parsed_authorization, required_header,
    required_header_of, sha256_hex, sha256_hex_of, signing_key, signing_key_of, AuthorizationHeader,
    AuthorizationHeaderView, AMZ_CONTENT_SHA256_HEADER, AMZ_DATE_HEADER, AMZ_SECURITY_TOKEN_HEADER,
    AUTHORIZATION_HEADER, SERVICE, TERMINATOR,
};
use crate::text::{
    agrees, cat3, cat7, char_is_digit, char_is_upper, chars_of, clone_opt, clone_texts,
    contains_text, has_prefix, is_digit, is_upper, opt_text, same, same_opt, split, split_text,
    starts_with, texts, views,
};

verus! {

/// A request as far as authorization looks at it.
pub struct AuthorizationRequest {
    pub method: String,
    pub path: String,
    pub query: Option<String>,
    pub headers: Headers,
    pub body: Vec<u8>,
    pub action: RuntimeIamAction,
    pub runtime_user_id: Option<String>,
}

#[verifier::ext_equal]
pub struct AuthorizationRequestView {
    pub method: Seq<char>,
    pub path: Seq<char>,
    pub query: Option<Seq<char>>,
    pub headers: Seq<HeaderView>,
    pub body: Seq<u8>,
    pub action: RuntimeIamAction,
    pub runtime_user_id: Option<Seq<char>>,
}

impl View for AuthorizationRequest {
    type V = AuthorizationRequestView;

    open spec fn view(&self) -> AuthorizationRequestView {
        AuthorizationRequestView {
            method: self.method@,
            path: self.path@,
            query: opt_text(self.query),
            headers: self.headers@,
            body: self.body@,
            action: self.action,
            runtime_user_id: opt_text(self.runtime_user_id),
        }
    }
}

/// Who was let in.
#[derive(Debug)]
pub struct AuthorizedPrincipal {
    pub principal_arn: Option<String>,
}

impl View for AuthorizedPrincipal {
    type V = Option<Seq<char>>;

    open spec fn view(&self) -> Option<Seq<char>> {
        opt_text(self.principal_arn)
    }
}

// The identity that a request claims.

/// Twelve digits.
pub open spec fn is_account_id(s: Seq<char>) -> bool {
    s.len() == 12 && forall|i: int| 0 <= i < s.len() ==> is_digit(#[trigger] s[i])
}

pub fn names_account(s: &str) -> (r: bool)
    ensures
        r == is_account_id(s@),
{
    let chars = chars_of(s);
    if chars.len() != 12 {
        return false;
    }
    for i in 0..chars.len()
        invariant
            chars@ == s@,
            forall|k: int| 0 <= k < i ==> is_digit(#[trigger] s@[k]),
    {
        if !char_is_digit(chars[i]) {
            proof {
                assert(!is_digit(s@[i as int]));
            }
            return false;
        }
    }
    true
}

pub open spec fn wrong_scope() -> Seq<char> {
    "credential scope has the wrong service or terminator"@
}

/// The region of the credential scope, and the access key as account where it is one; without an
/// authorization header the default identity.
pub open spec fn identity_of(headers: Seq<HeaderView>) -> Result<LocalIdentityView, Seq<char>> {
    match value_of(headers, "authorization"@) {
        None => Ok(default_identity()),
        Some(value) => match header_text_of(value, "authorization"@) {
            Err(e) => Err(e),
            Ok(text) => match parsed_authorization(text) {
                Err(e) => Err(e),
                Ok(header) => if header.service != "bedrock-agentcore"@ || header.terminator
                    != "aws4_request"@ {
                    Err(wrong_scope())
                } else {
                    Ok(
                        LocalIdentityView {
                            region: header.region,
                            account_id: if is_account_id(header.access_key_id) {
                                header.access_key_id
                            } else {
                                default_account_id()
                            },
                        },
                    )
                },
            },
        },
    }
}

pub fn local_identity(headers: &Headers) -> (r: Result<LocalIdentity, AuthorizationError>)
    ensures
        agrees(r, identity_of(headers@)),
{
    let value = match headers.get(AUTHORIZATION_HEADER) {
        None => {
            return Ok(LocalIdentity::default());
        },
        Some(value) => value,
    };
    let text = match header_text(&value, AUTHORIZATION_HEADER) {
        Err(e) => {
            return Err(e);
        },
        Ok(text) => text,
    };
    let header = match parse_authorization(text.as_str()) {
        Err(e) => {
            return Err(e);
        },
        Ok(header) => header,
    };
    if !same(header.service.as_str(), SERVICE) || !same(header.terminator.as_str(), TERMINATOR) {
        return denied("credential scope has the wrong service or terminator");
    }
    let account_id = if names_account(header.access_key_id.as_str()) {
        header.access_key_id
    } else {
        DEFAULT_ACCOUNT_ID.to_owned()
    };
    Ok(LocalIdentity { region: header.region, account_id })
}

// The credential scope and the signed headers.

/// The fourth part of the runtime's ARN, where there is one.
pub open spec fn region_of(runtime_arn: Seq<char>) -> Result<Seq<char>, Seq<char>> {
    let parts = split(runtime_arn, ':');
    if parts.len() > 3 && parts[3].len() > 0 {
        Ok(parts[3])
    } else {
        Err("runtime ARN has no region"@)
    }
}

pub fn runtime_region(runtime: &ResolvedRuntime) -> (r: Result<String, AuthorizationError>)
    ensures
        agrees(r, region_of(runtime@.runtime_arn)),
{
    let parts = split_text(runtime.runtime_arn.as_str(), ':');
    proof {
        assert(texts(parts@).len() == parts@.len());
        if parts@.len() > 3 {
            assert(texts(parts@)[3] == parts@[3]@);
        }
    }
    if parts.len() > 3 && !parts[3].as_str().is_empty() {
        Ok(parts[3].clone())
    } else {
        denied("runtime ARN has no region")
    }
}

pub open spec fn scope_checked(runtime_arn: Seq<char>, header: AuthorizationHeaderView) -> Result<
    (),
    Seq<char>,
> {
    if header.service != "bedrock-agentcore"@ || header.terminator != "aws4_request"@ {
        Err(wrong_scope())
    } else {
        match region_of(runtime_arn) {
            Err(e) => Err(e),
            Ok(region) => if header.region != region {
                Err("credential scope has the wrong region"@)
            } else {
                Ok(())
            },
        }
    }
}

pub fn validate_scope(runtime: &ResolvedRuntime, authorization: &AuthorizationHeader) -> (r: Result<
    (),
    AuthorizationError,
>)
    ensures
        agrees(r, scope_checked(runtime@.runtime_arn, authorization@)),
{
    if !same(authorization.service.as_str(), SERVICE) || !same(
        authorization.terminator.as_str(),
        TERMINATOR,
    ) {
        return denied("credential scope has the wrong service or terminator");
    }
    match runtime_region(runtime) {
        Err(e) => Err(e),
        Ok(region) => {
            if !same(authorization.region.as_str(), region.as_str()) {
                denied("credential scope has the wrong region")
            } else {
                Ok(())
            }
        },
    }
}

pub open spec fn has_upper(s: Seq<char>) -> bool {
    exists|i: int| 0 <= i < s.len() && is_upper(#[trigger] s[i])
}

fn text_has_upper(s: &str) -> (r: bool)
    ensures
        r == has_upper(s@),
{
    let chars = chars_of(s);
    for i in 0..chars.len()
        invariant
            chars@ == s@,
            forall|k: int| 0 <= k < i ==> !is_upper(#[trigger] s@[k]),
    {
        if char_is_upper(chars[i]) {
            proof {
                assert(is_upper(s@[i as int]));
            }
            return true;
        }
    }
    false
}

/// A signed header is in lower case and present.
pub open spec fn signed_header_ok(headers: Seq<HeaderView>, name: Seq<char>) -> bool {
    !has_upper(name) && value_of(headers, name) is Some
}

/// The first signed header that is not in lower case or not present.
pub open spec fn first_bad_header(headers: Seq<HeaderView>, names: Seq<Seq<char>>) -> Option<
    Seq<char>,
>
    decreases names.len(),
{
    if names.len() == 0 {
        None
    } else if !signed_header_ok(headers, names[0]) {
        Some(names[0])
    } else {
        first_bad_header(headers, names.drop_first())
    }
}

/// The signed headers name `host`, are sorted without repetition, and are all present in lower
/// case.
pub open spec fn signed_headers_checked(
    headers: Seq<HeaderView>,
    names: Seq<Seq<char>>,
) -> Result<(), Seq<char>> {
    if !names.contains("host"@) {
        Err("signed headers must include host"@)
    } else if distinct_sorted(names) != names {
        Err("signed headers must be sorted and unique"@)
    } else {
        match first_bad_header(headers, names) {
            Some(name) => Err("signed header "@ + name + " is invalid or missing"@),
            None => Ok(()),
        }
    }
}

pub fn validate_signed_headers(headers: &Headers, signed_headers: &Vec<String>) -> (r: Result<
    (),
    AuthorizationError,
>)
    ensures
        agrees(r, signed_headers_checked(headers@, texts(signed_headers@))),
{
    if !contains_text(signed_headers, "host") {
        return denied("signed headers must include host");
    }
    let sorted = sort_distinct(clone_texts(signed_headers));
    if !same_texts(&sorted, signed_headers) {
        return denied("signed headers must be sorted and unique");
    }
    let ghost all = texts(signed_headers@);
    proof {
        assert(all.skip(0) =~= all);
    }
    for i in 0..signed_headers.len()
        invariant
            all == texts(signed_headers@),
            all.contains("host"@),
            distinct_sorted(all) == all,
            first_bad_header(headers@, all) == first_bad_header(headers@, all.skip(i as int)),
    {
        let name = signed_headers[i].as_str();
        proof {
            assert(all.skip(i as int)[0] == name@);
            assert(all.skip(i as int).drop_first() =~= all.skip(i as int + 1));
        }
        if text_has_upper(name) || !headers.contains(name) {
            return denied(cat3("signed header ", name, " is invalid or missing").as_str());
        }
    }
    Ok(())
}

/// Whether two lists hold the same texts in the same order.
pub fn same_texts(a: &Vec<String>, b: &Vec<String>) -> (r: bool)
    ensures
        r == (texts(a@) == texts(b@)),
{
    if a.len() != b.len() {
        proof {
            assert(texts(a@).len() != texts(b@).len());
        }
        return false;
    }
    for i in 0..a.len()
        invariant
            a@.len() == b@.len(),
            forall|k: int| 0 <= k < i ==> texts(a@)[k] == texts(b@)[k],
    {
        if a[i] != b[i] {
            proof {
                assert(texts(a@)[i as int] != texts(b@)[i as int]);
            }
            return false;
        }
        proof {
            assert(texts(a@)[i as int] == texts(b@)[i as int]);
        }
    }
    proof {
        assert(texts(a@) =~= texts(b@));
    }
    true
}

pub open spec fn session_token_checked(
    headers: Seq<HeaderView>,
    expected: Option<Seq<char>>,
) -> Result<(), Seq<char>> {
    match optional_header_of(headers, "x-amz-security-token"@) {
        Err(e) => Err(e),
        Ok(supplied) => if supplied != expected {
            Err("session token does not match the configured credential"@)
        } else {
            Ok(())
        },
    }
}

pub fn validate_session_token(headers: &Headers, credential: &ResolvedCredential) -> (r: Result<
    (),
    AuthorizationError,
>)
    ensures
        agrees(r, session_token_checked(headers@, credential@.session_token)),
{
    match optional_header(headers, AMZ_SECURITY_TOKEN_HEADER) {
        Err(e) => Err(e),
        Ok(supplied) => {
            if !same_opt(&supplied, &credential.session_token) {
                denied("session token does not match the configured credential")
            } else {
                Ok(())
            }
        },
    }
}

// Unsigned use.

pub open spec fn date_mismatch() -> Seq<char> {
    "credential date does not match x-amz-date"@
}

/// Without an authorization header anyone is let in; with one its scope, signed headers and date
/// must be right. The signature itself is not looked at.
pub open spec fn permissive(
    runtime: ResolvedRuntimeView,
    request: AuthorizationRequestView,
) -> Result<Option<Seq<char>>, Seq<char>> {
    match value_of(request.headers, "authorization"@) {
        None => Ok(None),
        Some(value) => match header_text_of(value, "authorization"@) {
            Err(e) => Err(e),
            Ok(text) => match parsed_authorization(text) {
                Err(e) => Err(e),
                Ok(header) => match scope_checked(runtime.runtime_arn, header) {
                    Err(e) => Err(e),
                    Ok(_) => match signed_headers_checked(request.headers, header.signed_headers) {
                        Err(e) => Err(e),
                        Ok(_) => match required_header_of(request.headers, "x-amz-date"@) {
                            Err(e) => Err(e),
                            Ok(date) => if !starts_with(date, header.date) {
                                Err(date_mismatch())
                            } else {
                                Ok(None)
                            },
                        },
                    },
                },
            },
        },
    }
}

pub fn authorize_permissive(runtime: &ResolvedRuntime, request: &AuthorizationRequest) -> (r: Result<
    AuthorizedPrincipal,
    AuthorizationError,
>)
    ensures
        agrees(r, permissive(runtime@, request@)),
{
    let value = match request.headers.get(AUTHORIZATION_HEADER) {
        None => {
            return Ok(AuthorizedPrincipal { principal_arn: None });
        },
        Some(value) => value,
    };
    let text = match header_text(&value, AUTHORIZATION_HEADER) {
        Err(e) => {
            return Err(e);
        },
        Ok(text) => text,
    };
    let header = match parse_authorization(text.as_str()) {
        Err(e) => {
            return Err(e);
        },
        Ok(header) => header,
    };
    match validate_scope(runtime, &header) {
        Err(e) => {
            return Err(e);
        },
        Ok(_) => {},
    }
    match validate_signed_headers(&request.headers, &header.signed_headers) {
        Err(e) => {
            return Err(e);
        },
        Ok(_) => {},
    }
    match required_header(&request.headers, AMZ_DATE_HEADER) {
        Err(e) => Err(e),
        Ok(date) => {
            if !has_prefix(date.as_str(), header.date.as_str()) {
                denied("credential date does not match x-amz-date")
            } else {
                Ok(AuthorizedPrincipal { principal_arn: None })
            }
        },
    }
}

// Signed use.

/// The first credential with this access key.
pub open spec fn find_credential(
    credentials: Seq<ResolvedCredentialView>,
    access_key_id: Seq<char>,
) -> Option<ResolvedCredentialView>
    decreases credentials.len(),
{
    if credentials.len() == 0 {
        None
    } else if credentials[0].access_key_id == access_key_id {
        Some(credentials[0])
    } else {
        find_credential(credentials.drop_first(), access_key_id)
    }
}

fn credential_for<'a>(credentials: &'a Vec<ResolvedCredential>, access_key_id: &str) -> (r: Option<
    &'a ResolvedCredential,
>)
    ensures
        match (r, find_credential(views(credentials@), access_key_id@)) {
            (Some(a), Some(b)) => a@ == b,
            (None, None) => true,
            _ => false,
        },
{
    let ghost all = views(credentials@);
    proof {
        assert(all.skip(0) =~= all);
    }
    for i in 0..credentials.len()
        invariant
            all == views(credentials@),
            find_credential(all, access_key_id@) == find_credential(
                all.skip(i as int),
                access_key_id@,
            ),
    {
        proof {
            assert(all.skip(i as int)[0] == credentials@[i as int]@);
            assert(all.skip(i as int).drop_first() =~= all.skip(i as int + 1));
        }
        if same(credentials[i].access_key_id.as_str(), access_key_id) {
            return Some(&credentials[i]);
        }
    }
    None
}

/// The distance of two times in seconds, where both exist.
pub open spec fn skew(now: Timestamp, time: Timestamp) -> Option<nat> {
    match clock_difference(now, time) {
        None => None,
        Some(seconds) => Some(
            if seconds < 0 {
                (-seconds) as nat
            } else {
                seconds as nat
            },
        ),
    }
}

/// The form of the time in `x-amz-date`.
pub const AMZ_DATE_FORMAT: &'static str = "%Y%m%dT%H%M%SZ";

/// The time that the text of `x-amz-date` stands for.
pub open spec fn amz_timestamp(date: Seq<char>) -> Option<Timestamp> {
    utc_time(date, AMZ_DATE_FORMAT@)
}

/// The time in `x-amz-date` is no further from now than is allowed.
pub open spec fn date_checked(date: Seq<char>, now: Timestamp, allowed: u64) -> Result<(), Seq<char>> {
    match amz_timestamp(date) {
        None => Err("x-amz-date is not a SigV4 timestamp"@),
        Some(time) => match skew(now, time) {
            Some(seconds) => if seconds > allowed {
                Err("request timestamp is outside the allowed clock skew"@)
            } else {
                Ok(())
            },
            None => Err("request timestamp is outside the allowed clock skew"@),
        },
    }
}

pub fn parse_amz_date(value: &str) -> (r: Result<Timestamp, AuthorizationError>)
    ensures
        match (r, amz_timestamp(value@)) {
            (Ok(a), Some(b)) => a == b,
            (Err(e), None) => e@ == "x-amz-date is not a SigV4 timestamp"@,
            _ => false,
        },
{
    match read_utc_time(value, AMZ_DATE_FORMAT) {
        Some(time) => Ok(time),
        None => denied("x-amz-date is not a SigV4 timestamp"),
    }
}

fn check_date(date: &str, now: Timestamp, allowed: u64) -> (r: Result<(), AuthorizationError>)
    ensures
        agrees(r, date_checked(date@, now, allowed)),
{
    match parse_amz_date(date) {
        Err(e) => Err(e),
        Ok(time) => check_skew(seconds_between(now, time), allowed),
    }
}

/// Decides on a distance in seconds, where there is one.
pub fn check_skew(difference: Option<i64>, allowed: u64) -> (r: Result<(), AuthorizationError>)
    ensures
        r is Ok <==> (difference matches Some(seconds) && -allowed <= seconds <= allowed),
        r matches Err(e) ==> e@ == "request timestamp is outside the allowed clock skew"@,
{
    match difference {
        None => denied("request timestamp is outside the allowed clock skew"),
        Some(seconds) => {
            let distance: i128 = if seconds < 0 {
                -(seconds as i128)
            } else {
                seconds as i128
            };
            if distance > allowed as i128 {
                denied("request timestamp is outside the allowed clock skew")
            } else {
                Ok(())
            }
        },
    }
}

/// What a signature is made of besides the canonical request.
pub open spec fn string_to_sign_of(
    amz_date: Seq<char>,
    header: AuthorizationHeaderView,
    canonical: Seq<char>,
) -> Seq<char> {
    "AWS4-HMAC-SHA256\n"@ + amz_date + "\n"@ + scope_text(header) + "\n"@ + sha256_hex_of(
        encode_utf8(canonical),
    )
}

pub open spec fn scope_text(header: AuthorizationHeaderView) -> Seq<char> {
    header.date + "/"@ + header.region + "/"@ + header.service + "/"@ + header.terminator
}

fn string_to_sign(amz_date: &str, header: &AuthorizationHeader, canonical: &str) -> (r: String)
    ensures
        r@ == string_to_sign_of(amz_date@, header@, canonical@),
{
    let scope = cat7(
        header.date.as_str(),
        "/",
        header.region.as_str(),
        "/",
        header.service.as_str(),
        "/",
        header.terminator.as_str(),
    );
    let digest = sha256_hex(canonical.as_bytes());
    crate::text::cat6(
        "AWS4-HMAC-SHA256\n",
        amz_date,
        "\n",
        scope.as_str(),
        "\n",
        digest.as_str(),
    )
}

/// The payload digest in `x-amz-content-sha256` is right, where it is given.
pub open spec fn payload_checked(headers: Seq<HeaderView>, body: Seq<u8>) -> Result<(), Seq<char>> {
    match optional_header_of(headers, "x-amz-content-sha256"@) {
        Err(e) => Err(e),
        Ok(supplied) => match supplied {
            None => Ok(()),
            Some(hash) => if hash != sha256_hex_of(body) {
                Err("request payload hash does not match x-amz-content-sha256"@)
            } else {
                Ok(())
            },
        },
    }
}

fn check_payload(headers: &Headers, payload_hash: &str, body: &Vec<u8>) -> (r: Result<
    (),
    AuthorizationError,
>)
    requires
        payload_hash@ == sha256_hex_of(body@),
    ensures
        agrees(r, payload_checked(headers@, body@)),
{
    match optional_header(headers, AMZ_CONTENT_SHA256_HEADER) {
        Err(e) => Err(e),
        Ok(supplied) => match supplied {
            None => Ok(()),
            Some(hash) => {
                if !same(hash.as_str(), payload_hash) {
                    denied("request payload hash does not match x-amz-content-sha256")
                } else {
                    Ok(())
                }
            },
        },
    }
}

/// The signature is the one that the credential's secret gives.
pub open spec fn signature_checked(
    request: AuthorizationRequestView,
    header: AuthorizationHeaderView,
    credential: ResolvedCredentialView,
    amz_date: Seq<char>,
) -> Result<(), Seq<char>> {
    match canonical_request_of(
        request.method,
        request.path,
        request.query,
        request.headers,
        header.signed_headers,
        sha256_hex_of(request.body),
    ) {
        Err(e) => Err(e),
        Ok(canonical) => match unhex(header.signature) {
            None => Err("signature is not hexadecimal"@),
            Some(signature) => if signature == hmac_tag(
                signing_key_of(
                    credential.secret_access_key,
                    header.date,
                    header.region,
                    header.service,
                ),
                encode_utf8(string_to_sign_of(amz_date, header, canonical)),
            ) {
                Ok(())
            } else {
                Err("signature does not match"@)
            },
        },
    }
}

fn check_signature(
    request: &AuthorizationRequest,
    header: &AuthorizationHeader,
    credential: &ResolvedCredential,
    amz_date: &str,
    payload_hash: &str,
) -> (r: Result<(), AuthorizationError>)
    requires
        payload_hash@ == sha256_hex_of(request@.body),
    ensures
        agrees(r, signature_checked(request@, header@, credential@, amz_date@)),
{
    let query = match &request.query {
        Some(text) => Some(text.as_str()),
        None => None,
    };
    match canonical_request(
        request.method.as_str(),
        request.path.as_str(),
        query,
        &request.headers,
        &header.signed_headers,
        payload_hash,
    ) {
        Err(e) => Err(e),
        Ok(canonical) => {
            let text = string_to_sign(amz_date, header, canonical.as_str());
            let key = signing_key(
                credential.secret_access_key.as_str(),
                header.date.as_str(),
                header.region.as_str(),
                header.service.as_str(),
            );
            match hex_decode(header.signature.as_str()) {
                None => denied("signature is not hexadecimal"),
                Some(signature) => {
                    if hmac_verifies(
                        key.as_slice(),
                        text.as_str().as_bytes(),
                        signature.as_slice(),
                    ) {
                        Ok(())
                    } else {
                        denied("signature does not match")
                    }
                },
            }
        },
    }
}

/// The credential that signed the request, or why the signature is refused.
pub open spec fn verified(
    runtime: ResolvedRuntimeView,
    request: AuthorizationRequestView,
    now: Timestamp,
) -> Result<ResolvedCredentialView, Seq<char>> {
    match required_header_of(request.headers, "authorization"@) {
        Err(e) => Err(e),
        Ok(text) => match parsed_authorization(text) {
            Err(e) => Err(e),
            Ok(header) => match scope_checked(runtime.runtime_arn, header) {
                Err(e) => Err(e),
                Ok(_) => match signed_headers_checked(request.headers, header.signed_headers) {
                    Err(e) => Err(e),
                    Ok(_) => match find_credential(
                        runtime.authentication.credentials,
                        header.access_key_id,
                    ) {
                        None => Err("unknown access key ID"@),
                        Some(credential) => verified_with(
                            runtime,
                            request,
                            now,
                            header,
                            credential,
                        ),
                    },
                },
            },
        },
    }
}

/// The same once the credential is found.
pub open spec fn verified_with(
    runtime: ResolvedRuntimeView,
    request: AuthorizationRequestView,
    now: Timestamp,
    header: AuthorizationHeaderView,
    credential: ResolvedCredentialView,
) -> Result<ResolvedCredentialView, Seq<char>> {
    match session_token_checked(request.headers, credential.session_token) {
        Err(e) => Err(e),
        Ok(_) => match required_header_of(request.headers, "x-amz-date"@) {
            Err(e) => Err(e),
            Ok(date) => if !starts_with(date, header.date) {
                Err(date_mismatch())
            } else {
                match date_checked(date, now, runtime.authentication.allowed_clock_skew_seconds) {
                    Err(e) => Err(e),
                    Ok(_) => match payload_checked(request.headers, request.body) {
                        Err(e) => Err(e),
                        Ok(_) => match signature_checked(request, header, credential, date) {
                            Err(e) => Err(e),
                            Ok(_) => Ok(credential),
                        },
                    },
                }
            },
        },
    }
}

fn verify_with<'a>(
    runtime: &'a ResolvedRuntime,
    request: &AuthorizationRequest,
    now: Timestamp,
    header: &AuthorizationHeader,
    credential: &'a ResolvedCredential,
) -> (r: Result<&'a ResolvedCredential, AuthorizationError>)
    ensures
        agrees(r, verified_with(runtime@, request@, now, header@, credential@)),
{
    match validate_session_token(&request.headers, credential) {
        Err(e) => {
            return Err(e);
        },
        Ok(_) => {},
    }
    let date = match required_header(&request.headers, AMZ_DATE_HEADER) {
        Err(e) => {
            return Err(e);
        },
        Ok(date) => date,
    };
    if !has_prefix(date.as_str(), header.date.as_str()) {
        return denied("credential date does not match x-amz-date");
    }
    match check_date(date.as_str(), now, runtime.authentication.allowed_clock_skew_seconds) {
        Err(e) => {
            return Err(e);
        },
        Ok(_) => {},
    }
    let payload_hash = sha256_hex(request.body.as_slice());
    match check_payload(&request.headers, payload_hash.as_str(), &request.body) {
        Err(e) => {
            return Err(e);
        },
        Ok(_) => {},
    }
    match check_signature(request, header, credential, date.as_str(), payload_hash.as_str()) {
        Err(e) => Err(e),
        Ok(_) => Ok(credential),
    }
}

pub fn verify_signature<'a>(
    runtime: &'a ResolvedRuntime,
    request: &AuthorizationRequest,
    now: Timestamp,
) -> (r: Result<&'a ResolvedCredential, AuthorizationError>)
    ensures
        agrees(r, verified(runtime@, request@, now)),
{
    let text = match required_header(&request.headers, AUTHORIZATION_HEADER) {
        Err(e) => {
            return Err(e);
        },
        Ok(text) => text,
    };
    let header = match parse_authorization(text.as_str()) {
        Err(e) => {
            return Err(e);
        },
        Ok(header) => header,
    };
    match validate_scope(runtime, &header) {
        Err(e) => {
            return Err(e);
        },
        Ok(_) => {},
    }
    match validate_signed_headers(&request.headers, &header.signed_headers) {
        Err(e) => {
            return Err(e);
        },
        Ok(_) => {},
    }
    match credential_for(&runtime.authentication.credentials, header.access_key_id.as_str()) {
        None => denied("unknown access key ID"),
        Some(credential) => verify_with(runtime, request, now, &header, credential),
    }
}

// Policy.

/// What conditions may ask about a request.
pub open spec fn request_context(
    runtime: ResolvedRuntimeView,
    principal: Seq<char>,
    region: Seq<char>,
    runtime_user_id: Option<Seq<char>>,
) -> Map<Seq<char>, Seq<char>> {
    let base = Map::<Seq<char>, Seq<char>>::empty().insert("aws:PrincipalArn"@, principal).insert(
        "aws:RequestedRegion"@,
        region,
    ).insert("bedrock-agentcore:Qualifier"@, runtime.qualifier);
    match runtime_user_id {
        Some(user) => base.insert("bedrock-agentcore:RuntimeUserId"@, user),
        None => base,
    }
}

/// Whether the policy allows the action, and for an invocation on behalf of a user also that.
pub open spec fn policy_checked(
    runtime: ResolvedRuntimeView,
    request: AuthorizationRequestView,
    credential: ResolvedCredentialView,
) -> Result<(), Seq<char>> {
    match credential.principal_arn {
        None => Err("policy mode requires a principal ARN"@),
        Some(principal) => match region_of(runtime.runtime_arn) {
            Err(e) => Err(e),
            Ok(region) => {
                let context = request_context(
                    runtime,
                    principal,
                    region,
                    request.runtime_user_id,
                );
                match evaluated(
                    runtime.policy,
                    request.action,
                    runtime.runtime_arn,
                    principal,
                    context,
                ) {
                    Err(e) => Err(e),
                    Ok(_) => if request.action == RuntimeIamAction::InvokeAgentRuntime
                        && request.runtime_user_id is Some {
                        evaluated(
                            runtime.policy,
                            RuntimeIamAction::InvokeAgentRuntimeForUser,
                            runtime.runtime_arn,
                            principal,
                            context,
                        )
                    } else {
                        Ok(())
                    },
                }
            },
        },
    }
}

pub fn authorize_policy(
    runtime: &ResolvedRuntime,
    request: &AuthorizationRequest,
    credential: &ResolvedCredential,
) -> (r: Result<(), AuthorizationError>)
    ensures
        agrees(r, policy_checked(runtime@, request@, credential@)),
{
    let principal = match &credential.principal_arn {
        None => {
            return denied("policy mode requires a principal ARN");
        },
        Some(principal) => principal,
    };
    let region = match runtime_region(runtime) {
        Err(e) => {
            return Err(e);
        },
        Ok(region) => region,
    };
    let mut context = Labels::new();
    context.insert("aws:PrincipalArn".to_owned(), principal.clone());
    context.insert("aws:RequestedRegion".to_owned(), region);
    context.insert("bedrock-agentcore:Qualifier".to_owned(), runtime.qualifier.clone());
    match &request.runtime_user_id {
        Some(user) => {
            context.insert("bedrock-agentcore:RuntimeUserId".to_owned(), user.clone());
        },
        None => {},
    }
    match evaluate_action(
        &runtime.policy,
        request.action,
        runtime.runtime_arn.as_str(),
        principal.as_str(),
        &context,
    ) {
        Err(e) => {
            return Err(e);
        },
        Ok(_) => {},
    }
    if request.action == RuntimeIamAction::InvokeAgentRuntime && request.runtime_user_id.is_some() {
        evaluate_action(
            &runtime.policy,
            RuntimeIamAction::InvokeAgentRuntimeForUser,
            runtime.runtime_arn.as_str(),
            principal.as_str(),
            &context,
        )
    } else {
        Ok(())
    }
}

/// Who is let in at this time, or why nobody is.
pub open spec fn authorized(
    runtime: ResolvedRuntimeView,
    request: AuthorizationRequestView,
    now: Timestamp,
) -> Result<Option<Seq<char>>, Seq<char>> {
    match runtime.authentication.mode {
        AuthenticationMode::Permissive => permissive(runtime, request),
        AuthenticationMode::Signature => match verified(runtime, request, now) {
            Err(e) => Err(e),
            Ok(credential) => Ok(credential.principal_arn),
        },
        AuthenticationMode::Policy => match verified(runtime, request, now) {
            Err(e) => Err(e),
            Ok(credential) => match policy_checked(runtime, request, credential) {
                Err(e) => Err(e),
                Ok(_) => Ok(credential.principal_arn),
            },
        },
    }
}

/// Decides on a request at a given time.
pub fn authorize_at(
    runtime: &ResolvedRuntime,
    request: &AuthorizationRequest,
    now: Timestamp,
) -> (r: Result<AuthorizedPrincipal, AuthorizationError>)
    ensures
        agrees(r, authorized(runtime@, request@, now)),
{
    match runtime.authentication.mode {
        AuthenticationMode::Permissive => authorize_permissive(runtime, request),
        AuthenticationMode::Signature => match verify_signature(runtime, request, now) {
            Err(e) => Err(e),
            Ok(credential) => Ok(
                AuthorizedPrincipal { principal_arn: clone_opt(&credential.principal_arn) },
            ),
        },
        AuthenticationMode::Policy => match verify_signature(runtime, request, now) {
            Err(e) => Err(e),
            Ok(credential) => match authorize_policy(runtime, request, credential) {
                Err(e) => Err(e),
                Ok(_) => Ok(
                    AuthorizedPrincipal { principal_arn: clone_opt(&credential.principal_arn) },
                ),
            },
        },
    }
}

/// Decides on a request at the present time. In permissive mode the time plays no part.
pub fn authorize(runtime: &ResolvedRuntime, request: &AuthorizationRequest) -> (r: Result<
    AuthorizedPrincipal,
    AuthorizationError,
>)
    ensures
        exists|now: Timestamp|
            now.nanos < 1_000_000_000 && agrees(r, #[trigger] authorized(runtime@, request@, now)),
        runtime@.authentication.mode == AuthenticationMode::Permissive ==> agrees(
            r,
            permissive(runtime@, request@),
        ),
{
    let now = utc_now();
    authorize_at(runtime, request, now)
}

// Laws.

/// An unsigned request is of the local region and account. A signed one is of the region of its
/// scope, and of the account that its access key names, or else of the local account.
pub proof fn law_identity_follows_the_signature(headers: Seq<HeaderView>)
    ensures
        value_of(headers, "authorization"@) is None ==> identity_of(headers) == Ok::<
            LocalIdentityView,
            Seq<char>,
        >(LocalIdentityView { region: "us-east-1"@, account_id: "000000000000"@ }),
        (value_of(headers, "authorization"@) is Some && identity_of(headers) is Ok) ==> ({
            let value = value_of(headers, "authorization"@)->Some_0;
            let header = parsed_authorization(
                header_text_of(value, "authorization"@)->Ok_0,
            )->Ok_0;
            let identity = identity_of(headers)->Ok_0;
            &&& identity.region == header.region
            &&& is_account_id(header.access_key_id) ==> identity.account_id == header.access_key_id
            &&& !is_account_id(header.access_key_id) ==> identity.account_id == "000000000000"@
        }),
{
}

/// In signature and policy mode only a request whose signature is right is let in.
pub proof fn law_signed_modes_need_a_signature(
    runtime: ResolvedRuntimeView,
    request: AuthorizationRequestView,
    now: Timestamp,
)
    requires
        runtime.authentication.mode != AuthenticationMode::Permissive,
        authorized(runtime, request, now) is Ok,
    ensures
        verified(runtime, request, now) is Ok,
{
}

/// What was signed must be what arrived: where a digest of the payload is given, a request with
/// another payload is refused.
pub proof fn law_payload_digest_is_binding(
    runtime: ResolvedRuntimeView,
    request: AuthorizationRequestView,
    now: Timestamp,
    hash: Seq<char>,
)
    requires
        verified(runtime, request, now) is Ok,
        optional_header_of(request.headers, "x-amz-content-sha256"@) == Ok::<
            Option<Seq<char>>,
            Seq<char>,
        >(Some(hash)),
    ensures
        hash == sha256_hex_of(request.body),
{
}

/// A signed request that is let in is no older and no newer than the allowed skew.
pub proof fn law_skew_is_bounded(
    runtime: ResolvedRuntimeView,
    request: AuthorizationRequestView,
    now: Timestamp,
)
    requires
        verified(runtime, request, now) is Ok,
    ensures
        ({
            let date = required_header_of(request.headers, "x-amz-date"@)->Ok_0;
            &&& amz_timestamp(date) is Some
            &&& skew(now, amz_timestamp(date)->Some_0) is Some
            &&& skew(now, amz_timestamp(date)->Some_0)->Some_0
                <= runtime.authentication.allowed_clock_skew_seconds
        }),
{
}

/// An invocation on behalf of a user needs an allow for that action too.
pub proof fn law_user_invocation_needs_both_actions(
    runtime: ResolvedRuntimeView,
    request: AuthorizationRequestView,
    credential: ResolvedCredentialView,
)
    requires
        request.action == RuntimeIamAction::InvokeAgentRuntime,
        request.runtime_user_id is Some,
        policy_checked(runtime, request, credential) is Ok,
    ensures
        ({
            let principal = credential.principal_arn->Some_0;
            let context = request_context(
                runtime,
                principal,
                region_of(runtime.runtime_arn)->Ok_0,
                request.runtime_user_id,
            );
            &&& evaluated(
                runtime.policy,
                RuntimeIamAction::InvokeAgentRuntime,
                runtime.runtime_arn,
                principal,
                context,
            ) is Ok
            &&& evaluated(
                runtime.policy,
                RuntimeIamAction::InvokeAgentRuntimeForUser,
                runtime.runtime_arn,
                principal,
                context,
            ) is Ok
        }),
{
}

} // verus!
