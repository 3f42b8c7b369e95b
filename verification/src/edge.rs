//! The runtime API: what a request asks, and how it is answered or refused.

use vstd::prelude::*;
use vstd::utf8::encode_utf8;

use crate::auth::{
    authorize, authorize_at, authorized, identity_of, local_identity, AuthorizationRequest,
    AuthorizationRequestView,
};
use crate::catalog::{opt_str, resolved, RuntimeCatalogView};
use crate::catalog_error::{CatalogError, CatalogErrorView};
use crate::container::{is_session_id, valid_runtime_session_label};
use crate::headers::{
    firsts_copied, text_of, value_of, value_text, with_only, HeaderView, Headers,
};
use crate::json::{json_string, json_string_of};
use crate::number::{decimal, decimal_text};
use crate::pins::{pinned_for, SessionPins};
use crate::policy::{AuthorizationError, RuntimeIamAction};
use crate::primitives::{is_uuid_text, random_uuid, Timestamp};
use crate::proxy::{
    trace_header_names, trace_headers, ProxyError, ProxyErrorView, MCP_PROTOCOL_VERSION_HEADER,
    MCP_SESSION_ID_HEADER, RUNTIME_SESSION_ID_HEADER, RUNTIME_USER_ID_HEADER,
};
use crate::registry::RuntimeRegistry;
use crate::runtime::{AuthenticationMode, LocalIdentity, ResolvedRuntime, ResolvedRuntimeView};
use crate::session::{SessionError, SessionErrorView};
use crate::session_map::SessionKeyView;
use crate::text::{
    agrees, ascii_lower, bytes_of, cat3, cat7, clone_opt, contains_part, holds_text, opt_text,
    texts,
};

verus! {

pub const REQUEST_ID_HEADER: &'static str = "x-amzn-requestid";

pub const ERROR_TYPE_HEADER: &'static str = "x-amzn-errortype";

// Refusals.

/// A refusal as callers see it.
#[derive(Debug)]
pub struct RuntimeApiError {
    pub status: u16,
    pub error_type: &'static str,
    pub message: String,
    pub request_id: String,
    pub code: String,
}

#[verifier::ext_equal]
pub struct RuntimeApiErrorView {
    pub status: u16,
    pub error_type: Seq<char>,
    pub message: Seq<char>,
    pub request_id: Seq<char>,
    pub code: Seq<char>,
}

impl View for RuntimeApiError {
    type V = RuntimeApiErrorView;

    open spec fn view(&self) -> RuntimeApiErrorView {
        RuntimeApiErrorView {
            status: self.status,
            error_type: self.error_type@,
            message: self.message@,
            request_id: self.request_id@,
            code: self.code@,
        }
    }
}

pub open spec fn denied_error(request_id: Seq<char>, message: Seq<char>) -> RuntimeApiErrorView {
    RuntimeApiErrorView {
        status: 403,
        error_type: "AccessDeniedException"@,
        message,
        request_id,
        code: "access_denied"@,
    }
}

pub open spec fn coded_validation_error(
    request_id: Seq<char>,
    message: Seq<char>,
    code: Seq<char>,
) -> RuntimeApiErrorView {
    RuntimeApiErrorView {
        status: 400,
        error_type: "ValidationException"@,
        message,
        request_id,
        code,
    }
}

pub open spec fn validation_error(request_id: Seq<char>, message: Seq<char>) -> RuntimeApiErrorView {
    coded_validation_error(request_id, message, "validation_error"@)
}

pub open spec fn coded_not_found_error(
    request_id: Seq<char>,
    message: Seq<char>,
    code: Seq<char>,
) -> RuntimeApiErrorView {
    RuntimeApiErrorView {
        status: 404,
        error_type: "ResourceNotFoundException"@,
        message,
        request_id,
        code,
    }
}

pub open spec fn not_found_error(request_id: Seq<char>, message: Seq<char>) -> RuntimeApiErrorView {
    coded_not_found_error(request_id, message, "resource_not_found"@)
}

pub open spec fn conflict_error(
    request_id: Seq<char>,
    message: Seq<char>,
    code: Seq<char>,
) -> RuntimeApiErrorView {
    RuntimeApiErrorView {
        status: 409,
        error_type: "RetryableConflictException"@,
        message,
        request_id,
        code,
    }
}

pub open spec fn client_error(
    request_id: Seq<char>,
    message: Seq<char>,
    code: Seq<char>,
) -> RuntimeApiErrorView {
    RuntimeApiErrorView {
        status: 424,
        error_type: "RuntimeClientError"@,
        message,
        request_id,
        code,
    }
}

pub open spec fn internal_error(request_id: Seq<char>, message: Seq<char>) -> RuntimeApiErrorView {
    RuntimeApiErrorView {
        status: 500,
        error_type: "InternalServerException"@,
        message,
        request_id,
        code: "internal_error"@,
    }
}

impl RuntimeApiError {
    pub fn access_denied(request_id: &str, message: String) -> (r: Self)
        ensures
            r@ == denied_error(request_id@, message@),
    {
        RuntimeApiError {
            status: 403,
            error_type: "AccessDeniedException",
            message,
            request_id: request_id.to_owned(),
            code: "access_denied".to_owned(),
        }
    }

    pub fn validation(request_id: &str, message: String) -> (r: Self)
        ensures
            r@ == validation_error(request_id@, message@),
    {
        RuntimeApiError::validation_with_code(request_id, message, "validation_error")
    }

    pub fn validation_with_code(request_id: &str, message: String, code: &str) -> (r: Self)
        ensures
            r@ == coded_validation_error(request_id@, message@, code@),
    {
        RuntimeApiError {
            status: 400,
            error_type: "ValidationException",
            message,
            request_id: request_id.to_owned(),
            code: code.to_owned(),
        }
    }

    pub fn resource_not_found(request_id: &str, message: String) -> (r: Self)
        ensures
            r@ == not_found_error(request_id@, message@),
    {
        RuntimeApiError::resource_not_found_with_code(request_id, message, "resource_not_found")
    }

    pub fn resource_not_found_with_code(request_id: &str, message: String, code: &str) -> (r: Self)
        ensures
            r@ == coded_not_found_error(request_id@, message@, code@),
    {
        RuntimeApiError {
            status: 404,
            error_type: "ResourceNotFoundException",
            message,
            request_id: request_id.to_owned(),
            code: code.to_owned(),
        }
    }

    pub fn retryable_conflict(request_id: &str, message: String, code: &str) -> (r: Self)
        ensures
            r@ == conflict_error(request_id@, message@, code@),
    {
        RuntimeApiError {
            status: 409,
            error_type: "RetryableConflictException",
            message,
            request_id: request_id.to_owned(),
            code: code.to_owned(),
        }
    }

    pub fn runtime_client(request_id: &str, message: String, code: &str) -> (r: Self)
        ensures
            r@ == client_error(request_id@, message@, code@),
    {
        RuntimeApiError {
            status: 424,
            error_type: "RuntimeClientError",
            message,
            request_id: request_id.to_owned(),
            code: code.to_owned(),
        }
    }

    pub fn internal(request_id: &str, message: String) -> (r: Self)
        ensures
            r@ == internal_error(request_id@, message@),
    {
        RuntimeApiError {
            status: 500,
            error_type: "InternalServerException",
            message,
            request_id: request_id.to_owned(),
            code: "internal_error".to_owned(),
        }
    }

    /// The body of the refusal: its message, the same as detail, and its code.
    pub fn body(&self) -> (r: String)
        ensures
            r@ == error_body(self@),
    {
        cat7(
            "{\"code\":",
            json_string(self.code.as_str()).as_str(),
            ",\"detail\":",
            json_string(self.message.as_str()).as_str(),
            ",\"message\":",
            json_string(self.message.as_str()).as_str(),
            "}",
        )
    }

    /// The headers of the refusal.
    pub fn headers(&self) -> (r: Headers)
        ensures
            r@ == error_headers(self@),
    {
        let mut out = Headers::new();
        out.append("content-type", bytes_of("application/json"));
        out.append(ERROR_TYPE_HEADER, bytes_of(self.error_type));
        out.append(REQUEST_ID_HEADER, bytes_of(self.request_id.as_str()));
        proof {
            assert(out@ =~= error_headers(self@));
        }
        out
    }
}

pub open spec fn error_body(error: RuntimeApiErrorView) -> Seq<char> {
    "{\"code\":"@ + json_string_of(error.code) + ",\"detail\":"@ + json_string_of(error.message)
        + ",\"message\":"@ + json_string_of(error.message) + "}"@
}

/// One header line.
pub open spec fn header_line(name: Seq<char>, value: Seq<char>) -> HeaderView {
    HeaderView { name: ascii_lower(name), value: encode_utf8(value) }
}

pub open spec fn error_headers(error: RuntimeApiErrorView) -> Seq<HeaderView> {
    seq![
        header_line("content-type"@, "application/json"@),
        header_line(ERROR_TYPE_HEADER@, error.error_type),
        header_line(REQUEST_ID_HEADER@, error.request_id),
    ]
}

/// A fresh identifier for a request.
pub fn request_id() -> (r: String)
    ensures
        is_uuid_text(r@),
{
    random_uuid()
}

pub open spec fn proxy_api_error(error: ProxyErrorView, request_id: Seq<char>) -> RuntimeApiErrorView {
    match error {
        ProxyErrorView::AgentCardNotConfigured => client_error(
            request_id,
            error.text(),
            "agent_card_not_configured"@,
        ),
        ProxyErrorView::InvalidHeader(_) => coded_validation_error(
            request_id,
            error.text(),
            "invalid_forwarded_header"@,
        ),
        ProxyErrorView::Unavailable(_) => client_error(
            request_id,
            error.text(),
            "runtime_unavailable"@,
        ),
        ProxyErrorView::RuntimeClient(_) => client_error(
            request_id,
            error.text(),
            "runtime_client_error"@,
        ),
        ProxyErrorView::RequestLimit => coded_validation_error(
            request_id,
            error.text(),
            "request_body_too_large"@,
        ),
        ProxyErrorView::TimedOut => client_error(request_id, error.text(), "runtime_timed_out"@),
        ProxyErrorView::Cancelled => client_error(request_id, error.text(), "runtime_cancelled"@),
        ProxyErrorView::ResponseLimit => client_error(
            request_id,
            error.text(),
            "runtime_response_limit"@,
        ),
        ProxyErrorView::Response(_) => internal_error(request_id, error.text()),
    }
}

pub fn map_proxy_error(error: &ProxyError, request_id: &str) -> (r: RuntimeApiError)
    ensures
        r@ == proxy_api_error(error@, request_id@),
{
    let message = error.message();
    match error {
        ProxyError::AgentCardNotConfigured => RuntimeApiError::runtime_client(
            request_id,
            message,
            "agent_card_not_configured",
        ),
        ProxyError::InvalidHeader(_) => RuntimeApiError::validation_with_code(
            request_id,
            message,
            "invalid_forwarded_header",
        ),
        ProxyError::Unavailable(_) => RuntimeApiError::runtime_client(
            request_id,
            message,
            "runtime_unavailable",
        ),
        ProxyError::RuntimeClient(_) => RuntimeApiError::runtime_client(
            request_id,
            message,
            "runtime_client_error",
        ),
        ProxyError::RequestLimit => RuntimeApiError::validation_with_code(
            request_id,
            message,
            "request_body_too_large",
        ),
        ProxyError::TimedOut => RuntimeApiError::runtime_client(
            request_id,
            message,
            "runtime_timed_out",
        ),
        ProxyError::Cancelled => RuntimeApiError::runtime_client(
            request_id,
            message,
            "runtime_cancelled",
        ),
        ProxyError::ResponseLimit => RuntimeApiError::runtime_client(
            request_id,
            message,
            "runtime_response_limit",
        ),
        ProxyError::Response(_) => RuntimeApiError::internal(request_id, message),
    }
}

pub open spec fn session_api_error(
    error: SessionErrorView,
    request_id: Seq<char>,
) -> RuntimeApiErrorView {
    match error {
        SessionErrorView::RetryableConflict(message) => conflict_error(
            request_id,
            message,
            "session_state_conflict"@,
        ),
        SessionErrorView::Provisioning(message) => client_error(
            request_id,
            message,
            "session_provisioning_failed"@,
        ),
        SessionErrorView::Command(message) => client_error(
            request_id,
            message,
            "runtime_command_failed"@,
        ),
        SessionErrorView::StoppedDuringProvisioning => conflict_error(
            request_id,
            error.text(),
            "session_stopped_during_provisioning"@,
        ),
        SessionErrorView::Stopping(message) => client_error(
            request_id,
            message,
            "session_stop_failed"@,
        ),
        SessionErrorView::DeploymentDrift(message) => client_error(
            request_id,
            message,
            "session_deployment_drift"@,
        ),
    }
}

pub fn map_session_error(error: SessionError, request_id: &str) -> (r: RuntimeApiError)
    ensures
        r@ == session_api_error(error@, request_id@),
{
    match error {
        SessionError::RetryableConflict(message) => RuntimeApiError::retryable_conflict(
            request_id,
            message,
            "session_state_conflict",
        ),
        SessionError::Provisioning(message) => RuntimeApiError::runtime_client(
            request_id,
            message,
            "session_provisioning_failed",
        ),
        SessionError::Command(message) => RuntimeApiError::runtime_client(
            request_id,
            message,
            "runtime_command_failed",
        ),
        SessionError::StoppedDuringProvisioning => {
            let message = SessionError::StoppedDuringProvisioning.message();
            RuntimeApiError::retryable_conflict(
                request_id,
                message,
                "session_stopped_during_provisioning",
            )
        },
        SessionError::Stopping(message) => RuntimeApiError::runtime_client(
            request_id,
            message,
            "session_stop_failed",
        ),
        SessionError::DeploymentDrift(message) => RuntimeApiError::runtime_client(
            request_id,
            message,
            "session_deployment_drift",
        ),
    }
}

pub open spec fn catalog_api_error(
    error: CatalogErrorView,
    request_id: Seq<char>,
) -> RuntimeApiErrorView {
    match error {
        CatalogErrorView::Resolution(message) => if holds_text(
            message,
            "accountId is required"@,
        ) {
            validation_error(request_id, message)
        } else {
            not_found_error(request_id, message)
        },
        CatalogErrorView::IdentityMismatch(message) => denied_error(request_id, message),
        _ => internal_error(request_id, error.text()),
    }
}

pub fn map_catalog_error(error: CatalogError, request_id: &str) -> (r: RuntimeApiError)
    ensures
        r@ == catalog_api_error(error@, request_id@),
{
    match error {
        CatalogError::Resolution(message) => {
            if contains_part(message.as_str(), "accountId is required") {
                RuntimeApiError::validation(request_id, message)
            } else {
                RuntimeApiError::resource_not_found(request_id, message)
            }
        },
        CatalogError::IdentityMismatch(message) => RuntimeApiError::access_denied(
            request_id,
            message,
        ),
        other => RuntimeApiError::internal(request_id, other.message()),
    }
}

// What a request asks.

/// A request to the runtime API, without its body.
#[derive(Debug)]
pub struct ApiCall {
    pub request_id: String,
    pub runtime_identifier: String,
    pub account_id: Option<String>,
    pub qualifier: Option<String>,
    pub method: String,
    pub path: String,
    pub query: Option<String>,
    pub headers: Headers,
}

#[verifier::ext_equal]
pub struct ApiCallView {
    pub request_id: Seq<char>,
    pub runtime_identifier: Seq<char>,
    pub account_id: Option<Seq<char>>,
    pub qualifier: Option<Seq<char>>,
    pub method: Seq<char>,
    pub path: Seq<char>,
    pub query: Option<Seq<char>>,
    pub headers: Seq<HeaderView>,
}

impl View for ApiCall {
    type V = ApiCallView;

    open spec fn view(&self) -> ApiCallView {
        ApiCallView {
            request_id: self.request_id@,
            runtime_identifier: self.runtime_identifier@,
            account_id: opt_text(self.account_id),
            qualifier: opt_text(self.qualifier),
            method: self.method@,
            path: self.path@,
            query: opt_text(self.query),
            headers: self.headers@,
        }
    }
}

/// The headers that may be absent, but not empty.
pub open spec fn nonempty_headers() -> Seq<Seq<char>> {
    seq![
        RUNTIME_USER_ID_HEADER@,
        MCP_SESSION_ID_HEADER@,
        MCP_PROTOCOL_VERSION_HEADER@,
        "mcp-method"@,
        "mcp-name"@,
    ] + trace_headers()
}

/// The first name of a list under which a request has an empty value first.
pub open spec fn first_empty_header(headers: Seq<HeaderView>, names: Seq<Seq<char>>) -> Option<
    Seq<char>,
>
    decreases names.len(),
{
    if names.len() == 0 {
        None
    } else {
        match first_empty_header(headers, names.drop_last()) {
            Some(name) => Some(name),
            None => if value_of(headers, names.last()) == Some(Seq::<u8>::empty()) {
                Some(names.last())
            } else {
                None
            },
        }
    }
}

proof fn lemma_empty_header_stays(headers: Seq<HeaderView>, names: Seq<Seq<char>>, n: int)
    requires
        0 <= n <= names.len(),
        first_empty_header(headers, names.take(n)) is Some,
    ensures
        first_empty_header(headers, names) == first_empty_header(headers, names.take(n)),
    decreases names.len() - n,
{
    if n < names.len() {
        assert(names.take(n + 1).drop_last() =~= names.take(n));
        lemma_empty_header_stays(headers, names, n + 1);
    } else {
        assert(names.take(n) =~= names);
    }
}

fn find_empty_header(headers: &Headers, names: &Vec<String>) -> (r: Option<String>)
    ensures
        opt_text(r) == first_empty_header(headers@, texts(names@)),
{
    for i in 0..names.len()
        invariant
            first_empty_header(headers@, texts(names@).take(i as int)) is None,
    {
        proof {
            assert(texts(names@).take(i as int + 1).drop_last() =~= texts(names@).take(i as int));
            assert(texts(names@).take(i as int + 1).last() == names@[i as int]@);
        }
        if let Some(value) = headers.get(names[i].as_str()) {
            if value.len() == 0 {
                proof {
                    assert(value@ =~= Seq::<u8>::empty());
                    lemma_empty_header_stays(headers@, texts(names@), i as int + 1);
                }
                return Some(names[i].clone());
            }
        }
    }
    proof {
        assert(texts(names@).take(names@.len() as int) =~= texts(names@));
    }
    None
}

pub open spec fn headers_checked(headers: Seq<HeaderView>, request_id: Seq<char>) -> Result<
    (),
    RuntimeApiErrorView,
> {
    match first_empty_header(headers, nonempty_headers()) {
        Some(name) => Err(
            validation_error(request_id, "header "@ + name + " cannot be empty"@),
        ),
        None => Ok(()),
    }
}

pub fn validate_runtime_headers(headers: &Headers, request_id: &str) -> (r: Result<
    (),
    RuntimeApiError,
>)
    ensures
        agrees(r, headers_checked(headers@, request_id@)),
{
    let mut names = vec![
        RUNTIME_USER_ID_HEADER.to_owned(),
        MCP_SESSION_ID_HEADER.to_owned(),
        MCP_PROTOCOL_VERSION_HEADER.to_owned(),
        "mcp-method".to_owned(),
        "mcp-name".to_owned(),
    ];
    let ghost first = names@;
    let mut traces = trace_header_names();
    let ghost second = traces@;
    names.append(&mut traces);
    proof {
        assert(texts(names@) =~= texts(first) + texts(second));
        assert(texts(names@) =~= nonempty_headers());
    }
    match find_empty_header(headers, &names) {
        Some(name) => Err(
            RuntimeApiError::validation(
                request_id,
                cat3("header ", name.as_str(), " cannot be empty"),
            ),
        ),
        None => Ok(()),
    }
}

/// The session that a request names.
pub open spec fn session_id_of(
    headers: Seq<HeaderView>,
    optional: bool,
    request_id: Seq<char>,
) -> Result<Option<Seq<char>>, RuntimeApiErrorView> {
    match value_of(headers, RUNTIME_SESSION_ID_HEADER@) {
        None => if optional {
            Ok(None)
        } else {
            Err(validation_error(request_id, "runtime session ID is required"@))
        },
        Some(value) => match text_of(value) {
            None => Err(
                validation_error(request_id, "runtime session ID is not valid header text"@),
            ),
            Some(id) => if is_session_id(id) {
                Ok(Some(id))
            } else {
                Err(
                    validation_error(
                        request_id,
                        "runtime session ID must be 33-256 ASCII letters, digits, periods, colons, underscores, or hyphens"@,
                    ),
                )
            },
        },
    }
}

pub fn runtime_session_id(headers: &Headers, optional: bool, request_id: &str) -> (r: Result<
    Option<String>,
    RuntimeApiError,
>)
    ensures
        match (r, session_id_of(headers@, optional, request_id@)) {
            (Ok(a), Ok(b)) => opt_text(a) == b,
            (Err(a), Err(b)) => a@ == b,
            _ => false,
        },
{
    match headers.get(RUNTIME_SESSION_ID_HEADER) {
        None => {
            if optional {
                Ok(None)
            } else {
                Err(
                    RuntimeApiError::validation(
                        request_id,
                        "runtime session ID is required".to_owned(),
                    ),
                )
            }
        },
        Some(value) => match value_text(&value) {
            None => Err(
                RuntimeApiError::validation(
                    request_id,
                    "runtime session ID is not valid header text".to_owned(),
                ),
            ),
            Some(id) => {
                if valid_runtime_session_label(id.as_str()) {
                    Ok(Some(id))
                } else {
                    Err(
                        RuntimeApiError::validation(
                            request_id,
                            "runtime session ID must be 33-256 ASCII letters, digits, periods, colons, underscores, or hyphens".to_owned(),
                        ),
                    )
                }
            },
        },
    }
}

/// The deployment that serves a session: the one it is pinned to, or else that of the catalog.
pub open spec fn session_runtime_of(
    pins: Map<SessionKeyView, ResolvedRuntimeView>,
    catalog: RuntimeCatalogView,
    call: ApiCallView,
    session_id: Seq<char>,
) -> Result<ResolvedRuntimeView, RuntimeApiErrorView> {
    match identity_of(call.headers) {
        Err(message) => Err(denied_error(call.request_id, message)),
        Ok(identity) => match pinned_for(
            pins,
            call.runtime_identifier,
            call.account_id,
            call.qualifier,
            session_id,
            identity,
        ) {
            Some(runtime) => Ok(runtime),
            None => match resolved(
                catalog,
                call.runtime_identifier,
                call.account_id,
                call.qualifier,
                identity,
            ) {
                Ok(runtime) => Ok(runtime),
                Err(error) => Err(catalog_api_error(error, call.request_id)),
            },
        },
    }
}

fn text_ref(value: &Option<String>) -> (r: Option<&str>)
    ensures
        opt_str(r) == opt_text(*value),
{
    match value {
        Some(s) => Some(s.as_str()),
        None => None,
    }
}

pub fn resolve_runtime(
    registry: &RuntimeRegistry,
    call: &ApiCall,
    identity: &LocalIdentity,
) -> (r: Result<ResolvedRuntime, RuntimeApiError>)
    ensures
        agrees(
            r,
            (match resolved(
                registry@.catalog,
                call@.runtime_identifier,
                call@.account_id,
                call@.qualifier,
                identity@,
            ) {
                Ok(runtime) => Ok(runtime),
                Err(error) => Err(catalog_api_error(error, call@.request_id)),
            }),
        ),
{
    match registry.resolve(
        call.runtime_identifier.as_str(),
        text_ref(&call.account_id),
        text_ref(&call.qualifier),
        identity,
    ) {
        Ok(runtime) => Ok(runtime),
        Err(error) => Err(map_catalog_error(error, call.request_id.as_str())),
    }
}

pub fn resolve_session_runtime(
    pins: &SessionPins,
    registry: &RuntimeRegistry,
    call: &ApiCall,
    session_id: &str,
) -> (r: Result<ResolvedRuntime, RuntimeApiError>)
    ensures
        agrees(r, session_runtime_of(pins@, registry@.catalog, call@, session_id@)),
{
    let identity = match local_identity(&call.headers) {
        Ok(identity) => identity,
        Err(AuthorizationError::AccessDenied(message)) => {
            return Err(RuntimeApiError::access_denied(call.request_id.as_str(), message));
        },
    };
    match pins.pinned_runtime(
        call.runtime_identifier.as_str(),
        text_ref(&call.account_id),
        text_ref(&call.qualifier),
        session_id,
        &identity,
    ) {
        Some(runtime) => Ok(runtime),
        None => resolve_runtime(registry, call, &identity),
    }
}

/// A request whose session and deployment are known.
pub struct Admission {
    pub session_id: String,
    pub runtime: ResolvedRuntime,
    /// Whether the body can be passed on while it arrives. Where the request is signed, the whole
    /// body is needed first.
    pub streaming: bool,
}

#[verifier::ext_equal]
pub struct AdmissionView {
    pub session_id: Seq<char>,
    pub runtime: ResolvedRuntimeView,
    pub streaming: bool,
}

impl View for Admission {
    type V = AdmissionView;

    open spec fn view(&self) -> AdmissionView {
        AdmissionView {
            session_id: self.session_id@,
            runtime: self.runtime@,
            streaming: self.streaming,
        }
    }
}

pub open spec fn can_stream(runtime: ResolvedRuntimeView, headers: Seq<HeaderView>) -> bool {
    runtime.authentication.mode == AuthenticationMode::Permissive && value_of(
        headers,
        "authorization"@,
    ) is None
}

/// An invocation may leave its session open: it then gets a fresh one.
pub open spec fn invocation_admitted(
    pins: Map<SessionKeyView, ResolvedRuntimeView>,
    catalog: RuntimeCatalogView,
    call: ApiCallView,
    fresh_session_id: Seq<char>,
) -> Result<AdmissionView, RuntimeApiErrorView> {
    match headers_checked(call.headers, call.request_id) {
        Err(error) => Err(error),
        Ok(_) => match session_id_of(call.headers, true, call.request_id) {
            Err(error) => Err(error),
            Ok(named) => {
                let session_id = match named {
                    Some(id) => id,
                    None => fresh_session_id,
                };
                match session_runtime_of(pins, catalog, call, session_id) {
                    Err(error) => Err(error),
                    Ok(runtime) => Ok(
                        AdmissionView {
                            session_id,
                            runtime,
                            streaming: can_stream(runtime, call.headers),
                        },
                    ),
                }
            },
        },
    }
}

/// Admits an invocation, with a given identifier for a fresh session.
pub fn admit_invocation_with(
    pins: &SessionPins,
    registry: &RuntimeRegistry,
    call: &ApiCall,
    fresh_session_id: String,
) -> (r: Result<Admission, RuntimeApiError>)
    ensures
        agrees(r, invocation_admitted(pins@, registry@.catalog, call@, fresh_session_id@)),
{
    match validate_runtime_headers(&call.headers, call.request_id.as_str()) {
        Ok(_) => {},
        Err(error) => {
            return Err(error);
        },
    }
    let session_id = match runtime_session_id(&call.headers, true, call.request_id.as_str()) {
        Err(error) => {
            return Err(error);
        },
        Ok(Some(id)) => id,
        Ok(None) => fresh_session_id,
    };
    match resolve_session_runtime(pins, registry, call, session_id.as_str()) {
        Err(error) => Err(error),
        Ok(runtime) => {
            let permissive_mode = match runtime.authentication.mode {
                AuthenticationMode::Permissive => true,
                _ => false,
            };
            let streaming = permissive_mode && !call.headers.contains("authorization");
            Ok(Admission { session_id, runtime, streaming })
        },
    }
}

/// Admits an invocation. A fresh session gets a random identifier.
pub fn admit_invocation(pins: &SessionPins, registry: &RuntimeRegistry, call: &ApiCall) -> (r:
    Result<Admission, RuntimeApiError>)
    ensures
        exists|fresh: Seq<char>|
            is_uuid_text(fresh) && agrees(
                r,
                #[trigger] invocation_admitted(pins@, registry@.catalog, call@, fresh),
            ),
        session_id_of(call@.headers, true, call@.request_id) != Ok::<
            Option<Seq<char>>,
            RuntimeApiErrorView,
        >(None) ==> forall|any: Seq<char>|
            agrees(r, #[trigger] invocation_admitted(pins@, registry@.catalog, call@, any)),
{
    let fresh = random_uuid();
    let ghost id = fresh@;
    let r = admit_invocation_with(pins, registry, call, fresh);
    proof {
        assert(agrees(r, invocation_admitted(pins@, registry@.catalog, call@, id)));
    }
    r
}

/// Any other operation names its session.
pub open spec fn session_call_admitted(
    pins: Map<SessionKeyView, ResolvedRuntimeView>,
    catalog: RuntimeCatalogView,
    call: ApiCallView,
) -> Result<AdmissionView, RuntimeApiErrorView> {
    match session_id_of(call.headers, false, call.request_id) {
        Err(error) => Err(error),
        Ok(named) => match session_runtime_of(pins, catalog, call, named->Some_0) {
            Err(error) => Err(error),
            Ok(runtime) => Ok(
                AdmissionView { session_id: named->Some_0, runtime, streaming: false },
            ),
        },
    }
}

/// Admits a command, a stop or a look at the agent card.
pub fn admit_session_call(pins: &SessionPins, registry: &RuntimeRegistry, call: &ApiCall) -> (r:
    Result<Admission, RuntimeApiError>)
    ensures
        agrees(r, session_call_admitted(pins@, registry@.catalog, call@)),
{
    match runtime_session_id(&call.headers, false, call.request_id.as_str()) {
        Err(error) => Err(error),
        Ok(named) => {
            proof {
                assert(named is Some);
            }
            match named {
                None => Err(
                    RuntimeApiError::validation(
                        call.request_id.as_str(),
                        "runtime session ID is required".to_owned(),
                    ),
                ),
                Some(session_id) => match resolve_session_runtime(
                    pins,
                    registry,
                    call,
                    session_id.as_str(),
                ) {
                    Err(error) => Err(error),
                    Ok(runtime) => Ok(Admission { session_id, runtime, streaming: false }),
                },
            }
        },
    }
}

/// What a body belongs to.
#[derive(Clone, Copy, Debug, PartialEq, Eq, Structural)]
pub enum PayloadKind {
    Invocation,
    Command,
    Stop,
}

pub open spec fn payload_name(kind: PayloadKind) -> Seq<char> {
    match kind {
        PayloadKind::Invocation => "payload exceeds "@,
        PayloadKind::Command => "command payload exceeds "@,
        PayloadKind::Stop => "stop payload exceeds "@,
    }
}

/// The refusal of a body that cannot be read within the limit.
pub fn payload_refused(kind: PayloadKind, max_request_bytes: usize, request_id: &str) -> (r:
    RuntimeApiError)
    ensures
        r@ == validation_error(
            request_id@,
            payload_name(kind) + decimal(max_request_bytes as nat) + " bytes"@,
        ),
{
    let name = match kind {
        PayloadKind::Invocation => "payload exceeds ",
        PayloadKind::Command => "command payload exceeds ",
        PayloadKind::Stop => "stop payload exceeds ",
    };
    RuntimeApiError::validation(
        request_id,
        cat3(name, decimal_text(max_request_bytes as u64).as_str(), " bytes"),
    )
}

/// The user for whom a runtime is called.
pub open spec fn user_id_of(headers: Seq<HeaderView>, request_id: Seq<char>) -> Result<
    Option<Seq<char>>,
    RuntimeApiErrorView,
> {
    match value_of(headers, RUNTIME_USER_ID_HEADER@) {
        None => Ok(None),
        Some(value) => match text_of(value) {
            Some(id) => Ok(Some(id)),
            None => Err(
                validation_error(request_id, "runtime user ID is not valid header text"@),
            ),
        },
    }
}

/// What is authorized of a call.
pub open spec fn authorization_of(
    call: ApiCallView,
    body: Seq<u8>,
    action: RuntimeIamAction,
    runtime_user_id: Option<Seq<char>>,
) -> AuthorizationRequestView {
    AuthorizationRequestView {
        method: call.method,
        path: call.path,
        query: call.query,
        headers: call.headers,
        body,
        action,
        runtime_user_id,
    }
}

fn authorization_request(call: &ApiCall, body: &Vec<u8>, action: RuntimeIamAction) -> (r: Result<
    AuthorizationRequest,
    RuntimeApiError,
>)
    ensures
        match (r, user_id_of(call@.headers, call@.request_id)) {
            (Ok(request), Ok(user)) => request@ == authorization_of(call@, body@, action, user),
            (Err(a), Err(b)) => a@ == b,
            _ => false,
        },
{
    let runtime_user_id = match call.headers.get(RUNTIME_USER_ID_HEADER) {
        None => None,
        Some(value) => match value_text(&value) {
            Some(id) => Some(id),
            None => {
                return Err(
                    RuntimeApiError::validation(
                        call.request_id.as_str(),
                        "runtime user ID is not valid header text".to_owned(),
                    ),
                );
            },
        },
    };
    let copy = body.clone();
    proof {
        assert(copy@ =~= body@);
    }
    Ok(
        AuthorizationRequest {
            method: call.method.clone(),
            path: call.path.clone(),
            query: clone_opt(&call.query),
            headers: call.headers.clone(),
            body: copy,
            action,
            runtime_user_id,
        },
    )
}

pub open spec fn call_authorized(
    runtime: ResolvedRuntimeView,
    call: ApiCallView,
    body: Seq<u8>,
    action: RuntimeIamAction,
    now: Timestamp,
) -> Result<(), RuntimeApiErrorView> {
    match user_id_of(call.headers, call.request_id) {
        Err(error) => Err(error),
        Ok(user) => match authorized(runtime, authorization_of(call, body, action, user), now) {
            Ok(_) => Ok(()),
            Err(message) => Err(denied_error(call.request_id, message)),
        },
    }
}

/// Decides on a call at a given time.
pub fn authorize_request_at(
    runtime: &ResolvedRuntime,
    call: &ApiCall,
    body: &Vec<u8>,
    action: RuntimeIamAction,
    now: Timestamp,
) -> (r: Result<(), RuntimeApiError>)
    ensures
        agrees(r, call_authorized(runtime@, call@, body@, action, now)),
{
    let request = match authorization_request(call, body, action) {
        Ok(request) => request,
        Err(error) => {
            return Err(error);
        },
    };
    match authorize_at(runtime, &request, now) {
        Ok(_) => Ok(()),
        Err(AuthorizationError::AccessDenied(message)) => Err(
            RuntimeApiError::access_denied(call.request_id.as_str(), message),
        ),
    }
}

/// Decides on a call at the present time. In permissive mode the time plays no part.
pub fn authorize_request(
    runtime: &ResolvedRuntime,
    call: &ApiCall,
    body: &Vec<u8>,
    action: RuntimeIamAction,
) -> (r: Result<(), RuntimeApiError>)
    ensures
        exists|now: Timestamp|
            now.nanos < 1_000_000_000 && agrees(
                r,
                #[trigger] call_authorized(runtime@, call@, body@, action, now),
            ),
        runtime@.authentication.mode == AuthenticationMode::Permissive ==> forall|now: Timestamp|
            agrees(r, #[trigger] call_authorized(runtime@, call@, body@, action, now)),
{
    let request = match authorization_request(call, body, action) {
        Ok(request) => request,
        Err(error) => {
            proof {
                let now = Timestamp { seconds: 0, nanos: 0 };
                assert(agrees(
                    Err::<(), RuntimeApiError>(error),
                    call_authorized(runtime@, call@, body@, action, now),
                ));
            }
            return Err(error);
        },
    };
    let outcome = authorize(runtime, &request);
    let ghost now = choose|now: Timestamp|
        now.nanos < 1_000_000_000 && agrees(
            outcome,
            #[trigger] authorized(runtime@, request@, now),
        );
    let r = match outcome {
        Ok(_) => Ok(()),
        Err(AuthorizationError::AccessDenied(message)) => Err(
            RuntimeApiError::access_denied(call.request_id.as_str(), message),
        ),
    };
    proof {
        assert(agrees(r, call_authorized(runtime@, call@, body@, action, now)));
    }
    r
}

// Commands.

pub open spec fn commands_checked(runtime: ResolvedRuntimeView, request_id: Seq<char>) -> Result<
    (),
    RuntimeApiErrorView,
> {
    if runtime.command.enabled {
        Ok(())
    } else {
        Err(validation_error(request_id, "commands are disabled for this runtime"@))
    }
}

pub fn check_commands_enabled(runtime: &ResolvedRuntime, request_id: &str) -> (r: Result<
    (),
    RuntimeApiError,
>)
    ensures
        agrees(r, commands_checked(runtime@, request_id@)),
{
    if runtime.command.enabled {
        Ok(())
    } else {
        Err(
            RuntimeApiError::validation(
                request_id,
                "commands are disabled for this runtime".to_owned(),
            ),
        )
    }
}

/// What a command call asks for.
#[derive(Debug)]
pub struct CommandBody {
    pub command: String,
    pub timeout: Option<u64>,
}

pub open spec fn command_checked(
    command: Seq<char>,
    timeout: Option<u64>,
    request_id: Seq<char>,
) -> Result<(), RuntimeApiErrorView> {
    if command.len() == 0 {
        Err(validation_error(request_id, "command must not be empty"@))
    } else if timeout matches Some(seconds) && !(1 <= seconds <= 3600) {
        Err(
            validation_error(request_id, "command timeout must be between 1 and 3600 seconds"@),
        )
    } else {
        Ok(())
    }
}

/// Checks a command call. The first problem decides: the body could not be read, the command is
/// empty, or its time limit is out of range.
pub fn check_command(parsed: Result<CommandBody, String>, request_id: &str) -> (r: Result<
    CommandBody,
    RuntimeApiError,
>)
    ensures
        match parsed {
            Err(error) => r matches Err(e) && e@ == validation_error(
                request_id@,
                "invalid command request body: "@ + error@,
            ),
            Ok(body) => match (r, command_checked(body.command@, body.timeout, request_id@)) {
                (Ok(checked), Ok(_)) => checked == body,
                (Err(a), Err(b)) => a@ == b,
                _ => false,
            },
        },
{
    let body = match parsed {
        Ok(body) => body,
        Err(error) => {
            return Err(
                RuntimeApiError::validation(
                    request_id,
                    crate::text::cat2("invalid command request body: ", error.as_str()),
                ),
            );
        },
    };
    if body.command.as_str().is_empty() {
        return Err(
            RuntimeApiError::validation(request_id, "command must not be empty".to_owned()),
        );
    }
    if let Some(seconds) = body.timeout {
        if seconds < 1 || seconds > 3600 {
            return Err(
                RuntimeApiError::validation(
                    request_id,
                    "command timeout must be between 1 and 3600 seconds".to_owned(),
                ),
            );
        }
    }
    Ok(body)
}

// Stops and agent cards.

/// The token of a stop; a stop without a body has none.
pub fn check_stop(parsed: Result<Option<String>, String>, request_id: &str) -> (r: Result<
    Option<String>,
    RuntimeApiError,
>)
    ensures
        match parsed {
            Ok(token) => r matches Ok(same) && same == token,
            Err(error) => r matches Err(e) && e@ == validation_error(
                request_id@,
                "stop request body is invalid: "@ + error@,
            ),
        },
{
    match parsed {
        Ok(token) => Ok(token),
        Err(error) => Err(
            RuntimeApiError::validation(
                request_id,
                crate::text::cat2("stop request body is invalid: ", error.as_str()),
            ),
        ),
    }
}

pub open spec fn agent_card_checked(runtime: ResolvedRuntimeView, request_id: Seq<char>) -> Result<
    (),
    RuntimeApiErrorView,
> {
    if runtime.protocol.spec_agent_card_path() is Some {
        Ok(())
    } else {
        Err(
            client_error(
                request_id,
                "this runtime does not expose an A2A agent card"@,
                "agent_card_not_configured"@,
            ),
        )
    }
}

pub fn check_agent_card(runtime: &ResolvedRuntime, request_id: &str) -> (r: Result<
    (),
    RuntimeApiError,
>)
    ensures
        agrees(r, agent_card_checked(runtime@, request_id@)),
{
    match runtime.protocol.agent_card_path() {
        Some(_) => Ok(()),
        None => Err(
            RuntimeApiError::runtime_client(
                request_id,
                "this runtime does not expose an A2A agent card".to_owned(),
                "agent_card_not_configured",
            ),
        ),
    }
}

// Answers.

/// The headers of an answer that a container gave, with the identifier of the request.
pub fn with_request_id(headers: Headers, request_id: &str) -> (r: Headers)
    ensures
        r@ == with_only(headers@, REQUEST_ID_HEADER@, encode_utf8(request_id@)),
{
    let mut out = headers;
    out.insert(REQUEST_ID_HEADER, bytes_of(request_id));
    out
}

pub open spec fn command_headers_of(
    request: Seq<HeaderView>,
    session_id: Seq<char>,
    request_id: Seq<char>,
) -> Seq<HeaderView> {
    seq![
        header_line("content-type"@, "application/vnd.amazon.eventstream"@),
        header_line(RUNTIME_SESSION_ID_HEADER@, session_id),
        header_line(REQUEST_ID_HEADER@, request_id),
    ] + firsts_copied(request, trace_headers())
}

/// The headers of the answer to a command, which carries the trace of the request.
pub fn command_headers(request: &Headers, session_id: &str, request_id: &str) -> (r: Headers)
    ensures
        r@ == command_headers_of(request@, session_id@, request_id@),
{
    let mut out = Headers::new();
    out.append("content-type", bytes_of("application/vnd.amazon.eventstream"));
    out.append(RUNTIME_SESSION_ID_HEADER, bytes_of(session_id));
    out.append(REQUEST_ID_HEADER, bytes_of(request_id));
    let traces = trace_header_names();
    out.copy_firsts(request, &traces);
    proof {
        assert(out@ =~= command_headers_of(request@, session_id@, request_id@));
    }
    out
}

pub open spec fn stop_headers_of(session_id: Seq<char>, request_id: Seq<char>) -> Seq<HeaderView> {
    seq![
        header_line(REQUEST_ID_HEADER@, request_id),
        header_line(RUNTIME_SESSION_ID_HEADER@, session_id),
    ]
}

/// The headers of the answer to a stop.
pub fn stop_headers(session_id: &str, request_id: &str) -> (r: Headers)
    ensures
        r@ == stop_headers_of(session_id@, request_id@),
{
    let mut out = Headers::new();
    out.append(REQUEST_ID_HEADER, bytes_of(request_id));
    out.append(RUNTIME_SESSION_ID_HEADER, bytes_of(session_id));
    proof {
        assert(out@ =~= stop_headers_of(session_id@, request_id@));
    }
    out
}

} // verus!
