//! Invocations that run in containers of their own: one at a time for each identity, tried again
//! while that can help, and remembered for a while.
//!
//! Containers run elsewhere; the table here decides what each outcome means.

use vstd::prelude::*;

use crate::attempt::api_key_of;
use crate::edge::{
    client_error, coded_not_found_error, coded_validation_error, conflict_error, RuntimeApiError,
    RuntimeApiErrorView,
};
use crate::environment::is_blank;
use crate::runtime::ResolvedRuntime;
use crate::text::{agrees, cat4, clone_texts, opt_text, same, texts, trim, trimmed, views};
use crate::text_set::TextSet;

verus! {

/// Why a container did not give an output.
#[derive(Debug)]
pub enum ContainerFailure {
    Retryable,
    Rejected { code: String, message: String },
    CleanupFailed,
}

#[verifier::ext_equal]
pub enum ContainerFailureView {
    Retryable,
    Rejected { code: Seq<char>, message: Seq<char> },
    CleanupFailed,
}

impl View for ContainerFailure {
    type V = ContainerFailureView;

    open spec fn view(&self) -> ContainerFailureView {
        match self {
            ContainerFailure::Retryable => ContainerFailureView::Retryable,
            ContainerFailure::Rejected { code, message } => ContainerFailureView::Rejected {
                code: code@,
                message: message@,
            },
            ContainerFailure::CleanupFailed => ContainerFailureView::CleanupFailed,
        }
    }
}

/// A container that failed may do better; what the agent itself refused, or what could not be
/// cleaned up, will not.
pub open spec fn container_failure_of(
    error: crate::attempt::AttemptErrorView,
) -> ContainerFailureView {
    match error {
        crate::attempt::AttemptErrorView::Execution(_) => ContainerFailureView::Retryable,
        crate::attempt::AttemptErrorView::Rejected(failure) => ContainerFailureView::Rejected {
            code: failure.code,
            message: failure.message,
        },
        crate::attempt::AttemptErrorView::Cleanup(_) => ContainerFailureView::CleanupFailed,
    }
}

/// What an attempt that went wrong means for the invocation.
pub fn container_failure(error: crate::attempt::AttemptError) -> (r: ContainerFailure)
    ensures
        r@ == container_failure_of(error@),
{
    match error {
        crate::attempt::AttemptError::Execution(_) => ContainerFailure::Retryable,
        crate::attempt::AttemptError::Rejected(failure) => ContainerFailure::Rejected {
            code: failure.code,
            message: failure.message,
        },
        crate::attempt::AttemptError::Cleanup(_) => ContainerFailure::CleanupFailed,
    }
}

/// Why an invocation has no outcome.
#[derive(Debug)]
pub enum InvocationError {
    InvalidRequest,
    IdentityAlreadyActive,
    RuntimeFailed,
    AgentRejected { code: String, message: String },
    InvalidOutcome,
    TimedOut,
    Cancelled,
    InvocationNotActive,
    CostLimitExceeded,
    CleanupFailed,
}

#[verifier::ext_equal]
pub enum InvocationErrorView {
    InvalidRequest,
    IdentityAlreadyActive,
    RuntimeFailed,
    AgentRejected { code: Seq<char>, message: Seq<char> },
    InvalidOutcome,
    TimedOut,
    Cancelled,
    InvocationNotActive,
    CostLimitExceeded,
    CleanupFailed,
}

impl View for InvocationError {
    type V = InvocationErrorView;

    open spec fn view(&self) -> InvocationErrorView {
        match self {
            InvocationError::InvalidRequest => InvocationErrorView::InvalidRequest,
            InvocationError::IdentityAlreadyActive => InvocationErrorView::IdentityAlreadyActive,
            InvocationError::RuntimeFailed => InvocationErrorView::RuntimeFailed,
            InvocationError::AgentRejected { code, message } => InvocationErrorView::AgentRejected {
                code: code@,
                message: message@,
            },
            InvocationError::InvalidOutcome => InvocationErrorView::InvalidOutcome,
            InvocationError::TimedOut => InvocationErrorView::TimedOut,
            InvocationError::Cancelled => InvocationErrorView::Cancelled,
            InvocationError::InvocationNotActive => InvocationErrorView::InvocationNotActive,
            InvocationError::CostLimitExceeded => InvocationErrorView::CostLimitExceeded,
            InvocationError::CleanupFailed => InvocationErrorView::CleanupFailed,
        }
    }
}

impl InvocationErrorView {
    pub open spec fn text(self) -> Seq<char> {
        match self {
            InvocationErrorView::InvalidRequest => "invalid invocation request"@,
            InvocationErrorView::IdentityAlreadyActive =>
                "durable identity already has an active invocation"@,
            InvocationErrorView::RuntimeFailed => "agent container failed"@,
            InvocationErrorView::AgentRejected { code, message } => "agent rejected the invocation ("@
                + code + "): "@ + message,
            InvocationErrorView::InvalidOutcome => "agent returned an invalid outcome"@,
            InvocationErrorView::TimedOut => "agent invocation timed out"@,
            InvocationErrorView::Cancelled => "agent invocation was cancelled"@,
            InvocationErrorView::InvocationNotActive => "invocation is not active"@,
            InvocationErrorView::CostLimitExceeded =>
                "agent reported cost over the configured limit"@,
            InvocationErrorView::CleanupFailed => "container cleanup could not be confirmed"@,
        }
    }
}

impl InvocationError {
    pub fn message(&self) -> (r: String)
        ensures
            r@ == self@.text(),
    {
        match self {
            InvocationError::InvalidRequest => "invalid invocation request".to_owned(),
            InvocationError::IdentityAlreadyActive =>
                "durable identity already has an active invocation".to_owned(),
            InvocationError::RuntimeFailed => "agent container failed".to_owned(),
            InvocationError::AgentRejected { code, message } => cat4(
                "agent rejected the invocation (",
                code.as_str(),
                "): ",
                message.as_str(),
            ),
            InvocationError::InvalidOutcome => "agent returned an invalid outcome".to_owned(),
            InvocationError::TimedOut => "agent invocation timed out".to_owned(),
            InvocationError::Cancelled => "agent invocation was cancelled".to_owned(),
            InvocationError::InvocationNotActive => "invocation is not active".to_owned(),
            InvocationError::CostLimitExceeded =>
                "agent reported cost over the configured limit".to_owned(),
            InvocationError::CleanupFailed => "container cleanup could not be confirmed".to_owned(),
        }
    }
}

pub open spec fn invocation_api_error(
    error: InvocationErrorView,
    request_id: Seq<char>,
) -> RuntimeApiErrorView {
    match error {
        InvocationErrorView::IdentityAlreadyActive => conflict_error(
            request_id,
            error.text(),
            "identity_already_active"@,
        ),
        InvocationErrorView::InvalidRequest => coded_validation_error(
            request_id,
            error.text(),
            "invalid_request"@,
        ),
        InvocationErrorView::InvocationNotActive => coded_not_found_error(
            request_id,
            error.text(),
            "invocation_not_active"@,
        ),
        InvocationErrorView::RuntimeFailed => client_error(
            request_id,
            error.text(),
            "attempts_exhausted"@,
        ),
        InvocationErrorView::AgentRejected { code, message: _ } => client_error(
            request_id,
            error.text(),
            code,
        ),
        InvocationErrorView::InvalidOutcome => client_error(
            request_id,
            error.text(),
            "invalid_outcome"@,
        ),
        InvocationErrorView::TimedOut => client_error(
            request_id,
            error.text(),
            "invocation_timed_out"@,
        ),
        InvocationErrorView::Cancelled => client_error(
            request_id,
            error.text(),
            "invocation_cancelled"@,
        ),
        InvocationErrorView::CostLimitExceeded => client_error(
            request_id,
            error.text(),
            "cost_limit_exceeded"@,
        ),
        InvocationErrorView::CleanupFailed => client_error(
            request_id,
            error.text(),
            "container_cleanup_failed"@,
        ),
    }
}

pub fn map_invocation_error(error: &InvocationError, request_id: &str) -> (r: RuntimeApiError)
    ensures
        r@ == invocation_api_error(error@, request_id@),
{
    let message = error.message();
    match error {
        InvocationError::IdentityAlreadyActive => RuntimeApiError::retryable_conflict(
            request_id,
            message,
            "identity_already_active",
        ),
        InvocationError::InvalidRequest => RuntimeApiError::validation_with_code(
            request_id,
            message,
            "invalid_request",
        ),
        InvocationError::InvocationNotActive => RuntimeApiError::resource_not_found_with_code(
            request_id,
            message,
            "invocation_not_active",
        ),
        InvocationError::RuntimeFailed => RuntimeApiError::runtime_client(
            request_id,
            message,
            "attempts_exhausted",
        ),
        InvocationError::AgentRejected { code, message: _ } => RuntimeApiError::runtime_client(
            request_id,
            message,
            code.as_str(),
        ),
        InvocationError::InvalidOutcome => RuntimeApiError::runtime_client(
            request_id,
            message,
            "invalid_outcome",
        ),
        InvocationError::TimedOut => RuntimeApiError::runtime_client(
            request_id,
            message,
            "invocation_timed_out",
        ),
        InvocationError::Cancelled => RuntimeApiError::runtime_client(
            request_id,
            message,
            "invocation_cancelled",
        ),
        InvocationError::CostLimitExceeded => RuntimeApiError::runtime_client(
            request_id,
            message,
            "cost_limit_exceeded",
        ),
        InvocationError::CleanupFailed => RuntimeApiError::runtime_client(
            request_id,
            message,
            "container_cleanup_failed",
        ),
    }
}

// What a container gave.

/// What is read of an outcome: whether it is an object, the text under one key, and the number
/// under a key of the object under another.
#[derive(Debug)]
pub struct JsonFields {
    pub is_object: bool,
    pub text: Option<String>,
    pub number: Option<u64>,
}

/// The fields of a JSON document, where the bytes are one.
pub uninterp spec fn json_fields_of(
    bytes: Seq<u8>,
    text_key: Seq<char>,
    outer_key: Seq<char>,
    number_key: Seq<char>,
) -> Option<(bool, Option<Seq<char>>, Option<u64>)>;

pub open spec fn fields_view(fields: Option<JsonFields>) -> Option<
    (bool, Option<Seq<char>>, Option<u64>),
> {
    match fields {
        Some(fields) => Some((fields.is_object, opt_text(fields.text), fields.number)),
        None => None,
    }
}

/// `serde_json::from_slice` into a `serde_json::Value`, and the fields of that.
#[verifier::external_body]
pub(crate) fn json_fields(
    bytes: &[u8],
    text_key: &str,
    outer_key: &str,
    number_key: &str,
) -> (r: Option<JsonFields>)
    ensures
        fields_view(r) == json_fields_of(bytes@, text_key@, outer_key@, number_key@),
{
    let value: serde_json::Value = serde_json::from_slice(bytes).ok()?;
    Some(JsonFields {
        is_object: value.is_object(),
        text: value.get(text_key).and_then(serde_json::Value::as_str).map(str::to_owned),
        number: value.get(outer_key).and_then(|outer| outer.get(number_key)).and_then(
            serde_json::Value::as_u64,
        ),
    })
}

/// What an output is worth.
#[derive(Clone, Copy, Debug, PartialEq, Eq, Structural)]
pub enum OutputVerdict {
    Completed,
    OverCost,
    Invalid,
}

/// An outcome is an object that says that the invocation completed, within the cost that is
/// allowed.
pub open spec fn fields_verdict(
    fields: Option<(bool, Option<Seq<char>>, Option<u64>)>,
    max_cost_usd_micros: Option<u64>,
) -> OutputVerdict {
    match fields {
        None => OutputVerdict::Invalid,
        Some(fields) => if !fields.0 || fields.1 != Some("completed"@) {
            OutputVerdict::Invalid
        } else if max_cost_usd_micros is Some && fields.2 is Some && fields.2->Some_0
            > max_cost_usd_micros->Some_0 {
            OutputVerdict::OverCost
        } else {
            OutputVerdict::Completed
        },
    }
}

fn exceeds_cost_limit(cost: Option<u64>, limit: Option<u64>) -> (r: bool)
    ensures
        r == (limit is Some && cost is Some && cost->Some_0 > limit->Some_0),
{
    match (cost, limit) {
        (Some(cost), Some(limit)) => cost > limit,
        _ => false,
    }
}

/// Judges an outcome by what was read of it.
pub fn judge_fields(fields: Option<JsonFields>, max_cost_usd_micros: Option<u64>) -> (r:
    OutputVerdict)
    ensures
        r == fields_verdict(fields_view(fields), max_cost_usd_micros),
{
    match fields {
        None => OutputVerdict::Invalid,
        Some(fields) => {
            let completed = match &fields.text {
                Some(text) => same(text.as_str(), "completed"),
                None => false,
            };
            if !fields.is_object || !completed {
                OutputVerdict::Invalid
            } else if exceeds_cost_limit(fields.number, max_cost_usd_micros) {
                OutputVerdict::OverCost
            } else {
                OutputVerdict::Completed
            }
        },
    }
}

pub open spec fn output_verdict(
    stdout: Seq<u8>,
    max_output_bytes: usize,
    max_cost_usd_micros: Option<u64>,
) -> OutputVerdict {
    if stdout.len() > max_output_bytes {
        OutputVerdict::Invalid
    } else {
        fields_verdict(
            json_fields_of(stdout, "status"@, "usage"@, "costUsdMicros"@),
            max_cost_usd_micros,
        )
    }
}

/// Judges the output of a container.
pub fn judge_output(stdout: &Vec<u8>, max_output_bytes: usize, max_cost_usd_micros: Option<u64>) -> (r:
    OutputVerdict)
    ensures
        r == output_verdict(stdout@, max_output_bytes, max_cost_usd_micros),
{
    if stdout.len() > max_output_bytes {
        return OutputVerdict::Invalid;
    }
    judge_fields(
        json_fields(stdout.as_slice(), "status", "usage", "costUsdMicros"),
        max_cost_usd_micros,
    )
}

// What an attempt means.

/// The limits on invocations.
#[derive(Clone, Copy, Debug)]
pub struct RuntimeLimits {
    pub attempt_timeout_seconds: u64,
    pub cleanup_timeout_seconds: u64,
    pub max_attempts: usize,
    pub max_concurrency: usize,
    pub max_output_bytes: usize,
    pub max_cost_usd_micros: Option<u64>,
    pub max_diagnostic_entries: usize,
}

pub open spec fn default_limits() -> RuntimeLimits {
    RuntimeLimits {
        attempt_timeout_seconds: 300,
        cleanup_timeout_seconds: 10,
        max_attempts: 3,
        max_concurrency: 4,
        max_output_bytes: 2_097_152,
        max_cost_usd_micros: None,
        max_diagnostic_entries: 100,
    }
}

impl Default for RuntimeLimits {
    fn default() -> (r: Self)
        ensures
            r == default_limits(),
    {
        RuntimeLimits {
            attempt_timeout_seconds: 300,
            cleanup_timeout_seconds: 10,
            max_attempts: 3,
            max_concurrency: 4,
            max_output_bytes: 2_097_152,
            max_cost_usd_micros: None,
            max_diagnostic_entries: 100,
        }
    }
}

/// How an attempt ended.
#[derive(Debug)]
pub enum AttemptReport {
    /// The container gave an output of this worth.
    Output(OutputVerdict),
    Failed(ContainerFailure),
    /// The attempt took too long, and its container is gone.
    TimedOut,
}

#[verifier::ext_equal]
pub enum AttemptReportView {
    Output(OutputVerdict),
    Failed(ContainerFailureView),
    TimedOut,
}

impl View for AttemptReport {
    type V = AttemptReportView;

    open spec fn view(&self) -> AttemptReportView {
        match self {
            AttemptReport::Output(verdict) => AttemptReportView::Output(*verdict),
            AttemptReport::Failed(failure) => AttemptReportView::Failed(failure@),
            AttemptReport::TimedOut => AttemptReportView::TimedOut,
        }
    }
}

/// What comes of an attempt whose time is over, by what came of its end, where that was awaited.
pub open spec fn late_attempt_of(
    cleanup: Option<Result<(), ContainerFailureView>>,
) -> AttemptReportView {
    match cleanup {
        None => AttemptReportView::Failed(ContainerFailureView::CleanupFailed),
        Some(Err(failure)) => if failure is CleanupFailed {
            AttemptReportView::Failed(ContainerFailureView::CleanupFailed)
        } else {
            AttemptReportView::TimedOut
        },
        Some(Ok(_)) => AttemptReportView::TimedOut,
    }
}

/// What an attempt that took too long comes to, once its container was given time to go: `None`
/// where that time ran out as well.
pub fn late_attempt(cleanup: Option<Result<(), ContainerFailure>>) -> (r: AttemptReport)
    ensures
        r@ == late_attempt_of(
            (match cleanup {
                None => None,
                Some(Ok(_)) => Some(Ok(())),
                Some(Err(failure)) => Some(Err(failure@)),
            }),
        ),
{
    match cleanup {
        None => AttemptReport::Failed(ContainerFailure::CleanupFailed),
        Some(Err(ContainerFailure::CleanupFailed)) => AttemptReport::Failed(
            ContainerFailure::CleanupFailed,
        ),
        Some(_) => AttemptReport::TimedOut,
    }
}

/// What follows an attempt.
#[derive(Debug)]
pub enum AttemptStep {
    /// Another attempt, in a fresh container.
    Retry,
    /// The invocation is over; its outcome is the output of this attempt.
    Complete,
    /// The invocation is over.
    Fail(InvocationError),
}

#[verifier::ext_equal]
pub enum AttemptStepView {
    Retry,
    Complete,
    Fail(InvocationErrorView),
}

impl View for AttemptStep {
    type V = AttemptStepView;

    open spec fn view(&self) -> AttemptStepView {
        match self {
            AttemptStep::Retry => AttemptStepView::Retry,
            AttemptStep::Complete => AttemptStepView::Complete,
            AttemptStep::Fail(error) => AttemptStepView::Fail(error@),
        }
    }
}

/// What follows an attempt when this many were made. Only a crash or an invalid outcome is tried
/// again.
pub open spec fn attempt_step_of(
    report: AttemptReportView,
    attempts: nat,
    max_attempts: nat,
    cancelled: bool,
) -> AttemptStepView {
    match report {
        AttemptReportView::Output(OutputVerdict::Completed) => AttemptStepView::Complete,
        AttemptReportView::Output(OutputVerdict::OverCost) => AttemptStepView::Fail(
            InvocationErrorView::CostLimitExceeded,
        ),
        AttemptReportView::Output(OutputVerdict::Invalid) => if attempts < max_attempts {
            AttemptStepView::Retry
        } else {
            AttemptStepView::Fail(InvocationErrorView::InvalidOutcome)
        },
        AttemptReportView::Failed(ContainerFailureView::CleanupFailed) => AttemptStepView::Fail(
            InvocationErrorView::CleanupFailed,
        ),
        AttemptReportView::Failed(ContainerFailureView::Rejected { code, message }) =>
            AttemptStepView::Fail(InvocationErrorView::AgentRejected { code, message }),
        AttemptReportView::Failed(ContainerFailureView::Retryable) => if cancelled {
            AttemptStepView::Fail(InvocationErrorView::Cancelled)
        } else if attempts < max_attempts {
            AttemptStepView::Retry
        } else {
            AttemptStepView::Fail(InvocationErrorView::RuntimeFailed)
        },
        AttemptReportView::TimedOut => AttemptStepView::Fail(InvocationErrorView::TimedOut),
    }
}

pub fn attempt_step(
    report: AttemptReport,
    attempts: usize,
    limits: &RuntimeLimits,
    cancelled: bool,
) -> (r: AttemptStep)
    ensures
        r@ == attempt_step_of(report@, attempts as nat, limits.max_attempts as nat, cancelled),
{
    match report {
        AttemptReport::Output(OutputVerdict::Completed) => AttemptStep::Complete,
        AttemptReport::Output(OutputVerdict::OverCost) => AttemptStep::Fail(
            InvocationError::CostLimitExceeded,
        ),
        AttemptReport::Output(OutputVerdict::Invalid) => {
            if attempts < limits.max_attempts {
                AttemptStep::Retry
            } else {
                AttemptStep::Fail(InvocationError::InvalidOutcome)
            }
        },
        AttemptReport::Failed(ContainerFailure::CleanupFailed) => AttemptStep::Fail(
            InvocationError::CleanupFailed,
        ),
        AttemptReport::Failed(ContainerFailure::Rejected { code, message }) => AttemptStep::Fail(
            InvocationError::AgentRejected { code, message },
        ),
        AttemptReport::Failed(ContainerFailure::Retryable) => {
            if cancelled {
                AttemptStep::Fail(InvocationError::Cancelled)
            } else if attempts < limits.max_attempts {
                AttemptStep::Retry
            } else {
                AttemptStep::Fail(InvocationError::RuntimeFailed)
            }
        },
        AttemptReport::TimedOut => AttemptStep::Fail(InvocationError::TimedOut),
    }
}

// Which invocations run, and which ran.

/// What is asked of an agent.
#[derive(Debug)]
pub struct InvocationRequest {
    pub invocation_id: String,
    pub workspace_id: String,
    pub fencing_token: i64,
    pub backend_credential: String,
    /// Whether the input is a JSON object.
    pub input_is_object: bool,
}

#[verifier::ext_equal]
pub struct InvocationRequestView {
    pub invocation_id: Seq<char>,
    pub workspace_id: Seq<char>,
    pub fencing_token: i64,
    pub backend_credential: Seq<char>,
    pub input_is_object: bool,
}

impl View for InvocationRequest {
    type V = InvocationRequestView;

    open spec fn view(&self) -> InvocationRequestView {
        InvocationRequestView {
            invocation_id: self.invocation_id@,
            workspace_id: self.workspace_id@,
            fencing_token: self.fencing_token,
            backend_credential: self.backend_credential@,
            input_is_object: self.input_is_object,
        }
    }
}

/// What is remembered of an invocation.
#[derive(Debug)]
pub struct InvocationDiagnostic {
    pub invocation_id: String,
    pub workspace_id: String,
    pub agent_identity_id: String,
    pub fencing_token: i64,
    pub status: &'static str,
    pub attempts: usize,
    pub containers_removed: usize,
    pub attempt_ids: Vec<String>,
    pub last_failure: Option<&'static str>,
}

#[verifier::ext_equal]
pub struct InvocationDiagnosticView {
    pub invocation_id: Seq<char>,
    pub workspace_id: Seq<char>,
    pub agent_identity_id: Seq<char>,
    pub fencing_token: i64,
    pub status: Seq<char>,
    pub attempts: nat,
    pub containers_removed: int,
    pub attempt_ids: Seq<Seq<char>>,
    pub last_failure: Option<Seq<char>>,
}

impl View for InvocationDiagnostic {
    type V = InvocationDiagnosticView;

    open spec fn view(&self) -> InvocationDiagnosticView {
        InvocationDiagnosticView {
            invocation_id: self.invocation_id@,
            workspace_id: self.workspace_id@,
            agent_identity_id: self.agent_identity_id@,
            fencing_token: self.fencing_token,
            status: self.status@,
            attempts: self.attempts as nat,
            containers_removed: self.containers_removed as int,
            attempt_ids: texts(self.attempt_ids@),
            last_failure: crate::catalog::opt_str(self.last_failure),
        }
    }
}

/// What is said of an invocation that is over.
pub open spec fn status_of(result: Result<(), InvocationErrorView>) -> (Seq<char>, Option<Seq<char>>) {
    match result {
        Ok(_) => ("completed"@, None),
        Err(InvocationErrorView::RuntimeFailed) => ("failed"@, Some("container_crash"@)),
        Err(InvocationErrorView::InvalidOutcome) => ("failed"@, Some("invalid_outcome"@)),
        Err(InvocationErrorView::TimedOut) => ("failed"@, Some("timeout"@)),
        Err(InvocationErrorView::Cancelled) => ("cancelled"@, Some("cancelled"@)),
        Err(InvocationErrorView::CostLimitExceeded) => ("failed"@, Some("cost_limit_exceeded"@)),
        Err(InvocationErrorView::AgentRejected { .. }) => ("failed"@, Some("agent_rejected"@)),
        Err(InvocationErrorView::CleanupFailed) => (
            "cleanup_failed"@,
            Some("container_cleanup_failed"@),
        ),
        Err(_) => ("failed"@, None),
    }
}

fn final_status(result: &Result<(), InvocationError>) -> (r: (&'static str, Option<&'static str>))
    ensures
        (r.0@, crate::catalog::opt_str(r.1)) == status_of(result_view(*result)),
{
    match result {
        Ok(_) => ("completed", None),
        Err(InvocationError::RuntimeFailed) => ("failed", Some("container_crash")),
        Err(InvocationError::InvalidOutcome) => ("failed", Some("invalid_outcome")),
        Err(InvocationError::TimedOut) => ("failed", Some("timeout")),
        Err(InvocationError::Cancelled) => ("cancelled", Some("cancelled")),
        Err(InvocationError::CostLimitExceeded) => ("failed", Some("cost_limit_exceeded")),
        Err(InvocationError::AgentRejected { .. }) => ("failed", Some("agent_rejected")),
        Err(InvocationError::CleanupFailed) => (
            "cleanup_failed",
            Some("container_cleanup_failed"),
        ),
        Err(_) => ("failed", None),
    }
}

pub open spec fn result_view(result: Result<(), InvocationError>) -> Result<(), InvocationErrorView> {
    match result {
        Ok(_) => Ok(()),
        Err(error) => Err(error@),
    }
}

/// The state of what invocations need.
#[derive(Clone, Copy, Debug, PartialEq, Eq, Structural)]
pub struct RuntimeInfrastructureHealth {
    pub docker_available: bool,
    pub open_ai_configured: bool,
    pub agent_image_available: bool,
}

impl Default for RuntimeInfrastructureHealth {
    fn default() -> (r: Self)
        ensures
            r == (RuntimeInfrastructureHealth {
                docker_available: false,
                open_ai_configured: false,
                agent_image_available: false,
            }),
    {
        RuntimeInfrastructureHealth {
            docker_available: false,
            open_ai_configured: false,
            agent_image_available: false,
        }
    }
}

/// A key is configured where the deployment has one that is not blank. Whether the engine and the
/// image are there is for others to find out.
pub fn infrastructure_health(
    deployment: &ResolvedRuntime,
    docker_available: bool,
    agent_image_available: bool,
) -> (r: RuntimeInfrastructureHealth)
    ensures
        r == (RuntimeInfrastructureHealth {
            docker_available,
            open_ai_configured: !is_blank(api_key_of(deployment@)),
            agent_image_available,
        }),
{
    proof {
        reveal_strlit("");
        assert(trimmed(""@) =~= ""@);
    }
    let open_ai_configured = match deployment.environment_value("OPENAI_API_KEY") {
        Some(value) => !trim(value).as_str().is_empty(),
        None => false,
    };
    RuntimeInfrastructureHealth { docker_available, open_ai_configured, agent_image_available }
}

/// What is told of all invocations.
#[derive(Debug)]
pub struct RuntimeDiagnostics {
    pub active_count: usize,
    pub invocations: Vec<InvocationDiagnostic>,
    pub infrastructure: RuntimeInfrastructureHealth,
}

#[verifier::ext_equal]
pub struct RuntimeDiagnosticsView {
    pub active_count: nat,
    pub invocations: Seq<InvocationDiagnosticView>,
    pub infrastructure: RuntimeInfrastructureHealth,
}

impl View for RuntimeDiagnostics {
    type V = RuntimeDiagnosticsView;

    open spec fn view(&self) -> RuntimeDiagnosticsView {
        RuntimeDiagnosticsView {
            active_count: self.active_count as nat,
            invocations: views(self.invocations@),
            infrastructure: self.infrastructure,
        }
    }
}

/// The identities and invocations that are active, and what is remembered.
pub struct InvocationTable {
    identities: TextSet,
    invocations: TextSet,
    diagnostics: Vec<InvocationDiagnostic>,
    max_diagnostic_entries: usize,
}

#[verifier::ext_equal]
pub struct InvocationTableView {
    pub identities: Set<Seq<char>>,
    pub invocations: Set<Seq<char>>,
    pub diagnostics: Seq<InvocationDiagnosticView>,
    pub max_diagnostic_entries: nat,
}

impl View for InvocationTable {
    type V = InvocationTableView;

    closed spec fn view(&self) -> InvocationTableView {
        InvocationTableView {
            identities: self.identities@,
            invocations: self.invocations@,
            diagnostics: views(self.diagnostics@),
            max_diagnostic_entries: self.max_diagnostic_entries as nat,
        }
    }
}

impl InvocationTableView {
    /// Whether an invocation may start.
    pub open spec fn admits(self, identity: Seq<char>, request: InvocationRequestView) -> Result<
        (),
        InvocationErrorView,
    > {
        if request.fencing_token < 1 || is_blank(request.backend_credential)
            || !request.input_is_object {
            Err(InvocationErrorView::InvalidRequest)
        } else if self.identities.contains(identity) || self.invocations.contains(
            request.invocation_id,
        ) {
            Err(InvocationErrorView::IdentityAlreadyActive)
        } else {
            Ok(())
        }
    }

    pub open spec fn begun(self, identity: Seq<char>, request: InvocationRequestView) -> Self {
        if self.admits(identity, request) is Ok {
            InvocationTableView {
                identities: self.identities.insert(identity),
                invocations: self.invocations.insert(request.invocation_id),
                ..self
            }
        } else {
            self
        }
    }

    /// Where a container may be left behind, the identity stays taken. The oldest entry makes room
    /// for the new one.
    pub open spec fn ended(
        self,
        identity: Seq<char>,
        request: InvocationRequestView,
        attempt_ids: Seq<Seq<char>>,
        result: Result<(), InvocationErrorView>,
    ) -> Self {
        let lost = result matches Err(InvocationErrorView::CleanupFailed);
        let entry = InvocationDiagnosticView {
            invocation_id: request.invocation_id,
            workspace_id: request.workspace_id,
            agent_identity_id: identity,
            fencing_token: request.fencing_token,
            status: status_of(result).0,
            attempts: attempt_ids.len(),
            containers_removed: attempt_ids.len() - (if lost {
                1int
            } else {
                0int
            }),
            attempt_ids,
            last_failure: status_of(result).1,
        };
        let kept = if self.diagnostics.len() >= self.max_diagnostic_entries {
            self.diagnostics.drop_first()
        } else {
            self.diagnostics
        };
        InvocationTableView {
            identities: if lost {
                self.identities
            } else {
                self.identities.remove(identity)
            },
            invocations: if lost {
                self.invocations
            } else {
                self.invocations.remove(request.invocation_id)
            },
            diagnostics: kept.push(entry),
            ..self
        }
    }
}

fn clone_diagnostic(entry: &InvocationDiagnostic) -> (r: InvocationDiagnostic)
    ensures
        r@ == entry@,
{
    InvocationDiagnostic {
        invocation_id: entry.invocation_id.clone(),
        workspace_id: entry.workspace_id.clone(),
        agent_identity_id: entry.agent_identity_id.clone(),
        fencing_token: entry.fencing_token,
        status: entry.status,
        attempts: entry.attempts,
        containers_removed: entry.containers_removed,
        attempt_ids: clone_texts(&entry.attempt_ids),
        last_failure: entry.last_failure,
    }
}

impl InvocationTable {
    pub fn new(limits: &RuntimeLimits) -> (r: Self)
        ensures
            r@ == (InvocationTableView {
                identities: Set::empty(),
                invocations: Set::empty(),
                diagnostics: Seq::empty(),
                max_diagnostic_entries: limits.max_diagnostic_entries as nat,
            }),
    {
        let r = InvocationTable {
            identities: TextSet::new(),
            invocations: TextSet::new(),
            diagnostics: Vec::new(),
            max_diagnostic_entries: limits.max_diagnostic_entries,
        };
        proof {
            assert(views(r.diagnostics@) =~= Seq::empty());
        }
        r
    }

    /// Starts an invocation of an identity.
    pub fn begin(&mut self, identity: &str, request: &InvocationRequest) -> (r: Result<
        (),
        InvocationError,
    >)
        ensures
            final(self)@ == old(self)@.begun(identity@, request@),
            agrees(r, old(self)@.admits(identity@, request@)),
    {
        let blank = trim(request.backend_credential.as_str()).as_str().is_empty();
        if request.fencing_token < 1 || blank || !request.input_is_object {
            return Err(InvocationError::InvalidRequest);
        }
        if self.identities.contains(identity) || self.invocations.contains(
            request.invocation_id.as_str(),
        ) {
            return Err(InvocationError::IdentityAlreadyActive);
        }
        self.identities.insert(identity);
        self.invocations.insert(request.invocation_id.as_str());
        Ok(())
    }

    /// Ends an invocation of an identity. A history of no entries cannot be kept.
    pub fn end(
        &mut self,
        identity: &str,
        request: &InvocationRequest,
        attempt_ids: Vec<String>,
        result: &Result<(), InvocationError>,
    )
        requires
            old(self)@.max_diagnostic_entries > 0,
            result_view(*result) matches Err(InvocationErrorView::CleanupFailed) ==> attempt_ids@.len()
                > 0,
        ensures
            final(self)@ == old(self)@.ended(
                identity@,
                request@,
                texts(attempt_ids@),
                result_view(*result),
            ),
    {
        let lost = match result {
            Err(InvocationError::CleanupFailed) => true,
            _ => false,
        };
        if !lost {
            self.invocations.remove(request.invocation_id.as_str());
            self.identities.remove(identity);
        }
        let status = final_status(result);
        let attempts = attempt_ids.len();
        let containers_removed: usize = if lost {
            attempts - 1
        } else {
            attempts
        };
        let entry = InvocationDiagnostic {
            invocation_id: request.invocation_id.clone(),
            workspace_id: request.workspace_id.clone(),
            agent_identity_id: identity.to_owned(),
            fencing_token: request.fencing_token,
            status: status.0,
            attempts,
            containers_removed,
            attempt_ids,
            last_failure: status.1,
        };
        let ghost shown = entry@;
        let ghost start = self.diagnostics@;
        if self.diagnostics.len() >= self.max_diagnostic_entries {
            self.diagnostics.remove(0);
            proof {
                assert(views(self.diagnostics@) =~= views(start).drop_first());
            }
        }
        let ghost before = self.diagnostics@;
        self.diagnostics.push(entry);
        proof {
            assert(views(self.diagnostics@) =~= views(before).push(shown));
        }
    }

    /// Whether an invocation is active, and so can be cancelled or steered.
    pub fn is_active(&self, invocation_id: &str) -> (r: bool)
        ensures
            r == self@.invocations.contains(invocation_id@),
    {
        self.invocations.contains(invocation_id)
    }

    /// Whether a running invocation can be steered.
    pub fn steer(&self, invocation_id: &str) -> (r: Result<(), InvocationError>)
        ensures
            agrees(
                r,
                (if self@.invocations.contains(invocation_id@) {
                    Ok(())
                } else {
                    Err(InvocationErrorView::InvocationNotActive)
                }),
            ),
    {
        if self.is_active(invocation_id) {
            Ok(())
        } else {
            Err(InvocationError::InvocationNotActive)
        }
    }

    /// How many identities are active.
    pub fn active_count(&self) -> (r: usize)
        ensures
            self@.identities.finite(),
            r == self@.identities.len(),
    {
        self.identities.len()
    }

    /// Whether any identity is active.
    pub fn is_busy(&self) -> (r: bool)
        ensures
            r == (self@.identities.len() > 0),
    {
        self.active_count() > 0
    }

    fn history(&self) -> (r: Vec<InvocationDiagnostic>)
        ensures
            views(r@) == self@.diagnostics,
    {
        let mut out: Vec<InvocationDiagnostic> = Vec::new();
        let ghost all = views(self.diagnostics@);
        for i in 0..self.diagnostics.len()
            invariant
                all == views(self.diagnostics@),
                views(out@) == all.take(i as int),
        {
            let ghost before = out@;
            let entry = clone_diagnostic(&self.diagnostics[i]);
            let ghost shown = entry@;
            out.push(entry);
            proof {
                assert(views(out@) =~= views(before).push(shown));
                assert(all[i as int] == shown);
                assert(views(out@) =~= all.take(i as int + 1));
            }
        }
        proof {
            assert(all.take(all.len() as int) =~= all);
        }
        out
    }

    /// What is told of all invocations: how many identities are active, what is remembered, oldest
    /// first, and the state of what invocations need.
    pub fn diagnostics(&self, infrastructure: RuntimeInfrastructureHealth) -> (r:
        RuntimeDiagnostics)
        ensures
            r@ == (RuntimeDiagnosticsView {
                active_count: self@.identities.len(),
                invocations: self@.diagnostics,
                infrastructure,
            }),
    {
        RuntimeDiagnostics {
            active_count: self.active_count(),
            invocations: self.history(),
            infrastructure,
        }
    }
}

// What holds of every invocation.

/// An identity runs one invocation at a time.
pub proof fn law_one_invocation_per_identity(
    table: InvocationTableView,
    identity: Seq<char>,
    first: InvocationRequestView,
    second: InvocationRequestView,
)
    requires
        table.admits(identity, first) is Ok,
    ensures
        table.begun(identity, first).admits(identity, second) is Err,
        table.begun(identity, first).begun(identity, second) == table.begun(identity, first),
{
}

/// An invocation that ends leaves the table as it was before, except that where a container may be
/// left behind the identity stays taken.
pub proof fn law_ended_invocations_are_released(
    table: InvocationTableView,
    identity: Seq<char>,
    request: InvocationRequestView,
    attempt_ids: Seq<Seq<char>>,
    result: Result<(), InvocationErrorView>,
    next: InvocationRequestView,
)
    requires
        table.admits(identity, request) is Ok,
    ensures
        ({
            let after = table.begun(identity, request).ended(identity, request, attempt_ids, result);
            if result matches Err(InvocationErrorView::CleanupFailed) {
                after.admits(identity, next) is Err
            } else {
                after.identities == table.identities && after.invocations == table.invocations
            }
        }),
{
    let after = table.begun(identity, request).ended(identity, request, attempt_ids, result);
    if !(result matches Err(InvocationErrorView::CleanupFailed)) {
        assert(after.identities =~= table.identities);
        assert(after.invocations =~= table.invocations);
    }
}

/// An invocation that starts makes one more identity active, and none is left of that when it ends,
/// except where a container may be left behind.
pub proof fn law_active_identities_are_counted(
    table: InvocationTableView,
    identity: Seq<char>,
    request: InvocationRequestView,
    attempt_ids: Seq<Seq<char>>,
    result: Result<(), InvocationErrorView>,
)
    requires
        table.identities.finite(),
        table.admits(identity, request) is Ok,
    ensures
        ({
            let begun = table.begun(identity, request);
            let after = begun.ended(identity, request, attempt_ids, result);
            &&& begun.identities.len() == table.identities.len() + 1
            &&& after.identities.len() == if result matches Err(
                InvocationErrorView::CleanupFailed,
            ) {
                table.identities.len() + 1
            } else {
                table.identities.len()
            }
        }),
{
}

/// Never more attempts are made than allowed, and only a crash or an invalid outcome is tried
/// again, while nobody has cancelled a crash.
pub proof fn law_attempts_are_bounded(
    report: AttemptReportView,
    attempts: nat,
    max_attempts: nat,
    cancelled: bool,
)
    requires
        attempt_step_of(report, attempts, max_attempts, cancelled) is Retry,
    ensures
        attempts < max_attempts,
        report == AttemptReportView::Output(OutputVerdict::Invalid) || (report
            == AttemptReportView::Failed(ContainerFailureView::Retryable) && !cancelled),
{
}

/// The history never grows past its limit and always holds the latest invocation.
pub proof fn law_history_is_bounded(
    table: InvocationTableView,
    identity: Seq<char>,
    request: InvocationRequestView,
    attempt_ids: Seq<Seq<char>>,
    result: Result<(), InvocationErrorView>,
)
    requires
        0 < table.max_diagnostic_entries,
        table.diagnostics.len() <= table.max_diagnostic_entries,
    ensures
        ({
            let after = table.ended(identity, request, attempt_ids, result);
            &&& after.diagnostics.len() <= after.max_diagnostic_entries
            &&& after.diagnostics.last().invocation_id == request.invocation_id
        }),
{
}

} // verus!
