//! One attempt at an invocation in a container of its own: how the container is made, what it is
//! told, and what its output and its end mean.

use vstd::prelude::*;
use vstd::utf8::{decode_utf8, valid_utf8};

use crate::container::{
    agent_host_config, agent_host_config_of, HostConfig, HostConfigView, MANAGED_LABEL,
    OWNER_LABEL, QUALIFIER_LABEL, RUNTIME_LABEL,
};
use crate::environment::{container_environment_of, value_of_variable};
use crate::json::{json_string, json_string_of};
use crate::labels::Labels;
use crate::number::{decimal, decimal_text};
use crate::runtime::{ResolvedRuntime, ResolvedRuntimeView};
use crate::session_store::{signed_decimal, signed_decimal_text};
use crate::text::{
    append_bytes, cat2, cat7, chars_of, same, slice_text, split, split_text, texts, utf8_text,
};

verus! {

pub const INVOCATION_LABEL: &'static str = "agentcore.emulator.invocation-id";

pub const IDENTITY_LABEL: &'static str = "agentcore.emulator.agent-identity-id";

pub const ATTEMPT_LABEL: &'static str = "agentcore.emulator.attempt-id";

/// An invocation as a container gets it.
#[derive(Debug)]
pub struct ContainerInvocation {
    pub invocation_id: String,
    pub attempt_id: String,
    pub agent_identity_id: String,
    pub fencing_token: i64,
    pub backend_credential: String,
    /// The input, as a JSON text.
    pub input: String,
    pub max_cost_usd_micros: Option<u64>,
}

#[verifier::ext_equal]
pub struct ContainerInvocationView {
    pub invocation_id: Seq<char>,
    pub attempt_id: Seq<char>,
    pub agent_identity_id: Seq<char>,
    pub fencing_token: i64,
    pub backend_credential: Seq<char>,
    pub input: Seq<char>,
    pub max_cost_usd_micros: Option<u64>,
}

impl View for ContainerInvocation {
    type V = ContainerInvocationView;

    open spec fn view(&self) -> ContainerInvocationView {
        ContainerInvocationView {
            invocation_id: self.invocation_id@,
            attempt_id: self.attempt_id@,
            agent_identity_id: self.agent_identity_id@,
            fencing_token: self.fencing_token,
            backend_credential: self.backend_credential@,
            input: self.input@,
            max_cost_usd_micros: self.max_cost_usd_micros,
        }
    }
}

// How the container is made.

pub open spec fn container_name_of(invocation: ContainerInvocationView) -> Seq<char> {
    "flint-runtime-fixture-"@ + invocation.attempt_id
}

/// Every attempt has a container of its own.
pub fn container_name(invocation: &ContainerInvocation) -> (r: String)
    ensures
        r@ == container_name_of(invocation@),
{
    cat2("flint-runtime-fixture-", invocation.attempt_id.as_str())
}

pub open spec fn attempt_labels_of(
    runtime_owner: Seq<char>,
    deployment: ResolvedRuntimeView,
    invocation: ContainerInvocationView,
) -> Map<Seq<char>, Seq<char>> {
    Map::empty().insert(MANAGED_LABEL@, "true"@).insert(OWNER_LABEL@, runtime_owner).insert(
        RUNTIME_LABEL@,
        deployment.runtime_arn,
    ).insert(QUALIFIER_LABEL@, deployment.qualifier).insert(
        INVOCATION_LABEL@,
        invocation.invocation_id,
    ).insert(IDENTITY_LABEL@, invocation.agent_identity_id).insert(
        ATTEMPT_LABEL@,
        invocation.attempt_id,
    )
}

pub fn attempt_labels(
    runtime_owner: &str,
    deployment: &ResolvedRuntime,
    invocation: &ContainerInvocation,
) -> (r: Labels)
    ensures
        r@ == attempt_labels_of(runtime_owner@, deployment@, invocation@),
{
    let mut labels = Labels::new();
    labels.insert(MANAGED_LABEL.to_owned(), "true".to_owned());
    labels.insert(OWNER_LABEL.to_owned(), runtime_owner.to_owned());
    labels.insert(RUNTIME_LABEL.to_owned(), deployment.runtime_arn.clone());
    labels.insert(QUALIFIER_LABEL.to_owned(), deployment.qualifier.clone());
    labels.insert(INVOCATION_LABEL.to_owned(), invocation.invocation_id.clone());
    labels.insert(IDENTITY_LABEL.to_owned(), invocation.agent_identity_id.clone());
    labels.insert(ATTEMPT_LABEL.to_owned(), invocation.attempt_id.clone());
    labels
}

/// The variables that say what the invocation is.
pub open spec fn invocation_variables(invocation: ContainerInvocationView) -> Seq<Seq<char>> {
    let named = seq![
        "FLINT_INVOCATION_ID="@ + invocation.invocation_id,
        "FLINT_AGENT_IDENTITY_ID="@ + invocation.agent_identity_id,
        "FLINT_FENCING_TOKEN="@ + signed_decimal(invocation.fencing_token as int),
    ];
    match invocation.max_cost_usd_micros {
        Some(cost) => named.push("FLINT_MAX_COST_USD_MICROS="@ + decimal(cost as nat)),
        None => named,
    }
}

pub fn attempt_environment(deployment: &ResolvedRuntime, invocation: &ContainerInvocation) -> (r:
    Vec<String>)
    ensures
        texts(r@) == container_environment_of(
            deployment@.image_environment,
            deployment@.environment,
        ) + invocation_variables(invocation@),
{
    let mut environment = deployment.container_environment();
    let ghost base = texts(environment@);
    environment.push(cat2("FLINT_INVOCATION_ID=", invocation.invocation_id.as_str()));
    environment.push(cat2("FLINT_AGENT_IDENTITY_ID=", invocation.agent_identity_id.as_str()));
    environment.push(
        cat2("FLINT_FENCING_TOKEN=", signed_decimal_text(invocation.fencing_token).as_str()),
    );
    if let Some(cost) = invocation.max_cost_usd_micros {
        environment.push(cat2("FLINT_MAX_COST_USD_MICROS=", decimal_text(cost).as_str()));
    }
    proof {
        assert(texts(environment@) =~= base + invocation_variables(invocation@));
    }
    environment
}

/// A container for one attempt. All its streams are attached, and its input closes with the first
/// connection.
#[derive(Debug)]
pub struct AttemptPlan {
    pub name: String,
    pub image: String,
    pub environment: Vec<String>,
    pub labels: Labels,
    pub host: HostConfig,
}

#[verifier::ext_equal]
pub struct AttemptPlanView {
    pub name: Seq<char>,
    pub image: Seq<char>,
    pub environment: Seq<Seq<char>>,
    pub labels: Map<Seq<char>, Seq<char>>,
    pub host: HostConfigView,
}

impl View for AttemptPlan {
    type V = AttemptPlanView;

    open spec fn view(&self) -> AttemptPlanView {
        AttemptPlanView {
            name: self.name@,
            image: self.image@,
            environment: texts(self.environment@),
            labels: self.labels@,
            host: self.host@,
        }
    }
}

pub open spec fn attempt_plan_of(
    runtime_owner: Seq<char>,
    deployment: ResolvedRuntimeView,
    invocation: ContainerInvocationView,
) -> AttemptPlanView {
    AttemptPlanView {
        name: container_name_of(invocation),
        image: deployment.image,
        environment: container_environment_of(
            deployment.image_environment,
            deployment.environment,
        ) + invocation_variables(invocation),
        labels: attempt_labels_of(runtime_owner, deployment, invocation),
        host: agent_host_config_of(deployment),
    }
}

pub fn attempt_plan(
    runtime_owner: &str,
    deployment: &ResolvedRuntime,
    invocation: &ContainerInvocation,
) -> (r: AttemptPlan)
    ensures
        r@ == attempt_plan_of(runtime_owner@, deployment@, invocation@),
{
    AttemptPlan {
        name: container_name(invocation),
        image: deployment.image.clone(),
        environment: attempt_environment(deployment, invocation),
        labels: attempt_labels(runtime_owner, deployment, invocation),
        host: agent_host_config(deployment),
    }
}

// What the container is told.

/// A JSON member with a text.
pub open spec fn text_member(before: Seq<char>, text: Seq<char>) -> Seq<char> {
    before + json_string_of(text)
}

fn write_member(before: &str, text: &str) -> (r: String)
    ensures
        r@ == text_member(before@, text@),
{
    cat2(before, json_string(text).as_str())
}

pub open spec fn api_key_of(deployment: ResolvedRuntimeView) -> Seq<char> {
    match value_of_variable(deployment.environment, "OPENAI_API_KEY"@) {
        Some(value) => value,
        None => ""@,
    }
}

/// The first line that a container reads: the invocation, with its credentials and input.
pub open spec fn input_line_of(
    deployment: ResolvedRuntimeView,
    invocation: ContainerInvocationView,
) -> Seq<char> {
    text_member("{\"agentIdentityId\":"@, invocation.agent_identity_id) + text_member(
        ",\"attemptId\":"@,
        invocation.attempt_id,
    ) + text_member(
        ",\"credentials\":{\"backendAccessToken\":"@,
        invocation.backend_credential,
    ) + text_member(",\"openaiApiKey\":"@, api_key_of(deployment)) + ("},\"fencingToken\":"@
        + signed_decimal(invocation.fencing_token as int)) + (",\"input\":"@ + invocation.input)
        + (text_member(",\"invocationId\":"@, invocation.invocation_id) + ",\"schemaVersion\":1}\n"@)
}

pub fn input_line(deployment: &ResolvedRuntime, invocation: &ContainerInvocation) -> (r: String)
    ensures
        r@ == input_line_of(deployment@, invocation@),
{
    let key = match deployment.environment_value("OPENAI_API_KEY") {
        Some(value) => value,
        None => "",
    };
    cat7(
        write_member("{\"agentIdentityId\":", invocation.agent_identity_id.as_str()).as_str(),
        write_member(",\"attemptId\":", invocation.attempt_id.as_str()).as_str(),
        write_member(
            ",\"credentials\":{\"backendAccessToken\":",
            invocation.backend_credential.as_str(),
        ).as_str(),
        write_member(",\"openaiApiKey\":", key).as_str(),
        cat2("},\"fencingToken\":", signed_decimal_text(invocation.fencing_token).as_str()).as_str(),
        cat2(",\"input\":", invocation.input.as_str()).as_str(),
        cat2(
            write_member(",\"invocationId\":", invocation.invocation_id.as_str()).as_str(),
            ",\"schemaVersion\":1}\n",
        ).as_str(),
    )
}

/// A line that steers a running invocation.
pub open spec fn steer_line_of(
    invocation_id: Seq<char>,
    text: Option<Seq<char>>,
    now_unix_millis: u64,
) -> Seq<char> {
    "{\"invocationId\":"@ + json_string_of(invocation_id) + ",\"text\":"@ + json_string_of(
        match text {
            Some(text) => text,
            None => ""@,
        },
    ) + ",\"timestamp\":"@ + decimal(now_unix_millis as nat) + ",\"type\":\"steer\"}\n"@
}

/// Writes a line that steers a running invocation; a message without a text steers with none.
pub fn steer_line(invocation_id: &str, text: Option<&str>, now_unix_millis: u64) -> (r: String)
    ensures
        r@ == steer_line_of(invocation_id@, crate::catalog::opt_str(text), now_unix_millis),
{
    let shown = match text {
        Some(text) => text,
        None => "",
    };
    cat7(
        "{\"invocationId\":",
        json_string(invocation_id).as_str(),
        ",\"text\":",
        json_string(shown).as_str(),
        ",\"timestamp\":",
        decimal_text(now_unix_millis).as_str(),
        ",\"type\":\"steer\"}\n",
    )
}

// What the container says.

/// Which stream a piece of output came on.
#[derive(Clone, Copy, Debug, PartialEq, Eq, Structural)]
pub enum AgentStream {
    Output,
    Error,
    Input,
}

/// The output of a container, up to a limit on each stream.
#[derive(Debug)]
pub struct AgentOutput {
    pub stdout: Vec<u8>,
    pub stderr: Vec<u8>,
    pub max_output_bytes: usize,
}

#[verifier::ext_equal]
pub struct AgentOutputView {
    pub stdout: Seq<u8>,
    pub stderr: Seq<u8>,
    pub max_output_bytes: usize,
}

impl View for AgentOutput {
    type V = AgentOutputView;

    open spec fn view(&self) -> AgentOutputView {
        AgentOutputView {
            stdout: self.stdout@,
            stderr: self.stderr@,
            max_output_bytes: self.max_output_bytes,
        }
    }
}

impl AgentOutputView {
    /// The output with another piece.
    pub open spec fn with(self, stream: AgentStream, message: Seq<u8>) -> AgentOutputView {
        match stream {
            AgentStream::Output => AgentOutputView { stdout: self.stdout + message, ..self },
            AgentStream::Error => AgentOutputView { stderr: self.stderr + message, ..self },
            AgentStream::Input => self,
        }
    }

    /// What a piece of the attached streams means: the stream that it came on must stay within
    /// the limit.
    pub open spec fn live(self, stream: AgentStream) -> Result<(), Seq<char>> {
        if stream == AgentStream::Output && self.stdout.len() > self.max_output_bytes {
            Err("agent output exceeded configured limit"@)
        } else if stream == AgentStream::Error && self.stderr.len() > self.max_output_bytes {
            Err("agent error output exceeded configured limit"@)
        } else {
            Ok(())
        }
    }

    /// What a piece of the log of a failed container means.
    pub open spec fn logged(self) -> Result<(), Seq<char>> {
        if self.stdout.len() > self.max_output_bytes || self.stderr.len() > self.max_output_bytes {
            Err("agent failure output exceeded configured limit"@)
        } else {
            Ok(())
        }
    }
}

impl AgentOutput {
    pub fn new(max_output_bytes: usize) -> (r: Self)
        ensures
            r@ == (AgentOutputView { stdout: Seq::empty(), stderr: Seq::empty(), max_output_bytes }),
    {
        AgentOutput { stdout: Vec::new(), stderr: Vec::new(), max_output_bytes }
    }

    fn add_piece(&mut self, stream: AgentStream, message: &[u8])
        ensures
            final(self)@ == old(self)@.with(stream, message@),
    {
        match stream {
            AgentStream::Output => {
                append_bytes(&mut self.stdout, message);
            },
            AgentStream::Error => {
                append_bytes(&mut self.stderr, message);
            },
            AgentStream::Input => {},
        }
    }

    /// Takes a piece of the attached streams.
    pub fn take_live(&mut self, stream: AgentStream, message: &[u8]) -> (r: Result<(), String>)
        ensures
            final(self)@ == old(self)@.with(stream, message@),
            crate::text::agrees(r, old(self)@.with(stream, message@).live(stream)),
    {
        self.add_piece(stream, message);
        match stream {
            AgentStream::Output => {
                if self.stdout.len() > self.max_output_bytes {
                    return Err("agent output exceeded configured limit".to_owned());
                }
            },
            AgentStream::Error => {
                if self.stderr.len() > self.max_output_bytes {
                    return Err("agent error output exceeded configured limit".to_owned());
                }
            },
            AgentStream::Input => {},
        }
        Ok(())
    }

    /// Takes a piece of the log of a container that failed.
    pub fn take_log(&mut self, stream: AgentStream, message: &[u8]) -> (r: Result<(), String>)
        ensures
            final(self)@ == old(self)@.with(stream, message@),
            crate::text::agrees(r, old(self)@.with(stream, message@).logged()),
    {
        self.add_piece(stream, message);
        if self.stdout.len() > self.max_output_bytes || self.stderr.len() > self.max_output_bytes {
            return Err("agent failure output exceeded configured limit".to_owned());
        }
        Ok(())
    }
}

// Why a container failed.

/// A line without its end: a newline, with a carriage return before it.
pub open spec fn without_return(line: Seq<char>) -> Seq<char> {
    if line.len() > 0 && line.last() == '\r' {
        line.drop_last()
    } else {
        line
    }
}

/// The lines of a text. Only what stands before a newline loses a carriage return, and a text that
/// ends with a newline has no empty line behind it.
pub open spec fn lines_of(text: Seq<char>) -> Seq<Seq<char>> {
    let pieces = split(text, '\n');
    let ended = pieces.drop_last().map_values(|piece: Seq<char>| without_return(piece));
    if pieces.last().len() == 0 {
        ended
    } else {
        ended.push(pieces.last())
    }
}

/// What is left of a line from each of its opening braces on.
pub open spec fn brace_tails(line: Seq<char>, from: nat) -> Seq<Seq<char>>
    decreases line.len() - from,
{
    if from >= line.len() {
        Seq::empty()
    } else if line[from as int] == '{' {
        seq![line.skip(from as int)] + brace_tails(line, from + 1)
    } else {
        brace_tails(line, from + 1)
    }
}

/// The places of some lines where a report can start, from the last line to the first.
pub open spec fn line_tails(lines: Seq<Seq<char>>) -> Seq<Seq<char>>
    decreases lines.len(),
{
    if lines.len() == 0 {
        Seq::empty()
    } else {
        brace_tails(lines.last(), 0) + line_tails(lines.drop_last())
    }
}

/// The texts that can be a report of a failure, in the order in which they are tried.
pub open spec fn report_candidates_of(output: Seq<u8>) -> Seq<Seq<char>> {
    if valid_utf8(output) {
        line_tails(lines_of(decode_utf8(output)))
    } else {
        Seq::empty()
    }
}

fn push_brace_tails(out: &mut Vec<String>, line: &str)
    ensures
        texts(final(out)@) == texts(old(out)@) + brace_tails(line@, 0),
{
    let chars = chars_of(line);
    let ghost start = texts(out@);
    let ghost all = brace_tails(line@, 0);
    proof {
        assert(texts(out@) + brace_tails(line@, 0) =~= start + all);
    }
    for i in 0..chars.len()
        invariant
            chars@ == line@,
            texts(out@) + brace_tails(line@, i as nat) == start + all,
    {
        if chars[i] == '{' {
            let ghost before = out@;
            let tail = slice_text(&chars, i, chars.len());
            proof {
                assert(tail@ =~= line@.skip(i as int));
            }
            let ghost shown = tail@;
            out.push(tail);
            proof {
                assert(texts(out@) =~= texts(before).push(shown));
                assert(texts(out@) + brace_tails(line@, i as nat + 1) =~= texts(before)
                    + brace_tails(line@, i as nat));
            }
        }
    }
    proof {
        assert(brace_tails(line@, chars@.len()) =~= Seq::empty());
        assert(texts(out@) =~= start + all);
    }
}

fn strip_return(line: &str) -> (r: String)
    ensures
        r@ == without_return(line@),
{
    let chars = chars_of(line);
    if chars.len() > 0 && chars[chars.len() - 1] == '\r' {
        let r = slice_text(&chars, 0, chars.len() - 1);
        proof {
            assert(r@ =~= line@.drop_last());
        }
        r
    } else {
        line.to_owned()
    }
}

fn text_lines(text: &str) -> (r: Vec<String>)
    ensures
        texts(r@) == lines_of(text@),
{
    let pieces = split_text(text, '\n');
    let ghost all = split(text@, '\n');
    proof {
        assert(all.len() > 0);
        assert(texts(pieces@).len() == pieces@.len());
    }
    let last: usize = pieces.len() - 1;
    let mut out: Vec<String> = Vec::new();
    let ghost wanted = all.drop_last().map_values(|piece: Seq<char>| without_return(piece));
    for i in 0..last
        invariant
            all == texts(pieces@),
            last == pieces@.len() - 1,
            wanted == all.drop_last().map_values(|piece: Seq<char>| without_return(piece)),
            texts(out@) == wanted.take(i as int),
    {
        let ghost before = out@;
        let line = strip_return(pieces[i].as_str());
        let ghost shown = line@;
        out.push(line);
        proof {
            assert(texts(out@) =~= texts(before).push(shown));
            assert(all[i as int] == pieces@[i as int]@);
            assert(texts(out@) =~= wanted.take(i as int + 1));
        }
    }
    proof {
        assert(wanted.take(last as int) =~= wanted);
        assert(all.last() == pieces@[last as int]@);
    }
    if !pieces[last].as_str().is_empty() {
        let ghost before = out@;
        out.push(pieces[last].clone());
        proof {
            assert(texts(out@) =~= texts(before).push(all.last()));
        }
    }
    out
}

/// Lists the texts that can be a report of a failure, in the order in which they are tried.
pub fn report_candidates(output: &[u8]) -> (r: Vec<String>)
    ensures
        texts(r@) == report_candidates_of(output@),
{
    let mut out: Vec<String> = Vec::new();
    let text = match utf8_text(output) {
        Some(text) => text,
        None => {
            proof {
                assert(texts(out@) =~= Seq::empty());
            }
            return out;
        },
    };
    let lines = text_lines(text.as_str());
    let ghost all = lines_of(text@);
    let mut left: usize = lines.len();
    proof {
        assert(all.take(left as int) =~= all);
        assert(texts(out@) =~= Seq::empty());
        assert(texts(out@) + line_tails(all.take(left as int)) =~= line_tails(all));
    }
    while left > 0
        invariant
            all == texts(lines@),
            left <= lines@.len(),
            texts(out@) + line_tails(all.take(left as int)) == line_tails(all),
        decreases left,
    {
        left = left - 1;
        let ghost before = texts(out@);
        proof {
            assert(all.take(left as int + 1).drop_last() =~= all.take(left as int));
            assert(all.take(left as int + 1).last() == lines@[left as int]@);
        }
        push_brace_tails(&mut out, lines[left].as_str());
        proof {
            assert(texts(out@) + line_tails(all.take(left as int)) =~= before + line_tails(
                all.take(left as int + 1),
            ));
        }
    }
    proof {
        assert(all.take(0) =~= Seq::empty());
        assert(texts(out@) =~= line_tails(all));
    }
    out
}

/// What a container reports of its failure.
#[derive(Debug, PartialEq, Eq)]
pub struct AgentFailure {
    pub code: String,
    pub message: String,
}

#[verifier::ext_equal]
pub struct AgentFailureView {
    pub code: Seq<char>,
    pub message: Seq<char>,
}

impl View for AgentFailure {
    type V = AgentFailureView;

    open spec fn view(&self) -> AgentFailureView {
        AgentFailureView { code: self.code@, message: self.message@ }
    }
}

pub open spec fn opt_failure(failure: Option<AgentFailure>) -> Option<AgentFailureView> {
    match failure {
        Some(failure) => Some(failure@),
        None => None,
    }
}

/// The failures that another attempt would only repeat.
pub open spec fn is_deterministic(code: Seq<char>) -> bool {
    code == "invalid_invocation"@ || code == "invalid_model_policy"@ || code == "model_not_found"@
        || code == "effort_not_supported"@ || code == "python_limit_exceeded"@
}

/// The first report, where another attempt would only repeat the failure.
pub open spec fn deterministic(report: Option<AgentFailureView>) -> Option<AgentFailureView> {
    match report {
        Some(failure) => if is_deterministic(failure.code) {
            Some(failure)
        } else {
            None
        },
        None => None,
    }
}

/// Keeps the first report of an output, where another attempt would only repeat the failure.
pub fn deterministic_agent_failure(report: Option<AgentFailure>) -> (r: Option<AgentFailure>)
    ensures
        opt_failure(r) == deterministic(opt_failure(report)),
{
    match report {
        Some(failure) => {
            let code = failure.code.as_str();
            if same(code, "invalid_invocation") || same(code, "invalid_model_policy") || same(
                code,
                "model_not_found",
            ) || same(code, "effort_not_supported") || same(code, "python_limit_exceeded") {
                Some(failure)
            } else {
                None
            }
        },
        None => None,
    }
}

// How an attempt ends.

/// What went wrong with an attempt.
#[derive(Debug, PartialEq, Eq)]
pub enum AttemptError {
    Execution(String),
    Rejected(AgentFailure),
    Cleanup(String),
}

#[verifier::ext_equal]
pub enum AttemptErrorView {
    Execution(Seq<char>),
    Rejected(AgentFailureView),
    Cleanup(Seq<char>),
}

impl View for AttemptError {
    type V = AttemptErrorView;

    open spec fn view(&self) -> AttemptErrorView {
        match self {
            AttemptError::Execution(message) => AttemptErrorView::Execution(message@),
            AttemptError::Rejected(failure) => AttemptErrorView::Rejected(failure@),
            AttemptError::Cleanup(message) => AttemptErrorView::Cleanup(message@),
        }
    }
}

/// What a container that ended with a status other than zero means, when these are the first
/// reports of its error output and of its output.
pub open spec fn failed_exit_of(
    status: i64,
    stderr_report: Option<AgentFailureView>,
    stdout_report: Option<AgentFailureView>,
) -> AttemptErrorView {
    match deterministic(stderr_report) {
        Some(failure) => AttemptErrorView::Rejected(failure),
        None => match deterministic(stdout_report) {
            Some(failure) => AttemptErrorView::Rejected(failure),
            None => AttemptErrorView::Execution(
                "agent container exited with status "@ + signed_decimal(status as int),
            ),
        },
    }
}

pub fn failed_exit(
    status: i64,
    stderr_report: Option<AgentFailure>,
    stdout_report: Option<AgentFailure>,
) -> (r: AttemptError)
    ensures
        r@ == failed_exit_of(status, opt_failure(stderr_report), opt_failure(stdout_report)),
{
    match deterministic_agent_failure(stderr_report) {
        Some(failure) => AttemptError::Rejected(failure),
        None => match deterministic_agent_failure(stdout_report) {
            Some(failure) => AttemptError::Rejected(failure),
            None => AttemptError::Execution(
                cat2(
                    "agent container exited with status ",
                    signed_decimal_text(status).as_str(),
                ),
            ),
        },
    }
}

/// How running a container ended, before it was removed.
#[derive(Debug)]
pub enum AttemptEnd {
    /// The container ended with this status and output.
    Exited { status: i64, stdout: Vec<u8> },
    /// The container ended badly, and the reports of its log are known.
    Failed {
        status: i64,
        stderr_report: Option<AgentFailure>,
        stdout_report: Option<AgentFailure>,
    },
    /// The container could not be run or watched.
    Broken(String),
    /// The invocation was cancelled.
    Cancelled,
}

#[verifier::ext_equal]
pub enum AttemptEndView {
    Exited { status: i64, stdout: Seq<u8> },
    Failed {
        status: i64,
        stderr_report: Option<AgentFailureView>,
        stdout_report: Option<AgentFailureView>,
    },
    Broken(Seq<char>),
    Cancelled,
}

impl View for AttemptEnd {
    type V = AttemptEndView;

    open spec fn view(&self) -> AttemptEndView {
        match self {
            AttemptEnd::Exited { status, stdout } => AttemptEndView::Exited {
                status: *status,
                stdout: stdout@,
            },
            AttemptEnd::Failed { status, stderr_report, stdout_report } => AttemptEndView::Failed {
                status: *status,
                stderr_report: opt_failure(*stderr_report),
                stdout_report: opt_failure(*stdout_report),
            },
            AttemptEnd::Broken(message) => AttemptEndView::Broken(message@),
            AttemptEnd::Cancelled => AttemptEndView::Cancelled,
        }
    }
}

/// What an end means by itself. A status other than zero without reports fails with the status.
pub open spec fn attempt_outcome(end: AttemptEndView) -> Result<Seq<u8>, AttemptErrorView> {
    match end {
        AttemptEndView::Exited { status, stdout } => if status == 0 {
            Ok(stdout)
        } else {
            Err(failed_exit_of(status, None, None))
        },
        AttemptEndView::Failed { status, stderr_report, stdout_report } => Err(
            failed_exit_of(status, stderr_report, stdout_report),
        ),
        AttemptEndView::Broken(message) => Err(AttemptErrorView::Execution(message)),
        AttemptEndView::Cancelled => Err(
            AttemptErrorView::Execution("agent invocation cancelled"@),
        ),
    }
}

/// What an attempt gives once its container was to be removed: a container that may be left
/// behind matters more than anything else.
pub open spec fn attempt_result(end: AttemptEndView, removal: Result<(), Seq<char>>) -> Result<
    Seq<u8>,
    AttemptErrorView,
> {
    match removal {
        Ok(_) => attempt_outcome(end),
        Err(message) => Err(AttemptErrorView::Cleanup(message)),
    }
}

/// Concludes an attempt.
pub fn conclude_attempt(end: AttemptEnd, removal: Result<(), String>) -> (r: Result<
    Vec<u8>,
    AttemptError,
>)
    ensures
        crate::text::agrees(
            r,
            attempt_result(
                end@,
                (match removal {
                    Ok(_) => Ok(()),
                    Err(message) => Err(message@),
                }),
            ),
        ),
{
    if let Err(message) = removal {
        return Err(AttemptError::Cleanup(message));
    }
    match end {
        AttemptEnd::Exited { status, stdout } => {
            if status == 0 {
                Ok(stdout)
            } else {
                Err(failed_exit(status, None, None))
            }
        },
        AttemptEnd::Failed { status, stderr_report, stdout_report } => Err(
            failed_exit(status, stderr_report, stdout_report),
        ),
        AttemptEnd::Broken(message) => Err(AttemptError::Execution(message)),
        AttemptEnd::Cancelled => Err(
            AttemptError::Execution("agent invocation cancelled".to_owned()),
        ),
    }
}

/// A container that may be left behind is reported, however its attempt ended, and only then.
pub proof fn law_lost_containers_are_reported(end: AttemptEndView, removal: Result<(), Seq<char>>)
    ensures
        (attempt_result(end, removal) matches Err(AttemptErrorView::Cleanup(_))) <==> removal is Err,
{
}

/// An output within the limit is kept whole, in order and on its own stream.
pub proof fn law_output_is_kept_within_the_limit(
    output: AgentOutputView,
    stream: AgentStream,
    message: Seq<u8>,
)
    requires
        output.with(stream, message).live(stream) is Ok,
        output.stdout.len() <= output.max_output_bytes,
        output.stderr.len() <= output.max_output_bytes,
    ensures
        output.with(stream, message).stdout.len() <= output.max_output_bytes,
        output.with(stream, message).stderr.len() <= output.max_output_bytes,
        output.stdout.is_prefix_of(output.with(stream, message).stdout),
        output.stderr.is_prefix_of(output.with(stream, message).stderr),
{
}

} // verus!
