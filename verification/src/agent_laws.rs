//! What holds of every invocation of an agent, of its attempts and of the events of a command.

use vstd::prelude::*;
use vstd::utf8::{decode_utf8, encode_utf8, valid_utf8};

use crate::attempt::{
    api_key_of, attempt_labels_of, attempt_plan_of, attempt_result, brace_tails, failed_exit_of,
    input_line_of, is_deterministic, line_tails, lines_of, report_candidates_of, steer_line_of,
    without_return, AgentFailureView, AgentOutputView, AgentStream, AttemptEndView,
    AttemptErrorView, ContainerInvocationView,
};
use crate::backend::CommandEventView;
use crate::container::session_host_config_of;
use crate::environment::{container_environment_of, value_of_variable};
use crate::event_stream::{
    checksum_of, crc_bit, crc_bits, crc_run, event_header, event_payload, four_bytes, frame_headers, frame_of, start_payload,
    FrameKind,
};
use crate::invocation::{
    attempt_step_of, container_failure_of, default_limits, fields_verdict, invocation_api_error,
    json_fields_of, late_attempt_of, output_verdict, status_of, AttemptReportView, AttemptStepView,
    ContainerFailureView, InvocationErrorView, InvocationRequestView, InvocationTableView,
    OutputVerdict,
};
use crate::json::json_string_of;
use crate::labels::lookup;
use crate::number::decimal;
use crate::runtime::{ResolvedEnvironmentVariableView, ResolvedRuntimeView};
use crate::session_store::signed_decimal;
use crate::text::{lacks, split, trimmed};

verus! {

// Invocations.

/// An invocation begins exactly where its token is positive, its credential is not blank and its
/// input is an object, and neither its identity nor itself is active. Then both are, and nothing
/// else changes.
pub proof fn law_invocations_begin(
    table: InvocationTableView,
    identity: Seq<char>,
    request: InvocationRequestView,
    other: Seq<char>,
)
    ensures
        ({
            let is_proper = request.fencing_token >= 1 && trimmed(request.backend_credential).len()
                > 0 && request.input_is_object;
            let is_free = !table.identities.contains(identity) && !table.invocations.contains(
                request.invocation_id,
            );
            let after = table.begun(identity, request);
            &&& table.admits(identity, request) is Ok <==> is_proper && is_free
            &&& !is_proper ==> table.admits(identity, request) == Err::<(), InvocationErrorView>(
                InvocationErrorView::InvalidRequest,
            )
            &&& is_proper && !is_free ==> table.admits(identity, request) == Err::<
                (),
                InvocationErrorView,
            >(InvocationErrorView::IdentityAlreadyActive)
            &&& is_proper && is_free ==> after.identities.contains(identity)
                && after.invocations.contains(request.invocation_id)
            &&& !(is_proper && is_free) ==> after == table
            &&& other != identity ==> (after.identities.contains(other)
                <==> table.identities.contains(other))
            &&& other != request.invocation_id ==> (after.invocations.contains(other)
                <==> table.invocations.contains(other))
            &&& after.diagnostics == table.diagnostics
        }),
{
}

/// An invocation that ended is free for another, unless its container may still be there. What came
/// of it is kept, the latest last.
pub proof fn law_invocations_end(
    table: InvocationTableView,
    identity: Seq<char>,
    request: InvocationRequestView,
    attempt_ids: Seq<Seq<char>>,
    result: Result<(), InvocationErrorView>,
    other: Seq<char>,
)
    ensures
        ({
            let after = table.ended(identity, request, attempt_ids, result);
            let lost = result == Err::<(), InvocationErrorView>(InvocationErrorView::CleanupFailed);
            let last = after.diagnostics.last();
            &&& !lost ==> !after.identities.contains(identity) && !after.invocations.contains(
                request.invocation_id,
            )
            &&& lost ==> after.identities == table.identities && after.invocations
                == table.invocations
            &&& other != identity ==> (after.identities.contains(other)
                <==> table.identities.contains(other))
            &&& other != request.invocation_id ==> (after.invocations.contains(other)
                <==> table.invocations.contains(other))
            &&& after.diagnostics.len() > 0
            &&& last.invocation_id == request.invocation_id
            &&& last.workspace_id == request.workspace_id
            &&& last.agent_identity_id == identity
            &&& last.fencing_token == request.fencing_token
            &&& last.attempt_ids == attempt_ids
            &&& last.attempts == attempt_ids.len()
            &&& lost ==> last.containers_removed == attempt_ids.len() - 1
            &&& !lost ==> last.containers_removed == attempt_ids.len()
            &&& last.status == status_of(result).0 && last.last_failure == status_of(result).1
            &&& after.max_diagnostic_entries == table.max_diagnostic_entries
        }),
{
}

/// What is kept of an invocation says how it ended.
pub proof fn law_invocation_statuses(code: Seq<char>, message: Seq<char>)
    ensures
        status_of(Ok(())) == ("completed"@, None::<Seq<char>>),
        status_of(Err(InvocationErrorView::RuntimeFailed)) == (
            "failed"@,
            Some("container_crash"@),
        ),
        status_of(Err(InvocationErrorView::InvalidOutcome)) == (
            "failed"@,
            Some("invalid_outcome"@),
        ),
        status_of(Err(InvocationErrorView::TimedOut)) == ("failed"@, Some("timeout"@)),
        status_of(Err(InvocationErrorView::Cancelled)) == ("cancelled"@, Some("cancelled"@)),
        status_of(Err(InvocationErrorView::CostLimitExceeded)) == (
            "failed"@,
            Some("cost_limit_exceeded"@),
        ),
        status_of(Err(InvocationErrorView::AgentRejected { code, message })) == (
            "failed"@,
            Some("agent_rejected"@),
        ),
        status_of(Err(InvocationErrorView::CleanupFailed)) == (
            "cleanup_failed"@,
            Some("container_cleanup_failed"@),
        ),
        status_of(Err(InvocationErrorView::InvalidRequest)) == ("failed"@, None::<Seq<char>>),
{
}

/// How the errors of invocations are answered.
pub proof fn law_invocation_errors_are_reported(error: InvocationErrorView, request_id: Seq<char>)
    ensures
        ({
            let e = invocation_api_error(error, request_id);
            &&& e.message == error.text() && e.request_id == request_id
            &&& error is IdentityAlreadyActive ==> e.status == 409 && e.code
                == "identity_already_active"@
            &&& error is InvalidRequest ==> e.status == 400 && e.code == "invalid_request"@
            &&& error is InvocationNotActive ==> e.status == 404 && e.code
                == "invocation_not_active"@
            &&& !(error is IdentityAlreadyActive || error is InvalidRequest || error
                is InvocationNotActive) ==> e.status == 424
            &&& error is RuntimeFailed ==> e.code == "attempts_exhausted"@
            &&& error matches InvocationErrorView::AgentRejected { code, message } ==> e.code
                == code
            &&& error is InvalidOutcome ==> e.code == "invalid_outcome"@
            &&& error is TimedOut ==> e.code == "invocation_timed_out"@
            &&& error is Cancelled ==> e.code == "invocation_cancelled"@
            &&& error is CostLimitExceeded ==> e.code == "cost_limit_exceeded"@
            &&& error is CleanupFailed ==> e.code == "container_cleanup_failed"@
        }),
{
}

/// An outcome counts exactly where it is an object that says that it is completed, and it is too
/// dear exactly where it then names a cost above the limit.
pub proof fn law_outcomes(
    is_object: bool,
    status: Option<Seq<char>>,
    cost: Option<u64>,
    limit: Option<u64>,
)
    ensures
        ({
            let verdict = fields_verdict(Some((is_object, status, cost)), limit);
            let done = is_object && status == Some("completed"@);
            let too_dear = limit is Some && cost is Some && cost->Some_0 > limit->Some_0;
            &&& done && !too_dear <==> verdict == OutputVerdict::Completed
            &&& done && too_dear <==> verdict == OutputVerdict::OverCost
            &&& !done <==> verdict == OutputVerdict::Invalid
            &&& fields_verdict(None, limit) == OutputVerdict::Invalid
        }),
{
}

/// What an agent wrote is an outcome where it is within the limit, by its status and the cost that
/// its usage names.
pub proof fn law_outputs(stdout: Seq<u8>, max_output_bytes: usize, limit: Option<u64>)
    ensures
        stdout.len() > max_output_bytes ==> output_verdict(stdout, max_output_bytes, limit)
            == OutputVerdict::Invalid,
        stdout.len() <= max_output_bytes ==> output_verdict(stdout, max_output_bytes, limit)
            == fields_verdict(
            json_fields_of(stdout, "status"@, "usage"@, "costUsdMicros"@),
            limit,
        ),
{
}

/// What an invocation may take, unless something else is said.
pub proof fn law_default_limits()
    ensures
        ({
            let limits = default_limits();
            &&& limits.attempt_timeout_seconds == 300
            &&& limits.cleanup_timeout_seconds == 10
            &&& limits.max_attempts == 3
            &&& limits.max_concurrency == 4
            &&& limits.max_output_bytes == 2 * 1024 * 1024
            &&& limits.max_cost_usd_micros is None
            &&& limits.max_diagnostic_entries == 100
        }),
{
}

/// An attempt is repeated exactly where its container failed in a way that may pass, or its outcome
/// is none, while attempts are left and nobody stopped it.
pub proof fn law_repeated_attempts(
    report: AttemptReportView,
    attempts: nat,
    max_attempts: nat,
    cancelled: bool,
)
    ensures
        ({
            let step = attempt_step_of(report, attempts, max_attempts, cancelled);
            let crashed = report == AttemptReportView::Failed(ContainerFailureView::Retryable);
            let no_outcome = report == AttemptReportView::Output(OutputVerdict::Invalid);
            &&& step == AttemptStepView::Retry <==> attempts < max_attempts && (crashed
                && !cancelled || no_outcome)
            &&& step == AttemptStepView::Complete <==> report == AttemptReportView::Output(
                OutputVerdict::Completed,
            )
            &&& crashed && cancelled ==> step == AttemptStepView::Fail(
                InvocationErrorView::Cancelled,
            )
            &&& crashed && !cancelled && attempts >= max_attempts ==> step == AttemptStepView::Fail(
                InvocationErrorView::RuntimeFailed,
            )
            &&& no_outcome && attempts >= max_attempts ==> step == AttemptStepView::Fail(
                InvocationErrorView::InvalidOutcome,
            )
            &&& report == AttemptReportView::Output(OutputVerdict::OverCost) ==> step
                == AttemptStepView::Fail(InvocationErrorView::CostLimitExceeded)
            &&& report == AttemptReportView::TimedOut ==> step == AttemptStepView::Fail(
                InvocationErrorView::TimedOut,
            )
            &&& report == AttemptReportView::Failed(ContainerFailureView::CleanupFailed) ==> step
                == AttemptStepView::Fail(InvocationErrorView::CleanupFailed)
            &&& report matches AttemptReportView::Failed(
                ContainerFailureView::Rejected { code, message },
            ) ==> step == AttemptStepView::Fail(
                InvocationErrorView::AgentRejected { code, message },
            )
        }),
{
}

// Attempts.

/// An attempt runs the image of its deployment in a container of its own name, with the variables of
/// the runtime and what names the invocation.
pub proof fn law_attempts(
    runtime_owner: Seq<char>,
    deployment: ResolvedRuntimeView,
    invocation: ContainerInvocationView,
)
    ensures
        ({
            let plan = attempt_plan_of(runtime_owner, deployment, invocation);
            let base = container_environment_of(
                deployment.image_environment,
                deployment.environment,
            );
            let n = base.len() as int;
            &&& plan.name == "flint-runtime-fixture-"@ + invocation.attempt_id
            &&& plan.image == deployment.image
            &&& base.is_prefix_of(plan.environment)
            &&& plan.environment.len() >= n + 3
            &&& plan.environment[n] == "FLINT_INVOCATION_ID="@ + invocation.invocation_id
            &&& plan.environment[n + 1] == "FLINT_AGENT_IDENTITY_ID="@
                + invocation.agent_identity_id
            &&& plan.environment[n + 2] == "FLINT_FENCING_TOKEN="@ + signed_decimal(
                invocation.fencing_token as int,
            )
            &&& invocation.max_cost_usd_micros is None ==> plan.environment.len() == n + 3
            &&& invocation.max_cost_usd_micros matches Some(cost) ==> plan.environment.len() == n
                + 4 && plan.environment[n + 3] == "FLINT_MAX_COST_USD_MICROS="@ + decimal(
                cost as nat,
            )
            &&& plan.host.memory == deployment.resources.memory_bytes
            &&& plan.host.memory_swap == deployment.resources.memory_bytes
            &&& plan.host.nano_cpus == deployment.resources.nano_cpus
            &&& plan.host.pids_limit == deployment.resources.pids_limit
            &&& plan.host.readonly_rootfs == deployment.resources.read_only_root_filesystem
            &&& plan.host.network_mode == deployment.connectivity.docker_network
            &&& plan.host.cap_drop == seq!["ALL"@]
            &&& plan.host.security_opt == seq!["no-new-privileges:true"@]
            &&& plan.host.mount is None && plan.host.port_binding is None
            &&& plan.host.init
            &&& !deployment.connectivity.add_host_gateway ==> plan.host.extra_hosts is None
            &&& deployment.connectivity.add_host_gateway ==> plan.host.extra_hosts == Some(
                seq!["host.docker.internal:host-gateway"@],
            )
            &&& plan.host.tmpfs is Some
            &&& plan.host.tmpfs == session_host_config_of(
                deployment,
                Seq::empty(),
                Seq::empty(),
            ).tmpfs
        }),
{
    reveal_strlit("/workspace");
    assert("/workspace"@.len() == 10);
}

/// The container of an attempt says whose it is, and of what.
pub proof fn law_attempt_labels(
    runtime_owner: Seq<char>,
    deployment: ResolvedRuntimeView,
    invocation: ContainerInvocationView,
)
    ensures
        ({
            let labels = attempt_labels_of(runtime_owner, deployment, invocation);
            &&& lookup(labels, "agentcore.emulator.managed"@) == Some("true"@)
            &&& lookup(labels, "agentcore.emulator.owner"@) == Some(runtime_owner)
            &&& lookup(labels, "agentcore.emulator.runtime-arn"@) == Some(deployment.runtime_arn)
            &&& lookup(labels, "agentcore.emulator.qualifier"@) == Some(deployment.qualifier)
            &&& lookup(labels, "agentcore.emulator.invocation-id"@) == Some(
                invocation.invocation_id,
            )
            &&& lookup(labels, "agentcore.emulator.agent-identity-id"@) == Some(
                invocation.agent_identity_id,
            )
            &&& lookup(labels, "agentcore.emulator.attempt-id"@) == Some(invocation.attempt_id)
        }),
{
    reveal_strlit("agentcore.emulator.managed");
    reveal_strlit("agentcore.emulator.owner");
    reveal_strlit("agentcore.emulator.runtime-arn");
    reveal_strlit("agentcore.emulator.qualifier");
    reveal_strlit("agentcore.emulator.invocation-id");
    reveal_strlit("agentcore.emulator.agent-identity-id");
    reveal_strlit("agentcore.emulator.attempt-id");
    assert("agentcore.emulator.managed"@.len() == 26);
    assert("agentcore.emulator.owner"@.len() == 24);
    assert("agentcore.emulator.runtime-arn"@.len() == 30);
    assert("agentcore.emulator.qualifier"@.len() == 28);
    assert("agentcore.emulator.invocation-id"@.len() == 32);
    assert("agentcore.emulator.agent-identity-id"@.len() == 36);
    assert("agentcore.emulator.attempt-id"@.len() == 29);
}

/// The first variable of a name counts.
pub proof fn law_variables(
    variables: Seq<ResolvedEnvironmentVariableView>,
    name: Seq<char>,
    k: int,
)
    ensures
        (0 <= k < variables.len() && variables[k].name == name && forall|i: int|
            0 <= i < k ==> (#[trigger] variables[i]).name != name) ==> value_of_variable(
            variables,
            name,
        ) == Some(variables[k].value),
        (forall|i: int| 0 <= i < variables.len() ==> (#[trigger] variables[i]).name != name)
            ==> value_of_variable(variables, name) is None,
    decreases variables.len(),
{
    if variables.len() > 0 && variables[0].name != name {
        let rest = variables.drop_first();
        law_variables(rest, name, k - 1);
        assert forall|i: int| 0 <= i < rest.len() implies #[trigger] rest[i] == variables[i
            + 1] by {}
    }
}

/// What an agent is told: who it is, which attempt this is, its credentials, its token, its input and
/// its invocation, on one line.
pub proof fn law_input_lines(deployment: ResolvedRuntimeView, invocation: ContainerInvocationView)
    ensures
        ({
            let key = value_of_variable(deployment.environment, "OPENAI_API_KEY"@);
            let line = input_line_of(deployment, invocation);
            &&& key is Some ==> line == ("{\"agentIdentityId\":"@ + json_string_of(
                invocation.agent_identity_id,
            )) + (",\"attemptId\":"@ + json_string_of(invocation.attempt_id)) + (
            ",\"credentials\":{\"backendAccessToken\":"@ + json_string_of(
                invocation.backend_credential,
            )) + (",\"openaiApiKey\":"@ + json_string_of(key->Some_0)) + ("},\"fencingToken\":"@
                + signed_decimal(invocation.fencing_token as int)) + (",\"input\":"@
                + invocation.input) + (",\"invocationId\":"@ + json_string_of(
                invocation.invocation_id,
            ) + ",\"schemaVersion\":1}\n"@)
            &&& key is None ==> line == ("{\"agentIdentityId\":"@ + json_string_of(
                invocation.agent_identity_id,
            )) + (",\"attemptId\":"@ + json_string_of(invocation.attempt_id)) + (
            ",\"credentials\":{\"backendAccessToken\":"@ + json_string_of(
                invocation.backend_credential,
            )) + (",\"openaiApiKey\":"@ + json_string_of(""@)) + ("},\"fencingToken\":"@
                + signed_decimal(invocation.fencing_token as int)) + (",\"input\":"@
                + invocation.input) + (",\"invocationId\":"@ + json_string_of(
                invocation.invocation_id,
            ) + ",\"schemaVersion\":1}\n"@)
        }),
{
}

/// What an agent is told while it works: for which invocation, what, and when, on one line.
pub proof fn law_steer_lines(
    invocation_id: Seq<char>,
    text: Seq<char>,
    now_unix_millis: u64,
)
    ensures
        steer_line_of(invocation_id, Some(text), now_unix_millis) == "{\"invocationId\":"@
            + json_string_of(invocation_id) + ",\"text\":"@ + json_string_of(text)
            + ",\"timestamp\":"@ + decimal(now_unix_millis as nat) + ",\"type\":\"steer\"}\n"@,
        steer_line_of(invocation_id, None, now_unix_millis) == steer_line_of(
            invocation_id,
            Some(""@),
            now_unix_millis,
        ),
{
}

/// What an agent writes is added to where it belongs, and is too much once that is over the limit.
pub proof fn law_agent_output(output: AgentOutputView, message: Seq<u8>)
    ensures
        ({
            let out = output.with(AgentStream::Output, message);
            let err = output.with(AgentStream::Error, message);
            &&& out.stdout == output.stdout + message && out.stderr == output.stderr
            &&& err.stderr == output.stderr + message && err.stdout == output.stdout
            &&& output.with(AgentStream::Input, message) == output
            &&& out.max_output_bytes == output.max_output_bytes && err.max_output_bytes
                == output.max_output_bytes
            &&& output.live(AgentStream::Output) is Ok <==> output.stdout.len()
                <= output.max_output_bytes
            &&& output.live(AgentStream::Error) is Ok <==> output.stderr.len()
                <= output.max_output_bytes
            &&& output.live(AgentStream::Input) is Ok
            &&& output.logged() is Ok <==> output.stdout.len() <= output.max_output_bytes
                && output.stderr.len() <= output.max_output_bytes
        }),
{
}

/// A text is read line by line, each without its end, be that a newline or a return and a newline. A
/// last line without an end is a line as well.
pub proof fn law_lines(line: Seq<char>, rest: Seq<char>)
    requires
        lacks(line, '\n'),
    ensures
        lines_of(Seq::empty()) == Seq::<Seq<char>>::empty(),
        line.len() > 0 ==> lines_of(line) == seq![line],
        line.len() == 0 || line.last() != '\r' ==> lines_of(line + seq!['\n'] + rest) == seq![line]
            + lines_of(rest),
        lines_of(line + seq!['\r', '\n'] + rest) == seq![line] + lines_of(rest),
{
    let none = Seq::<char>::empty();
    crate::text::lemma_find_is(none, '\n', 0);
    assert(split(none, '\n') =~= seq![none]);
    assert(lines_of(none) =~= Seq::empty());
    crate::text::lemma_find_is(line, '\n', line.len());
    assert(split(line, '\n') =~= seq![line]);
    if line.len() > 0 {
        assert(lines_of(line) =~= seq![line]);
    }
    lemma_first_line(line, rest);
    if line.len() == 0 || line.last() != '\r' {
        assert(without_return(line) == line);
    }
    let returned = line.push('\r');
    assert(returned + seq!['\n'] + rest =~= line + seq!['\r', '\n'] + rest);
    assert(lacks(returned, '\n'));
    lemma_first_line(returned, rest);
    assert(returned.drop_last() =~= line);
}

proof fn lemma_first_line(line: Seq<char>, rest: Seq<char>)
    requires
        lacks(line, '\n'),
    ensures
        lines_of(line + seq!['\n'] + rest) == seq![without_return(line)] + lines_of(rest),
{
    let text = line + seq!['\n'] + rest;
    crate::text::lemma_find_is(text, '\n', line.len());
    assert(text.take(line.len() as int) =~= line);
    assert(text.skip(line.len() as int + 1) =~= rest);
    let pieces = split(text, '\n');
    let later = split(rest, '\n');
    assert(pieces =~= seq![line] + later);
    crate::text::lemma_find(rest, '\n');
    assert(later.len() > 0);
    assert(pieces.last() == later.last());
    assert(pieces.drop_last() =~= seq![line] + later.drop_last());
    let ended = pieces.drop_last().map_values(|piece: Seq<char>| without_return(piece));
    let later_ended = later.drop_last().map_values(|piece: Seq<char>| without_return(piece));
    assert(ended =~= seq![without_return(line)] + later_ended);
    assert(lines_of(text) =~= seq![without_return(line)] + lines_of(rest));
}

/// What may be a report starts at a brace of a line and goes to the line's end; the longest comes
/// first.
pub proof fn law_reports_start_at_braces(line: Seq<char>, tail: Seq<char>)
    ensures
        brace_tails(line, 0).contains(tail) <==> exists|i: int|
            0 <= i < line.len() && #[trigger] line[i] == '{' && tail == line.skip(i),
        forall|i: int, j: int|
            0 <= i < j < brace_tails(line, 0).len() ==> (#[trigger] brace_tails(line, 0)[i]).len()
                > (#[trigger] brace_tails(line, 0)[j]).len(),
{
    lemma_braces(line, 0, tail);
}

proof fn lemma_braces(line: Seq<char>, from: nat, tail: Seq<char>)
    ensures
        brace_tails(line, from).contains(tail) <==> exists|i: int|
            from <= i < line.len() && #[trigger] line[i] == '{' && tail == line.skip(i),
        forall|i: int|
            0 <= i < brace_tails(line, from).len() ==> (#[trigger] brace_tails(
                line,
                from,
            )[i]).len() <= line.len() - from,
        forall|i: int, j: int|
            0 <= i < j < brace_tails(line, from).len() ==> (#[trigger] brace_tails(
                line,
                from,
            )[i]).len() > (#[trigger] brace_tails(line, from)[j]).len(),
    decreases line.len() - from,
{
    if from < line.len() {
        lemma_braces(line, from + 1, tail);
        let later = brace_tails(line, from + 1);
        let all = brace_tails(line, from);
        if line[from as int] == '{' {
            let first = line.skip(from as int);
            assert(all =~= seq![first] + later);
            assert(all[0] == first);
            if later.contains(tail) {
                let i = choose|i: int| 0 <= i < later.len() && later[i] == tail;
                assert(all[i + 1] == tail);
            }
            if all.contains(tail) {
                let i = choose|i: int| 0 <= i < all.len() && all[i] == tail;
                if i > 0 {
                    assert(later[i - 1] == tail);
                } else {
                    assert(line[from as int] == '{');
                }
            }
            assert forall|i: int, j: int| 0 <= i < j < all.len() implies (#[trigger] all[i]).len()
                > (#[trigger] all[j]).len() by {
                assert(all[j] == later[j - 1]);
                if i > 0 {
                    assert(all[i] == later[i - 1]);
                }
            }
            assert forall|i: int| 0 <= i < all.len() implies (#[trigger] all[i]).len() <= line.len()
                - from by {
                if i > 0 {
                    assert(all[i] == later[i - 1]);
                }
            }
        }
    }
}

/// Reports are looked for from the last line to the first, and only in what is text.
pub proof fn law_last_lines_come_first(lines: Seq<Seq<char>>, last: Seq<char>, output: Seq<u8>)
    ensures
        line_tails(Seq::empty()) == Seq::<Seq<char>>::empty(),
        line_tails(lines.push(last)) == brace_tails(last, 0) + line_tails(lines),
        valid_utf8(output) ==> report_candidates_of(output) == line_tails(
            lines_of(decode_utf8(output)),
        ),
        !valid_utf8(output) ==> report_candidates_of(output).len() == 0,
{
    assert(lines.push(last).drop_last() =~= lines);
}

/// A failure that would only come again is one of these.
pub proof fn law_lasting_failures(code: Seq<char>)
    ensures
        is_deterministic(code) <==> code == "invalid_invocation"@ || code == "invalid_model_policy"@
            || code == "model_not_found"@ || code == "effort_not_supported"@ || code
            == "python_limit_exceeded"@,
{
}

/// A failure that would only come again is reported as it is, that of the errors before that of the
/// output; any other exit is told by its status.
pub proof fn law_failed_exits(
    status: i64,
    stderr_report: Option<AgentFailureView>,
    stdout_report: Option<AgentFailureView>,
)
    ensures
        ({
            let error = failed_exit_of(status, stderr_report, stdout_report);
            let first = stderr_report is Some && is_deterministic(stderr_report->Some_0.code);
            let second = stdout_report is Some && is_deterministic(stdout_report->Some_0.code);
            &&& first ==> error == AttemptErrorView::Rejected(stderr_report->Some_0)
            &&& !first && second ==> error == AttemptErrorView::Rejected(stdout_report->Some_0)
            &&& !first && !second ==> error == AttemptErrorView::Execution(
                "agent container exited with status "@ + signed_decimal(status as int),
            )
        }),
{
}

/// An attempt gives what its agent wrote exactly where the agent ended well and its container is
/// gone.
pub proof fn law_finished_attempts(end: AttemptEndView, removal: Result<(), Seq<char>>)
    ensures
        attempt_result(end, removal) is Ok <==> removal is Ok && (end matches
            AttemptEndView::Exited { status, stdout } && status == 0),
        attempt_result(end, removal) matches Ok(output) ==> (end matches
            AttemptEndView::Exited { status, stdout } && stdout == output),
        removal matches Err(message) ==> attempt_result(end, removal) == Err::<
            Seq<u8>,
            AttemptErrorView,
        >(AttemptErrorView::Cleanup(message)),
        removal is Ok && (end matches AttemptEndView::Broken(_)) ==> attempt_result(end, removal)
            == Err::<Seq<u8>, AttemptErrorView>(AttemptErrorView::Execution(end->Broken_0)),
{
}

// Events of commands.

/// A frame is its length, the length of its headers and a checksum of both, its headers, its payload
/// and a checksum of all before; there is one exactly where its length fits in four bytes.
pub proof fn law_frames(kind: FrameKind, payload: Seq<u8>)
    ensures
        ({
            let headers = frame_headers(kind);
            let h = headers.len() as int;
            let n = h + payload.len() + 16;
            &&& frame_of(kind, payload) is Some <==> n <= u32::MAX
            &&& frame_of(kind, payload) matches Some(frame) ==> {
                &&& frame.len() == n
                &&& frame.subrange(0, 4) == four_bytes(n as u32)
                &&& frame.subrange(4, 8) == four_bytes(h as u32)
                &&& frame.subrange(8, 12) == four_bytes(checksum_of(frame.subrange(0, 8)))
                &&& frame.subrange(12, 12 + h) == headers
                &&& frame.subrange(12 + h, n - 4) == payload
                &&& frame.subrange(n - 4, n) == four_bytes(checksum_of(frame.subrange(0, n - 4)))
            }
        }),
{
    if let Some(frame) = frame_of(kind, payload) {
        let headers = frame_headers(kind);
        let h = headers.len() as int;
        let n = h + payload.len() + 16;
        let lengths = four_bytes(n as u32) + four_bytes(h as u32);
        assert(frame.subrange(0, 4) =~= four_bytes(n as u32));
        assert(frame.subrange(4, 8) =~= four_bytes(h as u32));
        assert(frame.subrange(0, 8) =~= lengths);
        assert(frame.subrange(8, 12) =~= four_bytes(checksum_of(lengths)));
        assert(frame.subrange(12, 12 + h) =~= headers);
        assert(frame.subrange(12 + h, n - 4) =~= payload);
        let body = lengths + four_bytes(checksum_of(lengths)) + headers + payload;
        assert(frame.subrange(0, n - 4) =~= body);
        assert(frame.subrange(n - 4, n) =~= four_bytes(checksum_of(body)));
    }
}

/// A header of a frame is the length of its name, its name, the mark of a text, the length of its
/// value in two bytes, and its value.
pub proof fn law_event_headers(name: Seq<char>, value: Seq<char>)
    requires
        encode_utf8(name).len() < 256,
        encode_utf8(value).len() < 65536,
    ensures
        ({
            let header = event_header(name, value);
            let n = encode_utf8(name).len() as int;
            let v = encode_utf8(value).len() as int;
            &&& header.len() == n + v + 4
            &&& header[0] == n
            &&& header.subrange(1, 1 + n) == encode_utf8(name)
            &&& header[1 + n] == 7
            &&& header[2 + n] * 256 + header[3 + n] == v
            &&& header.subrange(4 + n, 4 + n + v) == encode_utf8(value)
        }),
{
    let header = event_header(name, value);
    let n = encode_utf8(name).len() as int;
    let v = encode_utf8(value).len() as int;
    assert(header.subrange(1, 1 + n) =~= encode_utf8(name));
    assert(header.subrange(4 + n, 4 + n + v) =~= encode_utf8(value));
}

/// Which headers the frames of a command have.
pub proof fn law_frame_headers()
    ensures
        frame_headers(FrameKind::Chunk) == event_header(":message-type"@, "event"@) + event_header(
            ":event-type"@,
            "chunk"@,
        ) + event_header(":content-type"@, "application/json"@),
        frame_headers(FrameKind::Failure) == event_header(":message-type"@, "exception"@)
            + event_header(":exception-type"@, "runtimeClientError"@) + event_header(
            ":content-type"@,
            "application/json"@,
        ),
{
}

/// What is said of each event: what a command wrote and where, how it ended, and of a failure
/// nothing but that.
pub proof fn law_event_payloads(
    bytes: Seq<u8>,
    code: i64,
    message: Seq<char>,
    text: spec_fn(Seq<u8>) -> Seq<char>,
)
    ensures
        event_payload(Ok(CommandEventView::Stdout(bytes)), text) == (
            FrameKind::Chunk,
            "{\"contentDelta\":{\""@ + "stdout"@ + "\":"@ + json_string_of(text(bytes)) + "}}"@,
        ),
        event_payload(Ok(CommandEventView::Stderr(bytes)), text) == (
            FrameKind::Chunk,
            "{\"contentDelta\":{\""@ + "stderr"@ + "\":"@ + json_string_of(text(bytes)) + "}}"@,
        ),
        event_payload(Ok(CommandEventView::Exited(code)), text) == (
            FrameKind::Chunk,
            "{\"contentStop\":{\"exitCode\":"@ + signed_decimal(code as int) + ",\"status\":\""@
                + "COMPLETED"@ + "\"}}"@,
        ),
        event_payload(Ok(CommandEventView::TimedOut), text) == (
            FrameKind::Chunk,
            "{\"contentStop\":{\"exitCode\":"@ + signed_decimal(-1) + ",\"status\":\""@
                + "TIMED_OUT"@ + "\"}}"@,
        ),
        event_payload(Ok(CommandEventView::Cancelled), text).0 == FrameKind::Failure,
        event_payload(Err(message), text) == event_payload(Ok(CommandEventView::Cancelled), text),
{
}

/// A number below zero is written with a sign in front, and any other without.
pub proof fn law_signed_numbers(n: nat)
    ensures
        signed_decimal(n as int) == decimal(n),
        n > 0 ==> signed_decimal(-(n as int)) == "-"@ + decimal(n),
{
}

/// The first event of a command says that it starts.
pub proof fn law_start_payloads()
    ensures
        start_payload() == "{\"contentStart\":{}}"@,
{
}

/// A container that failed is tried again; what the agent refused, and what could not be cleaned up,
/// is not.
pub proof fn law_container_failures(message: Seq<char>, failure: AgentFailureView)
    ensures
        container_failure_of(AttemptErrorView::Execution(message))
            == ContainerFailureView::Retryable,
        container_failure_of(AttemptErrorView::Rejected(failure)) == (
        ContainerFailureView::Rejected { code: failure.code, message: failure.message }),
        container_failure_of(AttemptErrorView::Cleanup(message))
            == ContainerFailureView::CleanupFailed,
{
}

/// An attempt whose time is over timed out, unless its container may still be there.
pub proof fn law_late_attempts(cleanup: Option<Result<(), ContainerFailureView>>)
    ensures
        late_attempt_of(cleanup) == AttemptReportView::Failed(ContainerFailureView::CleanupFailed)
            <==> cleanup is None || cleanup == Some(
            Err::<(), ContainerFailureView>(ContainerFailureView::CleanupFailed),
        ),
        late_attempt_of(Some(Ok(()))) == AttemptReportView::TimedOut,
        late_attempt_of(cleanup) == AttemptReportView::TimedOut || late_attempt_of(cleanup)
            == AttemptReportView::Failed(ContainerFailureView::CleanupFailed),
{
}

/// A key is known where the runtime has the variable, and it is what that holds.
pub proof fn law_api_keys(deployment: ResolvedRuntimeView)
    ensures
        ({
            let key = value_of_variable(deployment.environment, "OPENAI_API_KEY"@);
            &&& key is Some ==> api_key_of(deployment) == key->Some_0
            &&& key is None ==> api_key_of(deployment) == ""@
        }),
{
}

/// A checksum takes in byte after byte, each in eight steps of one bit, from all ones, and comes out
/// inverted; that of nothing is zero.
pub proof fn law_checksums(bytes: Seq<u8>, byte: u8, crc: u32)
    ensures
        checksum_of(Seq::empty()) == 0,
        checksum_of(bytes) == crc_run(bytes) ^ 0xffff_ffff,
        crc_run(bytes.push(byte)) == crc_bits(crc_run(bytes) ^ (byte as u32), 8),
        crc_bits(crc, 0) == crc,
        crc_bits(crc, 8) == crc_bit(
            crc_bit(crc_bit(crc_bit(crc_bit(crc_bit(crc_bit(crc_bit(crc))))))),
        ),
        crc & 1 == 0 ==> crc_bit(crc) == crc / 2,
        crc & 1 == 1 ==> crc_bit(crc) == (crc >> 1) ^ 0xedb8_8320,
{
    assert(bytes.push(byte).drop_last() =~= bytes);
    assert(0xffff_ffffu32 ^ 0xffff_ffffu32 == 0) by (bit_vector);
    assert(crc >> 1 == crc / 2) by (bit_vector);
    reveal_with_fuel(crc_bits, 9);
}

} // verus!
