//! What holds of every start, every ping and every command.

use vstd::prelude::*;

use crate::backend::{
    command_admitted, command_exit_of, command_line_of, command_timeout_of, completed,
    http_health_of, may_run_on, metered, passed_bytes, pid_file_of, ping_target_of, readiness_of,
    removal_step_of, signal_command_of, startup_error_of, startup_step_of, still_starting_of,
    stuck_message, tcp_health_of, tcp_target_of, termination_step_of, CommandEventView,
    CompletionView, OutputStream, PingTargetView, Readiness, RemovalAnswer, RemovalStep,
    StartupEndView, StartupStepView, TerminationStage, TerminationStep,
};
use crate::primitives::url_address_of;
use crate::runtime::{Protocol, ResolvedRuntimeView};
use crate::session::{SessionContainerView, SessionHealth};

verus! {

/// A container that came up is kept. One that did not is removed, with the reason, and one that took
/// too long is given up.
pub proof fn law_starts_end(container: SessionContainerView, message: Seq<char>)
    ensures
        startup_step_of(StartupEndView::Started(container)) == StartupStepView::Keep(container),
        startup_step_of(StartupEndView::Failed(message)) == StartupStepView::Remove(message),
        startup_step_of(StartupEndView::TimedOut) is Abandon,
        startup_step_of(StartupEndView::Cancelled) is Remove,
{
}

/// A container that is gone is removed, however that came; a removal that failed is tried three times
/// in all.
pub proof fn law_removals(attempt: u8)
    ensures
        removal_step_of(attempt, RemovalAnswer::Removed) == RemovalStep::Done,
        removal_step_of(attempt, RemovalAnswer::Missing) == RemovalStep::Done,
        attempt < 3 ==> removal_step_of(attempt, RemovalAnswer::Failed) == RemovalStep::TryAgain,
        attempt >= 3 ==> removal_step_of(attempt, RemovalAnswer::Failed) == RemovalStep::GiveUp,
{
}

/// A container is asked at the ping path of its protocol. One that speaks MCP has none, and is
/// connected to.
pub proof fn law_pings(endpoint: Seq<char>, protocol: Protocol)
    ensures
        protocol != Protocol::Mcp ==> ping_target_of(endpoint, protocol) == (PingTargetView::Http {
            url: endpoint + "/ping"@,
        }),
        protocol == Protocol::Mcp ==> ping_target_of(endpoint, protocol) == tcp_target_of(
            url_address_of(endpoint),
        ),
{
}

/// What is connected to is the address, where there is one.
pub proof fn law_connections(host: Seq<char>, port: u16)
    ensures
        tcp_target_of(Some((host, port))) == (PingTargetView::Tcp { host, port }),
        tcp_target_of(None) == PingTargetView::Unreachable,
{
}

/// A container is healthy exactly where it answers with success and says so, busy where it says that,
/// and in no other case.
pub proof fn law_health_answers(reply: Option<(u16, Option<Seq<char>>)>)
    ensures
        http_health_of(reply) == SessionHealth::Healthy <==> (reply matches Some(answer) && 200
            <= answer.0 <= 299 && answer.1 == Some("Healthy"@)),
        http_health_of(reply) == SessionHealth::HealthyBusy <==> (reply matches Some(answer) && 200
            <= answer.0 <= 299 && answer.1 == Some("HealthyBusy"@)),
        http_health_of(reply) == SessionHealth::Unhealthy <==> !(reply matches Some(answer) && 200
            <= answer.0 <= 299 && (answer.1 == Some("Healthy"@) || answer.1 == Some(
            "HealthyBusy"@,
        ))),
{
    reveal_strlit("Healthy");
    reveal_strlit("HealthyBusy");
    assert("Healthy"@.len() == 7 && "HealthyBusy"@.len() == 11);
}

/// A command is let in exactly where its container is known and its runtime has commands.
pub proof fn law_admitted_commands(deployment: Option<ResolvedRuntimeView>)
    ensures
        command_admitted(deployment) is Ok <==> (deployment matches Some(runtime)
            && runtime.command.enabled),
{
}

/// The file that holds the process of a command lies on the session's volume, whatever slashes its
/// path ends in, and commands of different identifiers have different files.
pub proof fn law_process_files(
    mount_path: Seq<char>,
    slashes: Seq<char>,
    id: Seq<char>,
    other: Seq<char>,
)
    requires
        mount_path.len() > 0 && mount_path.last() != '/',
        forall|i: int| 0 <= i < slashes.len() ==> #[trigger] slashes[i] == '/',
    ensures
        pid_file_of(mount_path + slashes, id) == mount_path + "/.agentcore-command-"@ + id
            + ".pid"@,
        pid_file_of(mount_path, id) == pid_file_of(mount_path, other) ==> id == other,
{
    lemma_slashes(mount_path, slashes);
    lemma_slashes(mount_path, Seq::empty());
    assert(mount_path + Seq::<char>::empty() =~= mount_path);
    let front = mount_path + "/.agentcore-command-"@;
    let a = pid_file_of(mount_path, id);
    let b = pid_file_of(mount_path, other);
    if a == b {
        assert(a.len() == front.len() + id.len() + ".pid"@.len());
        assert(b.len() == front.len() + other.len() + ".pid"@.len());
        assert(id =~= a.subrange(front.len() as int, (front.len() + id.len()) as int));
        assert(other =~= b.subrange(front.len() as int, (front.len() + other.len()) as int));
    }
}

proof fn lemma_slashes(path: Seq<char>, slashes: Seq<char>)
    requires
        path.len() > 0 && path.last() != '/',
        forall|i: int| 0 <= i < slashes.len() ==> #[trigger] slashes[i] == '/',
    ensures
        crate::text::without_trailing(path + slashes, '/') == path,
    decreases slashes.len(),
{
    if slashes.len() == 0 {
        assert(path + slashes =~= path);
    } else {
        assert((path + slashes).drop_last() =~= path + slashes.drop_last());
        assert((path + slashes).last() == slashes[slashes.len() - 1]);
        lemma_slashes(path, slashes.drop_last());
    }
}

/// A command is run by the shell of its runtime, in a process group of its own whose number is
/// written down first. The command itself is one argument, the last.
pub proof fn law_command_lines(shell: Seq<Seq<char>>, command: Seq<char>, pid_file: Seq<char>, i: int)
    ensures
        ({
            let line = command_line_of(shell, command, pid_file);
            &&& line.len() == shell.len() + 6
            &&& line[0] == "/bin/sh"@ && line[1] == "-c"@
            &&& line[2] == "echo $$ > \"$1\"; shift; exec setsid \"$@\""@
            &&& line[3] == "agentcore-command"@
            &&& line[4] == pid_file
            &&& 0 <= i < shell.len() ==> line[5 + i] == shell[i]
            &&& line.last() == command
        }),
{
}

/// A command that runs on is asked to end, then made to, and then found stuck; each signal goes to
/// the whole process group.
pub proof fn law_terminations(pid_file: Seq<char>)
    ensures
        termination_step_of(TerminationStage::Asking, Some(true)) == TerminationStep::Signal(
            TerminationStage::Forcing,
        ),
        termination_step_of(TerminationStage::Forcing, Some(true)) == TerminationStep::Signal(
            TerminationStage::Verifying,
        ),
        termination_step_of(TerminationStage::Verifying, Some(true)) == TerminationStep::Stuck,
        signal_command_of(TerminationStage::Asking, pid_file) == seq![
            "/bin/sh"@,
            "-c"@,
            "pid=$(cat \"$1\") && kill -"@ + "TERM"@ + " -- \"-$pid\""@,
            "agentcore-command-signal"@,
            pid_file,
        ],
        signal_command_of(TerminationStage::Forcing, pid_file) == seq![
            "/bin/sh"@,
            "-c"@,
            "pid=$(cat \"$1\") && kill -"@ + "KILL"@ + " -- \"-$pid\""@,
            "agentcore-command-signal"@,
            pid_file,
        ],
{
}

/// What a command writes goes on as what it is: its output as output, its errors as errors, each
/// with the very bytes, while there is room for them. What it was given to read is not passed on and
/// takes no room.
pub proof fn law_command_output(
    output_bytes: usize,
    max_output_bytes: usize,
    message: Seq<u8>,
)
    requires
        output_bytes + message.len() <= usize::MAX,
    ensures
        ({
            let fits = output_bytes + message.len() <= max_output_bytes;
            let out = metered(output_bytes, max_output_bytes, OutputStream::Stdout, message);
            let err = metered(output_bytes, max_output_bytes, OutputStream::Stderr, message);
            let other = metered(output_bytes, max_output_bytes, OutputStream::Stdin, message);
            let console = metered(output_bytes, max_output_bytes, OutputStream::Console, message);
            &&& out.1 is Ok <==> fits
            &&& err.1 is Ok <==> fits
            &&& console == out
            &&& fits ==> out.1 == Ok::<Option<CommandEventView>, Seq<char>>(
                Some(CommandEventView::Stdout(message)),
            )
            &&& fits ==> err.1 == Ok::<Option<CommandEventView>, Seq<char>>(
                Some(CommandEventView::Stderr(message)),
            )
            &&& out.0 == output_bytes + message.len() && err.0 == output_bytes + message.len()
            &&& other == (output_bytes, Ok::<Option<CommandEventView>, Seq<char>>(None))
        }),
{
}

/// A command that exited gives its code. One that ran out of time or was stopped gives that, and one
/// that failed its error; where ending it failed, that is the error, behind the first.
pub proof fn law_completions(code: i64, error: Seq<char>, cleanup: Seq<char>, ended: Result<(), Seq<char>>)
    ensures
        completed(CompletionView::Finished(Ok(code)), ended) == Ok::<CommandEventView, Seq<char>>(
            CommandEventView::Exited(code),
        ),
        completed(CompletionView::Finished(Err(error)), Ok(())) == Err::<
            CommandEventView,
            Seq<char>,
        >(error),
        completed(CompletionView::Finished(Err(error)), Err(cleanup)) == Err::<
            CommandEventView,
            Seq<char>,
        >(error + "; "@ + cleanup),
        completed(CompletionView::TimedOut, Ok(())) == Ok::<CommandEventView, Seq<char>>(
            CommandEventView::TimedOut,
        ),
        completed(CompletionView::Cancelled, Ok(())) == Ok::<CommandEventView, Seq<char>>(
            CommandEventView::Cancelled,
        ),
        completed(CompletionView::TimedOut, Err(cleanup)) == Err::<CommandEventView, Seq<char>>(
            cleanup,
        ),
        completed(CompletionView::Cancelled, Err(cleanup)) == Err::<CommandEventView, Seq<char>>(
            cleanup,
        ),
{
}

/// A command whose output is within the limit passes all of it on.
pub proof fn law_small_output_passes(
    output_bytes: usize,
    max_output_bytes: usize,
    pieces: Seq<(OutputStream, Seq<u8>)>,
)
    requires
        output_bytes + written(pieces) <= max_output_bytes,
    ensures
        passed_bytes(output_bytes, max_output_bytes, pieces) == written(pieces),
    decreases pieces.len(),
{
    if pieces.len() > 0 {
        let step = metered(output_bytes, max_output_bytes, pieces[0].0, pieces[0].1);
        law_small_output_passes(step.0, max_output_bytes, pieces.drop_first());
    }
}

/// How much these pieces write.
pub open spec fn written(pieces: Seq<(OutputStream, Seq<u8>)>) -> nat
    decreases pieces.len(),
{
    if pieces.len() == 0 {
        0
    } else {
        (if pieces[0].0 == OutputStream::Stdin {
            0
        } else {
            pieces[0].1.len()
        }) + written(pieces.drop_first())
    }
}

/// A container is ready as soon as it answers; one that does not answer goes on starting exactly
/// while it runs.
pub proof fn law_readiness(health: SessionHealth, running: Option<bool>)
    ensures
        readiness_of(SessionHealth::Healthy) == Readiness::Ready,
        readiness_of(SessionHealth::HealthyBusy) == Readiness::Ready,
        readiness_of(SessionHealth::Unhealthy) == Readiness::CheckRunning,
        still_starting_of(Some(true)) is Ok,
        running != Some(true) ==> still_starting_of(running) == Err::<(), Seq<char>>(
            "runtime container exited before becoming ready"@,
        ),
        tcp_health_of(true) == SessionHealth::Healthy,
        tcp_health_of(false) == SessionHealth::Unhealthy,
{
}

/// The error of a start comes first, and that of its removal, where there is one, behind it.
pub proof fn law_start_errors(startup: Seq<char>, cleanup: Seq<char>)
    ensures
        startup_error_of(startup, Ok(())) == startup,
        startup.is_prefix_of(startup_error_of(startup, Err(cleanup))),
        startup_error_of(startup, Err(cleanup)) == startup
            + "; runtime container cleanup also failed: "@ + cleanup,
{
    let whole = startup_error_of(startup, Err(cleanup));
    assert(whole.take(startup.len() as int) =~= startup);
}

/// A command has the time that is asked for, never more than its runtime allows, and all of that
/// where nothing is asked for.
pub proof fn law_command_times(requested: u64, limit: u64)
    ensures
        command_timeout_of(Some(requested), limit) <= limit,
        command_timeout_of(Some(requested), limit) <= requested,
        command_timeout_of(Some(requested), limit) == limit || command_timeout_of(
            Some(requested),
            limit,
        ) == requested,
        command_timeout_of(None, limit) == limit,
{
}

/// A command that says its code exits with it, and one that says none has failed. A command is ended
/// unless it exited.
pub proof fn law_exits(code: i64, error: Seq<char>)
    ensures
        command_exit_of(Some(code)) == code,
        command_exit_of(None) == -1,
        !may_run_on(CompletionView::Finished(Ok(code))),
        may_run_on(CompletionView::Finished(Err(error))),
        may_run_on(CompletionView::TimedOut),
        may_run_on(CompletionView::Cancelled),
        stuck_message() == "runtime command process group could not be terminated"@,
{
}

} // verus!
