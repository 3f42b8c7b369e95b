//! Working with session containers: coming up, answering, running commands and going away.

use vstd::prelude::*;

use crate::primitives::{is_uuid_text, random_uuid, url_address, url_address_of};
use crate::runtime::{Protocol, ResolvedRuntime, ResolvedRuntimeView};
use crate::session::{SessionContainer, SessionContainerView, SessionHealth};
use crate::text::{agrees, cat2, cat3, cat4, same, texts, trim_trailing, without_trailing};

verus! {

// Coming up.

/// What to do after a container that is coming up was pinged.
#[derive(Clone, Copy, Debug, PartialEq, Eq, Structural)]
pub enum Readiness {
    Ready,
    /// The container does not answer yet; see whether it still runs, and ask again later.
    CheckRunning,
}

pub fn readiness(health: SessionHealth) -> (r: Readiness)
    ensures
        r == readiness_of(health),
{
    if health != SessionHealth::Unhealthy {
        Readiness::Ready
    } else {
        Readiness::CheckRunning
    }
}

/// A container that answers is ready; of one that does not, it is asked whether it runs.
pub open spec fn readiness_of(health: SessionHealth) -> Readiness {
    if health != SessionHealth::Unhealthy {
        Readiness::Ready
    } else {
        Readiness::CheckRunning
    }
}

/// What is said of a container that does not answer yet.
pub open spec fn still_starting_of(running: Option<bool>) -> Result<(), Seq<char>> {
    if running == Some(true) {
        Ok(())
    } else {
        Err("runtime container exited before becoming ready"@)
    }
}

/// A container that no longer runs will never answer.
pub fn still_starting(running: Option<bool>) -> (r: Result<(), String>)
    ensures
        agrees(r, still_starting_of(running)),
{
    let runs = match running {
        Some(runs) => runs,
        None => false,
    };
    if runs {
        Ok(())
    } else {
        Err("runtime container exited before becoming ready".to_owned())
    }
}

/// How waiting for a new container ended.
#[derive(Debug)]
pub enum StartupEnd {
    Started(SessionContainer),
    Failed(String),
    TimedOut,
    Cancelled,
}

#[verifier::ext_equal]
pub enum StartupEndView {
    Started(SessionContainerView),
    Failed(Seq<char>),
    TimedOut,
    Cancelled,
}

impl View for StartupEnd {
    type V = StartupEndView;

    open spec fn view(&self) -> StartupEndView {
        match self {
            StartupEnd::Started(container) => StartupEndView::Started(container@),
            StartupEnd::Failed(message) => StartupEndView::Failed(message@),
            StartupEnd::TimedOut => StartupEndView::TimedOut,
            StartupEnd::Cancelled => StartupEndView::Cancelled,
        }
    }
}

/// What is to be done with a new container.
#[derive(Debug)]
pub enum StartupStep {
    Keep(SessionContainer),
    /// The container is to be removed before the error is reported.
    Remove(String),
    /// The error is reported at once, and the container removed behind it.
    Abandon(String),
}

#[verifier::ext_equal]
pub enum StartupStepView {
    Keep(SessionContainerView),
    Remove(Seq<char>),
    Abandon(Seq<char>),
}

impl View for StartupStep {
    type V = StartupStepView;

    open spec fn view(&self) -> StartupStepView {
        match self {
            StartupStep::Keep(container) => StartupStepView::Keep(container@),
            StartupStep::Remove(message) => StartupStepView::Remove(message@),
            StartupStep::Abandon(message) => StartupStepView::Abandon(message@),
        }
    }
}

pub open spec fn startup_step_of(end: StartupEndView) -> StartupStepView {
    match end {
        StartupEndView::Started(container) => StartupStepView::Keep(container),
        StartupEndView::Failed(message) => StartupStepView::Remove(message),
        StartupEndView::TimedOut => StartupStepView::Abandon(
            "runtime container readiness timed out"@,
        ),
        StartupEndView::Cancelled => StartupStepView::Remove(
            "runtime container startup was cancelled"@,
        ),
    }
}

pub fn startup_step(end: StartupEnd) -> (r: StartupStep)
    ensures
        r@ == startup_step_of(end@),
{
    match end {
        StartupEnd::Started(container) => StartupStep::Keep(container),
        StartupEnd::Failed(message) => StartupStep::Remove(message),
        StartupEnd::TimedOut => StartupStep::Abandon(
            "runtime container readiness timed out".to_owned(),
        ),
        StartupEnd::Cancelled => StartupStep::Remove(
            "runtime container startup was cancelled".to_owned(),
        ),
    }
}

pub open spec fn startup_error_of(startup: Seq<char>, removal: Result<(), Seq<char>>) -> Seq<char> {
    match removal {
        Ok(_) => startup,
        Err(cleanup) => startup + "; runtime container cleanup also failed: "@ + cleanup,
    }
}

/// The error of a failed start, with that of removing the container where that failed as well.
pub fn startup_error(startup: String, removal: &Result<(), String>) -> (r: String)
    ensures
        r@ == startup_error_of(
            startup@,
            (match *removal {
                Ok(_) => Ok(()),
                Err(cleanup) => Err(cleanup@),
            }),
        ),
{
    match removal {
        Ok(_) => startup,
        Err(cleanup) => cat3(
            startup.as_str(),
            "; runtime container cleanup also failed: ",
            cleanup.as_str(),
        ),
    }
}

// Going away.

/// What the container engine said to a removal.
#[derive(Clone, Copy, Debug, PartialEq, Eq, Structural)]
pub enum RemovalAnswer {
    Removed,
    Missing,
    Failed,
}

#[derive(Clone, Copy, Debug, PartialEq, Eq, Structural)]
pub enum RemovalStep {
    Done,
    TryAgain,
    GiveUp,
}

/// How often a removal is tried.
pub const REMOVAL_ATTEMPTS: u8 = 3;

pub open spec fn removal_step_of(attempt: u8, answer: RemovalAnswer) -> RemovalStep {
    match answer {
        RemovalAnswer::Removed | RemovalAnswer::Missing => RemovalStep::Done,
        RemovalAnswer::Failed => if attempt < REMOVAL_ATTEMPTS {
            RemovalStep::TryAgain
        } else {
            RemovalStep::GiveUp
        },
    }
}

/// Decides on the answer to a removal; attempts count from one.
pub fn removal_step(attempt: u8, answer: RemovalAnswer) -> (r: RemovalStep)
    ensures
        r == removal_step_of(attempt, answer),
{
    match answer {
        RemovalAnswer::Removed | RemovalAnswer::Missing => RemovalStep::Done,
        RemovalAnswer::Failed => {
            if attempt < REMOVAL_ATTEMPTS {
                RemovalStep::TryAgain
            } else {
                RemovalStep::GiveUp
            }
        },
    }
}

// Answering.

/// How a container is asked for its health.
#[derive(Debug)]
pub enum PingTarget {
    /// Opening a connection to the host and port.
    Tcp { host: String, port: u16 },
    /// Asking for a page.
    Http { url: String },
    /// The endpoint cannot be asked.
    Unreachable,
}

#[verifier::ext_equal]
pub enum PingTargetView {
    Tcp { host: Seq<char>, port: u16 },
    Http { url: Seq<char> },
    Unreachable,
}

impl View for PingTarget {
    type V = PingTargetView;

    open spec fn view(&self) -> PingTargetView {
        match self {
            PingTarget::Tcp { host, port } => PingTargetView::Tcp { host: host@, port: *port },
            PingTarget::Http { url } => PingTargetView::Http { url: url@ },
            PingTarget::Unreachable => PingTargetView::Unreachable,
        }
    }
}

/// How an address is asked, where the endpoint has one.
pub open spec fn tcp_target_of(address: Option<(Seq<char>, u16)>) -> PingTargetView {
    match address {
        Some(address) => PingTargetView::Tcp { host: address.0, port: address.1 },
        None => PingTargetView::Unreachable,
    }
}

/// A protocol with a health page is asked for it; any other counts as healthy when it accepts a
/// connection.
pub open spec fn ping_target_of(endpoint: Seq<char>, protocol: Protocol) -> PingTargetView {
    match protocol.spec_ping_path() {
        Some(path) => PingTargetView::Http { url: endpoint + path },
        None => tcp_target_of(url_address_of(endpoint)),
    }
}

/// How an address is asked, where the endpoint has one.
pub fn tcp_target(address: Option<(String, u16)>) -> (r: PingTarget)
    ensures
        r@ == tcp_target_of(
            (match address {
                Some(a) => Some((a.0@, a.1)),
                None => None,
            }),
        ),
{
    match address {
        Some((host, port)) => PingTarget::Tcp { host, port },
        None => PingTarget::Unreachable,
    }
}

pub fn ping_target(endpoint: &str, protocol: Protocol) -> (r: PingTarget)
    ensures
        r@ == ping_target_of(endpoint@, protocol),
{
    match protocol.ping_path() {
        Some(path) => PingTarget::Http { url: cat2(endpoint, path) },
        None => tcp_target(url_address(endpoint)),
    }
}

/// What a container answered to a question for its health page.
#[derive(Debug)]
pub struct PingReply {
    pub status: u16,
    /// The status in the body, where the body has one.
    pub health: Option<String>,
}

pub open spec fn http_health_of(reply: Option<(u16, Option<Seq<char>>)>) -> SessionHealth {
    match reply {
        None => SessionHealth::Unhealthy,
        Some(reply) => if !(200 <= reply.0 < 300) {
            SessionHealth::Unhealthy
        } else if reply.1 == Some("Healthy"@) {
            SessionHealth::Healthy
        } else if reply.1 == Some("HealthyBusy"@) {
            SessionHealth::HealthyBusy
        } else {
            SessionHealth::Unhealthy
        },
    }
}

/// What an answer says, where there was one.
pub fn http_health(reply: &Option<PingReply>) -> (r: SessionHealth)
    ensures
        r == http_health_of(
            (match *reply {
                Some(reply) => Some((reply.status, crate::text::opt_text(reply.health))),
                None => None,
            }),
        ),
{
    match reply {
        None => SessionHealth::Unhealthy,
        Some(reply) => {
            if reply.status < 200 || reply.status >= 300 {
                return SessionHealth::Unhealthy;
            }
            match &reply.health {
                None => SessionHealth::Unhealthy,
                Some(health) => {
                    if same(health.as_str(), "Healthy") {
                        SessionHealth::Healthy
                    } else if same(health.as_str(), "HealthyBusy") {
                        SessionHealth::HealthyBusy
                    } else {
                        SessionHealth::Unhealthy
                    }
                },
            }
        },
    }
}

pub open spec fn tcp_health_of(connected: bool) -> SessionHealth {
    if connected {
        SessionHealth::Healthy
    } else {
        SessionHealth::Unhealthy
    }
}

/// What a connection says.
pub fn tcp_health(connected: bool) -> (r: SessionHealth)
    ensures
        r == tcp_health_of(connected),
{
    if connected {
        SessionHealth::Healthy
    } else {
        SessionHealth::Unhealthy
    }
}

// Commands.

/// What a command does while and when it runs.
#[derive(Debug)]
pub enum CommandEvent {
    Stdout(Vec<u8>),
    Stderr(Vec<u8>),
    Exited(i64),
    TimedOut,
    Cancelled,
}

#[verifier::ext_equal]
pub enum CommandEventView {
    Stdout(Seq<u8>),
    Stderr(Seq<u8>),
    Exited(i64),
    TimedOut,
    Cancelled,
}

impl View for CommandEvent {
    type V = CommandEventView;

    open spec fn view(&self) -> CommandEventView {
        match self {
            CommandEvent::Stdout(bytes) => CommandEventView::Stdout(bytes@),
            CommandEvent::Stderr(bytes) => CommandEventView::Stderr(bytes@),
            CommandEvent::Exited(code) => CommandEventView::Exited(*code),
            CommandEvent::TimedOut => CommandEventView::TimedOut,
            CommandEvent::Cancelled => CommandEventView::Cancelled,
        }
    }
}

/// A command runs only in a container whose deployment is known and allows commands.
pub open spec fn command_admitted(deployment: Option<ResolvedRuntimeView>) -> Result<(), Seq<char>> {
    match deployment {
        None => Err("runtime session container is not registered"@),
        Some(deployment) => if !deployment.command.enabled {
            Err("commands are disabled for this runtime"@)
        } else {
            Ok(())
        },
    }
}

pub fn admit_command(deployment: Option<&ResolvedRuntime>) -> (r: Result<(), String>)
    ensures
        agrees(
            r,
            command_admitted(
                (match deployment {
                    Some(deployment) => Some(deployment@),
                    None => None,
                }),
            ),
        ),
{
    match deployment {
        None => Err("runtime session container is not registered".to_owned()),
        Some(deployment) => {
            if !deployment.command.enabled {
                Err("commands are disabled for this runtime".to_owned())
            } else {
                Ok(())
            }
        },
    }
}

/// The file in which a command leaves the number of its process.
pub open spec fn pid_file_of(mount_path: Seq<char>, id: Seq<char>) -> Seq<char> {
    without_trailing(mount_path, '/') + "/.agentcore-command-"@ + id + ".pid"@
}

pub fn command_pid_file(mount_path: &str, id: &str) -> (r: String)
    ensures
        r@ == pid_file_of(mount_path@, id@),
{
    let directory = trim_trailing(mount_path, '/');
    cat4(directory.as_str(), "/.agentcore-command-", id, ".pid")
}

/// A file for a new command.
pub fn new_command_pid_file(mount_path: &str) -> (r: String)
    ensures
        exists|id: Seq<char>|
            #![trigger pid_file_of(mount_path@, id)]
            is_uuid_text(id) && r@ == pid_file_of(mount_path@, id),
{
    let id = random_uuid();
    command_pid_file(mount_path, id.as_str())
}

/// The shell writes down its process number and becomes the configured shell with the command.
pub open spec fn command_line_of(
    shell: Seq<Seq<char>>,
    command: Seq<char>,
    pid_file: Seq<char>,
) -> Seq<Seq<char>> {
    seq![
        "/bin/sh"@,
        "-c"@,
        "echo $$ > \"$1\"; shift; exec setsid \"$@\""@,
        "agentcore-command"@,
        pid_file,
    ] + shell + seq![command]
}

pub fn command_line(shell: &Vec<String>, command: String, pid_file: &str) -> (r: Vec<String>)
    ensures
        texts(r@) == command_line_of(texts(shell@), command@, pid_file@),
{
    let mut line: Vec<String> = Vec::new();
    line.push("/bin/sh".to_owned());
    line.push("-c".to_owned());
    line.push("echo $$ > \"$1\"; shift; exec setsid \"$@\"".to_owned());
    line.push("agentcore-command".to_owned());
    line.push(pid_file.to_owned());
    let ghost head = texts(line@);
    proof {
        assert(head =~= seq![
            "/bin/sh"@,
            "-c"@,
            "echo $$ > \"$1\"; shift; exec setsid \"$@\""@,
            "agentcore-command"@,
            pid_file@,
        ]);
    }
    let ghost all = texts(shell@);
    for i in 0..shell.len()
        invariant
            all == texts(shell@),
            texts(line@) == head + all.take(i as int),
    {
        let ghost before = line@;
        line.push(shell[i].clone());
        proof {
            assert(texts(line@) =~= texts(before).push(shell@[i as int]@));
            assert(texts(line@) =~= head + all.take(i as int + 1));
        }
    }
    let ghost before = line@;
    let ghost last = command@;
    line.push(command);
    proof {
        assert(all.take(all.len() as int) =~= all);
        assert(texts(line@) =~= texts(before).push(last));
        assert(texts(line@) =~= command_line_of(all, last, pid_file@));
    }
    line
}

pub open spec fn command_timeout_of(requested: Option<u64>, limit: u64) -> u64 {
    match requested {
        Some(n) => if n < limit {
            n
        } else {
            limit
        },
        None => limit,
    }
}

/// A caller may shorten the time of a command, not lengthen it.
pub fn command_timeout(requested: Option<u64>, limit: u64) -> (r: u64)
    ensures
        r == command_timeout_of(requested, limit),
{
    match requested {
        Some(n) => if n < limit {
            n
        } else {
            limit
        },
        None => limit,
    }
}

/// Which stream of a command a piece of output belongs to.
#[derive(Clone, Copy, Debug, PartialEq, Eq, Structural)]
pub enum OutputStream {
    Stdin,
    Stdout,
    Stderr,
    Console,
}

/// Counts the output of a command.
#[derive(Debug)]
pub struct CommandMeter {
    pub output_bytes: usize,
    pub max_output_bytes: usize,
}

/// The count with more bytes, as far as it goes.
pub open spec fn counted(before: usize, more: nat) -> usize {
    if before + more > usize::MAX {
        usize::MAX
    } else {
        (before + more) as usize
    }
}

/// Output counts on every stream but the input; the piece that goes over the limit is an error.
pub open spec fn metered(
    output_bytes: usize,
    max_output_bytes: usize,
    stream: OutputStream,
    message: Seq<u8>,
) -> (usize, Result<Option<CommandEventView>, Seq<char>>) {
    if stream == OutputStream::Stdin {
        (output_bytes, Ok(None))
    } else {
        let total = counted(output_bytes, message.len());
        if total > max_output_bytes {
            (total, Err("runtime command output exceeded its configured limit"@))
        } else if stream == OutputStream::Stderr {
            (total, Ok(Some(CommandEventView::Stderr(message))))
        } else {
            (total, Ok(Some(CommandEventView::Stdout(message))))
        }
    }
}

impl CommandMeter {
    pub fn new(max_output_bytes: usize) -> (r: Self)
        ensures
            r.output_bytes == 0,
            r.max_output_bytes == max_output_bytes,
    {
        CommandMeter { output_bytes: 0, max_output_bytes }
    }

    /// Takes a piece of output and says what to pass on.
    pub fn frame(&mut self, stream: OutputStream, message: Vec<u8>) -> (r: Result<
        Option<CommandEvent>,
        String,
    >)
        ensures
            final(self).max_output_bytes == old(self).max_output_bytes,
            ({
                let expected = metered(
                    old(self).output_bytes,
                    old(self).max_output_bytes,
                    stream,
                    message@,
                );
                &&& final(self).output_bytes == expected.0
                &&& match (r, expected.1) {
                    (Ok(Some(a)), Ok(Some(b))) => a@ == b,
                    (Ok(None), Ok(None)) => true,
                    (Err(a), Err(b)) => a@ == b,
                    _ => false,
                }
            }),
    {
        match stream {
            OutputStream::Stdin => {
                return Ok(None);
            },
            _ => {},
        }
        let room: usize = usize::MAX - self.output_bytes;
        self.output_bytes = if message.len() > room {
            usize::MAX
        } else {
            self.output_bytes + message.len()
        };
        if self.output_bytes > self.max_output_bytes {
            return Err("runtime command output exceeded its configured limit".to_owned());
        }
        match stream {
            OutputStream::Stderr => Ok(Some(CommandEvent::Stderr(message))),
            _ => Ok(Some(CommandEvent::Stdout(message))),
        }
    }
}

pub open spec fn command_exit_of(exit_code: Option<i64>) -> int {
    match exit_code {
        Some(code) => code as int,
        None => -1,
    }
}

/// The exit code of a command; a command without one counts as failed.
pub fn command_exit(exit_code: Option<i64>) -> (r: i64)
    ensures
        r == command_exit_of(exit_code),
{
    match exit_code {
        Some(code) => code,
        None => -1,
    }
}

/// How a command came to its end.
#[derive(Debug)]
pub enum Completion {
    Finished(Result<i64, String>),
    TimedOut,
    Cancelled,
}

#[verifier::ext_equal]
pub enum CompletionView {
    Finished(Result<i64, Seq<char>>),
    TimedOut,
    Cancelled,
}

impl View for Completion {
    type V = CompletionView;

    open spec fn view(&self) -> CompletionView {
        match self {
            Completion::Finished(Ok(code)) => CompletionView::Finished(Ok(*code)),
            Completion::Finished(Err(message)) => CompletionView::Finished(Err(message@)),
            Completion::TimedOut => CompletionView::TimedOut,
            Completion::Cancelled => CompletionView::Cancelled,
        }
    }
}

/// Whether a command may still run.
pub open spec fn may_run_on(completion: CompletionView) -> bool {
    !(completion matches CompletionView::Finished(Ok(_)))
}

/// A command that did not exit by itself has to be terminated.
pub fn needs_termination(completion: &Completion) -> (r: bool)
    ensures
        r == may_run_on(completion@),
{
    match completion {
        Completion::Finished(Ok(_)) => false,
        _ => true,
    }
}

/// What is said of a command at its end, and of terminating it where that failed.
pub open spec fn completed(
    completion: CompletionView,
    termination: Result<(), Seq<char>>,
) -> Result<CommandEventView, Seq<char>> {
    match completion {
        CompletionView::Finished(Ok(code)) => Ok(CommandEventView::Exited(code)),
        CompletionView::Finished(Err(error)) => match termination {
            Ok(_) => Err(error),
            Err(cleanup) => Err(error + "; "@ + cleanup),
        },
        CompletionView::TimedOut => match termination {
            Ok(_) => Ok(CommandEventView::TimedOut),
            Err(cleanup) => Err(cleanup),
        },
        CompletionView::Cancelled => match termination {
            Ok(_) => Ok(CommandEventView::Cancelled),
            Err(cleanup) => Err(cleanup),
        },
    }
}

/// The last event of a command. The termination is looked at only where one was needed.
pub fn complete_command(completion: Completion, termination: Result<(), String>) -> (r: Result<
    CommandEvent,
    String,
>)
    ensures
        agrees(
            r,
            completed(
                completion@,
                (match termination {
                    Ok(_) => Ok(()),
                    Err(message) => Err(message@),
                }),
            ),
        ),
{
    match completion {
        Completion::Finished(Ok(code)) => Ok(CommandEvent::Exited(code)),
        Completion::Finished(Err(error)) => match termination {
            Ok(_) => Err(error),
            Err(cleanup) => Err(cat3(error.as_str(), "; ", cleanup.as_str())),
        },
        Completion::TimedOut => match termination {
            Ok(_) => Ok(CommandEvent::TimedOut),
            Err(cleanup) => Err(cleanup),
        },
        Completion::Cancelled => match termination {
            Ok(_) => Ok(CommandEvent::Cancelled),
            Err(cleanup) => Err(cleanup),
        },
    }
}

/// How far the termination of a command has come.
#[derive(Clone, Copy, Debug, PartialEq, Eq, Structural)]
pub enum TerminationStage {
    Asking,
    Forcing,
    Verifying,
}

/// What to do next.
#[derive(Clone, Copy, Debug, PartialEq, Eq, Structural)]
pub enum TerminationStep {
    /// The command is gone.
    Gone,
    /// The command is to be sent the signal of this stage, and looked at again after it.
    Signal(TerminationStage),
    /// The command cannot be terminated.
    Stuck,
}

pub open spec fn termination_step_of(
    stage: TerminationStage,
    running: Option<bool>,
) -> TerminationStep {
    if running != Some(true) {
        TerminationStep::Gone
    } else {
        match stage {
            TerminationStage::Asking => TerminationStep::Signal(TerminationStage::Forcing),
            TerminationStage::Forcing => TerminationStep::Signal(TerminationStage::Verifying),
            TerminationStage::Verifying => TerminationStep::Stuck,
        }
    }
}

/// Decides by whether the command still runs. The stage in the result is the one that follows the
/// signal.
pub fn termination_step(stage: TerminationStage, running: Option<bool>) -> (r: TerminationStep)
    ensures
        r == termination_step_of(stage, running),
{
    let runs = match running {
        Some(runs) => runs,
        None => false,
    };
    if !runs {
        return TerminationStep::Gone;
    }
    match stage {
        TerminationStage::Asking => TerminationStep::Signal(TerminationStage::Forcing),
        TerminationStage::Forcing => TerminationStep::Signal(TerminationStage::Verifying),
        TerminationStage::Verifying => TerminationStep::Stuck,
    }
}

pub open spec fn stuck_message() -> Seq<char> {
    "runtime command process group could not be terminated"@
}

pub fn stuck_command() -> (r: String)
    ensures
        r@ == stuck_message(),
{
    "runtime command process group could not be terminated".to_owned()
}

/// The signal that is sent at a stage: first `TERM`, then `KILL`.
pub open spec fn signal_of(stage: TerminationStage) -> Seq<char> {
    match stage {
        TerminationStage::Asking => "TERM"@,
        _ => "KILL"@,
    }
}

/// The command that signals the process group of another.
pub open spec fn signal_command_of(stage: TerminationStage, pid_file: Seq<char>) -> Seq<Seq<char>> {
    seq![
        "/bin/sh"@,
        "-c"@,
        "pid=$(cat \"$1\") && kill -"@ + signal_of(stage) + " -- \"-$pid\""@,
        "agentcore-command-signal"@,
        pid_file,
    ]
}

pub fn signal_command(stage: TerminationStage, pid_file: &str) -> (r: Vec<String>)
    ensures
        texts(r@) == signal_command_of(stage, pid_file@),
{
    let signal = match stage {
        TerminationStage::Asking => "TERM",
        _ => "KILL",
    };
    let mut line: Vec<String> = Vec::new();
    line.push("/bin/sh".to_owned());
    line.push("-c".to_owned());
    line.push(cat3("pid=$(cat \"$1\") && kill -", signal, " -- \"-$pid\""));
    line.push("agentcore-command-signal".to_owned());
    line.push(pid_file.to_owned());
    proof {
        assert(texts(line@) =~= signal_command_of(stage, pid_file@));
    }
    line
}

pub fn pid_cleanup_command(pid_file: &str) -> (r: Vec<String>)
    ensures
        texts(r@) == seq!["rm"@, "-f"@, pid_file@],
{
    let mut line: Vec<String> = Vec::new();
    line.push("rm".to_owned());
    line.push("-f".to_owned());
    line.push(pid_file.to_owned());
    proof {
        assert(texts(line@) =~= seq!["rm"@, "-f"@, pid_file@]);
    }
    line
}

// Laws.

/// A removal comes to an end after three attempts at most, whatever the engine answers.
pub proof fn law_removal_is_bounded(attempt: u8, answer: RemovalAnswer)
    requires
        attempt >= REMOVAL_ATTEMPTS,
    ensures
        removal_step_of(attempt, answer) != RemovalStep::TryAgain,
{
}

/// How many signals a stage comes after.
pub open spec fn signals_before(stage: TerminationStage) -> nat {
    match stage {
        TerminationStage::Asking => 0,
        TerminationStage::Forcing => 1,
        TerminationStage::Verifying => 2,
    }
}

/// A command is signalled only while it runs, each signal brings the next stage, and a command is
/// given up only when it runs on after both signals.
pub proof fn law_termination_escalates(stage: TerminationStage, running: Option<bool>)
    ensures
        termination_step_of(stage, running) == TerminationStep::Gone <==> running != Some(true),
        termination_step_of(stage, running) matches TerminationStep::Signal(next)
            ==> signals_before(next) == signals_before(stage) + 1,
        termination_step_of(stage, running) == TerminationStep::Stuck ==> signals_before(stage)
            == 2,
{
}

/// How many bytes of output are passed on, when these pieces arrive: the piece that goes over the
/// limit ends the command.
pub open spec fn passed_bytes(
    output_bytes: usize,
    max_output_bytes: usize,
    pieces: Seq<(OutputStream, Seq<u8>)>,
) -> nat
    decreases pieces.len(),
{
    if pieces.len() == 0 {
        0
    } else {
        let step = metered(output_bytes, max_output_bytes, pieces[0].0, pieces[0].1);
        match step.1 {
            Err(_) => 0,
            Ok(None) => passed_bytes(step.0, max_output_bytes, pieces.drop_first()),
            Ok(Some(_)) => pieces[0].1.len() + passed_bytes(
                step.0,
                max_output_bytes,
                pieces.drop_first(),
            ),
        }
    }
}

/// What a command passes on never exceeds its limit, whatever it writes. A limit that is the
/// largest number there is cannot be exceeded by the count and bounds nothing.
pub proof fn law_command_output_is_bounded(
    output_bytes: usize,
    max_output_bytes: usize,
    pieces: Seq<(OutputStream, Seq<u8>)>,
)
    requires
        output_bytes <= max_output_bytes < usize::MAX,
    ensures
        output_bytes + passed_bytes(output_bytes, max_output_bytes, pieces) <= max_output_bytes,
    decreases pieces.len(),
{
    if pieces.len() > 0 {
        let step = metered(output_bytes, max_output_bytes, pieces[0].0, pieces[0].1);
        if step.1 is Ok {
            law_command_output_is_bounded(step.0, max_output_bytes, pieces.drop_first());
        }
    }
}

} // verus!
