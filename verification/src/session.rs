//! The life of runtime sessions: who may use a session's container, and when it starts and stops.
//!
//! Starting, pinging and stopping containers takes time and happens elsewhere. The table here
//! decides what each step means: every operation takes the outcome of such work as an event and
//! returns the work to do next. Times are nanoseconds on one clock.

use vstd::prelude::*;

use crate::runtime::LifecyclePolicy;
use crate::session_map::{SessionKey, SessionKeyView, SessionMap};
use crate::text::{cat2, lemma_push_contains, opt_text, same_opt, views};

verus! {

/// A running container that serves a session.
#[derive(Debug, PartialEq, Eq)]
pub struct SessionContainer {
    pub id: String,
    pub endpoint: String,
    /// For how long the container has been running.
    pub age_nanos: u64,
}

#[verifier::ext_equal]
pub struct SessionContainerView {
    pub id: Seq<char>,
    pub endpoint: Seq<char>,
    pub age_nanos: u64,
}

impl View for SessionContainer {
    type V = SessionContainerView;

    open spec fn view(&self) -> SessionContainerView {
        SessionContainerView { id: self.id@, endpoint: self.endpoint@, age_nanos: self.age_nanos }
    }
}

impl Clone for SessionContainer {
    fn clone(&self) -> (r: Self)
        ensures
            r@ == self@,
    {
        SessionContainer {
            id: self.id.clone(),
            endpoint: self.endpoint.clone(),
            age_nanos: self.age_nanos,
        }
    }
}

pub open spec fn opt_container(container: Option<SessionContainer>) -> Option<SessionContainerView> {
    match container {
        Some(c) => Some(c@),
        None => None,
    }
}

/// What a container says of itself when asked.
#[derive(Clone, Copy, Debug, PartialEq, Eq, Structural)]
pub enum SessionHealth {
    Healthy,
    HealthyBusy,
    Unhealthy,
}

/// Why a session cannot be used.
#[derive(Debug)]
pub enum SessionError {
    RetryableConflict(String),
    Provisioning(String),
    Command(String),
    StoppedDuringProvisioning,
    Stopping(String),
    DeploymentDrift(String),
}

#[verifier::ext_equal]
pub enum SessionErrorView {
    RetryableConflict(Seq<char>),
    Provisioning(Seq<char>),
    Command(Seq<char>),
    StoppedDuringProvisioning,
    Stopping(Seq<char>),
    DeploymentDrift(Seq<char>),
}

impl View for SessionError {
    type V = SessionErrorView;

    open spec fn view(&self) -> SessionErrorView {
        match self {
            SessionError::RetryableConflict(m) => SessionErrorView::RetryableConflict(m@),
            SessionError::Provisioning(m) => SessionErrorView::Provisioning(m@),
            SessionError::Command(m) => SessionErrorView::Command(m@),
            SessionError::StoppedDuringProvisioning => SessionErrorView::StoppedDuringProvisioning,
            SessionError::Stopping(m) => SessionErrorView::Stopping(m@),
            SessionError::DeploymentDrift(m) => SessionErrorView::DeploymentDrift(m@),
        }
    }
}

impl SessionErrorView {
    pub open spec fn text(self) -> Seq<char> {
        match self {
            SessionErrorView::RetryableConflict(m) => "retryable session conflict: "@ + m,
            SessionErrorView::Provisioning(m) => "session provisioning failed: "@ + m,
            SessionErrorView::Command(m) => "session command failed: "@ + m,
            SessionErrorView::StoppedDuringProvisioning =>
                "session was stopped during provisioning"@,
            SessionErrorView::Stopping(m) => "session stop failed: "@ + m,
            SessionErrorView::DeploymentDrift(m) => "session deployment has drifted: "@ + m,
        }
    }
}

impl SessionError {
    pub fn message(&self) -> (r: String)
        ensures
            r@ == self@.text(),
    {
        match self {
            SessionError::RetryableConflict(m) => cat2("retryable session conflict: ", m.as_str()),
            SessionError::Provisioning(m) => cat2("session provisioning failed: ", m.as_str()),
            SessionError::Command(m) => cat2("session command failed: ", m.as_str()),
            SessionError::StoppedDuringProvisioning =>
                "session was stopped during provisioning".to_owned(),
            SessionError::Stopping(m) => cat2("session stop failed: ", m.as_str()),
            SessionError::DeploymentDrift(m) => cat2("session deployment has drifted: ", m.as_str()),
        }
    }
}

/// A container that is up, and how it is used.
#[derive(Debug)]
pub struct ReadySession {
    pub generation: u64,
    pub container: SessionContainer,
    pub started_at: u64,
    pub last_activity: u64,
    pub active_requests: usize,
    pub idle_timeout_seconds: u64,
    pub maximum_lifetime_seconds: u64,
    /// How many health checks in a row have failed.
    pub failed_checks: u8,
}

#[verifier::ext_equal]
pub struct ReadySessionView {
    pub generation: u64,
    pub container: SessionContainerView,
    pub started_at: u64,
    pub last_activity: u64,
    pub active_requests: usize,
    pub idle_timeout_seconds: u64,
    pub maximum_lifetime_seconds: u64,
    pub failed_checks: u8,
}

impl View for ReadySession {
    type V = ReadySessionView;

    open spec fn view(&self) -> ReadySessionView {
        ReadySessionView {
            generation: self.generation,
            container: self.container@,
            started_at: self.started_at,
            last_activity: self.last_activity,
            active_requests: self.active_requests,
            idle_timeout_seconds: self.idle_timeout_seconds,
            maximum_lifetime_seconds: self.maximum_lifetime_seconds,
            failed_checks: self.failed_checks,
        }
    }
}

impl Clone for ReadySession {
    fn clone(&self) -> (r: Self)
        ensures
            r@ == self@,
    {
        ReadySession {
            generation: self.generation,
            container: self.container.clone(),
            started_at: self.started_at,
            last_activity: self.last_activity,
            active_requests: self.active_requests,
            idle_timeout_seconds: self.idle_timeout_seconds,
            maximum_lifetime_seconds: self.maximum_lifetime_seconds,
            failed_checks: self.failed_checks,
        }
    }
}

/// Where a session with compute stands. A session without an entry has none.
#[derive(Debug)]
pub enum SessionEntry {
    Starting { generation: u64 },
    Ready(ReadySession),
    Stopping { generation: u64, client_token: Option<String> },
    Failed { generation: u64, message: String, container: Option<SessionContainer> },
    Drifted { message: String },
}

#[verifier::ext_equal]
pub enum SessionEntryView {
    Starting { generation: u64 },
    Ready(ReadySessionView),
    Stopping { generation: u64, client_token: Option<Seq<char>> },
    Failed { generation: u64, message: Seq<char>, container: Option<SessionContainerView> },
    Drifted { message: Seq<char> },
}

impl View for SessionEntry {
    type V = SessionEntryView;

    open spec fn view(&self) -> SessionEntryView {
        match self {
            SessionEntry::Starting { generation } => SessionEntryView::Starting {
                generation: *generation,
            },
            SessionEntry::Ready(ready) => SessionEntryView::Ready(ready@),
            SessionEntry::Stopping { generation, client_token } => SessionEntryView::Stopping {
                generation: *generation,
                client_token: opt_text(*client_token),
            },
            SessionEntry::Failed { generation, message, container } => SessionEntryView::Failed {
                generation: *generation,
                message: message@,
                container: opt_container(*container),
            },
            SessionEntry::Drifted { message } => SessionEntryView::Drifted { message: message@ },
        }
    }
}

/// The sessions with compute, and the number of the last start.
#[verifier::ext_equal]
pub struct SessionTableView {
    pub entries: Map<SessionKeyView, SessionEntryView>,
    pub generation: u64,
}

impl SessionTableView {
    pub open spec fn entry(self, key: SessionKeyView) -> Option<SessionEntryView> {
        if self.entries.contains_key(key) {
            Some(self.entries[key])
        } else {
            None
        }
    }

    pub open spec fn with(self, key: SessionKeyView, entry: SessionEntryView) -> SessionTableView {
        SessionTableView { entries: self.entries.insert(key, entry), ..self }
    }

    pub open spec fn without(self, key: SessionKeyView) -> SessionTableView {
        SessionTableView { entries: self.entries.remove(key), ..self }
    }

    /// The number of the next start. Numbers wrap around.
    pub open spec fn next(self) -> u64 {
        if self.generation == u64::MAX {
            0
        } else {
            (self.generation + 1) as u64
        }
    }

    pub open spec fn counted(self) -> SessionTableView {
        SessionTableView { generation: self.next(), ..self }
    }

    /// One more request can be counted on the session's container.
    pub open spec fn lease_fits(self, key: SessionKeyView) -> bool {
        self.entry(key) matches Some(SessionEntryView::Ready(ready)) ==> ready.active_requests
            < usize::MAX
    }
}

pub struct SessionTable {
    entries: SessionMap<SessionEntry>,
    generation: u64,
}

impl View for SessionTable {
    type V = SessionTableView;

    closed spec fn view(&self) -> SessionTableView {
        SessionTableView { entries: self.entries@, generation: self.generation }
    }
}

// Asking for a session's container.

/// What comes of asking for a session's container.
#[derive(Debug)]
pub enum AcquireStep {
    /// The container may be used.
    Lease { generation: u64, container: SessionContainer },
    /// A container is to be started.
    Start { generation: u64 },
    Refused(SessionError),
}

#[verifier::ext_equal]
pub enum AcquireStepView {
    Lease { generation: u64, container: SessionContainerView },
    Start { generation: u64 },
    Refused(SessionErrorView),
}

impl View for AcquireStep {
    type V = AcquireStepView;

    open spec fn view(&self) -> AcquireStepView {
        match self {
            AcquireStep::Lease { generation, container } => AcquireStepView::Lease {
                generation: *generation,
                container: container@,
            },
            AcquireStep::Start { generation } => AcquireStepView::Start { generation: *generation },
            AcquireStep::Refused(error) => AcquireStepView::Refused(error@),
        }
    }
}

pub open spec fn begin_acquire_step(
    table: SessionTableView,
    key: SessionKeyView,
    now: u64,
) -> (SessionTableView, AcquireStepView) {
    match table.entry(key) {
        Some(SessionEntryView::Ready(ready)) => (
            table.with(
                key,
                SessionEntryView::Ready(
                    ReadySessionView {
                        active_requests: (ready.active_requests + 1) as usize,
                        last_activity: now,
                        ..ready
                    },
                ),
            ),
            AcquireStepView::Lease { generation: ready.generation, container: ready.container },
        ),
        Some(SessionEntryView::Starting { .. }) => (
            table,
            AcquireStepView::Refused(
                SessionErrorView::RetryableConflict("runtime session is starting"@),
            ),
        ),
        Some(SessionEntryView::Stopping { .. }) => (
            table,
            AcquireStepView::Refused(
                SessionErrorView::RetryableConflict("runtime session is stopping"@),
            ),
        ),
        Some(SessionEntryView::Failed { message, .. }) => (
            table,
            AcquireStepView::Refused(SessionErrorView::Provisioning(message)),
        ),
        Some(SessionEntryView::Drifted { message }) => (
            table,
            AcquireStepView::Refused(SessionErrorView::DeploymentDrift(message)),
        ),
        None => (
            table.counted().with(key, SessionEntryView::Starting { generation: table.next() }),
            AcquireStepView::Start { generation: table.next() },
        ),
    }
}

/// What is left to do when a container was started, or was not.
#[derive(Debug)]
pub enum StartFinish {
    /// The container may be used.
    Leased { container: SessionContainer },
    /// The start failed; the session stays failed.
    Failed { error: SessionError },
    /// The session was stopped meanwhile. A container that came up is to be stopped, and those who
    /// wait for the stop are to be told of a failure.
    Interrupted { cleanup: Option<SessionContainer>, waiters: Option<String> },
}

#[verifier::ext_equal]
pub enum StartFinishView {
    Leased { container: SessionContainerView },
    Failed { error: SessionErrorView },
    Interrupted { cleanup: Option<SessionContainerView>, waiters: Option<Seq<char>> },
}

impl View for StartFinish {
    type V = StartFinishView;

    open spec fn view(&self) -> StartFinishView {
        match self {
            StartFinish::Leased { container } => StartFinishView::Leased { container: container@ },
            StartFinish::Failed { error } => StartFinishView::Failed { error: error@ },
            StartFinish::Interrupted { cleanup, waiters } => StartFinishView::Interrupted {
                cleanup: opt_container(*cleanup),
                waiters: opt_text(*waiters),
            },
        }
    }
}

/// The view of the outcome of starting a container.
pub open spec fn started_view(started: Result<SessionContainer, String>) -> Result<
    SessionContainerView,
    Seq<char>,
> {
    match started {
        Ok(container) => Ok(container@),
        Err(message) => Err(message@),
    }
}

/// When a container of this age came up.
pub open spec fn started_at_of(now: u64, age_nanos: u64) -> u64 {
    if age_nanos <= now {
        (now - age_nanos) as u64
    } else {
        now
    }
}

pub open spec fn fresh(
    generation: u64,
    container: SessionContainerView,
    lifecycle: LifecyclePolicy,
    now: u64,
    active_requests: usize,
) -> SessionEntryView {
    SessionEntryView::Ready(
        ReadySessionView {
            generation,
            container,
            started_at: started_at_of(now, container.age_nanos),
            last_activity: now,
            active_requests,
            idle_timeout_seconds: lifecycle.idle_timeout_seconds,
            maximum_lifetime_seconds: lifecycle.maximum_lifetime_seconds,
            failed_checks: 0,
        },
    )
}

pub open spec fn finish_start_step(
    table: SessionTableView,
    key: SessionKeyView,
    generation: u64,
    started: Result<SessionContainerView, Seq<char>>,
    lifecycle: LifecyclePolicy,
    now: u64,
) -> (SessionTableView, StartFinishView) {
    let entry = table.entry(key);
    if entry == Some(SessionEntryView::Starting { generation }) {
        match started {
            Ok(container) => (
                table.with(key, fresh(generation, container, lifecycle, now, 1)),
                StartFinishView::Leased { container },
            ),
            Err(message) => (
                table.with(
                    key,
                    SessionEntryView::Failed { generation, message, container: None },
                ),
                StartFinishView::Failed { error: SessionErrorView::Provisioning(message) },
            ),
        }
    } else if is_stopping(entry, generation) {
        match started {
            Ok(container) => (
                table,
                StartFinishView::Interrupted { cleanup: Some(container), waiters: None },
            ),
            Err(message) => (
                table.with(
                    key,
                    SessionEntryView::Failed { generation, message, container: None },
                ),
                StartFinishView::Interrupted { cleanup: None, waiters: Some(message) },
            ),
        }
    } else {
        (
            table,
            StartFinishView::Interrupted {
                cleanup: match started {
                    Ok(container) => Some(container),
                    Err(_) => None,
                },
                waiters: None,
            },
        )
    }
}

pub open spec fn is_stopping(entry: Option<SessionEntryView>, generation: u64) -> bool {
    entry matches Some(SessionEntryView::Stopping { generation: current, .. }) && current
        == generation
}

// Stopping a session's container.

/// What comes of asking to stop a session.
#[derive(Debug)]
pub enum StopPlan {
    /// There is nothing to stop.
    Complete,
    /// The container is on its way up or down; the stop of this start is to be waited for.
    Wait { generation: u64 },
    /// The container is to be stopped.
    Stop { generation: u64, container: SessionContainer },
    Refused(SessionError),
}

#[verifier::ext_equal]
pub enum StopPlanView {
    Complete,
    Wait { generation: u64 },
    Stop { generation: u64, container: SessionContainerView },
    Refused(SessionErrorView),
}

impl View for StopPlan {
    type V = StopPlanView;

    open spec fn view(&self) -> StopPlanView {
        match self {
            StopPlan::Complete => StopPlanView::Complete,
            StopPlan::Wait { generation } => StopPlanView::Wait { generation: *generation },
            StopPlan::Stop { generation, container } => StopPlanView::Stop {
                generation: *generation,
                container: container@,
            },
            StopPlan::Refused(error) => StopPlanView::Refused(error@),
        }
    }
}

pub open spec fn begin_stop_step(
    table: SessionTableView,
    key: SessionKeyView,
    client_token: Option<Seq<char>>,
) -> (SessionTableView, StopPlanView) {
    match table.entry(key) {
        None => (table, StopPlanView::Complete),
        Some(SessionEntryView::Drifted { .. }) => (table, StopPlanView::Complete),
        Some(SessionEntryView::Failed { generation, container, .. }) => match container {
            None => (table.without(key), StopPlanView::Complete),
            Some(container) => (
                table.with(key, SessionEntryView::Stopping { generation, client_token }),
                StopPlanView::Stop { generation, container },
            ),
        },
        Some(SessionEntryView::Starting { generation }) => (
            table.with(key, SessionEntryView::Stopping { generation, client_token }),
            StopPlanView::Wait { generation },
        ),
        Some(SessionEntryView::Ready(ready)) => (
            table.with(
                key,
                SessionEntryView::Stopping { generation: ready.generation, client_token },
            ),
            StopPlanView::Stop { generation: ready.generation, container: ready.container },
        ),
        Some(SessionEntryView::Stopping { generation, client_token: active }) => (
            table,
            if active == client_token {
                StopPlanView::Wait { generation }
            } else {
                StopPlanView::Refused(
                    SessionErrorView::RetryableConflict(
                        "runtime session is already stopping with another client token"@,
                    ),
                )
            },
        ),
    }
}

/// The same on behalf of the lifecycle, for one start only.
pub open spec fn begin_reap_step(
    table: SessionTableView,
    key: SessionKeyView,
    expected_generation: u64,
) -> (SessionTableView, Option<SessionContainerView>) {
    let stopping = SessionEntryView::Stopping {
        generation: expected_generation,
        client_token: Some("lifecycle-reaper"@),
    };
    match table.entry(key) {
        Some(SessionEntryView::Ready(ready)) => if ready.generation == expected_generation {
            (table.with(key, stopping), Some(ready.container))
        } else {
            (table, None)
        },
        Some(SessionEntryView::Failed { generation, container, .. }) => if generation
            == expected_generation && container is Some {
            (table.with(key, stopping), container)
        } else {
            (table, None)
        },
        _ => (table, None),
    }
}

pub open spec fn cleanup_failed(message: Seq<char>) -> Seq<char> {
    "session cleanup must be retried: "@ + message
}

pub open spec fn finish_stop_step(
    table: SessionTableView,
    key: SessionKeyView,
    generation: u64,
    container: SessionContainerView,
    stopped: Result<(), Seq<char>>,
) -> SessionTableView {
    if is_stopping(table.entry(key), generation) {
        match stopped {
            Ok(_) => table.without(key),
            Err(message) => table.with(
                key,
                SessionEntryView::Failed {
                    generation,
                    message: cleanup_failed(message),
                    container: Some(container),
                },
            ),
        }
    } else {
        table
    }
}

/// The start was given up before its outcome was known. Whoever waits for a stop is then told so.
pub open spec fn interrupt_start_step(
    table: SessionTableView,
    key: SessionKeyView,
    generation: u64,
) -> (SessionTableView, bool) {
    if table.entry(key) == Some(SessionEntryView::Starting { generation }) {
        (table.without(key), false)
    } else if is_stopping(table.entry(key), generation) {
        (table.without(key), true)
    } else {
        (table, false)
    }
}

/// A request is done with the container of a start.
pub open spec fn release_step(
    table: SessionTableView,
    key: SessionKeyView,
    generation: u64,
    now: u64,
) -> SessionTableView {
    match table.entry(key) {
        Some(SessionEntryView::Ready(ready)) => if ready.generation == generation {
            table.with(
                key,
                SessionEntryView::Ready(
                    ReadySessionView {
                        active_requests: if ready.active_requests > 0 {
                            (ready.active_requests - 1) as usize
                        } else {
                            0
                        },
                        last_activity: now,
                        ..ready
                    },
                ),
            )
        } else {
            table
        },
        _ => table,
    }
}

// Ending idle and old containers.

/// The whole seconds from one time to a later one.
pub open spec fn elapsed_seconds(now: u64, since: u64) -> int {
    if now >= since {
        (now - since) / 1_000_000_000
    } else {
        0
    }
}

/// The container has lived as long as it may.
pub open spec fn expired(ready: ReadySessionView, now: u64) -> bool {
    elapsed_seconds(now, ready.started_at) >= ready.maximum_lifetime_seconds
}

/// No request uses the container, and none has for as long as it may idle.
pub open spec fn idle(ready: ReadySessionView, now: u64) -> bool {
    ready.active_requests == 0 && elapsed_seconds(now, ready.last_activity)
        >= ready.idle_timeout_seconds
}

/// A container that may have to stop.
#[derive(Debug)]
pub struct ReapCandidate {
    pub key: SessionKey,
    pub generation: u64,
    pub container: SessionContainer,
    pub expired: bool,
    pub observed_last_activity: u64,
}

#[verifier::ext_equal]
pub struct ReapCandidateView {
    pub key: SessionKeyView,
    pub generation: u64,
    pub container: SessionContainerView,
    pub expired: bool,
    pub observed_last_activity: u64,
}

impl View for ReapCandidate {
    type V = ReapCandidateView;

    open spec fn view(&self) -> ReapCandidateView {
        ReapCandidateView {
            key: self.key@,
            generation: self.generation,
            container: self.container@,
            expired: self.expired,
            observed_last_activity: self.observed_last_activity,
        }
    }
}

/// The candidate that an entry gives, where its container is old or idle.
pub open spec fn candidate_of(
    key: SessionKeyView,
    entry: SessionEntryView,
    now: u64,
) -> Option<ReapCandidateView> {
    match entry {
        SessionEntryView::Ready(ready) => if expired(ready, now) || idle(ready, now) {
            Some(
                ReapCandidateView {
                    key,
                    generation: ready.generation,
                    container: ready.container,
                    expired: expired(ready, now),
                    observed_last_activity: ready.last_activity,
                },
            )
        } else {
            None
        },
        _ => None,
    }
}

/// The start whose container is still to be cleaned up.
pub open spec fn failed_cleanup_of(entry: SessionEntryView) -> Option<u64> {
    match entry {
        SessionEntryView::Failed { generation, container, .. } => if container is Some {
            Some(generation)
        } else {
            None
        },
        _ => None,
    }
}

/// The list holds the candidates of the table, each once.
pub open spec fn are_candidates(
    list: Seq<ReapCandidateView>,
    table: SessionTableView,
    now: u64,
) -> bool {
    &&& list.no_duplicates()
    &&& forall|candidate: ReapCandidateView| #[trigger]
        list.contains(candidate) <==> table.entries.contains_key(candidate.key) && candidate_of(
            candidate.key,
            table.entries[candidate.key],
            now,
        ) == Some(candidate)
}

/// The list holds the starts with a container to clean up, each once.
pub open spec fn are_failed_cleanups(
    list: Seq<(SessionKeyView, u64)>,
    table: SessionTableView,
) -> bool {
    &&& list.no_duplicates()
    &&& forall|item: (SessionKeyView, u64)| #[trigger]
        list.contains(item) <==> table.entries.contains_key(item.0) && failed_cleanup_of(
            table.entries[item.0],
        ) == Some(item.1)
}

/// A container that is up.
#[derive(Debug)]
pub struct RunningSession {
    pub key: SessionKey,
    pub generation: u64,
    pub container: SessionContainer,
}

#[verifier::ext_equal]
pub struct RunningSessionView {
    pub key: SessionKeyView,
    pub generation: u64,
    pub container: SessionContainerView,
}

impl View for RunningSession {
    type V = RunningSessionView;

    open spec fn view(&self) -> RunningSessionView {
        RunningSessionView {
            key: self.key@,
            generation: self.generation,
            container: self.container@,
        }
    }
}

pub open spec fn running_of(key: SessionKeyView, entry: SessionEntryView) -> Option<
    RunningSessionView,
> {
    match entry {
        SessionEntryView::Ready(ready) => Some(
            RunningSessionView { key, generation: ready.generation, container: ready.container },
        ),
        _ => None,
    }
}

/// The list holds the containers that are up, each once.
pub open spec fn are_running(list: Seq<RunningSessionView>, table: SessionTableView) -> bool {
    &&& list.no_duplicates()
    &&& forall|running: RunningSessionView| #[trigger]
        list.contains(running) <==> table.entries.contains_key(running.key) && running_of(
            running.key,
            table.entries[running.key],
        ) == Some(running)
}

/// What an answer to a ping means for a candidate: a busy container counts as used now; any other
/// is to be stopped where it is old, or still unused since it was found idle. An old container is
/// not asked.
pub open spec fn decide_reap_step(
    table: SessionTableView,
    candidate: ReapCandidateView,
    pinged: SessionHealth,
    now: u64,
) -> (SessionTableView, bool) {
    match table.entry(candidate.key) {
        Some(SessionEntryView::Ready(ready)) => if !candidate.expired && pinged
            == SessionHealth::HealthyBusy {
            (
                table.with(
                    candidate.key,
                    SessionEntryView::Ready(ReadySessionView { last_activity: now, ..ready }),
                ),
                false,
            )
        } else {
            (
                table,
                ready.generation == candidate.generation && (candidate.expired || (
                ready.active_requests == 0 && ready.last_activity
                    == candidate.observed_last_activity)),
            )
        },
        _ => (table, false),
    }
}

/// How many failed health checks in a row end a container.
pub const FAILED_CHECK_LIMIT: u8 = 3;

/// What a health check of a start means: a busy container counts as used now; the third failed
/// check in a row ends the container, and any other answer starts the count again.
pub open spec fn record_health_step(
    table: SessionTableView,
    key: SessionKeyView,
    generation: u64,
    health: SessionHealth,
    now: u64,
) -> (SessionTableView, bool) {
    match table.entry(key) {
        Some(SessionEntryView::Ready(ready)) => if ready.generation != generation {
            (table, false)
        } else {
            match health {
                SessionHealth::Healthy => (
                    table.with(
                        key,
                        SessionEntryView::Ready(ReadySessionView { failed_checks: 0, ..ready }),
                    ),
                    false,
                ),
                SessionHealth::HealthyBusy => (
                    table.with(
                        key,
                        SessionEntryView::Ready(
                            ReadySessionView { failed_checks: 0, last_activity: now, ..ready },
                        ),
                    ),
                    false,
                ),
                SessionHealth::Unhealthy => {
                    let failed_checks = if ready.failed_checks < FAILED_CHECK_LIMIT {
                        (ready.failed_checks + 1) as u8
                    } else {
                        FAILED_CHECK_LIMIT
                    };
                    (
                        table.with(
                            key,
                            SessionEntryView::Ready(ReadySessionView { failed_checks, ..ready }),
                        ),
                        failed_checks == FAILED_CHECK_LIMIT,
                    )
                },
            }
        },
        _ => (table, false),
    }
}

// Sessions found at startup.

pub open spec fn already_registered() -> SessionErrorView {
    SessionErrorView::RetryableConflict("runtime session was already registered"@)
}

pub open spec fn adopt_step(
    table: SessionTableView,
    key: SessionKeyView,
    container: SessionContainerView,
    lifecycle: LifecyclePolicy,
    now: u64,
) -> (SessionTableView, Result<(), SessionErrorView>) {
    if table.entries.contains_key(key) {
        (table.counted(), Err(already_registered()))
    } else {
        (table.counted().with(key, fresh(table.next(), container, lifecycle, now, 0)), Ok(()))
    }
}

pub open spec fn restore_drifted_step(
    table: SessionTableView,
    key: SessionKeyView,
    message: Seq<char>,
) -> (SessionTableView, Result<(), SessionErrorView>) {
    if table.entries.contains_key(key) {
        (table, Err(already_registered()))
    } else {
        (table.with(key, SessionEntryView::Drifted { message }), Ok(()))
    }
}

fn is_due(elapsed_now: u64, since: u64, limit_seconds: u64) -> (r: bool)
    ensures
        r == (elapsed_seconds(elapsed_now, since) >= limit_seconds),
{
    let seconds: u64 = if elapsed_now >= since {
        (elapsed_now - since) / 1_000_000_000
    } else {
        0
    };
    seconds >= limit_seconds
}

fn start_time(now: u64, age_nanos: u64) -> (r: u64)
    ensures
        r == started_at_of(now, age_nanos),
{
    if age_nanos <= now {
        now - age_nanos
    } else {
        now
    }
}

fn fresh_session(
    generation: u64,
    container: SessionContainer,
    lifecycle: LifecyclePolicy,
    now: u64,
    active_requests: usize,
) -> (r: SessionEntry)
    ensures
        r@ == fresh(generation, container@, lifecycle, now, active_requests),
{
    SessionEntry::Ready(
        ReadySession {
            generation,
            started_at: start_time(now, container.age_nanos),
            container,
            last_activity: now,
            active_requests,
            idle_timeout_seconds: lifecycle.idle_timeout_seconds,
            maximum_lifetime_seconds: lifecycle.maximum_lifetime_seconds,
            failed_checks: 0,
        },
    )
}

impl SessionTable {
    pub fn new() -> (r: Self)
        ensures
            r@ == (SessionTableView {
                entries: Map::<SessionKeyView, SessionEntryView>::empty(),
                generation: 0,
            }),
    {
        SessionTable { entries: SessionMap::new(), generation: 0 }
    }

    fn next_generation(&mut self) -> (r: u64)
        ensures
            final(self)@ == old(self)@.counted(),
            r == old(self)@.next(),
    {
        self.generation = self.generation.wrapping_add(1);
        self.generation
    }

    /// Whether one more request can be counted on the session's container.
    pub fn lease_fits(&self, key: &SessionKey) -> (r: bool)
        ensures
            r == self@.lease_fits(key@),
    {
        match self.entries.get(key) {
            Some(SessionEntry::Ready(ready)) => ready.active_requests < usize::MAX,
            _ => true,
        }
    }

    /// Where a session stands, in one word.
    pub fn state(&self, key: &SessionKey) -> (r: Option<&'static str>)
        ensures
            match self@.entry(key@) {
                None => r is None,
                Some(entry) => r matches Some(word) && word@ == (match entry {
                    SessionEntryView::Starting { .. } => "starting"@,
                    SessionEntryView::Ready(_) => "ready"@,
                    SessionEntryView::Stopping { .. } => "stopping"@,
                    SessionEntryView::Failed { .. } => "failed"@,
                    SessionEntryView::Drifted { .. } => "drifted"@,
                }),
            },
    {
        match self.entries.get(key) {
            None => None,
            Some(SessionEntry::Starting { .. }) => Some("starting"),
            Some(SessionEntry::Ready(_)) => Some("ready"),
            Some(SessionEntry::Stopping { .. }) => Some("stopping"),
            Some(SessionEntry::Failed { .. }) => Some("failed"),
            Some(SessionEntry::Drifted { .. }) => Some("drifted"),
        }
    }

    /// How many requests use the session's container, where it is up.
    pub fn active_request_count(&self, key: &SessionKey) -> (r: Option<usize>)
        ensures
            r == (match self@.entry(key@) {
                Some(SessionEntryView::Ready(ready)) => Some(ready.active_requests),
                _ => None,
            }),
    {
        match self.entries.get(key) {
            Some(SessionEntry::Ready(ready)) => Some(ready.active_requests),
            _ => None,
        }
    }

    /// Asks for the container of a session on behalf of one request.
    pub fn begin_acquire(&mut self, key: &SessionKey, now: u64) -> (r: AcquireStep)
        requires
            old(self)@.lease_fits(key@),
        ensures
            (final(self)@, r@) == begin_acquire_step(old(self)@, key@, now),
    {
        match self.entries.get(key) {
            Some(SessionEntry::Ready(ready)) => {
                let mut leased = ready.clone();
                leased.active_requests = leased.active_requests + 1;
                leased.last_activity = now;
                let generation = leased.generation;
                let container = leased.container.clone();
                self.entries.insert(key.clone(), SessionEntry::Ready(leased));
                AcquireStep::Lease { generation, container }
            },
            Some(SessionEntry::Starting { .. }) => AcquireStep::Refused(
                SessionError::RetryableConflict("runtime session is starting".to_owned()),
            ),
            Some(SessionEntry::Stopping { .. }) => AcquireStep::Refused(
                SessionError::RetryableConflict("runtime session is stopping".to_owned()),
            ),
            Some(SessionEntry::Failed { message, .. }) => AcquireStep::Refused(
                SessionError::Provisioning(message.clone()),
            ),
            Some(SessionEntry::Drifted { message }) => AcquireStep::Refused(
                SessionError::DeploymentDrift(message.clone()),
            ),
            None => {
                let generation = self.next_generation();
                self.entries.insert(key.clone(), SessionEntry::Starting { generation });
                AcquireStep::Start { generation }
            },
        }
    }

    /// Takes note of how the start of a container went.
    pub fn finish_start(
        &mut self,
        key: &SessionKey,
        generation: u64,
        started: Result<SessionContainer, String>,
        lifecycle: LifecyclePolicy,
        now: u64,
    ) -> (r: StartFinish)
        ensures
            (final(self)@, r@) == finish_start_step(
                old(self)@,
                key@,
                generation,
                started_view(started),
                lifecycle,
                now,
            ),
    {
        let (starting, stopping) = match self.entries.get(key) {
            Some(SessionEntry::Starting { generation: current }) => (*current == generation, false),
            Some(SessionEntry::Stopping { generation: current, .. }) => (
                false,
                *current == generation,
            ),
            _ => (false, false),
        };
        if starting {
            match started {
                Ok(container) => {
                    let entry = fresh_session(generation, container.clone(), lifecycle, now, 1);
                    self.entries.insert(key.clone(), entry);
                    StartFinish::Leased { container }
                },
                Err(message) => {
                    self.entries.insert(
                        key.clone(),
                        SessionEntry::Failed {
                            generation,
                            message: message.clone(),
                            container: None,
                        },
                    );
                    StartFinish::Failed { error: SessionError::Provisioning(message) }
                },
            }
        } else if stopping {
            match started {
                Ok(container) => StartFinish::Interrupted {
                    cleanup: Some(container),
                    waiters: None,
                },
                Err(message) => {
                    self.entries.insert(
                        key.clone(),
                        SessionEntry::Failed {
                            generation,
                            message: message.clone(),
                            container: None,
                        },
                    );
                    StartFinish::Interrupted { cleanup: None, waiters: Some(message) }
                },
            }
        } else {
            match started {
                Ok(container) => StartFinish::Interrupted {
                    cleanup: Some(container),
                    waiters: None,
                },
                Err(_) => StartFinish::Interrupted { cleanup: None, waiters: None },
            }
        }
    }

    /// Gives up a start whose outcome will not be known. The result says whether somebody may be
    /// waiting for a stop of it.
    pub fn interrupt_start(&mut self, key: &SessionKey, generation: u64) -> (r: bool)
        ensures
            (final(self)@, r) == interrupt_start_step(old(self)@, key@, generation),
    {
        let (starting, stopping) = match self.entries.get(key) {
            Some(SessionEntry::Starting { generation: current }) => (*current == generation, false),
            Some(SessionEntry::Stopping { generation: current, .. }) => (
                false,
                *current == generation,
            ),
            _ => (false, false),
        };
        if starting || stopping {
            let _ = self.entries.remove(key);
        }
        stopping
    }

    /// Asks to stop a session's container.
    pub fn begin_stop(&mut self, key: &SessionKey, client_token: Option<String>) -> (r: StopPlan)
        ensures
            (final(self)@, r@) == begin_stop_step(old(self)@, key@, opt_text(client_token)),
    {
        match self.entries.get(key) {
            None => StopPlan::Complete,
            Some(SessionEntry::Drifted { .. }) => StopPlan::Complete,
            Some(SessionEntry::Failed { generation, container, .. }) => match container {
                None => {
                    let _ = self.entries.remove(key);
                    StopPlan::Complete
                },
                Some(container) => {
                    let generation = *generation;
                    let container = container.clone();
                    self.entries.insert(
                        key.clone(),
                        SessionEntry::Stopping { generation, client_token },
                    );
                    StopPlan::Stop { generation, container }
                },
            },
            Some(SessionEntry::Starting { generation }) => {
                let generation = *generation;
                self.entries.insert(
                    key.clone(),
                    SessionEntry::Stopping { generation, client_token },
                );
                StopPlan::Wait { generation }
            },
            Some(SessionEntry::Ready(ready)) => {
                let generation = ready.generation;
                let container = ready.container.clone();
                self.entries.insert(
                    key.clone(),
                    SessionEntry::Stopping { generation, client_token },
                );
                StopPlan::Stop { generation, container }
            },
            Some(SessionEntry::Stopping { generation, client_token: active }) => {
                if same_opt(active, &client_token) {
                    StopPlan::Wait { generation: *generation }
                } else {
                    StopPlan::Refused(
                        SessionError::RetryableConflict(
                            "runtime session is already stopping with another client token".to_owned(),
                        ),
                    )
                }
            },
        }
    }

    /// Asks to stop the container of one start on behalf of the lifecycle.
    pub fn stop_by_key(&mut self, key: &SessionKey, expected_generation: u64) -> (r: Option<
        SessionContainer,
    >)
        ensures
            (final(self)@, opt_container(r)) == begin_reap_step(
                old(self)@,
                key@,
                expected_generation,
            ),
    {
        let container = match self.entries.get(key) {
            Some(SessionEntry::Ready(ready)) => {
                if ready.generation == expected_generation {
                    Some(ready.container.clone())
                } else {
                    None
                }
            },
            Some(SessionEntry::Failed { generation, container: Some(container), .. }) => {
                if *generation == expected_generation {
                    Some(container.clone())
                } else {
                    None
                }
            },
            _ => None,
        };
        if container.is_some() {
            self.entries.insert(
                key.clone(),
                SessionEntry::Stopping {
                    generation: expected_generation,
                    client_token: Some("lifecycle-reaper".to_owned()),
                },
            );
        }
        container
    }

    /// Takes note of how the stop of a container went.
    pub fn finish_stop(
        &mut self,
        key: &SessionKey,
        generation: u64,
        container: SessionContainer,
        stopped: &Result<(), String>,
    )
        ensures
            final(self)@ == finish_stop_step(
                old(self)@,
                key@,
                generation,
                container@,
                (match *stopped {
                    Ok(_) => Ok(()),
                    Err(message) => Err(message@),
                }),
            ),
    {
        let stopping = match self.entries.get(key) {
            Some(SessionEntry::Stopping { generation: current, .. }) => *current == generation,
            _ => false,
        };
        if stopping {
            match stopped {
                Ok(_) => {
                    let _ = self.entries.remove(key);
                },
                Err(message) => {
                    self.entries.insert(
                        key.clone(),
                        SessionEntry::Failed {
                            generation,
                            message: cat2("session cleanup must be retried: ", message.as_str()),
                            container: Some(container),
                        },
                    );
                },
            }
        }
    }

    /// Takes note that a request is done with the container of a start.
    pub fn release(&mut self, key: &SessionKey, generation: u64, now: u64)
        ensures
            final(self)@ == release_step(old(self)@, key@, generation, now),
    {
        match self.entries.get(key) {
            Some(SessionEntry::Ready(ready)) => {
                if ready.generation == generation {
                    let mut released = ready.clone();
                    if released.active_requests > 0 {
                        released.active_requests = released.active_requests - 1;
                    }
                    released.last_activity = now;
                    self.entries.insert(key.clone(), SessionEntry::Ready(released));
                }
            },
            _ => {},
        }
    }

    /// The containers that are old or idle.
    pub fn reap_candidates(&self, now: u64) -> (r: Vec<ReapCandidate>)
        ensures
            are_candidates(views(r@), self@, now),
    {
        let mut out: Vec<ReapCandidate> = Vec::new();
        let count = self.entries.len();
        let ghost keys = self.entries.keys();
        for i in 0..count
            invariant
                count == keys.len(),
                keys == self.entries.keys(),
                keys.no_duplicates(),
                forall|key: SessionKeyView| keys.contains(key) <==> self.entries@.contains_key(key),
                views(out@).no_duplicates(),
                forall|candidate: ReapCandidateView| #[trigger]
                    views(out@).contains(candidate) <==> keys.take(i as int).contains(candidate.key)
                        && candidate_of(candidate.key, self.entries@[candidate.key], now) == Some(
                        candidate,
                    ),
        {
            let (key, entry) = self.entries.at(i);
            let ghost before = out@;
            let ghost found = candidate_of(key@, entry@, now);
            match entry {
                SessionEntry::Ready(ready) => {
                    let expired = is_due(now, ready.started_at, ready.maximum_lifetime_seconds);
                    let idle = ready.active_requests == 0 && is_due(
                        now,
                        ready.last_activity,
                        ready.idle_timeout_seconds,
                    );
                    if expired || idle {
                        out.push(
                            ReapCandidate {
                                key: key.clone(),
                                generation: ready.generation,
                                container: ready.container.clone(),
                                expired,
                                observed_last_activity: ready.last_activity,
                            },
                        );
                    }
                },
                _ => {},
            }
            proof {
                let upto = keys.take(i as int + 1);
                assert(upto =~= keys.take(i as int).push(key@));
                assert(!keys.take(i as int).contains(key@)) by {
                    if keys.take(i as int).contains(key@) {
                        let j = choose|j: int| 0 <= j < i && keys.take(i as int)[j] == key@;
                        assert(keys[j] == keys[i as int]);
                    }
                }
                match found {
                    Some(candidate) => {
                        assert(views(out@) =~= views(before).push(candidate));
                        assert(!views(before).contains(candidate));
                        lemma_push_contains(views(before), candidate);
                    },
                    None => {
                        assert(out@ == before);
                    },
                }
                lemma_push_contains(keys.take(i as int), key@);
            }
        }
        proof {
            assert(keys.take(keys.len() as int) =~= keys);
        }
        out
    }

    /// The starts with a container that is still to be cleaned up.
    pub fn failed_cleanups(&self) -> (r: Vec<(SessionKey, u64)>)
        ensures
            are_failed_cleanups(views(r@), self@),
    {
        let mut out: Vec<(SessionKey, u64)> = Vec::new();
        let count = self.entries.len();
        let ghost keys = self.entries.keys();
        for i in 0..count
            invariant
                count == keys.len(),
                keys == self.entries.keys(),
                keys.no_duplicates(),
                forall|key: SessionKeyView| keys.contains(key) <==> self.entries@.contains_key(key),
                views(out@).no_duplicates(),
                forall|item: (SessionKeyView, u64)| #[trigger]
                    views(out@).contains(item) <==> keys.take(i as int).contains(item.0)
                        && failed_cleanup_of(self.entries@[item.0]) == Some(item.1),
        {
            let (key, entry) = self.entries.at(i);
            let ghost before = out@;
            let ghost found = failed_cleanup_of(entry@);
            match entry {
                SessionEntry::Failed { generation, container: Some(_), .. } => {
                    out.push((key.clone(), *generation));
                },
                _ => {},
            }
            proof {
                let upto = keys.take(i as int + 1);
                assert(upto =~= keys.take(i as int).push(key@));
                assert(!keys.take(i as int).contains(key@)) by {
                    if keys.take(i as int).contains(key@) {
                        let j = choose|j: int| 0 <= j < i && keys.take(i as int)[j] == key@;
                        assert(keys[j] == keys[i as int]);
                    }
                }
                match found {
                    Some(generation) => {
                        assert(views(out@) =~= views(before).push((key@, generation)));
                        assert(!views(before).contains((key@, generation)));
                        lemma_push_contains(views(before), (key@, generation));
                    },
                    None => {
                        assert(out@ == before);
                    },
                }
                lemma_push_contains(keys.take(i as int), key@);
            }
        }
        proof {
            assert(keys.take(keys.len() as int) =~= keys);
        }
        out
    }

    /// The containers that are up, whose health is to be checked.
    pub fn running(&self) -> (r: Vec<RunningSession>)
        ensures
            are_running(views(r@), self@),
    {
        let mut out: Vec<RunningSession> = Vec::new();
        let count = self.entries.len();
        let ghost keys = self.entries.keys();
        for i in 0..count
            invariant
                count == keys.len(),
                keys == self.entries.keys(),
                keys.no_duplicates(),
                forall|key: SessionKeyView| keys.contains(key) <==> self.entries@.contains_key(key),
                views(out@).no_duplicates(),
                forall|item: RunningSessionView| #[trigger]
                    views(out@).contains(item) <==> keys.take(i as int).contains(item.key)
                        && running_of(item.key, self.entries@[item.key]) == Some(item),
        {
            let (key, entry) = self.entries.at(i);
            let ghost before = out@;
            let ghost found = running_of(key@, entry@);
            match entry {
                SessionEntry::Ready(ready) => {
                    out.push(
                        RunningSession {
                            key: key.clone(),
                            generation: ready.generation,
                            container: ready.container.clone(),
                        },
                    );
                },
                _ => {},
            }
            proof {
                let upto = keys.take(i as int + 1);
                assert(upto =~= keys.take(i as int).push(key@));
                assert(!keys.take(i as int).contains(key@)) by {
                    if keys.take(i as int).contains(key@) {
                        let j = choose|j: int| 0 <= j < i && keys.take(i as int)[j] == key@;
                        assert(keys[j] == keys[i as int]);
                    }
                }
                match found {
                    Some(running) => {
                        assert(views(out@) =~= views(before).push(running));
                        assert(!views(before).contains(running));
                        lemma_push_contains(views(before), running);
                    },
                    None => {
                        assert(out@ == before);
                    },
                }
                lemma_push_contains(keys.take(i as int), key@);
            }
        }
        proof {
            assert(keys.take(keys.len() as int) =~= keys);
        }
        out
    }

    /// Decides on a candidate once it was pinged. The result says whether it is to be stopped.
    pub fn decide_reap(
        &mut self,
        candidate: &ReapCandidate,
        pinged: SessionHealth,
        now: u64,
    ) -> (r: bool)
        ensures
            (final(self)@, r) == decide_reap_step(old(self)@, candidate@, pinged, now),
    {
        match self.entries.get(&candidate.key) {
            Some(SessionEntry::Ready(ready)) => {
                if !candidate.expired && pinged == SessionHealth::HealthyBusy {
                    let mut used = ready.clone();
                    used.last_activity = now;
                    self.entries.insert(candidate.key.clone(), SessionEntry::Ready(used));
                    false
                } else {
                    ready.generation == candidate.generation && (candidate.expired || (
                    ready.active_requests == 0 && ready.last_activity
                        == candidate.observed_last_activity))
                }
            },
            _ => false,
        }
    }

    /// Takes note of a health check. The result says whether the container is to be stopped.
    pub fn record_health(
        &mut self,
        key: &SessionKey,
        generation: u64,
        health: SessionHealth,
        now: u64,
    ) -> (r: bool)
        ensures
            (final(self)@, r) == record_health_step(old(self)@, key@, generation, health, now),
    {
        match self.entries.get(key) {
            Some(SessionEntry::Ready(ready)) => {
                if ready.generation != generation {
                    return false;
                }
                let mut checked = ready.clone();
                match health {
                    SessionHealth::Healthy => {
                        checked.failed_checks = 0;
                    },
                    SessionHealth::HealthyBusy => {
                        checked.failed_checks = 0;
                        checked.last_activity = now;
                    },
                    SessionHealth::Unhealthy => {
                        checked.failed_checks = if checked.failed_checks < FAILED_CHECK_LIMIT {
                            checked.failed_checks + 1
                        } else {
                            FAILED_CHECK_LIMIT
                        };
                    },
                }
                let stop = health == SessionHealth::Unhealthy && checked.failed_checks
                    == FAILED_CHECK_LIMIT;
                self.entries.insert(key.clone(), SessionEntry::Ready(checked));
                stop
            },
            _ => false,
        }
    }

    /// Registers a container that was found running.
    pub fn adopt(
        &mut self,
        key: SessionKey,
        container: SessionContainer,
        lifecycle: LifecyclePolicy,
        now: u64,
    ) -> (r: Result<(), SessionError>)
        ensures
            ({
                let (table, outcome) = adopt_step(
                    old(self)@,
                    key@,
                    container@,
                    lifecycle,
                    now,
                );
                &&& final(self)@ == table
                &&& crate::text::agrees(r, outcome)
            }),
    {
        let generation = self.next_generation();
        if self.entries.get(&key).is_some() {
            return Err(
                SessionError::RetryableConflict(
                    "runtime session was already registered".to_owned(),
                ),
            );
        }
        let entry = fresh_session(generation, container, lifecycle, now, 0);
        self.entries.insert(key, entry);
        Ok(())
    }

    /// Blocks a stored session whose deployment has changed.
    pub fn restore_drifted(&mut self, key: SessionKey, message: String) -> (r: Result<
        (),
        SessionError,
    >)
        ensures
            ({
                let (table, outcome) = restore_drifted_step(old(self)@, key@, message@);
                &&& final(self)@ == table
                &&& crate::text::agrees(r, outcome)
            }),
    {
        if self.entries.get(&key).is_some() {
            return Err(
                SessionError::RetryableConflict(
                    "runtime session was already registered".to_owned(),
                ),
            );
        }
        self.entries.insert(key, SessionEntry::Drifted { message });
        Ok(())
    }
}

} // verus!
