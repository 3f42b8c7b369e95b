//! What holds of every session over several steps.

use vstd::prelude::*;

use crate::runtime::LifecyclePolicy;
use crate::session::{
    adopt_step, already_registered, are_candidates, are_failed_cleanups, are_running,
    begin_acquire_step, begin_reap_step, begin_stop_step, candidate_of, cleanup_failed,
    decide_reap_step, elapsed_seconds, expired, failed_cleanup_of, finish_start_step,
    finish_stop_step, interrupt_start_step, is_stopping, record_health_step, release_step,
    restore_drifted_step, AcquireStepView, ReadySessionView, ReapCandidateView, RunningSessionView,
    SessionContainerView, SessionEntryView, SessionErrorView, SessionHealth, SessionTableView,
    StartFinishView, StopPlanView,
};
use crate::session_map::SessionKeyView;

verus! {

/// What a step of one session leaves alone: every other session.
pub open spec fn others_unchanged(
    before: SessionTableView,
    after: SessionTableView,
    key: SessionKeyView,
) -> bool {
    forall|other: SessionKeyView| other != key ==> #[trigger] after.entry(other) == before.entry(
        other,
    )
}

/// Every step changes the session that it is about and no other.
pub proof fn law_steps_touch_one_session(
    table: SessionTableView,
    key: SessionKeyView,
    generation: u64,
    now: u64,
    started: Result<SessionContainerView, Seq<char>>,
    stopped: Result<(), Seq<char>>,
    container: SessionContainerView,
    lifecycle: LifecyclePolicy,
    client_token: Option<Seq<char>>,
    health: SessionHealth,
    message: Seq<char>,
)
    ensures
        others_unchanged(table, begin_acquire_step(table, key, now).0, key),
        others_unchanged(
            table,
            finish_start_step(table, key, generation, started, lifecycle, now).0,
            key,
        ),
        others_unchanged(table, interrupt_start_step(table, key, generation).0, key),
        others_unchanged(table, begin_stop_step(table, key, client_token).0, key),
        others_unchanged(table, begin_reap_step(table, key, generation).0, key),
        others_unchanged(
            table,
            finish_stop_step(table, key, generation, container, stopped),
            key,
        ),
        others_unchanged(table, release_step(table, key, generation, now), key),
        others_unchanged(table, record_health_step(table, key, generation, health, now).0, key),
        others_unchanged(table, adopt_step(table, key, container, lifecycle, now).0, key),
        others_unchanged(table, restore_drifted_step(table, key, message).0, key),
{
}

/// Deciding on a candidate changes no other session.
pub proof fn law_reaping_touches_one_session(
    table: SessionTableView,
    candidate: ReapCandidateView,
    pinged: SessionHealth,
    now: u64,
)
    ensures
        others_unchanged(table, decide_reap_step(table, candidate, pinged, now).0, candidate.key),
{
}

/// While a container is on its way up, nobody else can start one for the session.
pub proof fn law_one_start_at_a_time(
    table: SessionTableView,
    key: SessionKeyView,
    now: u64,
    later: u64,
)
    requires
        begin_acquire_step(table, key, now).1 is Start,
    ensures
        ({
            let starting = begin_acquire_step(table, key, now).0;
            begin_acquire_step(starting, key, later) == (
                starting,
                AcquireStepView::Refused(
                    SessionErrorView::RetryableConflict("runtime session is starting"@),
                ),
            )
        }),
{
}

/// A container is started only for a session that has none.
pub proof fn law_start_needs_no_compute(table: SessionTableView, key: SessionKeyView, now: u64)
    ensures
        begin_acquire_step(table, key, now).1 is Start <==> table.entry(key) is None,
{
}

/// A start that succeeds leaves a container with one request on it; further requests share it.
pub proof fn law_requests_share_one_container(
    table: SessionTableView,
    key: SessionKeyView,
    container: SessionContainerView,
    lifecycle: LifecyclePolicy,
    now: u64,
    later: u64,
)
    requires
        table.entry(key) is None,
    ensures
        ({
            let starting = begin_acquire_step(table, key, now).0;
            let generation = table.next();
            let up = finish_start_step(
                starting,
                key,
                generation,
                Ok(container),
                lifecycle,
                now,
            );
            let shared = begin_acquire_step(up.0, key, later);
            &&& up.1 == StartFinishView::Leased { container }
            &&& shared.1 == AcquireStepView::Lease { generation, container }
            &&& (shared.0.entry(key) matches Some(SessionEntryView::Ready(ready))
                && ready.active_requests == 2)
        }),
{
}

/// Letting go of a container undoes the count of asking for it.
pub proof fn law_release_undoes_acquire(
    table: SessionTableView,
    key: SessionKeyView,
    ready: ReadySessionView,
    now: u64,
    later: u64,
)
    requires
        table.entry(key) == Some(SessionEntryView::Ready(ready)),
        table.lease_fits(key),
    ensures
        release_step(begin_acquire_step(table, key, now).0, key, ready.generation, later)
            == table.with(
            key,
            SessionEntryView::Ready(ReadySessionView { last_activity: later, ..ready }),
        ),
{
    let after = release_step(begin_acquire_step(table, key, now).0, key, ready.generation, later);
    let wanted = table.with(
        key,
        SessionEntryView::Ready(ReadySessionView { last_activity: later, ..ready }),
    );
    assert(after.entries =~= wanted.entries);
}

/// What belongs to an earlier start has no effect on a later one.
pub proof fn law_stale_events_are_ignored(
    table: SessionTableView,
    key: SessionKeyView,
    ready: ReadySessionView,
    stale: u64,
    now: u64,
    started: Result<SessionContainerView, Seq<char>>,
    stopped: Result<(), Seq<char>>,
    container: SessionContainerView,
    lifecycle: LifecyclePolicy,
    health: SessionHealth,
)
    requires
        table.entry(key) == Some(SessionEntryView::Ready(ready)),
        ready.generation != stale,
    ensures
        release_step(table, key, stale, now) == table,
        finish_start_step(table, key, stale, started, lifecycle, now).0 == table,
        finish_stop_step(table, key, stale, container, stopped) == table,
        interrupt_start_step(table, key, stale) == (table, false),
        begin_reap_step(table, key, stale) == (table, None::<SessionContainerView>),
        record_health_step(table, key, stale, health, now) == (table, false),
{
}

/// Once a stop has gone through, asking again starts a fresh container under a new number.
pub proof fn law_stop_then_acquire_starts_fresh(
    table: SessionTableView,
    key: SessionKeyView,
    ready: ReadySessionView,
    client_token: Option<Seq<char>>,
    now: u64,
)
    requires
        table.entry(key) == Some(SessionEntryView::Ready(ready)),
    ensures
        ({
            let stopping = begin_stop_step(table, key, client_token);
            let stopped = finish_stop_step(
                stopping.0,
                key,
                ready.generation,
                ready.container,
                Ok(()),
            );
            &&& stopping.1 == StopPlanView::Stop {
                generation: ready.generation,
                container: ready.container,
            }
            &&& stopped.entry(key) is None
            &&& begin_acquire_step(stopped, key, now).1 == AcquireStepView::Start {
                generation: table.next(),
            }
            &&& table.next() != table.generation
        }),
{
}

/// A session outlives its container: when the gateway itself stops the container, for its age, for
/// want of use or for its health, asking again starts a fresh one.
pub proof fn law_sessions_outlive_their_container(
    table: SessionTableView,
    key: SessionKeyView,
    ready: ReadySessionView,
    now: u64,
)
    requires
        table.entry(key) == Some(SessionEntryView::Ready(ready)),
    ensures
        ({
            let stopping = begin_reap_step(table, key, ready.generation);
            let stopped = finish_stop_step(
                stopping.0,
                key,
                ready.generation,
                ready.container,
                Ok(()),
            );
            &&& stopping.1 == Some(ready.container)
            &&& begin_acquire_step(stopped, key, now).1 == AcquireStepView::Start {
                generation: table.next(),
            }
        }),
{
}

/// A container is never handed out while the session is on its way down.
pub proof fn law_no_lease_while_stopping(
    table: SessionTableView,
    key: SessionKeyView,
    client_token: Option<Seq<char>>,
    now: u64,
)
    requires
        table.entry(key) matches Some(SessionEntryView::Ready(_)),
    ensures
        ({
            let stopping = begin_stop_step(table, key, client_token).0;
            begin_acquire_step(stopping, key, now) == (
                stopping,
                AcquireStepView::Refused(
                    SessionErrorView::RetryableConflict("runtime session is stopping"@),
                ),
            )
        }),
{
}

/// Stopping is idempotent for one token: a second request waits for the first. With another token
/// it is refused, and nothing changes.
pub proof fn law_stop_is_idempotent_per_token(
    table: SessionTableView,
    key: SessionKeyView,
    first: Option<Seq<char>>,
    second: Option<Seq<char>>,
)
    requires
        table.entry(key) matches Some(SessionEntryView::Ready(_)),
    ensures
        ({
            let stopping = begin_stop_step(table, key, first).0;
            let again = begin_stop_step(stopping, key, second);
            &&& again.0 == stopping
            &&& first == second ==> again.1 is Wait
            &&& first != second ==> again.1 == StopPlanView::Refused(
                SessionErrorView::RetryableConflict(
                    "runtime session is already stopping with another client token"@,
                ),
            )
        }),
{
}

/// A stop while a container is on its way up takes it down again: whoever started it gets no
/// container, the container is handed back to be stopped, and after that the session has none.
pub proof fn law_stop_during_start_wins(
    table: SessionTableView,
    key: SessionKeyView,
    client_token: Option<Seq<char>>,
    container: SessionContainerView,
    lifecycle: LifecyclePolicy,
    now: u64,
)
    requires
        table.entry(key) is None,
    ensures
        ({
            let generation = table.next();
            let starting = begin_acquire_step(table, key, now).0;
            let stopping = begin_stop_step(starting, key, client_token);
            let up = finish_start_step(
                stopping.0,
                key,
                generation,
                Ok(container),
                lifecycle,
                now,
            );
            let down = finish_stop_step(up.0, key, generation, container, Ok(()));
            &&& stopping.1 == StopPlanView::Wait { generation }
            &&& up.1 == StartFinishView::Interrupted { cleanup: Some(container), waiters: None }
            &&& down.entry(key) is None
        }),
{
}

/// A container that could not be stopped is not lost: it stays with the session, it is listed for
/// another attempt, and the attempt hands it out again.
pub proof fn law_failed_cleanup_is_retried(
    table: SessionTableView,
    key: SessionKeyView,
    generation: u64,
    container: SessionContainerView,
    message: Seq<char>,
    now: u64,
)
    requires
        is_stopping(table.entry(key), generation),
    ensures
        ({
            let failed = finish_stop_step(table, key, generation, container, Err(message));
            &&& failed.entries.contains_key(key)
            &&& failed_cleanup_of(failed.entries[key]) == Some(generation)
            &&& begin_reap_step(failed, key, generation).1 == Some(container)
            &&& begin_acquire_step(failed, key, now) == (
                failed,
                AcquireStepView::Refused(
                    SessionErrorView::Provisioning(cleanup_failed(message)),
                ),
            )
        }),
{
}

/// A start that is given up leaves the session without compute, ready to be started again.
pub proof fn law_interrupted_start_is_not_stranded(
    table: SessionTableView,
    key: SessionKeyView,
    client_token: Option<Seq<char>>,
    now: u64,
)
    requires
        table.entry(key) is None,
    ensures
        ({
            let generation = table.next();
            let starting = begin_acquire_step(table, key, now).0;
            let stopping = begin_stop_step(starting, key, client_token).0;
            &&& interrupt_start_step(starting, key, generation).0.entry(key) is None
            &&& interrupt_start_step(starting, key, generation).1 == false
            &&& interrupt_start_step(stopping, key, generation).0.entry(key) is None
            &&& interrupt_start_step(stopping, key, generation).1 == true
        }),
{
}

/// A request on a container keeps it from idling away, but not from reaching its lifetime.
pub proof fn law_active_requests_block_idling_only(
    key: SessionKeyView,
    ready: ReadySessionView,
    now: u64,
)
    requires
        ready.active_requests > 0,
    ensures
        candidate_of(key, SessionEntryView::Ready(ready), now) is Some <==> expired(ready, now),
{
}

/// A container that says it is busy stays: it is not stopped, and it does not idle again before
/// its idle time has passed from now.
pub proof fn law_busy_container_is_kept(
    table: SessionTableView,
    candidate: ReapCandidateView,
    ready: ReadySessionView,
    now: u64,
    later: u64,
)
    requires
        table.entry(candidate.key) == Some(SessionEntryView::Ready(ready)),
        !candidate.expired,
        elapsed_seconds(later, now) < ready.idle_timeout_seconds,
        !expired(ready, later),
    ensures
        ({
            let kept = decide_reap_step(table, candidate, SessionHealth::HealthyBusy, now);
            &&& !kept.1
            &&& kept.0.entries.contains_key(candidate.key)
            &&& candidate_of(candidate.key, kept.0.entries[candidate.key], later) is None
        }),
{
}

/// A container that was used after it was found idle is not stopped for that.
pub proof fn law_use_saves_an_idle_container(
    table: SessionTableView,
    key: SessionKeyView,
    ready: ReadySessionView,
    candidate: ReapCandidateView,
    now: u64,
    pinged: SessionHealth,
    later: u64,
)
    requires
        table.entry(key) == Some(SessionEntryView::Ready(ready)),
        table.lease_fits(key),
        candidate_of(key, SessionEntryView::Ready(ready), now) == Some(candidate),
        !candidate.expired,
    ensures
        !decide_reap_step(begin_acquire_step(table, key, now).0, candidate, pinged, later).1,
{
}

/// Three failed checks in a row end a container, and fewer do not.
pub proof fn law_three_failed_checks_stop(
    table: SessionTableView,
    key: SessionKeyView,
    ready: ReadySessionView,
    now: u64,
)
    requires
        table.entry(key) == Some(SessionEntryView::Ready(ready)),
        ready.failed_checks == 0,
    ensures
        ({
            let generation = ready.generation;
            let one = record_health_step(table, key, generation, SessionHealth::Unhealthy, now);
            let two = record_health_step(one.0, key, generation, SessionHealth::Unhealthy, now);
            let three = record_health_step(two.0, key, generation, SessionHealth::Unhealthy, now);
            !one.1 && !two.1 && three.1
        }),
{
}

/// A good answer starts the count of failed checks again.
pub proof fn law_good_check_resets_the_count(
    table: SessionTableView,
    key: SessionKeyView,
    ready: ReadySessionView,
    now: u64,
    health: SessionHealth,
)
    requires
        table.entry(key) == Some(SessionEntryView::Ready(ready)),
        health != SessionHealth::Unhealthy,
    ensures
        ({
            let step = record_health_step(table, key, ready.generation, health, now);
            &&& !step.1
            &&& step.0.entry(key) matches Some(SessionEntryView::Ready(checked))
                && checked.failed_checks == 0
        }),
{
}

/// A session whose deployment has drifted starts nothing, and stopping it does not unblock it.
pub proof fn law_drifted_session_is_blocked(
    table: SessionTableView,
    key: SessionKeyView,
    message: Seq<char>,
    client_token: Option<Seq<char>>,
    now: u64,
)
    requires
        table.entry(key) == Some(SessionEntryView::Drifted { message }),
    ensures
        begin_acquire_step(table, key, now) == (
            table,
            AcquireStepView::Refused(SessionErrorView::DeploymentDrift(message)),
        ),
        begin_stop_step(table, key, client_token) == (table, StopPlanView::Complete),
{
}

/// A container is registered for a session only once.
pub proof fn law_adoption_is_exclusive(
    table: SessionTableView,
    key: SessionKeyView,
    container: SessionContainerView,
    lifecycle: LifecyclePolicy,
    now: u64,
    again: SessionContainerView,
)
    requires
        table.entry(key) is None,
    ensures
        ({
            let first = adopt_step(table, key, container, lifecycle, now);
            let second = adopt_step(first.0, key, again, lifecycle, now);
            &&& first.1 is Ok
            &&& second.1 == Err::<(), SessionErrorView>(already_registered())
            &&& second.0.entry(key) == first.0.entry(key)
        }),
{
}

/// Whatever number of starts a table has counted, the number given to a new one differs from the
/// last.
pub proof fn law_consecutive_starts_differ(table: SessionTableView, key: SessionKeyView, now: u64)
    requires
        table.entry(key) is None,
    ensures
        begin_acquire_step(table, key, now).1 matches AcquireStepView::Start { generation }
            && generation != table.generation,
{
}

// Times, on the clock.

/// What is listed to be ended, on the clock: a container whose last use lies its idle time back, or
/// more, while no request uses it; and one that came up its whole lifetime ago, or more.
pub proof fn law_idle_and_old_containers_are_listed(
    list: Seq<ReapCandidateView>,
    table: SessionTableView,
    now: u64,
    key: SessionKeyView,
    ready: ReadySessionView,
)
    requires
        are_candidates(list, table, now),
        table.entries.contains_key(key),
        table.entries[key] == SessionEntryView::Ready(ready),
        now >= ready.last_activity,
        now >= ready.started_at,
    ensures
        ({
            let unused = ready.active_requests == 0 && now - ready.last_activity
                >= ready.idle_timeout_seconds * 1_000_000_000;
            let old = now - ready.started_at >= ready.maximum_lifetime_seconds * 1_000_000_000;
            &&& (unused || old) ==> list.contains(
                ReapCandidateView {
                    key,
                    generation: ready.generation,
                    container: ready.container,
                    expired: old,
                    observed_last_activity: ready.last_activity,
                },
            )
            &&& !(unused || old) ==> forall|candidate: ReapCandidateView| #[trigger]
                list.contains(candidate) ==> candidate.key != key
        }),
{
}

/// Nothing is listed that is not up, and nothing twice.
pub proof fn law_only_containers_are_listed(
    list: Seq<ReapCandidateView>,
    table: SessionTableView,
    now: u64,
    candidate: ReapCandidateView,
)
    requires
        are_candidates(list, table, now),
        list.contains(candidate),
    ensures
        list.no_duplicates(),
        table.entries.contains_key(candidate.key),
        table.entries[candidate.key] matches SessionEntryView::Ready(ready) && ready.generation
            == candidate.generation && ready.container == candidate.container,
{
}

/// A listed container is stopped where it is still the same start, and either is old or has not been
/// used since; but not where it is idle and says that it is busy, which counts as use.
pub proof fn law_listed_containers_are_stopped(
    table: SessionTableView,
    candidate: ReapCandidateView,
    ready: ReadySessionView,
    pinged: SessionHealth,
    now: u64,
)
    requires
        table.entry(candidate.key) == Some(SessionEntryView::Ready(ready)),
    ensures
        ({
            let step = decide_reap_step(table, candidate, pinged, now);
            let spared = !candidate.expired && pinged == SessionHealth::HealthyBusy;
            &&& step.1 <==> !spared && ready.generation == candidate.generation && (
            candidate.expired || (ready.active_requests == 0 && ready.last_activity
                == candidate.observed_last_activity))
            &&& step.0.entry(candidate.key) == Some(
                SessionEntryView::Ready(
                    ReadySessionView {
                        last_activity: if spared {
                            now
                        } else {
                            ready.last_activity
                        },
                        ..ready
                    },
                ),
            )
        }),
{
}

/// A container that comes up counts from the time that it has been running, carries the times of its
/// runtime's lifecycle, and serves the one request that started it.
pub proof fn law_started_containers_are_ready(
    table: SessionTableView,
    key: SessionKeyView,
    generation: u64,
    container: SessionContainerView,
    lifecycle: LifecyclePolicy,
    now: u64,
)
    requires
        table.entry(key) == Some(SessionEntryView::Starting { generation }),
        container.age_nanos <= now,
    ensures
        ({
            let step = finish_start_step(
                table,
                key,
                generation,
                Ok(container),
                lifecycle,
                now,
            );
            &&& step.1 == StartFinishView::Leased { container }
            &&& step.0.generation == table.generation
            &&& step.0.entry(key) matches Some(SessionEntryView::Ready(ready))
                && ready.generation == generation && ready.container == container
                && ready.started_at + container.age_nanos == now && ready.last_activity == now
                && ready.active_requests == 1 && ready.idle_timeout_seconds
                == lifecycle.idle_timeout_seconds && ready.maximum_lifetime_seconds
                == lifecycle.maximum_lifetime_seconds && ready.failed_checks == 0
        }),
{
}

/// A container that is found at startup is the session's as if it had come up then, with no request
/// on it.
pub proof fn law_found_containers_are_ready(
    table: SessionTableView,
    key: SessionKeyView,
    container: SessionContainerView,
    lifecycle: LifecyclePolicy,
    now: u64,
)
    requires
        table.entry(key) is None,
        container.age_nanos <= now,
    ensures
        ({
            let step = adopt_step(table, key, container, lifecycle, now);
            &&& step.1 is Ok
            &&& step.0.entry(key) matches Some(SessionEntryView::Ready(ready)) && ready.container
                == container && ready.started_at + container.age_nanos == now
                && ready.last_activity == now && ready.active_requests == 0
                && ready.idle_timeout_seconds == lifecycle.idle_timeout_seconds
                && ready.maximum_lifetime_seconds == lifecycle.maximum_lifetime_seconds
                && ready.failed_checks == 0 && ready.generation == step.0.generation
                && step.0.generation != table.generation
        }),
{
}

/// A start that fails leaves the session failed with the reason, which whoever asks next is told.
pub proof fn law_failed_starts_are_remembered(
    table: SessionTableView,
    key: SessionKeyView,
    generation: u64,
    message: Seq<char>,
    lifecycle: LifecyclePolicy,
    now: u64,
    client_token: Option<Seq<char>>,
)
    requires
        table.entry(key) == Some(SessionEntryView::Starting { generation }),
    ensures
        ({
            let step = finish_start_step(table, key, generation, Err(message), lifecycle, now);
            &&& step.1 == StartFinishView::Failed {
                error: SessionErrorView::Provisioning(message),
            }
            &&& begin_acquire_step(step.0, key, now) == (
                step.0,
                AcquireStepView::Refused(SessionErrorView::Provisioning(message)),
            )
            &&& begin_stop_step(step.0, key, client_token).1 == StopPlanView::Complete
            &&& begin_stop_step(step.0, key, client_token).0.entry(key) is None
        }),
{
}

/// A request on a container that is up makes one more request, counts as use now, and gets that
/// container.
pub proof fn law_leases(table: SessionTableView, key: SessionKeyView, ready: ReadySessionView, now: u64)
    requires
        table.entry(key) == Some(SessionEntryView::Ready(ready)),
        ready.active_requests < usize::MAX,
    ensures
        ({
            let step = begin_acquire_step(table, key, now);
            &&& step.1 == AcquireStepView::Lease {
                generation: ready.generation,
                container: ready.container,
            }
            &&& step.0.generation == table.generation
            &&& step.0.entry(key) matches Some(SessionEntryView::Ready(after))
                && after.active_requests == ready.active_requests + 1 && after.last_activity == now
                && after.generation == ready.generation && after.container == ready.container
                && after.started_at == ready.started_at && after.idle_timeout_seconds
                == ready.idle_timeout_seconds && after.maximum_lifetime_seconds
                == ready.maximum_lifetime_seconds && after.failed_checks == ready.failed_checks
        }),
{
}

/// A request that is done leaves one fewer, but never fewer than none, and counts as use.
pub proof fn law_releases(
    table: SessionTableView,
    key: SessionKeyView,
    ready: ReadySessionView,
    now: u64,
)
    requires
        table.entry(key) == Some(SessionEntryView::Ready(ready)),
    ensures
        ({
            let after = release_step(table, key, ready.generation, now);
            let left = if ready.active_requests == 0 {
                0
            } else {
                ready.active_requests - 1
            };
            &&& after.generation == table.generation
            &&& after.entry(key) matches Some(SessionEntryView::Ready(changed))
                && changed.active_requests == left && changed.last_activity == now
                && changed == (ReadySessionView {
                active_requests: changed.active_requests,
                last_activity: changed.last_activity,
                ..ready
            })
        }),
{
}

/// A session without compute is started under the next number, and until that is decided it counts
/// as starting.
pub proof fn law_starts(table: SessionTableView, key: SessionKeyView, now: u64)
    requires
        table.entry(key) is None,
        table.generation < u64::MAX,
    ensures
        ({
            let step = begin_acquire_step(table, key, now);
            let generation = (table.generation + 1) as u64;
            &&& step.1 == AcquireStepView::Start { generation }
            &&& step.0.generation == generation
            &&& step.0.entry(key) == Some(SessionEntryView::Starting { generation })
        }),
{
}

/// A health check changes nothing but the count of failed checks and, for a busy container, the time
/// of its last use. It asks for the end of the container exactly at the third failure in a row.
pub proof fn law_health_checks(
    table: SessionTableView,
    key: SessionKeyView,
    ready: ReadySessionView,
    health: SessionHealth,
    now: u64,
)
    requires
        table.entry(key) == Some(SessionEntryView::Ready(ready)),
        ready.failed_checks <= 3,
    ensures
        ({
            let step = record_health_step(table, key, ready.generation, health, now);
            let failed = if health != SessionHealth::Unhealthy {
                0
            } else if ready.failed_checks < 3 {
                ready.failed_checks + 1
            } else {
                3
            };
            &&& step.1 <==> failed == 3
            &&& step.0.entry(key) matches Some(SessionEntryView::Ready(after))
                && after.failed_checks == failed && after.last_activity == (if health
                == SessionHealth::HealthyBusy {
                now
            } else {
                ready.last_activity
            }) && after == (ReadySessionView {
                failed_checks: after.failed_checks,
                last_activity: after.last_activity,
                ..ready
            })
        }),
{
}

/// A container whose end did not work out stays with the session as failed, and one whose end did
/// leaves the session without compute.
pub proof fn law_finished_stops(
    table: SessionTableView,
    key: SessionKeyView,
    generation: u64,
    client_token: Option<Seq<char>>,
    container: SessionContainerView,
    message: Seq<char>,
)
    requires
        table.entry(key) == Some(SessionEntryView::Stopping { generation, client_token }),
    ensures
        finish_stop_step(table, key, generation, container, Ok(())).entry(key) is None,
        finish_stop_step(table, key, generation, container, Err(message)).entry(key) == Some(
            SessionEntryView::Failed {
                generation,
                message: "session cleanup must be retried: "@ + message,
                container: Some(container),
            },
        ),
{
}

/// The errors of a session are told in these words.
pub proof fn law_session_error_texts(m: Seq<char>)
    ensures
        SessionErrorView::RetryableConflict(m).text() == "retryable session conflict: "@ + m,
        SessionErrorView::Provisioning(m).text() == "session provisioning failed: "@ + m,
        SessionErrorView::Command(m).text() == "session command failed: "@ + m,
        SessionErrorView::StoppedDuringProvisioning.text()
            == "session was stopped during provisioning"@,
        SessionErrorView::Stopping(m).text() == "session stop failed: "@ + m,
{
}

/// The list of starts with a container to clean up holds those of failed sessions, and no other.
pub proof fn law_failed_cleanups_are_listed(
    list: Seq<(SessionKeyView, u64)>,
    table: SessionTableView,
    key: SessionKeyView,
    generation: u64,
)
    requires
        are_failed_cleanups(list, table),
    ensures
        list.contains((key, generation)) <==> (table.entry(key) matches Some(
            SessionEntryView::Failed { generation: failed, container, .. },
        ) && failed == generation && container is Some),
{
}

/// The list of containers that are up holds each of them.
pub proof fn law_running_containers_are_listed(
    list: Seq<RunningSessionView>,
    table: SessionTableView,
    key: SessionKeyView,
    ready: ReadySessionView,
)
    requires
        are_running(list, table),
        table.entry(key) == Some(SessionEntryView::Ready(ready)),
    ensures
        list.contains(
            RunningSessionView { key, generation: ready.generation, container: ready.container },
        ),
        forall|running: RunningSessionView| #[trigger]
            list.contains(running) ==> (table.entry(running.key) matches Some(
                SessionEntryView::Ready(up),
            ) && up.container == running.container && up.generation == running.generation),
{
}

/// A stop ends what runs and waits for what starts. A stop that goes on is waited for by whoever has
/// its token, and is in the way of anybody else. What is not there, or is held back, needs no stop.
pub proof fn law_stops(
    table: SessionTableView,
    key: SessionKeyView,
    token: Option<Seq<char>>,
    ready: ReadySessionView,
    generation: u64,
    message: Seq<char>,
    container: SessionContainerView,
    active: Option<Seq<char>>,
)
    ensures
        ({
            let entry = table.entry(key);
            let step = begin_stop_step(table, key, token);
            let after = step.0.entry(key);
            &&& entry is None ==> step == (table, StopPlanView::Complete)
            &&& entry == Some(SessionEntryView::Drifted { message }) ==> step == (
                table,
                StopPlanView::Complete,
            )
            &&& entry == Some(SessionEntryView::Ready(ready)) ==> step.1 == (StopPlanView::Stop {
                generation: ready.generation,
                container: ready.container,
            }) && after == Some(
                SessionEntryView::Stopping { generation: ready.generation, client_token: token },
            )
            &&& entry == Some(SessionEntryView::Starting { generation }) ==> step.1 == (
            StopPlanView::Wait { generation }) && after == Some(
                SessionEntryView::Stopping { generation, client_token: token },
            )
            &&& entry == Some(
                SessionEntryView::Failed { generation, message, container: Some(container) },
            ) ==> step.1 == (StopPlanView::Stop { generation, container }) && after == Some(
                SessionEntryView::Stopping { generation, client_token: token },
            )
            &&& entry == Some(SessionEntryView::Failed { generation, message, container: None })
                ==> step.1 == StopPlanView::Complete && after is None
            &&& entry == Some(SessionEntryView::Stopping { generation, client_token: active })
                && active == token ==> step == (table, StopPlanView::Wait { generation })
            &&& entry == Some(SessionEntryView::Stopping { generation, client_token: active })
                && active != token ==> step.0 == table && (step.1 matches StopPlanView::Refused(
                SessionErrorView::RetryableConflict(_),
            ))
        }),
{
}

/// The reaper stops the very container that it found, running or failed, under a token of its own;
/// one that came since is left alone.
pub proof fn law_reaps(
    table: SessionTableView,
    key: SessionKeyView,
    expected: u64,
    ready: ReadySessionView,
    generation: u64,
    message: Seq<char>,
    container: SessionContainerView,
)
    ensures
        ({
            let entry = table.entry(key);
            let step = begin_reap_step(table, key, expected);
            let stopping = Some(
                SessionEntryView::Stopping {
                    generation: expected,
                    client_token: Some("lifecycle-reaper"@),
                },
            );
            &&& entry == Some(SessionEntryView::Ready(ready)) && ready.generation == expected
                ==> step.1 == Some(ready.container) && step.0.entry(key) == stopping
            &&& entry == Some(
                SessionEntryView::Failed { generation, message, container: Some(container) },
            ) && generation == expected ==> step.1 == Some(container) && step.0.entry(key)
                == stopping
            &&& entry == Some(SessionEntryView::Ready(ready)) && ready.generation != expected
                ==> step == (table, None::<SessionContainerView>)
            &&& entry == Some(
                SessionEntryView::Failed { generation, message, container: Some(container) },
            ) && generation != expected ==> step == (table, None::<SessionContainerView>)
            &&& entry is None ==> step == (table, None::<SessionContainerView>)
        }),
{
}

/// A session that is there but not ready refuses requests, each for its own reason, and stays as it
/// is.
pub proof fn law_refused_requests(
    table: SessionTableView,
    key: SessionKeyView,
    now: u64,
    generation: u64,
    message: Seq<char>,
    container: Option<SessionContainerView>,
    token: Option<Seq<char>>,
)
    ensures
        ({
            let entry = table.entry(key);
            let step = begin_acquire_step(table, key, now);
            &&& entry == Some(SessionEntryView::Starting { generation }) ==> step == (
                table,
                AcquireStepView::Refused(
                    SessionErrorView::RetryableConflict("runtime session is starting"@),
                ),
            )
            &&& entry == Some(SessionEntryView::Stopping { generation, client_token: token })
                ==> step == (
                table,
                AcquireStepView::Refused(
                    SessionErrorView::RetryableConflict("runtime session is stopping"@),
                ),
            )
            &&& entry == Some(SessionEntryView::Failed { generation, message, container }) ==> step
                == (table, AcquireStepView::Refused(SessionErrorView::Provisioning(message)))
            &&& entry == Some(SessionEntryView::Drifted { message }) ==> step == (
                table,
                AcquireStepView::Refused(SessionErrorView::DeploymentDrift(message)),
            )
        }),
{
}

/// A start that is given up leaves nothing behind, and tells whether somebody was waiting to stop
/// it; one that is not the current one changes nothing.
pub proof fn law_interrupted_starts(
    table: SessionTableView,
    key: SessionKeyView,
    generation: u64,
    token: Option<Seq<char>>,
)
    ensures
        ({
            let entry = table.entry(key);
            let step = interrupt_start_step(table, key, generation);
            let starting = entry == Some(SessionEntryView::Starting { generation });
            let stopping = entry == Some(
                SessionEntryView::Stopping { generation, client_token: token },
            );
            &&& starting ==> step.0.entry(key) is None && !step.1
            &&& stopping ==> step.0.entry(key) is None && step.1
            &&& entry is None || entry->Some_0 is Ready || entry->Some_0 is Failed
                || entry->Some_0 is Drifted ==> step == (table, false)
        }),
{
}

/// A session that no longer fits its deployment is held back with the reason, and a session that is
/// there already is not registered again.
pub proof fn law_registered_sessions(
    table: SessionTableView,
    key: SessionKeyView,
    message: Seq<char>,
    container: SessionContainerView,
    lifecycle: LifecyclePolicy,
    now: u64,
)
    ensures
        ({
            let drifted = restore_drifted_step(table, key, message);
            let adopted = adopt_step(table, key, container, lifecycle, now);
            &&& table.entry(key) is None ==> drifted.1 is Ok && drifted.0.entry(key) == Some(
                SessionEntryView::Drifted { message },
            )
            &&& table.entry(key) is None ==> adopted.1 is Ok && (adopted.0.entry(key) matches Some(
                SessionEntryView::Ready(ready),
            ) && ready.container == container && ready.active_requests == 0)
            &&& table.entry(key) is Some ==> drifted.1 is Err && drifted.0.entry(key)
                == table.entry(key)
            &&& table.entry(key) is Some ==> adopted.1 is Err && adopted.0.entry(key)
                == table.entry(key)
            &&& drifted.1 matches Err(e) ==> e is RetryableConflict
            &&& adopted.1 matches Err(e) ==> e is RetryableConflict
        }),
{
}

/// Looking up a session, and putting and taking one, is what it says.
pub proof fn law_entries(
    table: SessionTableView,
    key: SessionKeyView,
    other: SessionKeyView,
    entry: SessionEntryView,
)
    ensures
        table.entry(key) is Some <==> table.entries.dom().contains(key),
        table.entry(key) is Some ==> table.entry(key) == Some(table.entries[key]),
        table.with(key, entry).entry(key) == Some(entry),
        table.without(key).entry(key) is None,
        other != key ==> table.with(key, entry).entry(other) == table.entry(other)
            && table.without(key).entry(other) == table.entry(other),
        table.with(key, entry).generation == table.generation,
        table.generation < u64::MAX ==> table.next() == table.generation + 1
            && table.counted().generation == table.generation + 1,
        table.counted().entries == table.entries,
{
}

} // verus!
