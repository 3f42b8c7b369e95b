//! What holds of the records of sessions, and of what is restored from them.

use vstd::prelude::*;

use crate::catalog::{requested_id, resolved_stored, RuntimeCatalogView};
use crate::container::AdoptedSessionView;
use crate::pins::{pinned_for, pinned_step, record_checked};
use crate::runtime::{LocalIdentityView, ResolvedRuntimeView};
use crate::session_map::SessionKeyView;
use crate::session_store::{
    kept_or, located, marked_ready, marked_stopped, merged, new_record, row_of_record, schema_step,
    state_of, touched, SchemaStep, SessionRecordView, SessionStoreErrorView, StoredSessionState,
};
use crate::startup::{
    adopts_each, by_session, legacy_steps, ping_status_of, restore_step_of, restore_work_name,
    stored_steps, RestoreStepView, RestoreWork,
};

verus! {

/// A new session is recorded under its runtime and its own identifier, with the deployment that it
/// is pinned to. It starts stopped, without a container, with nothing wrong, and as old as it is
/// idle.
pub proof fn law_new_records(
    runtime: ResolvedRuntimeView,
    runtime_session_id: Seq<char>,
    volume_name: Seq<char>,
    now_unix_millis: i64,
)
    ensures
        ({
            let record = new_record(runtime, runtime_session_id, volume_name, now_unix_millis);
            &&& record.key.runtime_arn == runtime.runtime_arn
            &&& record.key.qualifier == runtime.qualifier
            &&& record.key.runtime_session_id == runtime_session_id
            &&& record.catalog_generation == runtime.catalog_generation
            &&& record.image == runtime.image
            &&& record.image_id == runtime.image_id
            &&& record.volume_name == volume_name
            &&& record.created_at_unix_millis == now_unix_millis
            &&& record.last_activity_at_unix_millis == now_unix_millis
            &&& record.compute_started_at_unix_millis is None
            &&& record.state == StoredSessionState::Stopped
            &&& record.last_error is None
            &&& record.last_stop_token is None
        }),
{
}

/// A session that is ready has a container that was started, and nothing is left of a stop or an
/// error.
pub proof fn law_ready_records(
    before: SessionRecordView,
    key: SessionKeyView,
    started_at: i64,
    active_at: i64,
)
    ensures
        marked_ready(Some(before), key, started_at, active_at) matches Ok(after) && {
            &&& after.state == StoredSessionState::Ready
            &&& after.compute_started_at_unix_millis == Some(started_at)
            &&& after.last_activity_at_unix_millis == active_at
            &&& after.last_error is None
            &&& after.last_stop_token is None
            &&& after.key == before.key
            &&& after.catalog_generation == before.catalog_generation
            &&& after.image == before.image
            &&& after.image_id == before.image_id
            &&& after.volume_name == before.volume_name
            &&& after.created_at_unix_millis == before.created_at_unix_millis
        },
{
}

/// A session that is stopped has no container, and keeps the error and the token of its stop.
pub proof fn law_stopped_records(
    before: SessionRecordView,
    key: SessionKeyView,
    active_at: i64,
    error: Option<Seq<char>>,
    token: Option<Seq<char>>,
)
    ensures
        marked_stopped(Some(before), key, active_at, error, token) matches Ok(after) && {
            &&& after.state == StoredSessionState::Stopped
            &&& after.compute_started_at_unix_millis is None
            &&& after.last_activity_at_unix_millis == active_at
            &&& after.last_error == error
            &&& after.last_stop_token == token
            &&& after.key == before.key
            &&& after.catalog_generation == before.catalog_generation
            &&& after.image == before.image
            &&& after.image_id == before.image_id
            &&& after.volume_name == before.volume_name
            &&& after.created_at_unix_millis == before.created_at_unix_millis
        },
{
}

/// Use of a session changes when it was last used, and nothing else.
pub proof fn law_touched_records(before: SessionRecordView, key: SessionKeyView, active_at: i64)
    ensures
        touched(Some(before), key, active_at) matches Ok(after) && {
            &&& after.last_activity_at_unix_millis == active_at
            &&& before == (SessionRecordView {
                last_activity_at_unix_millis: before.last_activity_at_unix_millis,
                ..after
            })
        },
{
}

/// A session that is written once more keeps the time that it was created at; all else is as it is
/// written. One that is only to be there stays as it is.
pub proof fn law_rewritten_records(before: SessionRecordView, record: SessionRecordView)
    ensures
        merged(Some(before), record).created_at_unix_millis == before.created_at_unix_millis,
        record == (SessionRecordView {
            created_at_unix_millis: record.created_at_unix_millis,
            ..merged(Some(before), record)
        }),
        merged(None, record) == record,
        kept_or(Some(before), record) == before,
        kept_or(None, record) == record,
{
}

/// What a row says of a session, column by column.
pub proof fn law_rows(record: SessionRecordView)
    ensures
        ({
            let row = row_of_record(record);
            &&& row.runtime_arn == record.key.runtime_arn
            &&& row.qualifier == record.key.qualifier
            &&& row.runtime_session_id == record.key.runtime_session_id
            &&& row.catalog_generation == record.catalog_generation
            &&& row.image == record.image
            &&& row.image_id == record.image_id
            &&& row.volume_name == record.volume_name
            &&& row.created_at_unix_millis == record.created_at_unix_millis
            &&& row.last_activity_at_unix_millis == record.last_activity_at_unix_millis
            &&& row.compute_started_at_unix_millis == record.compute_started_at_unix_millis
            &&& record.state == StoredSessionState::Ready ==> row.state == "ready"@
            &&& record.state == StoredSessionState::Stopped ==> row.state == "stopped"@
            &&& row.last_error == record.last_error
            &&& row.last_stop_token == record.last_stop_token
        }),
{
}

/// The two states go by their names, and nothing else is a state.
pub proof fn law_states(name: Seq<char>)
    ensures
        state_of("ready"@) == Ok::<StoredSessionState, SessionStoreErrorView>(
            StoredSessionState::Ready,
        ),
        state_of("stopped"@) == Ok::<StoredSessionState, SessionStoreErrorView>(
            StoredSessionState::Stopped,
        ),
        name != "ready"@ && name != "stopped"@ ==> state_of(name) == Err::<
            StoredSessionState,
            SessionStoreErrorView,
        >(SessionStoreErrorView::InvalidState(name)),
{
    reveal_strlit("ready");
    reveal_strlit("stopped");
    assert("ready"@.len() == 5 && "stopped"@.len() == 7);
}

/// An empty store is set up, one of the first version is used as it is, and any other is left alone.
pub proof fn law_schemas(version: i64)
    ensures
        schema_step(0) == Ok::<SchemaStep, SessionStoreErrorView>(SchemaStep::Create),
        schema_step(1) == Ok::<SchemaStep, SessionStoreErrorView>(SchemaStep::Keep),
        version != 0 && version != 1 ==> schema_step(version) == Err::<
            SchemaStep,
            SessionStoreErrorView,
        >(SessionStoreErrorView::UnsupportedSchema(version)),
{
}

/// The store is where the settings say, and nowhere where they say nothing.
pub proof fn law_located_stores(path: Seq<char>)
    ensures
        located(Some(path)) == Ok::<Seq<char>, SessionStoreErrorView>(path),
        located(None) matches Err(SessionStoreErrorView::InvalidPath(_)),
{
}

// Pins.

/// A session is still what it was pinned to exactly where the generation, the image and the image's
/// identity are the recorded ones.
pub proof fn law_drift(deployment: ResolvedRuntimeView, record: SessionRecordView)
    ensures
        record_checked(deployment, record) is Ok <==> deployment.catalog_generation
            == record.catalog_generation && deployment.image == record.image && deployment.image_id
            == record.image_id,
        record_checked(deployment, record) matches Err(e) ==> e is DeploymentDrift,
{
}

/// The first runtime of a session stays; other sessions are not touched.
pub proof fn law_pinning(
    pins: Map<SessionKeyView, ResolvedRuntimeView>,
    key: SessionKeyView,
    runtime: ResolvedRuntimeView,
    other: SessionKeyView,
)
    ensures
        ({
            let after = pinned_step(pins, key, runtime);
            &&& after.dom().contains(key)
            &&& !pins.dom().contains(key) ==> after[key] == runtime
            &&& pins.dom().contains(key) ==> after[key] == pins[key]
            &&& other != key ==> (after.dom().contains(other) <==> pins.dom().contains(other))
            &&& other != key && pins.dom().contains(other) ==> after[other] == pins[other]
        }),
{
}

/// The runtime that a request means is the one that its session is pinned to: that of the caller's
/// own region and account, of the qualifier asked for or the default one, and of this session.
pub proof fn law_pinned_runtimes(
    pins: Map<SessionKeyView, ResolvedRuntimeView>,
    identifier: Seq<char>,
    account_id: Option<Seq<char>>,
    qualifier: Option<Seq<char>>,
    runtime_session_id: Seq<char>,
    identity: LocalIdentityView,
)
    ensures
        ({
            let found = pinned_for(
                pins,
                identifier,
                account_id,
                qualifier,
                runtime_session_id,
                identity,
            );
            let id = requested_id(identifier, account_id, identity);
            let key = SessionKeyView {
                runtime_arn: "arn:aws:bedrock-agentcore:"@ + identity.region + ":"@
                    + identity.account_id + ":runtime/"@ + id->Ok_0,
                qualifier: if qualifier is Some {
                    qualifier->Some_0
                } else {
                    "DEFAULT"@
                },
                runtime_session_id,
            };
            &&& found is Some <==> id is Ok && pins.dom().contains(key)
            &&& found is Some ==> found == Some(pins[key])
        }),
{
}

// What is restored.

/// A stored session whose deployment is still there comes back with its container, or without one
/// where none was found; any other is held back under its own name, and its container goes.
pub proof fn law_restored_sessions(
    catalog: RuntimeCatalogView,
    record: SessionRecordView,
    found: Option<AdoptedSessionView>,
)
    ensures
        ({
            let deployment = resolved_stored(
                catalog,
                record.key.runtime_arn,
                Some(record.key.qualifier),
            );
            let fits = deployment is Ok && deployment->Ok_0.catalog_generation
                == record.catalog_generation && deployment->Ok_0.image == record.image
                && deployment->Ok_0.image_id == record.image_id;
            let step = restore_step_of(catalog, record, found);
            &&& fits && found is Some ==> step == RestoreStepView::Adopt(found->Some_0)
            &&& fits && found is None ==> step == (RestoreStepView::RestoreStopped {
                key: record.key,
                runtime: deployment->Ok_0,
            })
            &&& !fits ==> step is Quarantine && step->Quarantine_key == record.key
            &&& !fits && found is Some ==> step->compute == Some(found->Some_0.container)
            &&& !fits && found is None ==> step->compute is None
        }),
{
}

/// The last container of a session is the one that counts.
pub proof fn law_containers_by_session(
    found: Seq<AdoptedSessionView>,
    last: AdoptedSessionView,
    key: SessionKeyView,
)
    ensures
        by_session(Seq::empty()) == Map::<SessionKeyView, AdoptedSessionView>::empty(),
        by_session(found.push(last)).dom().contains(last.key),
        by_session(found.push(last))[last.key] == last,
        key != last.key ==> (by_session(found.push(last)).dom().contains(key) <==> by_session(
            found,
        ).dom().contains(key)),
        key != last.key && by_session(found).dom().contains(key) ==> by_session(
            found.push(last),
        )[key] == by_session(found)[key],
{
    assert(found.push(last).drop_last() =~= found);
}

/// The containers that no record speaks of are left over, and no other.
pub proof fn law_containers_without_a_record(
    catalog: RuntimeCatalogView,
    records: Seq<SessionRecordView>,
    found: Map<SessionKeyView, AdoptedSessionView>,
    key: SessionKeyView,
)
    ensures
        ({
            let left = stored_steps(catalog, records, found).1;
            &&& left.dom().contains(key) <==> found.dom().contains(key) && forall|i: int|
                0 <= i < records.len() ==> (#[trigger] records[i]).key != key
            &&& left.dom().contains(key) ==> left[key] == found[key]
        }),
    decreases records.len(),
{
    if records.len() > 0 {
        let rest = records.drop_last();
        law_containers_without_a_record(catalog, rest, found, key);
        assert forall|i: int| 0 <= i < rest.len() implies #[trigger] rest[i] == records[i] by {}
        let left = stored_steps(catalog, records, found).1;
        if left.dom().contains(key) {
            assert forall|i: int| 0 <= i < records.len() implies (#[trigger] records[i]).key
                != key by {
                if i < rest.len() {
                    assert(rest[i] == records[i]);
                }
            }
        }
        if found.dom().contains(key) && (forall|i: int|
            0 <= i < records.len() ==> (#[trigger] records[i]).key != key) {
            assert forall|i: int| 0 <= i < rest.len() implies (#[trigger] rest[i]).key != key by {
                assert(rest[i] == records[i]);
            }
            assert(records[records.len() - 1].key != key);
        }
    }
}

/// Each container that is left over is taken over as it is.
pub proof fn law_legacy_containers(
    left: Map<SessionKeyView, AdoptedSessionView>,
    keys: Seq<SessionKeyView>,
    i: int,
)
    requires
        0 <= i < keys.len(),
    ensures
        legacy_steps(left, keys).len() == keys.len(),
        legacy_steps(left, keys)[i] == RestoreStepView::AdoptLegacy(left[keys[i]]),
{
}

/// Every container that is left over is taken over once, and nothing else is.
pub proof fn law_left_containers_are_taken_over(
    left: Map<SessionKeyView, AdoptedSessionView>,
    steps: Seq<RestoreStepView>,
    key: SessionKeyView,
    i: int,
)
    requires
        adopts_each(left, steps),
    ensures
        left.dom().contains(key) ==> steps.contains(RestoreStepView::AdoptLegacy(left[key])),
        0 <= i < steps.len() ==> exists|k: SessionKeyView|
            left.dom().contains(k) && steps[i] == RestoreStepView::AdoptLegacy(#[trigger] left[k]),
{
    let keys = choose|keys: Seq<SessionKeyView>|
        keys.no_duplicates() && (forall|k: SessionKeyView|
            keys.contains(k) <==> left.contains_key(k)) && steps == #[trigger] legacy_steps(
            left,
            keys,
        );
    if left.dom().contains(key) {
        assert(left.contains_key(key));
        assert(keys.contains(key));
        let at = choose|at: int| 0 <= at < keys.len() && keys[at] == key;
        assert(steps[at] == RestoreStepView::AdoptLegacy(left[key]));
    }
    if 0 <= i < steps.len() {
        assert(keys.contains(keys[i]));
        assert(left.contains_key(keys[i]));
        assert(steps[i] == RestoreStepView::AdoptLegacy(left[keys[i]]));
    }
}

/// What failed is said before why it failed.
pub proof fn law_restore_errors()
    ensures
        restore_work_name(RestoreWork::RemoveCompute)
            == "failed to remove drifted runtime session compute: "@,
        restore_work_name(RestoreWork::Quarantine)
            == "failed to quarantine drifted runtime session: "@,
        restore_work_name(RestoreWork::Adopt) == "failed to adopt stored runtime session: "@,
        restore_work_name(RestoreWork::RestoreStopped)
            == "failed to restore stopped runtime session: "@,
        restore_work_name(RestoreWork::AdoptLegacy) == "failed to adopt legacy runtime session: "@,
{
}

/// The gateway is busy exactly where it says so.
pub proof fn law_ping_statuses(busy: bool)
    ensures
        busy <==> ping_status_of(busy) == "HealthyBusy"@,
        !busy <==> ping_status_of(busy) == "Healthy"@,
{
    reveal_strlit("Healthy");
    reveal_strlit("HealthyBusy");
    assert("Healthy"@.len() == 7 && "HealthyBusy"@.len() == 11);
}

} // verus!
