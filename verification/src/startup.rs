//! Coming up: what becomes of the sessions of an earlier run, and what is said of the gateway.

use vstd::prelude::*;

use crate::catalog::{resolved_stored, RuntimeCatalogView};
use crate::config::ConfigError;
use crate::container::{AdoptedSession, AdoptedSessionView};
use crate::images::DockerBackendError;
use crate::pins::{matches_record, record_checked, validate_record};
use crate::registry::{RuntimeRegistry, RuntimeRegistryHealth};
use crate::runtime::{ResolvedRuntime, ResolvedRuntimeView};
use crate::session::{SessionContainer, SessionContainerView, SessionError};
use crate::session_map::{SessionKey, SessionKeyView, SessionMap};
use crate::session_store::{SessionRecord, SessionRecordView, SessionStoreError};
use crate::text::{cat2, cat4, views};

verus! {

/// Why the gateway could not come up.
#[derive(Debug)]
pub struct StartupError {
    message: String,
}

impl View for StartupError {
    type V = Seq<char>;

    closed spec fn view(&self) -> Seq<char> {
        self.message@
    }
}

impl StartupError {
    pub fn message(&self) -> (r: &str)
        ensures
            r@ == self@,
    {
        self.message.as_str()
    }
}

impl vstd::std_specs::convert::FromSpecImpl<ConfigError> for StartupError {
    open spec fn obeys_from_spec() -> bool {
        false
    }

    open spec fn from_spec(v: ConfigError) -> Self {
        arbitrary()
    }
}

impl From<ConfigError> for StartupError {
    fn from(error: ConfigError) -> (r: Self)
        ensures
            r@ == error@.text(),
    {
        StartupError { message: error.message() }
    }
}

impl vstd::std_specs::convert::FromSpecImpl<SessionStoreError> for StartupError {
    open spec fn obeys_from_spec() -> bool {
        false
    }

    open spec fn from_spec(v: SessionStoreError) -> Self {
        arbitrary()
    }
}

impl From<SessionStoreError> for StartupError {
    fn from(error: SessionStoreError) -> (r: Self)
        ensures
            r@ == error@.text(),
    {
        StartupError { message: error.message() }
    }
}

impl vstd::std_specs::convert::FromSpecImpl<DockerBackendError> for StartupError {
    open spec fn obeys_from_spec() -> bool {
        false
    }

    open spec fn from_spec(v: DockerBackendError) -> Self {
        arbitrary()
    }
}

impl From<DockerBackendError> for StartupError {
    fn from(error: DockerBackendError) -> (r: Self)
        ensures
            r@ == error@.text(),
    {
        StartupError { message: error.message() }
    }
}

// The sessions of an earlier run.

/// What becomes of a session of an earlier run.
pub enum RestoreStep {
    /// The session is blocked, and its container, where it has one, removed first.
    Quarantine { key: SessionKey, message: String, compute: Option<SessionContainer> },
    /// The session goes on in its container.
    Adopt(AdoptedSession),
    /// The session waits, without a container, for its next request.
    RestoreStopped { key: SessionKey, runtime: ResolvedRuntime },
    /// A container whose session was never recorded is kept.
    AdoptLegacy(AdoptedSession),
}

#[verifier::ext_equal]
pub enum RestoreStepView {
    Quarantine { key: SessionKeyView, message: Seq<char>, compute: Option<SessionContainerView> },
    Adopt(AdoptedSessionView),
    RestoreStopped { key: SessionKeyView, runtime: ResolvedRuntimeView },
    AdoptLegacy(AdoptedSessionView),
}

impl View for RestoreStep {
    type V = RestoreStepView;

    open spec fn view(&self) -> RestoreStepView {
        match self {
            RestoreStep::Quarantine { key, message, compute } => RestoreStepView::Quarantine {
                key: key@,
                message: message@,
                compute: crate::session::opt_container(*compute),
            },
            RestoreStep::Adopt(session) => RestoreStepView::Adopt(session@),
            RestoreStep::RestoreStopped { key, runtime } => RestoreStepView::RestoreStopped {
                key: key@,
                runtime: runtime@,
            },
            RestoreStep::AdoptLegacy(session) => RestoreStepView::AdoptLegacy(session@),
        }
    }
}

/// The deployment that a stored session was pinned to, or why it has none any more.
pub open spec fn stored_deployment(catalog: RuntimeCatalogView, record: SessionRecordView) -> Result<
    ResolvedRuntimeView,
    Seq<char>,
> {
    match resolved_stored(catalog, record.key.runtime_arn, Some(record.key.qualifier)) {
        Err(error) => Err(
            "stored runtime session "@ + record.key.runtime_session_id
                + " cannot resolve its deployment pin: "@ + error.text(),
        ),
        Ok(deployment) => match record_checked(deployment, record) {
            Ok(_) => Ok(deployment),
            Err(error) => Err(error->DeploymentDrift_0),
        },
    }
}

/// What becomes of a stored session when this container of it was found running.
pub open spec fn restore_step_of(
    catalog: RuntimeCatalogView,
    record: SessionRecordView,
    found: Option<AdoptedSessionView>,
) -> RestoreStepView {
    match stored_deployment(catalog, record) {
        Err(message) => RestoreStepView::Quarantine {
            key: record.key,
            message,
            compute: match found {
                Some(session) => Some(session.container),
                None => None,
            },
        },
        Ok(deployment) => match found {
            Some(session) => RestoreStepView::Adopt(session),
            None => RestoreStepView::RestoreStopped { key: record.key, runtime: deployment },
        },
    }
}

fn find_deployment(registry: &RuntimeRegistry, record: &SessionRecord) -> (r: Result<
    ResolvedRuntime,
    String,
>)
    ensures
        crate::text::agrees(r, stored_deployment(registry@.catalog, record@)),
{
    match registry.resolve_stored(
        record.key.runtime_arn.as_str(),
        Some(record.key.qualifier.as_str()),
    ) {
        Err(error) => Err(
            cat4(
                "stored runtime session ",
                record.key.runtime_session_id.as_str(),
                " cannot resolve its deployment pin: ",
                error.message().as_str(),
            ),
        ),
        Ok(deployment) => match validate_record(&deployment, record) {
            Ok(_) => Ok(deployment),
            Err(SessionError::DeploymentDrift(message)) => Err(message),
            Err(error) => Err(error.message()),
        },
    }
}

/// Decides on a stored session, of which this container was found running.
pub fn restore_step(
    registry: &RuntimeRegistry,
    record: &SessionRecord,
    found: Option<AdoptedSession>,
) -> (r: RestoreStep)
    ensures
        r@ == restore_step_of(
            registry@.catalog,
            record@,
            (match found {
                Some(session) => Some(session@),
                None => None,
            }),
        ),
{
    match find_deployment(registry, record) {
        Err(message) => RestoreStep::Quarantine {
            key: record.key.clone(),
            message,
            compute: match found {
                Some(session) => Some(session.container),
                None => None,
            },
        },
        Ok(deployment) => match found {
            Some(session) => RestoreStep::Adopt(session),
            None => RestoreStep::RestoreStopped { key: record.key.clone(), runtime: deployment },
        },
    }
}

/// The containers that were found, by session; the last one of a session counts.
pub open spec fn by_session(found: Seq<AdoptedSessionView>) -> Map<SessionKeyView, AdoptedSessionView>
    decreases found.len(),
{
    if found.len() == 0 {
        Map::empty()
    } else {
        by_session(found.drop_last()).insert(found.last().key, found.last())
    }
}

/// What becomes of the stored sessions, in order, and which containers are left.
pub open spec fn stored_steps(
    catalog: RuntimeCatalogView,
    records: Seq<SessionRecordView>,
    found: Map<SessionKeyView, AdoptedSessionView>,
) -> (Seq<RestoreStepView>, Map<SessionKeyView, AdoptedSessionView>)
    decreases records.len(),
{
    if records.len() == 0 {
        (Seq::empty(), found)
    } else {
        let (steps, left) = stored_steps(catalog, records.drop_last(), found);
        let key = records.last().key;
        let own = if left.contains_key(key) {
            Some(left[key])
        } else {
            None
        };
        (steps.push(restore_step_of(catalog, records.last(), own)), left.remove(key))
    }
}

/// Whether the steps adopt each of some containers once.
pub open spec fn adopts_each(
    left: Map<SessionKeyView, AdoptedSessionView>,
    steps: Seq<RestoreStepView>,
) -> bool {
    exists|keys: Seq<SessionKeyView>|
        keys.no_duplicates() && (forall|key: SessionKeyView|
            keys.contains(key) <==> left.contains_key(key)) && steps
            == #[trigger] legacy_steps(left, keys)
}

pub open spec fn legacy_steps(
    left: Map<SessionKeyView, AdoptedSessionView>,
    keys: Seq<SessionKeyView>,
) -> Seq<RestoreStepView> {
    keys.map_values(|key: SessionKeyView| RestoreStepView::AdoptLegacy(left[key]))
}

fn found_by_session(found: Vec<AdoptedSession>) -> (r: SessionMap<AdoptedSession>)
    ensures
        r@ == by_session(views(found@)),
{
    let ghost all = views(found@);
    let mut map: SessionMap<AdoptedSession> = SessionMap::new();
    for i in 0..found.len()
        invariant
            all == views(found@),
            map@ == by_session(all.take(i as int)),
    {
        proof {
            assert(all.take(i as int + 1).drop_last() =~= all.take(i as int));
            assert(all.take(i as int + 1).last() == found@[i as int]@);
        }
        map.insert(found[i].key.clone(), found[i].clone());
    }
    proof {
        assert(all.take(all.len() as int) =~= all);
    }
    map
}

/// Plans what becomes of the stored sessions and of the containers that were found running. The
/// containers that no record speaks of come last.
pub fn restore_plan(
    registry: &RuntimeRegistry,
    records: &Vec<SessionRecord>,
    found: Vec<AdoptedSession>,
) -> (r: Vec<RestoreStep>)
    ensures
        ({
            let (steps, left) = stored_steps(
                registry@.catalog,
                views(records@),
                by_session(views(found@)),
            );
            &&& views(r@).len() >= steps.len()
            &&& views(r@).take(steps.len() as int) == steps
            &&& adopts_each(left, views(r@).skip(steps.len() as int))
        }),
{
    let mut map = found_by_session(found);
    let ghost start = map@;
    let ghost catalog = registry@.catalog;
    let ghost all = views(records@);
    let mut out: Vec<RestoreStep> = Vec::new();
    proof {
        assert(views(out@) =~= Seq::empty());
    }
    for i in 0..records.len()
        invariant
            catalog == registry@.catalog,
            all == views(records@),
            (views(out@), map@) == stored_steps(catalog, all.take(i as int), start),
    {
        let record = &records[i];
        proof {
            assert(all.take(i as int + 1).drop_last() =~= all.take(i as int));
            assert(all.take(i as int + 1).last() == record@);
        }
        let ghost before = out@;
        let own = map.remove(&record.key);
        let step = restore_step(registry, record, own);
        let ghost shown = step@;
        out.push(step);
        proof {
            assert(views(out@) =~= views(before).push(shown));
        }
    }
    proof {
        assert(all.take(all.len() as int) =~= all);
    }
    let ghost stored = views(out@);
    let ghost left = map@;
    let ghost keys = map.keys();
    let count = map.len();
    for i in 0..count
        invariant
            count == map.keys().len(),
            keys == map.keys(),
            left == map@,
            views(out@) == stored + legacy_steps(left, keys).take(i as int),
    {
        let ghost before = out@;
        let (_, session) = map.at(i);
        let step = RestoreStep::AdoptLegacy(session.clone());
        let ghost shown = step@;
        out.push(step);
        proof {
            assert(legacy_steps(left, keys)[i as int] == shown);
            assert(legacy_steps(left, keys).take(i as int + 1) =~= legacy_steps(left, keys).take(
                i as int,
            ).push(shown));
            assert(views(out@) =~= views(before).push(shown));
            assert(views(out@) =~= stored + legacy_steps(left, keys).take(i as int + 1));
        }
    }
    proof {
        assert(legacy_steps(left, keys).take(count as int) =~= legacy_steps(left, keys));
        assert(views(out@).take(stored.len() as int) =~= stored);
        assert(views(out@).skip(stored.len() as int) =~= legacy_steps(left, keys));
    }
    out
}

/// The work at which restoring a session can fail.
#[derive(Clone, Copy, Debug, PartialEq, Eq, Structural)]
pub enum RestoreWork {
    RemoveCompute,
    Quarantine,
    Adopt,
    RestoreStopped,
    AdoptLegacy,
}

pub open spec fn restore_work_name(work: RestoreWork) -> Seq<char> {
    match work {
        RestoreWork::RemoveCompute => "failed to remove drifted runtime session compute: "@,
        RestoreWork::Quarantine => "failed to quarantine drifted runtime session: "@,
        RestoreWork::Adopt => "failed to adopt stored runtime session: "@,
        RestoreWork::RestoreStopped => "failed to restore stopped runtime session: "@,
        RestoreWork::AdoptLegacy => "failed to adopt legacy runtime session: "@,
    }
}

/// The error of a session that could not be restored.
pub fn restore_error(work: RestoreWork, error: &str) -> (r: StartupError)
    ensures
        r@ == restore_work_name(work) + error@,
{
    let name = match work {
        RestoreWork::RemoveCompute => "failed to remove drifted runtime session compute: ",
        RestoreWork::Quarantine => "failed to quarantine drifted runtime session: ",
        RestoreWork::Adopt => "failed to adopt stored runtime session: ",
        RestoreWork::RestoreStopped => "failed to restore stopped runtime session: ",
        RestoreWork::AdoptLegacy => "failed to adopt legacy runtime session: ",
    };
    StartupError { message: cat2(name, error) }
}

// What is said of the gateway.

/// That the gateway is up.
#[derive(Debug)]
pub struct Health {
    pub service: &'static str,
    pub status: &'static str,
}

pub fn health() -> (r: Health)
    ensures
        r.service@ == "flint"@,
        r.status@ == "ready"@,
{
    Health { service: "flint", status: "ready" }
}

/// That the gateway is up, with the state of its catalog.
#[derive(Debug)]
pub struct RuntimeHealth {
    pub service: &'static str,
    pub status: &'static str,
    pub registry: RuntimeRegistryHealth,
}

pub fn runtime_health(registry: RuntimeRegistryHealth) -> (r: RuntimeHealth)
    ensures
        r.service@ == "flint"@,
        r.status@ == registry@.discovery_status,
        r.registry@ == registry@,
{
    RuntimeHealth { service: "flint", status: registry.discovery_status, registry }
}

pub open spec fn ping_status_of(busy: bool) -> Seq<char> {
    if busy {
        "HealthyBusy"@
    } else {
        "Healthy"@
    }
}

/// What the gateway answers when asked for its health as a runtime.
pub fn ping_status(busy: bool) -> (r: &'static str)
    ensures
        r@ == ping_status_of(busy),
{
    if busy {
        "HealthyBusy"
    } else {
        "Healthy"
    }
}

// What holds of every restart.

/// A stored session comes back, with or without its container, exactly when its deployment is the
/// recorded one; otherwise it is blocked, and keeps no container.
pub proof fn law_restored_sessions_match_their_record(
    catalog: RuntimeCatalogView,
    record: SessionRecordView,
    found: Option<AdoptedSessionView>,
)
    ensures
        ({
            let resolved = resolved_stored(
                catalog,
                record.key.runtime_arn,
                Some(record.key.qualifier),
            );
            let step = restore_step_of(catalog, record, found);
            &&& (step is Quarantine <==> !(resolved is Ok && matches_record(
                resolved->Ok_0,
                record,
            )))
            &&& (step is Adopt <==> !(step is Quarantine) && found is Some)
            &&& (step is RestoreStopped <==> !(step is Quarantine) && found is None)
            &&& (step is Quarantine ==> (step->compute is Some <==> found is Some))
        }),
{
}

/// One stored session that is blocked blocks no other: what becomes of a session depends on its
/// own record and container alone.
pub proof fn law_blocked_sessions_block_no_other(
    catalog: RuntimeCatalogView,
    records: Seq<SessionRecordView>,
    found: Map<SessionKeyView, AdoptedSessionView>,
    i: int,
)
    requires
        0 <= i < records.len(),
        forall|a: int, b: int|
            0 <= a < b < records.len() ==> (#[trigger] records[a]).key != (
            #[trigger] records[b]).key,
    ensures
        stored_steps(catalog, records, found).0.len() == records.len(),
        stored_steps(catalog, records, found).0[i] == restore_step_of(
            catalog,
            records[i],
            (if found.contains_key(records[i].key) {
                Some(found[records[i].key])
            } else {
                None
            }),
        ),
    decreases records.len(),
{
    let head = records.drop_last();
    assert forall|a: int, b: int| 0 <= a < b < head.len() implies (#[trigger] head[a]).key != (
    #[trigger] head[b]).key by {
        assert(head[a] == records[a] && head[b] == records[b]);
    }
    lemma_steps_left(catalog, head, found);
    if i < head.len() {
        law_blocked_sessions_block_no_other(catalog, head, found, i);
        assert(head[i] == records[i]);
    } else {
        assert forall|a: int| 0 <= a < head.len() implies (#[trigger] head[a]).key
            != records.last().key by {
            assert(head[a] == records[a]);
            assert(records[records.len() - 1] == records.last());
        }
    }
}

proof fn lemma_steps_left(
    catalog: RuntimeCatalogView,
    records: Seq<SessionRecordView>,
    found: Map<SessionKeyView, AdoptedSessionView>,
)
    ensures
        stored_steps(catalog, records, found).0.len() == records.len(),
        forall|key: SessionKeyView|
            (forall|a: int| 0 <= a < records.len() ==> (#[trigger] records[a]).key != key) ==> (
            #[trigger] stored_steps(catalog, records, found).1.contains_key(key)
                <==> found.contains_key(key)) && (found.contains_key(key) ==> stored_steps(
                catalog,
                records,
                found,
            ).1[key] == found[key]),
    decreases records.len(),
{
    if records.len() > 0 {
        let head = records.drop_last();
        lemma_steps_left(catalog, head, found);
        assert forall|key: SessionKeyView|
            (forall|a: int| 0 <= a < records.len() ==> (#[trigger] records[a]).key != key) implies (
        #[trigger] stored_steps(catalog, records, found).1.contains_key(key)
            <==> found.contains_key(key)) && (found.contains_key(key) ==> stored_steps(
            catalog,
            records,
            found,
        ).1[key] == found[key]) by {
            assert(records[records.len() - 1].key != key);
            assert forall|a: int| 0 <= a < head.len() implies (#[trigger] head[a]).key != key by {
                assert(head[a] == records[a]);
            }
            assert(stored_steps(catalog, head, found).1.contains_key(key) <==> found.contains_key(
                key,
            ));
        }
    }
}

} // verus!
