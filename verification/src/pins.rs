//! The deployments that sessions are pinned to.

use vstd::prelude::*;

use crate::arn::arn_text;
use crate::catalog::{lemma_found_runtime, opt_str, requested_id, requested_runtime_id};
use crate::runtime::{
    default_qualifier, LocalIdentity, LocalIdentityView, ResolvedRuntime, ResolvedRuntimeView,
    DEFAULT_QUALIFIER,
};
use crate::session::{already_registered, SessionError, SessionErrorView};
use crate::session_map::{key_of, SessionKey, SessionKeyView, SessionMap};
use crate::session_store::{SessionRecord, SessionRecordView};
use crate::text::{agrees, cat5, same};

verus! {

// Drift.

/// The deployment is the one that the record was written for.
pub open spec fn matches_record(
    deployment: ResolvedRuntimeView,
    record: SessionRecordView,
) -> bool {
    &&& deployment.catalog_generation == record.catalog_generation
    &&& deployment.image == record.image
    &&& deployment.image_id == record.image_id
}

pub open spec fn drift_message(record: SessionRecordView) -> Seq<char> {
    "stored runtime session "@ + record.key.runtime_session_id
        + " no longer matches the deployment of runtime "@ + record.key.runtime_arn
        + " that it is pinned to"@
}

pub open spec fn record_checked(
    deployment: ResolvedRuntimeView,
    record: SessionRecordView,
) -> Result<(), SessionErrorView> {
    if matches_record(deployment, record) {
        Ok(())
    } else {
        Err(SessionErrorView::DeploymentDrift(drift_message(record)))
    }
}

pub fn validate_record(deployment: &ResolvedRuntime, record: &SessionRecord) -> (r: Result<
    (),
    SessionError,
>)
    ensures
        agrees(r, record_checked(deployment@, record@)),
{
    if same(deployment.catalog_generation.as_str(), record.catalog_generation.as_str()) && same(
        deployment.image.as_str(),
        record.image.as_str(),
    ) && same(deployment.image_id.as_str(), record.image_id.as_str()) {
        Ok(())
    } else {
        Err(
            SessionError::DeploymentDrift(
                cat5(
                    "stored runtime session ",
                    record.key.runtime_session_id.as_str(),
                    " no longer matches the deployment of runtime ",
                    record.key.runtime_arn.as_str(),
                    " that it is pinned to",
                ),
            ),
        )
    }
}

// Pins.

/// The deployment of each session that was ever started.
pub struct SessionPins {
    pins: SessionMap<ResolvedRuntime>,
}

impl View for SessionPins {
    type V = Map<SessionKeyView, ResolvedRuntimeView>;

    closed spec fn view(&self) -> Map<SessionKeyView, ResolvedRuntimeView> {
        self.pins@
    }
}

/// A session is pinned once and for all.
pub open spec fn pinned_step(
    pins: Map<SessionKeyView, ResolvedRuntimeView>,
    key: SessionKeyView,
    runtime: ResolvedRuntimeView,
) -> Map<SessionKeyView, ResolvedRuntimeView> {
    if pins.contains_key(key) {
        pins
    } else {
        pins.insert(key, runtime)
    }
}

/// The session that a request means to an identity, where the request could mean one.
pub open spec fn requested_key(
    identifier: Seq<char>,
    account_id: Option<Seq<char>>,
    qualifier: Option<Seq<char>>,
    runtime_session_id: Seq<char>,
    identity: LocalIdentityView,
) -> Option<SessionKeyView> {
    match requested_id(identifier, account_id, identity) {
        Err(_) => None,
        Ok(runtime_id) => Some(
            SessionKeyView {
                runtime_arn: arn_text(identity.region, identity.account_id, runtime_id),
                qualifier: match qualifier {
                    Some(qualifier) => qualifier,
                    None => default_qualifier(),
                },
                runtime_session_id,
            },
        ),
    }
}

/// The deployment that the requested session is pinned to.
pub open spec fn pinned_for(
    pins: Map<SessionKeyView, ResolvedRuntimeView>,
    identifier: Seq<char>,
    account_id: Option<Seq<char>>,
    qualifier: Option<Seq<char>>,
    runtime_session_id: Seq<char>,
    identity: LocalIdentityView,
) -> Option<ResolvedRuntimeView> {
    match requested_key(identifier, account_id, qualifier, runtime_session_id, identity) {
        None => None,
        Some(key) => if pins.contains_key(key) {
            Some(pins[key])
        } else {
            None
        },
    }
}

impl SessionPins {
    pub fn new() -> (r: Self)
        ensures
            r@ == Map::<SessionKeyView, ResolvedRuntimeView>::empty(),
    {
        SessionPins { pins: SessionMap::new() }
    }

    /// Pins a session to a deployment, unless it is pinned already.
    pub fn pin(&mut self, key: &SessionKey, runtime: &ResolvedRuntime)
        ensures
            final(self)@ == pinned_step(old(self)@, key@, runtime@),
    {
        if self.pins.get(key).is_none() {
            self.pins.insert(key.clone(), runtime.clone());
        }
    }

    /// Pins a stored session that has no container.
    pub fn restore_stopped(&mut self, key: &SessionKey, runtime: &ResolvedRuntime) -> (r: Result<
        (),
        SessionError,
    >)
        ensures
            final(self)@ == pinned_step(old(self)@, key@, runtime@),
            agrees(
                r,
                (if old(self)@.contains_key(key@) {
                    Err(already_registered())
                } else {
                    Ok(())
                }),
            ),
    {
        if self.pins.get(key).is_some() {
            return Err(
                SessionError::RetryableConflict(
                    "runtime session was already registered".to_owned(),
                ),
            );
        }
        self.pins.insert(key.clone(), runtime.clone());
        Ok(())
    }

    /// The deployment that a session is pinned to.
    pub fn get(&self, key: &SessionKey) -> (r: Option<&ResolvedRuntime>)
        ensures
            match r {
                Some(runtime) => self@.contains_key(key@) && runtime@ == self@[key@],
                None => !self@.contains_key(key@),
            },
    {
        self.pins.get(key)
    }

    /// The deployment that the session of a request is pinned to.
    pub fn pinned_runtime(
        &self,
        runtime_identifier: &str,
        account_id: Option<&str>,
        qualifier: Option<&str>,
        runtime_session_id: &str,
        identity: &LocalIdentity,
    ) -> (r: Option<ResolvedRuntime>)
        ensures
            match (
                r,
                pinned_for(
                    self@,
                    runtime_identifier@,
                    opt_str(account_id),
                    opt_str(qualifier),
                    runtime_session_id@,
                    identity@,
                ),
            ) {
                (Some(a), Some(b)) => a@ == b,
                (None, None) => true,
                _ => false,
            },
    {
        match requested_runtime_id(runtime_identifier, account_id, identity) {
            Err(_) => None,
            Ok(runtime_id) => {
                let key = SessionKey {
                    runtime_arn: crate::arn::local_runtime_arn(
                        identity.region.as_str(),
                        identity.account_id.as_str(),
                        runtime_id.as_str(),
                    ),
                    qualifier: match qualifier {
                        Some(qualifier) => qualifier.to_owned(),
                        None => DEFAULT_QUALIFIER.to_owned(),
                    },
                    runtime_session_id: runtime_session_id.to_owned(),
                };
                match self.pins.get(&key) {
                    Some(runtime) => Some(runtime.clone()),
                    None => None,
                }
            },
        }
    }
}

// Laws.

/// A pin never changes, whatever the catalog offers later, and pinning one session leaves the others
/// alone.
pub proof fn law_pins_are_immutable(
    pins: Map<SessionKeyView, ResolvedRuntimeView>,
    key: SessionKeyView,
    first: ResolvedRuntimeView,
    second: ResolvedRuntimeView,
    other: SessionKeyView,
)
    requires
        other != key,
    ensures
        pinned_step(pinned_step(pins, key, first), key, second) == pinned_step(pins, key, first),
        pinned_step(pins, key, first).contains_key(other) == pins.contains_key(other),
        pins.contains_key(other) ==> pinned_step(pins, key, first)[other] == pins[other],
{
}

/// A record matches the deployment that it was made for, and it is drift when the catalog's
/// generation or the image has changed since.
pub proof fn law_drift_is_a_changed_deployment(
    runtime: ResolvedRuntimeView,
    current: ResolvedRuntimeView,
    runtime_session_id: Seq<char>,
    volume_name: Seq<char>,
    now_unix_millis: i64,
)
    ensures
        ({
            let record = crate::session_store::new_record(
                runtime,
                runtime_session_id,
                volume_name,
                now_unix_millis,
            );
            &&& record_checked(runtime, record) is Ok
            &&& record_checked(current, record) is Ok <==> (current.catalog_generation
                == runtime.catalog_generation && current.image == runtime.image && current.image_id
                == runtime.image_id)
        }),
{
}

/// A request of the identity that started a session finds the deployment that the session was
/// pinned to.
pub proof fn law_pinned_sessions_are_found(
    pins: Map<SessionKeyView, ResolvedRuntimeView>,
    catalog: crate::catalog::RuntimeCatalogView,
    identifier: Seq<char>,
    account_id: Option<Seq<char>>,
    qualifier: Option<Seq<char>>,
    runtime_session_id: Seq<char>,
    identity: LocalIdentityView,
)
    requires
        crate::catalog::resolved(catalog, identifier, account_id, qualifier, identity) is Ok,
    ensures
        ({
            let runtime = crate::catalog::resolved(
                catalog,
                identifier,
                account_id,
                qualifier,
                identity,
            )->Ok_0;
            let key = key_of(runtime, runtime_session_id);
            pinned_for(
                pinned_step(pins, key, runtime),
                identifier,
                account_id,
                qualifier,
                runtime_session_id,
                identity,
            ) == Some(pinned_step(pins, key, runtime)[key])
        }),
{
    let runtime_id = requested_id(identifier, account_id, identity)->Ok_0;
    lemma_found_runtime(catalog.runtimes, runtime_id);
    let runtime = crate::catalog::resolved(
        catalog,
        identifier,
        account_id,
        qualifier,
        identity,
    )->Ok_0;
    assert(requested_key(identifier, account_id, qualifier, runtime_session_id, identity) == Some(
        key_of(runtime, runtime_session_id),
    ));
}

} // verus!
