//! The catalog in use, and how well refreshing it goes.

use vstd::prelude::*;

use crate::catalog::{
    opt_str, resolved, resolved_stored, RuntimeCatalog, RuntimeCatalogView,
};
use crate::catalog_error::CatalogError;
use crate::runtime::{LocalIdentity, ResolvedRuntime};
use crate::text::{agrees, clone_opt, opt_text};

verus! {

/// What is reported about the catalog in use.
#[derive(Debug)]
pub struct RuntimeRegistryHealth {
    pub runtime_source: &'static str,
    pub runtime_count: usize,
    pub discovery_status: &'static str,
    pub last_successful_refresh_unix_seconds: Option<u64>,
    pub last_error: Option<String>,
}

#[verifier::ext_equal]
pub struct RuntimeRegistryHealthView {
    pub runtime_source: Seq<char>,
    pub runtime_count: nat,
    pub discovery_status: Seq<char>,
    pub last_successful_refresh_unix_seconds: Option<u64>,
    pub last_error: Option<Seq<char>>,
}

impl View for RuntimeRegistryHealth {
    type V = RuntimeRegistryHealthView;

    open spec fn view(&self) -> RuntimeRegistryHealthView {
        RuntimeRegistryHealthView {
            runtime_source: self.runtime_source@,
            runtime_count: self.runtime_count as nat,
            discovery_status: self.discovery_status@,
            last_successful_refresh_unix_seconds: self.last_successful_refresh_unix_seconds,
            last_error: opt_text(self.last_error),
        }
    }
}

impl Clone for RuntimeRegistryHealth {
    fn clone(&self) -> (r: Self)
        ensures
            r@ == self@,
    {
        RuntimeRegistryHealth {
            runtime_source: self.runtime_source,
            runtime_count: self.runtime_count,
            discovery_status: self.discovery_status,
            last_successful_refresh_unix_seconds: self.last_successful_refresh_unix_seconds,
            last_error: clone_opt(&self.last_error),
        }
    }
}

/// What is reported about a catalog that was just read.
pub open spec fn healthy_state(catalog: RuntimeCatalogView, now_unix_seconds: u64) -> RuntimeRegistryHealthView {
    RuntimeRegistryHealthView {
        runtime_source: catalog.source.kind(),
        runtime_count: catalog.runtimes.len(),
        discovery_status: "ready"@,
        last_successful_refresh_unix_seconds: Some(now_unix_seconds),
        last_error: None,
    }
}

pub fn healthy_registry_state(catalog: &RuntimeCatalog, now_unix_seconds: u64) -> (r:
    RuntimeRegistryHealth)
    ensures
        r@ == healthy_state(catalog@, now_unix_seconds),
{
    RuntimeRegistryHealth {
        runtime_source: catalog.source.kind(),
        runtime_count: catalog.len(),
        discovery_status: "ready",
        last_successful_refresh_unix_seconds: Some(now_unix_seconds),
        last_error: None,
    }
}

/// The catalog in use with its health.
#[verifier::ext_equal]
pub struct RuntimeRegistryView {
    pub catalog: RuntimeCatalogView,
    pub health: RuntimeRegistryHealthView,
}

pub struct RuntimeRegistry {
    catalog: RuntimeCatalog,
    health: RuntimeRegistryHealth,
}

impl View for RuntimeRegistry {
    type V = RuntimeRegistryView;

    closed spec fn view(&self) -> RuntimeRegistryView {
        RuntimeRegistryView { catalog: self.catalog@, health: self.health@ }
    }
}

pub open spec fn fresh_registry(catalog: RuntimeCatalogView, now_unix_seconds: u64) -> RuntimeRegistryView {
    RuntimeRegistryView { catalog, health: healthy_state(catalog, now_unix_seconds) }
}

/// A refresh that failed leaves the catalog in use and says so.
pub open spec fn degraded(registry: RuntimeRegistryView, error: Seq<char>) -> RuntimeRegistryView {
    RuntimeRegistryView {
        health: RuntimeRegistryHealthView {
            discovery_status: "degraded"@,
            last_error: Some(error),
            ..registry.health
        },
        ..registry
    }
}

impl RuntimeRegistry {
    pub fn new(catalog: RuntimeCatalog, now_unix_seconds: u64) -> (r: Self)
        ensures
            r@ == fresh_registry(catalog@, now_unix_seconds),
    {
        let health = healthy_registry_state(&catalog, now_unix_seconds);
        RuntimeRegistry { catalog, health }
    }

    pub fn snapshot(&self) -> (r: &RuntimeCatalog)
        ensures
            r@ == self@.catalog,
    {
        &self.catalog
    }

    pub fn replace(&mut self, catalog: RuntimeCatalog, now_unix_seconds: u64)
        ensures
            final(self)@ == fresh_registry(catalog@, now_unix_seconds),
    {
        self.health = healthy_registry_state(&catalog, now_unix_seconds);
        self.catalog = catalog;
    }

    pub fn mark_refresh_failure(&mut self, error: String)
        ensures
            final(self)@ == degraded(old(self)@, error@),
    {
        self.health.discovery_status = "degraded";
        self.health.last_error = Some(error);
    }

    pub fn health(&self) -> (r: RuntimeRegistryHealth)
        ensures
            r@ == self@.health,
    {
        self.health.clone()
    }

    pub fn resolve(
        &self,
        runtime_identifier: &str,
        account_id: Option<&str>,
        qualifier: Option<&str>,
        identity: &LocalIdentity,
    ) -> (r: Result<ResolvedRuntime, CatalogError>)
        ensures
            agrees(
                r,
                resolved(
                    self@.catalog,
                    runtime_identifier@,
                    opt_str(account_id),
                    opt_str(qualifier),
                    identity@,
                ),
            ),
    {
        self.catalog.resolve(runtime_identifier, account_id, qualifier, identity)
    }

    pub fn resolve_stored(&self, runtime_arn: &str, qualifier: Option<&str>) -> (r: Result<
        ResolvedRuntime,
        CatalogError,
    >)
        ensures
            agrees(r, resolved_stored(self@.catalog, runtime_arn@, opt_str(qualifier))),
    {
        self.catalog.resolve_stored(runtime_arn, qualifier)
    }
}

/// Refreshes that fail, however often, leave the last good catalog in use.
pub proof fn law_last_good_catalog_is_kept(
    registry: RuntimeRegistryView,
    first: Seq<char>,
    second: Seq<char>,
)
    ensures
        degraded(registry, first).catalog == registry.catalog,
        degraded(degraded(registry, first), second) == degraded(registry, second),
        degraded(registry, first).health.last_successful_refresh_unix_seconds
            == registry.health.last_successful_refresh_unix_seconds,
{
    assert(degraded(degraded(registry, first), second) =~= degraded(registry, second));
}

} // verus!
