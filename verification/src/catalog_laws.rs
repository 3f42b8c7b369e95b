//! What holds of every catalog.

use vstd::prelude::*;
use vstd::seq_lib::*;

use crate::arn::{arn_text, law_arn_round_trip, looks_like_arn, parsed_arn};
use crate::auth::is_account_id;
use crate::catalog::{
    add_documents, add_image_ids, add_images, catalog_with_images, discovered_catalog,
    file_catalog, find_image, find_runtime, lemma_found_runtime, requested_id, resolved,
    resolved_stored, Built, DiscoveredRuntimeImage, DiscoveredRuntimeImageView,
    DiscoveryPolicyView, ResolvedImageView, RuntimeCatalogView, RuntimeDocumentView,
};
use crate::catalog_error::CatalogErrorView;
use crate::descriptor::is_runtime_id;
use crate::environment::{
    container_environment_of, distinct_variables, law_runtime_variables_win,
    law_variables_have_names_of_their_own, variable_entry,
};
use crate::order::{keyed_order, law_keyed_order};
use crate::runtime::{
    default_account_id, default_qualifier, default_region, LocalIdentityView, ResolvedRuntime,
    ResolvedRuntimeView,
};

verus! {

/// What a catalog promises of itself: every runtime has a proper name, no name comes twice, every
/// runtime has the qualifier `DEFAULT` and each of its variables once, and carries the generation of
/// the catalog.
pub open spec fn well_formed(catalog: RuntimeCatalogView) -> bool {
    &&& well_named(catalog.runtimes)
    &&& forall|i: int|
        0 <= i < catalog.runtimes.len() ==> (#[trigger] catalog.runtimes[i]).catalog_generation
            == catalog.generation
}

pub open spec fn well_named(runtimes: Seq<ResolvedRuntimeView>) -> bool {
    &&& forall|i: int|
        0 <= i < runtimes.len() ==> is_runtime_id((#[trigger] runtimes[i]).runtime_id)
            && distinct_variables(runtimes[i].environment) && runtimes[i].qualifier == default_qualifier() && runtimes[i].runtime_arn == arn_text(
            default_region(),
            default_account_id(),
            runtimes[i].runtime_id,
        )
    &&& forall|i: int, j: int|
        0 <= i < j < runtimes.len() ==> (#[trigger] runtimes[i]).runtime_id != (
        #[trigger] runtimes[j]).runtime_id
}

spec fn names_match(built: Built) -> bool {
    &&& built.names.len() == built.runtimes.len()
    &&& forall|i: int|
        0 <= i < built.names.len() ==> (#[trigger] built.runtimes[i]).runtime_id == built.names[i]
    &&& well_named(built.runtimes)
}

proof fn lemma_named(before: Built, after: Built, name: Seq<char>, runtime: ResolvedRuntimeView)
    requires
        names_match(before),
        !before.names.contains(name),
        is_runtime_id(name),
        distinct_variables(runtime.environment),
        runtime.runtime_id == name,
        runtime.qualifier == default_qualifier(),
        runtime.runtime_arn == arn_text(default_region(), default_account_id(), name),
        after.names == before.names.push(name),
        after.runtimes == before.runtimes.push(runtime),
    ensures
        names_match(after),
{
    assert forall|i: int| 0 <= i < after.names.len() implies (
    #[trigger] after.runtimes[i]).runtime_id == after.names[i] by {
        if i < before.names.len() {
            assert(after.runtimes[i] == before.runtimes[i]);
        }
    }
    assert forall|i: int, j: int| 0 <= i < j < after.runtimes.len() implies (
    #[trigger] after.runtimes[i]).runtime_id != (#[trigger] after.runtimes[j]).runtime_id by {
        assert(after.runtimes[i] == before.runtimes[i]);
        if j < before.runtimes.len() {
            assert(after.runtimes[j] == before.runtimes[j]);
        } else {
            assert(before.runtimes[i].runtime_id == before.names[i]);
            assert(before.names.contains(before.names[i]));
        }
    }
}

proof fn lemma_images_named(
    images: Seq<DiscoveredRuntimeImageView>,
    policy: DiscoveryPolicyView,
    environment: Map<Seq<char>, Seq<char>>,
)
    requires
        add_images(images, policy, environment) is Ok,
    ensures
        names_match(add_images(images, policy, environment)->Ok_0),
    decreases images.len(),
{
    if images.len() > 0 {
        lemma_images_named(images.drop_last(), policy, environment);
        let before = add_images(images.drop_last(), policy, environment)->Ok_0;
        let after = add_images(images, policy, environment)->Ok_0;
        law_variables_have_names_of_their_own(
            images.last().descriptor.name,
            images.last().descriptor.environment_variables,
            policy.environment_allowlist,
            environment,
        );
        lemma_named(before, after, images.last().descriptor.name, after.runtimes.last());
    }
}

proof fn lemma_documents_named(
    documents: Seq<RuntimeDocumentView>,
    policy: DiscoveryPolicyView,
    environment: Map<Seq<char>, Seq<char>>,
)
    requires
        add_documents(documents, policy, environment) is Ok,
    ensures
        names_match(add_documents(documents, policy, environment)->Ok_0),
    decreases documents.len(),
{
    if documents.len() > 0 {
        lemma_documents_named(documents.drop_last(), policy, environment);
        let before = add_documents(documents.drop_last(), policy, environment)->Ok_0;
        let after = add_documents(documents, policy, environment)->Ok_0;
        law_variables_have_names_of_their_own(
            after.names.last(),
            documents.last().environment_variables,
            policy.environment_allowlist,
            environment,
        );
        lemma_named(before, after, after.names.last(), after.runtimes.last());
    }
}

/// Runtimes stay well named in any order.
proof fn lemma_reordered(a: Seq<ResolvedRuntimeView>, b: Seq<ResolvedRuntimeView>)
    requires
        well_named(a),
        a.to_multiset() == b.to_multiset(),
    ensures
        well_named(b),
{
    broadcast use group_to_multiset_ensures;

    assert forall|i: int| 0 <= i < b.len() implies is_runtime_id((#[trigger] b[i]).runtime_id)
        && distinct_variables(b[i].environment) && b[i].qualifier == default_qualifier() && b[i].runtime_arn == arn_text(
        default_region(),
        default_account_id(),
        b[i].runtime_id,
    ) by {
        assert(b.contains(b[i]));
        assert(b.to_multiset().count(b[i]) > 0);
        assert(a.contains(b[i]));
        let k = choose|k: int| 0 <= k < a.len() && a[k] == b[i];
        assert(is_runtime_id(a[k].runtime_id));
    }
    assert(a.no_duplicates()) by {
        assert forall|i: int, j: int| 0 <= i < a.len() && 0 <= j < a.len() && i != j implies a[i]
            != a[j] by {
            if i < j {
                assert(a[i].runtime_id != a[j].runtime_id);
            } else {
                assert(a[j].runtime_id != a[i].runtime_id);
            }
        }
    }
    a.lemma_multiset_has_no_duplicates();
    b.lemma_multiset_has_no_duplicates_conv();
    assert forall|i: int, j: int| 0 <= i < j < b.len() implies (#[trigger] b[i]).runtime_id != (
    #[trigger] b[j]).runtime_id by {
        assert(b.contains(b[i]));
        assert(b.contains(b[j]));
        assert(a.to_multiset().count(b[i]) > 0);
        assert(a.to_multiset().count(b[j]) > 0);
        let x = choose|x: int| 0 <= x < a.len() && a[x] == b[i];
        let y = choose|y: int| 0 <= y < a.len() && a[y] == b[j];
        assert(b[i] != b[j]);
        if x < y {
            assert(a[x].runtime_id != a[y].runtime_id);
        } else {
            assert(x != y);
            assert(a[y].runtime_id != a[x].runtime_id);
        }
    }
}

/// A catalog of images is well formed.
pub proof fn law_discovered_catalogs_are_well_formed(
    images: Seq<DiscoveredRuntimeImageView>,
    policy: DiscoveryPolicyView,
    environment: Map<Seq<char>, Seq<char>>,
)
    requires
        discovered_catalog(images, policy, environment) is Ok,
    ensures
        well_formed(discovered_catalog(images, policy, environment)->Ok_0),
{
    if images.len() > 0 {
        let ordered = keyed_order::<DiscoveredRuntimeImage>(images);
        lemma_images_named(ordered, policy, environment);
        let built = add_images(ordered, policy, environment)->Ok_0;
        law_keyed_order::<ResolvedRuntime>(built.runtimes);
        lemma_reordered(built.runtimes, keyed_order::<ResolvedRuntime>(built.runtimes));
        let catalog = discovered_catalog(images, policy, environment)->Ok_0;
        lemma_generation_keeps_names(
            keyed_order::<ResolvedRuntime>(built.runtimes),
            catalog.runtimes,
        );
    }
}

/// A catalog of a file is well formed.
pub proof fn law_file_catalogs_are_well_formed(
    path: Seq<char>,
    canonical_source: Seq<u8>,
    documents: Seq<RuntimeDocumentView>,
    policy: DiscoveryPolicyView,
    environment: Map<Seq<char>, Seq<char>>,
)
    requires
        file_catalog(path, canonical_source, documents, policy, environment) is Ok,
    ensures
        well_formed(file_catalog(path, canonical_source, documents, policy, environment)->Ok_0),
{
    lemma_documents_named(documents, policy, environment);
    let built = add_documents(documents, policy, environment)->Ok_0;
    let catalog = file_catalog(path, canonical_source, documents, policy, environment)->Ok_0;
    lemma_generation_keeps_names(built.runtimes, catalog.runtimes);
}

/// Pinning images keeps a catalog well formed, and every runtime under its name.
pub proof fn law_pinning_images_keeps_runtimes(
    catalog: RuntimeCatalogView,
    images: Seq<(Seq<char>, ResolvedImageView)>,
)
    requires
        well_formed(catalog),
        catalog_with_images(catalog, images) is Ok,
    ensures
        ({
            let pinned = catalog_with_images(catalog, images)->Ok_0;
            &&& well_formed(pinned)
            &&& pinned.runtimes.len() == catalog.runtimes.len()
            &&& forall|i: int|
                0 <= i < pinned.runtimes.len() ==> (#[trigger] pinned.runtimes[i]).runtime_id
                    == catalog.runtimes[i].runtime_id && find_image(
                    images,
                    catalog.runtimes[i].image,
                ) is Some && pinned.runtimes[i].image_id == find_image(
                    images,
                    catalog.runtimes[i].image,
                )->Some_0.immutable_reference
        }),
{
    let pinned = catalog_with_images(catalog, images)->Ok_0;
    let added = add_image_ids(catalog.runtimes, images)->Ok_0;
    lemma_image_ids(catalog.runtimes, images);
    assert forall|i: int| 0 <= i < pinned.runtimes.len() implies (
    #[trigger] pinned.runtimes[i]).runtime_id == catalog.runtimes[i].runtime_id && find_image(
        images,
        catalog.runtimes[i].image,
    ) is Some && pinned.runtimes[i].image_id == find_image(
        images,
        catalog.runtimes[i].image,
    )->Some_0.immutable_reference by {
        assert(added.0[i].runtime_id == catalog.runtimes[i].runtime_id);
    }
    assert forall|i: int, j: int| 0 <= i < j < pinned.runtimes.len() implies (
    #[trigger] pinned.runtimes[i]).runtime_id != (#[trigger] pinned.runtimes[j]).runtime_id by {
        assert(added.0[i].runtime_id == catalog.runtimes[i].runtime_id);
        assert(added.0[j].runtime_id == catalog.runtimes[j].runtime_id);
        assert(catalog.runtimes[i].runtime_id != catalog.runtimes[j].runtime_id);
    }
    assert forall|i: int| 0 <= i < pinned.runtimes.len() implies is_runtime_id(
        (#[trigger] pinned.runtimes[i]).runtime_id,
    ) && distinct_variables(pinned.runtimes[i].environment) && pinned.runtimes[i].qualifier == default_qualifier() && pinned.runtimes[i].runtime_arn
        == arn_text(default_region(), default_account_id(), pinned.runtimes[i].runtime_id) by {
        assert(added.0[i].runtime_id == catalog.runtimes[i].runtime_id);
        assert(is_runtime_id(catalog.runtimes[i].runtime_id));
    }
}

proof fn lemma_image_ids(
    runtimes: Seq<ResolvedRuntimeView>,
    images: Seq<(Seq<char>, ResolvedImageView)>,
)
    requires
        add_image_ids(runtimes, images) is Ok,
    ensures
        ({
            let added = add_image_ids(runtimes, images)->Ok_0.0;
            &&& added.len() == runtimes.len()
            &&& forall|i: int|
                0 <= i < added.len() ==> (#[trigger] added[i]).runtime_id == runtimes[i].runtime_id
                    && added[i].environment == runtimes[i].environment && added[i].qualifier
                    == runtimes[i].qualifier && added[i].runtime_arn == runtimes[i].runtime_arn && find_image(images, runtimes[i].image) is Some
                    && added[i].image_id == find_image(
                    images,
                    runtimes[i].image,
                )->Some_0.immutable_reference
        }),
    decreases runtimes.len(),
{
    if runtimes.len() > 0 {
        lemma_image_ids(runtimes.drop_last(), images);
        let added = add_image_ids(runtimes, images)->Ok_0.0;
        let before = add_image_ids(runtimes.drop_last(), images)->Ok_0.0;
        assert forall|i: int| 0 <= i < added.len() implies (#[trigger] added[i]).runtime_id
            == runtimes[i].runtime_id && added[i].environment == runtimes[i].environment
            && added[i].qualifier == runtimes[i].qualifier && added[i].runtime_arn == runtimes[i].runtime_arn && find_image(
            images,
            runtimes[i].image,
        ) is Some && added[i].image_id == find_image(
            images,
            runtimes[i].image,
        )->Some_0.immutable_reference by {
            if i < before.len() {
                assert(added[i] == before[i]);
                assert(runtimes.drop_last()[i] == runtimes[i]);
            }
        }
    }
}

proof fn lemma_generation_keeps_names(a: Seq<ResolvedRuntimeView>, b: Seq<ResolvedRuntimeView>)
    requires
        well_named(a),
        a.len() == b.len(),
        forall|i: int|
            0 <= i < b.len() ==> (#[trigger] b[i]).runtime_id == a[i].runtime_id
                && b[i].environment == a[i].environment && b[i].qualifier == a[i].qualifier && b[i].runtime_arn == a[i].runtime_arn,
    ensures
        well_named(b),
{
    assert forall|i: int, j: int| 0 <= i < j < b.len() implies (#[trigger] b[i]).runtime_id != (
    #[trigger] b[j]).runtime_id by {
        assert(a[i].runtime_id != a[j].runtime_id);
    }
    assert forall|i: int| 0 <= i < b.len() implies is_runtime_id((#[trigger] b[i]).runtime_id)
        && distinct_variables(b[i].environment) && b[i].qualifier == default_qualifier() && b[i].runtime_arn == arn_text(
        default_region(),
        default_account_id(),
        b[i].runtime_id,
    ) by {
        assert(is_runtime_id(a[i].runtime_id));
    }
}

/// The generation of a file's catalog depends on the canonical form of the file, not on how it is
/// written: files of one canonical form that say the same give one catalog.
pub proof fn law_generation_ignores_spelling(
    path: Seq<char>,
    first: Seq<u8>,
    second: Seq<u8>,
    documents: Seq<RuntimeDocumentView>,
    policy: DiscoveryPolicyView,
    environment: Map<Seq<char>, Seq<char>>,
)
    requires
        crate::json::canonical_json_of(first) == crate::json::canonical_json_of(second),
        crate::json::canonical_json_of(first) is Ok,
    ensures
        file_catalog(
            path,
            crate::json::canonical_json_of(first)->Ok_0,
            documents,
            policy,
            environment,
        ) == file_catalog(
            path,
            crate::json::canonical_json_of(second)->Ok_0,
            documents,
            policy,
            environment,
        ),
{
}

/// Whoever is given a runtime is given it under their own region and account.
pub proof fn law_resolution_stays_within_the_identity(
    catalog: RuntimeCatalogView,
    identifier: Seq<char>,
    account_id: Option<Seq<char>>,
    qualifier: Option<Seq<char>>,
    identity: LocalIdentityView,
)
    requires
        resolved(catalog, identifier, account_id, qualifier, identity) is Ok,
    ensures
        ({
            let runtime = resolved(catalog, identifier, account_id, qualifier, identity)->Ok_0;
            &&& runtime.account_id == identity.account_id
            &&& runtime.qualifier == default_qualifier()
            &&& runtime.runtime_arn == arn_text(
                identity.region,
                identity.account_id,
                runtime.runtime_id,
            )
            &&& account_id is Some ==> account_id == Some(identity.account_id)
            &&& looks_like_arn(identifier) ==> {
                let arn = parsed_arn(identifier);
                arn is Ok && arn->Ok_0.region == identity.region && arn->Ok_0.account_id
                    == identity.account_id
            }
        }),
{
}

proof fn lemma_found_variables(runtimes: Seq<ResolvedRuntimeView>, runtime_id: Seq<char>)
    requires
        forall|i: int|
            0 <= i < runtimes.len() ==> distinct_variables((#[trigger] runtimes[i]).environment),
    ensures
        find_runtime(runtimes, runtime_id) matches Some(runtime) ==> distinct_variables(
            runtime.environment,
        ),
    decreases runtimes.len(),
{
    if runtimes.len() > 0 {
        let rest = runtimes.drop_first();
        assert(distinct_variables(runtimes[0].environment));
        assert forall|i: int| 0 <= i < rest.len() implies distinct_variables(
            (#[trigger] rest[i]).environment,
        ) by {
            assert(rest[i] == runtimes[i + 1]);
        }
        lemma_found_variables(rest, runtime_id);
    }
}

/// Whoever is given a runtime of a catalog has each of its variables once, and all of them reach its
/// containers, whatever the image sets.
pub proof fn law_resolved_variables_reach_containers(
    catalog: RuntimeCatalogView,
    identifier: Seq<char>,
    account_id: Option<Seq<char>>,
    qualifier: Option<Seq<char>>,
    identity: LocalIdentityView,
    i: int,
)
    requires
        well_formed(catalog),
        resolved(catalog, identifier, account_id, qualifier, identity) is Ok,
        0 <= i < resolved(
            catalog,
            identifier,
            account_id,
            qualifier,
            identity,
        )->Ok_0.environment.len(),
    ensures
        ({
            let runtime = resolved(catalog, identifier, account_id, qualifier, identity)->Ok_0;
            &&& distinct_variables(runtime.environment)
            &&& container_environment_of(runtime.image_environment, runtime.environment).contains(
                variable_entry(runtime.environment[i]),
            )
        }),
{
    let runtime = resolved(catalog, identifier, account_id, qualifier, identity)->Ok_0;
    let runtime_id = requested_id(identifier, account_id, identity)->Ok_0;
    lemma_found_variables(catalog.runtimes, runtime_id);
    law_runtime_variables_win(runtime.image_environment, runtime.environment, i);
}

/// An account or an ARN that belongs to somebody else is refused as such.
pub proof fn law_foreign_identities_are_refused(
    catalog: RuntimeCatalogView,
    identifier: Seq<char>,
    account_id: Option<Seq<char>>,
    qualifier: Option<Seq<char>>,
    identity: LocalIdentityView,
)
    ensures
        account_id is Some && account_id != Some(identity.account_id) ==> resolved(
            catalog,
            identifier,
            account_id,
            qualifier,
            identity,
        ) matches Err(CatalogErrorView::IdentityMismatch(_)),
        account_id is None && looks_like_arn(identifier) && parsed_arn(identifier) is Ok && (
        parsed_arn(identifier)->Ok_0.region != identity.region || parsed_arn(
            identifier,
        )->Ok_0.account_id != identity.account_id) ==> resolved(
            catalog,
            identifier,
            account_id,
            qualifier,
            identity,
        ) matches Err(CatalogErrorView::IdentityMismatch(_)),
{
}

/// The ARN of a runtime and its plain identifier mean the same runtime to an identity.
pub proof fn law_arn_and_id_agree(
    catalog: RuntimeCatalogView,
    runtime_id: Seq<char>,
    qualifier: Option<Seq<char>>,
    identity: LocalIdentityView,
)
    requires
        is_runtime_id(runtime_id),
        identity.region.len() > 0,
        !identity.region.contains(':'),
        is_account_id(identity.account_id),
        find_runtime(catalog.runtimes, runtime_id) is Some,
    ensures
        resolved(
            catalog,
            arn_text(identity.region, identity.account_id, runtime_id),
            None,
            qualifier,
            identity,
        ) == resolved(catalog, runtime_id, Some(identity.account_id), qualifier, identity),
{
    let arn = arn_text(identity.region, identity.account_id, runtime_id);
    law_arn_round_trip(identity.region, identity.account_id, runtime_id);
    reveal_strlit("arn:");
    reveal_strlit("arn:aws:bedrock-agentcore:");
    assert(arn.subrange(0, 4) =~= "arn:"@);
    if looks_like_arn(runtime_id) {
        assert(runtime_id.subrange(0, 4)[3] == ':');
        assert(runtime_id[3] == ':');
        assert(false);
    }
}

/// A runtime that was handed out is found again by its own ARN and qualifier, unchanged, for as long
/// as the catalog stays.
pub proof fn law_stored_pins_resolve(
    catalog: RuntimeCatalogView,
    runtime_id: Seq<char>,
    identity: LocalIdentityView,
)
    requires
        is_runtime_id(runtime_id),
        identity.region.len() > 0,
        !identity.region.contains(':'),
        is_account_id(identity.account_id),
        resolved(catalog, runtime_id, Some(identity.account_id), None, identity) is Ok,
    ensures
        ({
            let runtime = resolved(
                catalog,
                runtime_id,
                Some(identity.account_id),
                None,
                identity,
            )->Ok_0;
            resolved_stored(catalog, runtime.runtime_arn, Some(runtime.qualifier)) == Ok::<
                ResolvedRuntimeView,
                CatalogErrorView,
            >(runtime)
        }),
{
    lemma_found_runtime(catalog.runtimes, runtime_id);
    reveal_strlit("arn:");
    if looks_like_arn(runtime_id) {
        assert(runtime_id.subrange(0, 4)[3] == ':');
        assert(runtime_id[3] == ':');
        assert(false);
    }
    let runtime = resolved(catalog, runtime_id, Some(identity.account_id), None, identity)->Ok_0;
    law_arn_round_trip(identity.region, identity.account_id, runtime_id);
    reveal_strlit("arn:aws:bedrock-agentcore:");
    assert(runtime.runtime_arn.subrange(0, 4) =~= "arn:"@);
}

/// Every runtime has one qualifier only.
pub proof fn law_only_the_default_qualifier(
    catalog: RuntimeCatalogView,
    identifier: Seq<char>,
    account_id: Option<Seq<char>>,
    qualifier: Seq<char>,
    identity: LocalIdentityView,
)
    requires
        qualifier != default_qualifier(),
    ensures
        resolved(catalog, identifier, account_id, Some(qualifier), identity) is Err,
{
}

} // verus!
