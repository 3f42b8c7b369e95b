//! What holds of catalogs that were found among images, however the images come.

use vstd::multiset::Multiset;
use vstd::prelude::*;
use vstd::seq_lib::*;

use crate::catalog::{
    add_images, deployment_of, descriptor_value, discovered_catalog, policy_values,
    DiscoveredRuntimeImage, DiscoveredRuntimeImageView, DiscoveryPolicyView, RuntimeCatalogView,
};
use crate::catalog_error::CatalogErrorView;
use crate::descriptor::{declaration_checked, descriptor_checked};
use crate::environment::{requested_environment, RequestedEnvironment};
use crate::json::canonical_descriptor_of;
use crate::order::{
    keyed_order, law_keyed_order, law_keyed_order_is_unique, lemma_mapped_permutation,
    lemma_text_le_reflexive, pair_le, sorted, text_le, text_lt, Ranked, SortKey,
};
use crate::runtime::{ResolvedRuntime, ResolvedRuntimeView};

verus! {

/// What is found of the variables that the runtime of an image asks for.
pub open spec fn image_environment(
    image: DiscoveredRuntimeImageView,
    policy: DiscoveryPolicyView,
    environment: Map<Seq<char>, Seq<char>>,
) -> RequestedEnvironment {
    requested_environment(
        image.descriptor.name,
        image.descriptor.environment_variables,
        policy.environment_allowlist,
        environment,
    )
}

/// The image by itself can be served: its descriptor is valid, and has a canonical form.
pub open spec fn is_servable(image: DiscoveredRuntimeImageView) -> bool {
    descriptor_checked(image.descriptor) is Ok && canonical_descriptor_of(image.descriptor) is Ok
}

/// The runtime of an image, before its catalog has a generation.
pub open spec fn image_runtime(
    image: DiscoveredRuntimeImageView,
    policy: DiscoveryPolicyView,
    environment: Map<Seq<char>, Seq<char>>,
) -> ResolvedRuntimeView {
    deployment_of(
        image.descriptor.name,
        image.image_reference,
        image.image,
        image.descriptor.protocol,
        image_environment(image, policy, environment),
        declaration_checked(
            image.descriptor.name,
            image.descriptor.environment_variables,
            image.descriptor.lifecycle_configuration,
        )->Ok_0,
        policy,
    )
}

/// The names that images claim.
pub open spec fn claimed_names(images: Seq<DiscoveredRuntimeImageView>) -> Seq<Seq<char>> {
    images.map_values(|image: DiscoveredRuntimeImageView| image.descriptor.name)
}

/// What an image adds to the generation.
spec fn image_values(
    image: DiscoveredRuntimeImageView,
    policy: DiscoveryPolicyView,
    environment: Map<Seq<char>, Seq<char>>,
) -> Seq<Seq<char>> {
    seq![descriptor_value(image, canonical_descriptor_of(image.descriptor)->Ok_0)]
        + image_environment(image, policy, environment).values
}

pub open spec fn all_servable(images: Seq<DiscoveredRuntimeImageView>) -> bool {
    forall|i: int| 0 <= i < images.len() ==> is_servable(#[trigger] images[i])
}

pub open spec fn claimed_error(name: Seq<char>) -> CatalogErrorView {
    CatalogErrorView::Validation("runtime name "@ + name + " is claimed by multiple images"@)
}

/// Images are added exactly where each can be served and no two claim one name.
pub proof fn lemma_added(
    images: Seq<DiscoveredRuntimeImageView>,
    policy: DiscoveryPolicyView,
    environment: Map<Seq<char>, Seq<char>>,
)
    ensures
        add_images(images, policy, environment) is Ok <==> all_servable(images) && claimed_names(
            images,
        ).no_duplicates(),
        add_images(images, policy, environment) matches Ok(built) ==> {
            &&& built.names == claimed_names(images)
            &&& built.runtimes == images.map_values(
                |image: DiscoveredRuntimeImageView| image_runtime(image, policy, environment),
            )
        },
        all_servable(images) ==> (add_images(images, policy, environment) matches Err(e)
            ==> exists|name: Seq<char>|
            e == claimed_error(name) && #[trigger] claimed_names(images).to_multiset().count(name)
                > 1),
    decreases images.len(),
{
    broadcast use group_to_multiset_ensures;
    broadcast use vstd::multiset::group_multiset_axioms;

    let names = claimed_names(images);
    let runtime_of = |image: DiscoveredRuntimeImageView| image_runtime(image, policy, environment);
    if images.len() == 0 {
        let built = add_images(images, policy, environment)->Ok_0;
        assert(built.names =~= names);
        assert(built.runtimes =~= images.map_values(runtime_of));
    } else {
        let rest = images.drop_last();
        let image = images.last();
        let name = image.descriptor.name;
        lemma_added(rest, policy, environment);
        let before = claimed_names(rest);
        assert(names =~= before.push(name));
        assert(images.map_values(runtime_of) =~= rest.map_values(runtime_of).push(
            image_runtime(image, policy, environment),
        ));
        assert(all_servable(images) <==> all_servable(rest) && is_servable(image)) by {
            if all_servable(images) {
                assert forall|i: int| 0 <= i < rest.len() implies is_servable(
                    #[trigger] rest[i],
                ) by {
                    assert(rest[i] == images[i]);
                }
                assert(is_servable(images[images.len() - 1]));
            }
            if all_servable(rest) && is_servable(image) {
                assert forall|i: int| 0 <= i < images.len() implies is_servable(
                    #[trigger] images[i],
                ) by {
                    if i < rest.len() {
                        assert(rest[i] == images[i]);
                    }
                }
            }
        }
        assert(names.no_duplicates() <==> before.no_duplicates() && !before.contains(name)) by {
            if names.no_duplicates() {
                assert forall|i: int, j: int|
                    0 <= i < before.len() && 0 <= j < before.len() && i != j implies before[i]
                    != before[j] by {
                    assert(names[i] != names[j]);
                }
                if before.contains(name) {
                    let i = choose|i: int| 0 <= i < before.len() && before[i] == name;
                    assert(names[i] != names[before.len() as int]);
                }
            }
        }
        if all_servable(images) && add_images(images, policy, environment) is Err {
            let e = add_images(images, policy, environment)->Err_0;
            if add_images(rest, policy, environment) is Err {
                let twice = choose|twice: Seq<char>|
                    e == claimed_error(twice) && #[trigger] before.to_multiset().count(twice) > 1;
                assert(names.to_multiset().count(twice) > 1);
            } else {
                assert(before.contains(name));
                assert(before.to_multiset().count(name) > 0);
                assert(names.to_multiset().count(name) > 1);
                assert(e == claimed_error(name));
            }
        }
    }
}

/// What images add to the generation does not depend on their order.
proof fn lemma_values_folded(
    images: Seq<DiscoveredRuntimeImageView>,
    policy: DiscoveryPolicyView,
    environment: Map<Seq<char>, Seq<char>>,
    start: Multiset<Seq<char>>,
)
    requires
        add_images(images, policy, environment) is Ok,
    ensures
        images.fold_right(
            |image: DiscoveredRuntimeImageView, bag: Multiset<Seq<char>>|
                bag.add(image_values(image, policy, environment).to_multiset()),
            start,
        ) == start.add(add_images(images, policy, environment)->Ok_0.values.to_multiset()),
    decreases images.len(),
{
    broadcast use group_to_multiset_ensures;
    broadcast use vstd::multiset::group_multiset_axioms;

    let values = add_images(images, policy, environment)->Ok_0.values;
    if images.len() == 0 {
        assert(start.add(values.to_multiset()) =~= start);
    } else {
        let rest = images.drop_last();
        let added = image_values(images.last(), policy, environment);
        let next = start.add(added.to_multiset());
        lemma_values_folded(rest, policy, environment, next);
        let before = add_images(rest, policy, environment)->Ok_0.values;
        assert(values =~= before + added);
        lemma_multiset_commutative(before, added);
        assert(next.add(before.to_multiset()) =~= start.add(values.to_multiset()));
    }
}

proof fn lemma_values_permuted(
    a: Seq<DiscoveredRuntimeImageView>,
    b: Seq<DiscoveredRuntimeImageView>,
    policy: DiscoveryPolicyView,
    environment: Map<Seq<char>, Seq<char>>,
)
    requires
        a.to_multiset() == b.to_multiset(),
        add_images(a, policy, environment) is Ok,
        add_images(b, policy, environment) is Ok,
    ensures
        add_images(a, policy, environment)->Ok_0.values.to_multiset() == add_images(
            b,
            policy,
            environment,
        )->Ok_0.values.to_multiset(),
{
    broadcast use vstd::multiset::group_multiset_axioms;

    let step = |image: DiscoveredRuntimeImageView, bag: Multiset<Seq<char>>|
        bag.add(image_values(image, policy, environment).to_multiset());
    let none = Multiset::<Seq<char>>::empty();
    assert forall|
        x: DiscoveredRuntimeImageView,
        y: DiscoveredRuntimeImageView,
        v: Multiset<Seq<char>>,
    | #[trigger] step(x, step(y, v)) == step(y, step(x, v)) by {
        assert(step(x, step(y, v)) =~= step(y, step(x, v)));
    }
    lemma_fold_right_permutation(a, b, step, none);
    lemma_values_folded(a, policy, environment, none);
    lemma_values_folded(b, policy, environment, none);
    let x = add_images(a, policy, environment)->Ok_0.values;
    let y = add_images(b, policy, environment)->Ok_0.values;
    assert(none.add(x.to_multiset()) =~= x.to_multiset());
    assert(none.add(y.to_multiset()) =~= y.to_multiset());
}

proof fn lemma_servable_permuted(
    a: Seq<DiscoveredRuntimeImageView>,
    b: Seq<DiscoveredRuntimeImageView>,
)
    requires
        a.to_multiset() == b.to_multiset(),
        all_servable(a) && claimed_names(a).no_duplicates(),
    ensures
        all_servable(b) && claimed_names(b).no_duplicates(),
{
    broadcast use group_to_multiset_ensures;

    assert forall|i: int| 0 <= i < b.len() implies is_servable(#[trigger] b[i]) by {
        assert(b.contains(b[i]));
        assert(b.to_multiset().count(b[i]) > 0);
        assert(a.contains(b[i]));
        let k = choose|k: int| 0 <= k < a.len() && a[k] == b[i];
        assert(is_servable(a[k]));
    }
    lemma_mapped_permutation(
        a,
        b,
        |image: DiscoveredRuntimeImageView| image.descriptor.name,
    );
    claimed_names(a).lemma_multiset_has_no_duplicates();
    claimed_names(b).lemma_multiset_has_no_duplicates_conv();
}

/// Added in any order, images give the same runtimes under the same names and the same generation.
proof fn lemma_built_permuted(
    a: Seq<DiscoveredRuntimeImageView>,
    b: Seq<DiscoveredRuntimeImageView>,
    policy: DiscoveryPolicyView,
    environment: Map<Seq<char>, Seq<char>>,
)
    requires
        a.to_multiset() == b.to_multiset(),
        add_images(a, policy, environment) is Ok,
    ensures
        add_images(b, policy, environment) is Ok,
        ({
            let x = add_images(a, policy, environment)->Ok_0;
            let y = add_images(b, policy, environment)->Ok_0;
            &&& keyed_order::<ResolvedRuntime>(x.runtimes) == keyed_order::<ResolvedRuntime>(
                y.runtimes,
            )
            &&& sorted(x.values + policy_values(policy)) == sorted(
                y.values + policy_values(policy),
            )
        }),
{
    broadcast use group_to_multiset_ensures;

    lemma_added(a, policy, environment);
    lemma_added(b, policy, environment);
    lemma_servable_permuted(a, b);
    lemma_values_permuted(a, b, policy, environment);
    let x = add_images(a, policy, environment)->Ok_0;
    let y = add_images(b, policy, environment)->Ok_0;
    let runtime_of = |image: DiscoveredRuntimeImageView| image_runtime(image, policy, environment);
    lemma_mapped_permutation(a, b, runtime_of);
    assert forall|p: ResolvedRuntimeView, q: ResolvedRuntimeView|
        #![trigger x.runtimes.contains(p), x.runtimes.contains(q)]
        x.runtimes.contains(p) && x.runtimes.contains(q) && <ResolvedRuntime as SortKey>::sort_key(
            p,
        ) == <ResolvedRuntime as SortKey>::sort_key(q) implies p == q by {
        let i = choose|i: int| 0 <= i < x.runtimes.len() && x.runtimes[i] == p;
        let j = choose|j: int| 0 <= j < x.runtimes.len() && x.runtimes[j] == q;
        assert(claimed_names(a)[i] == p.runtime_id);
        assert(claimed_names(a)[j] == q.runtime_id);
        if i != j {
            assert(claimed_names(a)[i] != claimed_names(a)[j]);
        }
    }
    law_keyed_order_is_unique::<ResolvedRuntime>(x.runtimes, y.runtimes);
    let leq = |s: Seq<char>, t: Seq<char>| <String as Ranked>::rank_le(s, t);
    <String as Ranked>::lemma_rank_total();
    let policies = policy_values(policy);
    lemma_multiset_commutative(x.values, policies);
    lemma_multiset_commutative(y.values, policies);
    (x.values + policies).lemma_sort_by_ensures(leq);
    (y.values + policies).lemma_sort_by_ensures(leq);
    lemma_sorted_unique(sorted(x.values + policies), sorted(y.values + policies), leq);
}

/// The order in which images come plays no part in the catalog. It plays none in an error either,
/// where different images differ in what they are called.
pub proof fn law_image_order_plays_no_part(
    a: Seq<DiscoveredRuntimeImageView>,
    b: Seq<DiscoveredRuntimeImageView>,
    policy: DiscoveryPolicyView,
    environment: Map<Seq<char>, Seq<char>>,
)
    requires
        a.to_multiset() == b.to_multiset(),
    ensures
        discovered_catalog(a, policy, environment) is Ok <==> discovered_catalog(
            b,
            policy,
            environment,
        ) is Ok,
        discovered_catalog(a, policy, environment) is Ok ==> discovered_catalog(
            a,
            policy,
            environment,
        ) == discovered_catalog(b, policy, environment),
        (forall|x: DiscoveredRuntimeImageView, y: DiscoveredRuntimeImageView|
            #![trigger a.contains(x), a.contains(y)]
            a.contains(x) && a.contains(y) && x.image.immutable_reference
                == y.image.immutable_reference && x.image_reference == y.image_reference ==> x == y)
            ==> discovered_catalog(a, policy, environment) == discovered_catalog(
            b,
            policy,
            environment,
        ),
{
    to_multiset_len(a);
    to_multiset_len(b);
    if a.len() > 0 {
        let x = keyed_order::<DiscoveredRuntimeImage>(a);
        let y = keyed_order::<DiscoveredRuntimeImage>(b);
        law_keyed_order::<DiscoveredRuntimeImage>(a);
        law_keyed_order::<DiscoveredRuntimeImage>(b);
        if add_images(x, policy, environment) is Ok {
            lemma_built_permuted(x, y, policy, environment);
        }
        if add_images(y, policy, environment) is Ok {
            lemma_built_permuted(y, x, policy, environment);
        }
        if forall|p: DiscoveredRuntimeImageView, q: DiscoveredRuntimeImageView|
            #![trigger a.contains(p), a.contains(q)]
            a.contains(p) && a.contains(q) && p.image.immutable_reference
                == q.image.immutable_reference && p.image_reference == q.image_reference ==> p
                == q {
            law_keyed_order_is_unique::<DiscoveredRuntimeImage>(a, b);
        }
    }
}

/// The runtime of an image in a catalog.
pub open spec fn serves(
    catalog: RuntimeCatalogView,
    image: DiscoveredRuntimeImageView,
    runtime: ResolvedRuntimeView,
) -> bool {
    &&& catalog.runtimes.contains(runtime)
    &&& runtime.runtime_id == image.descriptor.name
    &&& runtime.image == image.image_reference
    &&& runtime.image_id == image.image.immutable_reference
    &&& runtime.image_platform == image.image.platform
    &&& runtime.protocol == image.descriptor.protocol
    &&& runtime.catalog_generation == catalog.generation
}

/// The catalog has a runtime of this image.
pub open spec fn is_served(catalog: RuntimeCatalogView, image: DiscoveredRuntimeImageView) -> bool {
    exists|runtime: ResolvedRuntimeView| serves(catalog, image, runtime)
}

/// Images that can each be served give a catalog exactly where no two of them claim one name. It
/// has one runtime for each image, in ascending order of the names.
pub proof fn law_names_decide_discovery(
    images: Seq<DiscoveredRuntimeImageView>,
    policy: DiscoveryPolicyView,
    environment: Map<Seq<char>, Seq<char>>,
)
    requires
        forall|i: int| 0 <= i < images.len() ==> is_servable(#[trigger] images[i]),
    ensures
        discovered_catalog(images, policy, environment) is Ok <==> claimed_names(
            images,
        ).no_duplicates(),
        discovered_catalog(images, policy, environment) matches Err(e) ==> exists|name: Seq<char>|
            e == claimed_error(name) && #[trigger] claimed_names(images).to_multiset().count(name)
                > 1,
        discovered_catalog(images, policy, environment) matches Ok(catalog) ==> {
            &&& catalog.runtimes.len() == images.len()
            &&& forall|i: int|
                0 <= i < images.len() ==> is_served(catalog, #[trigger] images[i])
            &&& forall|i: int, j: int|
                0 <= i < j < catalog.runtimes.len() ==> text_lt(
                    (#[trigger] catalog.runtimes[i]).runtime_id,
                    (#[trigger] catalog.runtimes[j]).runtime_id,
                )
        },
{
    broadcast use group_to_multiset_ensures;

    if images.len() == 0 {
        assert(claimed_names(images).no_duplicates());
    } else {
        let ordered = keyed_order::<DiscoveredRuntimeImage>(images);
        law_keyed_order::<DiscoveredRuntimeImage>(images);
        to_multiset_len(images);
        to_multiset_len(ordered);
        lemma_added(ordered, policy, environment);
        lemma_mapped_permutation(
            images,
            ordered,
            |image: DiscoveredRuntimeImageView| image.descriptor.name,
        );
        assert(all_servable(ordered)) by {
            assert forall|i: int| 0 <= i < ordered.len() implies is_servable(
                #[trigger] ordered[i],
            ) by {
                assert(ordered.contains(ordered[i]));
                assert(ordered.to_multiset().count(ordered[i]) > 0);
                assert(images.contains(ordered[i]));
                let k = choose|k: int| 0 <= k < images.len() && images[k] == ordered[i];
                assert(is_servable(images[k]));
            }
        }
        if claimed_names(images).no_duplicates() {
            lemma_servable_permuted(images, ordered);
        }
        if claimed_names(ordered).no_duplicates() {
            lemma_servable_permuted(ordered, images);
        }
        if discovered_catalog(images, policy, environment) is Ok {
            lemma_served(images, policy, environment);
        }
    }
}

proof fn lemma_served(
    images: Seq<DiscoveredRuntimeImageView>,
    policy: DiscoveryPolicyView,
    environment: Map<Seq<char>, Seq<char>>,
)
    requires
        images.len() > 0,
        discovered_catalog(images, policy, environment) is Ok,
    ensures
        ({
            let catalog = discovered_catalog(images, policy, environment)->Ok_0;
            &&& catalog.runtimes.len() == images.len()
            &&& forall|i: int|
                0 <= i < images.len() ==> is_served(catalog, #[trigger] images[i])
            &&& forall|i: int, j: int|
                0 <= i < j < catalog.runtimes.len() ==> text_lt(
                    (#[trigger] catalog.runtimes[i]).runtime_id,
                    (#[trigger] catalog.runtimes[j]).runtime_id,
                )
        }),
{
    broadcast use group_to_multiset_ensures;

    let catalog = discovered_catalog(images, policy, environment)->Ok_0;
    let images_in_order = keyed_order::<DiscoveredRuntimeImage>(images);
    law_keyed_order::<DiscoveredRuntimeImage>(images);
    to_multiset_len(images);
    to_multiset_len(images_in_order);
    lemma_added(images_in_order, policy, environment);
    let built = add_images(images_in_order, policy, environment)->Ok_0;
    let ordered = keyed_order::<ResolvedRuntime>(built.runtimes);
    law_keyed_order::<ResolvedRuntime>(built.runtimes);
    to_multiset_len(built.runtimes);
    to_multiset_len(ordered);
    assert forall|i: int| 0 <= i < images.len() implies is_served(
        catalog,
        #[trigger] images[i],
    ) by {
        let image = images[i];
        assert(images.contains(image));
        assert(images.to_multiset().count(image) > 0);
        assert(images_in_order.contains(image));
        let k = choose|k: int| 0 <= k < images_in_order.len() && images_in_order[k] == image;
        let runtime = built.runtimes[k];
        assert(built.runtimes.contains(runtime));
        assert(built.runtimes.to_multiset().count(runtime) > 0);
        assert(ordered.contains(runtime));
        let m = choose|m: int| 0 <= m < ordered.len() && ordered[m] == runtime;
        assert(catalog.runtimes.contains(catalog.runtimes[m]));
        assert(serves(catalog, image, catalog.runtimes[m]));
    }
    crate::catalog_laws::law_discovered_catalogs_are_well_formed(images, policy, environment);
    assert forall|i: int, j: int| 0 <= i < j < catalog.runtimes.len() implies text_lt(
        (#[trigger] catalog.runtimes[i]).runtime_id,
        (#[trigger] catalog.runtimes[j]).runtime_id,
    ) by {
        assert(pair_le(
            <ResolvedRuntime as SortKey>::sort_key(ordered[i]),
            <ResolvedRuntime as SortKey>::sort_key(ordered[j]),
        ));
        lemma_text_le_reflexive(ordered[i].runtime_id);
        assert(catalog.runtimes[i].runtime_id == ordered[i].runtime_id);
        assert(catalog.runtimes[j].runtime_id == ordered[j].runtime_id);
        assert(text_le(ordered[i].runtime_id, ordered[j].runtime_id));
    }
}

} // verus!
