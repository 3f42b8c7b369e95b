//! What is found wrong before anything is served, and what is not.

use vstd::prelude::*;
use vstd::seq_lib::*;

use crate::catalog::RuntimeCatalogView;
use crate::environment::is_blank;
use crate::images::{answer_for, immutable_reference_of, ImageAnswerView};
use crate::order::{law_keyed_order, text_le};
use crate::preflight::{
    attachments_checked, catalog_checked, check_order, has_image_id, image_checked, images_checked,
    is_needed, needed_networks, network_answer_for, networks_checked, ByArn, NeededNetworkView,
    NetworkAnswerView, OwnContainerView,
};
use crate::runtime::ResolvedRuntimeView;

verus! {

/// The image of a runtime is there, and is still the one that the runtime is pinned to.
pub open spec fn image_is_there(
    runtime: ResolvedRuntimeView,
    answers: Seq<ImageAnswerView>,
) -> bool {
    let answer = answer_for(answers, runtime.image);
    &&& answer is Some && answer->Some_0.outcome is Ok
    &&& immutable_reference_of(answer->Some_0.outcome->Ok_0, runtime.image) == Ok::<
        Seq<char>,
        Seq<char>,
    >(runtime.image_id)
}

/// The network is there, and is a local bridge that is no ingress and no mere template.
pub open spec fn network_is_there(network: Seq<char>, answers: Seq<NetworkAnswerView>) -> bool {
    let answer = network_answer_for(answers, network);
    &&& answer is Some && answer->Some_0.outcome is Ok
    &&& ({
        let found = answer->Some_0.outcome->Ok_0;
        &&& found.driver == Some("bridge"@)
        &&& found.scope == Some("local"@)
        &&& !(found.ingress == Some(true))
        &&& !(found.config_only == Some(true))
    })
}

/// Some runtime of this pin has its image.
spec fn is_found(
    runtimes: Seq<ResolvedRuntimeView>,
    image_id: Seq<char>,
    answers: Seq<ImageAnswerView>,
) -> bool {
    exists|i: int|
        0 <= i < runtimes.len() && (#[trigger] runtimes[i]).image_id == image_id && image_is_there(
            runtimes[i],
            answers,
        )
}

proof fn lemma_found_stays(
    runtimes: Seq<ResolvedRuntimeView>,
    image_id: Seq<char>,
    answers: Seq<ImageAnswerView>,
)
    requires
        runtimes.len() > 0,
        is_found(runtimes.drop_last(), image_id, answers),
    ensures
        is_found(runtimes, image_id, answers),
{
    let rest = runtimes.drop_last();
    let i = choose|i: int|
        0 <= i < rest.len() && (#[trigger] rest[i]).image_id == image_id && image_is_there(
            rest[i],
            answers,
        );
    assert(runtimes[i] == rest[i]);
}

proof fn lemma_images_found(
    runtimes: Seq<ResolvedRuntimeView>,
    answers: Seq<ImageAnswerView>,
    k: int,
)
    requires
        images_checked(runtimes, answers) is Ok,
        0 <= k < runtimes.len(),
    ensures
        is_found(runtimes, runtimes[k].image_id, answers),
    decreases runtimes.len(),
{
    let rest = runtimes.drop_last();
    let last = runtimes.len() - 1;
    let image_id = runtimes[k].image_id;
    if k < last {
        assert(rest[k] == runtimes[k]);
        lemma_images_found(rest, answers, k);
        lemma_found_stays(runtimes, image_id, answers);
    } else if has_image_id(rest, image_id) {
        let j = choose|j: int| 0 <= j < rest.len() && (#[trigger] rest[j]).image_id == image_id;
        lemma_images_found(rest, answers, j);
        lemma_found_stays(runtimes, image_id, answers);
    } else {
        assert(image_checked(runtimes[k], answer_for(answers, runtimes[k].image)) is Ok);
        assert(image_is_there(runtimes[k], answers));
    }
}

proof fn lemma_images_pass(runtimes: Seq<ResolvedRuntimeView>, answers: Seq<ImageAnswerView>)
    requires
        forall|k: int|
            0 <= k < runtimes.len() ==> image_is_there(#[trigger] runtimes[k], answers),
    ensures
        images_checked(runtimes, answers) is Ok,
    decreases runtimes.len(),
{
    if runtimes.len() > 0 {
        let rest = runtimes.drop_last();
        assert forall|k: int| 0 <= k < rest.len() implies image_is_there(
            #[trigger] rest[k],
            answers,
        ) by {
            assert(rest[k] == runtimes[k]);
        }
        lemma_images_pass(rest, answers);
        assert(image_is_there(runtimes[runtimes.len() - 1], answers));
    }
}

/// Some runtime is in this network.
spec fn is_asked_for(runtimes: Seq<ResolvedRuntimeView>, network: Seq<char>) -> bool {
    exists|k: int|
        0 <= k < runtimes.len() && (#[trigger] runtimes[k]).connectivity.docker_network == Some(
            network,
        )
}

proof fn lemma_needed(runtimes: Seq<ResolvedRuntimeView>, network: Seq<char>)
    ensures
        is_needed(needed_networks(runtimes), network) <==> is_asked_for(runtimes, network),
    decreases runtimes.len(),
{
    if runtimes.len() > 0 {
        let rest = runtimes.drop_last();
        let last = runtimes.len() - 1;
        lemma_needed(rest, network);
        let before = needed_networks(rest);
        let networks = needed_networks(runtimes);
        assert(runtimes[last] == runtimes.last());
        if is_needed(before, network) {
            let i = choose|i: int|
                0 <= i < before.len() && (#[trigger] before[i]).network == network;
            assert(networks[i] == before[i]);
        }
        if is_asked_for(rest, network) {
            let k = choose|k: int|
                0 <= k < rest.len() && (#[trigger] rest[k]).connectivity.docker_network == Some(
                    network,
                );
            assert(runtimes[k] == rest[k]);
        }
        if runtimes[last].connectivity.docker_network == Some(network) {
            if !is_needed(before, network) {
                assert(networks[before.len() as int].network == network);
            }
        } else {
            if is_asked_for(runtimes, network) {
                let k = choose|k: int|
                    0 <= k < runtimes.len() && (
                    #[trigger] runtimes[k]).connectivity.docker_network == Some(network);
                assert(rest[k] == runtimes[k]);
            }
            if is_needed(networks, network) {
                let i = choose|i: int|
                    0 <= i < networks.len() && (#[trigger] networks[i]).network == network;
                assert(i < before.len());
                assert(before[i] == networks[i]);
            }
        }
    }
}

proof fn lemma_networks(networks: Seq<NeededNetworkView>, answers: Seq<NetworkAnswerView>)
    ensures
        networks_checked(networks, answers) is Ok <==> forall|i: int|
            0 <= i < networks.len() ==> network_is_there((#[trigger] networks[i]).network, answers),
    decreases networks.len(),
{
    if networks.len() > 0 {
        let rest = networks.drop_first();
        lemma_networks(rest, answers);
        assert forall|i: int| 0 <= i < rest.len() implies #[trigger] rest[i] == networks[i
            + 1] by {}
        if networks_checked(networks, answers) is Ok {
            assert forall|i: int| 0 <= i < networks.len() implies network_is_there(
                (#[trigger] networks[i]).network,
                answers,
            ) by {
                if i > 0 {
                    assert(rest[i - 1] == networks[i]);
                }
            }
        }
    }
}

proof fn lemma_attachments(
    networks: Seq<NeededNetworkView>,
    container_id: Seq<char>,
    attached: Seq<Seq<char>>,
)
    ensures
        attachments_checked(networks, container_id, attached) is Ok <==> forall|i: int|
            0 <= i < networks.len() ==> attached.contains((#[trigger] networks[i]).network),
    decreases networks.len(),
{
    if networks.len() > 0 {
        let rest = networks.drop_first();
        lemma_attachments(rest, container_id, attached);
        assert forall|i: int| 0 <= i < rest.len() implies #[trigger] rest[i] == networks[i
            + 1] by {}
        if attachments_checked(networks, container_id, attached) is Ok {
            assert forall|i: int| 0 <= i < networks.len() implies attached.contains(
                (#[trigger] networks[i]).network,
            ) by {
                if i > 0 {
                    assert(rest[i - 1] == networks[i]);
                }
            }
        }
    }
}

proof fn lemma_order(catalog: RuntimeCatalogView, runtime: ResolvedRuntimeView)
    ensures
        check_order(catalog).contains(runtime) <==> catalog.runtimes.contains(runtime),
{
    broadcast use group_to_multiset_ensures;

    law_keyed_order::<ByArn>(catalog.runtimes);
    let ordered = check_order(catalog);
    assert(ordered.to_multiset().count(runtime) == catalog.runtimes.to_multiset().count(runtime));
}

/// The gateway itself is in this network.
pub open spec fn is_in_network(own: OwnContainerView, network: Seq<char>) -> bool {
    &&& own.hostname is Some && !is_blank(own.hostname->Some_0)
    &&& own.networks is Ok && own.networks->Ok_0.contains(network)
}

/// Where nothing is found wrong, every runtime has an image that is there and is what it is pinned
/// to, found by a runtime of the same pin; and the network of every runtime that has one is there,
/// and the gateway is in it.
pub proof fn law_checked_catalogs_can_be_served(
    catalog: RuntimeCatalogView,
    images: Seq<ImageAnswerView>,
    networks: Seq<NetworkAnswerView>,
    own: OwnContainerView,
    k: int,
)
    requires
        catalog_checked(catalog, images, networks, own) is Ok,
        0 <= k < catalog.runtimes.len(),
    ensures
        exists|i: int|
            0 <= i < catalog.runtimes.len() && (#[trigger] catalog.runtimes[i]).image_id
                == catalog.runtimes[k].image_id && image_is_there(catalog.runtimes[i], images),
        catalog.runtimes[k].connectivity.docker_network matches Some(network) ==> network_is_there(
            network,
            networks,
        ) && is_in_network(own, network),
{
    let ordered = check_order(catalog);
    let runtime = catalog.runtimes[k];
    lemma_order(catalog, runtime);
    assert(catalog.runtimes.contains(runtime));
    let at = choose|at: int| 0 <= at < ordered.len() && ordered[at] == runtime;
    lemma_images_found(ordered, images, at);
    let i = choose|i: int|
        0 <= i < ordered.len() && (#[trigger] ordered[i]).image_id == runtime.image_id
            && image_is_there(ordered[i], images);
    lemma_order(catalog, ordered[i]);
    assert(ordered.contains(ordered[i]));
    let j = choose|j: int| 0 <= j < catalog.runtimes.len() && catalog.runtimes[j] == ordered[i];
    assert(catalog.runtimes[j].image_id == runtime.image_id);
    if let Some(network) = runtime.connectivity.docker_network {
        let needed = needed_networks(ordered);
        assert(ordered[at].connectivity.docker_network == Some(network));
        assert(is_asked_for(ordered, network));
        lemma_needed(ordered, network);
        let n = choose|n: int| 0 <= n < needed.len() && (#[trigger] needed[n]).network == network;
        lemma_networks(needed, networks);
        assert(network_is_there(needed[n].network, networks));
        lemma_attachments(needed, own.hostname->Some_0, own.networks->Ok_0);
        assert(own.networks->Ok_0.contains(needed[n].network));
    }
}

/// Nothing is found wrong where the image of every runtime is there and is what the runtime is
/// pinned to, and where the network of every runtime that has one is there, with the gateway in it.
pub proof fn law_fitting_catalogs_pass(
    catalog: RuntimeCatalogView,
    images: Seq<ImageAnswerView>,
    networks: Seq<NetworkAnswerView>,
    own: OwnContainerView,
)
    requires
        forall|k: int|
            0 <= k < catalog.runtimes.len() ==> image_is_there(
                #[trigger] catalog.runtimes[k],
                images,
            ),
        forall|k: int|
            0 <= k < catalog.runtimes.len() ==> ((
            #[trigger] catalog.runtimes[k]).connectivity.docker_network matches Some(network)
                ==> network_is_there(network, networks) && is_in_network(own, network)),
    ensures
        catalog_checked(catalog, images, networks, own) is Ok,
{
    let ordered = check_order(catalog);
    let needed = needed_networks(ordered);
    assert forall|k: int| 0 <= k < ordered.len() implies image_is_there(
        #[trigger] ordered[k],
        images,
    ) by {
        lemma_order(catalog, ordered[k]);
        assert(ordered.contains(ordered[k]));
        let j = choose|j: int| 0 <= j < catalog.runtimes.len() && catalog.runtimes[j] == ordered[k];
        assert(image_is_there(catalog.runtimes[j], images));
    }
    lemma_images_pass(ordered, images);
    assert forall|i: int| 0 <= i < needed.len() implies network_is_there(
        (#[trigger] needed[i]).network,
        networks,
    ) && is_in_network(own, needed[i].network) by {
        let network = needed[i].network;
        assert(is_needed(needed, network));
        lemma_needed(ordered, network);
        let k = choose|k: int|
            0 <= k < ordered.len() && (#[trigger] ordered[k]).connectivity.docker_network == Some(
                network,
            );
        lemma_order(catalog, ordered[k]);
        assert(ordered.contains(ordered[k]));
        let j = choose|j: int| 0 <= j < catalog.runtimes.len() && catalog.runtimes[j] == ordered[k];
        assert(catalog.runtimes[j].connectivity.docker_network == Some(network));
    }
    lemma_networks(needed, networks);
    lemma_attachments(needed, own.hostname->Some_0, own.networks->Ok_0);
    if needed.len() > 0 {
        assert(is_in_network(own, needed[0].network));
    }
}

/// The networks that are asked about are those of the runtimes.
pub proof fn law_inspected_networks(catalog: RuntimeCatalogView, network: Seq<char>)
    ensures
        is_needed(needed_networks(check_order(catalog)), network) <==> exists|k: int|
            0 <= k < catalog.runtimes.len() && (
            #[trigger] catalog.runtimes[k]).connectivity.docker_network == Some(network),
{
    let ordered = check_order(catalog);
    lemma_needed(ordered, network);
    if is_asked_for(ordered, network) {
        let k = choose|k: int|
            0 <= k < ordered.len() && (#[trigger] ordered[k]).connectivity.docker_network == Some(
                network,
            );
        lemma_order(catalog, ordered[k]);
        assert(ordered.contains(ordered[k]));
        let j = choose|j: int| 0 <= j < catalog.runtimes.len() && catalog.runtimes[j] == ordered[k];
        assert(catalog.runtimes[j].connectivity.docker_network == Some(network));
    }
    if exists|k: int|
        0 <= k < catalog.runtimes.len() && (
        #[trigger] catalog.runtimes[k]).connectivity.docker_network == Some(network) {
        let k = choose|k: int|
            0 <= k < catalog.runtimes.len() && (
            #[trigger] catalog.runtimes[k]).connectivity.docker_network == Some(network);
        lemma_order(catalog, catalog.runtimes[k]);
        assert(catalog.runtimes.contains(catalog.runtimes[k]));
        let j = choose|j: int| 0 <= j < ordered.len() && ordered[j] == catalog.runtimes[k];
        assert(ordered[j].connectivity.docker_network == Some(network));
    }
}

/// Runtimes are looked at in the order of their ARNs.
pub proof fn law_checks_follow_the_arns(catalog: RuntimeCatalogView, i: int, j: int)
    requires
        0 <= i < j < catalog.runtimes.len(),
    ensures
        text_le(check_order(catalog)[i].runtime_arn, check_order(catalog)[j].runtime_arn),
{
    law_keyed_order::<ByArn>(catalog.runtimes);
    let first = check_order(catalog)[i].runtime_arn;
    crate::order::lemma_text_le_reflexive(first);
}

} // verus!
