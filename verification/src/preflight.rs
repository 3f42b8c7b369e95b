//! What must be in place before runtimes are served.

use vstd::prelude::*;

use crate::catalog::{RuntimeCatalog, RuntimeCatalogView};

use crate::environment::is_blank;
use crate::images::{
    answer_for, find_answer, immutable_image_reference, immutable_reference_of, runtime_prefix,
    DockerBackendError, DockerBackendErrorView, ImageAnswer, ImageAnswerView,
};
use crate::order::{keyed_order, sort_by_key, SortKey};
use crate::runtime::{ResolvedRuntime, ResolvedRuntimeView};
use crate::text::{
    agrees, cat4, cat5, cat6, cat7, contains_text, opt_text, same, texts, trim, views,
};

verus! {

/// A runtime that is ordered by its ARN and qualifier.
pub struct ByArn {
    pub runtime: ResolvedRuntime,
}

impl View for ByArn {
    type V = ResolvedRuntimeView;

    open spec fn view(&self) -> ResolvedRuntimeView {
        self.runtime@
    }
}

impl SortKey for ByArn {
    open spec fn sort_key(item: ResolvedRuntimeView) -> (Seq<char>, Seq<char>) {
        (item.runtime_arn, item.qualifier)
    }

    fn key_at_most(&self, other: &Self) -> (r: bool) {
        if self.runtime.runtime_arn == other.runtime.runtime_arn {
            crate::order::text_at_most(
                self.runtime.qualifier.as_str(),
                other.runtime.qualifier.as_str(),
            )
        } else {
            crate::order::text_at_most(
                self.runtime.runtime_arn.as_str(),
                other.runtime.runtime_arn.as_str(),
            )
        }
    }
}

/// The runtimes in the order in which they are checked.
pub open spec fn check_order(catalog: RuntimeCatalogView) -> Seq<ResolvedRuntimeView> {
    keyed_order::<ByArn>(catalog.runtimes)
}

fn in_check_order(catalog: &RuntimeCatalog) -> (r: Vec<ByArn>)
    ensures
        views(r@) == check_order(catalog@),
{
    let mut list: Vec<ByArn> = Vec::new();
    let ghost all = catalog@.runtimes;
    for i in 0..catalog.runtimes.len()
        invariant
            all == catalog@.runtimes,
            views(list@) == all.take(i as int),
    {
        let ghost before = list@;
        let item = ByArn { runtime: catalog.runtimes[i].clone() };
        let ghost added = item@;
        list.push(item);
        proof {
            assert(all[i as int] == added);
            assert(views(list@) =~= views(before).push(added));
            assert(views(list@) =~= all.take(i as int + 1));
        }
    }
    proof {
        assert(all.take(all.len() as int) =~= all);
    }
    sort_by_key(list)
}

// Images.

pub open spec fn preflight(message: Seq<char>) -> DockerBackendErrorView {
    DockerBackendErrorView::Preflight(message)
}

/// The image of a runtime is there and is still what it was.
pub open spec fn image_checked(
    runtime: ResolvedRuntimeView,
    answer: Option<ImageAnswerView>,
) -> Result<(), DockerBackendErrorView> {
    match answer {
        None => Err(
            preflight(
                runtime_prefix(runtime) + " image "@ + runtime.image + " was not inspected"@,
            ),
        ),
        Some(answer) => match answer.outcome {
            Err(error) => Err(
                preflight(
                    runtime_prefix(runtime) + " image "@ + runtime.image + " ("@ + runtime.image_id
                        + ") is not present in the Docker daemon; build or load it before starting Flint: "@
                        + error,
                ),
            ),
            Ok(inspection) => match immutable_reference_of(inspection, runtime.image) {
                Err(message) => Err(preflight(message)),
                Ok(immutable) => if immutable != runtime.image_id {
                    Err(
                        preflight(
                            runtime_prefix(runtime) + " image "@ + runtime.image
                                + " changed after discovery"@,
                        ),
                    )
                } else {
                    Ok(())
                },
            },
        },
    }
}

fn write_prefix(runtime: &ResolvedRuntime) -> (r: String)
    ensures
        r@ == runtime_prefix(runtime@),
{
    cat4("runtime ", runtime.runtime_arn.as_str(), " qualifier ", runtime.qualifier.as_str())
}

fn check_image(runtime: &ResolvedRuntime, answers: &Vec<ImageAnswer>) -> (r: Result<
    (),
    DockerBackendError,
>)
    ensures
        agrees(r, image_checked(runtime@, answer_for(views(answers@), runtime@.image))),
{
    let prefix = write_prefix(runtime);
    match find_answer(answers, runtime.image.as_str()) {
        None => Err(
            DockerBackendError::Preflight(
                cat4(prefix.as_str(), " image ", runtime.image.as_str(), " was not inspected"),
            ),
        ),
        Some(answer) => match &answer.outcome {
            Err(error) => Err(
                DockerBackendError::Preflight(
                    cat7(
                        prefix.as_str(),
                        " image ",
                        runtime.image.as_str(),
                        " (",
                        runtime.image_id.as_str(),
                        ") is not present in the Docker daemon; build or load it before starting Flint: ",
                        error.as_str(),
                    ),
                ),
            ),
            Ok(inspection) => match immutable_image_reference(inspection, runtime.image.as_str()) {
                Err(message) => Err(DockerBackendError::Preflight(message)),
                Ok(immutable) => {
                    if !same(immutable.as_str(), runtime.image_id.as_str()) {
                        Err(
                            DockerBackendError::Preflight(
                                cat4(
                                    prefix.as_str(),
                                    " image ",
                                    runtime.image.as_str(),
                                    " changed after discovery",
                                ),
                            ),
                        )
                    } else {
                        Ok(())
                    }
                },
            },
        },
    }
}

/// Some runtime of the list has this image.
pub open spec fn has_image_id(runtimes: Seq<ResolvedRuntimeView>, image_id: Seq<char>) -> bool {
    exists|i: int| 0 <= i < runtimes.len() && (#[trigger] runtimes[i]).image_id == image_id
}

/// Every image is checked once, for the first runtime that has it.
pub open spec fn images_checked(
    runtimes: Seq<ResolvedRuntimeView>,
    answers: Seq<ImageAnswerView>,
) -> Result<(), DockerBackendErrorView>
    decreases runtimes.len(),
{
    if runtimes.len() == 0 {
        Ok(())
    } else {
        match images_checked(runtimes.drop_last(), answers) {
            Err(e) => Err(e),
            Ok(_) => {
                let runtime = runtimes.last();
                if has_image_id(runtimes.drop_last(), runtime.image_id) {
                    Ok(())
                } else {
                    image_checked(runtime, answer_for(answers, runtime.image))
                }
            },
        }
    }
}

proof fn lemma_images_error(
    runtimes: Seq<ResolvedRuntimeView>,
    answers: Seq<ImageAnswerView>,
    n: int,
)
    requires
        0 <= n <= runtimes.len(),
        images_checked(runtimes.take(n), answers) is Err,
    ensures
        images_checked(runtimes, answers) == images_checked(runtimes.take(n), answers),
    decreases runtimes.len() - n,
{
    if n < runtimes.len() {
        assert(runtimes.take(n + 1).drop_last() =~= runtimes.take(n));
        lemma_images_error(runtimes, answers, n + 1);
    } else {
        assert(runtimes.take(n) =~= runtimes);
    }
}

fn image_seen(list: &Vec<ByArn>, upto: usize, image_id: &str) -> (r: bool)
    requires
        upto <= list@.len(),
    ensures
        r == has_image_id(views(list@).take(upto as int), image_id@),
{
    let ghost head = views(list@).take(upto as int);
    for i in 0..upto
        invariant
            upto <= list@.len(),
            head == views(list@).take(upto as int),
            forall|k: int| 0 <= k < i ==> (#[trigger] head[k]).image_id != image_id@,
    {
        proof {
            assert(head[i as int] == list@[i as int]@);
        }
        if same(list[i].runtime.image_id.as_str(), image_id) {
            return true;
        }
    }
    false
}

fn check_images(list: &Vec<ByArn>, answers: &Vec<ImageAnswer>) -> (r: Result<
    (),
    DockerBackendError,
>)
    ensures
        agrees(r, images_checked(views(list@), views(answers@))),
{
    let ghost all = views(list@);
    for i in 0..list.len()
        invariant
            all == views(list@),
            images_checked(all.take(i as int), views(answers@)) is Ok,
    {
        proof {
            assert(all.take(i as int + 1).drop_last() =~= all.take(i as int));
            assert(all.take(i as int + 1).last() == list@[i as int]@);
        }
        if !image_seen(list, i, list[i].runtime.image_id.as_str()) {
            match check_image(&list[i].runtime, answers) {
                Err(e) => {
                    proof {
                        lemma_images_error(all, views(answers@), i as int + 1);
                    }
                    return Err(e);
                },
                Ok(_) => {},
            }
        }
    }
    proof {
        assert(all.take(all.len() as int) =~= all);
    }
    Ok(())
}

// Networks.

/// What the container engine says of a network.
#[derive(Debug)]
pub struct NetworkInspection {
    pub driver: Option<String>,
    pub scope: Option<String>,
    pub ingress: Option<bool>,
    pub config_only: Option<bool>,
}

#[verifier::ext_equal]
pub struct NetworkInspectionView {
    pub driver: Option<Seq<char>>,
    pub scope: Option<Seq<char>>,
    pub ingress: Option<bool>,
    pub config_only: Option<bool>,
}

impl View for NetworkInspection {
    type V = NetworkInspectionView;

    open spec fn view(&self) -> NetworkInspectionView {
        NetworkInspectionView {
            driver: opt_text(self.driver),
            scope: opt_text(self.scope),
            ingress: self.ingress,
            config_only: self.config_only,
        }
    }
}

/// A network that containers can share with the gateway.
pub open spec fn is_usable_network(inspection: NetworkInspectionView) -> bool {
    &&& inspection.driver == Some("bridge"@)
    &&& inspection.scope == Some("local"@)
    &&& inspection.ingress != Some(true)
    &&& inspection.config_only != Some(true)
}

fn usable_network(inspection: &NetworkInspection) -> (r: bool)
    ensures
        r == is_usable_network(inspection@),
{
    let bridge = match &inspection.driver {
        Some(driver) => same(driver.as_str(), "bridge"),
        None => false,
    };
    let local = match &inspection.scope {
        Some(scope) => same(scope.as_str(), "local"),
        None => false,
    };
    let ingress = match inspection.ingress {
        Some(ingress) => ingress,
        None => false,
    };
    let config_only = match inspection.config_only {
        Some(config_only) => config_only,
        None => false,
    };
    bridge && local && !ingress && !config_only
}

/// A network that some runtime needs.
pub struct NeededNetwork {
    pub network: String,
    pub runtime: ResolvedRuntime,
}

#[verifier::ext_equal]
pub struct NeededNetworkView {
    pub network: Seq<char>,
    pub runtime: ResolvedRuntimeView,
}

impl View for NeededNetwork {
    type V = NeededNetworkView;

    open spec fn view(&self) -> NeededNetworkView {
        NeededNetworkView { network: self.network@, runtime: self.runtime@ }
    }
}

pub open spec fn is_needed(networks: Seq<NeededNetworkView>, network: Seq<char>) -> bool {
    exists|i: int| 0 <= i < networks.len() && (#[trigger] networks[i]).network == network
}

/// The networks that runtimes need, each with the first runtime that needs it.
pub open spec fn needed_networks(runtimes: Seq<ResolvedRuntimeView>) -> Seq<NeededNetworkView>
    decreases runtimes.len(),
{
    if runtimes.len() == 0 {
        Seq::empty()
    } else {
        let before = needed_networks(runtimes.drop_last());
        let runtime = runtimes.last();
        match runtime.connectivity.docker_network {
            None => before,
            Some(network) => if is_needed(before, network) {
                before
            } else {
                before.push(NeededNetworkView { network, runtime })
            },
        }
    }
}

fn network_listed(networks: &Vec<NeededNetwork>, network: &str) -> (r: bool)
    ensures
        r == is_needed(views(networks@), network@),
{
    for i in 0..networks.len()
        invariant
            forall|k: int| 0 <= k < i ==> (#[trigger] views(networks@)[k]).network != network@,
    {
        proof {
            assert(views(networks@)[i as int] == networks@[i as int]@);
        }
        if same(networks[i].network.as_str(), network) {
            return true;
        }
    }
    false
}

fn list_networks(list: &Vec<ByArn>) -> (r: Vec<NeededNetwork>)
    ensures
        views(r@) == needed_networks(views(list@)),
{
    let mut out: Vec<NeededNetwork> = Vec::new();
    let ghost all = views(list@);
    proof {
        assert(views(out@) =~= needed_networks(all.take(0)));
    }
    for i in 0..list.len()
        invariant
            all == views(list@),
            views(out@) == needed_networks(all.take(i as int)),
    {
        proof {
            assert(all.take(i as int + 1).drop_last() =~= all.take(i as int));
            assert(all.take(i as int + 1).last() == list@[i as int]@);
        }
        match &list[i].runtime.connectivity.docker_network {
            None => {},
            Some(network) => {
                if !network_listed(&out, network.as_str()) {
                    let ghost before = out@;
                    let item = NeededNetwork {
                        network: network.clone(),
                        runtime: list[i].runtime.clone(),
                    };
                    let ghost added = item@;
                    out.push(item);
                    proof {
                        assert(views(out@) =~= views(before).push(added));
                    }
                }
            },
        }
    }
    proof {
        assert(all.take(all.len() as int) =~= all);
    }
    out
}

/// The networks that the runtimes of a catalog need.
pub fn networks_to_inspect(catalog: &RuntimeCatalog) -> (r: Vec<NeededNetwork>)
    ensures
        views(r@) == needed_networks(check_order(catalog@)),
{
    list_networks(&in_check_order(catalog))
}

/// An answer of the container engine about a network.
pub struct NetworkAnswer {
    pub network: String,
    pub outcome: Result<NetworkInspection, String>,
}

#[verifier::ext_equal]
pub struct NetworkAnswerView {
    pub network: Seq<char>,
    pub outcome: Result<NetworkInspectionView, Seq<char>>,
}

impl View for NetworkAnswer {
    type V = NetworkAnswerView;

    open spec fn view(&self) -> NetworkAnswerView {
        NetworkAnswerView {
            network: self.network@,
            outcome: match self.outcome {
                Ok(inspection) => Ok(inspection@),
                Err(message) => Err(message@),
            },
        }
    }
}

pub open spec fn network_answer_for(
    answers: Seq<NetworkAnswerView>,
    network: Seq<char>,
) -> Option<NetworkAnswerView>
    decreases answers.len(),
{
    if answers.len() == 0 {
        None
    } else if answers[0].network == network {
        Some(answers[0])
    } else {
        network_answer_for(answers.drop_first(), network)
    }
}

fn find_network_answer<'a>(answers: &'a Vec<NetworkAnswer>, network: &str) -> (r: Option<
    &'a NetworkAnswer,
>)
    ensures
        match (r, network_answer_for(views(answers@), network@)) {
            (Some(a), Some(b)) => a@ == b,
            (None, None) => true,
            _ => false,
        },
{
    let ghost all = views(answers@);
    proof {
        assert(all.skip(0) =~= all);
    }
    for i in 0..answers.len()
        invariant
            all == views(answers@),
            network_answer_for(all, network@) == network_answer_for(all.skip(i as int), network@),
    {
        proof {
            assert(all.skip(i as int)[0] == answers@[i as int]@);
            assert(all.skip(i as int).drop_first() =~= all.skip(i as int + 1));
        }
        if same(answers[i].network.as_str(), network) {
            return Some(&answers[i]);
        }
    }
    None
}

pub open spec fn network_checked(
    needed: NeededNetworkView,
    answer: Option<NetworkAnswerView>,
) -> Result<(), DockerBackendErrorView> {
    match answer {
        None => Err(
            preflight(
                runtime_prefix(needed.runtime) + " Docker network "@ + needed.network
                    + " was not inspected"@,
            ),
        ),
        Some(answer) => match answer.outcome {
            Err(error) => Err(
                preflight(
                    runtime_prefix(needed.runtime) + " Docker network "@ + needed.network
                        + " is unavailable: "@ + error,
                ),
            ),
            Ok(inspection) => if is_usable_network(inspection) {
                Ok(())
            } else {
                Err(
                    preflight(
                        runtime_prefix(needed.runtime) + " Docker network "@ + needed.network
                            + " must be a local, non-ingress bridge network"@,
                    ),
                )
            },
        },
    }
}

fn check_network(needed: &NeededNetwork, answers: &Vec<NetworkAnswer>) -> (r: Result<
    (),
    DockerBackendError,
>)
    ensures
        agrees(r, network_checked(needed@, network_answer_for(views(answers@), needed@.network))),
{
    let prefix = write_prefix(&needed.runtime);
    match find_network_answer(answers, needed.network.as_str()) {
        None => Err(
            DockerBackendError::Preflight(
                cat4(
                    prefix.as_str(),
                    " Docker network ",
                    needed.network.as_str(),
                    " was not inspected",
                ),
            ),
        ),
        Some(answer) => match &answer.outcome {
            Err(error) => Err(
                DockerBackendError::Preflight(
                    cat5(
                        prefix.as_str(),
                        " Docker network ",
                        needed.network.as_str(),
                        " is unavailable: ",
                        error.as_str(),
                    ),
                ),
            ),
            Ok(inspection) => {
                if usable_network(inspection) {
                    Ok(())
                } else {
                    Err(
                        DockerBackendError::Preflight(
                            cat4(
                                prefix.as_str(),
                                " Docker network ",
                                needed.network.as_str(),
                                " must be a local, non-ingress bridge network",
                            ),
                        ),
                    )
                }
            },
        },
    }
}

/// The first network that cannot be used decides.
pub open spec fn networks_checked(
    networks: Seq<NeededNetworkView>,
    answers: Seq<NetworkAnswerView>,
) -> Result<(), DockerBackendErrorView>
    decreases networks.len(),
{
    if networks.len() == 0 {
        Ok(())
    } else {
        match network_checked(networks[0], network_answer_for(answers, networks[0].network)) {
            Err(e) => Err(e),
            Ok(_) => networks_checked(networks.drop_first(), answers),
        }
    }
}

fn check_networks(networks: &Vec<NeededNetwork>, answers: &Vec<NetworkAnswer>) -> (r: Result<
    (),
    DockerBackendError,
>)
    ensures
        agrees(r, networks_checked(views(networks@), views(answers@))),
{
    let ghost all = views(networks@);
    proof {
        assert(all.skip(0) =~= all);
    }
    for i in 0..networks.len()
        invariant
            all == views(networks@),
            networks_checked(all, views(answers@)) == networks_checked(
                all.skip(i as int),
                views(answers@),
            ),
    {
        proof {
            assert(all.skip(i as int)[0] == networks@[i as int]@);
            assert(all.skip(i as int).drop_first() =~= all.skip(i as int + 1));
        }
        match check_network(&networks[i], answers) {
            Err(e) => {
                return Err(e);
            },
            Ok(_) => {},
        }
    }
    Ok(())
}

/// The container that the gateway itself runs in: its name, and the networks it is attached to.
pub struct OwnContainer {
    pub hostname: Option<String>,
    pub networks: Result<Vec<String>, String>,
}

#[verifier::ext_equal]
pub struct OwnContainerView {
    pub hostname: Option<Seq<char>>,
    pub networks: Result<Seq<Seq<char>>, Seq<char>>,
}

impl View for OwnContainer {
    type V = OwnContainerView;

    open spec fn view(&self) -> OwnContainerView {
        OwnContainerView {
            hostname: opt_text(self.hostname),
            networks: match self.networks {
                Ok(list) => Ok(texts(list@)),
                Err(message) => Err(message@),
            },
        }
    }
}

/// The first needed network that the gateway is not attached to decides.
pub open spec fn attachments_checked(
    networks: Seq<NeededNetworkView>,
    container_id: Seq<char>,
    attached: Seq<Seq<char>>,
) -> Result<(), DockerBackendErrorView>
    decreases networks.len(),
{
    if networks.len() == 0 {
        Ok(())
    } else if !attached.contains(networks[0].network) {
        Err(
            preflight(
                runtime_prefix(networks[0].runtime) + " requires Docker network "@
                    + networks[0].network + ", but Flint container "@ + container_id
                    + " is not attached to it"@,
            ),
        )
    } else {
        attachments_checked(networks.drop_first(), container_id, attached)
    }
}

fn check_attachments(
    networks: &Vec<NeededNetwork>,
    container_id: &str,
    attached: &Vec<String>,
) -> (r: Result<(), DockerBackendError>)
    ensures
        agrees(r, attachments_checked(views(networks@), container_id@, texts(attached@))),
{
    let ghost all = views(networks@);
    proof {
        assert(all.skip(0) =~= all);
    }
    for i in 0..networks.len()
        invariant
            all == views(networks@),
            attachments_checked(all, container_id@, texts(attached@)) == attachments_checked(
                all.skip(i as int),
                container_id@,
                texts(attached@),
            ),
    {
        proof {
            assert(all.skip(i as int)[0] == networks@[i as int]@);
            assert(all.skip(i as int).drop_first() =~= all.skip(i as int + 1));
        }
        if !contains_text(attached, networks[i].network.as_str()) {
            let prefix = write_prefix(&networks[i].runtime);
            return Err(
                DockerBackendError::Preflight(
                    cat6(
                        prefix.as_str(),
                        " requires Docker network ",
                        networks[i].network.as_str(),
                        ", but Flint container ",
                        container_id,
                        " is not attached to it",
                    ),
                ),
            );
        }
    }
    Ok(())
}

pub open spec fn own_container_checked(
    networks: Seq<NeededNetworkView>,
    own: OwnContainerView,
) -> Result<(), DockerBackendErrorView> {
    if networks.len() == 0 {
        Ok(())
    } else {
        match own.hostname {
            None => Err(preflight(no_hostname())),
            Some(container_id) => if is_blank(container_id) {
                Err(preflight(no_hostname()))
            } else {
                match own.networks {
                    Err(error) => Err(
                        preflight(
                            "container connectivity could not resolve the Flint container from HOSTNAME "@
                                + container_id + ": "@ + error,
                        ),
                    ),
                    Ok(attached) => attachments_checked(networks, container_id, attached),
                }
            },
        }
    }
}

pub open spec fn no_hostname() -> Seq<char> {
    "container connectivity requires Flint to run in a Docker container with a resolvable HOSTNAME"@
}

fn check_own_container(networks: &Vec<NeededNetwork>, own: &OwnContainer) -> (r: Result<
    (),
    DockerBackendError,
>)
    ensures
        agrees(r, own_container_checked(views(networks@), own@)),
{
    proof {
        assert(views(networks@).len() == networks@.len());
    }
    if networks.len() == 0 {
        return Ok(());
    }
    let no_name = DockerBackendError::Preflight(
        "container connectivity requires Flint to run in a Docker container with a resolvable HOSTNAME".to_owned(),
    );
    match &own.hostname {
        None => Err(no_name),
        Some(container_id) => {
            if trim(container_id.as_str()).as_str().is_empty() {
                return Err(no_name);
            }
            match &own.networks {
                Err(error) => Err(
                    DockerBackendError::Preflight(
                        cat4(
                            "container connectivity could not resolve the Flint container from HOSTNAME ",
                            container_id.as_str(),
                            ": ",
                            error.as_str(),
                        ),
                    ),
                ),
                Ok(attached) => check_attachments(networks, container_id.as_str(), attached),
            }
        },
    }
}

/// Whether the runtimes of a catalog can be served: their images are there and unchanged, their
/// networks can be used, and the gateway is attached to them.
pub open spec fn catalog_checked(
    catalog: RuntimeCatalogView,
    images: Seq<ImageAnswerView>,
    networks: Seq<NetworkAnswerView>,
    own: OwnContainerView,
) -> Result<(), DockerBackendErrorView> {
    let runtimes = check_order(catalog);
    match images_checked(runtimes, images) {
        Err(e) => Err(e),
        Ok(_) => match networks_checked(needed_networks(runtimes), networks) {
            Err(e) => Err(e),
            Ok(_) => own_container_checked(needed_networks(runtimes), own),
        },
    }
}

pub fn preflight_catalog(
    catalog: &RuntimeCatalog,
    images: &Vec<ImageAnswer>,
    networks: &Vec<NetworkAnswer>,
    own: &OwnContainer,
) -> (r: Result<(), DockerBackendError>)
    ensures
        agrees(r, catalog_checked(catalog@, views(images@), views(networks@), own@)),
{
    let list = in_check_order(catalog);
    match check_images(&list, images) {
        Err(e) => {
            return Err(e);
        },
        Ok(_) => {},
    }
    let needed = list_networks(&list);
    match check_networks(&needed, networks) {
        Err(e) => {
            return Err(e);
        },
        Ok(_) => {},
    }
    check_own_container(&needed, own)
}

/// A catalog whose containers are reached on the host needs no network and nothing of the gateway's
/// own container.
pub proof fn law_native_catalogs_need_no_network(
    catalog: RuntimeCatalogView,
    images: Seq<ImageAnswerView>,
    networks: Seq<NetworkAnswerView>,
    own: OwnContainerView,
)
    requires
        forall|i: int|
            0 <= i < check_order(catalog).len() ==> (#[trigger] check_order(
                catalog,
            )[i]).connectivity.docker_network is None,
    ensures
        catalog_checked(catalog, images, networks, own) == images_checked(
            check_order(catalog),
            images,
        ),
{
    lemma_no_networks(check_order(catalog));
}

proof fn lemma_no_networks(runtimes: Seq<ResolvedRuntimeView>)
    requires
        forall|i: int|
            0 <= i < runtimes.len() ==> (
            #[trigger] runtimes[i]).connectivity.docker_network is None,
    ensures
        needed_networks(runtimes).len() == 0,
    decreases runtimes.len(),
{
    if runtimes.len() > 0 {
        let head = runtimes.drop_last();
        assert forall|i: int| 0 <= i < head.len() implies (
        #[trigger] head[i]).connectivity.docker_network is None by {
            assert(runtimes[i].connectivity.docker_network is None);
        }
        lemma_no_networks(head);
        assert(runtimes[runtimes.len() - 1].connectivity.docker_network is None);
    }
}

} // verus!
