//! Finding runtimes among the images of the container engine, and keeping up with them.

use vstd::prelude::*;

use crate::catalog::{
    opt_str, DiscoveredRuntimeImageView, DiscoveryPolicy, DiscoveryPolicyView, RuntimeCatalog,
    RuntimeCatalogView,
};
use crate::container::{AdoptionError, AdoptionErrorView};
use crate::descriptor::RUNTIME_PROTOCOL_LABEL;
use crate::images::{
    candidate_of, catalog_of_candidates, discovery_reference, first_reference, with_candidate,
    DockerBackendError, DockerBackendErrorView, ImageCandidates, ImageInspection,
    ImageInspectionView,
};
use crate::labels::Labels;
use crate::registry::{degraded, fresh_registry, RuntimeRegistry, RuntimeRegistryView};
use crate::text::{agrees, cat2, cat4, clone_texts, texts, views};

verus! {

/// An image in a listing.
#[derive(Debug)]
pub struct ListedImage {
    pub id: String,
    pub labels: Labels,
}

#[verifier::ext_equal]
pub struct ListedImageView {
    pub id: Seq<char>,
    pub labels: Map<Seq<char>, Seq<char>>,
}

impl View for ListedImage {
    type V = ListedImageView;

    open spec fn view(&self) -> ListedImageView {
        ListedImageView { id: self.id@, labels: self.labels@ }
    }
}

/// The images of a listing that are marked as runtimes.
pub open spec fn marked_images(listed: Seq<ListedImageView>) -> Seq<Seq<char>>
    decreases listed.len(),
{
    if listed.len() == 0 {
        Seq::empty()
    } else if listed.last().labels.contains_key(RUNTIME_PROTOCOL_LABEL@) {
        marked_images(listed.drop_last()).push(listed.last().id)
    } else {
        marked_images(listed.drop_last())
    }
}

/// The images to look at: those of the allowlist, or without one those that are marked.
pub open spec fn selected_images(allowlist: Seq<Seq<char>>, listed: Seq<ListedImageView>) -> Seq<
    Seq<char>,
> {
    if allowlist.len() == 0 {
        marked_images(listed)
    } else {
        allowlist
    }
}

pub fn select_images(allowlist: &Vec<String>, listed: &Vec<ListedImage>) -> (r: Vec<String>)
    ensures
        texts(r@) == selected_images(texts(allowlist@), views(listed@)),
{
    if allowlist.len() > 0 {
        return clone_texts(allowlist);
    }
    let ghost all = views(listed@);
    let mut out: Vec<String> = Vec::new();
    proof {
        assert(texts(out@) =~= Seq::empty());
    }
    for i in 0..listed.len()
        invariant
            all == views(listed@),
            texts(out@) == marked_images(all.take(i as int)),
    {
        proof {
            assert(all.take(i as int + 1).drop_last() =~= all.take(i as int));
            assert(all.take(i as int + 1).last() == listed@[i as int]@);
        }
        if listed[i].labels.get(RUNTIME_PROTOCOL_LABEL).is_some() {
            let ghost before = out@;
            out.push(listed[i].id.clone());
            proof {
                assert(texts(out@) =~= texts(before).push(listed@[i as int].id@));
            }
        }
    }
    proof {
        assert(all.take(all.len() as int) =~= all);
    }
    out
}

/// What looking at an image gave.
pub open spec fn look(outcome: Result<ImageInspection, String>) -> Result<
    ImageInspectionView,
    Seq<char>,
> {
    match outcome {
        Ok(inspection) => Ok(inspection@),
        Err(message) => Err(message@),
    }
}

pub open spec fn looks(outcomes: Seq<Result<ImageInspection, String>>) -> Seq<
    Result<ImageInspectionView, Seq<char>>,
> {
    outcomes.map_values(|outcome: Result<ImageInspection, String>| look(outcome))
}

/// Why an image could not be looked at.
pub open spec fn missing_image(allowlisted: bool, reference: Seq<char>, error: Seq<char>) -> DockerBackendErrorView {
    DockerBackendErrorView::Discovery(
        if allowlisted {
            "allowlisted image "@ + reference + " is not present in the Docker daemon: "@ + error
        } else {
            "could not inspect marked image "@ + reference + ": "@ + error
        },
    )
}

/// The runtimes that the images declare, or the first thing that is wrong. Without an allowlist an
/// image that has no name is passed over.
pub open spec fn gathered(
    allowlisted: bool,
    references: Seq<Seq<char>>,
    outcomes: Seq<Result<ImageInspectionView, Seq<char>>>,
) -> Result<Seq<(Seq<char>, DiscoveredRuntimeImageView)>, DockerBackendErrorView>
    decreases references.len(),
{
    if references.len() == 0 {
        Ok(Seq::empty())
    } else {
        match gathered(allowlisted, references.drop_last(), outcomes.drop_last()) {
            Err(e) => Err(e),
            Ok(candidates) => match outcomes.last() {
                Err(error) => Err(missing_image(allowlisted, references.last(), error)),
                Ok(inspection) => {
                    let reference = if allowlisted {
                        Some(references.last())
                    } else {
                        first_reference(inspection)
                    };
                    match reference {
                        None => Ok(candidates),
                        Some(name) => match candidate_of(inspection, name) {
                            Err(e) => Err(e),
                            Ok(found) => Ok(with_candidate(candidates, found.0, found.1)),
                        },
                    }
                },
            },
        }
    }
}

proof fn lemma_gathered_error(
    allowlisted: bool,
    references: Seq<Seq<char>>,
    outcomes: Seq<Result<ImageInspectionView, Seq<char>>>,
    n: int,
)
    requires
        references.len() == outcomes.len(),
        0 <= n <= references.len(),
        gathered(allowlisted, references.take(n), outcomes.take(n)) is Err,
    ensures
        gathered(allowlisted, references, outcomes) == gathered(
            allowlisted,
            references.take(n),
            outcomes.take(n),
        ),
    decreases references.len() - n,
{
    if n < references.len() {
        assert(references.take(n + 1).drop_last() =~= references.take(n));
        assert(outcomes.take(n + 1).drop_last() =~= outcomes.take(n));
        lemma_gathered_error(allowlisted, references, outcomes, n + 1);
    } else {
        assert(references.take(n) =~= references);
        assert(outcomes.take(n) =~= outcomes);
    }
}

pub open spec fn discovered(
    allowlisted: bool,
    references: Seq<Seq<char>>,
    outcomes: Seq<Result<ImageInspectionView, Seq<char>>>,
    policy: DiscoveryPolicyView,
    environment: Map<Seq<char>, Seq<char>>,
) -> Result<RuntimeCatalogView, DockerBackendErrorView> {
    match gathered(allowlisted, references, outcomes) {
        Err(e) => Err(e),
        Ok(candidates) => catalog_of_candidates(candidates, policy, environment),
    }
}

/// Makes a catalog of the images that were looked at.
pub fn discover_runtime_catalog(
    allowlisted: bool,
    references: &Vec<String>,
    outcomes: &Vec<Result<ImageInspection, String>>,
    policy: &DiscoveryPolicy,
    environment: &Labels,
) -> (r: Result<RuntimeCatalog, DockerBackendError>)
    requires
        references@.len() == outcomes@.len(),
    ensures
        agrees(
            r,
            discovered(
                allowlisted,
                texts(references@),
                looks(outcomes@),
                policy@,
                environment@,
            ),
        ),
{
    let ghost names = texts(references@);
    let ghost answers = looks(outcomes@);
    let mut candidates = ImageCandidates::new();
    for i in 0..references.len()
        invariant
            references@.len() == outcomes@.len(),
            names == texts(references@),
            answers == looks(outcomes@),
            gathered(allowlisted, names.take(i as int), answers.take(i as int)) == Ok::<
                Seq<(Seq<char>, DiscoveredRuntimeImageView)>,
                DockerBackendErrorView,
            >(candidates@),
    {
        proof {
            assert(names.take(i as int + 1).drop_last() =~= names.take(i as int));
            assert(names.take(i as int + 1).last() == references@[i as int]@);
            assert(answers.take(i as int + 1).drop_last() =~= answers.take(i as int));
            assert(answers.take(i as int + 1).last() == look(outcomes@[i as int]));
        }
        match &outcomes[i] {
            Err(error) => {
                proof {
                    lemma_gathered_error(allowlisted, names, answers, i as int + 1);
                }
                return Err(
                    DockerBackendError::Discovery(
                        if allowlisted {
                            cat4(
                                "allowlisted image ",
                                references[i].as_str(),
                                " is not present in the Docker daemon: ",
                                error.as_str(),
                            )
                        } else {
                            cat4(
                                "could not inspect marked image ",
                                references[i].as_str(),
                                ": ",
                                error.as_str(),
                            )
                        },
                    ),
                );
            },
            Ok(inspection) => {
                let reference = if allowlisted {
                    Some(references[i].clone())
                } else {
                    discovery_reference(inspection)
                };
                if let Some(name) = reference {
                    if let Err(error) = candidates.insert_discovered_image(inspection, name) {
                        proof {
                            lemma_gathered_error(allowlisted, names, answers, i as int + 1);
                        }
                        return Err(error);
                    }
                }
            },
        }
    }
    proof {
        assert(names.take(names.len() as int) =~= names);
        assert(answers.take(answers.len() as int) =~= answers);
    }
    candidates.into_catalog(policy, environment)
}

// Keeping up.

pub open spec fn refreshed(
    registry: RuntimeRegistryView,
    outcome: Result<RuntimeCatalogView, DockerBackendErrorView>,
    now_unix_seconds: u64,
) -> RuntimeRegistryView {
    match outcome {
        Ok(catalog) => fresh_registry(catalog, now_unix_seconds),
        Err(error) => degraded(registry, error.text()),
    }
}

/// Takes a new catalog, or notes why there is none.
pub fn refresh_discovered_catalog(
    registry: &mut RuntimeRegistry,
    outcome: Result<RuntimeCatalog, DockerBackendError>,
    now_unix_seconds: u64,
)
    ensures
        final(registry)@ == refreshed(
            old(registry)@,
            (match outcome {
                Ok(catalog) => Ok(catalog@),
                Err(error) => Err(error@),
            }),
            now_unix_seconds,
        ),
{
    match outcome {
        Ok(catalog) => {
            registry.replace(catalog, now_unix_seconds);
        },
        Err(error) => {
            registry.mark_refresh_failure(error.message());
        },
    }
}

/// What is noted when the stream of image events stops: with an error, or by itself.
pub fn events_stopped(error: Option<&str>) -> (r: String)
    ensures
        r@ == (match opt_str(error) {
            Some(error) => "Docker image event stream failed: "@ + error,
            None => "Docker image event stream ended"@,
        }),
{
    match error {
        Some(error) => cat2("Docker image event stream failed: ", error),
        None => "Docker image event stream ended".to_owned(),
    }
}

// Containers that are found.

/// What follows looking at a container of this owner.
#[derive(Debug)]
pub enum ReconcileStep {
    Keep,
    Remove(String),
    Fail(DockerBackendError),
}

#[verifier::ext_equal]
pub enum ReconcileStepView {
    Keep,
    Remove(Seq<char>),
    Fail(DockerBackendErrorView),
}

impl View for ReconcileStep {
    type V = ReconcileStepView;

    open spec fn view(&self) -> ReconcileStepView {
        match self {
            ReconcileStep::Keep => ReconcileStepView::Keep,
            ReconcileStep::Remove(reason) => ReconcileStepView::Remove(reason@),
            ReconcileStep::Fail(error) => ReconcileStepView::Fail(error@),
        }
    }
}

/// A container that is of no use is removed; one of which nothing is known stops the start.
pub open spec fn reconcile_step_of(id: Seq<char>, outcome: Result<(), AdoptionErrorView>) -> ReconcileStepView {
    match outcome {
        Ok(_) => ReconcileStepView::Keep,
        Err(AdoptionErrorView::Invalid(reason)) => ReconcileStepView::Remove(reason),
        Err(AdoptionErrorView::Transient(reason)) => ReconcileStepView::Fail(
            DockerBackendErrorView::Reconciliation(
                "could not safely adopt owned container "@ + id + "; it was left untouched: "@
                    + reason,
            ),
        ),
    }
}

pub fn reconcile_step(id: &str, outcome: Result<(), AdoptionError>) -> (r: ReconcileStep)
    ensures
        r@ == reconcile_step_of(
            id@,
            (match outcome {
                Ok(_) => Ok(()),
                Err(error) => Err(error@),
            }),
        ),
{
    match outcome {
        Ok(_) => ReconcileStep::Keep,
        Err(AdoptionError::Invalid(reason)) => ReconcileStep::Remove(reason),
        Err(AdoptionError::Transient(reason)) => ReconcileStep::Fail(
            DockerBackendError::Reconciliation(
                cat4(
                    "could not safely adopt owned container ",
                    id,
                    "; it was left untouched: ",
                    reason.as_str(),
                ),
            ),
        ),
    }
}

// What holds of every search.

/// A search that fails leaves the catalog in use as it is.
pub proof fn law_failed_refreshes_change_nothing(
    registry: RuntimeRegistryView,
    error: DockerBackendErrorView,
    now_unix_seconds: u64,
)
    ensures
        refreshed(registry, Err(error), now_unix_seconds).catalog == registry.catalog,
        refreshed(registry, Err(error), now_unix_seconds).health.discovery_status == "degraded"@,
{
}

/// With an allowlist no image outside it is looked at, and without one only marked images are.
pub proof fn law_only_selected_images_are_searched(
    allowlist: Seq<Seq<char>>,
    listed: Seq<ListedImageView>,
    i: int,
)
    requires
        0 <= i < selected_images(allowlist, listed).len(),
    ensures
        allowlist.len() > 0 ==> allowlist.contains(selected_images(allowlist, listed)[i]),
        allowlist.len() == 0 ==> exists|k: int|
            0 <= k < listed.len() && (#[trigger] listed[k]).id == selected_images(
                allowlist,
                listed,
            )[i] && listed[k].labels.contains_key(RUNTIME_PROTOCOL_LABEL@),
    decreases listed.len(),
{
    if allowlist.len() == 0 && listed.len() > 0 {
        let head = listed.drop_last();
        if i < marked_images(head).len() {
            law_only_selected_images_are_searched(allowlist, head, i);
            let k = choose|k: int|
                0 <= k < head.len() && (#[trigger] head[k]).id == marked_images(head)[i]
                    && head[k].labels.contains_key(RUNTIME_PROTOCOL_LABEL@);
            assert(listed[k] == head[k]);
        } else {
            assert(listed[listed.len() - 1] == listed.last());
        }
    }
}

} // verus!
