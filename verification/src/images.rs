//! Images: what they are, and which of them declare runtimes.

use vstd::prelude::*;

use crate::catalog::{
    catalog_with_images, discovered_catalog, DiscoveredRuntimeImage, DiscoveredRuntimeImageView,
    DiscoveryPolicy, DiscoveryPolicyView, ResolvedImage, ResolvedImageView, ResolvedImages,
    RuntimeCatalog, RuntimeCatalogView,
};

use crate::container::opt_view;
use crate::descriptor::{
    image_runtime_name, parse_runtime_descriptor, parsed_descriptor, runtime_name_from_image,
};
use crate::labels::Labels;
use crate::order::{sort_ranked, sorted, text_at_most, text_lt};
use crate::runtime::{clone_opt_texts, opt_texts, ResolvedRuntime, ResolvedRuntimeView};
use crate::text::{
    agrees, cat2, cat3, cat4, cat5, clone_texts, contains_text, opt_text, same, texts, views,
};

verus! {

/// Why the container engine cannot be used.
#[derive(Debug)]
pub enum DockerBackendError {
    Docker(String),
    Discovery(String),
    Preflight(String),
    Reconciliation(String),
}

#[verifier::ext_equal]
pub enum DockerBackendErrorView {
    Docker(Seq<char>),
    Discovery(Seq<char>),
    Preflight(Seq<char>),
    Reconciliation(Seq<char>),
}

impl View for DockerBackendError {
    type V = DockerBackendErrorView;

    open spec fn view(&self) -> DockerBackendErrorView {
        match self {
            DockerBackendError::Docker(m) => DockerBackendErrorView::Docker(m@),
            DockerBackendError::Discovery(m) => DockerBackendErrorView::Discovery(m@),
            DockerBackendError::Preflight(m) => DockerBackendErrorView::Preflight(m@),
            DockerBackendError::Reconciliation(m) => DockerBackendErrorView::Reconciliation(m@),
        }
    }
}

impl DockerBackendErrorView {
    pub open spec fn text(self) -> Seq<char> {
        match self {
            DockerBackendErrorView::Docker(m) => "Docker runtime is unavailable: "@ + m,
            DockerBackendErrorView::Discovery(m) => "Docker runtime discovery failed: "@ + m,
            DockerBackendErrorView::Preflight(m) => "Docker startup preflight failed: "@ + m,
            DockerBackendErrorView::Reconciliation(m) => "Docker session reconciliation failed: "@
                + m,
        }
    }
}

impl DockerBackendError {
    pub fn message(&self) -> (r: String)
        ensures
            r@ == self@.text(),
    {
        match self {
            DockerBackendError::Docker(m) => cat2("Docker runtime is unavailable: ", m.as_str()),
            DockerBackendError::Discovery(m) => cat2(
                "Docker runtime discovery failed: ",
                m.as_str(),
            ),
            DockerBackendError::Preflight(m) => cat2(
                "Docker startup preflight failed: ",
                m.as_str(),
            ),
            DockerBackendError::Reconciliation(m) => cat2(
                "Docker session reconciliation failed: ",
                m.as_str(),
            ),
        }
    }
}

/// How an image is set up to run.
#[derive(Debug)]
pub struct ImageConfig {
    pub entrypoint: Option<Vec<String>>,
    pub command: Option<Vec<String>>,
    pub environment: Vec<String>,
    pub working_directory: Option<String>,
    pub labels: Option<Labels>,
}

#[verifier::ext_equal]
pub struct ImageConfigView {
    pub entrypoint: Option<Seq<Seq<char>>>,
    pub command: Option<Seq<Seq<char>>>,
    pub environment: Seq<Seq<char>>,
    pub working_directory: Option<Seq<char>>,
    pub labels: Option<Map<Seq<char>, Seq<char>>>,
}

impl View for ImageConfig {
    type V = ImageConfigView;

    open spec fn view(&self) -> ImageConfigView {
        ImageConfigView {
            entrypoint: opt_texts(self.entrypoint),
            command: opt_texts(self.command),
            environment: texts(self.environment@),
            working_directory: opt_text(self.working_directory),
            labels: opt_view(self.labels),
        }
    }
}

/// What the container engine says of an image.
#[derive(Debug)]
pub struct ImageInspection {
    pub id: Option<String>,
    pub repo_tags: Vec<String>,
    pub repo_digests: Vec<String>,
    pub os: Option<String>,
    pub architecture: Option<String>,
    pub variant: Option<String>,
    pub config: Option<ImageConfig>,
}

#[verifier::ext_equal]
pub struct ImageInspectionView {
    pub id: Option<Seq<char>>,
    pub repo_tags: Seq<Seq<char>>,
    pub repo_digests: Seq<Seq<char>>,
    pub os: Option<Seq<char>>,
    pub architecture: Option<Seq<char>>,
    pub variant: Option<Seq<char>>,
    pub config: Option<ImageConfigView>,
}

impl View for ImageInspection {
    type V = ImageInspectionView;

    open spec fn view(&self) -> ImageInspectionView {
        ImageInspectionView {
            id: opt_text(self.id),
            repo_tags: texts(self.repo_tags@),
            repo_digests: texts(self.repo_digests@),
            os: opt_text(self.os),
            architecture: opt_text(self.architecture),
            variant: opt_text(self.variant),
            config: opt_view(self.config),
        }
    }
}

/// The operating system, architecture and variant of an image.
pub open spec fn platform_of(inspection: ImageInspectionView, reference: Seq<char>) -> Result<
    Seq<char>,
    Seq<char>,
> {
    match (inspection.os, inspection.architecture) {
        (Some(os), Some(architecture)) => match inspection.variant {
            Some(variant) => if variant.len() > 0 {
                Ok(os + "/"@ + architecture + "/"@ + variant)
            } else {
                Ok(os + "/"@ + architecture)
            },
            None => Ok(os + "/"@ + architecture),
        },
        _ => Err("image "@ + reference + " has no platform metadata"@),
    }
}

pub fn image_platform(inspection: &ImageInspection, image_reference: &str) -> (r: Result<
    String,
    String,
>)
    ensures
        agrees(r, platform_of(inspection@, image_reference@)),
{
    match (&inspection.os, &inspection.architecture) {
        (Some(os), Some(architecture)) => match &inspection.variant {
            Some(variant) => {
                if variant.as_str().is_empty() {
                    Ok(cat3(os.as_str(), "/", architecture.as_str()))
                } else {
                    Ok(cat5(os.as_str(), "/", architecture.as_str(), "/", variant.as_str()))
                }
            },
            None => Ok(cat3(os.as_str(), "/", architecture.as_str())),
        },
        _ => Err(cat3("image ", image_reference, " has no platform metadata")),
    }
}

/// An identifier that is there and not empty.
pub open spec fn proper_id(id: Option<Seq<char>>) -> Option<Seq<char>> {
    match id {
        Some(id) => if id.len() > 0 {
            Some(id)
        } else {
            None
        },
        None => None,
    }
}

fn take_proper_id(id: &Option<String>) -> (r: Option<String>)
    ensures
        opt_text(r) == proper_id(opt_text(*id)),
{
    match id {
        Some(id) => {
            if id.as_str().is_empty() {
                None
            } else {
                Some(id.clone())
            }
        },
        None => None,
    }
}

/// What an image is called for good: the first of its digests, or its own identifier.
pub open spec fn immutable_reference_of(
    inspection: ImageInspectionView,
    reference: Seq<char>,
) -> Result<Seq<char>, Seq<char>> {
    match proper_id(inspection.id) {
        None => Err("image "@ + reference + " has no immutable image ID"@),
        Some(id) => if inspection.repo_digests.len() > 0 {
            Ok(sorted(inspection.repo_digests)[0])
        } else {
            Ok(id)
        },
    }
}

proof fn lemma_sorted_len(items: Seq<Seq<char>>)
    ensures
        sorted(items).len() == items.len(),
{
    let leq = |a: Seq<char>, b: Seq<char>| <String as crate::order::Ranked>::rank_le(a, b);
    <String as crate::order::Ranked>::lemma_rank_total();
    items.lemma_sort_by_ensures(leq);
    broadcast use vstd::seq_lib::group_to_multiset_ensures;

    assert(sorted(items).to_multiset().len() == items.to_multiset().len());
}

/// The first of a list of texts by order.
fn smallest(items: Vec<String>) -> (r: Option<String>)
    ensures
        match r {
            Some(s) => items@.len() > 0 && s@ == sorted(texts(items@))[0],
            None => items@.len() == 0,
        },
{
    let count = items.len();
    let ordered = sort_ranked(items);
    proof {
        lemma_sorted_len(texts(items@));
        assert(views(ordered@).len() == ordered@.len());
        assert(texts(items@).len() == items@.len());
    }
    if count == 0 {
        None
    } else {
        proof {
            assert(views(ordered@)[0] == ordered@[0]@);
        }
        Some(ordered[0].clone())
    }
}

pub fn immutable_image_reference(inspection: &ImageInspection, image_reference: &str) -> (r: Result<
    String,
    String,
>)
    ensures
        agrees(r, immutable_reference_of(inspection@, image_reference@)),
{
    match take_proper_id(&inspection.id) {
        None => Err(cat3("image ", image_reference, " has no immutable image ID")),
        Some(id) => {
            proof {
                assert(texts(inspection.repo_digests@).len() == inspection.repo_digests@.len());
            }
            let digests = clone_texts(&inspection.repo_digests);
            proof {
                assert(texts(digests@).len() == digests@.len());
            }
            match smallest(digests) {
                Some(digest) => Ok(digest),
                None => Ok(id),
            }
        },
    }
}

/// How an image runs, apart from what it is called.
pub open spec fn image_of(
    inspection: ImageInspectionView,
    immutable_reference: Seq<char>,
    platform: Seq<char>,
) -> ResolvedImageView {
    match inspection.config {
        None => ResolvedImageView {
            immutable_reference,
            platform,
            entrypoint: None,
            command: None,
            environment: Seq::empty(),
            working_directory: None,
        },
        Some(config) => ResolvedImageView {
            immutable_reference,
            platform,
            entrypoint: config.entrypoint,
            command: config.command,
            environment: config.environment,
            working_directory: proper_id(config.working_directory),
        },
    }
}

fn resolved_image(
    inspection: &ImageInspection,
    immutable_reference: String,
    platform: String,
) -> (r: ResolvedImage)
    ensures
        r@ == image_of(inspection@, immutable_reference@, platform@),
{
    match &inspection.config {
        None => {
            let environment: Vec<String> = Vec::new();
            proof {
                assert(texts(environment@) =~= Seq::empty());
            }
            ResolvedImage {
                immutable_reference,
                platform,
                entrypoint: None,
                command: None,
                environment,
                working_directory: None,
            }
        },
        Some(config) => ResolvedImage {
            immutable_reference,
            platform,
            entrypoint: clone_opt_texts(&config.entrypoint),
            command: clone_opt_texts(&config.command),
            environment: clone_texts(&config.environment),
            working_directory: take_proper_id(&config.working_directory),
        },
    }
}

// Discovery.

/// The name under which an image without an allowlist is taken: the first of its tags and digests.
pub open spec fn first_reference(inspection: ImageInspectionView) -> Option<Seq<char>> {
    let references = inspection.repo_tags + inspection.repo_digests;
    if references.len() > 0 {
        Some(sorted(references)[0])
    } else {
        None
    }
}

pub fn discovery_reference(inspection: &ImageInspection) -> (r: Option<String>)
    ensures
        opt_text(r) == first_reference(inspection@),
{
    let mut references = clone_texts(&inspection.repo_tags);
    let ghost tags = texts(references@);
    let ghost digests = texts(inspection.repo_digests@);
    for i in 0..inspection.repo_digests.len()
        invariant
            digests == texts(inspection.repo_digests@),
            texts(references@) == tags + digests.take(i as int),
    {
        let ghost before = references@;
        references.push(inspection.repo_digests[i].clone());
        proof {
            assert(texts(references@) =~= texts(before).push(
                inspection.repo_digests@[i as int]@,
            ));
            assert(texts(references@) =~= tags + digests.take(i as int + 1));
        }
    }
    proof {
        assert(digests.take(digests.len() as int) =~= digests);
        assert(texts(references@).len() == references@.len());
    }
    smallest(references)
}

/// The images found so far, by the identifier of their content.
pub struct ImageCandidates {
    entries: Vec<(String, DiscoveredRuntimeImage)>,
}

impl View for ImageCandidates {
    type V = Seq<(Seq<char>, DiscoveredRuntimeImageView)>;

    closed spec fn view(&self) -> Seq<(Seq<char>, DiscoveredRuntimeImageView)> {
        views(self.entries@)
    }
}

/// The place of a content identifier, or the length where it is not there.
pub open spec fn place_of(
    candidates: Seq<(Seq<char>, DiscoveredRuntimeImageView)>,
    content_id: Seq<char>,
) -> nat
    decreases candidates.len(),
{
    if candidates.len() == 0 || candidates[0].0 == content_id {
        0
    } else {
        1 + place_of(candidates.drop_first(), content_id)
    }
}

/// An image under more than one name is kept once, under the first name.
pub open spec fn with_candidate(
    candidates: Seq<(Seq<char>, DiscoveredRuntimeImageView)>,
    content_id: Seq<char>,
    image: DiscoveredRuntimeImageView,
) -> Seq<(Seq<char>, DiscoveredRuntimeImageView)> {
    let at = place_of(candidates, content_id) as int;
    if at < candidates.len() {
        let kept = candidates[at].1;
        if text_lt(image.image_reference, kept.image_reference) {
            candidates.update(
                at,
                (
                    content_id,
                    DiscoveredRuntimeImageView { image_reference: image.image_reference, ..kept },
                ),
            )
        } else {
            candidates
        }
    } else {
        candidates.push((content_id, image))
    }
}

/// What an image declares, or why it cannot be served.
pub open spec fn candidate_of(inspection: ImageInspectionView, reference: Seq<char>) -> Result<
    (Seq<char>, DiscoveredRuntimeImageView),
    DockerBackendErrorView,
> {
    match proper_id(inspection.id) {
        None => Err(
            DockerBackendErrorView::Discovery(
                "marked image "@ + reference + " has no immutable image ID"@,
            ),
        ),
        Some(content_id) => match immutable_reference_of(inspection, reference) {
            Err(e) => Err(DockerBackendErrorView::Discovery(e)),
            Ok(image_id) => match platform_of(inspection, reference) {
                Err(e) => Err(DockerBackendErrorView::Discovery(e)),
                Ok(platform) => match labels_of(inspection) {
                    None => Err(
                        DockerBackendErrorView::Discovery(
                            "selected image "@ + reference + " has no runtime labels"@,
                        ),
                    ),
                    Some(labels) => match parsed_descriptor(
                        labels,
                        image_runtime_name(reference),
                    ) {
                        Err(e) => Err(
                            DockerBackendErrorView::Discovery(
                                "image "@ + reference + " has invalid runtime labels: "@ + e.text(),
                            ),
                        ),
                        Ok(descriptor) => Ok(
                            (
                                content_id,
                                DiscoveredRuntimeImageView {
                                    image: image_of(inspection, image_id, platform),
                                    image_reference: reference,
                                    descriptor,
                                },
                            ),
                        ),
                    },
                },
            },
        },
    }
}

pub open spec fn labels_of(inspection: ImageInspectionView) -> Option<Map<Seq<char>, Seq<char>>> {
    match inspection.config {
        None => None,
        Some(config) => config.labels,
    }
}

impl ImageCandidates {
    pub fn new() -> (r: Self)
        ensures
            r@ == Seq::<(Seq<char>, DiscoveredRuntimeImageView)>::empty(),
    {
        let r = ImageCandidates { entries: Vec::new() };
        proof {
            assert(r@ =~= Seq::empty());
        }
        r
    }

    fn place(&self, content_id: &str) -> (r: usize)
        ensures
            r == place_of(self@, content_id@),
            r <= self@.len(),
    {
        let ghost all = self@;
        proof {
            assert(all.skip(0) =~= all);
        }
        for i in 0..self.entries.len()
            invariant
                all == self@,
                place_of(all, content_id@) == i + place_of(all.skip(i as int), content_id@),
        {
            proof {
                assert(all.skip(i as int)[0] == self.entries@[i as int]@);
                assert(all.skip(i as int).drop_first() =~= all.skip(i as int + 1));
            }
            if same(self.entries[i].0.as_str(), content_id) {
                return i;
            }
        }
        self.entries.len()
    }

    /// Adds an image that declares a runtime.
    pub fn insert_discovered_image(
        &mut self,
        inspection: &ImageInspection,
        image_reference: String,
    ) -> (r: Result<(), DockerBackendError>)
        ensures
            match candidate_of(inspection@, image_reference@) {
                Err(e) => final(self)@ == old(self)@ && (r matches Err(error) && error@ == e),
                Ok(found) => final(self)@ == with_candidate(old(self)@, found.0, found.1)
                    && r is Ok,
            },
    {
        let content_id = match take_proper_id(&inspection.id) {
            None => {
                return Err(
                    DockerBackendError::Discovery(
                        cat3(
                            "marked image ",
                            image_reference.as_str(),
                            " has no immutable image ID",
                        ),
                    ),
                );
            },
            Some(id) => id,
        };
        let image_id = match immutable_image_reference(inspection, image_reference.as_str()) {
            Err(e) => {
                return Err(DockerBackendError::Discovery(e));
            },
            Ok(id) => id,
        };
        let platform = match image_platform(inspection, image_reference.as_str()) {
            Err(e) => {
                return Err(DockerBackendError::Discovery(e));
            },
            Ok(platform) => platform,
        };
        let labels = match &inspection.config {
            Some(config) => match &config.labels {
                Some(labels) => Some(labels),
                None => None,
            },
            None => None,
        };
        let labels = match labels {
            None => {
                return Err(
                    DockerBackendError::Discovery(
                        cat3(
                            "selected image ",
                            image_reference.as_str(),
                            " has no runtime labels",
                        ),
                    ),
                );
            },
            Some(labels) => labels,
        };
        let default_name = runtime_name_from_image(image_reference.as_str());
        let descriptor = match parse_runtime_descriptor(labels, default_name.as_str()) {
            Err(e) => {
                let why = e.message();
                return Err(
                    DockerBackendError::Discovery(
                        cat4(
                            "image ",
                            image_reference.as_str(),
                            " has invalid runtime labels: ",
                            why.as_str(),
                        ),
                    ),
                );
            },
            Ok(descriptor) => descriptor,
        };
        let at = self.place(content_id.as_str());
        let ghost before = self@;
        proof {
            assert(before.len() == self.entries@.len());
        }
        if at < self.entries.len() {
            proof {
                assert(before[at as int] == self.entries@[at as int]@);
            }
            let kept_reference = self.entries[at].1.image_reference.clone();
            if !text_at_most(kept_reference.as_str(), image_reference.as_str()) {
                proof {
                    crate::order::lemma_text_le_total(kept_reference@, image_reference@);
                    crate::order::lemma_text_le_reflexive(image_reference@);
                }
                let mut kept: Vec<(String, DiscoveredRuntimeImage)> = Vec::new();
                core::mem::swap(&mut kept, &mut self.entries);
                let (id, image) = kept.remove(at);
                let renamed = DiscoveredRuntimeImage {
                    image: image.image,
                    image_reference,
                    descriptor: image.descriptor,
                };
                let pair = (content_id, renamed);
                let ghost added = pair@;
                kept.insert(at, pair);
                self.entries = kept;
                proof {
                    assert(self@ =~= before.update(at as int, added));
                }
            } else {
                proof {
                    if text_lt(image_reference@, kept_reference@) {
                        crate::order::lemma_text_le_antisymmetric(
                            image_reference@,
                            kept_reference@,
                        );
                    }
                }
            }
        } else {
            let image = DiscoveredRuntimeImage {
                image: resolved_image(inspection, image_id, platform),
                image_reference,
                descriptor,
            };
            let pair = (content_id, image);
            let ghost added = pair@;
            self.entries.push(pair);
            proof {
                assert(self@ =~= before.push(added));
            }
        }
        Ok(())
    }

    /// Makes the catalog of the images that were found.
    pub fn into_catalog(self, policy: &DiscoveryPolicy, environment: &Labels) -> (r: Result<
        RuntimeCatalog,
        DockerBackendError,
    >)
        ensures
            agrees(r, catalog_of_candidates(self@, policy@, environment@)),
    {
        let ghost all = self@;
        let mut rest = self.entries;
        let mut images: Vec<DiscoveredRuntimeImage> = Vec::new();
        let ghost mut done: int = 0;
        proof {
            assert(views(rest@) =~= all.skip(0));
            assert(views(images@) =~= second_parts(all.take(0)));
        }
        while rest.len() > 0
            invariant
                0 <= done <= all.len(),
                views(rest@) == all.skip(done),
                views(images@) == second_parts(all.take(done)),
            decreases rest@.len(),
        {
            let ghost rest_before = rest@;
            let ghost images_before = images@;
            let (_, image) = rest.remove(0);
            let ghost item = image@;
            images.push(image);
            proof {
                assert(views(rest_before).len() == rest_before.len());
                assert(views(rest_before)[0].1 == item);
                assert(all.skip(done)[0] == all[done]);
                assert(views(rest@) =~= views(rest_before).drop_first());
                assert(views(rest@) =~= all.skip(done + 1));
                assert(views(images@) =~= views(images_before).push(item));
                assert(views(images@) =~= second_parts(all.take(done + 1)));
                done = done + 1;
            }
        }
        proof {
            assert(views(rest@).len() == rest@.len());
            assert(all.take(all.len() as int) =~= all);
        }
        match RuntimeCatalog::from_discovered_images(images, policy, environment) {
            Ok(catalog) => Ok(catalog),
            Err(e) => Err(DockerBackendError::Discovery(e.message())),
        }
    }
}

/// The images of the candidates.
pub open spec fn second_parts(candidates: Seq<(Seq<char>, DiscoveredRuntimeImageView)>) -> Seq<
    DiscoveredRuntimeImageView,
> {
    candidates.map_values(|item: (Seq<char>, DiscoveredRuntimeImageView)| item.1)
}

pub open spec fn catalog_of_candidates(
    candidates: Seq<(Seq<char>, DiscoveredRuntimeImageView)>,
    policy: DiscoveryPolicyView,
    environment: Map<Seq<char>, Seq<char>>,
) -> Result<RuntimeCatalogView, DockerBackendErrorView> {
    match discovered_catalog(second_parts(candidates), policy, environment) {
        Ok(catalog) => Ok(catalog),
        Err(e) => Err(DockerBackendErrorView::Discovery(e.text())),
    }
}

// Images that a catalog file names.

/// An answer of the container engine about an image, by the reference that was asked for.
pub struct ImageAnswer {
    pub reference: String,
    pub outcome: Result<ImageInspection, String>,
}

#[verifier::ext_equal]
pub struct ImageAnswerView {
    pub reference: Seq<char>,
    pub outcome: Result<ImageInspectionView, Seq<char>>,
}

impl View for ImageAnswer {
    type V = ImageAnswerView;

    open spec fn view(&self) -> ImageAnswerView {
        ImageAnswerView {
            reference: self.reference@,
            outcome: match self.outcome {
                Ok(inspection) => Ok(inspection@),
                Err(message) => Err(message@),
            },
        }
    }
}

/// The answer about an image.
pub open spec fn answer_for(answers: Seq<ImageAnswerView>, reference: Seq<char>) -> Option<
    ImageAnswerView,
>
    decreases answers.len(),
{
    if answers.len() == 0 {
        None
    } else if answers[0].reference == reference {
        Some(answers[0])
    } else {
        answer_for(answers.drop_first(), reference)
    }
}

/// The place of the answer about an image, where there is one.
pub fn find_answer<'a>(answers: &'a Vec<ImageAnswer>, reference: &str) -> (r: Option<
    &'a ImageAnswer,
>)
    ensures
        match (r, answer_for(views(answers@), reference@)) {
            (Some(a), Some(b)) => a@ == b,
            (None, None) => true,
            _ => false,
        },
{
    let ghost all = views(answers@);
    proof {
        assert(all.skip(0) =~= all);
    }
    for i in 0..answers.len()
        invariant
            all == views(answers@),
            answer_for(all, reference@) == answer_for(all.skip(i as int), reference@),
    {
        proof {
            assert(all.skip(i as int)[0] == answers@[i as int]@);
            assert(all.skip(i as int).drop_first() =~= all.skip(i as int + 1));
        }
        if same(answers[i].reference.as_str(), reference) {
            return Some(&answers[i]);
        }
    }
    None
}

/// Some runtime's image is not pinned yet.
pub open spec fn some_unpinned(runtimes: Seq<ResolvedRuntimeView>) -> bool {
    exists|i: int| 0 <= i < runtimes.len() && (#[trigger] runtimes[i]).image_id.len() == 0
}

pub fn needs_image_ids(catalog: &RuntimeCatalog) -> (r: bool)
    ensures
        r == some_unpinned(catalog@.runtimes),
{
    for i in 0..catalog.runtimes.len()
        invariant
            forall|k: int| 0 <= k < i ==> (#[trigger] catalog@.runtimes[k]).image_id.len() != 0,
    {
        proof {
            assert(catalog@.runtimes[i as int] == catalog.runtimes@[i as int]@);
        }
        if catalog.runtimes[i].image_id.as_str().is_empty() {
            return true;
        }
    }
    false
}

/// The image references of a list of runtimes, each once, in order.
pub open spec fn distinct_images(runtimes: Seq<ResolvedRuntimeView>) -> Seq<Seq<char>>
    decreases runtimes.len(),
{
    if runtimes.len() == 0 {
        Seq::empty()
    } else {
        let before = distinct_images(runtimes.drop_last());
        if before.contains(runtimes.last().image) {
            before
        } else {
            before.push(runtimes.last().image)
        }
    }
}

/// The images to ask the container engine about.
pub fn images_to_inspect(catalog: &RuntimeCatalog) -> (r: Vec<String>)
    ensures
        texts(r@) == distinct_images(catalog@.runtimes),
{
    let mut out: Vec<String> = Vec::new();
    let ghost all = catalog@.runtimes;
    proof {
        assert(texts(out@) =~= distinct_images(all.take(0)));
    }
    for i in 0..catalog.runtimes.len()
        invariant
            all == catalog@.runtimes,
            texts(out@) == distinct_images(all.take(i as int)),
    {
        proof {
            assert(all.take(i as int + 1).drop_last() =~= all.take(i as int));
            assert(all.take(i as int + 1).last() == catalog.runtimes@[i as int]@);
        }
        if !contains_text(&out, catalog.runtimes[i].image.as_str()) {
            let ghost before = out@;
            out.push(catalog.runtimes[i].image.clone());
            proof {
                assert(texts(out@) =~= texts(before).push(catalog.runtimes@[i as int].image@));
            }
        }
    }
    proof {
        assert(all.take(all.len() as int) =~= all);
    }
    out
}

pub open spec fn runtime_prefix(runtime: ResolvedRuntimeView) -> Seq<char> {
    "runtime "@ + runtime.runtime_arn + " qualifier "@ + runtime.qualifier
}

fn write_runtime_prefix(runtime: &ResolvedRuntime) -> (r: String)
    ensures
        r@ == runtime_prefix(runtime@),
{
    cat4("runtime ", runtime.runtime_arn.as_str(), " qualifier ", runtime.qualifier.as_str())
}

/// The image of one runtime, from the answer about it.
pub open spec fn answered_image(
    runtime: ResolvedRuntimeView,
    answer: Option<ImageAnswerView>,
) -> Result<ResolvedImageView, DockerBackendErrorView> {
    match answer {
        None => Err(
            DockerBackendErrorView::Preflight(
                runtime_prefix(runtime) + " image "@ + runtime.image + " was not inspected"@,
            ),
        ),
        Some(answer) => match answer.outcome {
            Err(error) => Err(
                DockerBackendErrorView::Preflight(
                    runtime_prefix(runtime) + " image "@ + runtime.image
                        + " is not present in the Docker daemon; build or load it before starting Flint: "@
                        + error,
                ),
            ),
            Ok(inspection) => match immutable_reference_of(inspection, runtime.image) {
                Err(message) => Err(
                    DockerBackendErrorView::Preflight(
                        runtime_prefix(runtime) + " image "@ + runtime.image + " "@ + message,
                    ),
                ),
                Ok(image_id) => match platform_of(inspection, runtime.image) {
                    Err(message) => Err(DockerBackendErrorView::Preflight(message)),
                    Ok(platform) => Ok(image_of(inspection, image_id, platform)),
                },
            },
        },
    }
}

fn image_from_answer(runtime: &ResolvedRuntime, answers: &Vec<ImageAnswer>) -> (r: Result<
    ResolvedImage,
    DockerBackendError,
>)
    ensures
        agrees(r, answered_image(runtime@, answer_for(views(answers@), runtime@.image))),
{
    let prefix = write_runtime_prefix(runtime);
    match find_answer(answers, runtime.image.as_str()) {
        None => Err(
            DockerBackendError::Preflight(
                cat4(prefix.as_str(), " image ", runtime.image.as_str(), " was not inspected"),
            ),
        ),
        Some(answer) => match &answer.outcome {
            Err(error) => Err(
                DockerBackendError::Preflight(
                    cat5(
                        prefix.as_str(),
                        " image ",
                        runtime.image.as_str(),
                        " is not present in the Docker daemon; build or load it before starting Flint: ",
                        error.as_str(),
                    ),
                ),
            ),
            Ok(inspection) => match immutable_image_reference(inspection, runtime.image.as_str()) {
                Err(message) => Err(
                    DockerBackendError::Preflight(
                        cat5(
                            prefix.as_str(),
                            " image ",
                            runtime.image.as_str(),
                            " ",
                            message.as_str(),
                        ),
                    ),
                ),
                Ok(image_id) => match image_platform(inspection, runtime.image.as_str()) {
                    Err(message) => Err(DockerBackendError::Preflight(message)),
                    Ok(platform) => Ok(resolved_image(inspection, image_id, platform)),
                },
            },
        },
    }
}

/// The images of the runtimes by reference; the first runtime whose image cannot be had decides.
pub open spec fn answered_images(
    runtimes: Seq<ResolvedRuntimeView>,
    answers: Seq<ImageAnswerView>,
) -> Result<Seq<(Seq<char>, ResolvedImageView)>, DockerBackendErrorView>
    decreases runtimes.len(),
{
    if runtimes.len() == 0 {
        Ok(Seq::empty())
    } else {
        match answered_images(runtimes.drop_last(), answers) {
            Err(e) => Err(e),
            Ok(before) => {
                let runtime = runtimes.last();
                match answered_image(runtime, answer_for(answers, runtime.image)) {
                    Err(e) => Err(e),
                    Ok(image) => Ok(before.push((runtime.image, image))),
                }
            },
        }
    }
}

proof fn lemma_answered_images_error(
    runtimes: Seq<ResolvedRuntimeView>,
    answers: Seq<ImageAnswerView>,
    n: int,
)
    requires
        0 <= n <= runtimes.len(),
        answered_images(runtimes.take(n), answers) is Err,
    ensures
        answered_images(runtimes, answers) == answered_images(runtimes.take(n), answers),
    decreases runtimes.len() - n,
{
    if n < runtimes.len() {
        assert(runtimes.take(n + 1).drop_last() =~= runtimes.take(n));
        lemma_answered_images_error(runtimes, answers, n + 1);
    } else {
        assert(runtimes.take(n) =~= runtimes);
    }
}

/// The catalog with its images pinned to what the container engine has, unless they are already.
pub open spec fn pinned_catalog(
    catalog: RuntimeCatalogView,
    answers: Seq<ImageAnswerView>,
) -> Result<RuntimeCatalogView, DockerBackendErrorView> {
    if !some_unpinned(catalog.runtimes) {
        Ok(catalog)
    } else {
        match answered_images(catalog.runtimes, answers) {
            Err(e) => Err(e),
            Ok(images) => match catalog_with_images(catalog, images) {
                Err(e) => Err(DockerBackendErrorView::Preflight(e.text())),
                Ok(pinned) => Ok(pinned),
            },
        }
    }
}

pub fn resolve_catalog_image_ids(catalog: &RuntimeCatalog, answers: &Vec<ImageAnswer>) -> (r: Result<
    RuntimeCatalog,
    DockerBackendError,
>)
    ensures
        agrees(r, pinned_catalog(catalog@, views(answers@))),
{
    if !needs_image_ids(catalog) {
        return Ok(catalog.clone());
    }
    let ghost all = catalog@.runtimes;
    let mut entries: Vec<(String, ResolvedImage)> = Vec::new();
    proof {
        assert(views(entries@) =~= Seq::empty());
    }
    for i in 0..catalog.runtimes.len()
        invariant
            all == catalog@.runtimes,
            some_unpinned(catalog@.runtimes),
            answered_images(all.take(i as int), views(answers@)) == Ok::<
                Seq<(Seq<char>, ResolvedImageView)>,
                DockerBackendErrorView,
            >(views(entries@)),
    {
        let runtime = &catalog.runtimes[i];
        proof {
            assert(all.take(i as int + 1).drop_last() =~= all.take(i as int));
            assert(all.take(i as int + 1).last() == runtime@);
        }
        match image_from_answer(runtime, answers) {
            Err(e) => {
                proof {
                    lemma_answered_images_error(all, views(answers@), i as int + 1);
                }
                return Err(e);
            },
            Ok(image) => {
                let ghost before = entries@;
                let pair = (runtime.image.clone(), image);
                let ghost added = pair@;
                entries.push(pair);
                proof {
                    assert(views(entries@) =~= views(before).push(added));
                }
            },
        }
    }
    proof {
        assert(all.take(all.len() as int) =~= all);
    }
    let images = ResolvedImages { entries };
    match catalog.with_resolved_image_ids(&images) {
        Err(e) => Err(DockerBackendError::Preflight(e.message())),
        Ok(pinned) => Ok(pinned),
    }
}

} // verus!
