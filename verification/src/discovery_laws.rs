//! What holds of every runtime that a catalog has, wherever it was found.

use vstd::prelude::*;
use vstd::seq_lib::*;
use vstd::utf8::encode_utf8;

use crate::catalog::{
    add_documents, add_image_ids, add_images, catalog_with_images, descriptor_value,
    discovered_catalog, discovery_generation, file_catalog, file_generation, find_image,
    find_runtime, image_generation, image_value, policy_values, resolved, with_generation,
    with_values, DiscoveredRuntimeImage, DiscoveredRuntimeImageView, DiscoveryPolicyView,
    ResolvedImageView, RuntimeCatalogSourceView, RuntimeCatalogView, RuntimeDocumentView,
};
use crate::catalog_error::CatalogErrorView;
use crate::container::AdoptionErrorView;
use crate::descriptor::{
    all_trimmed, declaration_checked, first_empty, image_runtime_name, is_environment_name,
    is_runtime_id, lifecycle_of, parsed_descriptor, variables_checked,
    LifecycleConfigurationDocument,
};
use crate::discovery::{
    discovered, gathered, reconcile_step_of, refreshed, selected_images, ListedImageView,
    ReconcileStepView,
};
use crate::environment::requested_environment;
use crate::image_laws::{image_runtime, lemma_added};
use crate::images::{
    answer_for, answered_images, candidate_of, distinct_images, first_reference,
    immutable_reference_of, pinned_catalog, place_of, platform_of, second_parts, with_candidate,
    DockerBackendErrorView, ImageAnswerView, ImageInspectionView,
};
use crate::labels::lookup;
use crate::number::parsed_u64;
use crate::order::{keyed_order, law_keyed_order, sorted, text_le, text_lt, Ranked};
use crate::primitives::{hex_text, sha256};
use crate::registry::{degraded, fresh_registry, RuntimeRegistryView};
use crate::runtime::{
    AuthenticationMode, ConnectivityMode, LifecyclePolicy, LocalIdentityView, Protocol,
    ResolvedRuntime, ResolvedRuntimeView,
};
use crate::text::{join, split, trimmed};

verus! {

// What a runtime is given.

/// The runtime is called and works as this says, and gets the variables that it asks for and may
/// have.
pub open spec fn serves(
    runtime: ResolvedRuntimeView,
    name: Seq<char>,
    image_reference: Seq<char>,
    protocol: Protocol,
    variables: Seq<Seq<char>>,
    policy: DiscoveryPolicyView,
    environment: Map<Seq<char>, Seq<char>>,
) -> bool {
    let requested = requested_environment(
        name,
        variables,
        policy.environment_allowlist,
        environment,
    );
    &&& runtime.runtime_id == name
    &&& runtime.runtime_arn == "arn:aws:bedrock-agentcore:"@ + "us-east-1"@ + ":"@ + "000000000000"@
        + ":runtime/"@ + name
    &&& runtime.account_id == "000000000000"@
    &&& runtime.qualifier == "DEFAULT"@
    &&& runtime.image == image_reference
    &&& runtime.protocol == protocol
    &&& runtime.environment == requested.variables
    &&& runtime.environment_warnings == requested.warnings
    &&& runtime.allowed_custom_headers == policy.header_allowlist
    &&& runtime.connectivity == policy.connectivity
}

/// The runtime may use 256 MiB of memory, half a processor, 64 processes and 64 MiB of scratch space
/// that nothing runs from, and cannot write anywhere else.
pub open spec fn is_limited(runtime: ResolvedRuntimeView) -> bool {
    &&& runtime.resources.memory_bytes == 256 * 1024 * 1024
    &&& runtime.resources.nano_cpus * 2 == 1_000_000_000
    &&& runtime.resources.pids_limit == 64
    &&& runtime.resources.workspace_size_bytes == 64 * 1024 * 1024
    &&& runtime.resources.workspace_no_exec
    &&& runtime.resources.read_only_root_filesystem
}

/// One command at a time runs in the runtime, through a login shell, for half a minute and a
/// mebibyte of output at most; a request and an answer have two mebibytes in pieces of 256 KiB, and
/// a minute.
pub open spec fn is_bounded(runtime: ResolvedRuntimeView) -> bool {
    &&& runtime.command.enabled
    &&& runtime.command.shell == seq!["/bin/sh"@, "-lc"@]
    &&& runtime.command.max_concurrency == 1
    &&& runtime.command.timeout_seconds == 30
    &&& runtime.command.max_output_bytes == 1024 * 1024
    &&& runtime.limits.max_request_bytes == 2 * 1024 * 1024
    &&& runtime.limits.max_response_bytes == 2 * 1024 * 1024
    &&& runtime.limits.max_chunk_bytes == 256 * 1024
    &&& runtime.limits.max_duration_seconds == 60
}

/// Requests are let in without a signature that is checked, and nothing is granted or denied.
pub open spec fn is_open(runtime: ResolvedRuntimeView) -> bool {
    &&& runtime.authentication.mode == AuthenticationMode::Permissive
    &&& runtime.authentication.allowed_clock_skew_seconds == 300
    &&& runtime.authentication.credentials.len() == 0
    &&& runtime.policy.identity_statements.len() == 0
    &&& runtime.policy.resource_statements.len() == 0
}

/// The name that a document gives its runtime: its own, or else that of its image.
pub open spec fn document_name(document: RuntimeDocumentView) -> Seq<char> {
    match document.name {
        Some(name) => name,
        None => image_runtime_name(document.image),
    }
}

proof fn lemma_documents(
    documents: Seq<RuntimeDocumentView>,
    policy: DiscoveryPolicyView,
    environment: Map<Seq<char>, Seq<char>>,
)
    requires
        add_documents(documents, policy, environment) is Ok,
    ensures
        ({
            let built = add_documents(documents, policy, environment)->Ok_0;
            &&& built.runtimes.len() == documents.len()
            &&& built.names.len() == documents.len()
            &&& forall|k: int|
                0 <= k < documents.len() ==> {
                    let runtime = #[trigger] built.runtimes[k];
                    let document = documents[k];
                    &&& built.names[k] == document_name(document)
                    &&& trimmed(document.image).len() > 0
                    &&& serves(
                        runtime,
                        document_name(document),
                        document.image,
                        document.protocol,
                        document.environment_variables,
                        policy,
                        environment,
                    )
                    &&& is_limited(runtime) && is_bounded(runtime) && is_open(runtime)
                    &&& runtime.image_id.len() == 0
                    &&& declaration_checked(
                        document_name(document),
                        document.environment_variables,
                        document.lifecycle_configuration,
                    ) == Ok::<LifecyclePolicy, Seq<char>>(runtime.lifecycle)
                }
            &&& forall|i: int, k: int|
                0 <= i < k < documents.len() ==> document_name(#[trigger] documents[i])
                    != document_name(#[trigger] documents[k])
        }),
    decreases documents.len(),
{
    if documents.len() > 0 {
        let rest = documents.drop_last();
        lemma_documents(rest, policy, environment);
        let before = add_documents(rest, policy, environment)->Ok_0;
        let built = add_documents(documents, policy, environment)->Ok_0;
        let last = documents.len() - 1;
        assert(documents[last] == documents.last());
        assert forall|k: int| 0 <= k < documents.len() implies {
            let runtime = #[trigger] built.runtimes[k];
            let document = documents[k];
            &&& built.names[k] == document_name(document)
            &&& trimmed(document.image).len() > 0
            &&& serves(
                runtime,
                document_name(document),
                document.image,
                document.protocol,
                document.environment_variables,
                policy,
                environment,
            )
            &&& is_limited(runtime) && is_bounded(runtime) && is_open(runtime)
            &&& runtime.image_id.len() == 0
            &&& declaration_checked(
                document_name(document),
                document.environment_variables,
                document.lifecycle_configuration,
            ) == Ok::<LifecyclePolicy, Seq<char>>(runtime.lifecycle)
        } by {
            if k < last {
                assert(built.runtimes[k] == before.runtimes[k]);
                assert(documents[k] == rest[k]);
            }
        }
        assert forall|i: int, k: int| 0 <= i < k < documents.len() implies document_name(
            #[trigger] documents[i],
        ) != document_name(#[trigger] documents[k]) by {
            assert(documents[i] == rest[i]);
            assert(before.runtimes[i] == built.runtimes[i]);
            if k < last {
                assert(documents[k] == rest[k]);
            } else {
                assert(before.names[i] == document_name(documents[i]));
            }
        }
    }
}

proof fn lemma_fitting_documents(
    documents: Seq<RuntimeDocumentView>,
    policy: DiscoveryPolicyView,
    environment: Map<Seq<char>, Seq<char>>,
)
    requires
        forall|k: int|
            0 <= k < documents.len() ==> trimmed((#[trigger] documents[k]).image).len() > 0
                && declaration_checked(
                document_name(documents[k]),
                documents[k].environment_variables,
                documents[k].lifecycle_configuration,
            ) is Ok,
        forall|i: int, k: int|
            0 <= i < k < documents.len() ==> document_name(#[trigger] documents[i])
                != document_name(#[trigger] documents[k]),
    ensures
        add_documents(documents, policy, environment) is Ok,
    decreases documents.len(),
{
    if documents.len() > 0 {
        let rest = documents.drop_last();
        let last = documents.len() - 1;
        assert forall|k: int| 0 <= k < rest.len() implies trimmed(
            (#[trigger] rest[k]).image,
        ).len() > 0 && declaration_checked(
            document_name(rest[k]),
            rest[k].environment_variables,
            rest[k].lifecycle_configuration,
        ) is Ok by {
            assert(rest[k] == documents[k]);
        }
        assert forall|i: int, k: int| 0 <= i < k < rest.len() implies document_name(
            #[trigger] rest[i],
        ) != document_name(#[trigger] rest[k]) by {
            assert(rest[i] == documents[i] && rest[k] == documents[k]);
        }
        lemma_fitting_documents(rest, policy, environment);
        lemma_documents(rest, policy, environment);
        let before = add_documents(rest, policy, environment)->Ok_0;
        assert(documents[last] == documents.last());
        if before.names.contains(document_name(documents.last())) {
            let i = choose|i: int|
                0 <= i < before.names.len() && before.names[i] == document_name(documents.last());
            assert(before.runtimes[i] == before.runtimes[i]);
            assert(documents[i] == rest[i]);
            assert(document_name(documents[i]) != document_name(documents[last]));
        }
    }
}

/// A file gives a catalog exactly where it has a runtime, every image is named, no two runtimes have
/// one name, and each is declared as it may be: with a proper name, proper variables of which none
/// comes twice, and a proper lifecycle.
pub proof fn law_files_that_give_catalogs(
    path: Seq<char>,
    canonical_source: Seq<u8>,
    documents: Seq<RuntimeDocumentView>,
    policy: DiscoveryPolicyView,
    environment: Map<Seq<char>, Seq<char>>,
)
    ensures
        file_catalog(path, canonical_source, documents, policy, environment) is Ok <==> {
            &&& documents.len() > 0
            &&& forall|k: int|
                0 <= k < documents.len() ==> {
                    let document = #[trigger] documents[k];
                    &&& trimmed(document.image).len() > 0
                    &&& is_runtime_id(document_name(document))
                    &&& are_variables(document.environment_variables)
                    &&& lifecycle_of(document.lifecycle_configuration) is Ok
                }
            &&& forall|i: int, k: int|
                0 <= i < k < documents.len() ==> document_name(#[trigger] documents[i])
                    != document_name(#[trigger] documents[k])
        },
{
    if file_catalog(path, canonical_source, documents, policy, environment) is Ok {
        lemma_documents(documents, policy, environment);
        let built = add_documents(documents, policy, environment)->Ok_0;
        assert forall|k: int| 0 <= k < documents.len() implies {
            let document = #[trigger] documents[k];
            &&& trimmed(document.image).len() > 0
            &&& is_runtime_id(document_name(document))
            &&& are_variables(document.environment_variables)
            &&& lifecycle_of(document.lifecycle_configuration) is Ok
        } by {
            assert(built.runtimes[k] == built.runtimes[k]);
            lemma_variables(document_name(documents[k]), documents[k].environment_variables);
        }
    }
    if documents.len() > 0 && (forall|k: int|
        0 <= k < documents.len() ==> {
            let document = #[trigger] documents[k];
            &&& trimmed(document.image).len() > 0
            &&& is_runtime_id(document_name(document))
            &&& are_variables(document.environment_variables)
            &&& lifecycle_of(document.lifecycle_configuration) is Ok
        }) && (forall|i: int, k: int|
        0 <= i < k < documents.len() ==> document_name(#[trigger] documents[i]) != document_name(
            #[trigger] documents[k],
        )) {
        assert forall|k: int| 0 <= k < documents.len() implies trimmed(
            (#[trigger] documents[k]).image,
        ).len() > 0 && declaration_checked(
            document_name(documents[k]),
            documents[k].environment_variables,
            documents[k].lifecycle_configuration,
        ) is Ok by {
            lemma_variables(document_name(documents[k]), documents[k].environment_variables);
        }
        lemma_fitting_documents(documents, policy, environment);
    }
}

/// These are names of variables, and none comes twice.
pub open spec fn are_variables(variables: Seq<Seq<char>>) -> bool {
    &&& forall|i: int| 0 <= i < variables.len() ==> is_environment_name(#[trigger] variables[i])
    &&& variables.no_duplicates()
}

proof fn lemma_variables(name: Seq<char>, variables: Seq<Seq<char>>)
    ensures
        variables_checked(name, variables) is Ok <==> are_variables(variables),
    decreases variables.len(),
{
    if variables.len() > 0 {
        let rest = variables.drop_last();
        let last = variables.len() - 1;
        lemma_variables(name, rest);
        if are_variables(variables) {
            assert forall|i: int| 0 <= i < rest.len() implies is_environment_name(
                #[trigger] rest[i],
            ) by {
                assert(rest[i] == variables[i]);
            }
            assert(is_environment_name(variables[last]));
            if rest.contains(variables[last]) {
                let i = choose|i: int| 0 <= i < rest.len() && rest[i] == variables[last];
                assert(variables[i] == variables[last]);
            }
        }
        if are_variables(rest) && is_environment_name(variables.last()) && !rest.contains(
            variables.last(),
        ) {
            assert forall|i: int| 0 <= i < variables.len() implies is_environment_name(
                #[trigger] variables[i],
            ) by {
                if i < last {
                    assert(rest[i] == variables[i]);
                }
            }
            assert forall|i: int, j: int|
                0 <= i < variables.len() && 0 <= j < variables.len() && i != j implies variables[i]
                != variables[j] by {
                if i < last && j < last {
                    assert(rest[i] == variables[i] && rest[j] == variables[j]);
                } else if i < last {
                    assert(rest[i] == variables[i]);
                } else {
                    assert(rest[j] == variables[j]);
                }
            }
        }
    }
}

/// The runtimes of a file are those of its documents, in their order: each has its name, its image,
/// its protocol, its variables and its lifecycle, and the limits and rules of every runtime.
pub proof fn law_file_runtimes_follow_their_documents(
    path: Seq<char>,
    canonical_source: Seq<u8>,
    documents: Seq<RuntimeDocumentView>,
    policy: DiscoveryPolicyView,
    environment: Map<Seq<char>, Seq<char>>,
    k: int,
)
    requires
        file_catalog(path, canonical_source, documents, policy, environment) is Ok,
        0 <= k < documents.len(),
    ensures
        ({
            let catalog = file_catalog(
                path,
                canonical_source,
                documents,
                policy,
                environment,
            )->Ok_0;
            let runtime = catalog.runtimes[k];
            &&& catalog.source == RuntimeCatalogSourceView::File(path)
            &&& catalog.runtimes.len() == documents.len()
            &&& runtime.catalog_generation == catalog.generation
            &&& serves(
                runtime,
                document_name(documents[k]),
                documents[k].image,
                documents[k].protocol,
                documents[k].environment_variables,
                policy,
                environment,
            )
            &&& lifecycle_of(documents[k].lifecycle_configuration) == Ok::<
                LifecyclePolicy,
                Seq<char>,
            >(runtime.lifecycle)
            &&& is_limited(runtime) && is_bounded(runtime) && is_open(runtime)
            &&& runtime.image_id.len() == 0
        }),
{
    lemma_documents(documents, policy, environment);
    let built = add_documents(documents, policy, environment)->Ok_0;
    assert(built.runtimes[k] == built.runtimes[k]);
}

/// The runtimes found among images are those of the images: each has the name, the protocol, the
/// variables and the lifecycle of its descriptor, and starts what its image holds.
pub proof fn law_discovered_runtimes_follow_their_images(
    images: Seq<DiscoveredRuntimeImageView>,
    policy: DiscoveryPolicyView,
    environment: Map<Seq<char>, Seq<char>>,
    k: int,
)
    requires
        discovered_catalog(images, policy, environment) is Ok,
        0 <= k < images.len(),
    ensures
        ({
            let catalog = discovered_catalog(images, policy, environment)->Ok_0;
            let descriptor = images[k].descriptor;
            let image = images[k].image;
            &&& catalog.source == RuntimeCatalogSourceView::Docker
            &&& catalog.runtimes.len() == images.len()
            &&& exists|j: int|
                0 <= j < catalog.runtimes.len() && {
                    let runtime = #[trigger] catalog.runtimes[j];
                    &&& serves(
                        runtime,
                        descriptor.name,
                        images[k].image_reference,
                        descriptor.protocol,
                        descriptor.environment_variables,
                        policy,
                        environment,
                    )
                    &&& runtime.catalog_generation == catalog.generation
                    &&& lifecycle_of(descriptor.lifecycle_configuration) == Ok::<
                        LifecyclePolicy,
                        Seq<char>,
                    >(runtime.lifecycle)
                    &&& runtime.image_id == image.immutable_reference
                    &&& runtime.image_platform == image.platform
                    &&& runtime.image_entrypoint == image.entrypoint
                    &&& runtime.image_command == image.command
                    &&& runtime.image_environment == image.environment
                    &&& runtime.image_working_directory == image.working_directory
                    &&& is_limited(runtime) && is_bounded(runtime) && is_open(runtime)
                }
        }),
{
    broadcast use group_to_multiset_ensures;

    let ordered = keyed_order::<DiscoveredRuntimeImage>(images);
    law_keyed_order::<DiscoveredRuntimeImage>(images);
    lemma_added(ordered, policy, environment);
    let built = add_images(ordered, policy, environment)->Ok_0;
    law_keyed_order::<ResolvedRuntime>(built.runtimes);
    let runtimes = keyed_order::<ResolvedRuntime>(built.runtimes);
    let catalog = discovered_catalog(images, policy, environment)->Ok_0;
    assert(ordered.len() == images.len()) by {
        assert(ordered.to_multiset().len() == images.to_multiset().len());
    }
    assert(runtimes.len() == built.runtimes.len()) by {
        assert(runtimes.to_multiset().len() == built.runtimes.to_multiset().len());
    }
    assert(images.contains(images[k]));
    assert(images.to_multiset().count(images[k]) > 0);
    assert(ordered.contains(images[k]));
    let at = choose|at: int| 0 <= at < ordered.len() && ordered[at] == images[k];
    let made = image_runtime(images[k], policy, environment);
    assert(built.runtimes[at] == made);
    assert(built.runtimes.contains(made));
    assert(built.runtimes.to_multiset().count(made) > 0);
    assert(runtimes.contains(made));
    let j = choose|j: int| 0 <= j < runtimes.len() && runtimes[j] == made;
    assert(catalog.runtimes[j] == (ResolvedRuntimeView {
        catalog_generation: catalog.generation,
        ..made
    }));
    assert(crate::image_laws::is_servable(ordered[at]));
}

/// Without an image there is a catalog all the same, and it is empty.
pub proof fn law_no_images_no_runtimes(
    policy: DiscoveryPolicyView,
    environment: Map<Seq<char>, Seq<char>>,
)
    ensures
        discovered_catalog(Seq::empty(), policy, environment) matches Ok(catalog)
            && catalog.runtimes.len() == 0 && catalog.source == RuntimeCatalogSourceView::Docker
            && catalog.generation == hex_text(sha256(encode_utf8("docker-discovery-empty-v1"@))),
{
}

// Labels.

/// The variables that the labels of an image ask for.
pub open spec fn labelled_variables(labels: Map<Seq<char>, Seq<char>>) -> Seq<Seq<char>> {
    match lookup(labels, "ai.ameba.flint.runtime.environment-variables"@) {
        None => Seq::empty(),
        Some(text) => if trimmed(text).len() == 0 {
            Seq::empty()
        } else {
            all_trimmed(split(text, ','))
        },
    }
}

/// The number that a label holds, where the label is there.
pub open spec fn labelled_number(labels: Map<Seq<char>, Seq<char>>, label: Seq<char>) -> Option<
    u64,
> {
    match lookup(labels, label) {
        None => None,
        Some(text) => Some(parsed_u64(text)->Ok_0),
    }
}

/// Labels declare a runtime exactly where the protocol is one that is known, the times are numbers,
/// and name, variables and lifecycle are as they may be. The runtime is then what the labels say; its
/// name, where no label gives one, is that of the image.
pub proof fn law_labels_that_declare_runtimes(
    labels: Map<Seq<char>, Seq<char>>,
    default_name: Seq<char>,
)
    ensures
        ({
            let protocol = lookup(labels, "ai.ameba.flint.runtime.protocol"@);
            let named = lookup(labels, "ai.ameba.flint.runtime.name"@);
            let name = if named is Some {
                named->Some_0
            } else {
                default_name
            };
            let idle = lookup(
                labels,
                "ai.ameba.flint.runtime.lifecycle.idle-runtime-session-timeout"@,
            );
            let life = lookup(labels, "ai.ameba.flint.runtime.lifecycle.max-lifetime"@);
            let lifecycle = LifecycleConfigurationDocument {
                idle_runtime_session_timeout: labelled_number(
                    labels,
                    "ai.ameba.flint.runtime.lifecycle.idle-runtime-session-timeout"@,
                ),
                max_lifetime: labelled_number(
                    labels,
                    "ai.ameba.flint.runtime.lifecycle.max-lifetime"@,
                ),
            };
            let parsed = parsed_descriptor(labels, default_name);
            &&& parsed is Ok <==> {
                &&& protocol == Some("HTTP"@) || protocol == Some("MCP"@) || protocol == Some(
                    "A2A"@,
                ) || protocol == Some("AGUI"@)
                &&& is_runtime_id(name)
                &&& are_variables(labelled_variables(labels))
                &&& idle is Some ==> parsed_u64(idle->Some_0) is Ok
                &&& life is Some ==> parsed_u64(life->Some_0) is Ok
                &&& lifecycle_of(lifecycle) is Ok
            }
            &&& parsed matches Ok(descriptor) ==> descriptor.name == name
                && descriptor.environment_variables == labelled_variables(labels)
                && descriptor.lifecycle_configuration == lifecycle
        }),
{
    let named = lookup(labels, "ai.ameba.flint.runtime.name"@);
    let name = if named is Some {
        named->Some_0
    } else {
        default_name
    };
    let variables = labelled_variables(labels);
    lemma_variables(name, variables);
    if are_variables(variables) {
        assert forall|i: int| 0 <= i < variables.len() implies (#[trigger] variables[i]).len()
            > 0 by {
            assert(is_environment_name(variables[i]));
        }
        lemma_none_empty(variables);
    }
}

proof fn lemma_none_empty(names: Seq<Seq<char>>)
    requires
        forall|i: int| 0 <= i < names.len() ==> (#[trigger] names[i]).len() > 0,
    ensures
        first_empty(names) is None,
    decreases names.len(),
{
    if names.len() > 0 {
        let rest = names.drop_first();
        assert forall|i: int| 0 <= i < rest.len() implies (#[trigger] rest[i]).len() > 0 by {
            assert(rest[i] == names[i + 1]);
        }
        assert(names[0].len() > 0);
        lemma_none_empty(rest);
    }
}

// Images.

/// The first entry of an image under a reference counts.
pub proof fn law_images_are_found(
    images: Seq<(Seq<char>, ResolvedImageView)>,
    reference: Seq<char>,
    k: int,
)
    ensures
        find_image(images, reference) is None <==> forall|i: int|
            0 <= i < images.len() ==> (#[trigger] images[i]).0 != reference,
        (0 <= k < images.len() && images[k].0 == reference && forall|i: int|
            0 <= i < k ==> (#[trigger] images[i]).0 != reference) ==> find_image(images, reference)
            == Some(images[k].1),
    decreases images.len(),
{
    if images.len() > 0 {
        let rest = images.drop_first();
        law_images_are_found(rest, reference, k - 1);
        assert forall|i: int| 0 <= i < rest.len() implies #[trigger] rest[i] == images[i + 1] by {}
        if images[0].0 != reference {
            if forall|i: int| 0 <= i < rest.len() ==> (#[trigger] rest[i]).0 != reference {
                assert forall|i: int| 0 <= i < images.len() implies (#[trigger] images[i]).0
                    != reference by {
                    if i > 0 {
                        assert(rest[i - 1] == images[i]);
                    }
                }
            }
            if k > 0 && (forall|i: int| 0 <= i < k ==> (#[trigger] images[i]).0 != reference) {
                assert forall|i: int| 0 <= i < k - 1 && i < rest.len() implies (
                #[trigger] rest[i]).0 != reference by {
                    assert(rest[i] == images[i + 1]);
                }
            }
        }
    }
}

/// Pinning succeeds exactly where every image of the catalog is known. Each runtime then starts what
/// its image holds; all else about it stays, but for the generation.
pub proof fn law_pinned_runtimes_start_their_image(
    catalog: RuntimeCatalogView,
    images: Seq<(Seq<char>, ResolvedImageView)>,
    k: int,
)
    ensures
        catalog_with_images(catalog, images) is Ok <==> forall|i: int|
            0 <= i < catalog.runtimes.len() ==> find_image(
                images,
                (#[trigger] catalog.runtimes[i]).image,
            ) is Some,
        catalog_with_images(catalog, images) is Ok && 0 <= k < catalog.runtimes.len() ==> {
            let pinned = catalog_with_images(catalog, images)->Ok_0;
            let before = catalog.runtimes[k];
            let after = pinned.runtimes[k];
            let image = find_image(images, before.image)->Some_0;
            &&& pinned.source == catalog.source
            &&& pinned.runtimes.len() == catalog.runtimes.len()
            &&& after.image_id == image.immutable_reference
            &&& after.image_platform == image.platform
            &&& after.image_entrypoint == image.entrypoint
            &&& after.image_command == image.command
            &&& after.image_environment == image.environment
            &&& after.image_working_directory == image.working_directory
            &&& after.catalog_generation == pinned.generation
            &&& before == (ResolvedRuntimeView {
                catalog_generation: before.catalog_generation,
                image_id: before.image_id,
                image_platform: before.image_platform,
                image_entrypoint: before.image_entrypoint,
                image_command: before.image_command,
                image_environment: before.image_environment,
                image_working_directory: before.image_working_directory,
                ..after
            })
        },
{
    lemma_image_ids(catalog.runtimes, images);
    if catalog_with_images(catalog, images) is Ok && 0 <= k < catalog.runtimes.len() {
        let added = add_image_ids(catalog.runtimes, images)->Ok_0;
        let pinned = catalog_with_images(catalog, images)->Ok_0;
        assert(added.0[k] == added.0[k]);
        assert(pinned.runtimes == with_generation(added.0, pinned.generation));
    }
}

proof fn lemma_image_ids(
    runtimes: Seq<ResolvedRuntimeView>,
    images: Seq<(Seq<char>, ResolvedImageView)>,
)
    ensures
        add_image_ids(runtimes, images) is Ok <==> forall|i: int|
            0 <= i < runtimes.len() ==> find_image(images, (#[trigger] runtimes[i]).image) is Some,
        add_image_ids(runtimes, images) matches Ok(added) ==> {
            &&& added.0.len() == runtimes.len()
            &&& forall|i: int|
                0 <= i < runtimes.len() ==> {
                    let image = find_image(images, runtimes[i].image)->Some_0;
                    #[trigger] added.0[i] == (ResolvedRuntimeView {
                        image_id: image.immutable_reference,
                        image_platform: image.platform,
                        image_entrypoint: image.entrypoint,
                        image_command: image.command,
                        image_environment: image.environment,
                        image_working_directory: image.working_directory,
                        ..runtimes[i]
                    })
                }
        },
    decreases runtimes.len(),
{
    if runtimes.len() > 0 {
        let rest = runtimes.drop_last();
        let last = runtimes.len() - 1;
        lemma_image_ids(rest, images);
        assert(runtimes[last] == runtimes.last());
        assert forall|i: int| 0 <= i < last implies #[trigger] rest[i] == runtimes[i] by {}
        if add_image_ids(rest, images) is Ok {
            assert forall|i: int| 0 <= i < last implies find_image(
                images,
                (#[trigger] runtimes[i]).image,
            ) is Some by {
                assert(rest[i] == runtimes[i]);
            }
        }
        if add_image_ids(runtimes, images) is Ok {
            let before = add_image_ids(rest, images)->Ok_0;
            let added = add_image_ids(runtimes, images)->Ok_0;
            assert forall|i: int| 0 <= i < runtimes.len() implies {
                let image = find_image(images, runtimes[i].image)->Some_0;
                #[trigger] added.0[i] == (ResolvedRuntimeView {
                    image_id: image.immutable_reference,
                    image_platform: image.platform,
                    image_entrypoint: image.entrypoint,
                    image_command: image.command,
                    image_environment: image.environment,
                    image_working_directory: image.working_directory,
                    ..runtimes[i]
                })
            } by {
                if i < last {
                    assert(added.0[i] == before.0[i]);
                    assert(rest[i] == runtimes[i]);
                }
            }
        }
    }
}

/// The platform of an image is its system, its architecture and, where it has one, its variant.
pub proof fn law_image_platforms(
    inspection: ImageInspectionView,
    reference: Seq<char>,
    os: Seq<char>,
    architecture: Seq<char>,
    variant: Seq<char>,
)
    ensures
        inspection.os == Some(os) && inspection.architecture == Some(architecture) && (
        inspection.variant is None || inspection.variant == Some(Seq::<char>::empty()))
            ==> platform_of(inspection, reference) == Ok::<Seq<char>, Seq<char>>(
            os + "/"@ + architecture,
        ),
        inspection.os == Some(os) && inspection.architecture == Some(architecture)
            && inspection.variant == Some(variant) && variant.len() > 0 ==> platform_of(
            inspection,
            reference,
        ) == Ok::<Seq<char>, Seq<char>>(os + "/"@ + architecture + "/"@ + variant),
        inspection.os is None || inspection.architecture is None ==> platform_of(
            inspection,
            reference,
        ) is Err,
{
}

proof fn lemma_least(items: Seq<Seq<char>>)
    requires
        items.len() > 0,
    ensures
        sorted(items).len() == items.len(),
        items.contains(sorted(items)[0]),
        forall|i: int| 0 <= i < items.len() ==> text_le(sorted(items)[0], #[trigger] items[i]),
{
    broadcast use group_to_multiset_ensures;

    let leq = |a: Seq<char>, b: Seq<char>| <String as Ranked>::rank_le(a, b);
    <String as Ranked>::lemma_rank_total();
    items.lemma_sort_by_ensures(leq);
    let ordered = sorted(items);
    assert(ordered.len() == items.len()) by {
        assert(ordered.to_multiset().len() == items.to_multiset().len());
    }
    assert(ordered.contains(ordered[0]));
    assert(items.to_multiset().count(ordered[0]) > 0);
    assert forall|i: int| 0 <= i < items.len() implies text_le(ordered[0], #[trigger] items[i]) by {
        assert(items.contains(items[i]));
        assert(ordered.to_multiset().count(items[i]) > 0);
        assert(ordered.contains(items[i]));
        let j = choose|j: int| 0 <= j < ordered.len() && ordered[j] == items[i];
        if j == 0 {
            crate::order::lemma_text_le_reflexive(items[i]);
        } else {
            assert(leq(ordered[0], ordered[j]));
        }
    }
}

/// What an image is pinned to: the least of its digests, or its identifier where it has none. An
/// image without an identifier cannot be pinned.
pub proof fn law_immutable_references(inspection: ImageInspectionView, reference: Seq<char>)
    ensures
        ({
            let pinned = immutable_reference_of(inspection, reference);
            let digests = inspection.repo_digests;
            &&& pinned is Ok <==> inspection.id is Some && inspection.id->Some_0.len() > 0
            &&& pinned is Ok && digests.len() == 0 ==> pinned->Ok_0 == inspection.id->Some_0
            &&& pinned is Ok && digests.len() > 0 ==> digests.contains(pinned->Ok_0) && forall|
                i: int,
            |
                0 <= i < digests.len() ==> text_le(pinned->Ok_0, #[trigger] digests[i])
        }),
{
    if inspection.repo_digests.len() > 0 {
        lemma_least(inspection.repo_digests);
    }
}

/// A marked image goes by the least of its tags and digests, and by none where it has neither.
pub proof fn law_marked_images_are_named(inspection: ImageInspectionView)
    ensures
        ({
            let all = inspection.repo_tags + inspection.repo_digests;
            let named = first_reference(inspection);
            &&& named is None <==> inspection.repo_tags.len() == 0 && inspection.repo_digests.len()
                == 0
            &&& named matches Some(name) ==> all.contains(name) && forall|i: int|
                0 <= i < all.len() ==> text_le(name, #[trigger] all[i])
        }),
{
    let all = inspection.repo_tags + inspection.repo_digests;
    if all.len() > 0 {
        lemma_least(all);
    }
}

/// A candidate has the identifier of its image, what the image is pinned to, its platform and what
/// it starts, the reference that it was found by, and what its labels say.
pub proof fn law_candidates_follow_their_image(inspection: ImageInspectionView, reference: Seq<char>)
    ensures
        candidate_of(inspection, reference) matches Ok(found) ==> {
            &&& inspection.id == Some(found.0)
            &&& found.1.image_reference == reference
            &&& immutable_reference_of(inspection, reference) == Ok::<Seq<char>, Seq<char>>(
                found.1.image.immutable_reference,
            )
            &&& platform_of(inspection, reference) == Ok::<Seq<char>, Seq<char>>(
                found.1.image.platform,
            )
            &&& inspection.config is Some
            &&& found.1.image.entrypoint == inspection.config->Some_0.entrypoint
            &&& found.1.image.command == inspection.config->Some_0.command
            &&& found.1.image.environment == inspection.config->Some_0.environment
            &&& inspection.config->Some_0.working_directory matches Some(directory) ==> (
            directory.len() > 0 ==> found.1.image.working_directory == Some(directory))
            &&& inspection.config->Some_0.labels is Some
            &&& parsed_descriptor(
                inspection.config->Some_0.labels->Some_0,
                image_runtime_name(reference),
            ) is Ok
            &&& found.1.descriptor == parsed_descriptor(
                inspection.config->Some_0.labels->Some_0,
                image_runtime_name(reference),
            )->Ok_0
        },
        candidate_of(inspection, reference) matches Err(e) ==> e is Discovery,
        candidate_of(inspection, reference) is Ok <==> inspection.id is Some
            && inspection.id->Some_0.len() > 0 && inspection.os is Some && inspection.architecture
            is Some && inspection.config is Some && inspection.config->Some_0.labels is Some
            && parsed_descriptor(
            inspection.config->Some_0.labels->Some_0,
            image_runtime_name(reference),
        ) is Ok,
{
}

/// Images of one identifier are one candidate, which goes by the least of their references; other
/// candidates stay as they are.
pub proof fn law_one_candidate_for_one_image(
    candidates: Seq<(Seq<char>, DiscoveredRuntimeImageView)>,
    content_id: Seq<char>,
    image: DiscoveredRuntimeImageView,
    k: int,
)
    ensures
        ({
            let after = with_candidate(candidates, content_id, image);
            &&& (forall|i: int| 0 <= i < candidates.len() ==> (#[trigger] candidates[i]).0
                != content_id) ==> after == candidates.push((content_id, image))
            &&& (0 <= k < candidates.len() && candidates[k].0 == content_id && forall|i: int|
                0 <= i < k ==> (#[trigger] candidates[i]).0 != content_id) ==> {
                let kept = candidates[k].1;
                &&& after.len() == candidates.len()
                &&& forall|i: int|
                    0 <= i < candidates.len() && i != k ==> #[trigger] after[i] == candidates[i]
                &&& after[k].0 == content_id
                &&& after[k].1.image == kept.image && after[k].1.descriptor == kept.descriptor
                &&& text_lt(image.image_reference, kept.image_reference)
                    ==> after[k].1.image_reference == image.image_reference
                &&& !text_lt(image.image_reference, kept.image_reference)
                    ==> after[k].1.image_reference == kept.image_reference
            }
        }),
{
    if forall|i: int| 0 <= i < candidates.len() ==> (#[trigger] candidates[i]).0 != content_id {
        lemma_place(candidates, content_id, candidates.len() as int);
    }
    if 0 <= k < candidates.len() && candidates[k].0 == content_id && (forall|i: int|
        0 <= i < k ==> (#[trigger] candidates[i]).0 != content_id) {
        lemma_place(candidates, content_id, k);
    }
}

proof fn lemma_place(
    candidates: Seq<(Seq<char>, DiscoveredRuntimeImageView)>,
    content_id: Seq<char>,
    k: int,
)
    requires
        0 <= k <= candidates.len(),
        forall|i: int| 0 <= i < k ==> (#[trigger] candidates[i]).0 != content_id,
        k < candidates.len() ==> candidates[k].0 == content_id,
    ensures
        place_of(candidates, content_id) == k,
    decreases candidates.len(),
{
    if k > 0 {
        let rest = candidates.drop_first();
        assert(candidates[0].0 != content_id);
        assert forall|i: int| 0 <= i < k - 1 implies (#[trigger] rest[i]).0 != content_id by {
            assert(rest[i] == candidates[i + 1]);
        }
        lemma_place(rest, content_id, k - 1);
    }
}

/// Without a list every image is searched that has the protocol label, and no other; with one, the
/// images of the list are searched, and no other.
pub proof fn law_searched_images(
    allowlist: Seq<Seq<char>>,
    listed: Seq<ListedImageView>,
    last: ListedImageView,
)
    ensures
        allowlist.len() > 0 ==> selected_images(allowlist, listed) == allowlist,
        selected_images(Seq::empty(), Seq::empty()) == Seq::<Seq<char>>::empty(),
        last.labels.dom().contains("ai.ameba.flint.runtime.protocol"@) ==> selected_images(
            Seq::empty(),
            listed.push(last),
        ) == selected_images(Seq::empty(), listed).push(last.id),
        !last.labels.dom().contains("ai.ameba.flint.runtime.protocol"@) ==> selected_images(
            Seq::empty(),
            listed.push(last),
        ) == selected_images(Seq::empty(), listed),
{
    assert(listed.push(last).drop_last() =~= listed);
}

/// The images that are looked at are those of the runtimes, each once.
pub proof fn law_inspected_images(runtimes: Seq<ResolvedRuntimeView>, image: Seq<char>)
    ensures
        distinct_images(runtimes).no_duplicates(),
        distinct_images(runtimes).contains(image) <==> exists|i: int|
            0 <= i < runtimes.len() && (#[trigger] runtimes[i]).image == image,
    decreases runtimes.len(),
{
    if runtimes.len() > 0 {
        let rest = runtimes.drop_last();
        let last = runtimes.len() - 1;
        law_inspected_images(rest, image);
        let before = distinct_images(rest);
        let all = distinct_images(runtimes);
        assert(runtimes[last] == runtimes.last());
        if !before.contains(runtimes.last().image) {
            assert(all[before.len() as int] == runtimes.last().image);
            assert(before.contains(image) ==> all.contains(image)) by {
                if before.contains(image) {
                    let i = choose|i: int| 0 <= i < before.len() && before[i] == image;
                    assert(all[i] == image);
                }
            }
        }
        if exists|i: int| 0 <= i < rest.len() && (#[trigger] rest[i]).image == image {
            let i = choose|i: int| 0 <= i < rest.len() && (#[trigger] rest[i]).image == image;
            assert(runtimes[i].image == image);
        }
        if exists|i: int| 0 <= i < runtimes.len() && (#[trigger] runtimes[i]).image == image {
            let i = choose|i: int|
                0 <= i < runtimes.len() && (#[trigger] runtimes[i]).image == image;
            if i < last {
                assert(rest[i].image == image);
            }
        }
    }
}

/// A catalog of which every runtime is pinned stays as it is. Another is pinned, each runtime to
/// what the first answer about its image says, and not at all where one image cannot be looked at.
pub proof fn law_catalogs_are_pinned_by_answers(
    catalog: RuntimeCatalogView,
    answers: Seq<ImageAnswerView>,
    k: int,
)
    requires
        pinned_catalog(catalog, answers) is Ok,
        0 <= k < catalog.runtimes.len(),
    ensures
        ({
            let pinned = pinned_catalog(catalog, answers)->Ok_0;
            let all_known = forall|i: int|
                0 <= i < catalog.runtimes.len() ==> (#[trigger] catalog.runtimes[i]).image_id.len()
                    > 0;
            &&& all_known ==> pinned == catalog
            &&& !all_known ==> {
                let answer = answer_for(answers, catalog.runtimes[k].image);
                &&& answer is Some && answer->Some_0.outcome is Ok
                &&& immutable_reference_of(answer->Some_0.outcome->Ok_0, catalog.runtimes[k].image)
                    == Ok::<Seq<char>, Seq<char>>(pinned.runtimes[k].image_id)
                &&& platform_of(answer->Some_0.outcome->Ok_0, catalog.runtimes[k].image) == Ok::<
                    Seq<char>,
                    Seq<char>,
                >(pinned.runtimes[k].image_platform)
            }
        }),
{
    let all_known = forall|i: int|
        0 <= i < catalog.runtimes.len() ==> (#[trigger] catalog.runtimes[i]).image_id.len() > 0;
    if crate::images::some_unpinned(catalog.runtimes) {
        let i = choose|i: int|
            0 <= i < catalog.runtimes.len() && (#[trigger] catalog.runtimes[i]).image_id.len() == 0;
        assert(!(catalog.runtimes[i].image_id.len() > 0));
        let images = answered_images(catalog.runtimes, answers)->Ok_0;
        lemma_answers(catalog.runtimes, answers);
        law_pinned_runtimes_start_their_image(catalog, images, k);
        let image = catalog.runtimes[k].image;
        lemma_found_is_there(images, image);
        let at = choose|at: int|
            0 <= at < images.len() && (#[trigger] images[at]).0 == image && images[at].1
                == find_image(images, image)->Some_0;
        assert(images[at].0 == catalog.runtimes[at].image);
    } else if !all_known {
        let i = choose|i: int|
            0 <= i < catalog.runtimes.len() && !((#[trigger] catalog.runtimes[i]).image_id.len()
                > 0);
        assert(catalog.runtimes[i].image_id.len() == 0);
    }
}

proof fn lemma_found_is_there(images: Seq<(Seq<char>, ResolvedImageView)>, reference: Seq<char>)
    requires
        find_image(images, reference) is Some,
    ensures
        exists|at: int|
            0 <= at < images.len() && (#[trigger] images[at]).0 == reference && images[at].1
                == find_image(images, reference)->Some_0,
    decreases images.len(),
{
    if images[0].0 != reference {
        let rest = images.drop_first();
        lemma_found_is_there(rest, reference);
        let at = choose|at: int|
            0 <= at < rest.len() && (#[trigger] rest[at]).0 == reference && rest[at].1
                == find_image(rest, reference)->Some_0;
        assert(images[at + 1] == rest[at]);
    }
}

proof fn lemma_answers(runtimes: Seq<ResolvedRuntimeView>, answers: Seq<ImageAnswerView>)
    requires
        answered_images(runtimes, answers) is Ok,
    ensures
        ({
            let images = answered_images(runtimes, answers)->Ok_0;
            &&& images.len() == runtimes.len()
            &&& forall|i: int|
                0 <= i < runtimes.len() ==> {
                    let answer = answer_for(answers, runtimes[i].image);
                    &&& (#[trigger] images[i]).0 == runtimes[i].image
                    &&& answer is Some && answer->Some_0.outcome is Ok
                    &&& immutable_reference_of(answer->Some_0.outcome->Ok_0, runtimes[i].image)
                        == Ok::<Seq<char>, Seq<char>>(images[i].1.immutable_reference)
                    &&& platform_of(answer->Some_0.outcome->Ok_0, runtimes[i].image) == Ok::<
                        Seq<char>,
                        Seq<char>,
                    >(images[i].1.platform)
                }
        }),
    decreases runtimes.len(),
{
    if runtimes.len() > 0 {
        let rest = runtimes.drop_last();
        lemma_answers(rest, answers);
        let before = answered_images(rest, answers)->Ok_0;
        let images = answered_images(runtimes, answers)->Ok_0;
        let last = runtimes.len() - 1;
        assert forall|i: int| 0 <= i < runtimes.len() implies {
            let answer = answer_for(answers, runtimes[i].image);
            &&& (#[trigger] images[i]).0 == runtimes[i].image
            &&& answer is Some && answer->Some_0.outcome is Ok
            &&& immutable_reference_of(answer->Some_0.outcome->Ok_0, runtimes[i].image) == Ok::<
                Seq<char>,
                Seq<char>,
            >(images[i].1.immutable_reference)
            &&& platform_of(answer->Some_0.outcome->Ok_0, runtimes[i].image) == Ok::<
                Seq<char>,
                Seq<char>,
            >(images[i].1.platform)
        } by {
            if i < last {
                assert(images[i] == before[i]);
                assert(rest[i] == runtimes[i]);
            }
        }
    }
}

/// The first answer about a reference counts.
pub proof fn law_answers_are_found(answers: Seq<ImageAnswerView>, reference: Seq<char>, k: int)
    requires
        0 <= k < answers.len(),
        answers[k].reference == reference,
        forall|i: int| 0 <= i < k ==> (#[trigger] answers[i]).reference != reference,
    ensures
        answer_for(answers, reference) == Some(answers[k]),
    decreases k,
{
    if k > 0 {
        let rest = answers.drop_first();
        assert(answers[0].reference != reference);
        assert forall|i: int| 0 <= i < k - 1 implies (#[trigger] rest[i]).reference
            != reference by {
            assert(rest[i] == answers[i + 1]);
        }
        law_answers_are_found(rest, reference, k - 1);
    }
}

// The search.

/// Images are looked at one after the other. One that is listed and cannot be looked at ends the
/// search; one that has no name is passed over; any other is a candidate under the name that it is
/// listed by or, without a list, goes by.
pub proof fn law_the_search_goes_on(
    references: Seq<Seq<char>>,
    outcomes: Seq<Result<ImageInspectionView, Seq<char>>>,
    reference: Seq<char>,
    outcome: Result<ImageInspectionView, Seq<char>>,
)
    requires
        references.len() == outcomes.len(),
    ensures
        ({
            let listed = gathered(true, references.push(reference), outcomes.push(outcome));
            let marked = gathered(false, references.push(reference), outcomes.push(outcome));
            let listed_before = gathered(true, references, outcomes);
            let marked_before = gathered(false, references, outcomes);
            &&& listed_before is Err ==> listed == listed_before
            &&& marked_before is Err ==> marked == marked_before
            &&& outcome is Err ==> listed is Err && marked is Err
            &&& listed_before is Ok && outcome is Ok ==> match candidate_of(
                outcome->Ok_0,
                reference,
            ) {
                Err(e) => listed == Err::<
                    Seq<(Seq<char>, DiscoveredRuntimeImageView)>,
                    DockerBackendErrorView,
                >(e),
                Ok(found) => listed == Ok::<
                    Seq<(Seq<char>, DiscoveredRuntimeImageView)>,
                    DockerBackendErrorView,
                >(with_candidate(listed_before->Ok_0, found.0, found.1)),
            }
            &&& marked_before is Ok && outcome is Ok && first_reference(outcome->Ok_0) is None
                ==> marked == marked_before
            &&& marked_before is Ok && outcome is Ok && first_reference(outcome->Ok_0) is Some
                ==> match candidate_of(
                outcome->Ok_0,
                first_reference(outcome->Ok_0)->Some_0,
            ) {
                Err(e) => marked == Err::<
                    Seq<(Seq<char>, DiscoveredRuntimeImageView)>,
                    DockerBackendErrorView,
                >(e),
                Ok(found) => marked == Ok::<
                    Seq<(Seq<char>, DiscoveredRuntimeImageView)>,
                    DockerBackendErrorView,
                >(with_candidate(marked_before->Ok_0, found.0, found.1)),
            }
            &&& gathered(true, Seq::empty(), Seq::empty()) == Ok::<
                Seq<(Seq<char>, DiscoveredRuntimeImageView)>,
                DockerBackendErrorView,
            >(Seq::empty())
        }),
{
    assert(references.push(reference).drop_last() =~= references);
    assert(outcomes.push(outcome).drop_last() =~= outcomes);
}

/// What is found is served: the catalog is that of the candidates' images.
pub proof fn law_found_images_are_served(
    allowlisted: bool,
    references: Seq<Seq<char>>,
    outcomes: Seq<Result<ImageInspectionView, Seq<char>>>,
    policy: DiscoveryPolicyView,
    environment: Map<Seq<char>, Seq<char>>,
    images: Seq<DiscoveredRuntimeImageView>,
)
    requires
        gathered(allowlisted, references, outcomes) is Ok,
        images.len() == gathered(allowlisted, references, outcomes)->Ok_0.len(),
        forall|i: int|
            0 <= i < images.len() ==> #[trigger] images[i] == gathered(
                allowlisted,
                references,
                outcomes,
            )->Ok_0[i].1,
    ensures
        ({
            let catalog = discovered(allowlisted, references, outcomes, policy, environment);
            &&& catalog is Ok <==> discovered_catalog(images, policy, environment) is Ok
            &&& catalog is Ok ==> catalog->Ok_0 == discovered_catalog(
                images,
                policy,
                environment,
            )->Ok_0
        }),
{
    let candidates = gathered(allowlisted, references, outcomes)->Ok_0;
    assert(second_parts(candidates) =~= images);
}

/// After a search the registry serves what was found; where the search failed, it serves what it
/// served.
pub proof fn law_refreshes(
    registry: RuntimeRegistryView,
    outcome: Result<RuntimeCatalogView, DockerBackendErrorView>,
    now_unix_seconds: u64,
)
    ensures
        ({
            let after = refreshed(registry, outcome, now_unix_seconds);
            &&& outcome matches Ok(catalog) ==> after.catalog == catalog
                && after.health.discovery_status == "ready"@ && after.health.last_error is None
                && after.health.last_successful_refresh_unix_seconds == Some(now_unix_seconds)
                && after.health.runtime_count == catalog.runtimes.len()
            &&& outcome matches Err(e) ==> after.catalog == registry.catalog
                && after.health.discovery_status == "degraded"@ && after.health.last_error == Some(
                e.text(),
            ) && after.health.last_successful_refresh_unix_seconds
                == registry.health.last_successful_refresh_unix_seconds
        }),
{
}

// Generations.

/// What goes into a generation: each value and a zero behind it, behind what names the kind.
pub proof fn law_generation_inputs(
    prefix: Seq<u8>,
    values: Seq<Seq<char>>,
    last: Seq<char>,
    canonical_source: Seq<u8>,
)
    ensures
        with_values(prefix, Seq::empty()) == prefix,
        with_values(prefix, values.push(last)) == with_values(prefix, values) + encode_utf8(last)
            + seq![0u8],
        discovery_generation(values) == hex_text(
            sha256(with_values(encode_utf8("flint-docker-discovery-v2\0"@), sorted(values))),
        ),
        file_generation(canonical_source, values) == hex_text(
            sha256(
                with_values(encode_utf8("flint-file-catalog-v2\0"@) + canonical_source, values),
            ),
        ),
        image_generation(last, values) == hex_text(
            sha256(with_values(encode_utf8(last), sorted(values))),
        ),
{
    assert(values.push(last).drop_last() =~= values);
}

/// The rules for runtimes are part of every generation: how containers are reached, the network, and
/// what runtimes may be given.
pub proof fn law_policies_are_part_of_generations(policy: DiscoveryPolicyView)
    ensures
        ({
            let values = policy_values(policy);
            &&& values.len() == 4
            &&& policy.connectivity.mode == ConnectivityMode::Native ==> values[0]
                == "connectivity\0"@ + "Native"@
            &&& policy.connectivity.mode == ConnectivityMode::Container ==> values[0]
                == "connectivity\0"@ + "Container"@
            &&& policy.connectivity.docker_network matches Some(network) ==> values[1]
                == "network\0"@ + network
            &&& policy.connectivity.docker_network is None ==> values[1] == "network\0"@
            &&& values[2] == "environment-allowlist\0"@ + join(
                policy.environment_allowlist,
                "\0"@,
            )
            &&& values[3] == "header-allowlist\0"@ + join(policy.header_allowlist, "\0"@)
        }),
{
    assert("network\0"@ + Seq::<char>::empty() =~= "network\0"@);
}

/// The generation of a file's catalog is made of the file and of all that its runtimes are given;
/// that of a search among images of what was found.
pub proof fn law_catalog_generations(
    path: Seq<char>,
    canonical_source: Seq<u8>,
    documents: Seq<RuntimeDocumentView>,
    images: Seq<DiscoveredRuntimeImageView>,
    policy: DiscoveryPolicyView,
    environment: Map<Seq<char>, Seq<char>>,
)
    ensures
        file_catalog(path, canonical_source, documents, policy, environment) matches Ok(catalog)
            ==> catalog.generation == file_generation(
            canonical_source,
            sorted(add_documents(documents, policy, environment)->Ok_0.values),
        ),
        images.len() > 0 ==> (discovered_catalog(images, policy, environment) matches Ok(catalog)
            ==> catalog.generation == discovery_generation(
            add_images(
                keyed_order::<DiscoveredRuntimeImage>(images),
                policy,
                environment,
            )->Ok_0.values + policy_values(policy),
        )),
        add_documents(Seq::empty(), policy, environment)->Ok_0.values == policy_values(policy),
{
}

/// What an image adds to a generation: what it is pinned to, what it is called and what it declares;
/// and what pinning adds of a runtime: which it is, what its image is pinned to, and the platform.
pub proof fn law_images_are_part_of_generations(
    image: DiscoveredRuntimeImageView,
    canonical: Seq<u8>,
    runtime: ResolvedRuntimeView,
    resolved_image: ResolvedImageView,
)
    ensures
        descriptor_value(image, canonical) == "descriptor\0"@ + image.image.immutable_reference
            + "\0"@ + image.image_reference + "\0"@ + hex_text(canonical),
        image_value(runtime, resolved_image) == "image\0"@ + runtime.runtime_arn + "\0"@
            + runtime.qualifier + "\0"@ + resolved_image.immutable_reference + "\0"@
            + resolved_image.platform,
{
}

// Asking a catalog.

/// The first runtime of a name is the one that is found, and nothing is found where none has it.
pub proof fn law_runtimes_are_found(
    runtimes: Seq<ResolvedRuntimeView>,
    runtime_id: Seq<char>,
    k: int,
)
    ensures
        find_runtime(runtimes, runtime_id) is None <==> forall|i: int|
            0 <= i < runtimes.len() ==> (#[trigger] runtimes[i]).runtime_id != runtime_id,
        (0 <= k < runtimes.len() && runtimes[k].runtime_id == runtime_id && forall|i: int|
            0 <= i < k ==> (#[trigger] runtimes[i]).runtime_id != runtime_id) ==> find_runtime(
            runtimes,
            runtime_id,
        ) == Some(runtimes[k]),
    decreases runtimes.len(),
{
    if runtimes.len() > 0 {
        let rest = runtimes.drop_first();
        law_runtimes_are_found(rest, runtime_id, k - 1);
        assert forall|i: int| 0 <= i < rest.len() implies #[trigger] rest[i] == runtimes[i
            + 1] by {}
        if runtimes[0].runtime_id != runtime_id {
            if forall|i: int| 0 <= i < rest.len() ==> (#[trigger] rest[i]).runtime_id
                != runtime_id {
                assert forall|i: int| 0 <= i < runtimes.len() implies (
                #[trigger] runtimes[i]).runtime_id != runtime_id by {
                    if i > 0 {
                        assert(rest[i - 1] == runtimes[i]);
                    }
                }
            }
            if k > 0 && (forall|i: int| 0 <= i < k ==> (#[trigger] runtimes[i]).runtime_id
                != runtime_id) {
                assert forall|i: int| 0 <= i < k - 1 && i < rest.len() implies (
                #[trigger] rest[i]).runtime_id != runtime_id by {
                    assert(rest[i] == runtimes[i + 1]);
                }
            }
        }
    }
}

/// A runtime is resolved by its plain identifier exactly where the account is given and is the
/// caller's, the catalog has the runtime, and no qualifier but the default one is asked for. It is
/// the runtime of the catalog, under the region and account of the caller.
pub proof fn law_plain_identifiers_resolve(
    catalog: RuntimeCatalogView,
    runtime_id: Seq<char>,
    account_id: Option<Seq<char>>,
    qualifier: Option<Seq<char>>,
    identity: LocalIdentityView,
)
    requires
        is_runtime_id(runtime_id),
    ensures
        ({
            let answer = resolved(catalog, runtime_id, account_id, qualifier, identity);
            let found = find_runtime(catalog.runtimes, runtime_id);
            &&& answer is Ok <==> account_id == Some(identity.account_id) && found is Some && (
            qualifier is None || qualifier == Some("DEFAULT"@))
            &&& answer matches Ok(runtime) ==> runtime == (ResolvedRuntimeView {
                runtime_arn: "arn:aws:bedrock-agentcore:"@ + identity.region + ":"@
                    + identity.account_id + ":runtime/"@ + runtime_id,
                account_id: identity.account_id,
                qualifier: "DEFAULT"@,
                ..found->Some_0
            })
            &&& account_id is None ==> answer == Err::<ResolvedRuntimeView, CatalogErrorView>(
                CatalogErrorView::Resolution(
                    "accountId is required when resolving a runtime ID"@,
                ),
            )
            &&& account_id == Some(identity.account_id) && found is None ==> answer == Err::<
                ResolvedRuntimeView,
                CatalogErrorView,
            >(CatalogErrorView::Resolution("runtime "@ + runtime_id + " was not found"@))
            &&& account_id == Some(identity.account_id) && found is Some && (qualifier is Some
                && qualifier != Some("DEFAULT"@)) ==> answer == Err::<
                ResolvedRuntimeView,
                CatalogErrorView,
            >(
                CatalogErrorView::Resolution(
                    "runtime "@ + runtime_id + " has no qualifier "@ + qualifier->Some_0,
                ),
            )
        }),
{
    reveal_strlit("arn:");
    if crate::arn::looks_like_arn(runtime_id) {
        assert("arn:"@.len() == 4 && "arn:"@[3] == ':');
        assert(runtime_id[3] == ':');
        assert(false);
    }
    if let Some(runtime) = find_runtime(catalog.runtimes, runtime_id) {
        crate::catalog::lemma_found_runtime(catalog.runtimes, runtime_id);
    }
}

// The registry.

/// A catalog that was read is what the registry serves, and what it reports: where it comes from,
/// how many runtimes it has, that it is ready, since when, and no error.
pub proof fn law_fresh_registries(catalog: RuntimeCatalogView, now_unix_seconds: u64)
    ensures
        ({
            let registry = fresh_registry(catalog, now_unix_seconds);
            &&& registry.catalog == catalog
            &&& catalog.source is Docker ==> registry.health.runtime_source == "docker"@
            &&& catalog.source is File ==> registry.health.runtime_source == "catalog"@
            &&& registry.health.runtime_count == catalog.runtimes.len()
            &&& registry.health.discovery_status == "ready"@
            &&& registry.health.last_successful_refresh_unix_seconds == Some(now_unix_seconds)
            &&& registry.health.last_error is None
        }),
{
}

/// A refresh that failed is reported, and nothing else of the registry changes.
pub proof fn law_degraded_registries(registry: RuntimeRegistryView, error: Seq<char>)
    ensures
        ({
            let after = degraded(registry, error);
            &&& after.catalog == registry.catalog
            &&& after.health.discovery_status == "degraded"@
            &&& after.health.last_error == Some(error)
            &&& after.health.runtime_source == registry.health.runtime_source
            &&& after.health.runtime_count == registry.health.runtime_count
            &&& after.health.last_successful_refresh_unix_seconds
                == registry.health.last_successful_refresh_unix_seconds
        }),
{
}

/// A container that fits the catalog is kept, one that cannot is removed, and one of which it cannot
/// be told is left alone and stops the search.
pub proof fn law_reconciliation(id: Seq<char>, reason: Seq<char>)
    ensures
        reconcile_step_of(id, Ok(())) == ReconcileStepView::Keep,
        reconcile_step_of(id, Err(AdoptionErrorView::Invalid(reason))) == ReconcileStepView::Remove(
            reason,
        ),
        reconcile_step_of(id, Err(AdoptionErrorView::Transient(reason))) matches
            ReconcileStepView::Fail(DockerBackendErrorView::Reconciliation(_)),
{
}

} // verus!
