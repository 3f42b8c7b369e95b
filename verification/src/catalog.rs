//! The runtimes that can be served.

use vstd::prelude::*;
use vstd::utf8::encode_utf8;

use crate::arn::{
    arn_text, local_runtime_arn, looks_like_arn, parse_runtime_arn, parsed_arn, runtime_not_found,
};
use crate::catalog_error::{CatalogError, CatalogErrorView};
use crate::descriptor::{
    declaration_checked, descriptor_checked, image_runtime_name, runtime_name_from_image,
    validate_runtime_declaration, validate_runtime_descriptor, LifecycleConfigurationDocument,
    RuntimeDescriptor, RuntimeDescriptorView,
};
use crate::environment::{
    is_blank, requested_environment, resolve_requested_environment, RequestedEnvironment,
};
use crate::json::{
    canonical_descriptor, canonical_descriptor_of, canonical_json, canonical_json_of,
};
use crate::labels::Labels;
use crate::order::{keyed_order, sort_by_key, sort_ranked, sorted, SortKey};
use crate::primitives::{hex_encode, hex_text, sha256, sha256_digest};
use crate::runtime::{
    clone_opt_texts, default_account_id, default_qualifier, default_region, opt_texts,
    AuthenticationMode, AuthorizationPolicy, AuthorizationPolicyView, CommandPolicy,
    CommandPolicyView, Connectivity, ConnectivityView, LifecyclePolicy, LocalIdentity,
    LocalIdentityView, Protocol, ProxyLimits, ResolvedAuthenticationPolicy,
    ResolvedAuthenticationPolicyView, ResolvedEnvironmentVariable, ResolvedRuntime,
    ResolvedRuntimeView, ResourcePolicy, DEFAULT_ACCOUNT_ID, DEFAULT_QUALIFIER, DEFAULT_REGION,
};
use crate::text::{
    agrees, append_bytes, cat2, cat3, cat4, cat6, cat7, clone_opt, clone_texts, contains_text, has_prefix, join,
    join_texts, opt_text, same, texts, trim, views,
};

verus! {

/// Where a catalog comes from.
#[derive(Debug)]
pub enum RuntimeCatalogSource {
    File(String),
    Docker,
}

#[verifier::ext_equal]
pub enum RuntimeCatalogSourceView {
    File(Seq<char>),
    Docker,
}

impl View for RuntimeCatalogSource {
    type V = RuntimeCatalogSourceView;

    open spec fn view(&self) -> RuntimeCatalogSourceView {
        match self {
            RuntimeCatalogSource::File(path) => RuntimeCatalogSourceView::File(path@),
            RuntimeCatalogSource::Docker => RuntimeCatalogSourceView::Docker,
        }
    }
}

impl Clone for RuntimeCatalogSource {
    fn clone(&self) -> (r: Self)
        ensures
            r@ == self@,
    {
        match self {
            RuntimeCatalogSource::File(path) => RuntimeCatalogSource::File(path.clone()),
            RuntimeCatalogSource::Docker => RuntimeCatalogSource::Docker,
        }
    }
}

impl RuntimeCatalogSourceView {
    pub open spec fn kind(self) -> Seq<char> {
        match self {
            RuntimeCatalogSourceView::File(_) => "catalog"@,
            RuntimeCatalogSourceView::Docker => "docker"@,
        }
    }

    pub open spec fn text(self) -> Seq<char> {
        match self {
            RuntimeCatalogSourceView::File(path) => path,
            RuntimeCatalogSourceView::Docker => "Docker image discovery"@,
        }
    }
}

impl RuntimeCatalogSource {
    pub fn kind(&self) -> (r: &'static str)
        ensures
            r@ == self@.kind(),
    {
        match self {
            RuntimeCatalogSource::File(_) => "catalog",
            RuntimeCatalogSource::Docker => "docker",
        }
    }

    pub fn to_text(&self) -> (r: String)
        ensures
            r@ == self@.text(),
    {
        match self {
            RuntimeCatalogSource::File(path) => path.clone(),
            RuntimeCatalogSource::Docker => "Docker image discovery".to_owned(),
        }
    }
}

/// What the operator allows to all runtimes.
#[derive(Debug)]
pub struct DiscoveryPolicy {
    pub connectivity: Connectivity,
    pub environment_allowlist: Vec<String>,
    pub header_allowlist: Vec<String>,
}

#[verifier::ext_equal]
pub struct DiscoveryPolicyView {
    pub connectivity: ConnectivityView,
    pub environment_allowlist: Seq<Seq<char>>,
    pub header_allowlist: Seq<Seq<char>>,
}

impl View for DiscoveryPolicy {
    type V = DiscoveryPolicyView;

    open spec fn view(&self) -> DiscoveryPolicyView {
        DiscoveryPolicyView {
            connectivity: self.connectivity@,
            environment_allowlist: texts(self.environment_allowlist@),
            header_allowlist: texts(self.header_allowlist@),
        }
    }
}

impl Clone for DiscoveryPolicy {
    fn clone(&self) -> (r: Self)
        ensures
            r@ == self@,
    {
        DiscoveryPolicy {
            connectivity: self.connectivity.clone(),
            environment_allowlist: clone_texts(&self.environment_allowlist),
            header_allowlist: clone_texts(&self.header_allowlist),
        }
    }
}

/// What is known of an image.
#[derive(Debug)]
pub struct ResolvedImage {
    pub immutable_reference: String,
    pub platform: String,
    pub entrypoint: Option<Vec<String>>,
    pub command: Option<Vec<String>>,
    pub environment: Vec<String>,
    pub working_directory: Option<String>,
}

#[verifier::ext_equal]
pub struct ResolvedImageView {
    pub immutable_reference: Seq<char>,
    pub platform: Seq<char>,
    pub entrypoint: Option<Seq<Seq<char>>>,
    pub command: Option<Seq<Seq<char>>>,
    pub environment: Seq<Seq<char>>,
    pub working_directory: Option<Seq<char>>,
}

impl View for ResolvedImage {
    type V = ResolvedImageView;

    open spec fn view(&self) -> ResolvedImageView {
        ResolvedImageView {
            immutable_reference: self.immutable_reference@,
            platform: self.platform@,
            entrypoint: opt_texts(self.entrypoint),
            command: opt_texts(self.command),
            environment: texts(self.environment@),
            working_directory: opt_text(self.working_directory),
        }
    }
}

impl Clone for ResolvedImage {
    fn clone(&self) -> (r: Self)
        ensures
            r@ == self@,
    {
        ResolvedImage {
            immutable_reference: self.immutable_reference.clone(),
            platform: self.platform.clone(),
            entrypoint: clone_opt_texts(&self.entrypoint),
            command: clone_opt_texts(&self.command),
            environment: clone_texts(&self.environment),
            working_directory: clone_opt(&self.working_directory),
        }
    }
}

/// An image of which nothing is known yet.
pub open spec fn unknown_image() -> ResolvedImageView {
    ResolvedImageView {
        immutable_reference: Seq::empty(),
        platform: Seq::empty(),
        entrypoint: None,
        command: None,
        environment: Seq::empty(),
        working_directory: None,
    }
}

fn image_not_known_yet() -> (r: ResolvedImage)
    ensures
        r@ == unknown_image(),
{
    let environment: Vec<String> = Vec::new();
    proof {
        assert(texts(environment@) =~= Seq::empty());
    }
    ResolvedImage {
        immutable_reference: String::new(),
        platform: String::new(),
        entrypoint: None,
        command: None,
        environment,
        working_directory: None,
    }
}

/// An image that declares a runtime.
#[derive(Debug)]
pub struct DiscoveredRuntimeImage {
    pub image: ResolvedImage,
    pub image_reference: String,
    pub descriptor: RuntimeDescriptor,
}

#[verifier::ext_equal]
pub struct DiscoveredRuntimeImageView {
    pub image: ResolvedImageView,
    pub image_reference: Seq<char>,
    pub descriptor: RuntimeDescriptorView,
}

impl View for DiscoveredRuntimeImage {
    type V = DiscoveredRuntimeImageView;

    open spec fn view(&self) -> DiscoveredRuntimeImageView {
        DiscoveredRuntimeImageView {
            image: self.image@,
            image_reference: self.image_reference@,
            descriptor: self.descriptor@,
        }
    }
}

impl SortKey for DiscoveredRuntimeImage {
    open spec fn sort_key(item: DiscoveredRuntimeImageView) -> (Seq<char>, Seq<char>) {
        (item.image.immutable_reference, item.image_reference)
    }

    fn key_at_most(&self, other: &Self) -> (r: bool) {
        if self.image.immutable_reference == other.image.immutable_reference {
            crate::order::text_at_most(
                self.image_reference.as_str(),
                other.image_reference.as_str(),
            )
        } else {
            crate::order::text_at_most(
                self.image.immutable_reference.as_str(),
                other.image.immutable_reference.as_str(),
            )
        }
    }
}

impl SortKey for ResolvedRuntime {
    open spec fn sort_key(item: ResolvedRuntimeView) -> (Seq<char>, Seq<char>) {
        (item.runtime_id, Seq::empty())
    }

    fn key_at_most(&self, other: &Self) -> (r: bool) {
        proof {
            crate::order::lemma_text_le_reflexive(self.runtime_id@);
        }
        crate::order::text_at_most(self.runtime_id.as_str(), other.runtime_id.as_str())
    }
}

/// A runtime in a catalog file.
#[derive(Debug)]
pub struct RuntimeDocument {
    pub name: Option<String>,
    pub image: String,
    pub protocol: Protocol,
    pub environment_variables: Vec<String>,
    pub lifecycle_configuration: LifecycleConfigurationDocument,
}

#[verifier::ext_equal]
pub struct RuntimeDocumentView {
    pub name: Option<Seq<char>>,
    pub image: Seq<char>,
    pub protocol: Protocol,
    pub environment_variables: Seq<Seq<char>>,
    pub lifecycle_configuration: LifecycleConfigurationDocument,
}

impl View for RuntimeDocument {
    type V = RuntimeDocumentView;

    open spec fn view(&self) -> RuntimeDocumentView {
        RuntimeDocumentView {
            name: opt_text(self.name),
            image: self.image@,
            protocol: self.protocol,
            environment_variables: texts(self.environment_variables@),
            lifecycle_configuration: self.lifecycle_configuration,
        }
    }
}

/// A catalog file.
#[derive(Debug)]
pub struct CatalogDocument {
    pub runtimes: Vec<RuntimeDocument>,
}

impl View for CatalogDocument {
    type V = Seq<RuntimeDocumentView>;

    open spec fn view(&self) -> Seq<RuntimeDocumentView> {
        views(self.runtimes@)
    }
}

/// The runtimes that can be served, each under the one qualifier `DEFAULT`.
pub struct RuntimeCatalog {
    pub source: RuntimeCatalogSource,
    pub generation: String,
    pub runtimes: Vec<ResolvedRuntime>,
}

#[verifier::ext_equal]
pub struct RuntimeCatalogView {
    pub source: RuntimeCatalogSourceView,
    pub generation: Seq<char>,
    pub runtimes: Seq<ResolvedRuntimeView>,
}

impl View for RuntimeCatalog {
    type V = RuntimeCatalogView;

    open spec fn view(&self) -> RuntimeCatalogView {
        RuntimeCatalogView {
            source: self.source@,
            generation: self.generation@,
            runtimes: views(self.runtimes@),
        }
    }
}

impl Clone for RuntimeCatalog {
    fn clone(&self) -> (r: Self)
        ensures
            r@ == self@,
    {
        let runtimes = self.runtimes.clone();
        proof {
            assert(views(runtimes@) =~= views(self.runtimes@));
        }
        RuntimeCatalog { source: self.source.clone(), generation: self.generation.clone(), runtimes }
    }
}

// Defaults.

pub open spec fn discovery_resources() -> ResourcePolicy {
    ResourcePolicy {
        memory_bytes: 268_435_456,
        nano_cpus: 500_000_000,
        pids_limit: 64,
        read_only_root_filesystem: true,
        workspace_size_bytes: 67_108_864,
        workspace_no_exec: true,
    }
}

pub fn default_discovery_resources() -> (r: ResourcePolicy)
    ensures
        r == discovery_resources(),
{
    ResourcePolicy {
        memory_bytes: 268_435_456,
        nano_cpus: 500_000_000,
        pids_limit: 64,
        read_only_root_filesystem: true,
        workspace_size_bytes: 67_108_864,
        workspace_no_exec: true,
    }
}

pub open spec fn discovery_command() -> CommandPolicyView {
    CommandPolicyView {
        enabled: true,
        shell: seq!["/bin/sh"@, "-lc"@],
        max_concurrency: 1,
        timeout_seconds: 30,
        max_output_bytes: 1_048_576,
    }
}

pub fn default_command_shell() -> (r: Vec<String>)
    ensures
        texts(r@) == seq!["/bin/sh"@, "-lc"@],
{
    let mut shell: Vec<String> = Vec::new();
    shell.push("/bin/sh".to_owned());
    shell.push("-lc".to_owned());
    proof {
        assert(texts(shell@) =~= seq!["/bin/sh"@, "-lc"@]);
    }
    shell
}

pub fn default_discovery_command() -> (r: CommandPolicy)
    ensures
        r@ == discovery_command(),
{
    CommandPolicy {
        enabled: true,
        shell: default_command_shell(),
        max_concurrency: 1,
        timeout_seconds: 30,
        max_output_bytes: 1_048_576,
    }
}

pub open spec fn discovery_limits() -> ProxyLimits {
    ProxyLimits {
        max_request_bytes: 2_097_152,
        max_response_bytes: 2_097_152,
        max_chunk_bytes: 262_144,
        max_duration_seconds: 60,
    }
}

pub fn default_discovery_limits() -> (r: ProxyLimits)
    ensures
        r == discovery_limits(),
{
    ProxyLimits {
        max_request_bytes: 2_097_152,
        max_response_bytes: 2_097_152,
        max_chunk_bytes: 262_144,
        max_duration_seconds: 60,
    }
}

pub open spec fn permissive_authentication() -> ResolvedAuthenticationPolicyView {
    ResolvedAuthenticationPolicyView {
        mode: AuthenticationMode::Permissive,
        allowed_clock_skew_seconds: 300,
        credentials: Seq::empty(),
    }
}

pub fn default_authentication() -> (r: ResolvedAuthenticationPolicy)
    ensures
        r@ == permissive_authentication(),
{
    let r = ResolvedAuthenticationPolicy {
        mode: AuthenticationMode::Permissive,
        allowed_clock_skew_seconds: 300,
        credentials: Vec::new(),
    };
    proof {
        assert(r@.credentials =~= Seq::empty());
    }
    r
}

pub open spec fn no_policy() -> AuthorizationPolicyView {
    AuthorizationPolicyView { identity_statements: Seq::empty(), resource_statements: Seq::empty() }
}

pub fn empty_authorization_policy() -> (r: AuthorizationPolicy)
    ensures
        r@ == no_policy(),
{
    let r = AuthorizationPolicy {
        identity_statements: Vec::new(),
        resource_statements: Vec::new(),
    };
    proof {
        assert(r@.identity_statements =~= Seq::empty());
        assert(r@.resource_statements =~= Seq::empty());
    }
    r
}

// The generation: a digest of everything that a catalog was made of.

pub open spec fn policy_values(policy: DiscoveryPolicyView) -> Seq<Seq<char>> {
    seq![
        "connectivity\0"@ + policy.connectivity.mode.spec_name(),
        "network\0"@ + (match policy.connectivity.docker_network {
            Some(network) => network,
            None => Seq::empty(),
        }),
        "environment-allowlist\0"@ + join(policy.environment_allowlist, "\0"@),
        "header-allowlist\0"@ + join(policy.header_allowlist, "\0"@),
    ]
}

pub fn policy_generation_values(policy: &DiscoveryPolicy) -> (r: Vec<String>)
    ensures
        texts(r@) == policy_values(policy@),
{
    let mut values: Vec<String> = Vec::new();
    values.push(cat2("connectivity\0", policy.connectivity.mode.name()));
    match &policy.connectivity.docker_network {
        Some(network) => {
            values.push(cat2("network\0", network.as_str()));
        },
        None => {
            let none = String::new();
            values.push(cat2("network\0", none.as_str()));
        },
    }
    values.push(
        cat2("environment-allowlist\0", join_texts(&policy.environment_allowlist, "\0").as_str()),
    );
    values.push(cat2("header-allowlist\0", join_texts(&policy.header_allowlist, "\0").as_str()));
    proof {
        assert(texts(values@) =~= policy_values(policy@));
    }
    values
}

/// Bytes, and behind them each text with a zero byte.
pub open spec fn with_values(prefix: Seq<u8>, values: Seq<Seq<char>>) -> Seq<u8>
    decreases values.len(),
{
    if values.len() == 0 {
        prefix
    } else {
        with_values(prefix, values.drop_last()) + encode_utf8(values.last()) + seq![0u8]
    }
}

fn append_values(out: &mut Vec<u8>, values: &Vec<String>)
    ensures
        final(out)@ == with_values(old(out)@, texts(values@)),
{
    let ghost start = out@;
    let ghost all = texts(values@);
    for i in 0..values.len()
        invariant
            all == texts(values@),
            out@ == with_values(start, all.take(i as int)),
    {
        proof {
            let upto = all.take(i as int + 1);
            assert(upto.drop_last() =~= all.take(i as int));
            assert(upto.last() == values@[i as int]@);
        }
        append_bytes(out, values[i].as_str().as_bytes());
        let ghost before = out@;
        out.push(0u8);
        proof {
            assert(out@ =~= before + seq![0u8]);
        }
    }
    proof {
        assert(all.take(all.len() as int) =~= all);
    }
}

/// What the generation of a catalog that was found among images is a digest of.
pub open spec fn discovery_input(values: Seq<Seq<char>>) -> Seq<u8> {
    with_values(encode_utf8("flint-docker-discovery-v2\0"@), sorted(values))
}

/// The generation of a catalog that was found among images.
pub open spec fn discovery_generation(values: Seq<Seq<char>>) -> Seq<char> {
    hex_text(sha256(discovery_input(values)))
}

fn write_discovery_generation(values: Vec<String>) -> (r: String)
    ensures
        r@ == discovery_generation(texts(values@)),
{
    let ordered = sort_ranked(values);
    let mut bytes: Vec<u8> = Vec::new();
    append_bytes(&mut bytes, "flint-docker-discovery-v2\0".as_bytes());
    proof {
        assert(bytes@ =~= encode_utf8("flint-docker-discovery-v2\0"@));
    }
    append_values(&mut bytes, &ordered);
    hex_encode(sha256_digest(bytes.as_slice()).as_slice())
}

/// What the generation of a catalog from a file is a digest of.
pub open spec fn file_input(canonical_source: Seq<u8>, values: Seq<Seq<char>>) -> Seq<u8> {
    with_values(encode_utf8("flint-file-catalog-v2\0"@) + canonical_source, values)
}

/// The generation of a catalog from a file, over the values in order.
pub open spec fn file_generation(canonical_source: Seq<u8>, values: Seq<Seq<char>>) -> Seq<char> {
    hex_text(sha256(file_input(canonical_source, values)))
}

pub fn catalog_generation(canonical_source: &[u8], generation_values: &Vec<String>) -> (r: String)
    ensures
        r@ == file_generation(canonical_source@, texts(generation_values@)),
{
    let mut bytes: Vec<u8> = Vec::new();
    append_bytes(&mut bytes, "flint-file-catalog-v2\0".as_bytes());
    append_bytes(&mut bytes, canonical_source);
    proof {
        assert(bytes@ =~= encode_utf8("flint-file-catalog-v2\0"@) + canonical_source@);
    }
    append_values(&mut bytes, generation_values);
    hex_encode(sha256_digest(bytes.as_slice()).as_slice())
}

pub open spec fn with_generation(
    runtimes: Seq<ResolvedRuntimeView>,
    generation: Seq<char>,
) -> Seq<ResolvedRuntimeView> {
    runtimes.map_values(
        |runtime: ResolvedRuntimeView|
            ResolvedRuntimeView { catalog_generation: generation, ..runtime },
    )
}

pub fn set_catalog_generation(runtimes: &mut Vec<ResolvedRuntime>, generation: &str)
    ensures
        views(final(runtimes)@) == with_generation(views(old(runtimes)@), generation@),
{
    let ghost all = views(runtimes@);
    let ghost wanted = with_generation(all, generation@);
    let count = runtimes.len();
    for i in 0..count
        invariant
            wanted == with_generation(all, generation@),
            count == all.len(),
            runtimes@.len() == all.len(),
            forall|k: int| 0 <= k < i ==> (#[trigger] runtimes@[k])@ == wanted[k],
            forall|k: int| i <= k < all.len() ==> (#[trigger] runtimes@[k])@ == all[k],
    {
        let mut runtime = runtimes[i].clone();
        runtime.catalog_generation = generation.to_owned();
        runtimes.set(i, runtime);
        proof {
            assert(runtimes@[i as int]@ == wanted[i as int]);
        }
    }
    proof {
        assert(views(runtimes@) =~= wanted);
    }
}

// Deployments.

/// A runtime as a catalog first knows it.
pub open spec fn deployment_of(
    name: Seq<char>,
    image_reference: Seq<char>,
    image: ResolvedImageView,
    protocol: Protocol,
    environment: RequestedEnvironment,
    lifecycle: LifecyclePolicy,
    policy: DiscoveryPolicyView,
) -> ResolvedRuntimeView {
    ResolvedRuntimeView {
        catalog_generation: Seq::empty(),
        runtime_arn: arn_text(default_region(), default_account_id(), name),
        runtime_id: name,
        account_id: default_account_id(),
        qualifier: default_qualifier(),
        image: image_reference,
        image_id: image.immutable_reference,
        image_platform: image.platform,
        image_entrypoint: image.entrypoint,
        image_command: image.command,
        image_environment: image.environment,
        image_working_directory: image.working_directory,
        protocol,
        environment: environment.variables,
        environment_warnings: environment.warnings,
        resources: discovery_resources(),
        command: discovery_command(),
        lifecycle,
        allowed_custom_headers: policy.header_allowlist,
        authentication: permissive_authentication(),
        policy: no_policy(),
        connectivity: policy.connectivity,
        limits: discovery_limits(),
    }
}

fn new_deployment(
    name: &str,
    image_reference: String,
    image: ResolvedImage,
    protocol: Protocol,
    variables: Vec<ResolvedEnvironmentVariable>,
    warnings: Vec<String>,
    lifecycle: LifecyclePolicy,
    policy: &DiscoveryPolicy,
) -> (r: ResolvedRuntime)
    ensures
        r@ == deployment_of(
            name@,
            image_reference@,
            image@,
            protocol,
            (RequestedEnvironment {
                variables: views(variables@),
                warnings: texts(warnings@),
                values: Seq::empty(),
            }),
            lifecycle,
            policy@,
        ),
{
    ResolvedRuntime {
        catalog_generation: String::new(),
        runtime_arn: local_runtime_arn(DEFAULT_REGION, DEFAULT_ACCOUNT_ID, name),
        runtime_id: name.to_owned(),
        account_id: DEFAULT_ACCOUNT_ID.to_owned(),
        qualifier: DEFAULT_QUALIFIER.to_owned(),
        image: image_reference,
        image_id: image.immutable_reference,
        image_platform: image.platform,
        image_entrypoint: image.entrypoint,
        image_command: image.command,
        image_environment: image.environment,
        image_working_directory: image.working_directory,
        protocol,
        environment: variables,
        environment_warnings: warnings,
        resources: default_discovery_resources(),
        command: default_discovery_command(),
        lifecycle,
        allowed_custom_headers: clone_texts(&policy.header_allowlist),
        authentication: default_authentication(),
        policy: empty_authorization_policy(),
        connectivity: policy.connectivity.clone(),
        limits: default_discovery_limits(),
    }
}

/// Runtimes, with what their generation depends on.
#[verifier::ext_equal]
pub struct Built {
    pub names: Seq<Seq<char>>,
    pub values: Seq<Seq<char>>,
    pub runtimes: Seq<ResolvedRuntimeView>,
}

// Catalogs from images.

pub open spec fn descriptor_value(image: DiscoveredRuntimeImageView, canonical: Seq<u8>) -> Seq<
    char,
> {
    "descriptor\0"@ + image.image.immutable_reference + "\0"@ + image.image_reference + "\0"@
        + hex_text(canonical)
}

/// One more image.
pub open spec fn add_image(
    before: Built,
    image: DiscoveredRuntimeImageView,
    policy: DiscoveryPolicyView,
    environment: Map<Seq<char>, Seq<char>>,
) -> Result<Built, CatalogErrorView> {
    let descriptor = image.descriptor;
    match descriptor_checked(descriptor) {
        Err(e) => Err(CatalogErrorView::Validation(e.text())),
        Ok(_) => if before.names.contains(descriptor.name) {
            Err(
                CatalogErrorView::Validation(
                    "runtime name "@ + descriptor.name + " is claimed by multiple images"@,
                ),
            )
        } else {
            match canonical_descriptor_of(descriptor) {
                Err(e) => Err(CatalogErrorView::Validation(e)),
                Ok(canonical) => match declaration_checked(
                    descriptor.name,
                    descriptor.environment_variables,
                    descriptor.lifecycle_configuration,
                ) {
                    Err(e) => Err(CatalogErrorView::Validation(e)),
                    Ok(lifecycle) => {
                        let requested = requested_environment(
                            descriptor.name,
                            descriptor.environment_variables,
                            policy.environment_allowlist,
                            environment,
                        );
                        Ok(
                            Built {
                                names: before.names.push(descriptor.name),
                                values: before.values.push(descriptor_value(image, canonical))
                                    + requested.values,
                                runtimes: before.runtimes.push(
                                    deployment_of(
                                        descriptor.name,
                                        image.image_reference,
                                        image.image,
                                        descriptor.protocol,
                                        requested,
                                        lifecycle,
                                        policy,
                                    ),
                                ),
                            },
                        )
                    },
                },
            }
        },
    }
}

pub open spec fn add_images(
    images: Seq<DiscoveredRuntimeImageView>,
    policy: DiscoveryPolicyView,
    environment: Map<Seq<char>, Seq<char>>,
) -> Result<Built, CatalogErrorView>
    decreases images.len(),
{
    if images.len() == 0 {
        Ok(Built { names: Seq::empty(), values: Seq::empty(), runtimes: Seq::empty() })
    } else {
        match add_images(images.drop_last(), policy, environment) {
            Err(e) => Err(e),
            Ok(before) => add_image(before, images.last(), policy, environment),
        }
    }
}

proof fn lemma_add_images_error(
    images: Seq<DiscoveredRuntimeImageView>,
    policy: DiscoveryPolicyView,
    environment: Map<Seq<char>, Seq<char>>,
    n: int,
)
    requires
        0 <= n <= images.len(),
        add_images(images.take(n), policy, environment) is Err,
    ensures
        add_images(images, policy, environment) == add_images(images.take(n), policy, environment),
    decreases images.len() - n,
{
    if n < images.len() {
        assert(images.take(n + 1).drop_last() =~= images.take(n));
        lemma_add_images_error(images, policy, environment, n + 1);
    } else {
        assert(images.take(n) =~= images);
    }
}

/// The catalog without a runtime.
pub open spec fn empty_catalog() -> RuntimeCatalogView {
    RuntimeCatalogView {
        source: RuntimeCatalogSourceView::Docker,
        generation: hex_text(sha256(encode_utf8("docker-discovery-empty-v1"@))),
        runtimes: Seq::empty(),
    }
}

/// The catalog of a set of images: by image, each runtime name once, in the order of names.
pub open spec fn discovered_catalog(
    images: Seq<DiscoveredRuntimeImageView>,
    policy: DiscoveryPolicyView,
    environment: Map<Seq<char>, Seq<char>>,
) -> Result<RuntimeCatalogView, CatalogErrorView> {
    if images.len() == 0 {
        Ok(empty_catalog())
    } else {
        match add_images(keyed_order::<DiscoveredRuntimeImage>(images), policy, environment) {
            Err(e) => Err(e),
            Ok(built) => {
                let generation = discovery_generation(built.values + policy_values(policy));
                Ok(
                    RuntimeCatalogView {
                        source: RuntimeCatalogSourceView::Docker,
                        generation,
                        runtimes: with_generation(
                            keyed_order::<ResolvedRuntime>(built.runtimes),
                            generation,
                        ),
                    },
                )
            },
        }
    }
}

// Catalogs from files.

/// One more entry of a catalog file.
pub open spec fn add_document(
    before: Built,
    document: RuntimeDocumentView,
    policy: DiscoveryPolicyView,
    environment: Map<Seq<char>, Seq<char>>,
) -> Result<Built, CatalogErrorView> {
    if is_blank(document.image) {
        Err(CatalogErrorView::Validation("runtime has an empty image"@))
    } else {
        let name = match document.name {
            Some(name) => name,
            None => image_runtime_name(document.image),
        };
        if before.names.contains(name) {
            Err(CatalogErrorView::Validation("duplicate runtime name "@ + name))
        } else {
            match declaration_checked(
                name,
                document.environment_variables,
                document.lifecycle_configuration,
            ) {
                Err(e) => Err(CatalogErrorView::Validation(e)),
                Ok(lifecycle) => {
                    let requested = requested_environment(
                        name,
                        document.environment_variables,
                        policy.environment_allowlist,
                        environment,
                    );
                    Ok(
                        Built {
                            names: before.names.push(name),
                            values: before.values + requested.values,
                            runtimes: before.runtimes.push(
                                deployment_of(
                                    name,
                                    document.image,
                                    unknown_image(),
                                    document.protocol,
                                    requested,
                                    lifecycle,
                                    policy,
                                ),
                            ),
                        },
                    )
                },
            }
        }
    }
}

pub open spec fn add_documents(
    documents: Seq<RuntimeDocumentView>,
    policy: DiscoveryPolicyView,
    environment: Map<Seq<char>, Seq<char>>,
) -> Result<Built, CatalogErrorView>
    decreases documents.len(),
{
    if documents.len() == 0 {
        Ok(Built { names: Seq::empty(), values: policy_values(policy), runtimes: Seq::empty() })
    } else {
        match add_documents(documents.drop_last(), policy, environment) {
            Err(e) => Err(e),
            Ok(before) => add_document(before, documents.last(), policy, environment),
        }
    }
}

proof fn lemma_add_documents_error(
    documents: Seq<RuntimeDocumentView>,
    policy: DiscoveryPolicyView,
    environment: Map<Seq<char>, Seq<char>>,
    n: int,
)
    requires
        0 <= n <= documents.len(),
        add_documents(documents.take(n), policy, environment) is Err,
    ensures
        add_documents(documents, policy, environment) == add_documents(
            documents.take(n),
            policy,
            environment,
        ),
    decreases documents.len() - n,
{
    if n < documents.len() {
        assert(documents.take(n + 1).drop_last() =~= documents.take(n));
        lemma_add_documents_error(documents, policy, environment, n + 1);
    } else {
        assert(documents.take(n) =~= documents);
    }
}

/// The catalog of a file whose canonical form is known.
pub open spec fn file_catalog(
    path: Seq<char>,
    canonical_source: Seq<u8>,
    documents: Seq<RuntimeDocumentView>,
    policy: DiscoveryPolicyView,
    environment: Map<Seq<char>, Seq<char>>,
) -> Result<RuntimeCatalogView, CatalogErrorView> {
    if documents.len() == 0 {
        Err(CatalogErrorView::Validation("catalog must contain at least one runtime"@))
    } else {
        match add_documents(documents, policy, environment) {
            Err(e) => Err(e),
            Ok(built) => {
                let generation = file_generation(canonical_source, sorted(built.values));
                Ok(
                    RuntimeCatalogView {
                        source: RuntimeCatalogSourceView::File(path),
                        generation,
                        runtimes: with_generation(built.runtimes, generation),
                    },
                )
            },
        }
    }
}

// Image identities.

/// The images by the reference under which a catalog names them.
pub struct ResolvedImages {
    pub entries: Vec<(String, ResolvedImage)>,
}

impl View for ResolvedImages {
    type V = Seq<(Seq<char>, ResolvedImageView)>;

    open spec fn view(&self) -> Seq<(Seq<char>, ResolvedImageView)> {
        views(self.entries@)
    }
}

pub open spec fn find_image(
    images: Seq<(Seq<char>, ResolvedImageView)>,
    reference: Seq<char>,
) -> Option<ResolvedImageView>
    decreases images.len(),
{
    if images.len() == 0 {
        None
    } else if images[0].0 == reference {
        Some(images[0].1)
    } else {
        find_image(images.drop_first(), reference)
    }
}

impl ResolvedImages {
    pub fn find(&self, reference: &str) -> (r: Option<&ResolvedImage>)
        ensures
            match (r, find_image(self@, reference@)) {
                (Some(a), Some(b)) => a@ == b,
                (None, None) => true,
                _ => false,
            },
    {
        let ghost all = self@;
        proof {
            assert(all.skip(0) =~= all);
        }
        for i in 0..self.entries.len()
            invariant
                all == self@,
                find_image(all, reference@) == find_image(all.skip(i as int), reference@),
        {
            proof {
                assert(all.skip(i as int)[0] == self.entries@[i as int]@);
                assert(all.skip(i as int).drop_first() =~= all.skip(i as int + 1));
            }
            if same(self.entries[i].0.as_str(), reference) {
                return Some(&self.entries[i].1);
            }
        }
        None
    }
}

/// A runtime whose image is known.
pub open spec fn with_image(runtime: ResolvedRuntimeView, image: ResolvedImageView) -> ResolvedRuntimeView {
    ResolvedRuntimeView {
        image_id: image.immutable_reference,
        image_platform: image.platform,
        image_entrypoint: image.entrypoint,
        image_command: image.command,
        image_environment: image.environment,
        image_working_directory: image.working_directory,
        ..runtime
    }
}

pub open spec fn image_value(runtime: ResolvedRuntimeView, image: ResolvedImageView) -> Seq<char> {
    "image\0"@ + runtime.runtime_arn + "\0"@ + runtime.qualifier + "\0"@ + image.immutable_reference
        + "\0"@ + image.platform
}

/// The runtimes with their images, and what their generation depends on.
pub open spec fn add_image_ids(
    runtimes: Seq<ResolvedRuntimeView>,
    images: Seq<(Seq<char>, ResolvedImageView)>,
) -> Result<(Seq<ResolvedRuntimeView>, Seq<Seq<char>>), CatalogErrorView>
    decreases runtimes.len(),
{
    if runtimes.len() == 0 {
        Ok((Seq::empty(), Seq::empty()))
    } else {
        match add_image_ids(runtimes.drop_last(), images) {
            Err(e) => Err(e),
            Ok(before) => {
                let runtime = runtimes.last();
                match find_image(images, runtime.image) {
                    None => Err(
                        CatalogErrorView::Validation(
                            "runtime "@ + runtime.runtime_id + " qualifier "@ + runtime.qualifier
                                + " image "@ + runtime.image + " has no immutable image ID"@,
                        ),
                    ),
                    Some(image) => Ok(
                        (
                            before.0.push(with_image(runtime, image)),
                            before.1.push(image_value(runtime, image)),
                        ),
                    ),
                }
            },
        }
    }
}

proof fn lemma_add_image_ids_error(
    runtimes: Seq<ResolvedRuntimeView>,
    images: Seq<(Seq<char>, ResolvedImageView)>,
    n: int,
)
    requires
        0 <= n <= runtimes.len(),
        add_image_ids(runtimes.take(n), images) is Err,
    ensures
        add_image_ids(runtimes, images) == add_image_ids(runtimes.take(n), images),
    decreases runtimes.len() - n,
{
    if n < runtimes.len() {
        assert(runtimes.take(n + 1).drop_last() =~= runtimes.take(n));
        lemma_add_image_ids_error(runtimes, images, n + 1);
    } else {
        assert(runtimes.take(n) =~= runtimes);
    }
}

/// The generation of a catalog whose images are known.
pub open spec fn image_generation(generation: Seq<char>, values: Seq<Seq<char>>) -> Seq<char> {
    hex_text(sha256(with_values(encode_utf8(generation), sorted(values))))
}

pub open spec fn catalog_with_images(
    catalog: RuntimeCatalogView,
    images: Seq<(Seq<char>, ResolvedImageView)>,
) -> Result<RuntimeCatalogView, CatalogErrorView> {
    match add_image_ids(catalog.runtimes, images) {
        Err(e) => Err(e),
        Ok(added) => {
            let generation = image_generation(catalog.generation, added.1);
            Ok(
                RuntimeCatalogView {
                    source: catalog.source,
                    generation,
                    runtimes: with_generation(added.0, generation),
                },
            )
        },
    }
}

// Resolution.

pub open spec fn account_mismatch() -> CatalogErrorView {
    CatalogErrorView::IdentityMismatch("accountId does not match the request credentials"@)
}

/// The runtime that an identifier means to an identity: an ARN must be within the identity's region
/// and account; a plain identifier needs the account beside it.
pub open spec fn requested_id(
    identifier: Seq<char>,
    account_id: Option<Seq<char>>,
    identity: LocalIdentityView,
) -> Result<Seq<char>, CatalogErrorView> {
    if account_id is Some && account_id != Some(identity.account_id) {
        Err(account_mismatch())
    } else if looks_like_arn(identifier) {
        match parsed_arn(identifier) {
            Err(e) => Err(e),
            Ok(arn) => if arn.region != identity.region || arn.account_id != identity.account_id {
                Err(
                    CatalogErrorView::IdentityMismatch(
                        "runtime ARN does not match the request credential scope"@,
                    ),
                )
            } else {
                Ok(arn.runtime_id)
            },
        }
    } else {
        match account_id {
            None => Err(
                CatalogErrorView::Resolution(
                    "accountId is required when resolving a runtime ID"@,
                ),
            ),
            Some(_) => Ok(identifier),
        }
    }
}

pub open spec fn find_runtime(runtimes: Seq<ResolvedRuntimeView>, runtime_id: Seq<char>) -> Option<
    ResolvedRuntimeView,
>
    decreases runtimes.len(),
{
    if runtimes.len() == 0 {
        None
    } else if runtimes[0].runtime_id == runtime_id {
        Some(runtimes[0])
    } else {
        find_runtime(runtimes.drop_first(), runtime_id)
    }
}

/// The runtime as an identity sees it: under its own region and account.
pub open spec fn seen_by(runtime: ResolvedRuntimeView, identity: LocalIdentityView) -> ResolvedRuntimeView {
    ResolvedRuntimeView {
        runtime_arn: arn_text(identity.region, identity.account_id, runtime.runtime_id),
        account_id: identity.account_id,
        qualifier: default_qualifier(),
        ..runtime
    }
}

pub open spec fn resolved(
    catalog: RuntimeCatalogView,
    identifier: Seq<char>,
    account_id: Option<Seq<char>>,
    qualifier: Option<Seq<char>>,
    identity: LocalIdentityView,
) -> Result<ResolvedRuntimeView, CatalogErrorView> {
    match requested_id(identifier, account_id, identity) {
        Err(e) => Err(e),
        Ok(runtime_id) => match find_runtime(catalog.runtimes, runtime_id) {
            None => Err(runtime_not_found(identifier)),
            Some(runtime) => if qualifier is Some && qualifier != Some(default_qualifier()) {
                Err(
                    CatalogErrorView::Resolution(
                        "runtime "@ + runtime.runtime_id + " has no qualifier "@
                            + qualifier->Some_0,
                    ),
                )
            } else {
                Ok(seen_by(runtime, identity))
            },
        },
    }
}

pub open spec fn resolved_stored(
    catalog: RuntimeCatalogView,
    runtime_arn: Seq<char>,
    qualifier: Option<Seq<char>>,
) -> Result<ResolvedRuntimeView, CatalogErrorView> {
    match parsed_arn(runtime_arn) {
        Err(e) => Err(e),
        Ok(arn) => resolved(
            catalog,
            runtime_arn,
            None,
            qualifier,
            LocalIdentityView { region: arn.region, account_id: arn.account_id },
        ),
    }
}

/// The views of an optional text.
pub open spec fn opt_str(value: Option<&str>) -> Option<Seq<char>> {
    match value {
        Some(s) => Some(s@),
        None => None,
    }
}

/// The identifier of the runtime that a request means.
pub fn requested_runtime_id(
    runtime_identifier: &str,
    account_id: Option<&str>,
    identity: &LocalIdentity,
) -> (r: Result<String, CatalogError>)
    ensures
        agrees(r, requested_id(runtime_identifier@, opt_str(account_id), identity@)),
{
    match account_id {
        Some(account_id) => {
            if !same(account_id, identity.account_id.as_str()) {
                return Err(
                    CatalogError::IdentityMismatch(
                        "accountId does not match the request credentials".to_owned(),
                    ),
                );
            }
        },
        None => {},
    }
    if has_prefix(runtime_identifier, "arn:") {
        match parse_runtime_arn(runtime_identifier) {
            Err(e) => Err(e),
            Ok(arn) => {
                if !same(arn.region.as_str(), identity.region.as_str()) || !same(
                    arn.account_id.as_str(),
                    identity.account_id.as_str(),
                ) {
                    Err(
                        CatalogError::IdentityMismatch(
                            "runtime ARN does not match the request credential scope".to_owned(),
                        ),
                    )
                } else {
                    Ok(arn.runtime_id)
                }
            },
        }
    } else {
        match account_id {
            None => Err(
                CatalogError::Resolution(
                    "accountId is required when resolving a runtime ID".to_owned(),
                ),
            ),
            Some(_) => Ok(runtime_identifier.to_owned()),
        }
    }
}

impl RuntimeCatalog {
    pub fn empty_discovery() -> (r: Self)
        ensures
            r@ == empty_catalog(),
    {
        let r = RuntimeCatalog {
            source: RuntimeCatalogSource::Docker,
            generation: hex_encode(
                sha256_digest("docker-discovery-empty-v1".as_bytes()).as_slice(),
            ),
            runtimes: Vec::new(),
        };
        proof {
            assert(r@.runtimes =~= Seq::empty());
        }
        r
    }

    /// Makes a catalog of the images that declare runtimes.
    #[verifier::loop_isolation(false)]
    pub fn from_discovered_images(
        images: Vec<DiscoveredRuntimeImage>,
        policy: &DiscoveryPolicy,
        environment: &Labels,
    ) -> (r: Result<Self, CatalogError>)
        ensures
            agrees(r, discovered_catalog(views(images@), policy@, environment@)),
    {
        if images.len() == 0 {
            return Ok(Self::empty_discovery());
        }
        let mut rest = sort_by_key(images);
        let ghost all = views(rest@);
        let ghost mut done: int = 0;
        let mut names: Vec<String> = Vec::new();
        let mut values: Vec<String> = Vec::new();
        let mut runtimes: Vec<ResolvedRuntime> = Vec::new();
        proof {
            assert(texts(names@) =~= Seq::empty());
            assert(texts(values@) =~= Seq::empty());
            assert(views(runtimes@) =~= Seq::empty());
            assert(all.skip(0) =~= all);
        }
        while rest.len() > 0
            invariant
                0 <= done <= all.len(),
                views(rest@) == all.skip(done),
                add_images(all.take(done), policy@, environment@) == Ok::<Built, CatalogErrorView>(
                    Built {
                        names: texts(names@),
                        values: texts(values@),
                        runtimes: views(runtimes@),
                    },
                ),
            decreases rest@.len(),
        {
            let ghost rest_before = rest@;
            let image = rest.remove(0);
            let ghost item = image@;
            proof {
                assert(views(rest_before)[0] == item);
                assert(views(rest_before).len() == rest_before.len());
                assert(all.skip(done)[0] == all[done]);
                assert(views(rest@) =~= views(rest_before).drop_first());
                assert(views(rest@) =~= all.skip(done + 1));
                let upto = all.take(done + 1);
                assert(upto.drop_last() =~= all.take(done));
                assert(upto.last() == item);
            }
            match validate_runtime_descriptor(&image.descriptor) {
                Err(e) => {
                    proof {
                        lemma_add_images_error(all, policy@, environment@, done + 1);
                    }
                    return Err(CatalogError::Validation(e.message()));
                },
                Ok(_) => {},
            }
            if contains_text(&names, image.descriptor.name.as_str()) {
                proof {
                    lemma_add_images_error(all, policy@, environment@, done + 1);
                }
                return Err(
                    CatalogError::Validation(
                        cat3(
                            "runtime name ",
                            image.descriptor.name.as_str(),
                            " is claimed by multiple images",
                        ),
                    ),
                );
            }
            let canonical = match canonical_descriptor(&image.descriptor) {
                Err(e) => {
                    proof {
                        lemma_add_images_error(all, policy@, environment@, done + 1);
                    }
                    return Err(CatalogError::Validation(e));
                },
                Ok(canonical) => canonical,
            };
            let lifecycle = match validate_runtime_declaration(
                image.descriptor.name.as_str(),
                &image.descriptor.environment_variables,
                &image.descriptor.lifecycle_configuration,
            ) {
                Err(e) => {
                    proof {
                        lemma_add_images_error(all, policy@, environment@, done + 1);
                    }
                    return Err(CatalogError::Validation(e));
                },
                Ok(lifecycle) => lifecycle,
            };
            let ghost names_before = names@;
            let ghost values_before = values@;
            let ghost runtimes_before = runtimes@;
            let shown = hex_encode(canonical.as_slice());
            let value = cat6(
                "descriptor\0",
                image.image.immutable_reference.as_str(),
                "\0",
                image.image_reference.as_str(),
                "\0",
                shown.as_str(),
            );
            values.push(value);
            proof {
                assert(texts(values@) =~= texts(values_before).push(value@));
            }
            let (variables, warnings) = resolve_requested_environment(
                image.descriptor.name.as_str(),
                &image.descriptor.environment_variables,
                &policy.environment_allowlist,
                environment,
                &mut values,
            );
            names.push(image.descriptor.name.clone());
            let runtime = new_deployment(
                image.descriptor.name.as_str(),
                image.image_reference,
                image.image,
                image.descriptor.protocol,
                variables,
                warnings,
                lifecycle,
                policy,
            );
            let ghost added = runtime@;
            runtimes.push(runtime);
            proof {
                assert(texts(names@) =~= texts(names_before).push(item.descriptor.name));
                assert(views(runtimes@) =~= views(runtimes_before).push(added));
                done = done + 1;
            }
        }
        proof {
            assert(all.take(all.len() as int) =~= all);
        }
        let mut ordered = sort_by_key(runtimes);
        append_texts(&mut values, policy_generation_values(policy));
        let generation = write_discovery_generation(values);
        set_catalog_generation(&mut ordered, generation.as_str());
        Ok(RuntimeCatalog { source: RuntimeCatalogSource::Docker, generation, runtimes: ordered })
    }

    /// Makes a catalog of a file. The document is what the bytes of the file say.
    pub fn from_bytes_with_environment(
        path: &str,
        bytes: &[u8],
        document: &CatalogDocument,
        policy: &DiscoveryPolicy,
        environment: &Labels,
    ) -> (r: Result<Self, CatalogError>)
        ensures
            match canonical_json_of(bytes@) {
                Err(e) => r matches Err(error) && error@ == (CatalogErrorView::Parse {
                    path: path@,
                    source: e,
                }),
                Ok(canonical) => agrees(
                    r,
                    file_catalog(path@, canonical, document@, policy@, environment@),
                ),
            },
    {
        match canonical_json(bytes) {
            Err(source) => Err(CatalogError::Parse { path: path.to_owned(), source }),
            Ok(canonical) => Self::from_canonical_source(
                path,
                canonical.as_slice(),
                document,
                policy,
                environment,
            ),
        }
    }

    /// Makes a catalog of a file whose canonical form is known.
    pub fn from_canonical_source(
        path: &str,
        canonical_source: &[u8],
        document: &CatalogDocument,
        policy: &DiscoveryPolicy,
        environment: &Labels,
    ) -> (r: Result<Self, CatalogError>)
        ensures
            agrees(
                r,
                file_catalog(path@, canonical_source@, document@, policy@, environment@),
            ),
    {
        if document.runtimes.len() == 0 {
            return Err(
                CatalogError::Validation("catalog must contain at least one runtime".to_owned()),
            );
        }
        let ghost all = document@;
        let mut names: Vec<String> = Vec::new();
        let mut values = policy_generation_values(policy);
        let mut runtimes: Vec<ResolvedRuntime> = Vec::new();
        proof {
            assert(texts(names@) =~= Seq::empty());
            assert(views(runtimes@) =~= Seq::empty());
        }
        for i in 0..document.runtimes.len()
            invariant
                all == document@,
                all.len() > 0,
                add_documents(all.take(i as int), policy@, environment@) == Ok::<
                    Built,
                    CatalogErrorView,
                >(
                    Built {
                        names: texts(names@),
                        values: texts(values@),
                        runtimes: views(runtimes@),
                    },
                ),
        {
            let runtime = &document.runtimes[i];
            proof {
                let upto = all.take(i as int + 1);
                assert(upto.drop_last() =~= all.take(i as int));
                assert(upto.last() == runtime@);
            }
            if trim(runtime.image.as_str()).as_str().is_empty() {
                proof {
                    lemma_add_documents_error(all, policy@, environment@, i as int + 1);
                }
                return Err(CatalogError::Validation("runtime has an empty image".to_owned()));
            }
            let name = match &runtime.name {
                Some(name) => name.clone(),
                None => runtime_name_from_image(runtime.image.as_str()),
            };
            if contains_text(&names, name.as_str()) {
                proof {
                    lemma_add_documents_error(all, policy@, environment@, i as int + 1);
                }
                return Err(
                    CatalogError::Validation(cat2("duplicate runtime name ", name.as_str())),
                );
            }
            let lifecycle = match validate_runtime_declaration(
                name.as_str(),
                &runtime.environment_variables,
                &runtime.lifecycle_configuration,
            ) {
                Err(e) => {
                    proof {
                        lemma_add_documents_error(all, policy@, environment@, i as int + 1);
                    }
                    return Err(CatalogError::Validation(e));
                },
                Ok(lifecycle) => lifecycle,
            };
            let ghost names_before = names@;
            let ghost runtimes_before = runtimes@;
            let (variables, warnings) = resolve_requested_environment(
                name.as_str(),
                &runtime.environment_variables,
                &policy.environment_allowlist,
                environment,
                &mut values,
            );
            let deployment = new_deployment(
                name.as_str(),
                runtime.image.clone(),
                image_not_known_yet(),
                runtime.protocol,
                variables,
                warnings,
                lifecycle,
                policy,
            );
            let ghost added = deployment@;
            let ghost name_text = name@;
            names.push(name);
            runtimes.push(deployment);
            proof {
                assert(texts(names@) =~= texts(names_before).push(name_text));
                assert(views(runtimes@) =~= views(runtimes_before).push(added));
            }
        }
        proof {
            assert(all.take(all.len() as int) =~= all);
        }
        let ordered = sort_ranked(values);
        let generation = catalog_generation(canonical_source, &ordered);
        set_catalog_generation(&mut runtimes, generation.as_str());
        Ok(
            RuntimeCatalog {
                source: RuntimeCatalogSource::File(path.to_owned()),
                generation,
                runtimes,
            },
        )
    }

    /// The same catalog with the images of its runtimes pinned to what they are now.
    pub fn with_resolved_image_ids(&self, image_ids: &ResolvedImages) -> (r: Result<
        Self,
        CatalogError,
    >)
        ensures
            agrees(r, catalog_with_images(self@, image_ids@)),
    {
        let ghost all = self@.runtimes;
        let mut runtimes: Vec<ResolvedRuntime> = Vec::new();
        let mut values: Vec<String> = Vec::new();
        proof {
            assert(views(runtimes@) =~= Seq::empty());
            assert(texts(values@) =~= Seq::empty());
        }
        for i in 0..self.runtimes.len()
            invariant
                all == self@.runtimes,
                add_image_ids(all.take(i as int), image_ids@) == Ok::<
                    (Seq<ResolvedRuntimeView>, Seq<Seq<char>>),
                    CatalogErrorView,
                >((views(runtimes@), texts(values@))),
        {
            let runtime = &self.runtimes[i];
            proof {
                let upto = all.take(i as int + 1);
                assert(upto.drop_last() =~= all.take(i as int));
                assert(upto.last() == runtime@);
            }
            match image_ids.find(runtime.image.as_str()) {
                None => {
                    proof {
                        lemma_add_image_ids_error(all, image_ids@, i as int + 1);
                    }
                    return Err(
                        CatalogError::Validation(
                            cat7(
                                "runtime ",
                                runtime.runtime_id.as_str(),
                                " qualifier ",
                                runtime.qualifier.as_str(),
                                " image ",
                                runtime.image.as_str(),
                                " has no immutable image ID",
                            ),
                        ),
                    );
                },
                Some(image) => {
                    let ghost runtimes_before = runtimes@;
                    let ghost values_before = values@;
                    let mut pinned = runtime.clone();
                    pinned.image_id = image.immutable_reference.clone();
                    pinned.image_platform = image.platform.clone();
                    pinned.image_entrypoint = clone_opt_texts(&image.entrypoint);
                    pinned.image_command = clone_opt_texts(&image.command);
                    pinned.image_environment = clone_texts(&image.environment);
                    pinned.image_working_directory = clone_opt(&image.working_directory);
                    let mut value = cat7(
                        "image\0",
                        runtime.runtime_arn.as_str(),
                        "\0",
                        runtime.qualifier.as_str(),
                        "\0",
                        image.immutable_reference.as_str(),
                        "\0",
                    );
                    value.append(image.platform.as_str());
                    let ghost pinned_view = pinned@;
                    let ghost value_view = value@;
                    runtimes.push(pinned);
                    values.push(value);
                    proof {
                        assert(pinned_view =~= with_image(runtime@, image@));
                        assert(views(runtimes@) =~= views(runtimes_before).push(pinned_view));
                        assert(texts(values@) =~= texts(values_before).push(value_view));
                    }
                },
            }
        }
        proof {
            assert(all.take(all.len() as int) =~= all);
        }
        let ordered = sort_ranked(values);
        let mut bytes: Vec<u8> = Vec::new();
        append_bytes(&mut bytes, self.generation.as_str().as_bytes());
        proof {
            assert(bytes@ =~= encode_utf8(self.generation@));
        }
        append_values(&mut bytes, &ordered);
        let generation = hex_encode(sha256_digest(bytes.as_slice()).as_slice());
        set_catalog_generation(&mut runtimes, generation.as_str());
        Ok(RuntimeCatalog { source: self.source.clone(), generation, runtimes })
    }

    fn find(&self, runtime_id: &str) -> (r: Option<&ResolvedRuntime>)
        ensures
            match (r, find_runtime(self@.runtimes, runtime_id@)) {
                (Some(a), Some(b)) => a@ == b,
                (None, None) => true,
                _ => false,
            },
    {
        let ghost all = self@.runtimes;
        proof {
            assert(all.skip(0) =~= all);
        }
        for i in 0..self.runtimes.len()
            invariant
                all == self@.runtimes,
                find_runtime(all, runtime_id@) == find_runtime(all.skip(i as int), runtime_id@),
        {
            proof {
                assert(all.skip(i as int)[0] == self.runtimes@[i as int]@);
                assert(all.skip(i as int).drop_first() =~= all.skip(i as int + 1));
            }
            if same(self.runtimes[i].runtime_id.as_str(), runtime_id) {
                return Some(&self.runtimes[i]);
            }
        }
        None
    }

    pub fn resolve(
        &self,
        runtime_identifier: &str,
        account_id: Option<&str>,
        qualifier: Option<&str>,
        identity: &LocalIdentity,
    ) -> (r: Result<ResolvedRuntime, CatalogError>)
        ensures
            agrees(
                r,
                resolved(
                    self@,
                    runtime_identifier@,
                    opt_str(account_id),
                    opt_str(qualifier),
                    identity@,
                ),
            ),
    {
        let runtime_id = match requested_runtime_id(runtime_identifier, account_id, identity) {
            Err(e) => {
                return Err(e);
            },
            Ok(runtime_id) => runtime_id,
        };
        proof {
            lemma_found_runtime(self@.runtimes, runtime_id@);
        }
        match self.find(runtime_id.as_str()) {
            None => Err(
                CatalogError::Resolution(cat3("runtime ", runtime_identifier, " was not found")),
            ),
            Some(template) => {
                match qualifier {
                    Some(qualifier) => {
                        if !same(qualifier, DEFAULT_QUALIFIER) {
                            return Err(
                                CatalogError::Resolution(
                                    cat4(
                                        "runtime ",
                                        template.runtime_id.as_str(),
                                        " has no qualifier ",
                                        qualifier,
                                    ),
                                ),
                            );
                        }
                    },
                    None => {},
                }
                let mut runtime = template.clone();
                runtime.runtime_arn = local_runtime_arn(
                    identity.region.as_str(),
                    identity.account_id.as_str(),
                    runtime_id.as_str(),
                );
                runtime.account_id = identity.account_id.clone();
                runtime.qualifier = DEFAULT_QUALIFIER.to_owned();
                proof {
                    assert(runtime@ =~= seen_by(template@, identity@));
                }
                Ok(runtime)
            },
        }
    }

    pub fn resolve_stored(&self, runtime_arn: &str, qualifier: Option<&str>) -> (r: Result<
        ResolvedRuntime,
        CatalogError,
    >)
        ensures
            agrees(r, resolved_stored(self@, runtime_arn@, opt_str(qualifier))),
    {
        match parse_runtime_arn(runtime_arn) {
            Err(e) => Err(e),
            Ok(arn) => {
                let identity = LocalIdentity { region: arn.region, account_id: arn.account_id };
                self.resolve(runtime_arn, None, qualifier, &identity)
            },
        }
    }

    /// The first runtime, where there is one.
    pub fn default_snapshot_opt(&self) -> (r: Option<ResolvedRuntime>)
        ensures
            match r {
                Some(runtime) => self@.runtimes.len() > 0 && runtime@ == self@.runtimes[0],
                None => self@.runtimes.len() == 0,
            },
    {
        if self.runtimes.len() > 0 {
            proof {
                assert(self@.runtimes[0] == self.runtimes@[0]@);
            }
            Some(self.runtimes[0].clone())
        } else {
            None
        }
    }

    /// The first runtime.
    pub fn default_snapshot(&self) -> (r: ResolvedRuntime)
        requires
            self@.runtimes.len() > 0,
        ensures
            r@ == self@.runtimes[0],
    {
        proof {
            assert(self@.runtimes[0] == self.runtimes@[0]@);
        }
        self.runtimes[0].clone()
    }

    /// All runtimes.
    pub fn snapshots(&self) -> (r: Vec<ResolvedRuntime>)
        ensures
            views(r@) == self@.runtimes,
    {
        let runtimes = self.runtimes.clone();
        proof {
            assert(views(runtimes@) =~= views(self.runtimes@));
        }
        runtimes
    }

    pub fn source(&self) -> (r: &RuntimeCatalogSource)
        ensures
            r@ == self@.source,
    {
        &self.source
    }

    pub fn generation(&self) -> (r: &str)
        ensures
            r@ == self@.generation,
    {
        self.generation.as_str()
    }

    pub fn len(&self) -> (r: usize)
        ensures
            r == self@.runtimes.len(),
    {
        self.runtimes.len()
    }
}

fn append_texts(list: &mut Vec<String>, more: Vec<String>)
    ensures
        texts(final(list)@) == texts(old(list)@) + texts(more@),
{
    let ghost start = texts(list@);
    let ghost all = texts(more@);
    for i in 0..more.len()
        invariant
            all == texts(more@),
            texts(list@) == start + all.take(i as int),
    {
        let ghost before = list@;
        list.push(more[i].clone());
        proof {
            assert(texts(list@) =~= texts(before).push(more@[i as int]@));
            assert(texts(list@) =~= start + all.take(i as int + 1));
        }
    }
    proof {
        assert(all.take(all.len() as int) =~= all);
    }
}

/// A runtime that is found has the identifier that was looked for.
pub proof fn lemma_found_runtime(runtimes: Seq<ResolvedRuntimeView>, runtime_id: Seq<char>)
    ensures
        find_runtime(runtimes, runtime_id) matches Some(runtime) ==> runtime.runtime_id
            == runtime_id,
    decreases runtimes.len(),
{
    if runtimes.len() > 0 && runtimes[0].runtime_id != runtime_id {
        lemma_found_runtime(runtimes.drop_first(), runtime_id);
    }
}

} // verus!
