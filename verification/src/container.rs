//! Session containers: what they are called, how they are made, and how they are found again.

use vstd::prelude::*;
use vstd::utf8::encode_utf8;

use crate::catalog::{resolved_stored, RuntimeCatalog, RuntimeCatalogView};
use crate::environment::container_environment_of;
use crate::labels::{lookup, Labels};
use crate::number::{decimal, decimal_text, parse_u64, parsed_u64};
use crate::primitives::{hex_encode, hex_text, sha256, sha256_digest};
use crate::runtime::{
    clone_opt_texts, opt_texts, ConnectivityMode, ResolvedRuntime, ResolvedRuntimeView,
};
use crate::session::{SessionContainer, SessionContainerView, SessionHealth};
use crate::session_map::{SessionKey, SessionKeyView};
use crate::text::{
    agrees, cat2, cat4, cat5, cat7, char_is_alnum, chars_of, clone_opt, is_alnum, opt_text, same,
    slice_text, texts,
};

verus! {

pub const MANAGED_LABEL: &'static str = "agentcore.emulator.managed";

pub const OWNER_LABEL: &'static str = "agentcore.emulator.owner";

pub const RUNTIME_LABEL: &'static str = "agentcore.emulator.runtime-arn";

pub const QUALIFIER_LABEL: &'static str = "agentcore.emulator.qualifier";

pub const SESSION_LABEL: &'static str = "agentcore.emulator.runtime-session-id";

pub const CATALOG_GENERATION_LABEL: &'static str = "agentcore.emulator.catalog-generation";

pub const IMAGE_LABEL: &'static str = "agentcore.emulator.image";

pub const IMAGE_ID_LABEL: &'static str = "agentcore.emulator.image-id";

pub const CREATED_AT_LABEL: &'static str = "agentcore.emulator.created-at-unix-seconds";

/// The user that everything in a session container runs as.
pub const CONTAINER_USER: &'static str = "10001:10001";

// Names.

/// What identifies a session of an owner, as one text.
pub open spec fn session_identity(runtime_owner: Seq<char>, key: SessionKeyView) -> Seq<char> {
    runtime_owner + ":"@ + key.runtime_arn + ":"@ + key.qualifier + ":"@ + key.runtime_session_id
}

/// The first 24 digits of the digest of a session's identity.
pub open spec fn key_digest(runtime_owner: Seq<char>, key: SessionKeyView) -> Seq<char> {
    hex_text(sha256(encode_utf8(session_identity(runtime_owner, key)))).take(24)
}

pub fn session_key_digest(runtime_owner: &str, key: &SessionKey) -> (r: String)
    ensures
        r@ == key_digest(runtime_owner@, key@),
{
    let identity = cat7(
        runtime_owner,
        ":",
        key.runtime_arn.as_str(),
        ":",
        key.qualifier.as_str(),
        ":",
        key.runtime_session_id.as_str(),
    );
    let digest = hex_encode(sha256_digest(identity.as_str().as_bytes()).as_slice());
    let chars = chars_of(digest.as_str());
    proof {
        assert(digest@.take(24) =~= digest@.subrange(0, 24));
    }
    slice_text(&chars, 0, 24)
}

pub open spec fn container_name_of(runtime_owner: Seq<char>, key: SessionKeyView) -> Seq<char> {
    "agentcore-session-"@ + key_digest(runtime_owner, key)
}

pub fn session_container_name(runtime_owner: &str, key: &SessionKey) -> (r: String)
    ensures
        r@ == container_name_of(runtime_owner@, key@),
{
    let digest = session_key_digest(runtime_owner, key);
    cat2("agentcore-session-", digest.as_str())
}

pub open spec fn volume_name_of(runtime_owner: Seq<char>, key: SessionKeyView) -> Seq<char> {
    "agentcore-session-data-"@ + key_digest(runtime_owner, key)
}

pub fn session_volume_name(runtime_owner: &str, key: &SessionKey) -> (r: String)
    ensures
        r@ == volume_name_of(runtime_owner@, key@),
{
    let digest = session_key_digest(runtime_owner, key);
    cat2("agentcore-session-data-", digest.as_str())
}

// Labels.

/// The labels that say whose a container or volume is, and of which session.
pub open spec fn ownership_labels(
    runtime_owner: Seq<char>,
    key: SessionKeyView,
) -> Map<Seq<char>, Seq<char>> {
    Map::<Seq<char>, Seq<char>>::empty().insert("agentcore.emulator.managed"@, "true"@).insert(
        "agentcore.emulator.owner"@,
        runtime_owner,
    ).insert("agentcore.emulator.runtime-arn"@, key.runtime_arn).insert(
        "agentcore.emulator.qualifier"@,
        key.qualifier,
    ).insert("agentcore.emulator.runtime-session-id"@, key.runtime_session_id)
}

pub fn session_volume_labels(runtime_owner: &str, key: &SessionKey) -> (r: Labels)
    ensures
        r@ == ownership_labels(runtime_owner@, key@),
{
    let mut labels = Labels::new();
    labels.insert(MANAGED_LABEL.to_owned(), "true".to_owned());
    labels.insert(OWNER_LABEL.to_owned(), runtime_owner.to_owned());
    labels.insert(RUNTIME_LABEL.to_owned(), key.runtime_arn.clone());
    labels.insert(QUALIFIER_LABEL.to_owned(), key.qualifier.clone());
    labels.insert(SESSION_LABEL.to_owned(), key.runtime_session_id.clone());
    labels
}

/// The labels hold all that says whose the session is.
pub open spec fn is_owned(
    labels: Map<Seq<char>, Seq<char>>,
    runtime_owner: Seq<char>,
    key: SessionKeyView,
) -> bool {
    &&& lookup(labels, "agentcore.emulator.managed"@) == Some("true"@)
    &&& lookup(labels, "agentcore.emulator.owner"@) == Some(runtime_owner)
    &&& lookup(labels, "agentcore.emulator.runtime-arn"@) == Some(key.runtime_arn)
    &&& lookup(labels, "agentcore.emulator.qualifier"@) == Some(key.qualifier)
    &&& lookup(labels, "agentcore.emulator.runtime-session-id"@) == Some(key.runtime_session_id)
}

pub fn labels_are_owned(labels: &Labels, runtime_owner: &str, key: &SessionKey) -> (r: bool)
    ensures
        r == is_owned(labels@, runtime_owner@, key@),
{
    labels.holds(MANAGED_LABEL, "true") && labels.holds(OWNER_LABEL, runtime_owner) && labels.holds(
        RUNTIME_LABEL,
        key.runtime_arn.as_str(),
    ) && labels.holds(QUALIFIER_LABEL, key.qualifier.as_str()) && labels.holds(
        SESSION_LABEL,
        key.runtime_session_id.as_str(),
    )
}

/// 33 to 256 letters, digits, `.`, `:`, `_` and `-`.
pub open spec fn is_session_id(value: Seq<char>) -> bool {
    &&& 33 <= value.len() <= 256
    &&& forall|i: int|
        0 <= i < value.len() ==> is_alnum(#[trigger] value[i]) || value[i] == '.' || value[i] == ':'
            || value[i] == '_' || value[i] == '-'
}

pub fn valid_runtime_session_label(value: &str) -> (r: bool)
    ensures
        r == is_session_id(value@),
{
    let chars = chars_of(value);
    if chars.len() < 33 || chars.len() > 256 {
        return false;
    }
    for i in 0..chars.len()
        invariant
            chars@ == value@,
            forall|k: int|
                0 <= k < i ==> is_alnum(#[trigger] value@[k]) || value@[k] == '.' || value@[k]
                    == ':' || value@[k] == '_' || value@[k] == '-',
    {
        let c = chars[i];
        if !(char_is_alnum(c) || c == '.' || c == ':' || c == '_' || c == '-') {
            proof {
                assert(!is_alnum(value@[i as int]));
            }
            return false;
        }
    }
    true
}

/// The labels of a session container of this owner.
pub open spec fn is_candidate(
    labels: Map<Seq<char>, Seq<char>>,
    runtime_owner: Seq<char>,
) -> bool {
    &&& lookup(labels, "agentcore.emulator.managed"@) == Some("true"@)
    &&& lookup(labels, "agentcore.emulator.owner"@) == Some(runtime_owner)
    &&& (lookup(labels, "agentcore.emulator.runtime-session-id"@) matches Some(id) && is_session_id(
        id,
    ))
}

pub fn is_owned_reconciliation_candidate(labels: &Labels, runtime_owner: &str) -> (r: bool)
    ensures
        r == is_candidate(labels@, runtime_owner@),
{
    if !labels.holds(MANAGED_LABEL, "true") || !labels.holds(OWNER_LABEL, runtime_owner) {
        return false;
    }
    match labels.get(SESSION_LABEL) {
        Some(id) => valid_runtime_session_label(id.as_str()),
        None => false,
    }
}

// How a container is made.

#[derive(Debug)]
pub struct TmpfsMount {
    pub path: String,
    pub options: String,
}

#[verifier::ext_equal]
pub struct TmpfsMountView {
    pub path: Seq<char>,
    pub options: Seq<char>,
}

impl View for TmpfsMount {
    type V = TmpfsMountView;

    open spec fn view(&self) -> TmpfsMountView {
        TmpfsMountView { path: self.path@, options: self.options@ }
    }
}

#[derive(Debug)]
pub struct VolumeMount {
    pub target: String,
    pub source: String,
    pub read_only: bool,
    pub no_copy: bool,
}

#[verifier::ext_equal]
pub struct VolumeMountView {
    pub target: Seq<char>,
    pub source: Seq<char>,
    pub read_only: bool,
    pub no_copy: bool,
}

impl View for VolumeMount {
    type V = VolumeMountView;

    open spec fn view(&self) -> VolumeMountView {
        VolumeMountView {
            target: self.target@,
            source: self.source@,
            read_only: self.read_only,
            no_copy: self.no_copy,
        }
    }
}

/// A container port that is published on the host; an empty host port lets the host choose one.
#[derive(Debug)]
pub struct PublishedPort {
    pub container_port: String,
    pub host_ip: String,
    pub host_port: String,
}

#[verifier::ext_equal]
pub struct PublishedPortView {
    pub container_port: Seq<char>,
    pub host_ip: Seq<char>,
    pub host_port: Seq<char>,
}

impl View for PublishedPort {
    type V = PublishedPortView;

    open spec fn view(&self) -> PublishedPortView {
        PublishedPortView {
            container_port: self.container_port@,
            host_ip: self.host_ip@,
            host_port: self.host_port@,
        }
    }
}

/// What the host gives a container, and what it keeps from it.
#[derive(Debug)]
pub struct HostConfig {
    pub cap_drop: Vec<String>,
    pub extra_hosts: Option<Vec<String>>,
    pub init: bool,
    pub memory: i64,
    pub memory_swap: i64,
    pub nano_cpus: i64,
    pub network_mode: Option<String>,
    pub pids_limit: i64,
    pub readonly_rootfs: bool,
    pub security_opt: Vec<String>,
    pub tmpfs: Option<TmpfsMount>,
    pub mount: Option<VolumeMount>,
    pub port_binding: Option<PublishedPort>,
}

#[verifier::ext_equal]
pub struct HostConfigView {
    pub cap_drop: Seq<Seq<char>>,
    pub extra_hosts: Option<Seq<Seq<char>>>,
    pub init: bool,
    pub memory: i64,
    pub memory_swap: i64,
    pub nano_cpus: i64,
    pub network_mode: Option<Seq<char>>,
    pub pids_limit: i64,
    pub readonly_rootfs: bool,
    pub security_opt: Seq<Seq<char>>,
    pub tmpfs: Option<TmpfsMountView>,
    pub mount: Option<VolumeMountView>,
    pub port_binding: Option<PublishedPortView>,
}

/// The view of an optional value.
pub open spec fn opt_view<T: View>(value: Option<T>) -> Option<T::V> {
    match value {
        Some(v) => Some(v@),
        None => None,
    }
}

impl View for HostConfig {
    type V = HostConfigView;

    open spec fn view(&self) -> HostConfigView {
        HostConfigView {
            cap_drop: texts(self.cap_drop@),
            extra_hosts: opt_texts(self.extra_hosts),
            init: self.init,
            memory: self.memory,
            memory_swap: self.memory_swap,
            nano_cpus: self.nano_cpus,
            network_mode: opt_text(self.network_mode),
            pids_limit: self.pids_limit,
            readonly_rootfs: self.readonly_rootfs,
            security_opt: texts(self.security_opt@),
            tmpfs: opt_view(self.tmpfs),
            mount: opt_view(self.mount),
            port_binding: opt_view(self.port_binding),
        }
    }
}

fn single(text: &str) -> (r: Vec<String>)
    ensures
        texts(r@) == seq![text@],
{
    let mut list: Vec<String> = Vec::new();
    list.push(text.to_owned());
    proof {
        assert(texts(list@) =~= seq![text@]);
    }
    list
}

/// The options of the scratch space of a container.
pub open spec fn workspace_options(deployment: ResolvedRuntimeView) -> Seq<char> {
    "rw,nosuid,nodev"@ + (if deployment.resources.workspace_no_exec {
        ",noexec"@
    } else {
        ""@
    }) + ",size="@ + decimal(deployment.resources.workspace_size_bytes as nat)
        + ",uid=10001,gid=10001,mode=0700"@
}

pub open spec fn agent_host_config_of(deployment: ResolvedRuntimeView) -> HostConfigView {
    HostConfigView {
        cap_drop: seq!["ALL"@],
        extra_hosts: if deployment.connectivity.add_host_gateway {
            Some(seq!["host.docker.internal:host-gateway"@])
        } else {
            None
        },
        init: true,
        memory: deployment.resources.memory_bytes,
        memory_swap: deployment.resources.memory_bytes,
        nano_cpus: deployment.resources.nano_cpus,
        network_mode: deployment.connectivity.docker_network,
        pids_limit: deployment.resources.pids_limit,
        readonly_rootfs: deployment.resources.read_only_root_filesystem,
        security_opt: seq!["no-new-privileges:true"@],
        tmpfs: Some(
            TmpfsMountView { path: "/workspace"@, options: workspace_options(deployment) },
        ),
        mount: None,
        port_binding: None,
    }
}

pub fn agent_host_config(deployment: &ResolvedRuntime) -> (r: HostConfig)
    ensures
        r@ == agent_host_config_of(deployment@),
{
    let no_exec = if deployment.resources.workspace_no_exec {
        ",noexec"
    } else {
        ""
    };
    let size = decimal_text(deployment.resources.workspace_size_bytes);
    let options = cat5(
        "rw,nosuid,nodev",
        no_exec,
        ",size=",
        size.as_str(),
        ",uid=10001,gid=10001,mode=0700",
    );
    let extra_hosts = if deployment.connectivity.add_host_gateway {
        Some(single("host.docker.internal:host-gateway"))
    } else {
        None
    };
    HostConfig {
        cap_drop: single("ALL"),
        extra_hosts,
        init: true,
        memory: deployment.resources.memory_bytes,
        memory_swap: deployment.resources.memory_bytes,
        nano_cpus: deployment.resources.nano_cpus,
        network_mode: clone_opt(&deployment.connectivity.docker_network),
        pids_limit: deployment.resources.pids_limit,
        readonly_rootfs: deployment.resources.read_only_root_filesystem,
        security_opt: single("no-new-privileges:true"),
        tmpfs: Some(TmpfsMount { path: "/workspace".to_owned(), options }),
        mount: None,
        port_binding: None,
    }
}

/// A protocol's port as containers name it.
pub open spec fn port_text(deployment: ResolvedRuntimeView) -> Seq<char> {
    decimal(deployment.protocol.spec_port() as nat) + "/tcp"@
}

fn write_port(deployment: &ResolvedRuntime) -> (r: String)
    ensures
        r@ == port_text(deployment@),
{
    let digits = decimal_text(deployment.protocol.port() as u64);
    cat2(digits.as_str(), "/tcp")
}

/// A session container has the session's volume mounted, in place of scratch space at the same path.
/// Its port is published, on the loopback address alone, only where the gateway reaches it there.
pub open spec fn session_host_config_of(
    deployment: ResolvedRuntimeView,
    volume_name: Seq<char>,
    mount_path: Seq<char>,
) -> HostConfigView {
    let base = agent_host_config_of(deployment);
    HostConfigView {
        tmpfs: if mount_path == "/workspace"@ {
            None
        } else {
            base.tmpfs
        },
        mount: Some(
            VolumeMountView {
                target: mount_path,
                source: volume_name,
                read_only: false,
                no_copy: false,
            },
        ),
        port_binding: if deployment.connectivity.mode == ConnectivityMode::Native {
            Some(
                PublishedPortView {
                    container_port: port_text(deployment),
                    host_ip: "127.0.0.1"@,
                    host_port: Seq::empty(),
                },
            )
        } else {
            None
        },
        ..base
    }
}

pub fn session_host_config(
    deployment: &ResolvedRuntime,
    volume_name: &str,
    mount_path: &str,
) -> (r: HostConfig)
    ensures
        r@ == session_host_config_of(deployment@, volume_name@, mount_path@),
{
    let mut host = agent_host_config(deployment);
    if same(mount_path, "/workspace") {
        host.tmpfs = None;
    }
    host.mount = Some(
        VolumeMount {
            target: mount_path.to_owned(),
            source: volume_name.to_owned(),
            read_only: false,
            no_copy: false,
        },
    );
    if deployment.connectivity.mode == ConnectivityMode::Native {
        host.port_binding = Some(
            PublishedPort {
                container_port: write_port(deployment),
                host_ip: "127.0.0.1".to_owned(),
                host_port: String::new(),
            },
        );
    }
    host
}

/// Everything that a session container is made from.
#[derive(Debug)]
pub struct ContainerPlan {
    pub name: String,
    pub platform: String,
    pub image: String,
    pub user: String,
    pub environment: Vec<String>,
    pub entrypoint: Option<Vec<String>>,
    pub command: Option<Vec<String>>,
    pub working_directory: Option<String>,
    pub labels: Labels,
    pub exposed_port: String,
    pub attach_streams: bool,
    pub host: HostConfig,
}

#[verifier::ext_equal]
pub struct ContainerPlanView {
    pub name: Seq<char>,
    pub platform: Seq<char>,
    pub image: Seq<char>,
    pub user: Seq<char>,
    pub environment: Seq<Seq<char>>,
    pub entrypoint: Option<Seq<Seq<char>>>,
    pub command: Option<Seq<Seq<char>>>,
    pub working_directory: Option<Seq<char>>,
    pub labels: Map<Seq<char>, Seq<char>>,
    pub exposed_port: Seq<char>,
    pub attach_streams: bool,
    pub host: HostConfigView,
}

impl View for ContainerPlan {
    type V = ContainerPlanView;

    open spec fn view(&self) -> ContainerPlanView {
        ContainerPlanView {
            name: self.name@,
            platform: self.platform@,
            image: self.image@,
            user: self.user@,
            environment: texts(self.environment@),
            entrypoint: opt_texts(self.entrypoint),
            command: opt_texts(self.command),
            working_directory: opt_text(self.working_directory),
            labels: self.labels@,
            exposed_port: self.exposed_port@,
            attach_streams: self.attach_streams,
            host: self.host@,
        }
    }
}

/// The labels of a session container: whose it is, and what it was made from.
pub open spec fn container_labels(
    runtime_owner: Seq<char>,
    key: SessionKeyView,
    deployment: ResolvedRuntimeView,
    now_unix_seconds: u64,
) -> Map<Seq<char>, Seq<char>> {
    ownership_labels(runtime_owner, key).insert(
        "agentcore.emulator.catalog-generation"@,
        deployment.catalog_generation,
    ).insert("agentcore.emulator.image"@, deployment.image).insert(
        "agentcore.emulator.image-id"@,
        deployment.image_id,
    ).insert(
        "agentcore.emulator.created-at-unix-seconds"@,
        decimal(now_unix_seconds as nat),
    )
}

/// A session container runs the pinned image, as an unprivileged user, with the session's volume.
pub open spec fn container_plan_of(
    runtime_owner: Seq<char>,
    key: SessionKeyView,
    deployment: ResolvedRuntimeView,
    mount_path: Seq<char>,
    now_unix_seconds: u64,
) -> ContainerPlanView {
    ContainerPlanView {
        name: container_name_of(runtime_owner, key),
        platform: deployment.image_platform,
        image: deployment.image_id,
        user: CONTAINER_USER@,
        environment: container_environment_of(
            deployment.image_environment,
            deployment.environment,
        ),
        entrypoint: deployment.image_entrypoint,
        command: deployment.image_command,
        working_directory: deployment.image_working_directory,
        labels: container_labels(runtime_owner, key, deployment, now_unix_seconds),
        exposed_port: port_text(deployment),
        attach_streams: false,
        host: session_host_config_of(deployment, volume_name_of(runtime_owner, key), mount_path),
    }
}

pub fn container_plan(
    runtime_owner: &str,
    key: &SessionKey,
    deployment: &ResolvedRuntime,
    mount_path: &str,
    now_unix_seconds: u64,
) -> (r: ContainerPlan)
    ensures
        r@ == container_plan_of(
            runtime_owner@,
            key@,
            deployment@,
            mount_path@,
            now_unix_seconds,
        ),
{
    let volume_name = session_volume_name(runtime_owner, key);
    let mut labels = session_volume_labels(runtime_owner, key);
    labels.insert(CATALOG_GENERATION_LABEL.to_owned(), deployment.catalog_generation.clone());
    labels.insert(IMAGE_LABEL.to_owned(), deployment.image.clone());
    labels.insert(IMAGE_ID_LABEL.to_owned(), deployment.image_id.clone());
    labels.insert(CREATED_AT_LABEL.to_owned(), decimal_text(now_unix_seconds));
    ContainerPlan {
        name: session_container_name(runtime_owner, key),
        platform: deployment.image_platform.clone(),
        image: deployment.image_id.clone(),
        user: CONTAINER_USER.to_owned(),
        environment: deployment.container_environment(),
        entrypoint: clone_opt_texts(&deployment.image_entrypoint),
        command: clone_opt_texts(&deployment.image_command),
        working_directory: clone_opt(&deployment.image_working_directory),
        labels,
        exposed_port: write_port(deployment),
        attach_streams: false,
        host: session_host_config(deployment, volume_name.as_str(), mount_path),
    }
}

// How a container is found again.

/// What is known of a container.
#[derive(Debug)]
pub struct ContainerInspection {
    pub id: Option<String>,
    pub name: Option<String>,
    pub running: Option<bool>,
    pub labels: Option<Labels>,
    /// The host ports of each container port, in order.
    pub ports: Vec<PortMapping>,
}

#[verifier::ext_equal]
pub struct ContainerInspectionView {
    pub id: Option<Seq<char>>,
    pub name: Option<Seq<char>>,
    pub running: Option<bool>,
    pub labels: Option<Map<Seq<char>, Seq<char>>>,
    pub ports: Seq<PortMappingView>,
}

impl View for ContainerInspection {
    type V = ContainerInspectionView;

    open spec fn view(&self) -> ContainerInspectionView {
        ContainerInspectionView {
            id: opt_text(self.id),
            name: opt_text(self.name),
            running: self.running,
            labels: opt_view(self.labels),
            ports: crate::text::views(self.ports@),
        }
    }
}

/// Where a container port is published.
#[derive(Debug)]
pub struct PortMapping {
    pub container_port: String,
    /// The host port of the first binding, where there is one.
    pub first_host_port: Option<String>,
}

#[verifier::ext_equal]
pub struct PortMappingView {
    pub container_port: Seq<char>,
    pub first_host_port: Option<Seq<char>>,
}

impl View for PortMapping {
    type V = PortMappingView;

    open spec fn view(&self) -> PortMappingView {
        PortMappingView {
            container_port: self.container_port@,
            first_host_port: opt_text(self.first_host_port),
        }
    }
}

/// The host port of a container port, where it has one.
pub open spec fn host_port_of(ports: Seq<PortMappingView>, port: Seq<char>) -> Option<Seq<char>>
    decreases ports.len(),
{
    if ports.len() == 0 {
        None
    } else if ports[0].container_port == port {
        match ports[0].first_host_port {
            Some(host_port) => if host_port.len() > 0 {
                Some(host_port)
            } else {
                None
            },
            None => None,
        }
    } else {
        host_port_of(ports.drop_first(), port)
    }
}

fn find_host_port(ports: &Vec<PortMapping>, port: &str) -> (r: Option<String>)
    ensures
        opt_text(r) == host_port_of(crate::text::views(ports@), port@),
{
    let ghost all = crate::text::views(ports@);
    proof {
        assert(all.skip(0) =~= all);
    }
    for i in 0..ports.len()
        invariant
            all == crate::text::views(ports@),
            host_port_of(all, port@) == host_port_of(all.skip(i as int), port@),
    {
        proof {
            assert(all.skip(i as int)[0] == ports@[i as int]@);
            assert(all.skip(i as int).drop_first() =~= all.skip(i as int + 1));
        }
        if same(ports[i].container_port.as_str(), port) {
            return match &ports[i].first_host_port {
                Some(host_port) => {
                    if host_port.as_str().is_empty() {
                        None
                    } else {
                        Some(host_port.clone())
                    }
                },
                None => None,
            };
        }
    }
    None
}

/// A name without the slashes in front.
pub open spec fn without_leading_slashes(s: Seq<char>) -> Seq<char>
    decreases s.len(),
{
    if s.len() > 0 && s[0] == '/' {
        without_leading_slashes(s.drop_first())
    } else {
        s
    }
}

fn trim_leading_slashes(s: &str) -> (r: String)
    ensures
        r@ == without_leading_slashes(s@),
{
    let chars = chars_of(s);
    let mut from: usize = 0;
    proof {
        assert(s@.skip(0) =~= s@);
    }
    while from < chars.len() && chars[from] == '/'
        invariant
            chars@ == s@,
            from <= chars@.len(),
            without_leading_slashes(s@.skip(from as int)) == without_leading_slashes(s@),
        decreases chars@.len() - from,
    {
        proof {
            assert(s@.skip(from as int).drop_first() =~= s@.skip(from as int + 1));
        }
        from = from + 1;
    }
    proof {
        assert(s@.skip(from as int) =~= s@.subrange(from as int, s@.len() as int));
    }
    slice_text(&chars, from, chars.len())
}

/// Where the gateway reaches a container.
pub open spec fn endpoint_of(
    inspection: ContainerInspectionView,
    deployment: ResolvedRuntimeView,
) -> Result<Seq<char>, Seq<char>> {
    match deployment.connectivity.mode {
        ConnectivityMode::Native => match host_port_of(inspection.ports, port_text(deployment)) {
            None => Err("runtime container has no published "@ + port_text(deployment)),
            Some(host_port) => Ok("http://127.0.0.1:"@ + host_port),
        },
        ConnectivityMode::Container => match inspection.name {
            None => Err("runtime container has no network name"@),
            Some(name) => if without_leading_slashes(name).len() == 0 {
                Err("runtime container has no network name"@)
            } else {
                Ok(
                    "http://"@ + without_leading_slashes(name) + ":"@ + decimal(
                        deployment.protocol.spec_port() as nat,
                    ),
                )
            },
        },
    }
}

pub fn container_endpoint(
    inspection: &ContainerInspection,
    deployment: &ResolvedRuntime,
) -> (r: Result<String, String>)
    ensures
        agrees(r, endpoint_of(inspection@, deployment@)),
{
    match deployment.connectivity.mode {
        ConnectivityMode::Native => {
            let port = write_port(deployment);
            match find_host_port(&inspection.ports, port.as_str()) {
                None => Err(cat2("runtime container has no published ", port.as_str())),
                Some(host_port) => Ok(cat2("http://127.0.0.1:", host_port.as_str())),
            }
        },
        ConnectivityMode::Container => match &inspection.name {
            None => Err("runtime container has no network name".to_owned()),
            Some(name) => {
                let plain = trim_leading_slashes(name.as_str());
                if plain.as_str().is_empty() {
                    Err("runtime container has no network name".to_owned())
                } else {
                    let digits = decimal_text(deployment.protocol.port() as u64);
                    Ok(cat4("http://", plain.as_str(), ":", digits.as_str()))
                }
            },
        },
    }
}

/// Why a container that was found is not taken over.
#[derive(Debug)]
pub enum AdoptionError {
    /// The container is of no use and is to be removed.
    Invalid(String),
    /// Nothing is known of the container; it is to be left alone.
    Transient(String),
}

#[verifier::ext_equal]
pub enum AdoptionErrorView {
    Invalid(Seq<char>),
    Transient(Seq<char>),
}

impl View for AdoptionError {
    type V = AdoptionErrorView;

    open spec fn view(&self) -> AdoptionErrorView {
        match self {
            AdoptionError::Invalid(m) => AdoptionErrorView::Invalid(m@),
            AdoptionError::Transient(m) => AdoptionErrorView::Transient(m@),
        }
    }
}

/// A container that may be taken over once it answers.
pub struct AdoptedSession {
    pub key: SessionKey,
    pub deployment: ResolvedRuntime,
    pub container: SessionContainer,
}

#[verifier::ext_equal]
pub struct AdoptedSessionView {
    pub key: SessionKeyView,
    pub deployment: ResolvedRuntimeView,
    pub container: SessionContainerView,
}

impl View for AdoptedSession {
    type V = AdoptedSessionView;

    open spec fn view(&self) -> AdoptedSessionView {
        AdoptedSessionView {
            key: self.key@,
            deployment: self.deployment@,
            container: self.container@,
        }
    }
}

impl Clone for AdoptedSession {
    fn clone(&self) -> (r: Self)
        ensures
            r@ == self@,
    {
        AdoptedSession {
            key: self.key.clone(),
            deployment: self.deployment.clone(),
            container: self.container.clone(),
        }
    }
}

/// For how long something has been there, in nanoseconds as far as they can be counted.
pub open spec fn age_of(created_at: u64, now_seconds: u64, now_nanos: u32) -> u64 {
    if now_seconds < created_at {
        0
    } else {
        let nanos = (now_seconds - created_at) * 1_000_000_000 + now_nanos;
        if nanos > u64::MAX {
            u64::MAX
        } else {
            nanos as u64
        }
    }
}

fn age_nanos(created_at: u64, now_seconds: u64, now_nanos: u32) -> (r: u64)
    ensures
        r == age_of(created_at, now_seconds, now_nanos),
{
    if now_seconds < created_at {
        0
    } else {
        let nanos: u128 = (now_seconds - created_at) as u128 * 1_000_000_000 + now_nanos as u128;
        if nanos > u64::MAX as u128 {
            u64::MAX
        } else {
            nanos as u64
        }
    }
}

/// The labels and the deployment that they name agree.
pub open spec fn labels_checked(
    labels: Map<Seq<char>, Seq<char>>,
    deployment: ResolvedRuntimeView,
) -> Result<(), Seq<char>> {
    if lookup(labels, "agentcore.emulator.catalog-generation"@) != Some(
        deployment.catalog_generation,
    ) {
        Err("container belongs to another catalog generation"@)
    } else if lookup(labels, "agentcore.emulator.image"@) != Some(deployment.image) {
        Err("container image does not match the catalog"@)
    } else if lookup(labels, "agentcore.emulator.image-id"@) != Some(deployment.image_id) {
        Err("container uses a different immutable image ID"@)
    } else {
        Ok(())
    }
}

fn check_labels(labels: &Labels, deployment: &ResolvedRuntime) -> (r: Result<(), String>)
    ensures
        agrees(r, labels_checked(labels@, deployment@)),
{
    if !labels.holds(CATALOG_GENERATION_LABEL, deployment.catalog_generation.as_str()) {
        return Err("container belongs to another catalog generation".to_owned());
    }
    if !labels.holds(IMAGE_LABEL, deployment.image.as_str()) {
        return Err("container image does not match the catalog".to_owned());
    }
    if !labels.holds(IMAGE_ID_LABEL, deployment.image_id.as_str()) {
        return Err("container uses a different immutable image ID".to_owned());
    }
    Ok(())
}

/// When a container was made, by its label.
pub open spec fn created_at_of(labels: Map<Seq<char>, Seq<char>>) -> Option<u64> {
    match lookup(labels, "agentcore.emulator.created-at-unix-seconds"@) {
        None => None,
        Some(text) => match parsed_u64(text) {
            Ok(n) => Some(n),
            Err(_) => None,
        },
    }
}

fn created_at(labels: &Labels) -> (r: Option<u64>)
    ensures
        r == created_at_of(labels@),
{
    match labels.get(CREATED_AT_LABEL) {
        None => None,
        Some(text) => match parse_u64(text.as_str()) {
            Ok(n) => Some(n),
            Err(_) => None,
        },
    }
}

pub open spec fn invalid(message: Seq<char>) -> AdoptionErrorView {
    AdoptionErrorView::Invalid(message)
}

/// The session that a running container belongs to, where its labels name a deployment that the
/// catalog still has.
pub open spec fn adoption_of(
    catalog: RuntimeCatalogView,
    id: Seq<char>,
    inspection: ContainerInspectionView,
    now_seconds: u64,
    now_nanos: u32,
) -> Result<AdoptedSessionView, AdoptionErrorView> {
    if inspection.running != Some(true) {
        Err(invalid("container is not running"@))
    } else {
        match inspection.labels {
            None => Err(invalid("container has no labels"@)),
            Some(labels) => match lookup(labels, "agentcore.emulator.runtime-arn"@) {
                None => Err(invalid("container has no runtime ARN"@)),
                Some(runtime_arn) => match lookup(labels, "agentcore.emulator.qualifier"@) {
                    None => Err(invalid("container has no qualifier"@)),
                    Some(qualifier) => match lookup(
                        labels,
                        "agentcore.emulator.runtime-session-id"@,
                    ) {
                        None => Err(invalid("container has no runtime session ID"@)),
                        Some(runtime_session_id) => match resolved_stored(
                            catalog,
                            runtime_arn,
                            Some(qualifier),
                        ) {
                            Err(e) => Err(invalid(e.text())),
                            Ok(deployment) => match labels_checked(labels, deployment) {
                                Err(e) => Err(invalid(e)),
                                Ok(_) => match endpoint_of(inspection, deployment) {
                                    Err(e) => Err(invalid(e)),
                                    Ok(endpoint) => match created_at_of(labels) {
                                        None => Err(
                                            invalid("container has no valid creation timestamp"@),
                                        ),
                                        Some(created_at) => Ok(
                                            AdoptedSessionView {
                                                key: SessionKeyView {
                                                    runtime_arn,
                                                    qualifier,
                                                    runtime_session_id,
                                                },
                                                deployment,
                                                container: SessionContainerView {
                                                    id,
                                                    endpoint,
                                                    age_nanos: age_of(
                                                        created_at,
                                                        now_seconds,
                                                        now_nanos,
                                                    ),
                                                },
                                            },
                                        ),
                                    },
                                },
                            },
                        },
                    },
                },
            },
        }
    }
}

fn refuse<T>(message: &str) -> (r: Result<T, AdoptionError>)
    ensures
        r matches Err(e) && e@ == invalid(message@),
{
    Err(AdoptionError::Invalid(message.to_owned()))
}

pub fn adopt(
    catalog: &RuntimeCatalog,
    id: &str,
    inspection: &ContainerInspection,
    now_seconds: u64,
    now_nanos: u32,
) -> (r: Result<AdoptedSession, AdoptionError>)
    ensures
        agrees(r, adoption_of(catalog@, id@, inspection@, now_seconds, now_nanos)),
{
    let running = match inspection.running {
        Some(running) => running,
        None => false,
    };
    if !running {
        return refuse("container is not running");
    }
    let labels = match &inspection.labels {
        None => {
            return refuse("container has no labels");
        },
        Some(labels) => labels,
    };
    let runtime_arn = match labels.get(RUNTIME_LABEL) {
        None => {
            return refuse("container has no runtime ARN");
        },
        Some(value) => value,
    };
    let qualifier = match labels.get(QUALIFIER_LABEL) {
        None => {
            return refuse("container has no qualifier");
        },
        Some(value) => value,
    };
    let runtime_session_id = match labels.get(SESSION_LABEL) {
        None => {
            return refuse("container has no runtime session ID");
        },
        Some(value) => value,
    };
    let deployment = match catalog.resolve_stored(runtime_arn.as_str(), Some(qualifier.as_str())) {
        Err(e) => {
            return refuse(e.message().as_str());
        },
        Ok(deployment) => deployment,
    };
    match check_labels(labels, &deployment) {
        Err(e) => {
            return refuse(e.as_str());
        },
        Ok(_) => {},
    }
    let endpoint = match container_endpoint(inspection, &deployment) {
        Err(e) => {
            return refuse(e.as_str());
        },
        Ok(endpoint) => endpoint,
    };
    match created_at(labels) {
        None => refuse("container has no valid creation timestamp"),
        Some(created) => Ok(
            AdoptedSession {
                key: SessionKey {
                    runtime_arn: runtime_arn.clone(),
                    qualifier: qualifier.clone(),
                    runtime_session_id: runtime_session_id.clone(),
                },
                deployment,
                container: SessionContainer {
                    id: id.to_owned(),
                    endpoint,
                    age_nanos: age_nanos(created, now_seconds, now_nanos),
                },
            },
        ),
    }
}

/// What to do after a container that may be taken over was pinged.
#[derive(Clone, Copy, Debug, PartialEq, Eq, Structural)]
pub enum AdoptionPing {
    Adopt,
    TryAgain,
    Reject,
}

/// How often a container is pinged before it is given up.
pub const ADOPTION_ATTEMPTS: u8 = 3;

pub open spec fn adoption_ping_step(attempt: u8, health: SessionHealth) -> AdoptionPing {
    if health != SessionHealth::Unhealthy {
        AdoptionPing::Adopt
    } else if attempt < ADOPTION_ATTEMPTS {
        AdoptionPing::TryAgain
    } else {
        AdoptionPing::Reject
    }
}

/// Decides on the answer to a ping; attempts count from one.
pub fn adoption_ping(attempt: u8, health: SessionHealth) -> (r: AdoptionPing)
    ensures
        r == adoption_ping_step(attempt, health),
{
    if health != SessionHealth::Unhealthy {
        AdoptionPing::Adopt
    } else if attempt < ADOPTION_ATTEMPTS {
        AdoptionPing::TryAgain
    } else {
        AdoptionPing::Reject
    }
}

/// The container that an earlier start of a session has left behind, where it is this owner's.
pub open spec fn prior_container_of(
    runtime_owner: Seq<char>,
    key: SessionKeyView,
    inspection: ContainerInspectionView,
) -> Result<Seq<char>, Seq<char>> {
    match inspection.labels {
        None => Err("runtime session name is occupied by an unmanaged container"@),
        Some(labels) => if !is_owned(labels, runtime_owner, key) {
            Err("runtime session name is occupied by another owner"@)
        } else {
            match inspection.id {
                None => Err("prior runtime container has no ID"@),
                Some(id) => Ok(id),
            }
        },
    }
}

pub fn prior_container(
    runtime_owner: &str,
    key: &SessionKey,
    inspection: &ContainerInspection,
) -> (r: Result<String, String>)
    ensures
        agrees(r, prior_container_of(runtime_owner@, key@, inspection@)),
{
    match &inspection.labels {
        None => Err("runtime session name is occupied by an unmanaged container".to_owned()),
        Some(labels) => {
            if !labels_are_owned(labels, runtime_owner, key) {
                Err("runtime session name is occupied by another owner".to_owned())
            } else {
                match &inspection.id {
                    None => Err("prior runtime container has no ID".to_owned()),
                    Some(id) => Ok(id.clone()),
                }
            }
        },
    }
}

/// A volume with a session's name is used only where it is the session's.
pub fn session_volume(runtime_owner: &str, key: &SessionKey, labels: &Labels) -> (r: Result<
    String,
    String,
>)
    ensures
        agrees(
            r,
            (if is_owned(labels@, runtime_owner@, key@) {
                Ok(volume_name_of(runtime_owner@, key@))
            } else {
                Err("runtime session volume name is occupied by another owner"@)
            }),
        ),
{
    if labels_are_owned(labels, runtime_owner, key) {
        Ok(session_volume_name(runtime_owner, key))
    } else {
        Err("runtime session volume name is occupied by another owner".to_owned())
    }
}

} // verus!
