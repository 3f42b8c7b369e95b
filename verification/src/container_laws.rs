//! What holds of every session container.

use vstd::prelude::*;
use vstd::utf8::encode_utf8;

use crate::auth::is_account_id;
use crate::catalog::{resolved, resolved_stored, RuntimeCatalogView};
use crate::catalog_laws::law_stored_pins_resolve;
use crate::container::{
    adoption_of, adoption_ping_step, age_of, container_labels, container_name_of, container_plan_of,
    endpoint_of, host_port_of, is_candidate, is_owned, is_session_id, key_digest, ownership_labels,
    prior_container_of, session_identity, volume_name_of, without_leading_slashes,
    AdoptedSessionView, AdoptionErrorView, AdoptionPing, ContainerInspectionView, PortMappingView,
};
use crate::descriptor::is_runtime_id;
use crate::environment::container_environment_of;
use crate::labels::lookup;
use crate::number::{decimal, law_decimal_round_trip, parsed_u64};
use crate::primitives::{hex_text, is_uuid_text, sha256};
use crate::runtime::{ConnectivityMode, LocalIdentityView, ResolvedRuntimeView};
use crate::session::{SessionContainerView, SessionHealth};
use crate::session_map::{key_of, SessionKeyView};

verus! {

/// The label names differ from each other.
proof fn lemma_label_names()
    ensures
        "agentcore.emulator.managed"@ != "agentcore.emulator.owner"@,
        "agentcore.emulator.managed"@ != "agentcore.emulator.runtime-arn"@,
        "agentcore.emulator.managed"@ != "agentcore.emulator.qualifier"@,
        "agentcore.emulator.managed"@ != "agentcore.emulator.runtime-session-id"@,
        "agentcore.emulator.managed"@ != "agentcore.emulator.catalog-generation"@,
        "agentcore.emulator.managed"@ != "agentcore.emulator.image"@,
        "agentcore.emulator.managed"@ != "agentcore.emulator.image-id"@,
        "agentcore.emulator.managed"@ != "agentcore.emulator.created-at-unix-seconds"@,
        "agentcore.emulator.owner"@ != "agentcore.emulator.runtime-arn"@,
        "agentcore.emulator.owner"@ != "agentcore.emulator.qualifier"@,
        "agentcore.emulator.owner"@ != "agentcore.emulator.runtime-session-id"@,
        "agentcore.emulator.owner"@ != "agentcore.emulator.catalog-generation"@,
        "agentcore.emulator.owner"@ != "agentcore.emulator.image"@,
        "agentcore.emulator.owner"@ != "agentcore.emulator.image-id"@,
        "agentcore.emulator.owner"@ != "agentcore.emulator.created-at-unix-seconds"@,
        "agentcore.emulator.runtime-arn"@ != "agentcore.emulator.qualifier"@,
        "agentcore.emulator.runtime-arn"@ != "agentcore.emulator.runtime-session-id"@,
        "agentcore.emulator.runtime-arn"@ != "agentcore.emulator.catalog-generation"@,
        "agentcore.emulator.runtime-arn"@ != "agentcore.emulator.image"@,
        "agentcore.emulator.runtime-arn"@ != "agentcore.emulator.image-id"@,
        "agentcore.emulator.runtime-arn"@ != "agentcore.emulator.created-at-unix-seconds"@,
        "agentcore.emulator.qualifier"@ != "agentcore.emulator.runtime-session-id"@,
        "agentcore.emulator.qualifier"@ != "agentcore.emulator.catalog-generation"@,
        "agentcore.emulator.qualifier"@ != "agentcore.emulator.image"@,
        "agentcore.emulator.qualifier"@ != "agentcore.emulator.image-id"@,
        "agentcore.emulator.qualifier"@ != "agentcore.emulator.created-at-unix-seconds"@,
        "agentcore.emulator.runtime-session-id"@ != "agentcore.emulator.catalog-generation"@,
        "agentcore.emulator.runtime-session-id"@ != "agentcore.emulator.image"@,
        "agentcore.emulator.runtime-session-id"@ != "agentcore.emulator.image-id"@,
        "agentcore.emulator.runtime-session-id"@ != "agentcore.emulator.created-at-unix-seconds"@,
        "agentcore.emulator.catalog-generation"@ != "agentcore.emulator.image"@,
        "agentcore.emulator.catalog-generation"@ != "agentcore.emulator.image-id"@,
        "agentcore.emulator.catalog-generation"@ != "agentcore.emulator.created-at-unix-seconds"@,
        "agentcore.emulator.image"@ != "agentcore.emulator.image-id"@,
        "agentcore.emulator.image"@ != "agentcore.emulator.created-at-unix-seconds"@,
        "agentcore.emulator.image-id"@ != "agentcore.emulator.created-at-unix-seconds"@,
{
    reveal_strlit("agentcore.emulator.managed");
    reveal_strlit("agentcore.emulator.owner");
    reveal_strlit("agentcore.emulator.runtime-arn");
    reveal_strlit("agentcore.emulator.qualifier");
    reveal_strlit("agentcore.emulator.runtime-session-id");
    reveal_strlit("agentcore.emulator.catalog-generation");
    reveal_strlit("agentcore.emulator.image");
    reveal_strlit("agentcore.emulator.image-id");
    reveal_strlit("agentcore.emulator.created-at-unix-seconds");
    assert("agentcore.emulator.managed"@.len() == 26);
    assert("agentcore.emulator.owner"@.len() == 24);
    assert("agentcore.emulator.runtime-arn"@.len() == 30);
    assert("agentcore.emulator.qualifier"@.len() == 28);
    assert("agentcore.emulator.runtime-session-id"@.len() == 37);
    assert("agentcore.emulator.catalog-generation"@.len() == 37);
    assert("agentcore.emulator.image"@.len() == 24);
    assert("agentcore.emulator.image-id"@.len() == 27);
    assert("agentcore.emulator.created-at-unix-seconds"@.len() == 42);
    assert("agentcore.emulator.owner"@[19] == 'o');
    assert("agentcore.emulator.image"@[19] == 'i');
    assert("agentcore.emulator.runtime-session-id"@[19] == 'r');
    assert("agentcore.emulator.catalog-generation"@[19] == 'c');
}

/// What is made for a session is known as that session's.
pub proof fn law_made_containers_are_owned(
    runtime_owner: Seq<char>,
    key: SessionKeyView,
    deployment: ResolvedRuntimeView,
    now_unix_seconds: u64,
)
    ensures
        is_owned(ownership_labels(runtime_owner, key), runtime_owner, key),
        is_owned(
            container_labels(runtime_owner, key, deployment, now_unix_seconds),
            runtime_owner,
            key,
        ),
        is_session_id(key.runtime_session_id) ==> is_candidate(
            container_labels(runtime_owner, key, deployment, now_unix_seconds),
            runtime_owner,
        ),
{
    lemma_label_names();
}

/// What belongs to another owner or session is neither taken over nor removed.
pub proof fn law_foreign_containers_are_left_alone(
    runtime_owner: Seq<char>,
    other_owner: Seq<char>,
    key: SessionKeyView,
    other_key: SessionKeyView,
    deployment: ResolvedRuntimeView,
    now_unix_seconds: u64,
    inspection: ContainerInspectionView,
)
    requires
        runtime_owner != other_owner || key != other_key,
        inspection.labels == Some(
            container_labels(other_owner, other_key, deployment, now_unix_seconds),
        ),
    ensures
        prior_container_of(runtime_owner, key, inspection) is Err,
        runtime_owner != other_owner ==> !is_candidate(
            container_labels(other_owner, other_key, deployment, now_unix_seconds),
            runtime_owner,
        ),
{
    lemma_label_names();
    let labels = container_labels(other_owner, other_key, deployment, now_unix_seconds);
    if is_owned(labels, runtime_owner, key) {
        assert(key =~= other_key);
    }
}

/// A container that was made for a session is found again as that session's after a restart, as long
/// as the catalog still has the deployment: under the same key, with the same deployment, and with
/// the time since it was made as its age.
pub proof fn law_made_containers_are_adopted(
    catalog: RuntimeCatalogView,
    runtime_id: Seq<char>,
    identity: LocalIdentityView,
    runtime_owner: Seq<char>,
    runtime_session_id: Seq<char>,
    mount_path: Seq<char>,
    made_at: u64,
    id: Seq<char>,
    inspection: ContainerInspectionView,
    endpoint: Seq<char>,
    now_seconds: u64,
    now_nanos: u32,
)
    requires
        is_runtime_id(runtime_id),
        identity.region.len() > 0,
        !identity.region.contains(':'),
        is_account_id(identity.account_id),
        resolved(catalog, runtime_id, Some(identity.account_id), None, identity) is Ok,
        ({
            let deployment = resolved(
                catalog,
                runtime_id,
                Some(identity.account_id),
                None,
                identity,
            )->Ok_0;
            let key = key_of(deployment, runtime_session_id);
            &&& inspection.running == Some(true)
            &&& inspection.labels == Some(
                container_plan_of(runtime_owner, key, deployment, mount_path, made_at).labels,
            )
            &&& endpoint_of(inspection, deployment) == Ok::<Seq<char>, Seq<char>>(endpoint)
        }),
    ensures
        ({
            let deployment = resolved(
                catalog,
                runtime_id,
                Some(identity.account_id),
                None,
                identity,
            )->Ok_0;
            adoption_of(catalog, id, inspection, now_seconds, now_nanos) == Ok::<
                AdoptedSessionView,
                AdoptionErrorView,
            >(
                AdoptedSessionView {
                    key: key_of(deployment, runtime_session_id),
                    deployment,
                    container: SessionContainerView {
                        id,
                        endpoint,
                        age_nanos: age_of(made_at, now_seconds, now_nanos),
                    },
                },
            )
        }),
{
    lemma_label_names();
    law_stored_pins_resolve(catalog, runtime_id, identity);
    law_decimal_round_trip(made_at);
}

/// However a session container is made, it has no capabilities, gains no privileges, runs as an
/// unprivileged user from the pinned image, and is published on the loopback address at most.
pub proof fn law_session_containers_are_confined(
    runtime_owner: Seq<char>,
    key: SessionKeyView,
    deployment: ResolvedRuntimeView,
    mount_path: Seq<char>,
    now_unix_seconds: u64,
)
    ensures
        ({
            let plan = container_plan_of(
                runtime_owner,
                key,
                deployment,
                mount_path,
                now_unix_seconds,
            );
            &&& plan.image == deployment.image_id
            &&& plan.user == "10001:10001"@
            &&& plan.host.cap_drop == seq!["ALL"@]
            &&& plan.host.security_opt == seq!["no-new-privileges:true"@]
            &&& plan.host.memory_swap == plan.host.memory
            &&& !deployment.connectivity.add_host_gateway ==> plan.host.extra_hosts is None
            &&& plan.host.port_binding is Some <==> deployment.connectivity.mode
                == ConnectivityMode::Native
            &&& plan.host.port_binding matches Some(port) ==> port.host_ip == "127.0.0.1"@
        }),
{
}

/// Every start of a session mounts the same volume, whatever the deployment.
pub proof fn law_sessions_keep_their_volume(
    runtime_owner: Seq<char>,
    key: SessionKeyView,
    first: ResolvedRuntimeView,
    second: ResolvedRuntimeView,
    mount_path: Seq<char>,
    first_time: u64,
    second_time: u64,
)
    ensures
        container_plan_of(runtime_owner, key, first, mount_path, first_time).host.mount
            == container_plan_of(runtime_owner, key, second, mount_path, second_time).host.mount,
        container_plan_of(runtime_owner, key, first, mount_path, first_time).name
            == container_plan_of(runtime_owner, key, second, mount_path, second_time).name,
{
}

/// A random identifier can be the identifier of a session.
pub proof fn law_random_identifiers_are_session_ids(text: Seq<char>)
    requires
        is_uuid_text(text),
    ensures
        is_session_id(text),
{
    assert forall|i: int| 0 <= i < text.len() implies crate::text::is_alnum(#[trigger] text[i])
        || text[i] == '.' || text[i] == ':' || text[i] == '_' || text[i] == '-' by {
        assert(text[i] == text[i]);
    }
}

/// A lower-case hexadecimal digit.
pub open spec fn is_lower_hex(c: char) -> bool {
    '0' <= c <= '9' || 'a' <= c <= 'f'
}

/// The digest of a session is 24 lower-case hexadecimal digits.
proof fn lemma_key_digest(runtime_owner: Seq<char>, key: SessionKeyView)
    ensures
        key_digest(runtime_owner, key).len() == 24,
        forall|i: int| 0 <= i < 24 ==> is_lower_hex(#[trigger] key_digest(runtime_owner, key)[i]),
{
    let bytes = sha256(encode_utf8(session_identity(runtime_owner, key)));
    let digits = hex_text(bytes);
    assert(bytes.len() == 32);
    assert forall|i: int| 0 <= i < 24 implies is_lower_hex(
        #[trigger] key_digest(runtime_owner, key)[i],
    ) by {
        let byte = bytes[i / 2];
        assert(key_digest(runtime_owner, key)[i] == digits[i]);
        assert(0 <= byte as int / 16 < 16);
        assert(0 <= byte as int % 16 < 16);
    }
}

/// The name of a session's container is a fixed word and 24 lower-case hexadecimal digits, 42
/// characters in all. Two sessions have the same name exactly where those digits are the same.
pub proof fn law_container_names_have_one_form(
    runtime_owner: Seq<char>,
    key: SessionKeyView,
    other_owner: Seq<char>,
    other: SessionKeyView,
)
    ensures
        ({
            let name = container_name_of(runtime_owner, key);
            &&& name == "agentcore-session-"@ + key_digest(runtime_owner, key)
            &&& name.len() == 42
            &&& forall|i: int| 18 <= i < 42 ==> is_lower_hex(#[trigger] name[i])
        }),
        container_name_of(runtime_owner, key) == container_name_of(other_owner, other)
            <==> key_digest(runtime_owner, key) == key_digest(other_owner, other),
{
    reveal_strlit("agentcore-session-");
    lemma_key_digest(runtime_owner, key);
    lemma_key_digest(other_owner, other);
    let name = container_name_of(runtime_owner, key);
    let second = container_name_of(other_owner, other);
    assert forall|i: int| 18 <= i < 42 implies is_lower_hex(#[trigger] name[i]) by {
        assert(name[i] == key_digest(runtime_owner, key)[i - 18]);
    }
    assert(name.skip(18) =~= key_digest(runtime_owner, key));
    assert(second.skip(18) =~= key_digest(other_owner, other));
}

/// The digits in the names of a session are those of a text that no other session of the same owner,
/// runtime and qualifier has.
pub proof fn law_sessions_have_texts_of_their_own(
    runtime_owner: Seq<char>,
    key: SessionKeyView,
    runtime_session_id: Seq<char>,
)
    requires
        runtime_session_id != key.runtime_session_id,
    ensures
        encode_utf8(session_identity(runtime_owner, key)) != encode_utf8(
            session_identity(runtime_owner, (SessionKeyView { runtime_session_id, ..key })),
        ),
{
    let other = SessionKeyView { runtime_session_id, ..key };
    let shared = runtime_owner + ":"@ + key.runtime_arn + ":"@ + key.qualifier + ":"@;
    let first = session_identity(runtime_owner, key);
    let second = session_identity(runtime_owner, other);
    assert(first.skip(shared.len() as int) =~= key.runtime_session_id);
    assert(second.skip(shared.len() as int) =~= runtime_session_id);
    vstd::utf8::encode_utf8_decode_utf8(first);
    vstd::utf8::encode_utf8_decode_utf8(second);
}

/// The name of a session's volume is another fixed word and the digits of its container's name, 47
/// characters in all, and no container has it. Two sessions have the same volume exactly where
/// those digits are the same.
pub proof fn law_volume_names_have_one_form(
    runtime_owner: Seq<char>,
    key: SessionKeyView,
    other_owner: Seq<char>,
    other: SessionKeyView,
)
    ensures
        ({
            let name = volume_name_of(runtime_owner, key);
            &&& name == "agentcore-session-data-"@ + container_name_of(
                runtime_owner,
                key,
            ).skip(18)
            &&& name.len() == 47
            &&& forall|i: int| 23 <= i < 47 ==> is_lower_hex(#[trigger] name[i])
        }),
        volume_name_of(runtime_owner, key) != container_name_of(other_owner, other),
        volume_name_of(runtime_owner, key) == volume_name_of(other_owner, other) <==> key_digest(
            runtime_owner,
            key,
        ) == key_digest(other_owner, other),
{
    reveal_strlit("agentcore-session-");
    reveal_strlit("agentcore-session-data-");
    lemma_key_digest(runtime_owner, key);
    lemma_key_digest(other_owner, other);
    let name = volume_name_of(runtime_owner, key);
    let second = volume_name_of(other_owner, other);
    assert(container_name_of(runtime_owner, key).skip(18) =~= key_digest(runtime_owner, key));
    assert forall|i: int| 23 <= i < 47 implies is_lower_hex(#[trigger] name[i]) by {
        assert(name[i] == key_digest(runtime_owner, key)[i - 23]);
    }
    assert(name.len() != container_name_of(other_owner, other).len());
    assert(name.skip(23) =~= key_digest(runtime_owner, key));
    assert(second.skip(23) =~= key_digest(other_owner, other));
}

/// The names of a session's container and volume are digests of the owner, the runtime, the
/// qualifier and the session, with colons between them.
pub proof fn law_session_names_are_digests(runtime_owner: Seq<char>, key: SessionKeyView)
    ensures
        ({
            let text = runtime_owner + ":"@ + key.runtime_arn + ":"@ + key.qualifier + ":"@
                + key.runtime_session_id;
            let digits = hex_text(sha256(encode_utf8(text))).take(24);
            &&& container_name_of(runtime_owner, key) == "agentcore-session-"@ + digits
            &&& volume_name_of(runtime_owner, key) == "agentcore-session-data-"@ + digits
        }),
{
}

/// The container of a session mounts the volume of that session and no other, writable and at the
/// configured path, and sessions whose digests differ mount different volumes.
pub proof fn law_containers_mount_their_own_volume(
    runtime_owner: Seq<char>,
    key: SessionKeyView,
    other: SessionKeyView,
    deployment: ResolvedRuntimeView,
    other_deployment: ResolvedRuntimeView,
    mount_path: Seq<char>,
    now_unix_seconds: u64,
)
    ensures
        ({
            let text = runtime_owner + ":"@ + key.runtime_arn + ":"@ + key.qualifier + ":"@
                + key.runtime_session_id;
            let mount = container_plan_of(
                runtime_owner,
                key,
                deployment,
                mount_path,
                now_unix_seconds,
            ).host.mount;
            let other_mount = container_plan_of(
                runtime_owner,
                other,
                other_deployment,
                mount_path,
                now_unix_seconds,
            ).host.mount;
            &&& mount matches Some(volume) && volume.source == volume_name_of(runtime_owner, key)
                && volume.source == "agentcore-session-data-"@ + hex_text(
                sha256(encode_utf8(text)),
            ).take(24) && volume.target == mount_path && !volume.read_only && !volume.no_copy
            &&& key_digest(runtime_owner, key) != key_digest(runtime_owner, other) ==> mount
                != other_mount
        }),
{
    law_volume_names_have_one_form(runtime_owner, key, runtime_owner, other);
}

/// A session container is made from what its deployment says: the platform, the start command and
/// the environment of its image with the variables of the runtime, the limits on what it may use,
/// and its network. It has the name of its session, shows the port of its protocol, and nothing is
/// attached to it.
pub proof fn law_containers_follow_their_deployment(
    runtime_owner: Seq<char>,
    key: SessionKeyView,
    deployment: ResolvedRuntimeView,
    mount_path: Seq<char>,
    now_unix_seconds: u64,
)
    ensures
        ({
            let plan = container_plan_of(
                runtime_owner,
                key,
                deployment,
                mount_path,
                now_unix_seconds,
            );
            let port = decimal(deployment.protocol.spec_port() as nat) + "/tcp"@;
            &&& plan.name == container_name_of(runtime_owner, key)
            &&& plan.platform == deployment.image_platform
            &&& plan.entrypoint == deployment.image_entrypoint
            &&& plan.command == deployment.image_command
            &&& plan.working_directory == deployment.image_working_directory
            &&& plan.environment == container_environment_of(
                deployment.image_environment,
                deployment.environment,
            )
            &&& plan.exposed_port == port
            &&& !plan.attach_streams
            &&& plan.host.memory == deployment.resources.memory_bytes
            &&& plan.host.nano_cpus == deployment.resources.nano_cpus
            &&& plan.host.pids_limit == deployment.resources.pids_limit
            &&& plan.host.readonly_rootfs == deployment.resources.read_only_root_filesystem
            &&& plan.host.network_mode == deployment.connectivity.docker_network
            &&& plan.host.init
            &&& deployment.connectivity.add_host_gateway ==> plan.host.extra_hosts == Some(
                seq!["host.docker.internal:host-gateway"@],
            )
            &&& plan.host.port_binding matches Some(published) ==> published.container_port == port
                && published.host_port.len() == 0
        }),
{
}

/// Scratch space is mounted at `/workspace`, with its size, for the container's user alone and
/// without devices or set-user bits, unless the session's volume is mounted there.
pub proof fn law_scratch_space(
    runtime_owner: Seq<char>,
    key: SessionKeyView,
    deployment: ResolvedRuntimeView,
    mount_path: Seq<char>,
    now_unix_seconds: u64,
)
    ensures
        ({
            let scratch = container_plan_of(
                runtime_owner,
                key,
                deployment,
                mount_path,
                now_unix_seconds,
            ).host.tmpfs;
            let size = decimal(deployment.resources.workspace_size_bytes as nat);
            &&& mount_path == "/workspace"@ ==> scratch is None
            &&& mount_path != "/workspace"@ ==> scratch is Some
            &&& scratch matches Some(space) ==> {
                &&& space.path == "/workspace"@
                &&& deployment.resources.workspace_no_exec ==> space.options
                    == "rw,nosuid,nodev,noexec,size="@ + size + ",uid=10001,gid=10001,mode=0700"@
                &&& !deployment.resources.workspace_no_exec ==> space.options
                    == "rw,nosuid,nodev,size="@ + size + ",uid=10001,gid=10001,mode=0700"@
            }
        }),
{
    reveal_strlit("rw,nosuid,nodev");
    reveal_strlit(",noexec");
    reveal_strlit("");
    reveal_strlit(",size=");
    reveal_strlit("rw,nosuid,nodev,noexec,size=");
    reveal_strlit("rw,nosuid,nodev,size=");
    assert("rw,nosuid,nodev"@ + ",noexec"@ + ",size="@ =~= "rw,nosuid,nodev,noexec,size="@);
    assert("rw,nosuid,nodev"@ + ""@ + ",size="@ =~= "rw,nosuid,nodev,size="@);
}

/// A session container says whose it is, of which session, and what it was made from and when.
pub proof fn law_containers_say_what_they_are(
    runtime_owner: Seq<char>,
    key: SessionKeyView,
    deployment: ResolvedRuntimeView,
    mount_path: Seq<char>,
    now_unix_seconds: u64,
)
    ensures
        ({
            let labels = container_plan_of(
                runtime_owner,
                key,
                deployment,
                mount_path,
                now_unix_seconds,
            ).labels;
            &&& lookup(labels, "agentcore.emulator.managed"@) == Some("true"@)
            &&& lookup(labels, "agentcore.emulator.owner"@) == Some(runtime_owner)
            &&& lookup(labels, "agentcore.emulator.runtime-arn"@) == Some(key.runtime_arn)
            &&& lookup(labels, "agentcore.emulator.qualifier"@) == Some(key.qualifier)
            &&& lookup(labels, "agentcore.emulator.runtime-session-id"@) == Some(
                key.runtime_session_id,
            )
            &&& lookup(labels, "agentcore.emulator.catalog-generation"@) == Some(
                deployment.catalog_generation,
            )
            &&& lookup(labels, "agentcore.emulator.image"@) == Some(deployment.image)
            &&& lookup(labels, "agentcore.emulator.image-id"@) == Some(deployment.image_id)
            &&& lookup(labels, "agentcore.emulator.created-at-unix-seconds"@) == Some(
                decimal(now_unix_seconds as nat),
            )
        }),
{
    lemma_label_names();
}

/// The volume of a session says whose it is and of which session.
pub proof fn law_volumes_say_what_they_are(runtime_owner: Seq<char>, key: SessionKeyView)
    ensures
        ({
            let labels = ownership_labels(runtime_owner, key);
            &&& lookup(labels, "agentcore.emulator.managed"@) == Some("true"@)
            &&& lookup(labels, "agentcore.emulator.owner"@) == Some(runtime_owner)
            &&& lookup(labels, "agentcore.emulator.runtime-arn"@) == Some(key.runtime_arn)
            &&& lookup(labels, "agentcore.emulator.qualifier"@) == Some(key.qualifier)
            &&& lookup(labels, "agentcore.emulator.runtime-session-id"@) == Some(
                key.runtime_session_id,
            )
        }),
{
    lemma_label_names();
}

/// What is the owner's, and the session's, by its labels.
pub proof fn law_owned_labels(
    labels: Map<Seq<char>, Seq<char>>,
    runtime_owner: Seq<char>,
    key: SessionKeyView,
)
    ensures
        is_owned(labels, runtime_owner, key) <==> {
            &&& lookup(labels, "agentcore.emulator.managed"@) == Some("true"@)
            &&& lookup(labels, "agentcore.emulator.owner"@) == Some(runtime_owner)
            &&& lookup(labels, "agentcore.emulator.runtime-arn"@) == Some(key.runtime_arn)
            &&& lookup(labels, "agentcore.emulator.qualifier"@) == Some(key.qualifier)
            &&& lookup(labels, "agentcore.emulator.runtime-session-id"@) == Some(
                key.runtime_session_id,
            )
        },
        is_candidate(labels, runtime_owner) <==> {
            &&& lookup(labels, "agentcore.emulator.managed"@) == Some("true"@)
            &&& lookup(labels, "agentcore.emulator.owner"@) == Some(runtime_owner)
            &&& lookup(labels, "agentcore.emulator.runtime-session-id"@) matches Some(id)
                && is_session_id(id)
        },
{
}

/// The identifier of a session is 33 to 256 letters, digits, dots, colons, underscores and hyphens.
pub proof fn law_session_ids(id: Seq<char>)
    ensures
        is_session_id(id) <==> 33 <= id.len() <= 256 && forall|i: int|
            0 <= i < id.len() ==> ('a' <= #[trigger] id[i] <= 'z' || 'A' <= id[i] <= 'Z' || '0'
                <= id[i] <= '9' || id[i] == '.' || id[i] == ':' || id[i] == '_' || id[i] == '-'),
{
    if is_session_id(id) {
        assert forall|i: int| 0 <= i < id.len() implies ('a' <= #[trigger] id[i] <= 'z' || 'A'
            <= id[i] <= 'Z' || '0' <= id[i] <= '9' || id[i] == '.' || id[i] == ':' || id[i] == '_'
            || id[i] == '-') by {
            assert(crate::text::is_alnum(id[i]) || id[i] == '.' || id[i] == ':' || id[i] == '_'
                || id[i] == '-');
        }
    }
}

/// A container is taken over exactly where it runs, where its labels name a runtime, a qualifier and
/// a session, where the catalog has that runtime still with the same generation, image and image
/// identity, where it can be reached, and where it says when it was made. It is the session that the
/// labels name, with this container, as old as it says.
pub proof fn law_adopted_containers_match(
    catalog: RuntimeCatalogView,
    id: Seq<char>,
    inspection: ContainerInspectionView,
    now_seconds: u64,
    now_nanos: u32,
)
    ensures
        ({
            let adopted = adoption_of(catalog, id, inspection, now_seconds, now_nanos);
            let labels = inspection.labels->Some_0;
            let runtime_arn = lookup(labels, "agentcore.emulator.runtime-arn"@);
            let qualifier = lookup(labels, "agentcore.emulator.qualifier"@);
            let session_id = lookup(labels, "agentcore.emulator.runtime-session-id"@);
            let deployment = resolved_stored(
                catalog,
                runtime_arn->Some_0,
                Some(qualifier->Some_0),
            );
            let made_at = lookup(labels, "agentcore.emulator.created-at-unix-seconds"@);
            &&& adopted is Ok <==> {
                &&& inspection.running == Some(true)
                &&& inspection.labels is Some
                &&& runtime_arn is Some && qualifier is Some && session_id is Some
                &&& deployment is Ok
                &&& lookup(labels, "agentcore.emulator.catalog-generation"@) == Some(
                    deployment->Ok_0.catalog_generation,
                )
                &&& lookup(labels, "agentcore.emulator.image"@) == Some(deployment->Ok_0.image)
                &&& lookup(labels, "agentcore.emulator.image-id"@) == Some(
                    deployment->Ok_0.image_id,
                )
                &&& endpoint_of(inspection, deployment->Ok_0) is Ok
                &&& made_at is Some && parsed_u64(made_at->Some_0) is Ok
            }
            &&& adopted matches Ok(session) ==> {
                &&& session.key.runtime_arn == runtime_arn->Some_0
                &&& session.key.qualifier == qualifier->Some_0
                &&& session.key.runtime_session_id == session_id->Some_0
                &&& session.deployment == deployment->Ok_0
                &&& session.container.id == id
                &&& session.container.endpoint == endpoint_of(inspection, deployment->Ok_0)->Ok_0
                &&& session.container.age_nanos == age_of(
                    parsed_u64(made_at->Some_0)->Ok_0,
                    now_seconds,
                    now_nanos,
                )
            }
            &&& adopted matches Err(error) ==> error is Invalid
        }),
{
}

/// A container is as old as the time since it was made, in nanoseconds, and nothing is younger than
/// new.
pub proof fn law_ages(made_at: u64, now_seconds: u64, now_nanos: u32)
    ensures
        now_seconds < made_at ==> age_of(made_at, now_seconds, now_nanos) == 0,
        now_seconds >= made_at && (now_seconds - made_at) * 1_000_000_000 + now_nanos <= u64::MAX
            ==> age_of(made_at, now_seconds, now_nanos) == (now_seconds - made_at) * 1_000_000_000
            + now_nanos,
{
}

/// From the host, a container is reached at the port that its protocol's port is published on; in a
/// network it is reached by its name, without the slash in front, at that port itself.
pub proof fn law_endpoints(
    inspection: ContainerInspectionView,
    deployment: ResolvedRuntimeView,
    before: Seq<PortMappingView>,
    behind: Seq<PortMappingView>,
    host_port: Seq<char>,
    name: Seq<char>,
)
    ensures
        ({
            let port = decimal(deployment.protocol.spec_port() as nat);
            &&& (deployment.connectivity.mode == ConnectivityMode::Native && host_port.len() > 0
                && inspection.ports == before + seq![
                PortMappingView {
                    container_port: port + "/tcp"@,
                    first_host_port: Some(host_port),
                },
            ] + behind && forall|i: int|
                0 <= i < before.len() ==> (#[trigger] before[i]).container_port != port + "/tcp"@)
                ==> endpoint_of(inspection, deployment) == Ok::<Seq<char>, Seq<char>>(
                "http://127.0.0.1:"@ + host_port,
            )
            &&& (deployment.connectivity.mode == ConnectivityMode::Native && forall|i: int|
                0 <= i < inspection.ports.len() ==> (#[trigger] inspection.ports[i]).container_port
                    != port + "/tcp"@) ==> endpoint_of(inspection, deployment) is Err
            &&& (deployment.connectivity.mode == ConnectivityMode::Native && inspection.ports.len()
                > 0 && inspection.ports[0].container_port == port + "/tcp"@ && (
            inspection.ports[0].first_host_port is None
                || inspection.ports[0].first_host_port->Some_0.len() == 0)) ==> endpoint_of(
                inspection,
                deployment,
            ) is Err
            &&& (deployment.connectivity.mode == ConnectivityMode::Container && name.len() > 0
                && name[0] != '/' && (inspection.name == Some(seq!['/'] + name) || inspection.name
                == Some(name))) ==> endpoint_of(inspection, deployment) == Ok::<
                Seq<char>,
                Seq<char>,
            >("http://"@ + name + ":"@ + port)
            &&& (deployment.connectivity.mode == ConnectivityMode::Container && inspection.name
                is None) ==> endpoint_of(inspection, deployment) is Err
        }),
{
    let port = decimal(deployment.protocol.spec_port() as nat) + "/tcp"@;
    let mapping = PortMappingView { container_port: port, first_host_port: Some(host_port) };
    if inspection.ports == before + seq![mapping] + behind && (forall|i: int|
        0 <= i < before.len() ==> (#[trigger] before[i]).container_port != port)
        && host_port.len() > 0 {
        lemma_host_port(before, mapping, behind);
    }
    if forall|i: int|
        0 <= i < inspection.ports.len() ==> (#[trigger] inspection.ports[i]).container_port
            != port {
        lemma_no_host_port(inspection.ports, port);
    }
    let slashed = seq!['/'] + name;
    assert(slashed.drop_first() =~= name);
    reveal_with_fuel(without_leading_slashes, 2);
}

proof fn lemma_host_port(
    before: Seq<PortMappingView>,
    mapping: PortMappingView,
    behind: Seq<PortMappingView>,
)
    requires
        forall|i: int|
            0 <= i < before.len() ==> (#[trigger] before[i]).container_port
                != mapping.container_port,
        mapping.first_host_port matches Some(port) && port.len() > 0,
    ensures
        host_port_of(before + seq![mapping] + behind, mapping.container_port)
            == mapping.first_host_port,
    decreases before.len(),
{
    let all = before + seq![mapping] + behind;
    if before.len() > 0 {
        let rest = before.drop_first();
        assert(all[0] == before[0]);
        assert(all.drop_first() =~= rest + seq![mapping] + behind);
        assert forall|i: int| 0 <= i < rest.len() implies (#[trigger] rest[i]).container_port
            != mapping.container_port by {
            assert(rest[i] == before[i + 1]);
        }
        lemma_host_port(rest, mapping, behind);
    } else {
        assert(all[0] == mapping);
    }
}

proof fn lemma_no_host_port(ports: Seq<PortMappingView>, port: Seq<char>)
    requires
        forall|i: int| 0 <= i < ports.len() ==> (#[trigger] ports[i]).container_port != port,
    ensures
        host_port_of(ports, port) is None,
    decreases ports.len(),
{
    if ports.len() > 0 {
        let rest = ports.drop_first();
        assert forall|i: int| 0 <= i < rest.len() implies (#[trigger] rest[i]).container_port
            != port by {
            assert(rest[i] == ports[i + 1]);
        }
        lemma_no_host_port(rest, port);
    }
}

/// A container that a start left behind is removed only where its labels say that it is this owner's
/// and this session's.
pub proof fn law_only_own_leftovers_are_removed(
    runtime_owner: Seq<char>,
    key: SessionKeyView,
    inspection: ContainerInspectionView,
)
    ensures
        prior_container_of(runtime_owner, key, inspection) is Ok <==> inspection.id is Some && (
        inspection.labels matches Some(labels) && is_owned(labels, runtime_owner, key)),
        prior_container_of(runtime_owner, key, inspection) matches Ok(id) ==> inspection.id == Some(
            id,
        ),
{
}

/// A container that is found is pinged three times at most, and taken over as soon as it answers.
pub proof fn law_adoption_pings(attempt: u8, health: SessionHealth)
    ensures
        health != SessionHealth::Unhealthy ==> adoption_ping_step(attempt, health)
            == AdoptionPing::Adopt,
        health == SessionHealth::Unhealthy && attempt < 3 ==> adoption_ping_step(attempt, health)
            == AdoptionPing::TryAgain,
        health == SessionHealth::Unhealthy && attempt >= 3 ==> adoption_ping_step(attempt, health)
            == AdoptionPing::Reject,
{
}

} // verus!
