//! What every setting means.

use vstd::prelude::*;

use crate::catalog::DiscoveryPolicyView;
use crate::config::{
    config_checked, config_of, find_setting, is_custom_header, is_docker_network, list_of,
    policy_of, setting, setting_list, source_of, ConfigErrorView, EntryRule, RuntimeConfigView,
    RuntimeSourceConfigView, SettingView,
};
use crate::descriptor::{all_trimmed, is_environment_name};
use crate::number::{parsed_u64, NumberError};
use crate::runtime::ConnectivityMode;
use crate::text::{split, trimmed};

verus! {

/// The first entry under a name counts. A setting that is not there is no mistake, one that is blank
/// or no text is.
pub proof fn law_settings(settings: Seq<SettingView>, name: Seq<char>, k: int)
    ensures
        (forall|i: int| 0 <= i < settings.len() ==> (#[trigger] settings[i]).name != name)
            ==> setting(settings, name) == Ok::<Option<Seq<char>>, ConfigErrorView>(None),
        (0 <= k < settings.len() && settings[k].name == name && forall|i: int|
            0 <= i < k ==> (#[trigger] settings[i]).name != name) ==> {
            let value = settings[k].value;
            &&& find_setting(settings, name) == Some(value)
            &&& value is Some && trimmed(value->Some_0).len() > 0 ==> setting(settings, name)
                == Ok::<Option<Seq<char>>, ConfigErrorView>(value)
            &&& value is None || trimmed(value->Some_0).len() == 0 ==> setting(settings, name)
                == Err::<Option<Seq<char>>, ConfigErrorView>(ConfigErrorView::Invalid(name))
        },
    decreases settings.len(),
{
    if settings.len() > 0 && settings[0].name != name {
        let rest = settings.drop_first();
        law_settings(rest, name, k - 1);
        assert forall|i: int| 0 <= i < rest.len() implies #[trigger] rest[i] == settings[i
            + 1] by {}
    }
}

/// The owner is the one that is set, or `flint`.
pub proof fn law_owner(settings: Seq<SettingView>)
    requires
        config_of(settings) is Ok,
    ensures
        ({
            let owner = config_of(settings)->Ok_0.runtime_owner;
            let given = setting(settings, "AGENTCORE_RUNTIME_OWNER"@);
            &&& given is Ok
            &&& given->Ok_0 is Some ==> owner == given->Ok_0->Some_0
            &&& given->Ok_0 is None ==> owner == "flint"@
        }),
{
}

/// Sessions are recorded where the state path says, or else under the home of state, or else under
/// home, or else nowhere.
pub proof fn law_state_paths(settings: Seq<SettingView>)
    requires
        config_of(settings) is Ok,
    ensures
        ({
            let path = config_of(settings)->Ok_0.state_path;
            let given = setting(settings, "FLINT_STATE_PATH"@);
            let state_home = setting(settings, "XDG_STATE_HOME"@);
            let home = setting(settings, "HOME"@);
            let has_state_home = state_home matches Ok(Some(_));
            let has_home = home matches Ok(Some(_));
            &&& given is Err ==> path is None
            &&& given matches Ok(Some(value)) ==> path == Some(value)
            &&& given == Ok::<Option<Seq<char>>, ConfigErrorView>(None) ==> {
                &&& has_state_home ==> path == Some(
                    state_home->Ok_0->Some_0 + "/flint/flint.sqlite3"@,
                )
                &&& !has_state_home && has_home ==> path == Some(
                    home->Ok_0->Some_0 + "/.local/state/flint/flint.sqlite3"@,
                )
                &&& !has_state_home && !has_home ==> path is None
            }
        }),
{
}

/// A session's volume is mounted where the setting says, or at `/workspace`.
pub proof fn law_mount_paths(settings: Seq<SettingView>)
    requires
        config_of(settings) is Ok,
    ensures
        ({
            let path = config_of(settings)->Ok_0.session_storage_mount_path;
            let given = setting(settings, "FLINT_SESSION_STORAGE_MOUNT_PATH"@);
            &&& given matches Ok(Some(value)) ==> path == value
            &&& !(given matches Ok(Some(_))) ==> path == "/workspace"@
        }),
{
}

/// Health is checked every so many seconds as the setting says, where that is a number and not zero,
/// and else every five.
pub proof fn law_health_intervals(settings: Seq<SettingView>, n: u64)
    requires
        config_of(settings) is Ok,
    ensures
        ({
            let seconds = config_of(settings)->Ok_0.health_check_interval_seconds;
            let given = setting(settings, "FLINT_HEALTH_CHECK_INTERVAL_SECONDS"@);
            &&& (given matches Ok(Some(text)) && parsed_u64(text) == Ok::<u64, NumberError>(n) && n
                > 0) ==> seconds == n
            &&& (given matches Ok(Some(text)) && parsed_u64(text) == Ok::<u64, NumberError>(0))
                ==> seconds == 5
            &&& (given matches Ok(Some(text)) && parsed_u64(text) is Err) ==> seconds == 5
            &&& !(given matches Ok(Some(_))) ==> seconds == 5
        }),
{
}

/// Containers are reached over the host, unless the setting names the other mode, which needs a
/// network.
pub proof fn law_connectivity_settings(settings: Seq<SettingView>)
    ensures
        ({
            let mode = setting(settings, "FLINT_CONNECTIVITY_MODE"@);
            let network = setting(settings, "FLINT_DOCKER_NETWORK"@);
            let policy = policy_of(settings);
            let native = mode == Ok::<Option<Seq<char>>, ConfigErrorView>(None) || mode == Ok::<
                Option<Seq<char>>,
                ConfigErrorView,
            >(Some("native"@));
            let in_network = mode == Ok::<Option<Seq<char>>, ConfigErrorView>(
                Some("container"@),
            );
            &&& policy matches Ok(accepted) ==> {
                &&& native || in_network
                &&& network == Ok::<Option<Seq<char>>, ConfigErrorView>(
                    accepted.connectivity.docker_network,
                )
                &&& native ==> accepted.connectivity.mode == ConnectivityMode::Native
                    && accepted.connectivity.docker_network is None
                &&& in_network ==> accepted.connectivity.mode == ConnectivityMode::Container
                    && accepted.connectivity.docker_network is Some && is_docker_network(
                    accepted.connectivity.docker_network->Some_0,
                )
                &&& !accepted.connectivity.add_host_gateway
            }
            &&& mode is Ok && !native && !in_network ==> policy == Err::<
                DiscoveryPolicyView,
                ConfigErrorView,
            >(ConfigErrorView::Invalid("FLINT_CONNECTIVITY_MODE"@))
            &&& in_network && network == Ok::<Option<Seq<char>>, ConfigErrorView>(None) ==> policy
                == Err::<DiscoveryPolicyView, ConfigErrorView>(
                ConfigErrorView::Missing("FLINT_DOCKER_NETWORK"@),
            )
            &&& in_network && (network matches Ok(Some(name)) && !is_docker_network(name))
                ==> policy == Err::<DiscoveryPolicyView, ConfigErrorView>(
                ConfigErrorView::Invalid("FLINT_DOCKER_NETWORK"@),
            )
            &&& native && (network matches Ok(Some(_))) ==> policy matches Err(
                ConfigErrorView::Conflict(_),
            )
        }),
{
    lemma_modes_differ();
}

proof fn lemma_modes_differ()
    ensures
        "native"@ != "container"@,
        "catalog"@ != "docker"@,
{
    reveal_strlit("native");
    reveal_strlit("container");
    reveal_strlit("catalog");
    reveal_strlit("docker");
    assert("native"@.len() == 6 && "container"@.len() == 9);
    assert("catalog"@.len() == 7 && "docker"@.len() == 6);
}

/// A network of one's own has a name of at most 255 letters, digits, dots, underscores and hyphens,
/// with a letter or a digit in front, and is none of those that the daemon has anyway.
pub proof fn law_network_names(name: Seq<char>)
    ensures
        is_docker_network(name) <==> {
            &&& 1 <= name.len() <= 255
            &&& name != "bridge"@ && name != "default"@ && name != "host"@ && name != "none"@
            &&& 'a' <= name[0] <= 'z' || 'A' <= name[0] <= 'Z' || '0' <= name[0] <= '9'
            &&& forall|i: int|
                0 <= i < name.len() ==> ('a' <= #[trigger] name[i] <= 'z' || 'A' <= name[i] <= 'Z'
                    || '0' <= name[i] <= '9' || name[i] == '.' || name[i] == '_' || name[i] == '-')
        },
{
    reveal_strlit("container:");
    assert("container:"@.len() == 10 && "container:"@[9] == ':');
    if crate::text::starts_with(name, "container:"@) {
        assert(name.subrange(0, 10)[9] == name[9]);
        assert(name[9] == ':');
    }
    if is_docker_network(name) {
        assert forall|i: int| 0 <= i < name.len() implies ('a' <= #[trigger] name[i] <= 'z' || 'A'
            <= name[i] <= 'Z' || '0' <= name[i] <= '9' || name[i] == '.' || name[i] == '_'
            || name[i] == '-') by {
            assert(crate::text::is_alnum(name[i]) || name[i] == '.' || name[i] == '_' || name[i]
                == '-');
        }
    }
}

/// A header that a runtime may be allowed is written in small letters, digits and hyphens. It is
/// none that carries credentials, none that belongs to the connection, and not the session's.
pub proof fn law_custom_headers(name: Seq<char>)
    ensures
        is_custom_header(name) <==> {
            &&& name.len() > 0
            &&& forall|i: int|
                0 <= i < name.len() ==> ('a' <= #[trigger] name[i] <= 'z' || '0' <= name[i] <= '9'
                    || name[i] == '-')
            &&& name != "authorization"@ && name != "proxy-authorization"@
            &&& name != "x-amz-date"@ && name != "x-amz-content-sha256"@ && name
                != "x-amz-security-token"@
            &&& name != "host"@ && name != "connection"@ && name != "proxy-connection"@ && name
                != "keep-alive"@ && name != "transfer-encoding"@ && name != "te"@ && name
                != "trailer"@ && name != "upgrade"@ && name != "content-length"@
            &&& name != "x-amzn-bedrock-agentcore-runtime-session-id"@
        },
{
    if is_custom_header(name) {
        assert forall|i: int| 0 <= i < name.len() implies ('a' <= #[trigger] name[i] <= 'z' || '0'
            <= name[i] <= '9' || name[i] == '-') by {
            assert(crate::text::is_lower(name[i]) || crate::text::is_digit(name[i]) || name[i]
                == '-');
        }
    }
}

/// A list has its entries between commas, with white space round them or not. It is accepted exactly
/// where every entry is what the setting asks for and none comes twice.
pub proof fn law_lists(name: Seq<char>, value: Seq<char>)
    ensures
        ({
            let parts = split(value, ',');
            let distinct = forall|i: int, j: int|
                0 <= i < j < parts.len() ==> trimmed(#[trigger] parts[i]) != trimmed(
                    #[trigger] parts[j],
                );
            let not_blank = trimmed(value).len() > 0;
            &&& list_of(name, Some(value), EntryRule::AnyText) is Ok <==> not_blank && distinct && (
            forall|i: int| 0 <= i < parts.len() ==> trimmed(#[trigger] parts[i]).len() > 0)
            &&& list_of(name, Some(value), EntryRule::EnvironmentName) is Ok <==> not_blank
                && distinct && (forall|i: int|
                0 <= i < parts.len() ==> is_environment_name(trimmed(#[trigger] parts[i])))
            &&& list_of(name, Some(value), EntryRule::CustomHeader) is Ok <==> not_blank && distinct
                && (forall|i: int|
                0 <= i < parts.len() ==> is_custom_header(trimmed(#[trigger] parts[i])))
            &&& list_of(name, None, EntryRule::AnyText) == Ok::<Seq<Seq<char>>, ConfigErrorView>(
                Seq::empty(),
            )
            &&& list_of(name, None, EntryRule::EnvironmentName) == Ok::<
                Seq<Seq<char>>,
                ConfigErrorView,
            >(Seq::empty())
            &&& list_of(name, None, EntryRule::CustomHeader) == Ok::<
                Seq<Seq<char>>,
                ConfigErrorView,
            >(Seq::empty())
        }),
{
    let parts = split(value, ',');
    let entries = all_trimmed(parts);
    assert forall|i: int| 0 <= i < parts.len() implies #[trigger] entries[i] == trimmed(
        parts[i],
    ) by {}
    let distinct = forall|i: int, j: int|
        0 <= i < j < parts.len() ==> trimmed(#[trigger] parts[i]) != trimmed(#[trigger] parts[j]);
    if distinct {
        assert forall|i: int, j: int|
            0 <= i < entries.len() && 0 <= j < entries.len() && i != j implies entries[i]
            != entries[j] by {
            if i < j {
                assert(trimmed(parts[i]) != trimmed(parts[j]));
            } else {
                assert(trimmed(parts[j]) != trimmed(parts[i]));
            }
        }
    }
    if entries.no_duplicates() {
        assert forall|i: int, j: int| 0 <= i < j < parts.len() implies trimmed(#[trigger] parts[i])
            != trimmed(#[trigger] parts[j]) by {
            assert(entries[i] != entries[j]);
        }
    }
    lemma_entries(parts, entries);
}

proof fn lemma_entries(parts: Seq<Seq<char>>, entries: Seq<Seq<char>>)
    requires
        entries == all_trimmed(parts),
    ensures
        (forall|i: int| 0 <= i < entries.len() ==> #[trigger] crate::config::entry_ok(
            EntryRule::AnyText,
            entries[i],
        )) <==> (forall|i: int| 0 <= i < parts.len() ==> trimmed(#[trigger] parts[i]).len() > 0),
        (forall|i: int| 0 <= i < entries.len() ==> #[trigger] crate::config::entry_ok(
            EntryRule::EnvironmentName,
            entries[i],
        )) <==> (forall|i: int|
            0 <= i < parts.len() ==> is_environment_name(trimmed(#[trigger] parts[i]))),
        (forall|i: int| 0 <= i < entries.len() ==> #[trigger] crate::config::entry_ok(
            EntryRule::CustomHeader,
            entries[i],
        )) <==> (forall|i: int|
            0 <= i < parts.len() ==> is_custom_header(trimmed(#[trigger] parts[i]))),
{
    assert forall|i: int| 0 <= i < parts.len() implies (#[trigger] parts[i], entries[i]).1
        == trimmed(parts[i]) by {}
    if forall|i: int|
        0 <= i < entries.len() ==> #[trigger] crate::config::entry_ok(
            EntryRule::AnyText,
            entries[i],
        ) {
        assert forall|i: int| 0 <= i < parts.len() implies trimmed(#[trigger] parts[i]).len()
            > 0 by {
            assert(crate::config::entry_ok(EntryRule::AnyText, entries[i]));
        }
    }
    if forall|i: int|
        0 <= i < entries.len() ==> #[trigger] crate::config::entry_ok(
            EntryRule::EnvironmentName,
            entries[i],
        ) {
        assert forall|i: int| 0 <= i < parts.len() implies is_environment_name(
            trimmed(#[trigger] parts[i]),
        ) by {
            assert(crate::config::entry_ok(EntryRule::EnvironmentName, entries[i]));
        }
    }
    if forall|i: int|
        0 <= i < entries.len() ==> #[trigger] crate::config::entry_ok(
            EntryRule::CustomHeader,
            entries[i],
        ) {
        assert forall|i: int| 0 <= i < parts.len() implies is_custom_header(
            trimmed(#[trigger] parts[i]),
        ) by {
            assert(crate::config::entry_ok(EntryRule::CustomHeader, entries[i]));
        }
    }
}

/// What a runtime may be given is on its own list: the variables on one, the headers on another. A
/// list that is not set lets nothing through, and a list holds what the setting lists.
pub proof fn law_allowlists(settings: Seq<SettingView>, entry: Seq<char>)
    requires
        policy_of(settings) is Ok,
    ensures
        ({
            let policy = policy_of(settings)->Ok_0;
            let variables = setting(settings, "FLINT_RUNTIME_ENV_ALLOWLIST"@);
            let headers = setting(settings, "FLINT_RUNTIME_HEADER_ALLOWLIST"@);
            &&& variables is Ok && headers is Ok
            &&& variables->Ok_0 is None ==> policy.environment_allowlist.len() == 0
            &&& headers->Ok_0 is None ==> policy.header_allowlist.len() == 0
            &&& variables->Ok_0 matches Some(text) ==> (policy.environment_allowlist.contains(entry)
                <==> exists|i: int|
                0 <= i < split(text, ',').len() && trimmed(#[trigger] split(text, ',')[i])
                    == entry)
            &&& headers->Ok_0 matches Some(text) ==> (policy.header_allowlist.contains(entry)
                <==> exists|i: int|
                0 <= i < split(text, ',').len() && trimmed(#[trigger] split(text, ',')[i])
                    == entry)
            &&& policy.environment_allowlist.contains(entry) ==> is_environment_name(entry)
            &&& policy.header_allowlist.contains(entry) ==> is_custom_header(entry)
        }),
{
    if let Ok(Some(text)) = setting(settings, "FLINT_RUNTIME_ENV_ALLOWLIST"@) {
        lemma_listed("FLINT_RUNTIME_ENV_ALLOWLIST"@, text, EntryRule::EnvironmentName, entry);
        law_lists("FLINT_RUNTIME_ENV_ALLOWLIST"@, text);
    }
    if let Ok(Some(text)) = setting(settings, "FLINT_RUNTIME_HEADER_ALLOWLIST"@) {
        lemma_listed("FLINT_RUNTIME_HEADER_ALLOWLIST"@, text, EntryRule::CustomHeader, entry);
        law_lists("FLINT_RUNTIME_HEADER_ALLOWLIST"@, text);
    }
}

proof fn lemma_listed(name: Seq<char>, value: Seq<char>, rule: EntryRule, entry: Seq<char>)
    requires
        list_of(name, Some(value), rule) is Ok,
    ensures
        list_of(name, Some(value), rule)->Ok_0.contains(entry) <==> exists|i: int|
            0 <= i < split(value, ',').len() && trimmed(#[trigger] split(value, ',')[i]) == entry,
{
    broadcast use vstd::seq_lib::group_to_multiset_ensures;

    crate::config::law_lists_are_sorted(name, value, rule);
    let list = list_of(name, Some(value), rule)->Ok_0;
    let parts = split(value, ',');
    let entries = all_trimmed(parts);
    assert(list.to_multiset().count(entry) == entries.to_multiset().count(entry));
    assert(list.contains(entry) <==> entries.contains(entry));
    if entries.contains(entry) {
        let i = choose|i: int| 0 <= i < entries.len() && entries[i] == entry;
        assert(trimmed(parts[i]) == entry);
    }
    if exists|i: int| 0 <= i < parts.len() && trimmed(#[trigger] parts[i]) == entry {
        let i = choose|i: int| 0 <= i < parts.len() && trimmed(#[trigger] parts[i]) == entry;
        assert(entries[i] == entry);
    }
}

/// Runtimes come from a file where the source is `catalog`: the one that is named, or else the
/// example. What belongs to the search among images is then refused.
pub proof fn law_file_sources(settings: Seq<SettingView>)
    requires
        setting(settings, "AGENTCORE_RUNTIME_SOURCE"@) == Ok::<Option<Seq<char>>, ConfigErrorView>(
            Some("catalog"@),
        ),
    ensures
        ({
            let source = source_of(settings);
            let path = setting(settings, "AGENTCORE_RUNTIME_CATALOG"@);
            let none = Ok::<Option<Seq<char>>, ConfigErrorView>(None);
            &&& source is Ok <==> path is Ok && policy_of(settings) is Ok && setting(
                settings,
                "AGENTCORE_RUNTIME_IMAGES"@,
            ) == none && setting(settings, "FLINT_DISCOVERY_REFRESH_SECONDS"@) == none
            &&& source matches Ok(config) ==> {
                &&& path->Ok_0 is Some ==> config == (RuntimeSourceConfigView::Catalog {
                    path: path->Ok_0->Some_0,
                    policy: policy_of(settings)->Ok_0,
                })
                &&& path->Ok_0 is None ==> config == (RuntimeSourceConfigView::Catalog {
                    path: "config/runtime-catalog.example.json"@,
                    policy: policy_of(settings)->Ok_0,
                })
            }
        }),
{
}

/// Runtimes are searched for among images where the source is `docker` or none is set: among those
/// that are listed, or all; every half minute, or as often as the setting says, once an hour at
/// least. The path of a file is then refused.
pub proof fn law_image_sources(settings: Seq<SettingView>)
    requires
        setting(settings, "AGENTCORE_RUNTIME_SOURCE"@) == Ok::<Option<Seq<char>>, ConfigErrorView>(
            Some("docker"@),
        ) || setting(settings, "AGENTCORE_RUNTIME_SOURCE"@) == Ok::<
            Option<Seq<char>>,
            ConfigErrorView,
        >(None),
    ensures
        ({
            let source = source_of(settings);
            let path = setting(settings, "AGENTCORE_RUNTIME_CATALOG"@);
            let seconds = setting(settings, "FLINT_DISCOVERY_REFRESH_SECONDS"@);
            let images = setting_list(settings, "AGENTCORE_RUNTIME_IMAGES"@, EntryRule::AnyText);
            let in_range = seconds->Ok_0 matches Some(text) ==> (parsed_u64(text) matches Ok(n) && 1
                <= n <= 3600);
            &&& source is Ok <==> path == Ok::<Option<Seq<char>>, ConfigErrorView>(None)
                && policy_of(settings) is Ok && seconds is Ok && in_range && images is Ok
            &&& source matches Ok(config) ==> (config matches RuntimeSourceConfigView::Docker(found)
                && {
                &&& found.policy == policy_of(settings)->Ok_0
                &&& found.image_allowlist == images->Ok_0
                &&& seconds->Ok_0 is None ==> found.refresh_seconds == 30
                &&& seconds->Ok_0 matches Some(text) ==> parsed_u64(text) == Ok::<u64, NumberError>(
                    found.refresh_seconds,
                )
            })
        }),
{
    lemma_modes_differ();
}

/// Any other source is refused.
pub proof fn law_other_sources(settings: Seq<SettingView>, source: Seq<char>)
    requires
        setting(settings, "AGENTCORE_RUNTIME_SOURCE"@) == Ok::<Option<Seq<char>>, ConfigErrorView>(
            Some(source),
        ),
        source != "docker"@ && source != "catalog"@,
    ensures
        source_of(settings) is Err,
        setting(settings, "AGENTCORE_RUNTIME_CATALOG"@) is Ok && policy_of(settings) is Ok
            ==> source_of(settings) == Err::<RuntimeSourceConfigView, ConfigErrorView>(
            ConfigErrorView::Invalid("AGENTCORE_RUNTIME_SOURCE"@),
        ),
{
}

/// Settings that were made by hand pass exactly where the owner is not blank.
pub proof fn law_checked_settings(config: RuntimeConfigView)
    ensures
        config_checked(config) is Ok <==> trimmed(config.runtime_owner).len() > 0,
        config_checked(config) matches Err(e) ==> e == ConfigErrorView::Invalid(
            "AGENTCORE_RUNTIME_OWNER"@,
        ),
{
}

} // verus!
