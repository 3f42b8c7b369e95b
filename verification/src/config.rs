//! The settings of the gateway.

use vstd::prelude::*;

use crate::catalog::{DiscoveryPolicy, DiscoveryPolicyView};
use crate::catalog_error::{CatalogError, CatalogErrorView};
use crate::descriptor::{all_trimmed, is_environment_name, trim_all, valid_environment_name};
use crate::environment::is_blank;
use crate::number::{parse_u64, parsed_u64};
use crate::order::{sort_ranked, sorted};
use crate::runtime::{Connectivity, ConnectivityMode, ConnectivityView};
use crate::text::{
    agrees, cat2, char_is_alnum, char_is_digit, char_is_lower, chars_of, contains_text, has_prefix,
    is_alnum, is_digit, is_lower, opt_text, same, split, split_text, starts_with, texts, trim,
    trimmed,
};

verus! {

pub const DEFAULT_RUNTIME_OWNER: &'static str = "flint";

pub const DEFAULT_CATALOG_PATH: &'static str = "config/runtime-catalog.example.json";

pub const DEFAULT_SESSION_STORAGE_MOUNT_PATH: &'static str = "/workspace";

pub const DEFAULT_DISCOVERY_REFRESH_SECONDS: u64 = 30;

pub const MAX_DISCOVERY_REFRESH_SECONDS: u64 = 3_600;

pub const DEFAULT_HEALTH_CHECK_INTERVAL_SECONDS: u64 = 5;

/// What is wrong with the settings.
#[derive(Debug)]
pub enum ConfigError {
    Missing(&'static str),
    Invalid(&'static str),
    Conflict(&'static str),
    Catalog(CatalogError),
}

#[verifier::ext_equal]
pub enum ConfigErrorView {
    Missing(Seq<char>),
    Invalid(Seq<char>),
    Conflict(Seq<char>),
    Catalog(CatalogErrorView),
}

impl View for ConfigError {
    type V = ConfigErrorView;

    open spec fn view(&self) -> ConfigErrorView {
        match self {
            ConfigError::Missing(name) => ConfigErrorView::Missing(name@),
            ConfigError::Invalid(name) => ConfigErrorView::Invalid(name@),
            ConfigError::Conflict(message) => ConfigErrorView::Conflict(message@),
            ConfigError::Catalog(error) => ConfigErrorView::Catalog(error@),
        }
    }
}

impl ConfigErrorView {
    pub open spec fn text(self) -> Seq<char> {
        match self {
            ConfigErrorView::Missing(name) => name + " is required"@,
            ConfigErrorView::Invalid(name) => name + " has an invalid value"@,
            ConfigErrorView::Conflict(message) => "configuration conflict: "@ + message,
            ConfigErrorView::Catalog(error) => error.text(),
        }
    }
}

impl ConfigError {
    pub fn message(&self) -> (r: String)
        ensures
            r@ == self@.text(),
    {
        match self {
            ConfigError::Missing(name) => cat2(name, " is required"),
            ConfigError::Invalid(name) => cat2(name, " has an invalid value"),
            ConfigError::Conflict(message) => cat2("configuration conflict: ", message),
            ConfigError::Catalog(error) => error.message(),
        }
    }
}

// Settings.

/// One variable of the process environment.
#[derive(Debug)]
pub struct Setting {
    pub name: String,
    /// The value, where it is text.
    pub value: Option<String>,
}

#[verifier::ext_equal]
pub struct SettingView {
    pub name: Seq<char>,
    pub value: Option<Seq<char>>,
}

impl View for Setting {
    type V = SettingView;

    open spec fn view(&self) -> SettingView {
        SettingView { name: self.name@, value: opt_text(self.value) }
    }
}

/// The variables that are set.
#[derive(Debug)]
pub struct Settings {
    pub entries: Vec<Setting>,
}

impl View for Settings {
    type V = Seq<SettingView>;

    open spec fn view(&self) -> Seq<SettingView> {
        crate::text::views(self.entries@)
    }
}

pub open spec fn find_setting(settings: Seq<SettingView>, name: Seq<char>) -> Option<
    Option<Seq<char>>,
>
    decreases settings.len(),
{
    if settings.len() == 0 {
        None
    } else if settings[0].name == name {
        Some(settings[0].value)
    } else {
        find_setting(settings.drop_first(), name)
    }
}

/// A setting, where it is there. It must be text, and not blank.
pub open spec fn setting(settings: Seq<SettingView>, name: Seq<char>) -> Result<
    Option<Seq<char>>,
    ConfigErrorView,
> {
    match find_setting(settings, name) {
        None => Ok(None),
        Some(None) => Err(ConfigErrorView::Invalid(name)),
        Some(Some(value)) => if is_blank(value) {
            Err(ConfigErrorView::Invalid(name))
        } else {
            Ok(Some(value))
        },
    }
}

/// The outcome of reading an optional text agrees with what is expected.
pub open spec fn opt_agrees(
    actual: Result<Option<String>, ConfigError>,
    expected: Result<Option<Seq<char>>, ConfigErrorView>,
) -> bool {
    match (actual, expected) {
        (Ok(a), Ok(b)) => opt_text(a) == b,
        (Err(a), Err(b)) => a@ == b,
        _ => false,
    }
}

/// The same for a list of texts.
pub open spec fn list_agrees(
    actual: Result<Vec<String>, ConfigError>,
    expected: Result<Seq<Seq<char>>, ConfigErrorView>,
) -> bool {
    match (actual, expected) {
        (Ok(a), Ok(b)) => texts(a@) == b,
        (Err(a), Err(b)) => a@ == b,
        _ => false,
    }
}

impl Settings {
    /// Reads a setting.
    pub fn lookup(&self, name: &'static str) -> (r: Result<Option<String>, ConfigError>)
        ensures
            opt_agrees(r, setting(self@, name@)),
    {
        let ghost all = self@;
        proof {
            assert(all.skip(0) =~= all);
        }
        for i in 0..self.entries.len()
            invariant
                all == self@,
                find_setting(all, name@) == find_setting(all.skip(i as int), name@),
        {
            proof {
                assert(all.skip(i as int)[0] == self.entries@[i as int]@);
                assert(all.skip(i as int).drop_first() =~= all.skip(i as int + 1));
            }
            if same(self.entries[i].name.as_str(), name) {
                return match &self.entries[i].value {
                    None => Err(ConfigError::Invalid(name)),
                    Some(value) => {
                        if trim(value.as_str()).as_str().is_empty() {
                            Err(ConfigError::Invalid(name))
                        } else {
                            Ok(Some(value.clone()))
                        }
                    },
                };
            }
        }
        Ok(None)
    }
}

// Lists.

/// What may stand in a list.
#[derive(Clone, Copy, Debug, PartialEq, Eq, Structural)]
pub enum EntryRule {
    AnyText,
    EnvironmentName,
    CustomHeader,
}

/// The headers that a runtime never gets from a caller.
pub open spec fn is_reserved_header(name: Seq<char>) -> bool {
    ||| name == "authorization"@
    ||| name == "proxy-authorization"@
    ||| name == "x-amz-date"@
    ||| name == "x-amz-content-sha256"@
    ||| name == "x-amz-security-token"@
    ||| name == "host"@
    ||| name == "connection"@
    ||| name == "proxy-connection"@
    ||| name == "keep-alive"@
    ||| name == "transfer-encoding"@
    ||| name == "te"@
    ||| name == "trailer"@
    ||| name == "upgrade"@
    ||| name == "content-length"@
    ||| name == "x-amzn-bedrock-agentcore-runtime-session-id"@
}

fn reserved_header(name: &str) -> (r: bool)
    ensures
        r == is_reserved_header(name@),
{
    same(name, "authorization") || same(name, "proxy-authorization") || same(name, "x-amz-date")
        || same(name, "x-amz-content-sha256") || same(name, "x-amz-security-token") || same(
        name,
        "host",
    ) || same(name, "connection") || same(name, "proxy-connection") || same(name, "keep-alive")
        || same(name, "transfer-encoding") || same(name, "te") || same(name, "trailer") || same(
        name,
        "upgrade",
    ) || same(name, "content-length") || same(name, "x-amzn-bedrock-agentcore-runtime-session-id")
}

/// Lower-case letters, digits and `-`, and no header that the gateway handles itself.
pub open spec fn is_custom_header(name: Seq<char>) -> bool {
    &&& name.len() > 0
    &&& forall|i: int|
        0 <= i < name.len() ==> is_lower(#[trigger] name[i]) || is_digit(name[i]) || name[i] == '-'
    &&& !is_reserved_header(name)
}

pub fn valid_custom_header(value: &str) -> (r: bool)
    ensures
        r == is_custom_header(value@),
{
    let chars = chars_of(value);
    if chars.len() == 0 {
        return false;
    }
    for i in 0..chars.len()
        invariant
            chars@ == value@,
            forall|k: int|
                0 <= k < i ==> is_lower(#[trigger] value@[k]) || is_digit(value@[k]) || value@[k]
                    == '-',
    {
        let c = chars[i];
        if !(char_is_lower(c) || char_is_digit(c) || c == '-') {
            proof {
                assert(!is_lower(value@[i as int]));
            }
            return false;
        }
    }
    !reserved_header(value)
}

pub open spec fn entry_ok(rule: EntryRule, entry: Seq<char>) -> bool {
    match rule {
        EntryRule::AnyText => entry.len() > 0,
        EntryRule::EnvironmentName => is_environment_name(entry),
        EntryRule::CustomHeader => is_custom_header(entry),
    }
}

fn entry_fits(rule: EntryRule, entry: &str) -> (r: bool)
    ensures
        r == entry_ok(rule, entry@),
{
    match rule {
        EntryRule::AnyText => !entry.is_empty(),
        EntryRule::EnvironmentName => valid_environment_name(entry),
        EntryRule::CustomHeader => valid_custom_header(entry),
    }
}

/// The entries between commas in ascending order, where all of them may stand in the list and none
/// comes twice.
pub open spec fn list_of(
    name: Seq<char>,
    value: Option<Seq<char>>,
    rule: EntryRule,
) -> Result<Seq<Seq<char>>, ConfigErrorView> {
    match value {
        None => Ok(Seq::empty()),
        Some(value) => {
            let entries = all_trimmed(split(value, ','));
            if is_blank(value) || !entries.no_duplicates() || !(forall|i: int|
                0 <= i < entries.len() ==> entry_ok(rule, #[trigger] entries[i])) {
                Err(ConfigErrorView::Invalid(name))
            } else {
                Ok(sorted(entries))
            }
        },
    }
}

pub fn parse_list(name: &'static str, value: Option<String>, rule: EntryRule) -> (r: Result<
    Vec<String>,
    ConfigError,
>)
    ensures
        list_agrees(r, list_of(name@, opt_text(value), rule)),
{
    let text = match &value {
        None => {
            let none: Vec<String> = Vec::new();
            proof {
                assert(texts(none@) =~= Seq::empty());
            }
            return Ok(none);
        },
        Some(text) => text,
    };
    if trim(text.as_str()).as_str().is_empty() {
        return Err(ConfigError::Invalid(name));
    }
    let entries = trim_all(&split_text(text.as_str(), ','));
    let ghost all = texts(entries@);
    let mut seen: Vec<String> = Vec::new();
    proof {
        assert(texts(seen@) =~= all.take(0));
    }
    for i in 0..entries.len()
        invariant
            all == texts(entries@),
            value == Some(*text),
            all == all_trimmed(split(text@, ',')),
            texts(seen@) == all.take(i as int),
            all.take(i as int).no_duplicates(),
            forall|k: int| 0 <= k < i ==> entry_ok(rule, #[trigger] all[k]),
    {
        let entry = entries[i].as_str();
        proof {
            assert(all[i as int] == entry@);
        }
        if !entry_fits(rule, entry) {
            return Err(ConfigError::Invalid(name));
        }
        if contains_text(&seen, entry) {
            proof {
                let k = choose|k: int|
                    0 <= k < all.take(i as int).len() && all.take(i as int)[k] == entry@;
                assert(all[k] == all[i as int]);
                assert(!all.no_duplicates());
            }
            return Err(ConfigError::Invalid(name));
        }
        let ghost before = seen@;
        seen.push(entries[i].clone());
        proof {
            assert(texts(seen@) =~= texts(before).push(entry@));
            assert(texts(seen@) =~= all.take(i as int + 1));
            let next = all.take(i as int + 1);
            assert forall|a: int, b: int|
                0 <= a < next.len() && 0 <= b < next.len() && a != b implies next[a]
                != next[b] by {
                if a < i && b < i {
                    assert(all.take(i as int)[a] != all.take(i as int)[b]);
                } else if a < i {
                    assert(all.take(i as int).contains(all.take(i as int)[a]));
                } else {
                    assert(all.take(i as int).contains(all.take(i as int)[b]));
                }
            }
        }
    }
    proof {
        assert(all.take(all.len() as int) =~= all);
    }
    Ok(sort_ranked(entries))
}

// The policy for all runtimes.

/// A network that containers can be put on: no predefined network, and no other container's.
pub open spec fn is_docker_network(name: Seq<char>) -> bool {
    &&& name != "bridge"@
    &&& name != "default"@
    &&& name != "host"@
    &&& name != "none"@
    &&& !starts_with(name, "container:"@)
    &&& 1 <= name.len() <= 255
    &&& is_alnum(name[0])
    &&& forall|i: int|
        0 <= i < name.len() ==> is_alnum(#[trigger] name[i]) || name[i] == '.' || name[i] == '_'
            || name[i] == '-'
}

pub fn valid_docker_network(value: &str) -> (r: bool)
    ensures
        r == is_docker_network(value@),
{
    if same(value, "bridge") || same(value, "default") || same(value, "host") || same(
        value,
        "none",
    ) || has_prefix(value, "container:") {
        return false;
    }
    let chars = chars_of(value);
    if chars.len() == 0 || chars.len() > 255 || !char_is_alnum(chars[0]) {
        return false;
    }
    for i in 0..chars.len()
        invariant
            chars@ == value@,
            forall|k: int|
                0 <= k < i ==> is_alnum(#[trigger] value@[k]) || value@[k] == '.' || value@[k]
                    == '_' || value@[k] == '-',
    {
        let c = chars[i];
        if !(char_is_alnum(c) || c == '.' || c == '_' || c == '-') {
            proof {
                assert(!is_alnum(value@[i as int]));
            }
            return false;
        }
    }
    true
}

pub open spec fn connectivity_mode_of(value: Option<Seq<char>>) -> Option<ConnectivityMode> {
    match value {
        None => Some(ConnectivityMode::Native),
        Some(name) => if name == "native"@ {
            Some(ConnectivityMode::Native)
        } else if name == "container"@ {
            Some(ConnectivityMode::Container)
        } else {
            None
        },
    }
}

/// A network is needed exactly where containers are reached over one.
pub open spec fn network_checked(mode: ConnectivityMode, network: Option<Seq<char>>) -> Result<
    (),
    ConfigErrorView,
> {
    match (mode, network) {
        (ConnectivityMode::Native, Some(_)) => Err(
            ConfigErrorView::Conflict(
                "FLINT_DOCKER_NETWORK requires FLINT_CONNECTIVITY_MODE=container"@,
            ),
        ),
        (ConnectivityMode::Container, None) => Err(
            ConfigErrorView::Missing("FLINT_DOCKER_NETWORK"@),
        ),
        (ConnectivityMode::Container, Some(name)) => if is_docker_network(name) {
            Ok(())
        } else {
            Err(ConfigErrorView::Invalid("FLINT_DOCKER_NETWORK"@))
        },
        (ConnectivityMode::Native, None) => Ok(()),
    }
}

pub open spec fn policy_of(settings: Seq<SettingView>) -> Result<
    DiscoveryPolicyView,
    ConfigErrorView,
> {
    match setting(settings, "FLINT_CONNECTIVITY_MODE"@) {
        Err(e) => Err(e),
        Ok(mode) => match connectivity_mode_of(mode) {
            None => Err(ConfigErrorView::Invalid("FLINT_CONNECTIVITY_MODE"@)),
            Some(mode) => match setting(settings, "FLINT_DOCKER_NETWORK"@) {
                Err(e) => Err(e),
                Ok(docker_network) => match network_checked(mode, docker_network) {
                    Err(e) => Err(e),
                    Ok(_) => match setting_list(
                        settings,
                        "FLINT_RUNTIME_ENV_ALLOWLIST"@,
                        EntryRule::EnvironmentName,
                    ) {
                        Err(e) => Err(e),
                        Ok(environment_allowlist) => match setting_list(
                            settings,
                            "FLINT_RUNTIME_HEADER_ALLOWLIST"@,
                            EntryRule::CustomHeader,
                        ) {
                            Err(e) => Err(e),
                            Ok(header_allowlist) => Ok(
                                DiscoveryPolicyView {
                                    connectivity: ConnectivityView {
                                        mode,
                                        docker_network,
                                        add_host_gateway: false,
                                    },
                                    environment_allowlist,
                                    header_allowlist,
                                },
                            ),
                        },
                    },
                },
            },
        },
    }
}

pub open spec fn setting_list(
    settings: Seq<SettingView>,
    name: Seq<char>,
    rule: EntryRule,
) -> Result<Seq<Seq<char>>, ConfigErrorView> {
    match setting(settings, name) {
        Err(e) => Err(e),
        Ok(value) => list_of(name, value, rule),
    }
}

fn read_list(settings: &Settings, name: &'static str, rule: EntryRule) -> (r: Result<
    Vec<String>,
    ConfigError,
>)
    ensures
        list_agrees(r, setting_list(settings@, name@, rule)),
{
    match settings.lookup(name) {
        Err(e) => Err(e),
        Ok(value) => parse_list(name, value, rule),
    }
}

fn check_network(mode: ConnectivityMode, network: &Option<String>) -> (r: Result<(), ConfigError>)
    ensures
        agrees(r, network_checked(mode, opt_text(*network))),
{
    match (mode, network) {
        (ConnectivityMode::Native, Some(_)) => Err(
            ConfigError::Conflict(
                "FLINT_DOCKER_NETWORK requires FLINT_CONNECTIVITY_MODE=container",
            ),
        ),
        (ConnectivityMode::Container, None) => Err(ConfigError::Missing("FLINT_DOCKER_NETWORK")),
        (ConnectivityMode::Container, Some(name)) => {
            if valid_docker_network(name.as_str()) {
                Ok(())
            } else {
                Err(ConfigError::Invalid("FLINT_DOCKER_NETWORK"))
            }
        },
        (ConnectivityMode::Native, None) => Ok(()),
    }
}

pub fn runtime_policy_from_lookup(settings: &Settings) -> (r: Result<DiscoveryPolicy, ConfigError>)
    ensures
        agrees(r, policy_of(settings@)),
{
    let mode = match settings.lookup("FLINT_CONNECTIVITY_MODE") {
        Err(e) => {
            return Err(e);
        },
        Ok(None) => ConnectivityMode::Native,
        Ok(Some(name)) => {
            if same(name.as_str(), "native") {
                ConnectivityMode::Native
            } else if same(name.as_str(), "container") {
                ConnectivityMode::Container
            } else {
                return Err(ConfigError::Invalid("FLINT_CONNECTIVITY_MODE"));
            }
        },
    };
    let docker_network = match settings.lookup("FLINT_DOCKER_NETWORK") {
        Err(e) => {
            return Err(e);
        },
        Ok(network) => network,
    };
    match check_network(mode, &docker_network) {
        Err(e) => {
            return Err(e);
        },
        Ok(_) => {},
    }
    let environment_allowlist = match read_list(
        settings,
        "FLINT_RUNTIME_ENV_ALLOWLIST",
        EntryRule::EnvironmentName,
    ) {
        Err(e) => {
            return Err(e);
        },
        Ok(list) => list,
    };
    let header_allowlist = match read_list(
        settings,
        "FLINT_RUNTIME_HEADER_ALLOWLIST",
        EntryRule::CustomHeader,
    ) {
        Err(e) => {
            return Err(e);
        },
        Ok(list) => list,
    };
    Ok(
        DiscoveryPolicy {
            connectivity: Connectivity { mode, docker_network, add_host_gateway: false },
            environment_allowlist,
            header_allowlist,
        },
    )
}

// Where runtimes come from.

/// How images are searched for runtimes.
#[derive(Debug)]
pub struct DockerDiscoveryConfig {
    pub image_allowlist: Vec<String>,
    pub refresh_seconds: u64,
    pub policy: DiscoveryPolicy,
}

#[verifier::ext_equal]
pub struct DockerDiscoveryConfigView {
    pub image_allowlist: Seq<Seq<char>>,
    pub refresh_seconds: u64,
    pub policy: DiscoveryPolicyView,
}

impl View for DockerDiscoveryConfig {
    type V = DockerDiscoveryConfigView;

    open spec fn view(&self) -> DockerDiscoveryConfigView {
        DockerDiscoveryConfigView {
            image_allowlist: texts(self.image_allowlist@),
            refresh_seconds: self.refresh_seconds,
            policy: self.policy@,
        }
    }
}

/// A number of seconds from a setting, within limits.
pub open spec fn seconds_of(
    name: Seq<char>,
    value: Option<Seq<char>>,
    default_seconds: u64,
    maximum: u64,
) -> Result<u64, ConfigErrorView> {
    match value {
        None => Ok(default_seconds),
        Some(text) => match parsed_u64(text) {
            Ok(n) => if 1 <= n <= maximum {
                Ok(n)
            } else {
                Err(ConfigErrorView::Invalid(name))
            },
            Err(_) => Err(ConfigErrorView::Invalid(name)),
        },
    }
}

fn parse_seconds(
    name: &'static str,
    value: Option<String>,
    default_seconds: u64,
    maximum: u64,
) -> (r: Result<u64, ConfigError>)
    ensures
        agrees(r, seconds_of(name@, opt_text(value), default_seconds, maximum)),
{
    match value {
        None => Ok(default_seconds),
        Some(text) => match parse_u64(text.as_str()) {
            Ok(n) => {
                if 1 <= n && n <= maximum {
                    Ok(n)
                } else {
                    Err(ConfigError::Invalid(name))
                }
            },
            Err(_) => Err(ConfigError::Invalid(name)),
        },
    }
}

pub open spec fn seconds_setting(
    settings: Seq<SettingView>,
    name: Seq<char>,
    default_seconds: u64,
    maximum: u64,
) -> Result<u64, ConfigErrorView> {
    match setting(settings, name) {
        Err(e) => Err(e),
        Ok(value) => seconds_of(name, value, default_seconds, maximum),
    }
}

fn read_seconds(
    settings: &Settings,
    name: &'static str,
    default_seconds: u64,
    maximum: u64,
) -> (r: Result<u64, ConfigError>)
    ensures
        agrees(r, seconds_setting(settings@, name@, default_seconds, maximum)),
{
    match settings.lookup(name) {
        Err(e) => Err(e),
        Ok(value) => parse_seconds(name, value, default_seconds, maximum),
    }
}

pub open spec fn discovery_of(
    settings: Seq<SettingView>,
    policy: DiscoveryPolicyView,
) -> Result<DockerDiscoveryConfigView, ConfigErrorView> {
    match seconds_setting(
        settings,
        "FLINT_DISCOVERY_REFRESH_SECONDS"@,
        DEFAULT_DISCOVERY_REFRESH_SECONDS,
        MAX_DISCOVERY_REFRESH_SECONDS,
    ) {
        Err(e) => Err(e),
        Ok(refresh_seconds) => match setting_list(
            settings,
            "AGENTCORE_RUNTIME_IMAGES"@,
            EntryRule::AnyText,
        ) {
            Err(e) => Err(e),
            Ok(image_allowlist) => Ok(
                DockerDiscoveryConfigView { image_allowlist, refresh_seconds, policy },
            ),
        },
    }
}

impl DockerDiscoveryConfig {
    pub fn from_lookup(settings: &Settings, policy: DiscoveryPolicy) -> (r: Result<
        Self,
        ConfigError,
    >)
        ensures
            agrees(r, discovery_of(settings@, policy@)),
    {
        let refresh_seconds = match read_seconds(
            settings,
            "FLINT_DISCOVERY_REFRESH_SECONDS",
            DEFAULT_DISCOVERY_REFRESH_SECONDS,
            MAX_DISCOVERY_REFRESH_SECONDS,
        ) {
            Err(e) => {
                return Err(e);
            },
            Ok(seconds) => seconds,
        };
        match read_list(settings, "AGENTCORE_RUNTIME_IMAGES", EntryRule::AnyText) {
            Err(e) => Err(e),
            Ok(image_allowlist) => Ok(
                DockerDiscoveryConfig { image_allowlist, refresh_seconds, policy },
            ),
        }
    }
}

/// Where the catalog comes from: a file that is still to be read, or the images.
#[derive(Debug)]
pub enum RuntimeSourceConfig {
    Catalog { path: String, policy: DiscoveryPolicy },
    Docker(DockerDiscoveryConfig),
}

#[verifier::ext_equal]
pub enum RuntimeSourceConfigView {
    Catalog { path: Seq<char>, policy: DiscoveryPolicyView },
    Docker(DockerDiscoveryConfigView),
}

impl View for RuntimeSourceConfig {
    type V = RuntimeSourceConfigView;

    open spec fn view(&self) -> RuntimeSourceConfigView {
        match self {
            RuntimeSourceConfig::Catalog { path, policy } => RuntimeSourceConfigView::Catalog {
                path: path@,
                policy: policy@,
            },
            RuntimeSourceConfig::Docker(discovery) => RuntimeSourceConfigView::Docker(discovery@),
        }
    }
}

pub open spec fn discovery_only() -> ConfigErrorView {
    ConfigErrorView::Conflict(
        "Docker discovery configuration requires AGENTCORE_RUNTIME_SOURCE=docker"@,
    )
}

/// With a catalog file no setting of the search for images may be there.
pub open spec fn discovery_rejected(settings: Seq<SettingView>) -> Result<(), ConfigErrorView> {
    match setting(settings, "AGENTCORE_RUNTIME_IMAGES"@) {
        Err(e) => Err(e),
        Ok(Some(_)) => Err(discovery_only()),
        Ok(None) => match setting(settings, "FLINT_DISCOVERY_REFRESH_SECONDS"@) {
            Err(e) => Err(e),
            Ok(Some(_)) => Err(discovery_only()),
            Ok(None) => Ok(()),
        },
    }
}

pub fn reject_discovery_only_configuration(settings: &Settings) -> (r: Result<(), ConfigError>)
    ensures
        agrees(r, discovery_rejected(settings@)),
{
    match settings.lookup("AGENTCORE_RUNTIME_IMAGES") {
        Err(e) => Err(e),
        Ok(Some(_)) => Err(
            ConfigError::Conflict(
                "Docker discovery configuration requires AGENTCORE_RUNTIME_SOURCE=docker",
            ),
        ),
        Ok(None) => match settings.lookup("FLINT_DISCOVERY_REFRESH_SECONDS") {
            Err(e) => Err(e),
            Ok(Some(_)) => Err(
                ConfigError::Conflict(
                    "Docker discovery configuration requires AGENTCORE_RUNTIME_SOURCE=docker",
                ),
            ),
            Ok(None) => Ok(()),
        },
    }
}

pub open spec fn source_of(settings: Seq<SettingView>) -> Result<
    RuntimeSourceConfigView,
    ConfigErrorView,
> {
    match setting(settings, "AGENTCORE_RUNTIME_SOURCE"@) {
        Err(e) => Err(e),
        Ok(source) => match setting(settings, "AGENTCORE_RUNTIME_CATALOG"@) {
            Err(e) => Err(e),
            Ok(configured) => match policy_of(settings) {
                Err(e) => Err(e),
                Ok(policy) => if source == Some("catalog"@) {
                    match discovery_rejected(settings) {
                        Err(e) => Err(e),
                        Ok(_) => Ok(
                            RuntimeSourceConfigView::Catalog {
                                path: match configured {
                                    Some(path) => path,
                                    None => "config/runtime-catalog.example.json"@,
                                },
                                policy,
                            },
                        ),
                    }
                } else if source is None || source == Some("docker"@) {
                    if configured is Some {
                        Err(
                            ConfigErrorView::Conflict(
                                "AGENTCORE_RUNTIME_CATALOG requires AGENTCORE_RUNTIME_SOURCE=catalog"@,
                            ),
                        )
                    } else {
                        match discovery_of(settings, policy) {
                            Err(e) => Err(e),
                            Ok(discovery) => Ok(RuntimeSourceConfigView::Docker(discovery)),
                        }
                    }
                } else {
                    Err(ConfigErrorView::Invalid("AGENTCORE_RUNTIME_SOURCE"@))
                },
            },
        },
    }
}

fn read_source(settings: &Settings) -> (r: Result<RuntimeSourceConfig, ConfigError>)
    ensures
        agrees(r, source_of(settings@)),
{
    let source = match settings.lookup("AGENTCORE_RUNTIME_SOURCE") {
        Err(e) => {
            return Err(e);
        },
        Ok(Some(source)) => source,
        Ok(None) => "docker".to_owned(),
    };
    let configured = match settings.lookup("AGENTCORE_RUNTIME_CATALOG") {
        Err(e) => {
            return Err(e);
        },
        Ok(configured) => configured,
    };
    let policy = match runtime_policy_from_lookup(settings) {
        Err(e) => {
            return Err(e);
        },
        Ok(policy) => policy,
    };
    proof {
        reveal_strlit("docker");
        reveal_strlit("catalog");
        assert("docker"@.len() != "catalog"@.len());
    }
    if same(source.as_str(), "catalog") {
        match reject_discovery_only_configuration(settings) {
            Err(e) => Err(e),
            Ok(_) => Ok(
                RuntimeSourceConfig::Catalog {
                    path: match configured {
                        Some(path) => path,
                        None => DEFAULT_CATALOG_PATH.to_owned(),
                    },
                    policy,
                },
            ),
        }
    } else if same(source.as_str(), "docker") {
        if configured.is_some() {
            return Err(
                ConfigError::Conflict(
                    "AGENTCORE_RUNTIME_CATALOG requires AGENTCORE_RUNTIME_SOURCE=catalog",
                ),
            );
        }
        match DockerDiscoveryConfig::from_lookup(settings, policy) {
            Err(e) => Err(e),
            Ok(discovery) => Ok(RuntimeSourceConfig::Docker(discovery)),
        }
    } else {
        Err(ConfigError::Invalid("AGENTCORE_RUNTIME_SOURCE"))
    }
}

// Where state is kept.

/// A setting that is there, is text and is not blank.
pub open spec fn usable(settings: Seq<SettingView>, name: Seq<char>) -> Option<Seq<char>> {
    match setting(settings, name) {
        Ok(value) => value,
        Err(_) => None,
    }
}

fn read_usable(settings: &Settings, name: &'static str) -> (r: Option<String>)
    ensures
        opt_text(r) == usable(settings@, name@),
{
    match settings.lookup(name) {
        Ok(value) => value,
        Err(_) => None,
    }
}

/// The database of sessions: where it is said to be, else below the user's state directory. Where
/// the setting for it cannot be used, or nothing says where state belongs, there is no place for
/// it.
pub open spec fn state_path_of(settings: Seq<SettingView>) -> Option<Seq<char>> {
    match setting(settings, "FLINT_STATE_PATH"@) {
        Err(_) => None,
        Ok(Some(path)) => Some(path),
        Ok(None) => match usable(settings, "XDG_STATE_HOME"@) {
            Some(home) => Some(home + "/flint/flint.sqlite3"@),
            None => match usable(settings, "HOME"@) {
                Some(home) => Some(home + "/.local/state/flint/flint.sqlite3"@),
                None => None,
            },
        },
    }
}

fn read_state_path(settings: &Settings) -> (r: Option<String>)
    ensures
        opt_text(r) == state_path_of(settings@),
{
    match settings.lookup("FLINT_STATE_PATH") {
        Err(_) => {
            return None;
        },
        Ok(Some(path)) => {
            return Some(path);
        },
        Ok(None) => {},
    }
    match read_usable(settings, "XDG_STATE_HOME") {
        Some(home) => {
            return Some(cat2(home.as_str(), "/flint/flint.sqlite3"));
        },
        None => {},
    }
    match read_usable(settings, "HOME") {
        Some(home) => Some(cat2(home.as_str(), "/.local/state/flint/flint.sqlite3")),
        None => None,
    }
}

/// Where session volumes are mounted.
pub open spec fn mount_path_of(settings: Seq<SettingView>) -> Seq<char> {
    match usable(settings, "FLINT_SESSION_STORAGE_MOUNT_PATH"@) {
        Some(path) => path,
        None => "/workspace"@,
    }
}

fn read_mount_path(settings: &Settings) -> (r: String)
    ensures
        r@ == mount_path_of(settings@),
{
    match read_usable(settings, "FLINT_SESSION_STORAGE_MOUNT_PATH") {
        Some(path) => path,
        None => DEFAULT_SESSION_STORAGE_MOUNT_PATH.to_owned(),
    }
}

/// How often containers are asked for their health: a number of seconds from one up, else the
/// default.
pub open spec fn health_interval_of(settings: Seq<SettingView>) -> u64 {
    match usable(settings, "FLINT_HEALTH_CHECK_INTERVAL_SECONDS"@) {
        Some(text) => match parsed_u64(text) {
            Ok(n) => if n >= 1 {
                n
            } else {
                DEFAULT_HEALTH_CHECK_INTERVAL_SECONDS
            },
            Err(_) => DEFAULT_HEALTH_CHECK_INTERVAL_SECONDS,
        },
        None => DEFAULT_HEALTH_CHECK_INTERVAL_SECONDS,
    }
}

fn read_health_interval(settings: &Settings) -> (r: u64)
    ensures
        r == health_interval_of(settings@),
{
    match read_usable(settings, "FLINT_HEALTH_CHECK_INTERVAL_SECONDS") {
        Some(text) => match parse_u64(text.as_str()) {
            Ok(n) => if n >= 1 {
                n
            } else {
                DEFAULT_HEALTH_CHECK_INTERVAL_SECONDS
            },
            Err(_) => DEFAULT_HEALTH_CHECK_INTERVAL_SECONDS,
        },
        None => DEFAULT_HEALTH_CHECK_INTERVAL_SECONDS,
    }
}

/// All settings of the gateway.
#[derive(Debug)]
pub struct RuntimeConfig {
    pub runtime_owner: String,
    pub runtime_source: RuntimeSourceConfig,
    /// Where sessions are recorded, as far as that is known.
    pub state_path: Option<String>,
    pub session_storage_mount_path: String,
    pub health_check_interval_seconds: u64,
}

#[verifier::ext_equal]
pub struct RuntimeConfigView {
    pub runtime_owner: Seq<char>,
    pub runtime_source: RuntimeSourceConfigView,
    pub state_path: Option<Seq<char>>,
    pub session_storage_mount_path: Seq<char>,
    pub health_check_interval_seconds: u64,
}

impl View for RuntimeConfig {
    type V = RuntimeConfigView;

    open spec fn view(&self) -> RuntimeConfigView {
        RuntimeConfigView {
            runtime_owner: self.runtime_owner@,
            runtime_source: self.runtime_source@,
            state_path: opt_text(self.state_path),
            session_storage_mount_path: self.session_storage_mount_path@,
            health_check_interval_seconds: self.health_check_interval_seconds,
        }
    }
}

pub open spec fn config_checked(config: RuntimeConfigView) -> Result<(), ConfigErrorView> {
    if is_blank(config.runtime_owner) {
        Err(ConfigErrorView::Invalid("AGENTCORE_RUNTIME_OWNER"@))
    } else {
        Ok(())
    }
}

pub open spec fn config_of(settings: Seq<SettingView>) -> Result<
    RuntimeConfigView,
    ConfigErrorView,
> {
    match setting(settings, "AGENTCORE_RUNTIME_OWNER"@) {
        Err(e) => Err(e),
        Ok(owner) => match source_of(settings) {
            Err(e) => Err(e),
            Ok(runtime_source) => {
                let config = RuntimeConfigView {
                    runtime_owner: match owner {
                        Some(owner) => owner,
                        None => "flint"@,
                    },
                    runtime_source,
                    state_path: state_path_of(settings),
                    session_storage_mount_path: mount_path_of(settings),
                    health_check_interval_seconds: health_interval_of(settings),
                };
                match config_checked(config) {
                    Err(e) => Err(e),
                    Ok(_) => Ok(config),
                }
            },
        },
    }
}

impl RuntimeConfig {
    pub fn validate(&self) -> (r: Result<(), ConfigError>)
        ensures
            agrees(r, config_checked(self@)),
    {
        if trim(self.runtime_owner.as_str()).as_str().is_empty() {
            Err(ConfigError::Invalid("AGENTCORE_RUNTIME_OWNER"))
        } else {
            Ok(())
        }
    }

    pub fn from_lookup(settings: &Settings) -> (r: Result<Self, ConfigError>)
        ensures
            agrees(r, config_of(settings@)),
    {
        let runtime_owner = match settings.lookup("AGENTCORE_RUNTIME_OWNER") {
            Err(e) => {
                return Err(e);
            },
            Ok(Some(owner)) => owner,
            Ok(None) => DEFAULT_RUNTIME_OWNER.to_owned(),
        };
        let runtime_source = match read_source(settings) {
            Err(e) => {
                return Err(e);
            },
            Ok(source) => source,
        };
        let config = RuntimeConfig {
            runtime_owner,
            runtime_source,
            state_path: read_state_path(settings),
            session_storage_mount_path: read_mount_path(settings),
            health_check_interval_seconds: read_health_interval(settings),
        };
        match config.validate() {
            Err(e) => Err(e),
            Ok(_) => Ok(config),
        }
    }
}

// Laws.

/// Only the owner, the source of runtimes and what belongs to that source can be refused. All else
/// has a default, or is found missing where it is used.
pub proof fn law_only_owner_and_source_can_be_refused(settings: Seq<SettingView>)
    ensures
        config_of(settings) is Ok <==> setting(settings, "AGENTCORE_RUNTIME_OWNER"@) is Ok
            && source_of(settings) is Ok,
        (find_setting(settings, "AGENTCORE_RUNTIME_OWNER"@) is None && config_of(settings) is Ok)
            ==> config_of(settings)->Ok_0.runtime_owner == "flint"@,
{
    reveal_strlit("flint");
    assert(trimmed("flint"@) == "flint"@) by {
        reveal_with_fuel(crate::text::trim_start, 2);
        reveal_with_fuel(crate::text::trim_end, 2);
    }
}

/// Settings that are accepted name a network exactly where containers are reached over one, and
/// never give containers access to the host.
pub proof fn law_container_mode_has_a_network(settings: Seq<SettingView>)
    requires
        policy_of(settings) is Ok,
    ensures
        ({
            let connectivity = policy_of(settings)->Ok_0.connectivity;
            &&& connectivity.mode == ConnectivityMode::Container
                <==> connectivity.docker_network is Some
            &&& connectivity.docker_network matches Some(name) ==> is_docker_network(name)
            &&& !connectivity.add_host_gateway
        }),
{
}

/// A list that is accepted is sorted, and holds exactly the entries that were given.
pub proof fn law_lists_are_sorted(name: Seq<char>, value: Seq<char>, rule: EntryRule)
    requires
        list_of(name, Some(value), rule) is Ok,
    ensures
        ({
            let list = list_of(name, Some(value), rule)->Ok_0;
            let entries = all_trimmed(split(value, ','));
            &&& list.to_multiset() == entries.to_multiset()
            &&& forall|i: int, j: int|
                0 <= i < j < list.len() ==> crate::order::text_le(
                    #[trigger] list[i],
                    #[trigger] list[j],
                )
        }),
{
    let entries = all_trimmed(split(value, ','));
    let leq = |a: Seq<char>, b: Seq<char>| <String as crate::order::Ranked>::rank_le(a, b);
    <String as crate::order::Ranked>::lemma_rank_total();
    entries.lemma_sort_by_ensures(leq);
    let list = sorted(entries);
    assert forall|i: int, j: int| 0 <= i < j < list.len() implies crate::order::text_le(
        #[trigger] list[i],
        #[trigger] list[j],
    ) by {
        assert(leq(list[i], list[j]));
    }
}

/// No header that carries credentials, or that the gateway sets itself, can be on the allowlist.
pub proof fn law_reserved_headers_are_never_allowed(settings: Seq<SettingView>, name: Seq<char>)
    requires
        policy_of(settings) is Ok,
        is_reserved_header(name),
    ensures
        !policy_of(settings)->Ok_0.header_allowlist.contains(name),
{
    broadcast use vstd::seq_lib::group_to_multiset_ensures;

    let list = policy_of(settings)->Ok_0.header_allowlist;
    if list.contains(name) {
        let value = setting(settings, "FLINT_RUNTIME_HEADER_ALLOWLIST"@)->Ok_0->Some_0;
        law_lists_are_sorted(
            "FLINT_RUNTIME_HEADER_ALLOWLIST"@,
            value,
            EntryRule::CustomHeader,
        );
        let entries = all_trimmed(split(value, ','));
        assert(list.to_multiset().count(name) > 0);
        assert(entries.contains(name));
        let k = choose|k: int| 0 <= k < entries.len() && entries[k] == name;
        assert(entry_ok(EntryRule::CustomHeader, entries[k]));
    }
}

} // verus!
