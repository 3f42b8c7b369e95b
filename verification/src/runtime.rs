//! What is known of one deployed runtime: its image, protocol, policies and limits.

use vstd::prelude::*;

use crate::text::{clone_opt, clone_texts, opt_text, texts, views};

verus! {

/// The region that unsigned requests belong to.
pub open spec fn default_region() -> Seq<char> {
    "us-east-1"@
}

/// The account that unsigned requests belong to.
pub open spec fn default_account_id() -> Seq<char> {
    "000000000000"@
}

/// The one qualifier that every runtime has.
pub open spec fn default_qualifier() -> Seq<char> {
    "DEFAULT"@
}

pub const DEFAULT_REGION: &'static str = "us-east-1";

pub const DEFAULT_ACCOUNT_ID: &'static str = "000000000000";

pub const DEFAULT_QUALIFIER: &'static str = "DEFAULT";

/// The region and account that a request acts for.
#[derive(Debug, PartialEq, Eq)]
pub struct LocalIdentity {
    pub region: String,
    pub account_id: String,
}

#[verifier::ext_equal]
pub struct LocalIdentityView {
    pub region: Seq<char>,
    pub account_id: Seq<char>,
}

impl View for LocalIdentity {
    type V = LocalIdentityView;

    open spec fn view(&self) -> LocalIdentityView {
        LocalIdentityView { region: self.region@, account_id: self.account_id@ }
    }
}

impl Clone for LocalIdentity {
    fn clone(&self) -> (r: Self)
        ensures
            r@ == self@,
    {
        LocalIdentity { region: self.region.clone(), account_id: self.account_id.clone() }
    }
}

pub open spec fn default_identity() -> LocalIdentityView {
    LocalIdentityView { region: default_region(), account_id: default_account_id() }
}

impl Default for LocalIdentity {
    fn default() -> (r: Self)
        ensures
            r@ == default_identity(),
    {
        LocalIdentity {
            region: DEFAULT_REGION.to_owned(),
            account_id: DEFAULT_ACCOUNT_ID.to_owned(),
        }
    }
}

/// The protocol that an agent container speaks.
#[derive(Clone, Copy, Debug, PartialEq, Eq, Structural)]
pub enum Protocol {
    Http,
    Mcp,
    A2a,
    AgUi,
}

impl View for Protocol {
    type V = Protocol;

    open spec fn view(&self) -> Protocol {
        *self
    }
}

impl Protocol {
    /// The port on which an agent listens.
    pub open spec fn spec_port(self) -> u16 {
        match self {
            Protocol::Http | Protocol::AgUi => 8080,
            Protocol::Mcp => 8000,
            Protocol::A2a => 9000,
        }
    }

    pub open spec fn spec_invocation_path(self) -> Seq<char> {
        match self {
            Protocol::Http | Protocol::AgUi => "/invocations"@,
            Protocol::Mcp => "/mcp"@,
            Protocol::A2a => "/"@,
        }
    }

    pub open spec fn spec_ping_path(self) -> Option<Seq<char>> {
        match self {
            Protocol::Mcp => None,
            _ => Some("/ping"@),
        }
    }

    pub open spec fn spec_agent_card_path(self) -> Option<Seq<char>> {
        match self {
            Protocol::A2a => Some("/.well-known/agent-card.json"@),
            _ => None,
        }
    }

    pub fn port(self) -> (r: u16)
        ensures
            r == self.spec_port(),
    {
        match self {
            Protocol::Http | Protocol::AgUi => 8080,
            Protocol::Mcp => 8000,
            Protocol::A2a => 9000,
        }
    }

    pub fn invocation_path(self) -> (r: &'static str)
        ensures
            r@ == self.spec_invocation_path(),
    {
        match self {
            Protocol::Http | Protocol::AgUi => "/invocations",
            Protocol::Mcp => "/mcp",
            Protocol::A2a => "/",
        }
    }

    pub fn ping_path(self) -> (r: Option<&'static str>)
        ensures
            match (r, self.spec_ping_path()) {
                (Some(a), Some(b)) => a@ == b,
                (None, None) => true,
                _ => false,
            },
    {
        match self {
            Protocol::Http | Protocol::A2a | Protocol::AgUi => Some("/ping"),
            Protocol::Mcp => None,
        }
    }

    pub fn agent_card_path(self) -> (r: Option<&'static str>)
        ensures
            match (r, self.spec_agent_card_path()) {
                (Some(a), Some(b)) => a@ == b,
                (None, None) => true,
                _ => false,
            },
    {
        match self {
            Protocol::A2a => Some("/.well-known/agent-card.json"),
            Protocol::Http | Protocol::Mcp | Protocol::AgUi => None,
        }
    }
}

/// What a session container may use.
#[derive(Clone, Copy, Debug, PartialEq, Eq, Structural)]
pub struct ResourcePolicy {
    pub memory_bytes: i64,
    pub nano_cpus: i64,
    pub pids_limit: i64,
    pub read_only_root_filesystem: bool,
    pub workspace_size_bytes: u64,
    pub workspace_no_exec: bool,
}

/// How commands run inside a session container.
#[derive(Debug)]
pub struct CommandPolicy {
    pub enabled: bool,
    pub shell: Vec<String>,
    pub max_concurrency: usize,
    pub timeout_seconds: u64,
    pub max_output_bytes: usize,
}

#[verifier::ext_equal]
pub struct CommandPolicyView {
    pub enabled: bool,
    pub shell: Seq<Seq<char>>,
    pub max_concurrency: usize,
    pub timeout_seconds: u64,
    pub max_output_bytes: usize,
}

impl View for CommandPolicy {
    type V = CommandPolicyView;

    open spec fn view(&self) -> CommandPolicyView {
        CommandPolicyView {
            enabled: self.enabled,
            shell: texts(self.shell@),
            max_concurrency: self.max_concurrency,
            timeout_seconds: self.timeout_seconds,
            max_output_bytes: self.max_output_bytes,
        }
    }
}

impl Clone for CommandPolicy {
    fn clone(&self) -> (r: Self)
        ensures
            r@ == self@,
    {
        CommandPolicy {
            enabled: self.enabled,
            shell: clone_texts(&self.shell),
            max_concurrency: self.max_concurrency,
            timeout_seconds: self.timeout_seconds,
            max_output_bytes: self.max_output_bytes,
        }
    }
}

/// How long a session container starts, idles and lives.
#[derive(Clone, Copy, Debug, PartialEq, Eq, Structural)]
pub struct LifecyclePolicy {
    pub startup_timeout_seconds: u64,
    pub idle_timeout_seconds: u64,
    pub maximum_lifetime_seconds: u64,
}

impl View for LifecyclePolicy {
    type V = LifecyclePolicy;

    open spec fn view(&self) -> LifecyclePolicy {
        *self
    }
}

#[derive(Clone, Copy, Debug, PartialEq, Eq, Structural)]
pub enum AuthenticationMode {
    Permissive,
    Signature,
    Policy,
}

/// A key pair that may sign requests.
pub struct ResolvedCredential {
    pub access_key_id: String,
    pub secret_access_key: String,
    pub session_token: Option<String>,
    pub principal_arn: Option<String>,
}

#[verifier::ext_equal]
pub struct ResolvedCredentialView {
    pub access_key_id: Seq<char>,
    pub secret_access_key: Seq<char>,
    pub session_token: Option<Seq<char>>,
    pub principal_arn: Option<Seq<char>>,
}

impl View for ResolvedCredential {
    type V = ResolvedCredentialView;

    open spec fn view(&self) -> ResolvedCredentialView {
        ResolvedCredentialView {
            access_key_id: self.access_key_id@,
            secret_access_key: self.secret_access_key@,
            session_token: opt_text(self.session_token),
            principal_arn: opt_text(self.principal_arn),
        }
    }
}

impl Clone for ResolvedCredential {
    fn clone(&self) -> (r: Self)
        ensures
            r@ == self@,
    {
        ResolvedCredential {
            access_key_id: self.access_key_id.clone(),
            secret_access_key: self.secret_access_key.clone(),
            session_token: clone_opt(&self.session_token),
            principal_arn: clone_opt(&self.principal_arn),
        }
    }
}

pub struct ResolvedAuthenticationPolicy {
    pub mode: AuthenticationMode,
    pub allowed_clock_skew_seconds: u64,
    pub credentials: Vec<ResolvedCredential>,
}

#[verifier::ext_equal]
pub struct ResolvedAuthenticationPolicyView {
    pub mode: AuthenticationMode,
    pub allowed_clock_skew_seconds: u64,
    pub credentials: Seq<ResolvedCredentialView>,
}

impl View for ResolvedAuthenticationPolicy {
    type V = ResolvedAuthenticationPolicyView;

    open spec fn view(&self) -> ResolvedAuthenticationPolicyView {
        ResolvedAuthenticationPolicyView {
            mode: self.mode,
            allowed_clock_skew_seconds: self.allowed_clock_skew_seconds,
            credentials: views(self.credentials@),
        }
    }
}

impl Clone for ResolvedAuthenticationPolicy {
    fn clone(&self) -> (r: Self)
        ensures
            r@ == self@,
    {
        let credentials = self.credentials.clone();
        proof {
            assert(views(credentials@) =~= views(self.credentials@));
        }
        ResolvedAuthenticationPolicy {
            mode: self.mode,
            allowed_clock_skew_seconds: self.allowed_clock_skew_seconds,
            credentials,
        }
    }
}

#[derive(Clone, Copy, Debug, PartialEq, Eq, Structural)]
pub enum PolicyEffect {
    Allow,
    Deny,
}

/// The values that one request key may have under a condition operator.
#[derive(Debug)]
pub struct ConditionKey {
    pub key: String,
    pub expected: Vec<String>,
}

#[verifier::ext_equal]
pub struct ConditionKeyView {
    pub key: Seq<char>,
    pub expected: Seq<Seq<char>>,
}

impl View for ConditionKey {
    type V = ConditionKeyView;

    open spec fn view(&self) -> ConditionKeyView {
        ConditionKeyView { key: self.key@, expected: texts(self.expected@) }
    }
}

impl Clone for ConditionKey {
    fn clone(&self) -> (r: Self)
        ensures
            r@ == self@,
    {
        ConditionKey { key: self.key.clone(), expected: clone_texts(&self.expected) }
    }
}

/// All keys that a statement tests with one operator.
#[derive(Debug)]
pub struct Condition {
    pub operator: String,
    pub keys: Vec<ConditionKey>,
}

#[verifier::ext_equal]
pub struct ConditionView {
    pub operator: Seq<char>,
    pub keys: Seq<ConditionKeyView>,
}

impl View for Condition {
    type V = ConditionView;

    open spec fn view(&self) -> ConditionView {
        ConditionView { operator: self.operator@, keys: views(self.keys@) }
    }
}

impl Clone for Condition {
    fn clone(&self) -> (r: Self)
        ensures
            r@ == self@,
    {
        let keys = self.keys.clone();
        proof {
            assert(views(keys@) =~= views(self.keys@));
        }
        Condition { operator: self.operator.clone(), keys }
    }
}

/// One rule of an authorization policy.
#[derive(Debug)]
pub struct PolicyStatement {
    pub effect: PolicyEffect,
    pub actions: Vec<String>,
    pub resources: Vec<String>,
    pub principals: Vec<String>,
    pub conditions: Vec<Condition>,
}

#[verifier::ext_equal]
pub struct PolicyStatementView {
    pub effect: PolicyEffect,
    pub actions: Seq<Seq<char>>,
    pub resources: Seq<Seq<char>>,
    pub principals: Seq<Seq<char>>,
    pub conditions: Seq<ConditionView>,
}

impl View for PolicyStatement {
    type V = PolicyStatementView;

    open spec fn view(&self) -> PolicyStatementView {
        PolicyStatementView {
            effect: self.effect,
            actions: texts(self.actions@),
            resources: texts(self.resources@),
            principals: texts(self.principals@),
            conditions: views(self.conditions@),
        }
    }
}

impl Clone for PolicyStatement {
    fn clone(&self) -> (r: Self)
        ensures
            r@ == self@,
    {
        let conditions = self.conditions.clone();
        proof {
            assert(views(conditions@) =~= views(self.conditions@));
        }
        PolicyStatement {
            effect: self.effect,
            actions: clone_texts(&self.actions),
            resources: clone_texts(&self.resources),
            principals: clone_texts(&self.principals),
            conditions,
        }
    }
}

/// The statements that belong to callers and to the runtime itself.
#[derive(Debug)]
pub struct AuthorizationPolicy {
    pub identity_statements: Vec<PolicyStatement>,
    pub resource_statements: Vec<PolicyStatement>,
}

#[verifier::ext_equal]
pub struct AuthorizationPolicyView {
    pub identity_statements: Seq<PolicyStatementView>,
    pub resource_statements: Seq<PolicyStatementView>,
}

impl View for AuthorizationPolicy {
    type V = AuthorizationPolicyView;

    open spec fn view(&self) -> AuthorizationPolicyView {
        AuthorizationPolicyView {
            identity_statements: views(self.identity_statements@),
            resource_statements: views(self.resource_statements@),
        }
    }
}

impl Clone for AuthorizationPolicy {
    fn clone(&self) -> (r: Self)
        ensures
            r@ == self@,
    {
        let identity_statements = self.identity_statements.clone();
        let resource_statements = self.resource_statements.clone();
        proof {
            assert(views(identity_statements@) =~= views(self.identity_statements@));
            assert(views(resource_statements@) =~= views(self.resource_statements@));
        }
        AuthorizationPolicy { identity_statements, resource_statements }
    }
}

#[derive(Clone, Copy, Debug, PartialEq, Eq, Structural)]
pub enum ConnectivityMode {
    Native,
    Container,
}

impl ConnectivityMode {
    pub open spec fn spec_name(self) -> Seq<char> {
        match self {
            ConnectivityMode::Native => "Native"@,
            ConnectivityMode::Container => "Container"@,
        }
    }

    pub fn name(self) -> (r: &'static str)
        ensures
            r@ == self.spec_name(),
    {
        match self {
            ConnectivityMode::Native => "Native",
            ConnectivityMode::Container => "Container",
        }
    }
}

/// How the gateway reaches session containers.
#[derive(Debug)]
pub struct Connectivity {
    pub mode: ConnectivityMode,
    pub docker_network: Option<String>,
    pub add_host_gateway: bool,
}

#[verifier::ext_equal]
pub struct ConnectivityView {
    pub mode: ConnectivityMode,
    pub docker_network: Option<Seq<char>>,
    pub add_host_gateway: bool,
}

impl View for Connectivity {
    type V = ConnectivityView;

    open spec fn view(&self) -> ConnectivityView {
        ConnectivityView {
            mode: self.mode,
            docker_network: opt_text(self.docker_network),
            add_host_gateway: self.add_host_gateway,
        }
    }
}

impl Clone for Connectivity {
    fn clone(&self) -> (r: Self)
        ensures
            r@ == self@,
    {
        Connectivity {
            mode: self.mode,
            docker_network: clone_opt(&self.docker_network),
            add_host_gateway: self.add_host_gateway,
        }
    }
}

/// How much the gateway passes on, and for how long.
#[derive(Clone, Copy, Debug, PartialEq, Eq, Structural)]
pub struct ProxyLimits {
    pub max_request_bytes: usize,
    pub max_response_bytes: usize,
    pub max_chunk_bytes: usize,
    pub max_duration_seconds: u64,
}

/// A variable that the gateway hands to a session container.
pub struct ResolvedEnvironmentVariable {
    pub name: String,
    pub value: String,
    pub secret: bool,
}

#[verifier::ext_equal]
pub struct ResolvedEnvironmentVariableView {
    pub name: Seq<char>,
    pub value: Seq<char>,
    pub secret: bool,
}

impl View for ResolvedEnvironmentVariable {
    type V = ResolvedEnvironmentVariableView;

    open spec fn view(&self) -> ResolvedEnvironmentVariableView {
        ResolvedEnvironmentVariableView {
            name: self.name@,
            value: self.value@,
            secret: self.secret,
        }
    }
}

impl Clone for ResolvedEnvironmentVariable {
    fn clone(&self) -> (r: Self)
        ensures
            r@ == self@,
    {
        ResolvedEnvironmentVariable {
            name: self.name.clone(),
            value: self.value.clone(),
            secret: self.secret,
        }
    }
}

/// The views of an optional list of strings.
pub open spec fn opt_texts(value: Option<Vec<String>>) -> Option<Seq<Seq<char>>> {
    match value {
        Some(list) => Some(texts(list@)),
        None => None,
    }
}

pub fn clone_opt_texts(value: &Option<Vec<String>>) -> (r: Option<Vec<String>>)
    ensures
        opt_texts(r) == opt_texts(*value),
{
    match value {
        Some(list) => Some(clone_texts(list)),
        None => None,
    }
}

/// A runtime with everything that serving it needs.
pub struct ResolvedRuntime {
    pub catalog_generation: String,
    pub runtime_arn: String,
    pub runtime_id: String,
    pub account_id: String,
    pub qualifier: String,
    pub image: String,
    pub image_id: String,
    pub image_platform: String,
    pub image_entrypoint: Option<Vec<String>>,
    pub image_command: Option<Vec<String>>,
    pub image_environment: Vec<String>,
    pub image_working_directory: Option<String>,
    pub protocol: Protocol,
    pub environment: Vec<ResolvedEnvironmentVariable>,
    pub environment_warnings: Vec<String>,
    pub resources: ResourcePolicy,
    pub command: CommandPolicy,
    pub lifecycle: LifecyclePolicy,
    pub allowed_custom_headers: Vec<String>,
    pub authentication: ResolvedAuthenticationPolicy,
    pub policy: AuthorizationPolicy,
    pub connectivity: Connectivity,
    pub limits: ProxyLimits,
}

#[verifier::ext_equal]
pub struct ResolvedRuntimeView {
    pub catalog_generation: Seq<char>,
    pub runtime_arn: Seq<char>,
    pub runtime_id: Seq<char>,
    pub account_id: Seq<char>,
    pub qualifier: Seq<char>,
    pub image: Seq<char>,
    pub image_id: Seq<char>,
    pub image_platform: Seq<char>,
    pub image_entrypoint: Option<Seq<Seq<char>>>,
    pub image_command: Option<Seq<Seq<char>>>,
    pub image_environment: Seq<Seq<char>>,
    pub image_working_directory: Option<Seq<char>>,
    pub protocol: Protocol,
    pub environment: Seq<ResolvedEnvironmentVariableView>,
    pub environment_warnings: Seq<Seq<char>>,
    pub resources: ResourcePolicy,
    pub command: CommandPolicyView,
    pub lifecycle: LifecyclePolicy,
    pub allowed_custom_headers: Seq<Seq<char>>,
    pub authentication: ResolvedAuthenticationPolicyView,
    pub policy: AuthorizationPolicyView,
    pub connectivity: ConnectivityView,
    pub limits: ProxyLimits,
}

impl View for ResolvedRuntime {
    type V = ResolvedRuntimeView;

    open spec fn view(&self) -> ResolvedRuntimeView {
        ResolvedRuntimeView {
            catalog_generation: self.catalog_generation@,
            runtime_arn: self.runtime_arn@,
            runtime_id: self.runtime_id@,
            account_id: self.account_id@,
            qualifier: self.qualifier@,
            image: self.image@,
            image_id: self.image_id@,
            image_platform: self.image_platform@,
            image_entrypoint: opt_texts(self.image_entrypoint),
            image_command: opt_texts(self.image_command),
            image_environment: texts(self.image_environment@),
            image_working_directory: opt_text(self.image_working_directory),
            protocol: self.protocol,
            environment: views(self.environment@),
            environment_warnings: texts(self.environment_warnings@),
            resources: self.resources,
            command: self.command@,
            lifecycle: self.lifecycle,
            allowed_custom_headers: texts(self.allowed_custom_headers@),
            authentication: self.authentication@,
            policy: self.policy@,
            connectivity: self.connectivity@,
            limits: self.limits,
        }
    }
}

impl Clone for ResolvedRuntime {
    fn clone(&self) -> (r: Self)
        ensures
            r@ == self@,
    {
        let environment = self.environment.clone();
        proof {
            assert(views(environment@) =~= views(self.environment@));
        }
        ResolvedRuntime {
            catalog_generation: self.catalog_generation.clone(),
            runtime_arn: self.runtime_arn.clone(),
            runtime_id: self.runtime_id.clone(),
            account_id: self.account_id.clone(),
            qualifier: self.qualifier.clone(),
            image: self.image.clone(),
            image_id: self.image_id.clone(),
            image_platform: self.image_platform.clone(),
            image_entrypoint: clone_opt_texts(&self.image_entrypoint),
            image_command: clone_opt_texts(&self.image_command),
            image_environment: clone_texts(&self.image_environment),
            image_working_directory: clone_opt(&self.image_working_directory),
            protocol: self.protocol,
            environment,
            environment_warnings: clone_texts(&self.environment_warnings),
            resources: self.resources,
            command: self.command.clone(),
            lifecycle: self.lifecycle,
            allowed_custom_headers: clone_texts(&self.allowed_custom_headers),
            authentication: self.authentication.clone(),
            policy: self.policy.clone(),
            connectivity: self.connectivity.clone(),
            limits: self.limits,
        }
    }
}

} // verus!
