//! What an image declares about the runtime in it.

use vstd::prelude::*;

use crate::labels::{lookup, Labels};
use crate::number::{decimal, decimal_text, parse_u64, parsed_u64};
use crate::runtime::{LifecyclePolicy, Protocol};
use crate::text::{
    agrees, cat2, cat3, cat4, cat6, char_is_alnum, chars_of, clone_texts, contains_text, is_alnum,
    is_alpha, is_space, lacks, same, split, split_text, texts, trim, trimmed,
};

verus! {

pub const RUNTIME_NAME_LABEL: &'static str = "ai.ameba.flint.runtime.name";

pub const RUNTIME_PROTOCOL_LABEL: &'static str = "ai.ameba.flint.runtime.protocol";

pub const RUNTIME_ENVIRONMENT_VARIABLES_LABEL: &'static str =
    "ai.ameba.flint.runtime.environment-variables";

pub const RUNTIME_IDLE_TIMEOUT_LABEL: &'static str =
    "ai.ameba.flint.runtime.lifecycle.idle-runtime-session-timeout";

pub const RUNTIME_MAX_LIFETIME_LABEL: &'static str =
    "ai.ameba.flint.runtime.lifecycle.max-lifetime";

pub const DEFAULT_IDLE_RUNTIME_SESSION_TIMEOUT: u64 = 900;

pub const DEFAULT_MAX_LIFETIME: u64 = 28_800;

pub const MIN_LIFECYCLE_SECONDS: u64 = 60;

pub const MAX_MICROVM_LIFECYCLE_SECONDS: u64 = 28_800;

/// The lifecycle that a declaration asks for, as far as it does.
#[derive(Clone, Copy, Debug, PartialEq, Eq, Structural)]
pub struct LifecycleConfigurationDocument {
    pub idle_runtime_session_timeout: Option<u64>,
    pub max_lifetime: Option<u64>,
}

/// A runtime as its image declares it.
#[derive(Debug)]
pub struct RuntimeDescriptor {
    pub name: String,
    pub protocol: Protocol,
    pub environment_variables: Vec<String>,
    pub lifecycle_configuration: LifecycleConfigurationDocument,
}

#[verifier::ext_equal]
pub struct RuntimeDescriptorView {
    pub name: Seq<char>,
    pub protocol: Protocol,
    pub environment_variables: Seq<Seq<char>>,
    pub lifecycle_configuration: LifecycleConfigurationDocument,
}

impl View for RuntimeDescriptor {
    type V = RuntimeDescriptorView;

    open spec fn view(&self) -> RuntimeDescriptorView {
        RuntimeDescriptorView {
            name: self.name@,
            protocol: self.protocol,
            environment_variables: texts(self.environment_variables@),
            lifecycle_configuration: self.lifecycle_configuration,
        }
    }
}

impl Clone for RuntimeDescriptor {
    fn clone(&self) -> (r: Self)
        ensures
            r@ == self@,
    {
        RuntimeDescriptor {
            name: self.name.clone(),
            protocol: self.protocol,
            environment_variables: clone_texts(&self.environment_variables),
            lifecycle_configuration: self.lifecycle_configuration,
        }
    }
}

/// Why the labels of an image declare no runtime.
#[derive(Debug)]
pub enum RuntimeDescriptorError {
    MissingLabel { label: &'static str },
    InvalidLabel { label: &'static str, value: String, reason: String },
    Validation(String),
}

#[verifier::ext_equal]
pub enum RuntimeDescriptorErrorView {
    MissingLabel { label: Seq<char> },
    InvalidLabel { label: Seq<char>, value: Seq<char>, reason: Seq<char> },
    Validation(Seq<char>),
}

impl View for RuntimeDescriptorError {
    type V = RuntimeDescriptorErrorView;

    open spec fn view(&self) -> RuntimeDescriptorErrorView {
        match self {
            RuntimeDescriptorError::MissingLabel { label } =>
                RuntimeDescriptorErrorView::MissingLabel { label: label@ },
            RuntimeDescriptorError::InvalidLabel { label, value, reason } =>
                RuntimeDescriptorErrorView::InvalidLabel {
                label: label@,
                value: value@,
                reason: reason@,
            },
            RuntimeDescriptorError::Validation(message) => RuntimeDescriptorErrorView::Validation(
                message@,
            ),
        }
    }
}

/// A text in double quotes, with what cannot be shown plainly escaped.
pub uninterp spec fn quoted(text: Seq<char>) -> Seq<char>;

/// The `Debug` form of a `str` in `std`.
#[verifier::external_body]
pub(crate) fn quote(text: &str) -> (r: String)
    ensures
        r@ == quoted(text@),
{
    format!("{text:?}")
}

impl RuntimeDescriptorErrorView {
    pub open spec fn text(self) -> Seq<char> {
        match self {
            RuntimeDescriptorErrorView::MissingLabel { label } => "missing runtime label "@ + label,
            RuntimeDescriptorErrorView::InvalidLabel { label, value, reason } =>
                "invalid runtime label "@ + label + " value "@ + quoted(value) + ": "@ + reason,
            RuntimeDescriptorErrorView::Validation(message) => "invalid runtime descriptor: "@
                + message,
        }
    }
}

impl RuntimeDescriptorError {
    pub fn message(&self) -> (r: String)
        ensures
            r@ == self@.text(),
    {
        match self {
            RuntimeDescriptorError::MissingLabel { label } => cat2("missing runtime label ", label),
            RuntimeDescriptorError::InvalidLabel { label, value, reason } => {
                let shown = quote(value.as_str());
                cat6(
                    "invalid runtime label ",
                    label,
                    " value ",
                    shown.as_str(),
                    ": ",
                    reason.as_str(),
                )
            },
            RuntimeDescriptorError::Validation(message) => cat2(
                "invalid runtime descriptor: ",
                message.as_str(),
            ),
        }
    }
}

// Names.

/// One to 48 letters, digits, `_` and `-`, with a letter in front.
pub open spec fn is_runtime_id(s: Seq<char>) -> bool {
    &&& 1 <= s.len() <= 48
    &&& is_alpha(s[0])
    &&& forall|i: int| 0 <= i < s.len() ==> is_alnum(#[trigger] s[i]) || s[i] == '_' || s[i] == '-'
}

pub fn valid_runtime_id(value: &str) -> (r: bool)
    ensures
        r == is_runtime_id(value@),
{
    let chars = chars_of(value);
    if chars.len() < 1 || chars.len() > 48 {
        return false;
    }
    if !(crate::text::char_is_lower(chars[0]) || crate::text::char_is_upper(chars[0])) {
        return false;
    }
    for i in 0..chars.len()
        invariant
            chars@ == value@,
            forall|k: int|
                0 <= k < i ==> is_alnum(#[trigger] value@[k]) || value@[k] == '_' || value@[k]
                    == '-',
    {
        let c = chars[i];
        if !(char_is_alnum(c) || c == '_' || c == '-') {
            proof {
                assert(!is_alnum(value@[i as int]));
            }
            return false;
        }
    }
    true
}

/// Letters, digits and `_`, with no digit in front.
pub open spec fn is_environment_name(s: Seq<char>) -> bool {
    &&& s.len() > 0
    &&& is_alpha(s[0]) || s[0] == '_'
    &&& forall|i: int| 0 <= i < s.len() ==> is_alnum(#[trigger] s[i]) || s[i] == '_'
}

pub fn valid_environment_name(value: &str) -> (r: bool)
    ensures
        r == is_environment_name(value@),
{
    let chars = chars_of(value);
    if chars.len() == 0 {
        return false;
    }
    if !(crate::text::char_is_lower(chars[0]) || crate::text::char_is_upper(chars[0]) || chars[0]
        == '_') {
        return false;
    }
    for i in 0..chars.len()
        invariant
            chars@ == value@,
            forall|k: int| 0 <= k < i ==> is_alnum(#[trigger] value@[k]) || value@[k] == '_',
    {
        let c = chars[i];
        if !(char_is_alnum(c) || c == '_') {
            proof {
                assert(!is_alnum(value@[i as int]));
            }
            return false;
        }
    }
    true
}

/// The last path component of an image name, without its tag or digest.
pub open spec fn image_runtime_name(image: Seq<char>) -> Seq<char> {
    let undigested = split(trimmed(image), '@')[0];
    let component = split(undigested, '/').last();
    split(component, ':')[0]
}

pub fn runtime_name_from_image(image: &str) -> (r: String)
    ensures
        r@ == image_runtime_name(image@),
{
    let undigested = split_text(trim(image).as_str(), '@');
    proof {
        assert(texts(undigested@).len() == undigested@.len());
        assert(texts(undigested@)[0] == undigested@[0]@);
    }
    let components = split_text(undigested[0].as_str(), '/');
    proof {
        assert(texts(components@).len() == components@.len());
        assert(texts(components@).last() == components@[components@.len() - 1]@);
    }
    let parts = split_text(components[components.len() - 1].as_str(), ':');
    proof {
        assert(texts(parts@).len() == parts@.len());
        assert(texts(parts@)[0] == parts@[0]@);
    }
    parts[0].clone()
}

// Labels.

pub open spec fn required_label_of(labels: Map<Seq<char>, Seq<char>>, label: Seq<char>) -> Result<
    Seq<char>,
    RuntimeDescriptorErrorView,
> {
    match lookup(labels, label) {
        Some(value) => Ok(value),
        None => Err(RuntimeDescriptorErrorView::MissingLabel { label }),
    }
}

pub fn required_runtime_label(labels: &Labels, label: &'static str) -> (r: Result<
    String,
    RuntimeDescriptorError,
>)
    ensures
        agrees(r, required_label_of(labels@, label@)),
{
    match labels.get(label) {
        Some(value) => Ok(value.clone()),
        None => Err(RuntimeDescriptorError::MissingLabel { label }),
    }
}

/// The place of the first empty text.
pub open spec fn first_empty(parts: Seq<Seq<char>>) -> Option<nat>
    decreases parts.len(),
{
    if parts.len() == 0 {
        None
    } else if parts[0].len() == 0 {
        Some(0)
    } else {
        match first_empty(parts.drop_first()) {
            Some(n) => Some(n + 1),
            None => None,
        }
    }
}

pub open spec fn all_trimmed(parts: Seq<Seq<char>>) -> Seq<Seq<char>> {
    parts.map_values(|part: Seq<char>| trimmed(part))
}

/// The names in the environment label: none without the label or where it is blank, else the
/// parts between commas without surrounding white space, none of which may be empty.
pub open spec fn environment_variables_of(labels: Map<Seq<char>, Seq<char>>) -> Result<
    Seq<Seq<char>>,
    RuntimeDescriptorErrorView,
> {
    match lookup(labels, "ai.ameba.flint.runtime.environment-variables"@) {
        None => Ok(Seq::empty()),
        Some(value) => if trimmed(value).len() == 0 {
            Ok(Seq::empty())
        } else {
            let names = all_trimmed(split(value, ','));
            match first_empty(names) {
                Some(n) => Err(
                    RuntimeDescriptorErrorView::InvalidLabel {
                        label: "ai.ameba.flint.runtime.environment-variables"@,
                        value,
                        reason: "entry "@ + decimal(n + 1) + " is empty"@,
                    },
                ),
                None => Ok(names),
            }
        },
    }
}

pub fn trim_all(parts: &Vec<String>) -> (r: Vec<String>)
    ensures
        texts(r@) == all_trimmed(texts(parts@)),
{
    let mut out: Vec<String> = Vec::new();
    let ghost wanted = all_trimmed(texts(parts@));
    for i in 0..parts.len()
        invariant
            wanted == all_trimmed(texts(parts@)),
            texts(out@) == wanted.take(i as int),
    {
        let ghost before = out@;
        let part = trim(parts[i].as_str());
        out.push(part);
        proof {
            assert(wanted[i as int] == part@);
            assert(texts(out@) =~= texts(before).push(part@));
            assert(texts(out@) =~= wanted.take(i as int + 1));
        }
    }
    proof {
        assert(wanted.take(wanted.len() as int) =~= wanted);
    }
    out
}

fn find_empty(parts: &Vec<String>) -> (r: Option<usize>)
    ensures
        match (r, first_empty(texts(parts@))) {
            (Some(a), Some(b)) => a == b && a < parts@.len(),
            (None, None) => true,
            _ => false,
        },
{
    let ghost all = texts(parts@);
    proof {
        assert(all.skip(0) =~= all);
    }
    for i in 0..parts.len()
        invariant
            all == texts(parts@),
            first_empty(all) == (match first_empty(all.skip(i as int)) {
                Some(n) => Some((n + i) as nat),
                None => None,
            }),
    {
        proof {
            assert(all.skip(i as int)[0] == parts@[i as int]@);
            assert(all.skip(i as int).drop_first() =~= all.skip(i as int + 1));
        }
        if parts[i].as_str().is_empty() {
            return Some(i);
        }
    }
    None
}

pub fn parse_environment_variables(labels: &Labels) -> (r: Result<
    Vec<String>,
    RuntimeDescriptorError,
>)
    ensures
        match (r, environment_variables_of(labels@)) {
            (Ok(a), Ok(b)) => texts(a@) == b,
            (Err(a), Err(b)) => a@ == b,
            _ => false,
        },
{
    let value = match labels.get(RUNTIME_ENVIRONMENT_VARIABLES_LABEL) {
        None => {
            let none: Vec<String> = Vec::new();
            proof {
                assert(texts(none@) =~= Seq::empty());
            }
            return Ok(none);
        },
        Some(value) => value,
    };
    if trim(value.as_str()).as_str().is_empty() {
        let none: Vec<String> = Vec::new();
        proof {
            assert(texts(none@) =~= Seq::empty());
        }
        return Ok(none);
    }
    let names = trim_all(&split_text(value.as_str(), ','));
    match find_empty(&names) {
        Some(at) => {
            let number = decimal_text((at as u64) + 1);
            Err(
                RuntimeDescriptorError::InvalidLabel {
                    label: RUNTIME_ENVIRONMENT_VARIABLES_LABEL,
                    value: value.clone(),
                    reason: cat3("entry ", number.as_str(), " is empty"),
                },
            )
        },
        None => Ok(names),
    }
}

/// A number in a label, where the label is there.
pub open spec fn lifecycle_value_of(labels: Map<Seq<char>, Seq<char>>, label: Seq<char>) -> Result<
    Option<u64>,
    RuntimeDescriptorErrorView,
> {
    match lookup(labels, label) {
        None => Ok(None),
        Some(value) => match parsed_u64(value) {
            Ok(n) => Ok(Some(n)),
            Err(e) => Err(
                RuntimeDescriptorErrorView::InvalidLabel {
                    label,
                    value,
                    reason: "must be an unsigned integer: "@ + e.text(),
                },
            ),
        },
    }
}

pub fn parse_optional_lifecycle_value(labels: &Labels, label: &'static str) -> (r: Result<
    Option<u64>,
    RuntimeDescriptorError,
>)
    ensures
        agrees(r, lifecycle_value_of(labels@, label@)),
{
    match labels.get(label) {
        None => Ok(None),
        Some(value) => match parse_u64(value.as_str()) {
            Ok(n) => Ok(Some(n)),
            Err(e) => {
                let why = e.message();
                Err(
                    RuntimeDescriptorError::InvalidLabel {
                        label,
                        value: value.clone(),
                        reason: cat2("must be an unsigned integer: ", why.as_str()),
                    },
                )
            },
        },
    }
}

/// The protocol of a name.
pub open spec fn protocol_of(name: Seq<char>) -> Option<Protocol> {
    if name == "HTTP"@ {
        Some(Protocol::Http)
    } else if name == "MCP"@ {
        Some(Protocol::Mcp)
    } else if name == "A2A"@ {
        Some(Protocol::A2a)
    } else if name == "AGUI"@ {
        Some(Protocol::AgUi)
    } else {
        None
    }
}

fn parse_protocol(name: &str) -> (r: Option<Protocol>)
    ensures
        r == protocol_of(name@),
{
    if same(name, "HTTP") {
        Some(Protocol::Http)
    } else if same(name, "MCP") {
        Some(Protocol::Mcp)
    } else if same(name, "A2A") {
        Some(Protocol::A2a)
    } else if same(name, "AGUI") {
        Some(Protocol::AgUi)
    } else {
        None
    }
}

// Validation.

/// The lifecycle that a declaration comes to. Without an idle time it is the default, or the
/// lifetime where that is shorter.
pub open spec fn lifecycle_of(lifecycle: LifecycleConfigurationDocument) -> Result<
    LifecyclePolicy,
    Seq<char>,
> {
    let maximum = match lifecycle.max_lifetime {
        Some(n) => n,
        None => DEFAULT_MAX_LIFETIME,
    };
    let idle = match lifecycle.idle_runtime_session_timeout {
        Some(n) => n,
        None => if maximum < DEFAULT_IDLE_RUNTIME_SESSION_TIMEOUT {
            maximum
        } else {
            DEFAULT_IDLE_RUNTIME_SESSION_TIMEOUT
        },
    };
    if !(MIN_LIFECYCLE_SECONDS <= idle <= MAX_MICROVM_LIFECYCLE_SECONDS) {
        Err("idleRuntimeSessionTimeout must be between 60 and 28800 seconds"@)
    } else if !(MIN_LIFECYCLE_SECONDS <= maximum <= MAX_MICROVM_LIFECYCLE_SECONDS) {
        Err("maxLifetime must be between 60 and 28800 seconds"@)
    } else if idle > maximum {
        Err("idleRuntimeSessionTimeout must not exceed maxLifetime"@)
    } else {
        Ok(
            LifecyclePolicy {
                startup_timeout_seconds: 60,
                idle_timeout_seconds: idle,
                maximum_lifetime_seconds: maximum,
            },
        )
    }
}

pub fn default_startup_timeout_seconds() -> (r: u64)
    ensures
        r == 60,
{
    60
}

pub fn resolve_lifecycle(lifecycle: &LifecycleConfigurationDocument) -> (r: Result<
    LifecyclePolicy,
    String,
>)
    ensures
        agrees(r, lifecycle_of(*lifecycle)),
{
    let maximum_lifetime_seconds: u64 = match lifecycle.max_lifetime {
        Some(n) => n,
        None => DEFAULT_MAX_LIFETIME,
    };
    let idle_timeout_seconds: u64 = match lifecycle.idle_runtime_session_timeout {
        Some(n) => n,
        None => if maximum_lifetime_seconds < DEFAULT_IDLE_RUNTIME_SESSION_TIMEOUT {
            maximum_lifetime_seconds
        } else {
            DEFAULT_IDLE_RUNTIME_SESSION_TIMEOUT
        },
    };
    if idle_timeout_seconds < MIN_LIFECYCLE_SECONDS || idle_timeout_seconds
        > MAX_MICROVM_LIFECYCLE_SECONDS {
        return Err("idleRuntimeSessionTimeout must be between 60 and 28800 seconds".to_owned());
    }
    if maximum_lifetime_seconds < MIN_LIFECYCLE_SECONDS || maximum_lifetime_seconds
        > MAX_MICROVM_LIFECYCLE_SECONDS {
        return Err("maxLifetime must be between 60 and 28800 seconds".to_owned());
    }
    if idle_timeout_seconds > maximum_lifetime_seconds {
        return Err("idleRuntimeSessionTimeout must not exceed maxLifetime".to_owned());
    }
    Ok(
        LifecyclePolicy {
            startup_timeout_seconds: default_startup_timeout_seconds(),
            idle_timeout_seconds,
            maximum_lifetime_seconds,
        },
    )
}

/// The requested variables have proper names and come once each; the first fault from the left
/// counts.
pub open spec fn variables_checked(name: Seq<char>, variables: Seq<Seq<char>>) -> Result<
    (),
    Seq<char>,
>
    decreases variables.len(),
{
    if variables.len() == 0 {
        Ok(())
    } else {
        match variables_checked(name, variables.drop_last()) {
            Err(e) => Err(e),
            Ok(_) => {
                let last = variables.last();
                if !is_environment_name(last) {
                    Err(
                        "invalid runtime catalog: runtime environment name "@ + last
                            + " is invalid"@,
                    )
                } else if variables.drop_last().contains(last) {
                    Err(
                        "runtime "@ + name + " has duplicate environment variable "@ + last,
                    )
                } else {
                    Ok(())
                }
            },
        }
    }
}

proof fn lemma_variables_error(name: Seq<char>, variables: Seq<Seq<char>>, n: int)
    requires
        0 <= n <= variables.len(),
        variables_checked(name, variables.take(n)) is Err,
    ensures
        variables_checked(name, variables) == variables_checked(name, variables.take(n)),
    decreases variables.len() - n,
{
    if n < variables.len() {
        assert(variables.take(n + 1).drop_last() =~= variables.take(n));
        lemma_variables_error(name, variables, n + 1);
    } else {
        assert(variables.take(n) =~= variables);
    }
}

/// The lifecycle of a declaration, or what is wrong with it.
pub open spec fn declaration_checked(
    name: Seq<char>,
    variables: Seq<Seq<char>>,
    lifecycle: LifecycleConfigurationDocument,
) -> Result<LifecyclePolicy, Seq<char>> {
    if !is_runtime_id(name) {
        Err("runtime name "@ + name + " is invalid"@)
    } else {
        match variables_checked(name, variables) {
            Err(e) => Err(e),
            Ok(_) => match lifecycle_of(lifecycle) {
                Err(e) => Err("runtime "@ + name + " "@ + e),
                Ok(policy) => Ok(policy),
            },
        }
    }
}

pub fn validate_runtime_declaration(
    name: &str,
    environment_variables: &Vec<String>,
    lifecycle: &LifecycleConfigurationDocument,
) -> (r: Result<LifecyclePolicy, String>)
    ensures
        agrees(r, declaration_checked(name@, texts(environment_variables@), *lifecycle)),
{
    if !valid_runtime_id(name) {
        return Err(cat3("runtime name ", name, " is invalid"));
    }
    let ghost all = texts(environment_variables@);
    let mut seen: Vec<String> = Vec::new();
    proof {
        assert(texts(seen@) =~= all.take(0));
    }
    for i in 0..environment_variables.len()
        invariant
            is_runtime_id(name@),
            all == texts(environment_variables@),
            texts(seen@) == all.take(i as int),
            variables_checked(name@, all.take(i as int)) is Ok,
    {
        let variable = environment_variables[i].as_str();
        proof {
            let upto = all.take(i as int + 1);
            assert(upto.drop_last() =~= all.take(i as int));
            assert(upto.last() == variable@);
        }
        match crate::catalog_error::validate_environment_name("runtime environment name", variable) {
            Err(e) => {
                proof {
                    lemma_variables_error(name@, all, i as int + 1);
                    let text = e@.text();
                    assert(text =~= "invalid runtime catalog: "@ + ("runtime environment name"@
                        + " "@ + variable@ + " is invalid"@));
                    reveal_strlit("invalid runtime catalog: runtime environment name ");
                    reveal_strlit("invalid runtime catalog: ");
                    reveal_strlit("runtime environment name");
                    reveal_strlit(" ");
                    assert("invalid runtime catalog: runtime environment name "@
                        =~= "invalid runtime catalog: "@ + "runtime environment name"@ + " "@);
                    assert(text =~= "invalid runtime catalog: runtime environment name "@
                        + variable@ + " is invalid"@);
                }
                return Err(e.message());
            },
            Ok(_) => {},
        }
        if contains_text(&seen, variable) {
            proof {
                lemma_variables_error(name@, all, i as int + 1);
            }
            return Err(cat4("runtime ", name, " has duplicate environment variable ", variable));
        }
        let ghost before = seen@;
        seen.push(environment_variables[i].clone());
        proof {
            assert(texts(seen@) =~= texts(before).push(variable@));
            assert(texts(seen@) =~= all.take(i as int + 1));
        }
    }
    proof {
        assert(all.take(all.len() as int) =~= all);
    }
    match resolve_lifecycle(lifecycle) {
        Err(e) => Err(cat4("runtime ", name, " ", e.as_str())),
        Ok(policy) => Ok(policy),
    }
}

pub open spec fn descriptor_checked(descriptor: RuntimeDescriptorView) -> Result<
    (),
    RuntimeDescriptorErrorView,
> {
    match declaration_checked(
        descriptor.name,
        descriptor.environment_variables,
        descriptor.lifecycle_configuration,
    ) {
        Err(e) => Err(RuntimeDescriptorErrorView::Validation(e)),
        Ok(_) => Ok(()),
    }
}

pub fn validate_runtime_descriptor(descriptor: &RuntimeDescriptor) -> (r: Result<
    (),
    RuntimeDescriptorError,
>)
    ensures
        agrees(r, descriptor_checked(descriptor@)),
{
    match validate_runtime_declaration(
        descriptor.name.as_str(),
        &descriptor.environment_variables,
        &descriptor.lifecycle_configuration,
    ) {
        Err(e) => Err(RuntimeDescriptorError::Validation(e)),
        Ok(_) => Ok(()),
    }
}

/// What the labels of an image declare, before it is checked as a whole.
pub open spec fn read_descriptor(
    labels: Map<Seq<char>, Seq<char>>,
    default_name: Seq<char>,
) -> Result<RuntimeDescriptorView, RuntimeDescriptorErrorView> {
    match required_label_of(labels, "ai.ameba.flint.runtime.protocol"@) {
        Err(e) => Err(e),
        Ok(value) => match protocol_of(value) {
            None => Err(
                RuntimeDescriptorErrorView::InvalidLabel {
                    label: "ai.ameba.flint.runtime.protocol"@,
                    value,
                    reason: "must be one of HTTP, MCP, A2A, or AGUI"@,
                },
            ),
            Some(protocol) => match environment_variables_of(labels) {
                Err(e) => Err(e),
                Ok(environment_variables) => match lifecycle_value_of(
                    labels,
                    "ai.ameba.flint.runtime.lifecycle.idle-runtime-session-timeout"@,
                ) {
                    Err(e) => Err(e),
                    Ok(idle_runtime_session_timeout) => match lifecycle_value_of(
                        labels,
                        "ai.ameba.flint.runtime.lifecycle.max-lifetime"@,
                    ) {
                        Err(e) => Err(e),
                        Ok(max_lifetime) => Ok(
                            RuntimeDescriptorView {
                                name: match lookup(labels, "ai.ameba.flint.runtime.name"@) {
                                    Some(name) => name,
                                    None => default_name,
                                },
                                protocol,
                                environment_variables,
                                lifecycle_configuration: LifecycleConfigurationDocument {
                                    idle_runtime_session_timeout,
                                    max_lifetime,
                                },
                            },
                        ),
                    },
                },
            },
        },
    }
}

/// What the labels of an image declare, or why they declare nothing.
pub open spec fn parsed_descriptor(
    labels: Map<Seq<char>, Seq<char>>,
    default_name: Seq<char>,
) -> Result<RuntimeDescriptorView, RuntimeDescriptorErrorView> {
    match read_descriptor(labels, default_name) {
        Err(e) => Err(e),
        Ok(descriptor) => match descriptor_checked(descriptor) {
            Err(e) => Err(e),
            Ok(_) => Ok(descriptor),
        },
    }
}

pub fn parse_runtime_descriptor(labels: &Labels, default_name: &str) -> (r: Result<
    RuntimeDescriptor,
    RuntimeDescriptorError,
>)
    ensures
        agrees(r, parsed_descriptor(labels@, default_name@)),
{
    let name = match labels.get(RUNTIME_NAME_LABEL) {
        Some(name) => name.clone(),
        None => default_name.to_owned(),
    };
    let value = match required_runtime_label(labels, RUNTIME_PROTOCOL_LABEL) {
        Err(e) => {
            return Err(e);
        },
        Ok(value) => value,
    };
    let protocol = match parse_protocol(value.as_str()) {
        None => {
            return Err(
                RuntimeDescriptorError::InvalidLabel {
                    label: RUNTIME_PROTOCOL_LABEL,
                    value,
                    reason: "must be one of HTTP, MCP, A2A, or AGUI".to_owned(),
                },
            );
        },
        Some(protocol) => protocol,
    };
    let environment_variables = match parse_environment_variables(labels) {
        Err(e) => {
            return Err(e);
        },
        Ok(names) => names,
    };
    let idle_runtime_session_timeout = match parse_optional_lifecycle_value(
        labels,
        RUNTIME_IDLE_TIMEOUT_LABEL,
    ) {
        Err(e) => {
            return Err(e);
        },
        Ok(value) => value,
    };
    let max_lifetime = match parse_optional_lifecycle_value(labels, RUNTIME_MAX_LIFETIME_LABEL) {
        Err(e) => {
            return Err(e);
        },
        Ok(value) => value,
    };
    let descriptor = RuntimeDescriptor {
        name,
        protocol,
        environment_variables,
        lifecycle_configuration: LifecycleConfigurationDocument {
            idle_runtime_session_timeout,
            max_lifetime,
        },
    };
    match validate_runtime_descriptor(&descriptor) {
        Err(e) => Err(e),
        Ok(_) => Ok(descriptor),
    }
}

// Laws.

/// A lifecycle that is accepted lies within the limits, and a container never idles longer than it
/// may live.
pub proof fn law_lifecycle_is_within_limits(lifecycle: LifecycleConfigurationDocument)
    requires
        lifecycle_of(lifecycle) is Ok,
    ensures
        ({
            let policy = lifecycle_of(lifecycle)->Ok_0;
            &&& 60 <= policy.idle_timeout_seconds <= policy.maximum_lifetime_seconds
            &&& policy.maximum_lifetime_seconds <= 28_800
        }),
{
}

/// A lifecycle that is not given is 900 seconds of idling and 28,800 seconds of life.
pub proof fn law_lifecycle_defaults(lifecycle: LifecycleConfigurationDocument)
    requires
        lifecycle.idle_runtime_session_timeout is None,
        lifecycle.max_lifetime is None,
    ensures
        lifecycle_of(lifecycle) == Ok::<LifecyclePolicy, Seq<char>>(
            LifecyclePolicy {
                startup_timeout_seconds: 60,
                idle_timeout_seconds: 900,
                maximum_lifetime_seconds: 28_800,
            },
        ),
{
}

/// What the labels of an image declare passes the same checks again.
pub proof fn law_parsed_descriptors_are_valid(
    labels: Map<Seq<char>, Seq<char>>,
    default_name: Seq<char>,
)
    requires
        parsed_descriptor(labels, default_name) is Ok,
    ensures
        ({
            let descriptor = parsed_descriptor(labels, default_name)->Ok_0;
            &&& is_runtime_id(descriptor.name)
            &&& lifecycle_of(descriptor.lifecycle_configuration) is Ok
            &&& descriptor.environment_variables.no_duplicates()
            &&& forall|i: int|
                0 <= i < descriptor.environment_variables.len() ==> is_environment_name(
                    #[trigger] descriptor.environment_variables[i],
                )
        }),
{
    let descriptor = parsed_descriptor(labels, default_name)->Ok_0;
    lemma_variables_ok(descriptor.name, descriptor.environment_variables);
}

proof fn lemma_variables_ok(name: Seq<char>, variables: Seq<Seq<char>>)
    requires
        variables_checked(name, variables) is Ok,
    ensures
        variables.no_duplicates(),
        forall|i: int| 0 <= i < variables.len() ==> is_environment_name(#[trigger] variables[i]),
    decreases variables.len(),
{
    if variables.len() > 0 {
        let head = variables.drop_last();
        lemma_variables_ok(name, head);
        assert forall|i: int| 0 <= i < variables.len() implies is_environment_name(
            #[trigger] variables[i],
        ) by {
            if i < head.len() {
                assert(is_environment_name(head[i]));
            }
        }
        assert forall|i: int, j: int|
            0 <= i < variables.len() && 0 <= j < variables.len() && i != j implies variables[i]
            != variables[j] by {
            if i < head.len() && j < head.len() {
                assert(head[i] != head[j]);
            } else if i < head.len() {
                assert(head[i] == variables[i]);
                assert(head.contains(variables[i]));
            } else {
                assert(head[j] == variables[j]);
                assert(head.contains(variables[j]));
            }
        }
    }
}

/// A name that is given wins over the name of the image.
pub proof fn law_name_label_wins(labels: Map<Seq<char>, Seq<char>>, default_name: Seq<char>)
    requires
        parsed_descriptor(labels, default_name) is Ok,
    ensures
        parsed_descriptor(labels, default_name)->Ok_0.name == (match lookup(
            labels,
            "ai.ameba.flint.runtime.name"@,
        ) {
            Some(name) => name,
            None => default_name,
        }),
{
}

/// The protocol label decides the protocol: each of the four names stands for one protocol, and any
/// other text, or none, is refused.
pub proof fn law_protocol_labels(labels: Map<Seq<char>, Seq<char>>, default_name: Seq<char>)
    ensures
        ({
            let label = lookup(labels, "ai.ameba.flint.runtime.protocol"@);
            let parsed = parsed_descriptor(labels, default_name);
            &&& parsed matches Ok(descriptor) ==> {
                &&& label == Some("HTTP"@) ==> descriptor.protocol == Protocol::Http
                &&& label == Some("MCP"@) ==> descriptor.protocol == Protocol::Mcp
                &&& label == Some("A2A"@) ==> descriptor.protocol == Protocol::A2a
                &&& label == Some("AGUI"@) ==> descriptor.protocol == Protocol::AgUi
                &&& label == Some(crate::json::protocol_name(descriptor.protocol))
            }
            &&& (label != Some("HTTP"@) && label != Some("MCP"@) && label != Some("A2A"@) && label
                != Some("AGUI"@)) ==> parsed is Err
        }),
{
    reveal_strlit("HTTP");
    reveal_strlit("MCP");
    reveal_strlit("A2A");
    reveal_strlit("AGUI");
    assert("HTTP"@.len() == 4 && "MCP"@.len() == 3 && "A2A"@.len() == 3 && "AGUI"@.len() == 4);
    assert("HTTP"@[0] == 'H' && "AGUI"@[0] == 'A');
    assert("MCP"@[0] == 'M' && "A2A"@[0] == 'A');
}

/// Each protocol has its own port and paths.
pub proof fn law_protocols()
    ensures
        Protocol::Http.spec_port() == 8080 && Protocol::AgUi.spec_port() == 8080,
        Protocol::Mcp.spec_port() == 8000 && Protocol::A2a.spec_port() == 9000,
        Protocol::Http.spec_invocation_path() == "/invocations"@,
        Protocol::AgUi.spec_invocation_path() == "/invocations"@,
        Protocol::Mcp.spec_invocation_path() == "/mcp"@,
        Protocol::A2a.spec_invocation_path() == "/"@,
        Protocol::Http.spec_ping_path() == Some("/ping"@),
        Protocol::AgUi.spec_ping_path() == Some("/ping"@),
        Protocol::A2a.spec_ping_path() == Some("/ping"@),
        Protocol::Mcp.spec_ping_path() is None,
        Protocol::A2a.spec_agent_card_path() == Some("/.well-known/agent-card.json"@),
        Protocol::Http.spec_agent_card_path() is None,
        Protocol::Mcp.spec_agent_card_path() is None,
        Protocol::AgUi.spec_agent_card_path() is None,
{
}

/// The lifecycle labels are read as numbers, each into its own time.
pub proof fn law_lifecycle_labels(labels: Map<Seq<char>, Seq<char>>, default_name: Seq<char>)
    requires
        parsed_descriptor(labels, default_name) is Ok,
    ensures
        ({
            let lifecycle = parsed_descriptor(labels, default_name)->Ok_0.lifecycle_configuration;
            &&& lookup(
                labels,
                "ai.ameba.flint.runtime.lifecycle.idle-runtime-session-timeout"@,
            ) matches Some(text) ==> parsed_u64(text) == Ok::<u64, crate::number::NumberError>(
                lifecycle.idle_runtime_session_timeout->Some_0,
            ) && lifecycle.idle_runtime_session_timeout is Some
            &&& lookup(
                labels,
                "ai.ameba.flint.runtime.lifecycle.idle-runtime-session-timeout"@,
            ) is None ==> lifecycle.idle_runtime_session_timeout is None
            &&& lookup(labels, "ai.ameba.flint.runtime.lifecycle.max-lifetime"@) matches Some(text)
                ==> parsed_u64(text) == Ok::<u64, crate::number::NumberError>(lifecycle.max_lifetime->Some_0)
                && lifecycle.max_lifetime is Some
            &&& lookup(labels, "ai.ameba.flint.runtime.lifecycle.max-lifetime"@) is None
                ==> lifecycle.max_lifetime is None
        }),
{
}

/// The environment label lists names between commas, with white space round them or not; without it
/// a runtime asks for nothing.
pub proof fn law_environment_labels(labels: Map<Seq<char>, Seq<char>>, default_name: Seq<char>, i: int)
    requires
        parsed_descriptor(labels, default_name) is Ok,
    ensures
        ({
            let names = parsed_descriptor(labels, default_name)->Ok_0.environment_variables;
            match lookup(labels, "ai.ameba.flint.runtime.environment-variables"@) {
                None => names.len() == 0,
                Some(text) => trimmed(text).len() > 0 ==> names.len() == split(text, ',').len() && (
                0 <= i < names.len() ==> names[i] == trimmed(split(text, ',')[i])),
            }
        }),
{
}

/// A lifecycle that is given is taken as it is given, where both times are from 60 to 28,800 seconds
/// and idling is no longer than life. An idle time that is not given is 900 seconds, or the whole
/// life where that is shorter.
pub proof fn law_given_lifecycles(idle: Option<u64>, life: Option<u64>)
    ensures
        ({
            let policy = lifecycle_of(
                LifecycleConfigurationDocument {
                    idle_runtime_session_timeout: idle,
                    max_lifetime: life,
                },
            );
            let longest = match life {
                Some(n) => n,
                None => 28_800,
            };
            let unused = match idle {
                Some(n) => n,
                None => if longest < 900 {
                    longest
                } else {
                    900
                },
            };
            &&& policy is Ok <==> 60 <= unused <= longest <= 28_800
            &&& policy matches Ok(lifecycle) ==> lifecycle.idle_timeout_seconds == unused
                && lifecycle.maximum_lifetime_seconds == longest
                && lifecycle.startup_timeout_seconds == 60
        }),
{
}

/// A runtime is named by one to 48 letters, digits, underscores and hyphens with a letter in front, a
/// variable by letters, digits and underscores without a digit in front.
pub proof fn law_names(s: Seq<char>)
    ensures
        is_runtime_id(s) <==> 1 <= s.len() <= 48 && ('a' <= s[0] <= 'z' || 'A' <= s[0] <= 'Z')
            && forall|i: int|
            0 <= i < s.len() ==> ('a' <= #[trigger] s[i] <= 'z' || 'A' <= s[i] <= 'Z' || '0' <= s[i]
                <= '9' || s[i] == '_' || s[i] == '-'),
        is_environment_name(s) <==> s.len() > 0 && ('a' <= s[0] <= 'z' || 'A' <= s[0] <= 'Z' || s[0]
            == '_') && forall|i: int|
            0 <= i < s.len() ==> ('a' <= #[trigger] s[i] <= 'z' || 'A' <= s[i] <= 'Z' || '0' <= s[i]
                <= '9' || s[i] == '_'),
{
    if is_runtime_id(s) {
        assert forall|i: int| 0 <= i < s.len() implies ('a' <= #[trigger] s[i] <= 'z' || 'A' <= s[i]
            <= 'Z' || '0' <= s[i] <= '9' || s[i] == '_' || s[i] == '-') by {
            assert(is_alnum(s[i]) || s[i] == '_' || s[i] == '-');
        }
    }
    if is_environment_name(s) {
        assert forall|i: int| 0 <= i < s.len() implies ('a' <= #[trigger] s[i] <= 'z' || 'A' <= s[i]
            <= 'Z' || '0' <= s[i] <= '9' || s[i] == '_') by {
            assert(is_alnum(s[i]) || s[i] == '_');
        }
    }
}

/// The name of an image's runtime is the last component of its path, whatever registry, tag and
/// digest stand round it.
pub proof fn law_image_names(path: Seq<char>, name: Seq<char>, tag: Seq<char>, digest: Seq<char>)
    requires
        lacks(path, '@') && lacks(name, '@') && lacks(tag, '@'),
        lacks(name, '/') && lacks(tag, '/'),
        lacks(name, ':'),
        name.len() > 0 && !is_space(name[0]) && !is_space(name.last()),
        path.len() > 0 && !is_space(path[0]),
        tag.len() > 0 && !is_space(tag.last()),
        digest.len() > 0 && !is_space(digest.last()),
    ensures
        image_runtime_name(name) == name,
        image_runtime_name(path + seq!['/'] + name) == name,
        image_runtime_name(path + seq!['/'] + name + seq![':'] + tag) == name,
        image_runtime_name(path + seq!['/'] + name + seq!['@'] + digest) == name,
{
    let none = Seq::<char>::empty();
    let a = path + seq!['/'] + name;
    let b = a + seq![':'] + tag;
    let c = a + seq!['@'] + digest;
    crate::text_laws::law_trimmed(none, name, none);
    assert(none + name + none =~= name);
    crate::text_laws::law_trimmed(none, a, none);
    assert(none + a + none =~= a);
    crate::text_laws::law_trimmed(none, b, none);
    assert(none + b + none =~= b);
    crate::text_laws::law_trimmed(none, c, none);
    assert(none + c + none =~= c);
    lemma_whole(name, '@');
    lemma_whole(name, '/');
    lemma_whole(name, ':');
    lemma_whole(a, '@');
    lemma_whole(b, '@');
    lemma_first_part(a, digest, '@');
    assert(c =~= a + seq!['@'] + digest);
    lemma_last_part(path, name, '/');
    let tagged = name + seq![':'] + tag;
    assert(b =~= path + seq!['/'] + tagged);
    lemma_last_part(path, tagged, '/');
    lemma_first_part(name, tag, ':');
}

proof fn lemma_whole(s: Seq<char>, sep: char)
    requires
        lacks(s, sep),
    ensures
        split(s, sep) == seq![s],
{
    crate::text::lemma_find_is(s, sep, s.len());
}

proof fn lemma_first_part(a: Seq<char>, b: Seq<char>, sep: char)
    requires
        lacks(a, sep),
    ensures
        split(a + seq![sep] + b, sep)[0] == a,
{
    let s = a + seq![sep] + b;
    crate::text::lemma_find_is(s, sep, a.len());
    assert(s.take(a.len() as int) =~= a);
}

proof fn lemma_last_part(a: Seq<char>, b: Seq<char>, sep: char)
    requires
        lacks(b, sep),
    ensures
        split(a + seq![sep] + b, sep).last() == b,
    decreases a.len(),
{
    let s = a + seq![sep] + b;
    crate::text::lemma_find(a, sep);
    let at = crate::text::find(a, sep);
    assert forall|k: int| 0 <= k < at implies s[k] != sep by {
        assert(s[k] == a[k]);
    }
    crate::text::lemma_find_is(s, sep, at);
    if at < a.len() {
        let rest = a.skip(at as int + 1);
        assert(s.skip(at as int + 1) =~= rest + seq![sep] + b);
        lemma_last_part(rest, b, sep);
    } else {
        assert(s.skip(at as int + 1) =~= b);
        lemma_whole(b, sep);
    }
}

} // verus!
