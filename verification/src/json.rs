//! JSON text in canonical form.

use vstd::prelude::*;
use vstd::utf8::encode_utf8;

use crate::descriptor::{RuntimeDescriptor, RuntimeDescriptorView};
use crate::number::{decimal, decimal_text};
use crate::primitives::hex_digit;
use crate::runtime::Protocol;
use crate::text::{cat7, join, join_texts, texts};

verus! {

/// A character inside a JSON string: a quote, a backslash and the control characters are escaped,
/// those without a letter of their own by their number, and all others stand for themselves.
pub open spec fn json_char(c: char) -> Seq<char> {
    if c == '"' {
        seq!['\\', '"']
    } else if c == '\\' {
        seq!['\\', '\\']
    } else if c == '\u{8}' {
        seq!['\\', 'b']
    } else if c == '\u{9}' {
        seq!['\\', 't']
    } else if c == '\u{a}' {
        seq!['\\', 'n']
    } else if c == '\u{c}' {
        seq!['\\', 'f']
    } else if c == '\u{d}' {
        seq!['\\', 'r']
    } else if c as int <= 0x1f {
        seq!['\\', 'u', '0', '0', hex_digit(c as int / 16), hex_digit(c as int % 16)]
    } else {
        seq![c]
    }
}

/// The characters of a text inside a JSON string.
pub open spec fn json_chars(text: Seq<char>) -> Seq<char>
    decreases text.len(),
{
    if text.len() == 0 {
        Seq::empty()
    } else {
        json_chars(text.drop_last()) + json_char(text.last())
    }
}

/// A text as a JSON string, in quotes.
pub open spec fn json_string_of(text: Seq<char>) -> Seq<char> {
    seq!['"'] + json_chars(text) + seq!['"']
}

/// `serde_json::to_string` of a `str`, which never fails and writes a JSON string.
#[verifier::external_body]
pub(crate) fn json_string(text: &str) -> (r: String)
    ensures
        r@ == json_string_of(text@),
{
    serde_json::to_string(text).expect("a string serializes")
}

/// JSON bytes in canonical form, or why they are no JSON.
pub uninterp spec fn canonical_json_of(bytes: Seq<u8>) -> Result<Seq<u8>, Seq<char>>;

/// `serde_json::from_slice` into a `serde_json::Value`, and `serde_json_canonicalizer::to_vec` of
/// that.
#[verifier::external_body]
pub(crate) fn canonical_json(bytes: &[u8]) -> (r: Result<Vec<u8>, String>)
    ensures
        match (r, canonical_json_of(bytes@)) {
            (Ok(a), Ok(b)) => a@ == b,
            (Err(a), Err(b)) => a@ == b,
            _ => false,
        },
{
    let value: serde_json::Value = match serde_json::from_slice(bytes) {
        Ok(value) => value,
        Err(error) => return Err(error.to_string()),
    };
    serde_json_canonicalizer::to_vec(&value).map_err(|error| error.to_string())
}

/// The texts as JSON strings.
pub open spec fn json_strings(items: Seq<Seq<char>>) -> Seq<Seq<char>> {
    items.map_values(|item: Seq<char>| json_string_of(item))
}

fn write_strings(items: &Vec<String>) -> (r: Vec<String>)
    ensures
        texts(r@) == json_strings(texts(items@)),
{
    let mut out: Vec<String> = Vec::new();
    let ghost wanted = json_strings(texts(items@));
    for i in 0..items.len()
        invariant
            wanted == json_strings(texts(items@)),
            texts(out@) == wanted.take(i as int),
    {
        let ghost before = out@;
        let item = json_string(items[i].as_str());
        out.push(item);
        proof {
            assert(wanted[i as int] == item@);
            assert(texts(out@) =~= texts(before).push(item@));
            assert(texts(out@) =~= wanted.take(i as int + 1));
        }
    }
    proof {
        assert(wanted.take(wanted.len() as int) =~= wanted);
    }
    out
}

pub open spec fn protocol_name(protocol: Protocol) -> Seq<char> {
    match protocol {
        Protocol::Http => "HTTP"@,
        Protocol::Mcp => "MCP"@,
        Protocol::A2a => "A2A"@,
        Protocol::AgUi => "AGUI"@,
    }
}

fn write_protocol(protocol: Protocol) -> (r: &'static str)
    ensures
        r@ == protocol_name(protocol),
{
    match protocol {
        Protocol::Http => "HTTP",
        Protocol::Mcp => "MCP",
        Protocol::A2a => "A2A",
        Protocol::AgUi => "AGUI",
    }
}

/// A number under a name, where there is one.
pub open spec fn number_members(name: Seq<char>, value: Option<u64>) -> Seq<Seq<char>> {
    match value {
        Some(n) => seq!["\""@ + name + "\":"@ + decimal(n as nat)],
        None => Seq::empty(),
    }
}

fn push_number(members: &mut Vec<String>, name: &str, value: Option<u64>)
    ensures
        texts(final(members)@) == texts(old(members)@) + number_members(name@, value),
{
    match value {
        Some(n) => {
            let ghost before = members@;
            let digits = decimal_text(n);
            let member = crate::text::cat4("\"", name, "\":", digits.as_str());
            members.push(member);
            proof {
                assert(texts(members@) =~= texts(before) + seq![member@]);
            }
        },
        None => {
            proof {
                assert(texts(members@) + Seq::<Seq<char>>::empty() =~= texts(members@));
            }
        },
    }
}

/// A descriptor as a JSON object: the lifecycle holds only the values that are given.
pub open spec fn descriptor_json(descriptor: RuntimeDescriptorView) -> Seq<char> {
    let lifecycle = join(
        number_members(
            "idleRuntimeSessionTimeout"@,
            descriptor.lifecycle_configuration.idle_runtime_session_timeout,
        ) + number_members("maxLifetime"@, descriptor.lifecycle_configuration.max_lifetime),
        ","@,
    );
    "{\"name\":"@ + json_string_of(descriptor.name) + ",\"protocol\":\""@ + protocol_name(
        descriptor.protocol,
    ) + "\",\"environmentVariables\":["@ + join(
        json_strings(descriptor.environment_variables),
        ","@,
    ) + "],\"lifecycleConfiguration\":{"@ + lifecycle + "}}"@
}

pub fn write_descriptor(descriptor: &RuntimeDescriptor) -> (r: String)
    ensures
        r@ == descriptor_json(descriptor@),
{
    let name = json_string(descriptor.name.as_str());
    let variables = join_texts(&write_strings(&descriptor.environment_variables), ",");
    let mut members: Vec<String> = Vec::new();
    proof {
        assert(texts(members@) =~= Seq::empty());
    }
    push_number(
        &mut members,
        "idleRuntimeSessionTimeout",
        descriptor.lifecycle_configuration.idle_runtime_session_timeout,
    );
    push_number(&mut members, "maxLifetime", descriptor.lifecycle_configuration.max_lifetime);
    proof {
        assert(texts(members@) =~= number_members(
            "idleRuntimeSessionTimeout"@,
            descriptor.lifecycle_configuration.idle_runtime_session_timeout,
        ) + number_members("maxLifetime"@, descriptor.lifecycle_configuration.max_lifetime));
    }
    let lifecycle = join_texts(&members, ",");
    let mut out = cat7(
        "{\"name\":",
        name.as_str(),
        ",\"protocol\":\"",
        write_protocol(descriptor.protocol),
        "\",\"environmentVariables\":[",
        variables.as_str(),
        "],\"lifecycleConfiguration\":{",
    );
    out.append(lifecycle.as_str());
    out.append("}}");
    out
}

/// A descriptor in canonical form.
pub open spec fn canonical_descriptor_of(descriptor: RuntimeDescriptorView) -> Result<
    Seq<u8>,
    Seq<char>,
> {
    canonical_json_of(encode_utf8(descriptor_json(descriptor)))
}

pub fn canonical_descriptor(descriptor: &RuntimeDescriptor) -> (r: Result<Vec<u8>, String>)
    ensures
        match (r, canonical_descriptor_of(descriptor@)) {
            (Ok(a), Ok(b)) => a@ == b,
            (Err(a), Err(b)) => a@ == b,
            _ => false,
        },
{
    let text = write_descriptor(descriptor);
    canonical_json(text.as_str().as_bytes())
}

} // verus!
