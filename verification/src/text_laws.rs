//! What holds of text, whatever it is used for.

use vstd::prelude::*;

use crate::catalog_error::{environment_name_checked, CatalogErrorView};
use crate::descriptor::{is_environment_name, RuntimeDescriptorView};
use crate::headers::{
    is_header_name, is_header_value, lemma_values_with_only, text_of, value_of, values_of,
    with_only, HeaderView,
};
use crate::json::{
    descriptor_json, json_char, json_chars, json_string_of, json_strings, protocol_name,
};
use crate::number::{decimal, parsed_u64, read_digits, NumberError};
use crate::order::text_le;
use crate::primitives::{hex_digit, hex_text, unhex};
use crate::runtime::{default_identity, Protocol};
use crate::sigv4_laws::{lemma_join_first, lemma_split_joined, lemma_split_lacks};
use crate::text::{
    after_prefix, ascii_lower, find, holds_text, is_hex_digit, is_space, join, lacks, lemma_find,
    lemma_find_is, split, split_n, split_once, starts_with, trim_start, trimmed, without_trailing,
};

verus! {

/// In lower case a text keeps its length; the letters from `A` to `Z` move up by thirty-two, and
/// every other character stays.
pub proof fn law_lower_case(s: Seq<char>, i: int)
    requires
        0 <= i < s.len(),
    ensures
        ascii_lower(s).len() == s.len(),
        65 <= s[i] as u32 <= 90 ==> ascii_lower(s)[i] as u32 == s[i] as u32 + 32,
        !(65 <= s[i] as u32 <= 90) ==> ascii_lower(s)[i] == s[i],
{
}

/// A text without letters from `A` to `Z` is in lower case already.
pub proof fn law_lower_case_stays(s: Seq<char>)
    requires
        forall|i: int| 0 <= i < s.len() ==> !('A' <= #[trigger] s[i] <= 'Z'),
    ensures
        ascii_lower(s) == s,
{
    assert(ascii_lower(s) =~= s);
}

/// Among ASCII characters, white space is the blank and the five characters from tab to carriage
/// return.
pub proof fn law_ascii_space(c: char)
    requires
        c as u32 <= 127,
    ensures
        is_space(c) <==> c as u32 == 32 || 9 <= c as u32 <= 13,
{
}

/// Trimming takes white space from both ends, all of it and nothing else.
pub proof fn law_trimmed(before: Seq<char>, middle: Seq<char>, behind: Seq<char>)
    requires
        forall|i: int| 0 <= i < before.len() ==> is_space(#[trigger] before[i]),
        forall|i: int| 0 <= i < behind.len() ==> is_space(#[trigger] behind[i]),
        middle.len() > 0 ==> !is_space(middle[0]) && !is_space(middle.last()),
    ensures
        trimmed(before + middle + behind) == middle,
    decreases before.len() + behind.len(),
{
    let s = before + middle + behind;
    if before.len() > 0 {
        let rest = before.drop_first();
        assert(s[0] == before[0]);
        assert(s.drop_first() =~= rest + middle + behind);
        assert forall|i: int| 0 <= i < rest.len() implies is_space(#[trigger] rest[i]) by {
            assert(rest[i] == before[i + 1]);
        }
        law_trimmed(rest, middle, behind);
    } else if middle.len() == 0 && behind.len() > 0 {
        let rest = behind.drop_first();
        assert(s =~= behind);
        assert(s[0] == behind[0]);
        assert(s.drop_first() =~= before + middle + rest);
        assert forall|i: int| 0 <= i < rest.len() implies is_space(#[trigger] rest[i]) by {
            assert(rest[i] == behind[i + 1]);
        }
        law_trimmed(before, middle, rest);
    } else if behind.len() > 0 {
        let rest = behind.drop_last();
        assert(s[0] == middle[0]);
        assert(trim_start(s) == s);
        assert(s.last() == behind.last());
        assert(is_space(behind[behind.len() - 1]));
        assert(s.drop_last() =~= before + middle + rest);
        assert((before + middle + rest)[0] == middle[0]);
        assert(trim_start(before + middle + rest) == before + middle + rest);
        assert forall|i: int| 0 <= i < rest.len() implies is_space(#[trigger] rest[i]) by {
            assert(rest[i] == behind[i]);
        }
        law_trimmed(before, middle, rest);
    } else {
        assert(s =~= middle);
    }
}

/// What stands between separators is read back part by part, and the parts put together again are
/// the text.
pub proof fn law_split(s: Seq<char>, parts: Seq<Seq<char>>, sep: char)
    ensures
        join(split(s, sep), seq![sep]) == s,
        forall|i: int| 0 <= i < split(s, sep).len() ==> lacks(#[trigger] split(s, sep)[i], sep),
        parts.len() > 0 && (forall|i: int|
            0 <= i < parts.len() ==> lacks(#[trigger] parts[i], sep)) ==> split(
            join(parts, seq![sep]),
            sep,
        ) == parts,
{
    lemma_split_lacks(s, sep);
    lemma_join_split(s, sep);
    if parts.len() > 0 && (forall|i: int|
        0 <= i < parts.len() ==> lacks(#[trigger] parts[i], sep)) {
        lemma_split_joined(parts, sep);
    }
}

proof fn lemma_join_split(s: Seq<char>, sep: char)
    ensures
        join(split(s, sep), seq![sep]) == s,
        split(s, sep).len() > 0,
    decreases s.len(),
{
    lemma_find(s, sep);
    let at = find(s, sep) as int;
    if at < s.len() {
        let rest = s.skip(at + 1);
        lemma_join_split(rest, sep);
        let parts = split(s, sep);
        assert(parts.drop_first() =~= split(rest, sep));
        assert(parts[0] == s.take(at));
        lemma_join_first(parts, seq![sep]);
        assert(s.take(at) + seq![sep] + rest =~= s);
    }
}

/// Joining puts the separator between each two parts.
pub proof fn law_join(parts: Seq<Seq<char>>, last: Seq<char>, sep: Seq<char>)
    ensures
        join(Seq::empty(), sep) == Seq::<char>::empty(),
        parts.len() == 0 ==> join(parts.push(last), sep) == last,
        parts.len() > 0 ==> join(parts.push(last), sep) == join(parts, sep) + sep + last,
{
    assert(parts.push(last).drop_last() =~= parts);
}

/// The first separator decides where a text is split in two.
pub proof fn law_split_once(s: Seq<char>, a: Seq<char>, b: Seq<char>, sep: char)
    requires
        lacks(a, sep),
    ensures
        split_once(a + seq![sep] + b, sep) == Some((a, b)),
        split_once(s, sep) is None <==> lacks(s, sep),
{
    crate::text::lemma_split_once_joined(a, b, sep);
    lemma_find(s, sep);
    if lacks(s, sep) {
        lemma_find_is(s, sep, s.len());
    }
}

/// A text starts with another exactly where the rest can be put behind that.
pub proof fn law_prefix(s: Seq<char>, prefix: Seq<char>, rest: Seq<char>)
    ensures
        starts_with(s, prefix) <==> prefix.is_prefix_of(s),
        after_prefix(prefix + rest, prefix) == Some(rest),
        after_prefix(s, prefix) is Some <==> prefix.is_prefix_of(s),
{
    let whole = prefix + rest;
    assert(whole.subrange(0, prefix.len() as int) =~= prefix);
    assert(whole.skip(prefix.len() as int) =~= rest);
}

/// Only what a text ends with is taken from its end.
pub proof fn law_without_trailing(s: Seq<char>, tail: Seq<char>, c: char)
    requires
        s.len() > 0 ==> s.last() != c,
        forall|i: int| 0 <= i < tail.len() ==> #[trigger] tail[i] == c,
    ensures
        without_trailing(s + tail, c) == s,
    decreases tail.len(),
{
    let whole = s + tail;
    if tail.len() > 0 {
        let rest = tail.drop_last();
        assert(whole.last() == tail[tail.len() - 1]);
        assert(whole.drop_last() =~= s + rest);
        assert forall|i: int| 0 <= i < rest.len() implies #[trigger] rest[i] == c by {
            assert(rest[i] == tail[i]);
        }
        law_without_trailing(s, rest, c);
    } else {
        assert(whole =~= s);
    }
}

/// Texts are in the order of the first character in which they differ, and a text comes before
/// everything that goes on behind it.
pub proof fn law_text_order(a: Seq<char>, b: Seq<char>, at: int)
    requires
        0 <= at <= a.len(),
        at <= b.len(),
        forall|i: int| 0 <= i < at ==> a[i] == b[i],
        at < a.len() && at < b.len() ==> a[at] != b[at],
    ensures
        at < a.len() && at < b.len() ==> (text_le(a, b) <==> a[at] < b[at]),
        at == a.len() ==> text_le(a, b),
        at == b.len() && at < a.len() ==> !text_le(a, b),
    decreases at,
{
    if at > 0 {
        assert(a[0] == b[0]);
        let (x, y) = (a.drop_first(), b.drop_first());
        assert forall|i: int| 0 <= i < at - 1 implies x[i] == y[i] by {
            assert(a[i + 1] == b[i + 1]);
        }
        if at < a.len() && at < b.len() {
            assert(x[at - 1] == a[at] && y[at - 1] == b[at]);
        }
        law_text_order(x, y, at - 1);
    }
}

/// A decimal number is its digits from the left, each worth ten times what the next is worth.
pub proof fn law_decimal(n: nat, digit: nat)
    requires
        digit < 10,
    ensures
        n == 0 ==> decimal(digit) == seq![(48 + digit) as char],
        n > 0 ==> decimal(10 * n + digit) == decimal(n).push((48 + digit) as char),
{
    if n > 0 {
        assert((10 * n + digit) / 10 == n) by (nonlinear_arith)
            requires
                digit < 10,
        ;
        assert((10 * n + digit) % 10 == digit) by (nonlinear_arith)
            requires
                digit < 10,
        ;
    }
}

/// One more digit makes ten times the number and the digit; what does not fit, and what is no
/// digit, is refused.
pub proof fn law_parsed_numbers(s: Seq<char>, n: u64, c: char)
    requires
        parsed_u64(s) == Ok::<u64, NumberError>(n),
    ensures
        s.len() > 0,
        '0' <= c <= '9' && 10 * n + (c as int - 48) <= u64::MAX ==> parsed_u64(s.push(c)) == Ok::<
            u64,
            NumberError,
        >((10 * n + (c as int - 48)) as u64),
        '0' <= c <= '9' && 10 * n + (c as int - 48) > u64::MAX ==> parsed_u64(s.push(c)) is Err,
        !('0' <= c <= '9') ==> parsed_u64(s.push(c)) is Err,
{
    let plus = s[0] == '+' && s.len() > 1;
    if s[0] == '+' && s.len() == 1 {
        assert(read_digits(s, 0) is Err);
    }
    if plus {
        assert(s.push(c).drop_first() =~= s.drop_first().push(c));
        lemma_read_digits(s.drop_first(), 0, c);
    } else {
        lemma_read_digits(s, 0, c);
    }
}

proof fn lemma_read_digits(s: Seq<char>, value: nat, c: char)
    requires
        value <= u64::MAX,
        read_digits(s, value) is Ok,
    ensures
        ({
            let n = read_digits(s, value)->Ok_0;
            let next = 10 * n + (c as int - 48);
            if !('0' <= c <= '9') || next > u64::MAX {
                read_digits(s.push(c), value) is Err
            } else {
                read_digits(s.push(c), value) == Ok::<u64, NumberError>(next as u64)
            }
        }),
    decreases s.len(),
{
    let longer = s.push(c);
    if s.len() == 0 {
        assert(longer.drop_first() =~= s);
        assert(longer[0] == c);
        reveal_with_fuel(read_digits, 2);
    } else {
        assert(longer[0] == s[0]);
        assert(longer.drop_first() =~= s.drop_first().push(c));
        lemma_read_digits(s.drop_first(), (value * 10 + (s[0] as nat - 48)) as nat, c);
    }
}

/// One digit is the number that it shows, and a text without a digit is no number.
pub proof fn law_parsed_digits(c: char)
    ensures
        '0' <= c <= '9' ==> parsed_u64(seq![c]) == Ok::<u64, NumberError>((c as int - 48) as u64),
        !('0' <= c <= '9') ==> parsed_u64(seq![c]) is Err,
        parsed_u64(Seq::empty()) is Err,
{
    reveal_with_fuel(read_digits, 2);
    assert(seq![c].drop_first() =~= Seq::empty());
}

// Headers.

/// The values under a name are those of the lines with that name, without regard to ASCII case, in
/// the order of the lines.
pub proof fn law_header_values(headers: Seq<HeaderView>, last: HeaderView, name: Seq<char>)
    ensures
        values_of(Seq::empty(), name) == Seq::<Seq<u8>>::empty(),
        last.name == ascii_lower(name) ==> values_of(headers.push(last), name) == values_of(
            headers,
            name,
        ).push(last.value),
        last.name != ascii_lower(name) ==> values_of(headers.push(last), name) == values_of(
            headers,
            name,
        ),
{
    assert(headers.push(last).drop_last() =~= headers);
}

/// A header is there exactly where a line has its name, and its value is that of the first such
/// line.
pub proof fn law_first_header(headers: Seq<HeaderView>, name: Seq<char>, k: int)
    ensures
        value_of(headers, name) is Some <==> exists|i: int|
            0 <= i < headers.len() && (#[trigger] headers[i]).name == ascii_lower(name),
        (0 <= k < headers.len() && headers[k].name == ascii_lower(name) && forall|i: int|
            0 <= i < k ==> (#[trigger] headers[i]).name != ascii_lower(name)) ==> value_of(
            headers,
            name,
        ) == Some(headers[k].value),
    decreases headers.len(),
{
    if headers.len() > 0 {
        let rest = headers.drop_last();
        law_first_header(rest, name, k);
        assert(headers =~= rest.push(headers.last()));
        assert forall|i: int| 0 <= i < rest.len() implies #[trigger] rest[i] == headers[i] by {}
        if exists|i: int| 0 <= i < headers.len() && (#[trigger] headers[i]).name == ascii_lower(
            name,
        ) {
            let i = choose|i: int|
                0 <= i < headers.len() && (#[trigger] headers[i]).name == ascii_lower(name);
            if i < rest.len() {
                assert(rest[i].name == ascii_lower(name));
            }
        }
        if value_of(rest, name) is Some {
            let i = choose|i: int|
                0 <= i < rest.len() && (#[trigger] rest[i]).name == ascii_lower(name);
            assert(headers[i].name == ascii_lower(name));
        }
        if headers.last().name == ascii_lower(name) {
            assert(headers[headers.len() - 1].name == ascii_lower(name));
        }
        if 0 <= k < rest.len() {
            assert(rest[k] == headers[k]);
        }
        if k == rest.len() && (forall|i: int|
            0 <= i < k ==> (#[trigger] headers[i]).name != ascii_lower(name)) {
            if value_of(rest, name) is Some {
                let i = choose|i: int|
                    0 <= i < rest.len() && (#[trigger] rest[i]).name == ascii_lower(name);
                assert(headers[i].name != ascii_lower(name));
            }
        }
    }
}

/// A header value is text where it holds nothing but tabs and visible ASCII, and then each byte is
/// its character.
pub proof fn law_header_text(value: Seq<u8>)
    ensures
        text_of(value) is Some <==> forall|i: int|
            0 <= i < value.len() ==> (#[trigger] value[i] == 9 || 32 <= value[i] <= 126),
        text_of(value) matches Some(text) ==> text.len() == value.len() && forall|i: int|
            0 <= i < text.len() ==> #[trigger] text[i] as u32 == value[i] as u32,
{
    if forall|i: int| 0 <= i < value.len() ==> (#[trigger] value[i] == 9 || 32 <= value[i] <= 126) {
        assert(text_of(value) is Some);
    }
}

/// A header name is one to 65,535 letters, digits and certain signs; a header value holds no
/// control characters but the tab.
pub proof fn law_header_syntax(text: Seq<char>)
    ensures
        is_header_name(text) ==> 0 < text.len() <= 65_535 && forall|i: int|
            0 <= i < text.len() ==> 33 <= #[trigger] text[i] as u32 <= 126 && text[i] != ':'
                && text[i] != ',' && text[i] != ';' && text[i] != '/' && text[i] != '"',
        0 < text.len() <= 65_535 && (forall|i: int|
            0 <= i < text.len() ==> ('a' <= #[trigger] text[i] <= 'z' || 'A' <= text[i] <= 'Z'
                || '0' <= text[i] <= '9' || text[i] == '-' || text[i] == '_' || text[i] == '.'))
            ==> is_header_name(text),
        is_header_value(text) <==> forall|i: int|
            0 <= i < text.len() ==> (#[trigger] text[i] == '\t' || ' ' <= text[i] <= '~' || text[i]
                > '\u{7f}'),
{
    if is_header_name(text) {
        assert forall|i: int| 0 <= i < text.len() implies 33 <= #[trigger] text[i] as u32 <= 126
            && text[i] != ':' && text[i] != ',' && text[i] != ';' && text[i] != '/' && text[i]
            != '"' by {
            assert(crate::headers::is_token_char(text[i]));
        }
    }
    if is_header_value(text) {
        assert forall|i: int| 0 <= i < text.len() implies (#[trigger] text[i] == '\t' || ' '
            <= text[i] <= '~' || text[i] > '\u{7f}') by {
            assert(text[i] == '\t' || (text[i] >= ' ' && text[i] != '\x7f'));
        }
    }
}

/// A byte is written as two digits, the higher first, and read again from them in either case.
pub proof fn law_hex(bytes: Seq<u8>, i: int)
    ensures
        hex_text(bytes).len() == 2 * bytes.len(),
        0 <= i < bytes.len() ==> digit_of(hex_text(bytes)[2 * i]) * 16 + digit_of(
            hex_text(bytes)[2 * i + 1],
        ) == bytes[i],
        unhex(hex_text(bytes)) == Some(bytes),
        digit_of('0') == 0 && digit_of('9') == 9 && digit_of('a') == 10 && digit_of('f') == 15
            && digit_of('A') == 10 && digit_of('F') == 15,
{
    let text = hex_text(bytes);
    assert forall|k: int| 0 <= k < bytes.len() implies digit_of(#[trigger] text[2 * k]) * 16
        + digit_of(text[2 * k + 1]) == bytes[k] by {}
    assert forall|k: int| 0 <= k < text.len() implies is_hex_digit(#[trigger] text[k]) by {
        let n = if k % 2 == 0 {
            bytes[k / 2] as int / 16
        } else {
            bytes[k / 2] as int % 16
        };
        assert(0 <= n < 16);
        assert(text[k] == hex_digit(n));
    }
    assert(unhex(text)->Some_0 =~= bytes);
}

/// What a hexadecimal digit stands for.
pub open spec fn digit_of(c: char) -> int {
    if '0' <= c <= '9' {
        c as int - '0' as int
    } else if 'a' <= c <= 'f' {
        c as int - 'a' as int + 10
    } else {
        c as int - 'A' as int + 10
    }
}

/// Two hexadecimal digits are read as the byte that they stand for; anything else is not read.
pub proof fn law_unhex(text: Seq<char>, i: int)
    ensures
        unhex(text) is Some <==> text.len() % 2 == 0 && forall|k: int|
            0 <= k < text.len() ==> ('0' <= #[trigger] text[k] <= '9' || 'a' <= text[k] <= 'f'
                || 'A' <= text[k] <= 'F'),
        unhex(text) is Some ==> unhex(text)->Some_0.len() * 2 == text.len(),
        unhex(text) is Some && 0 <= 2 * i < text.len() ==> unhex(text)->Some_0[i] == digit_of(
            text[2 * i],
        ) * 16 + digit_of(text[2 * i + 1]),
{
    if unhex(text) is Some {
        assert forall|k: int| 0 <= k < text.len() implies ('0' <= #[trigger] text[k] <= '9' || 'a'
            <= text[k] <= 'f' || 'A' <= text[k] <= 'F') by {
            assert(is_hex_digit(text[k]));
        }
        if 0 <= 2 * i < text.len() {
            assert(is_hex_digit(text[2 * i]) && is_hex_digit(text[2 * i + 1]));
        }
    }
}

/// A text in JSON stands between quotes, character by character: quotes and backslashes behind a
/// backslash, what cannot be printed by its short name or its number, and anything else as it is.
pub proof fn law_json_strings(text: Seq<char>, c: char)
    ensures
        json_string_of(text) == seq!['"'] + json_chars(text) + seq!['"'],
        json_chars(Seq::empty()) == Seq::<char>::empty(),
        json_chars(text.push(c)) == json_chars(text) + json_char(c),
        json_char('"') == seq!['\\', '"'],
        json_char('\\') == seq!['\\', '\\'],
        json_char('\u{8}') == seq!['\\', 'b'],
        json_char('\t') == seq!['\\', 't'],
        json_char('\n') == seq!['\\', 'n'],
        json_char('\u{c}') == seq!['\\', 'f'],
        json_char('\r') == seq!['\\', 'r'],
        c >= ' ' && c != '"' && c != '\\' ==> json_char(c) == seq![c],
        (c < ' ' && c != '\u{8}' && c != '\t' && c != '\n' && c != '\u{c}' && c != '\r') ==> {
            let escaped = json_char(c);
            &&& escaped.len() == 6
            &&& escaped[0] == '\\' && escaped[1] == 'u' && escaped[2] == '0' && escaped[3] == '0'
            &&& digit_of(escaped[4]) * 16 + digit_of(escaped[5]) == c as int
        },
{
    assert(text.push(c).drop_last() =~= text);
}

/// What a runtime declares, as JSON: its name, its protocol, its variables, and of its lifecycle what
/// is given.
pub proof fn law_descriptor_json(descriptor: RuntimeDescriptorView, idle: u64, life: u64)
    ensures
        ({
            let front = "{\"name\":"@ + json_string_of(descriptor.name) + ",\"protocol\":\""@
                + protocol_name(descriptor.protocol) + "\",\"environmentVariables\":["@ + join(
                json_strings(descriptor.environment_variables),
                ","@,
            ) + "],\"lifecycleConfiguration\":{"@;
            let times = descriptor.lifecycle_configuration;
            let json = descriptor_json(descriptor);
            let idle_text = "\""@ + "idleRuntimeSessionTimeout"@ + "\":"@ + decimal(idle as nat);
            let life_text = "\""@ + "maxLifetime"@ + "\":"@ + decimal(life as nat);
            &&& times.idle_runtime_session_timeout == Some(idle) && times.max_lifetime == Some(life)
                ==> json == front + (idle_text + ","@ + life_text) + "}}"@
            &&& times.idle_runtime_session_timeout == Some(idle) && times.max_lifetime is None
                ==> json == front + idle_text + "}}"@
            &&& times.idle_runtime_session_timeout is None && times.max_lifetime == Some(life)
                ==> json == front + life_text + "}}"@
            &&& times.idle_runtime_session_timeout is None && times.max_lifetime is None ==> json
                == front + Seq::<char>::empty() + "}}"@
        }),
{
    let idle_text = "\""@ + "idleRuntimeSessionTimeout"@ + "\":"@ + decimal(idle as nat);
    let life_text = "\""@ + "maxLifetime"@ + "\":"@ + decimal(life as nat);
    let none = Seq::<Seq<char>>::empty();
    assert(seq![idle_text] + none =~= seq![idle_text]);
    assert(none + seq![life_text] =~= seq![life_text]);
    assert(none + none =~= none);
    let both = seq![idle_text] + seq![life_text];
    assert(both.drop_last() =~= seq![idle_text]);
    assert(both.drop_first() =~= seq![life_text]);
    reveal_with_fuel(join, 3);
}

/// The names of the protocols, and the texts of a list.
pub proof fn law_descriptor_json_parts(items: Seq<Seq<char>>, i: int)
    ensures
        protocol_name(Protocol::Http) == "HTTP"@,
        protocol_name(Protocol::Mcp) == "MCP"@,
        protocol_name(Protocol::A2a) == "A2A"@,
        protocol_name(Protocol::AgUi) == "AGUI"@,
        json_strings(items).len() == items.len(),
        0 <= i < items.len() ==> json_strings(items)[i] == json_string_of(items[i]),
{
}

/// Putting a value under a name leaves that one value there, and every other name as it was.
pub proof fn law_put_headers(
    headers: Seq<HeaderView>,
    put: Seq<char>,
    value: Seq<u8>,
    name: Seq<char>,
)
    ensures
        ascii_lower(put) == ascii_lower(name) ==> values_of(with_only(headers, put, value), name)
            == seq![value],
        ascii_lower(put) != ascii_lower(name) ==> values_of(with_only(headers, put, value), name)
            == values_of(headers, name),
{
    lemma_values_with_only(headers, put, value, name);
}

/// A text is split at the first separators, into so many parts at most; the last holds the rest.
pub proof fn law_split_n(s: Seq<char>, part: Seq<char>, rest: Seq<char>, sep: char, n: nat)
    requires
        lacks(part, sep),
    ensures
        split_n(s, sep, 1) == seq![s],
        split_n(part, sep, n) == seq![part],
        n > 1 ==> split_n(part + seq![sep] + rest, sep, n) == seq![part] + split_n(
            rest,
            sep,
            (n - 1) as nat,
        ),
{
    law_split_once(part, part, rest, sep);
}

/// A text holds another exactly where that stands between two others.
pub proof fn law_held_texts(before: Seq<char>, part: Seq<char>, behind: Seq<char>, s: Seq<char>)
    ensures
        holds_text(before + part + behind, part),
        holds_text(s, part) ==> exists|a: Seq<char>, b: Seq<char>| s == #[trigger] (a + part + b),
{
    let whole = before + part + behind;
    assert(whole.subrange(before.len() as int, before.len() as int + part.len()) =~= part);
    if holds_text(s, part) {
        let i = choose|i: int|
            0 <= i <= s.len() - part.len() && #[trigger] s.subrange(i, i + part.len()) == part;
        let a = s.take(i);
        let b = s.skip(i + part.len());
        assert(s =~= a + part + b);
    }
}

/// Who does not sign acts for the default region and account.
pub proof fn law_default_identity()
    ensures
        default_identity().region == "us-east-1"@,
        default_identity().account_id == "000000000000"@,
{
}

/// A name of a variable passes exactly where it is one.
pub proof fn law_checked_names(label: Seq<char>, value: Seq<char>)
    ensures
        environment_name_checked(label, value) is Ok <==> is_environment_name(value),
        environment_name_checked(label, value) matches Err(e) ==> e
            == CatalogErrorView::Validation(label + " "@ + value + " is invalid"@),
{
}

} // verus!
