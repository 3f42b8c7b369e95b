//! The parts of a signed request: the authorization header, the canonical request and the
//! signing key.

use vstd::prelude::*;
use vstd::utf8::encode_utf8;

use crate::headers::{text_of, value_of, value_text, values_of, HeaderView, Headers};
use crate::labels::{lookup, Labels};
use crate::order::{sort_ranked, sorted_pairs};
use crate::policy::{denied, AuthorizationError};
use crate::primitives::{hex_encode, hex_text, hmac_sha256, hmac_tag, sha256, sha256_digest};
use crate::text::{
    agrees, cat2, cat3, cat7, char_is_hex_digit, chars_of, is_alnum, is_hex_digit, join,
    join_texts, opt_text, slice_text, split, split_once, split_text, split_text_once, strip_prefix,
    texts, trim, trimmed, views,
};

verus! {

pub const TERMINATOR: &'static str = "aws4_request";

pub const SERVICE: &'static str = "bedrock-agentcore";

pub const AUTHORIZATION_HEADER: &'static str = "authorization";

pub const AMZ_DATE_HEADER: &'static str = "x-amz-date";

pub const AMZ_CONTENT_SHA256_HEADER: &'static str = "x-amz-content-sha256";

pub const AMZ_SECURITY_TOKEN_HEADER: &'static str = "x-amz-security-token";

/// What an authorization header says.
#[derive(Debug)]
pub struct AuthorizationHeader {
    pub access_key_id: String,
    pub date: String,
    pub region: String,
    pub service: String,
    pub terminator: String,
    pub signed_headers: Vec<String>,
    pub signature: String,
}

#[verifier::ext_equal]
pub struct AuthorizationHeaderView {
    pub access_key_id: Seq<char>,
    pub date: Seq<char>,
    pub region: Seq<char>,
    pub service: Seq<char>,
    pub terminator: Seq<char>,
    pub signed_headers: Seq<Seq<char>>,
    pub signature: Seq<char>,
}

impl View for AuthorizationHeader {
    type V = AuthorizationHeaderView;

    open spec fn view(&self) -> AuthorizationHeaderView {
        AuthorizationHeaderView {
            access_key_id: self.access_key_id@,
            date: self.date@,
            region: self.region@,
            service: self.service@,
            terminator: self.terminator@,
            signed_headers: texts(self.signed_headers@),
            signature: self.signature@,
        }
    }
}

/// The fields of `name=value` parameters, read from the left: each must hold a `=`, and no name
/// may come twice.
pub open spec fn fields_of(parameters: Seq<Seq<char>>) -> Result<
    Map<Seq<char>, Seq<char>>,
    Seq<char>,
>
    decreases parameters.len(),
{
    if parameters.len() == 0 {
        Ok(Map::empty())
    } else {
        match fields_of(parameters.drop_last()) {
            Err(e) => Err(e),
            Ok(fields) => match split_once(trimmed(parameters.last()), '=') {
                None => Err("authorization parameter is malformed"@),
                Some(pair) => if fields.contains_key(pair.0) {
                    Err("authorization parameter "@ + pair.0 + " is duplicated"@)
                } else {
                    Ok(fields.insert(pair.0, pair.1))
                },
            },
        }
    }
}

pub open spec fn all_hex(s: Seq<char>) -> bool {
    forall|i: int| 0 <= i < s.len() ==> is_hex_digit(#[trigger] s[i])
}

pub open spec fn some_empty(parts: Seq<Seq<char>>) -> bool {
    exists|i: int| 0 <= i < parts.len() && (#[trigger] parts[i]).len() == 0
}

/// What the fields of an authorization header say.
pub open spec fn header_of_fields(fields: Map<Seq<char>, Seq<char>>) -> Result<
    AuthorizationHeaderView,
    Seq<char>,
> {
    match lookup(fields, "Credential"@) {
        None => Err("authorization has no Credential"@),
        Some(credential) => {
            let scope = split(credential, '/');
            if scope.len() != 5 || some_empty(scope) {
                Err("credential scope is malformed"@)
            } else {
                match lookup(fields, "SignedHeaders"@) {
                    None => Err("authorization has no SignedHeaders"@),
                    Some(signed) => match lookup(fields, "Signature"@) {
                        None => Err("authorization has an invalid Signature"@),
                        Some(signature) => if encode_utf8(signature).len() != 64 {
                            Err("authorization has an invalid Signature"@)
                        } else if !all_hex(signature) {
                            Err("authorization signature is not hexadecimal"@)
                        } else {
                            Ok(
                                AuthorizationHeaderView {
                                    access_key_id: scope[0],
                                    date: scope[1],
                                    region: scope[2],
                                    service: scope[3],
                                    terminator: scope[4],
                                    signed_headers: split(signed, ';'),
                                    signature,
                                },
                            )
                        },
                    },
                }
            }
        },
    }
}

/// What an authorization header says, or why it is refused.
pub open spec fn parsed_authorization(value: Seq<char>) -> Result<
    AuthorizationHeaderView,
    Seq<char>,
> {
    match crate::text::after_prefix(value, "AWS4-HMAC-SHA256 "@) {
        None => Err("authorization algorithm is not AWS4-HMAC-SHA256"@),
        Some(parameters) => match fields_of(split(parameters, ',')) {
            Err(e) => Err(e),
            Ok(fields) => header_of_fields(fields),
        },
    }
}

fn read_fields(parameters: &Vec<String>) -> (r: Result<Labels, AuthorizationError>)
    ensures
        agrees(r, fields_of(texts(parameters@))),
{
    let mut fields = Labels::new();
    let ghost all = texts(parameters@);
    proof {
        assert(fields_of(all.take(0)) == Ok::<Map<Seq<char>, Seq<char>>, Seq<char>>(fields@));
    }
    for i in 0..parameters.len()
        invariant
            all == texts(parameters@),
            fields_of(all.take(i as int)) == Ok::<Map<Seq<char>, Seq<char>>, Seq<char>>(fields@),
    {
        let parameter = trim(parameters[i].as_str());
        proof {
            let upto = all.take(i as int + 1);
            assert(upto.drop_last() =~= all.take(i as int));
            assert(upto.last() == parameters@[i as int]@);
        }
        let ghost step = fields_of(all.take(i as int + 1));
        match split_text_once(parameter.as_str(), '=') {
            None => {
                proof {
                    lemma_fields_error(all, i as int + 1);
                }
                return denied("authorization parameter is malformed");
            },
            Some((name, value)) => {
                if fields.get(name.as_str()).is_some() {
                    proof {
                        lemma_fields_error(all, i as int + 1);
                    }
                    return denied(
                        cat3("authorization parameter ", name.as_str(), " is duplicated").as_str(),
                    );
                }
                fields.insert(name, value);
            },
        }
    }
    proof {
        assert(all.take(all.len() as int) =~= all);
    }
    Ok(fields)
}

/// An error among the first parameters is the error of them all.
proof fn lemma_fields_error(all: Seq<Seq<char>>, n: int)
    requires
        0 <= n <= all.len(),
        fields_of(all.take(n)) is Err,
    ensures
        fields_of(all) == fields_of(all.take(n)),
    decreases all.len() - n,
{
    if n < all.len() {
        assert(all.take(n + 1).drop_last() =~= all.take(n));
        lemma_fields_error(all, n + 1);
    } else {
        assert(all.take(n) =~= all);
    }
}

fn any_empty(parts: &Vec<String>) -> (r: bool)
    ensures
        r == some_empty(texts(parts@)),
{
    for i in 0..parts.len()
        invariant
            forall|k: int| 0 <= k < i ==> (#[trigger] texts(parts@)[k]).len() != 0,
    {
        proof {
            assert(texts(parts@)[i as int] == parts@[i as int]@);
        }
        if parts[i].as_str().is_empty() {
            return true;
        }
    }
    false
}

fn is_all_hex(s: &str) -> (r: bool)
    ensures
        r == all_hex(s@),
{
    let chars = chars_of(s);
    for i in 0..chars.len()
        invariant
            chars@ == s@,
            forall|k: int| 0 <= k < i ==> is_hex_digit(#[trigger] s@[k]),
    {
        if !char_is_hex_digit(chars[i]) {
            proof {
                assert(!is_hex_digit(s@[i as int]));
            }
            return false;
        }
    }
    true
}

fn header_from_fields(fields: &Labels) -> (r: Result<AuthorizationHeader, AuthorizationError>)
    ensures
        agrees(r, header_of_fields(fields@)),
{
    let credential = match fields.get("Credential") {
        None => {
            return denied("authorization has no Credential");
        },
        Some(value) => value,
    };
    let scope = split_text(credential.as_str(), '/');
    proof {
        assert(texts(scope@).len() == scope@.len());
    }
    if scope.len() != 5 || any_empty(&scope) {
        return denied("credential scope is malformed");
    }
    let signed = match fields.get("SignedHeaders") {
        None => {
            return denied("authorization has no SignedHeaders");
        },
        Some(value) => value,
    };
    let signature = match fields.get("Signature") {
        None => {
            return denied("authorization has an invalid Signature");
        },
        Some(value) => value,
    };
    if signature.as_str().as_bytes().len() != 64 {
        return denied("authorization has an invalid Signature");
    }
    if !is_all_hex(signature.as_str()) {
        return denied("authorization signature is not hexadecimal");
    }
    let header = AuthorizationHeader {
        access_key_id: scope[0].clone(),
        date: scope[1].clone(),
        region: scope[2].clone(),
        service: scope[3].clone(),
        terminator: scope[4].clone(),
        signed_headers: split_text(signed.as_str(), ';'),
        signature: signature.clone(),
    };
    proof {
        let parts = texts(scope@);
        assert(parts[0] == scope@[0]@);
        assert(parts[1] == scope@[1]@);
        assert(parts[2] == scope@[2]@);
        assert(parts[3] == scope@[3]@);
        assert(parts[4] == scope@[4]@);
    }
    Ok(header)
}

pub fn parse_authorization(value: &str) -> (r: Result<AuthorizationHeader, AuthorizationError>)
    ensures
        agrees(r, parsed_authorization(value@)),
{
    match strip_prefix(value, "AWS4-HMAC-SHA256 ") {
        None => denied("authorization algorithm is not AWS4-HMAC-SHA256"),
        Some(parameters) => {
            let parts = split_text(parameters.as_str(), ',');
            match read_fields(&parts) {
                Err(e) => Err(e),
                Ok(fields) => header_from_fields(&fields),
            }
        },
    }
}

// Headers that must be there, as text.

pub open spec fn not_text(name: Seq<char>) -> Seq<char> {
    "header "@ + name + " is not valid text"@
}

pub open spec fn header_text_of(value: Seq<u8>, name: Seq<char>) -> Result<Seq<char>, Seq<char>> {
    match text_of(value) {
        Some(text) => Ok(text),
        None => Err(not_text(name)),
    }
}

pub fn header_text(value: &Vec<u8>, name: &str) -> (r: Result<String, AuthorizationError>)
    ensures
        agrees(r, header_text_of(value@, name@)),
{
    match value_text(value) {
        Some(text) => Ok(text),
        None => denied(cat3("header ", name, " is not valid text").as_str()),
    }
}

pub open spec fn required_header_of(headers: Seq<HeaderView>, name: Seq<char>) -> Result<
    Seq<char>,
    Seq<char>,
> {
    match value_of(headers, name) {
        None => Err("required header "@ + name + " is missing"@),
        Some(value) => header_text_of(value, name),
    }
}

pub fn required_header(headers: &Headers, name: &str) -> (r: Result<String, AuthorizationError>)
    ensures
        agrees(r, required_header_of(headers@, name@)),
{
    match headers.get(name) {
        None => denied(cat3("required header ", name, " is missing").as_str()),
        Some(value) => header_text(&value, name),
    }
}

/// A header as text, where it is there.
pub open spec fn optional_header_of(headers: Seq<HeaderView>, name: Seq<char>) -> Result<
    Option<Seq<char>>,
    Seq<char>,
> {
    match value_of(headers, name) {
        None => Ok(None),
        Some(value) => match header_text_of(value, name) {
            Ok(text) => Ok(Some(text)),
            Err(e) => Err(e),
        },
    }
}

pub fn optional_header(headers: &Headers, name: &str) -> (r: Result<
    Option<String>,
    AuthorizationError,
>)
    ensures
        match (r, optional_header_of(headers@, name@)) {
            (Ok(a), Ok(b)) => opt_text(a) == b,
            (Err(a), Err(b)) => a@ == b,
            _ => false,
        },
{
    match headers.get(name) {
        None => Ok(None),
        Some(value) => match header_text(&value, name) {
            Ok(text) => Ok(Some(text)),
            Err(e) => Err(e),
        },
    }
}

// The canonical request.

pub open spec fn is_ascii_space(c: char) -> bool {
    c == ' ' || c == '\t' || c == '\n' || c == '\u{c}' || c == '\r'
}

/// How many characters stand before the first ASCII white space.
pub open spec fn word_len(s: Seq<char>) -> nat
    decreases s.len(),
{
    if s.len() == 0 || is_ascii_space(s[0]) {
        0
    } else {
        1 + word_len(s.drop_first())
    }
}

pub proof fn lemma_word_len(s: Seq<char>, n: nat)
    requires
        n <= s.len(),
        forall|k: int| 0 <= k < n ==> !is_ascii_space(#[trigger] s[k]),
        n < s.len() ==> is_ascii_space(s[n as int]),
    ensures
        word_len(s) == n,
    decreases s.len(),
{
    if n > 0 {
        assert(!is_ascii_space(s[0]));
        let t = s.drop_first();
        assert forall|k: int| 0 <= k < n - 1 implies !is_ascii_space(#[trigger] t[k]) by {
            assert(t[k] == s[k + 1]);
        }
        lemma_word_len(t, (n - 1) as nat);
    }
}

pub proof fn lemma_word_len_bound(s: Seq<char>)
    ensures
        word_len(s) <= s.len(),
    decreases s.len(),
{
    if s.len() > 0 && !is_ascii_space(s[0]) {
        lemma_word_len_bound(s.drop_first());
    }
}

/// The runs of characters that are no ASCII white space.
pub open spec fn words(s: Seq<char>) -> Seq<Seq<char>>
    decreases s.len(),
{
    if s.len() == 0 {
        Seq::empty()
    } else if is_ascii_space(s[0]) {
        words(s.drop_first())
    } else {
        let n = word_len(s) as int;
        proof {
            lemma_word_len_bound(s);
        }
        seq![s.take(n)] + words(s.skip(n))
    }
}

fn char_is_ascii_space(c: char) -> (r: bool)
    ensures
        r == is_ascii_space(c),
{
    c == ' ' || c == '\t' || c == '\n' || c == '\u{c}' || c == '\r'
}

/// The words of a header value with one space between each two.
pub open spec fn normalized(value: Seq<char>) -> Seq<char> {
    join(words(value), " "@)
}

pub fn normalize_header_value(value: &str) -> (r: String)
    ensures
        r@ == normalized(value@),
{
    let chars = chars_of(value);
    let mut found: Vec<String> = Vec::new();
    let mut at: usize = 0;
    proof {
        assert(value@.skip(0) =~= value@);
        assert(texts(found@) + words(value@) =~= words(value@));
    }
    while at < chars.len()
        invariant
            chars@ == value@,
            at <= chars@.len(),
            texts(found@) + words(value@.skip(at as int)) == words(value@),
        decreases chars@.len() - at,
    {
        let ghost rest = value@.skip(at as int);
        if char_is_ascii_space(chars[at]) {
            proof {
                assert(rest.drop_first() =~= value@.skip(at + 1));
            }
            at = at + 1;
        } else {
            let from = at;
            while at < chars.len() && !char_is_ascii_space(chars[at])
                invariant
                    from <= at <= chars@.len(),
                    forall|k: int| from <= k < at ==> !is_ascii_space(#[trigger] chars@[k]),
                decreases chars@.len() - at,
            {
                at = at + 1;
            }
            proof {
                assert(at > from) by {
                    if at == from {
                        assert(is_ascii_space(chars@[from as int]));
                    }
                }
                lemma_word_len(rest, (at - from) as nat);
                assert(rest.take(at - from) =~= value@.subrange(from as int, at as int));
                assert(rest.skip(at - from) =~= value@.skip(at as int));
            }
            let ghost before = found@;
            let word = slice_text(&chars, from, at);
            found.push(word);
            proof {
                assert(texts(found@) =~= texts(before).push(word@));
                assert(texts(found@) + words(value@.skip(at as int)) =~= texts(before) + words(
                    rest,
                ));
            }
        }
    }
    proof {
        assert(words(value@.skip(at as int)) =~= Seq::empty());
        assert(texts(found@) =~= words(value@));
    }
    join_texts(&found, " ")
}

pub open spec fn upper_hex_digit(n: int) -> char {
    if n < 10 {
        (48 + n) as char
    } else {
        (55 + n) as char
    }
}

/// A byte in a URI: itself where it is unreserved, else `%` and two upper-case digits.
pub open spec fn encoded_byte(byte: u8, preserve_slash: bool) -> Seq<char> {
    let c = byte as char;
    if is_alnum(c) || c == '-' || c == '_' || c == '.' || c == '~' || (preserve_slash && c == '/') {
        seq![c]
    } else {
        seq!['%', upper_hex_digit(byte as int / 16), upper_hex_digit(byte as int % 16)]
    }
}

pub open spec fn uri_encoded(bytes: Seq<u8>, preserve_slash: bool) -> Seq<char>
    decreases bytes.len(),
{
    if bytes.len() == 0 {
        Seq::empty()
    } else {
        uri_encoded(bytes.drop_last(), preserve_slash) + encoded_byte(bytes.last(), preserve_slash)
    }
}

fn upper_hex(n: u8) -> (r: char)
    requires
        n < 16,
    ensures
        r == upper_hex_digit(n as int),
{
    if n < 10 {
        (48 + n) as char
    } else {
        (55 + n) as char
    }
}

pub fn uri_encode(value: &[u8], preserve_slash: bool) -> (r: String)
    ensures
        r@ == uri_encoded(value@, preserve_slash),
{
    let mut encoded = String::new();
    for i in 0..value.len()
        invariant
            encoded@ == uri_encoded(value@.take(i as int), preserve_slash),
    {
        let byte = value[i];
        let c = byte as char;
        proof {
            let upto = value@.take(i as int + 1);
            assert(upto.drop_last() =~= value@.take(i as int));
            assert(upto.last() == byte);
        }
        let ghost before = encoded@;
        if crate::text::char_is_alnum(c) || c == '-' || c == '_' || c == '.' || c == '~' || (
        preserve_slash && c == '/') {
            encoded.push(c);
        } else {
            encoded.push('%');
            encoded.push(upper_hex(byte / 16));
            encoded.push(upper_hex(byte % 16));
        }
        proof {
            assert(encoded@ =~= before + encoded_byte(byte, preserve_slash));
        }
    }
    proof {
        assert(value@.take(value@.len() as int) =~= value@);
    }
    encoded
}

pub open spec fn canonical_uri_of(path: Seq<char>) -> Seq<char> {
    uri_encoded(
        encode_utf8(
            if path.len() == 0 {
                "/"@
            } else {
                path
            },
        ),
        true,
    )
}

pub fn canonical_uri(path: &str) -> (r: String)
    ensures
        r@ == canonical_uri_of(path@),
{
    if path.is_empty() {
        uri_encode("/".as_bytes(), true)
    } else {
        uri_encode(path.as_bytes(), true)
    }
}

/// A query parameter: its name and its value, which is empty without a `=`.
pub open spec fn query_pair(parameter: Seq<char>) -> (Seq<char>, Seq<char>) {
    match split_once(parameter, '=') {
        Some(pair) => pair,
        None => (parameter, Seq::empty()),
    }
}

/// The parameters that are not empty, as pairs.
pub open spec fn query_pairs(parts: Seq<Seq<char>>) -> Seq<(Seq<char>, Seq<char>)>
    decreases parts.len(),
{
    if parts.len() == 0 {
        Seq::empty()
    } else if parts.last().len() == 0 {
        query_pairs(parts.drop_last())
    } else {
        query_pairs(parts.drop_last()).push(query_pair(parts.last()))
    }
}

pub open spec fn written_pair(pair: (Seq<char>, Seq<char>)) -> Seq<char> {
    pair.0 + "="@ + pair.1
}

/// The query with its parameters in ascending order, each with a `=`.
pub open spec fn canonical_query_of(query: Seq<char>) -> Seq<char> {
    join(
        sorted_pairs(query_pairs(split(query, '&'))).map_values(
            |pair: (Seq<char>, Seq<char>)| written_pair(pair),
        ),
        "&"@,
    )
}

pub fn canonical_query(query: Option<&str>) -> (r: String)
    ensures
        r@ == canonical_query_of(
            (match query {
                Some(text) => text@,
                None => Seq::empty(),
            }),
        ),
{
    let text = match query {
        Some(text) => text,
        None => "",
    };
    proof {
        reveal_strlit("");
        assert(""@ =~= Seq::empty());
    }
    let parts = split_text(text, '&');
    let ghost all = texts(parts@);
    let mut pairs: Vec<(String, String)> = Vec::new();
    proof {
        assert(views(pairs@) =~= query_pairs(all.take(0)));
    }
    for i in 0..parts.len()
        invariant
            all == texts(parts@),
            views(pairs@) == query_pairs(all.take(i as int)),
    {
        let part = parts[i].as_str();
        proof {
            let upto = all.take(i as int + 1);
            assert(upto.drop_last() =~= all.take(i as int));
            assert(upto.last() == part@);
        }
        if !part.is_empty() {
            let ghost before = pairs@;
            let pair = match split_text_once(part, '=') {
                Some(pair) => pair,
                None => (part.to_owned(), String::new()),
            };
            pairs.push(pair);
            proof {
                assert(pair@ == query_pair(part@));
                assert(views(pairs@) =~= views(before).push(pair@));
            }
        }
    }
    proof {
        assert(all.take(all.len() as int) =~= all);
    }
    let ordered = sort_ranked(pairs);
    let mut written: Vec<String> = Vec::new();
    let ghost wanted = views(ordered@).map_values(
        |pair: (Seq<char>, Seq<char>)| written_pair(pair),
    );
    for i in 0..ordered.len()
        invariant
            wanted == views(ordered@).map_values(
                |pair: (Seq<char>, Seq<char>)| written_pair(pair),
            ),
            texts(written@) == wanted.take(i as int),
    {
        let ghost before = written@;
        let item = cat3(ordered[i].0.as_str(), "=", ordered[i].1.as_str());
        written.push(item);
        proof {
            assert(wanted[i as int] == written_pair(ordered@[i as int]@));
            assert(texts(written@) =~= texts(before).push(item@));
            assert(texts(written@) =~= wanted.take(i as int + 1));
        }
    }
    proof {
        assert(wanted.take(wanted.len() as int) =~= wanted);
    }
    join_texts(&written, "&")
}

/// The normalized texts of header values, where all of them are text.
pub open spec fn normalized_values(values: Seq<Seq<u8>>, name: Seq<char>) -> Result<
    Seq<Seq<char>>,
    Seq<char>,
>
    decreases values.len(),
{
    if values.len() == 0 {
        Ok(Seq::empty())
    } else {
        match normalized_values(values.drop_last(), name) {
            Err(e) => Err(e),
            Ok(before) => match text_of(values.last()) {
                None => Err(not_text(name)),
                Some(text) => Ok(before.push(normalized(text))),
            },
        }
    }
}

proof fn lemma_normalized_error(values: Seq<Seq<u8>>, name: Seq<char>, n: int)
    requires
        0 <= n <= values.len(),
        normalized_values(values.take(n), name) is Err,
    ensures
        normalized_values(values, name) == normalized_values(values.take(n), name),
    decreases values.len() - n,
{
    if n < values.len() {
        assert(values.take(n + 1).drop_last() =~= values.take(n));
        lemma_normalized_error(values, name, n + 1);
    } else {
        assert(values.take(n) =~= values);
    }
}

/// The line of one signed header: its name, a colon, and its values with commas between them.
pub open spec fn header_line(headers: Seq<HeaderView>, name: Seq<char>) -> Result<
    Seq<char>,
    Seq<char>,
> {
    match normalized_values(values_of(headers, name), name) {
        Err(e) => Err(e),
        Ok(values) => if values.len() == 0 {
            Err("signed header "@ + name + " is missing"@)
        } else {
            Ok(name + ":"@ + join(values, ","@) + "\n"@)
        },
    }
}

fn write_header_line(headers: &Headers, name: &str) -> (r: Result<String, AuthorizationError>)
    ensures
        agrees(r, header_line(headers@, name@)),
{
    let found = headers.get_all(name);
    let ghost all = values_of(headers@, name@);
    let mut values: Vec<String> = Vec::new();
    proof {
        assert(texts(values@) =~= Seq::empty());
    }
    for i in 0..found.len()
        invariant
            all == values_of(headers@, name@),
            found@.len() == all.len(),
            forall|k: int| 0 <= k < found@.len() ==> (#[trigger] found@[k])@ == all[k],
            normalized_values(all.take(i as int), name@) == Ok::<Seq<Seq<char>>, Seq<char>>(
                texts(values@),
            ),
    {
        proof {
            let upto = all.take(i as int + 1);
            assert(upto.drop_last() =~= all.take(i as int));
            assert(upto.last() == found@[i as int]@);
        }
        match header_text(&found[i], name) {
            Err(e) => {
                proof {
                    lemma_normalized_error(all, name@, i as int + 1);
                }
                return Err(e);
            },
            Ok(text) => {
                let ghost before = values@;
                let value = normalize_header_value(text.as_str());
                values.push(value);
                proof {
                    assert(texts(values@) =~= texts(before).push(value@));
                }
            },
        }
    }
    proof {
        assert(all.take(all.len() as int) =~= all);
        assert(texts(values@).len() == values@.len());
    }
    if values.len() == 0 {
        return denied(cat3("signed header ", name, " is missing").as_str());
    }
    let joined = join_texts(&values, ",");
    Ok(crate::text::cat4(name, ":", joined.as_str(), "\n"))
}

/// The lines of the signed headers, in their order.
pub open spec fn header_lines(headers: Seq<HeaderView>, names: Seq<Seq<char>>) -> Result<
    Seq<char>,
    Seq<char>,
>
    decreases names.len(),
{
    if names.len() == 0 {
        Ok(Seq::empty())
    } else {
        match header_lines(headers, names.drop_last()) {
            Err(e) => Err(e),
            Ok(before) => match header_line(headers, names.last()) {
                Err(e) => Err(e),
                Ok(line) => Ok(before + line),
            },
        }
    }
}

proof fn lemma_header_lines_error(headers: Seq<HeaderView>, names: Seq<Seq<char>>, n: int)
    requires
        0 <= n <= names.len(),
        header_lines(headers, names.take(n)) is Err,
    ensures
        header_lines(headers, names) == header_lines(headers, names.take(n)),
    decreases names.len() - n,
{
    if n < names.len() {
        assert(names.take(n + 1).drop_last() =~= names.take(n));
        lemma_header_lines_error(headers, names, n + 1);
    } else {
        assert(names.take(n) =~= names);
    }
}

fn write_header_lines(headers: &Headers, names: &Vec<String>) -> (r: Result<
    String,
    AuthorizationError,
>)
    ensures
        agrees(r, header_lines(headers@, texts(names@))),
{
    let mut out = String::new();
    let ghost all = texts(names@);
    for i in 0..names.len()
        invariant
            all == texts(names@),
            header_lines(headers@, all.take(i as int)) == Ok::<Seq<char>, Seq<char>>(out@),
    {
        proof {
            let upto = all.take(i as int + 1);
            assert(upto.drop_last() =~= all.take(i as int));
            assert(upto.last() == names@[i as int]@);
        }
        match write_header_line(headers, names[i].as_str()) {
            Err(e) => {
                proof {
                    lemma_header_lines_error(headers@, all, i as int + 1);
                }
                return Err(e);
            },
            Ok(line) => {
                out.append(line.as_str());
            },
        }
    }
    proof {
        assert(all.take(all.len() as int) =~= all);
    }
    Ok(out)
}

/// What a signature covers: the method, path, query, signed headers and payload digest.
pub open spec fn canonical_request_of(
    method: Seq<char>,
    path: Seq<char>,
    query: Option<Seq<char>>,
    headers: Seq<HeaderView>,
    signed_headers: Seq<Seq<char>>,
    payload_hash: Seq<char>,
) -> Result<Seq<char>, Seq<char>> {
    match header_lines(headers, signed_headers) {
        Err(e) => Err(e),
        Ok(lines) => Ok(
            method + "\n"@ + canonical_uri_of(path) + "\n"@ + canonical_query_of(
                (match query {
                    Some(text) => text,
                    None => Seq::empty(),
                }),
            ) + "\n"@ + lines + "\n"@ + join(signed_headers, ";"@) + "\n"@ + payload_hash,
        ),
    }
}

pub fn canonical_request(
    method: &str,
    path: &str,
    query: Option<&str>,
    headers: &Headers,
    signed_headers: &Vec<String>,
    payload_hash: &str,
) -> (r: Result<String, AuthorizationError>)
    ensures
        agrees(
            r,
            canonical_request_of(
                method@,
                path@,
                (match query {
                    Some(text) => Some(text@),
                    None => None,
                }),
                headers@,
                texts(signed_headers@),
                payload_hash@,
            ),
        ),
{
    match write_header_lines(headers, signed_headers) {
        Err(e) => Err(e),
        Ok(lines) => {
            let uri = canonical_uri(path);
            let parameters = canonical_query(query);
            let names = join_texts(signed_headers, ";");
            let mut out = cat7(
                method,
                "\n",
                uri.as_str(),
                "\n",
                parameters.as_str(),
                "\n",
                lines.as_str(),
            );
            out.append("\n");
            out.append(names.as_str());
            out.append("\n");
            out.append(payload_hash);
            Ok(out)
        },
    }
}

/// The digest of a byte string in hexadecimal.
pub open spec fn sha256_hex_of(value: Seq<u8>) -> Seq<char> {
    hex_text(sha256(value))
}

pub fn sha256_hex(value: &[u8]) -> (r: String)
    ensures
        r@ == sha256_hex_of(value@),
{
    hex_encode(sha256_digest(value).as_slice())
}

/// The key that signs requests of one day, region and service.
pub open spec fn signing_key_of(
    secret: Seq<char>,
    date: Seq<char>,
    region: Seq<char>,
    service: Seq<char>,
) -> Seq<u8> {
    let date_key = hmac_tag(encode_utf8("AWS4"@ + secret), encode_utf8(date));
    let region_key = hmac_tag(date_key, encode_utf8(region));
    let service_key = hmac_tag(region_key, encode_utf8(service));
    hmac_tag(service_key, encode_utf8("aws4_request"@))
}

pub fn signing_key(secret: &str, date: &str, region: &str, service: &str) -> (r: Vec<u8>)
    ensures
        r@ == signing_key_of(secret@, date@, region@, service@),
{
    let seed = cat2("AWS4", secret);
    let date_key = hmac_sha256(seed.as_str().as_bytes(), date.as_bytes());
    let region_key = hmac_sha256(date_key.as_slice(), region.as_bytes());
    let service_key = hmac_sha256(region_key.as_slice(), service.as_bytes());
    hmac_sha256(service_key.as_slice(), TERMINATOR.as_bytes())
}

} // verus!
