//! Text as a sequence of characters: slicing, splitting, trimming, ordering and numbers.
//!
//! The view of `str` and `String` is `Seq<char>`. Every function here is stated over that view,
//! so the rest of the library can describe its results as plain sequences.

use vstd::prelude::*;
use vstd::utf8::{decode_utf8, encode_utf8, valid_utf8};

verus! {

/// `String::push` appends one character at the end.
pub assume_specification[ String::push ](s: &mut String, c: char)
    ensures
        final(s)@ == old(s)@.push(c),
;

/// `std::str::from_utf8`: the text of bytes that are UTF-8, and nothing for others.
#[verifier::external_body]
pub(crate) fn utf8_text(bytes: &[u8]) -> (r: Option<String>)
    ensures
        match r {
            Some(text) => valid_utf8(bytes@) && text@ == decode_utf8(bytes@),
            None => !valid_utf8(bytes@),
        },
{
    std::str::from_utf8(bytes).ok().map(str::to_owned)
}

/// The views of the items of a list.
pub open spec fn views<T: View>(list: Seq<T>) -> Seq<T::V> {
    list.map_values(|item: T| item@)
}

/// The views of a list of strings.
#[verifier::inline]
pub open spec fn texts(list: Seq<String>) -> Seq<Seq<char>> {
    views(list)
}

/// The views of an optional string.
pub open spec fn opt_text(value: Option<String>) -> Option<Seq<char>> {
    match value {
        Some(s) => Some(s@),
        None => None,
    }
}

/// An outcome in executable types agrees with an outcome in specification types.
pub open spec fn agrees<T: View, E: View>(
    actual: Result<T, E>,
    expected: Result<T::V, E::V>,
) -> bool {
    match (actual, expected) {
        (Ok(a), Ok(b)) => a@ == b,
        (Err(a), Err(b)) => a@ == b,
        _ => false,
    }
}

pub fn chars_of(s: &str) -> (r: Vec<char>)
    ensures
        r@ == s@,
{
    let mut out: Vec<char> = Vec::new();
    for c in it: s.chars()
        invariant
            out@ == it.seq().take(it.index()),
            it.seq() == s@,
    {
        out.push(c);
    }
    out
}

/// The characters `from..to` of a character list as a string.
pub fn slice_text(chars: &Vec<char>, from: usize, to: usize) -> (r: String)
    requires
        from <= to <= chars@.len(),
    ensures
        r@ == chars@.subrange(from as int, to as int),
{
    let mut out = String::new();
    let mut i: usize = from;
    while i < to
        invariant
            from <= i <= to <= chars@.len(),
            out@ == chars@.subrange(from as int, i as int),
        decreases to - i,
    {
        out.push(chars[i]);
        i = i + 1;
    }
    out
}

/// Whether two texts hold the same characters.
pub fn same(a: &str, b: &str) -> (r: bool)
    ensures
        r == (a@ == b@),
{
    a.to_owned() == b.to_owned()
}

pub fn same_opt(a: &Option<String>, b: &Option<String>) -> (r: bool)
    ensures
        r == (opt_text(*a) == opt_text(*b)),
{
    match (a, b) {
        (Some(x), Some(y)) => same(x.as_str(), y.as_str()),
        (None, None) => true,
        _ => false,
    }
}

pub fn clone_opt(value: &Option<String>) -> (r: Option<String>)
    ensures
        opt_text(r) == opt_text(*value),
{
    match value {
        Some(s) => Some(s.clone()),
        None => None,
    }
}

pub fn clone_texts(list: &Vec<String>) -> (r: Vec<String>)
    ensures
        texts(r@) == texts(list@),
{
    let mut out: Vec<String> = Vec::new();
    for i in 0..list.len()
        invariant
            texts(out@) == texts(list@).take(i as int),
    {
        let ghost before = out@;
        out.push(list[i].clone());
        proof {
            assert(texts(out@) =~= texts(before).push(list@[i as int]@));
            assert(texts(out@) =~= texts(list@).take(i as int + 1));
        }
    }
    proof {
        assert(texts(list@).take(list@.len() as int) =~= texts(list@));
    }
    out
}

pub fn contains_text(list: &Vec<String>, s: &str) -> (r: bool)
    ensures
        r == texts(list@).contains(s@),
{
    for i in 0..list.len()
        invariant
            forall|k: int| 0 <= k < i ==> texts(list@)[k] != s@,
    {
        if same(list[i].as_str(), s) {
            proof {
                assert(texts(list@)[i as int] == s@);
            }
            return true;
        }
        proof {
            assert(texts(list@)[i as int] != s@);
        }
    }
    false
}

pub fn cat2(a: &str, b: &str) -> (r: String)
    ensures
        r@ == a@ + b@,
{
    let mut out = a.to_owned();
    out.append(b);
    out
}

pub fn cat3(a: &str, b: &str, c: &str) -> (r: String)
    ensures
        r@ == a@ + b@ + c@,
{
    let mut out = cat2(a, b);
    out.append(c);
    out
}

pub fn cat4(a: &str, b: &str, c: &str, d: &str) -> (r: String)
    ensures
        r@ == a@ + b@ + c@ + d@,
{
    let mut out = cat3(a, b, c);
    out.append(d);
    out
}

pub fn cat5(a: &str, b: &str, c: &str, d: &str, e: &str) -> (r: String)
    ensures
        r@ == a@ + b@ + c@ + d@ + e@,
{
    let mut out = cat4(a, b, c, d);
    out.append(e);
    out
}

pub fn cat6(a: &str, b: &str, c: &str, d: &str, e: &str, f: &str) -> (r: String)
    ensures
        r@ == a@ + b@ + c@ + d@ + e@ + f@,
{
    let mut out = cat5(a, b, c, d, e);
    out.append(f);
    out
}

pub fn cat7(a: &str, b: &str, c: &str, d: &str, e: &str, f: &str, g: &str) -> (r: String)
    ensures
        r@ == a@ + b@ + c@ + d@ + e@ + f@ + g@,
{
    let mut out = cat6(a, b, c, d, e, f);
    out.append(g);
    out
}

// Character classes.

pub open spec fn is_digit(c: char) -> bool {
    '0' <= c <= '9'
}

pub open spec fn is_lower(c: char) -> bool {
    'a' <= c <= 'z'
}

pub open spec fn is_upper(c: char) -> bool {
    'A' <= c <= 'Z'
}

pub open spec fn is_alpha(c: char) -> bool {
    is_lower(c) || is_upper(c)
}

pub open spec fn is_alnum(c: char) -> bool {
    is_alpha(c) || is_digit(c)
}

pub open spec fn is_hex_digit(c: char) -> bool {
    is_digit(c) || 'a' <= c <= 'f' || 'A' <= c <= 'F'
}

/// The characters with Unicode's `White_Space` property.
pub open spec fn is_space(c: char) -> bool {
    ||| '\u{9}' <= c <= '\u{d}'
    ||| c == ' '
    ||| c == '\u{85}'
    ||| c == '\u{a0}'
    ||| c == '\u{1680}'
    ||| '\u{2000}' <= c <= '\u{200a}'
    ||| c == '\u{2028}'
    ||| c == '\u{2029}'
    ||| c == '\u{202f}'
    ||| c == '\u{205f}'
    ||| c == '\u{3000}'
}

pub fn char_is_digit(c: char) -> (r: bool)
    ensures
        r == is_digit(c),
{
    '0' <= c && c <= '9'
}

pub fn char_is_lower(c: char) -> (r: bool)
    ensures
        r == is_lower(c),
{
    'a' <= c && c <= 'z'
}

pub fn char_is_upper(c: char) -> (r: bool)
    ensures
        r == is_upper(c),
{
    'A' <= c && c <= 'Z'
}

pub fn char_is_alnum(c: char) -> (r: bool)
    ensures
        r == is_alnum(c),
{
    char_is_lower(c) || char_is_upper(c) || char_is_digit(c)
}

pub fn char_is_hex_digit(c: char) -> (r: bool)
    ensures
        r == is_hex_digit(c),
{
    char_is_digit(c) || ('a' <= c && c <= 'f') || ('A' <= c && c <= 'F')
}

pub fn char_is_space(c: char) -> (r: bool)
    ensures
        r == is_space(c),
{
    ('\u{9}' <= c && c <= '\u{d}') || c == ' ' || c == '\u{85}' || c == '\u{a0}' || c == '\u{1680}'
        || ('\u{2000}' <= c && c <= '\u{200a}') || c == '\u{2028}' || c == '\u{2029}' || c
        == '\u{202f}' || c == '\u{205f}' || c == '\u{3000}'
}

// ASCII case.

pub open spec fn lower_char(c: char) -> char {
    if is_upper(c) {
        (c as u32 + 32) as char
    } else {
        c
    }
}

pub open spec fn ascii_lower(s: Seq<char>) -> Seq<char> {
    s.map_values(|c: char| lower_char(c))
}

fn shift_char_up(c: char) -> (r: char)
    ensures
        r == lower_char(c),
{
    if char_is_upper(c) {
        (c as u8 + 32) as char
    } else {
        c
    }
}

pub fn to_ascii_lower(s: &str) -> (r: String)
    ensures
        r@ == ascii_lower(s@),
{
    let chars = chars_of(s);
    let mut out = String::new();
    for i in 0..chars.len()
        invariant
            chars@ == s@,
            out@ == ascii_lower(s@).take(i as int),
    {
        out.push(shift_char_up(chars[i]));
        proof {
            assert(out@ =~= ascii_lower(s@).take(i as int + 1));
        }
    }
    proof {
        assert(ascii_lower(s@).take(s@.len() as int) =~= ascii_lower(s@));
    }
    out
}

// Prefixes, trimming and splitting.

pub open spec fn starts_with(s: Seq<char>, prefix: Seq<char>) -> bool {
    prefix.len() <= s.len() && s.subrange(0, prefix.len() as int) == prefix
}

/// The text behind `prefix`, where the text starts with it.
pub open spec fn after_prefix(s: Seq<char>, prefix: Seq<char>) -> Option<Seq<char>> {
    if starts_with(s, prefix) {
        Some(s.skip(prefix.len() as int))
    } else {
        None
    }
}

/// Whether `part` occurs anywhere in `s`.
pub open spec fn holds_text(s: Seq<char>, part: Seq<char>) -> bool {
    exists|i: int|
        0 <= i <= s.len() - part.len() && #[trigger] s.subrange(i, i + part.len()) == part
}

pub fn has_prefix(s: &str, prefix: &str) -> (r: bool)
    ensures
        r == starts_with(s@, prefix@),
{
    let chars = chars_of(s);
    let head = chars_of(prefix);
    if head.len() > chars.len() {
        return false;
    }
    for i in 0..head.len()
        invariant
            chars@ == s@,
            head@ == prefix@,
            head@.len() <= chars@.len(),
            forall|k: int| 0 <= k < i ==> chars@[k] == head@[k],
    {
        if chars[i] != head[i] {
            proof {
                assert(s@.subrange(0, prefix@.len() as int)[i as int] != prefix@[i as int]);
            }
            return false;
        }
    }
    proof {
        assert(s@.subrange(0, prefix@.len() as int) =~= prefix@);
    }
    true
}

pub fn contains_part(s: &str, part: &str) -> (r: bool)
    ensures
        r == holds_text(s@, part@),
{
    let chars = chars_of(s);
    let count = chars_of(part).len();
    if count > chars.len() {
        return false;
    }
    let last: usize = chars.len() - count;
    let mut i: usize = 0;
    loop
        invariant
            chars@ == s@,
            count == part@.len(),
            last == s@.len() - count,
            s@.len() <= usize::MAX,
            i <= last,
            forall|k: int| 0 <= k < i ==> #[trigger] s@.subrange(k, k + part@.len()) != part@,
        decreases last - i,
    {
        let piece = slice_text(&chars, i, i + count);
        if same(piece.as_str(), part) {
            proof {
                assert(s@.subrange(i as int, i + part@.len()) == part@);
            }
            return true;
        }
        if i == last {
            return false;
        }
        i = i + 1;
    }
}

pub fn strip_prefix(s: &str, prefix: &str) -> (r: Option<String>)
    ensures
        opt_text(r) == after_prefix(s@, prefix@),
{
    if has_prefix(s, prefix) {
        let chars = chars_of(s);
        let count = chars_of(prefix).len();
        let rest = slice_text(&chars, count, chars.len());
        proof {
            assert(rest@ =~= s@.skip(prefix@.len() as int));
        }
        Some(rest)
    } else {
        None
    }
}

pub open spec fn trim_start(s: Seq<char>) -> Seq<char>
    decreases s.len(),
{
    if s.len() > 0 && is_space(s[0]) {
        trim_start(s.drop_first())
    } else {
        s
    }
}

pub open spec fn trim_end(s: Seq<char>) -> Seq<char>
    decreases s.len(),
{
    if s.len() > 0 && is_space(s.last()) {
        trim_end(s.drop_last())
    } else {
        s
    }
}

/// The text without leading and trailing white space.
pub open spec fn trimmed(s: Seq<char>) -> Seq<char> {
    trim_end(trim_start(s))
}

pub fn trim(s: &str) -> (r: String)
    ensures
        r@ == trimmed(s@),
{
    let chars = chars_of(s);
    let mut from: usize = 0;
    proof {
        assert(s@.skip(0) =~= s@);
    }
    while from < chars.len() && char_is_space(chars[from])
        invariant
            chars@ == s@,
            from <= chars@.len(),
            trim_start(s@.skip(from as int)) == trim_start(s@),
        decreases chars@.len() - from,
    {
        proof {
            assert(s@.skip(from as int).drop_first() =~= s@.skip(from as int + 1));
        }
        from = from + 1;
    }
    proof {
        assert(s@.skip(from as int) == trim_start(s@));
    }
    let mut to: usize = chars.len();
    proof {
        assert(s@.subrange(from as int, to as int) =~= s@.skip(from as int));
    }
    while to > from && char_is_space(chars[to - 1])
        invariant
            chars@ == s@,
            from <= to <= chars@.len(),
            trim_end(s@.subrange(from as int, to as int)) == trimmed(s@),
        decreases to,
    {
        proof {
            assert(s@.subrange(from as int, to as int).drop_last() =~= s@.subrange(
                from as int,
                to as int - 1,
            ));
        }
        to = to - 1;
    }
    slice_text(&chars, from, to)
}

/// The text without the trailing occurrences of `c`.
pub open spec fn without_trailing(s: Seq<char>, c: char) -> Seq<char>
    decreases s.len(),
{
    if s.len() > 0 && s.last() == c {
        without_trailing(s.drop_last(), c)
    } else {
        s
    }
}

pub fn trim_trailing(s: &str, c: char) -> (r: String)
    ensures
        r@ == without_trailing(s@, c),
{
    let chars = chars_of(s);
    let mut to: usize = chars.len();
    proof {
        assert(s@.take(to as int) =~= s@);
    }
    while to > 0 && chars[to - 1] == c
        invariant
            chars@ == s@,
            to <= chars@.len(),
            without_trailing(s@.take(to as int), c) == without_trailing(s@, c),
        decreases to,
    {
        proof {
            assert(s@.take(to as int).drop_last() =~= s@.take(to as int - 1));
        }
        to = to - 1;
    }
    proof {
        assert(s@.take(to as int) =~= s@.subrange(0, to as int));
    }
    slice_text(&chars, 0, to)
}

/// The place of the first `c` in `s`, or the length of `s` where there is none.
pub open spec fn find(s: Seq<char>, c: char) -> nat
    decreases s.len(),
{
    if s.len() == 0 || s[0] == c {
        0
    } else {
        1 + find(s.drop_first(), c)
    }
}

pub proof fn lemma_find(s: Seq<char>, c: char)
    ensures
        find(s, c) <= s.len(),
        forall|k: int| 0 <= k < find(s, c) ==> s[k] != c,
        find(s, c) < s.len() ==> s[find(s, c) as int] == c,
    decreases s.len(),
{
    if s.len() > 0 && s[0] != c {
        lemma_find(s.drop_first(), c);
        assert forall|k: int| 0 <= k < find(s, c) implies s[k] != c by {
            if k > 0 {
                assert(s.drop_first()[k - 1] == s[k]);
            }
        }
    }
}

pub proof fn lemma_find_is(s: Seq<char>, c: char, at: nat)
    requires
        at <= s.len(),
        forall|k: int| 0 <= k < at ==> s[k] != c,
        at < s.len() ==> s[at as int] == c,
    ensures
        find(s, c) == at,
{
    lemma_find(s, c);
}

/// The place of the first `c` at or behind `from`, or the end.
fn find_from(chars: &Vec<char>, c: char, from: usize) -> (r: usize)
    requires
        from <= chars@.len(),
    ensures
        from <= r <= chars@.len(),
        r - from == find(chars@.skip(from as int), c),
{
    let mut at: usize = from;
    while at < chars.len() && chars[at] != c
        invariant
            from <= at <= chars@.len(),
            forall|k: int| from <= k < at ==> chars@[k] != c,
        decreases chars@.len() - at,
    {
        at = at + 1;
    }
    proof {
        lemma_find_is(chars@.skip(from as int), c, (at - from) as nat);
    }
    at
}

/// The parts of `s` between the occurrences of `sep`.
pub open spec fn split(s: Seq<char>, sep: char) -> Seq<Seq<char>>
    decreases s.len(),
{
    let at = find(s, sep) as int;
    if at < s.len() {
        seq![s.take(at)] + split(s.skip(at + 1), sep)
    } else {
        seq![s]
    }
}

pub fn split_text(s: &str, sep: char) -> (r: Vec<String>)
    ensures
        texts(r@) == split(s@, sep),
{
    let chars = chars_of(s);
    let mut out: Vec<String> = Vec::new();
    let mut from: usize = 0;
    proof {
        assert(s@.skip(0) =~= s@);
        assert(texts(out@) + split(s@.skip(0), sep) =~= split(s@, sep));
    }
    loop
        invariant
            chars@ == s@,
            from <= chars@.len(),
            texts(out@) + split(s@.skip(from as int), sep) == split(s@, sep),
        decreases chars@.len() - from,
    {
        let at = find_from(&chars, sep, from);
        let ghost before = out@;
        let part = slice_text(&chars, from, at);
        out.push(part);
        proof {
            assert(part@ =~= s@.skip(from as int).take(at - from));
            assert(texts(out@) =~= texts(before).push(part@));
        }
        if at == chars.len() {
            proof {
                assert(part@ =~= s@.skip(from as int));
                assert(split(s@.skip(from as int), sep) =~= seq![part@]);
                assert(texts(out@) =~= split(s@, sep));
            }
            return out;
        }
        proof {
            assert(s@.skip(from as int).skip(at - from + 1) =~= s@.skip(at + 1));
            assert(texts(out@) + split(s@.skip(at + 1), sep) =~= texts(before) + split(
                s@.skip(from as int),
                sep,
            ));
        }
        from = at + 1;
    }
}

/// The parts of `s` before and behind the first `sep`.
pub open spec fn split_once(s: Seq<char>, sep: char) -> Option<(Seq<char>, Seq<char>)> {
    let at = find(s, sep) as int;
    if at < s.len() {
        Some((s.take(at), s.skip(at + 1)))
    } else {
        None
    }
}

/// Putting two parts together around a separator and splitting at it gives the parts back, where
/// the first holds no separator.
pub proof fn lemma_split_once_joined(a: Seq<char>, b: Seq<char>, sep: char)
    requires
        forall|i: int| 0 <= i < a.len() ==> a[i] != sep,
    ensures
        split_once(a + seq![sep] + b, sep) == Some((a, b)),
{
    let s = a + seq![sep] + b;
    lemma_find_is(s, sep, a.len());
    assert(s.take(a.len() as int) =~= a);
    assert(s.skip(a.len() as int + 1) =~= b);
}

/// What a text is split into makes up the text.
pub proof fn lemma_split_once_parts(s: Seq<char>, sep: char)
    ensures
        match split_once(s, sep) {
            Some(pair) => s == pair.0 + seq![sep] + pair.1 && !pair.0.contains(sep),
            None => !s.contains(sep),
        },
{
    lemma_find(s, sep);
    let at = find(s, sep) as int;
    if at < s.len() {
        assert(s =~= s.take(at) + seq![sep] + s.skip(at + 1));
    }
}

pub fn split_text_once(s: &str, sep: char) -> (r: Option<(String, String)>)
    ensures
        match (r, split_once(s@, sep)) {
            (Some(a), Some(b)) => a.0@ == b.0 && a.1@ == b.1,
            (None, None) => true,
            _ => false,
        },
{
    let chars = chars_of(s);
    let at = find_from(&chars, sep, 0);
    proof {
        assert(s@.skip(0) =~= s@);
    }
    if at == chars.len() {
        None
    } else {
        let head = slice_text(&chars, 0, at);
        let tail = slice_text(&chars, at + 1, chars.len());
        proof {
            assert(head@ =~= s@.take(at as int));
            assert(tail@ =~= s@.skip(at + 1));
        }
        Some((head, tail))
    }
}

/// At most `n` parts; the last holds whatever is left.
pub open spec fn split_n(s: Seq<char>, sep: char, n: nat) -> Seq<Seq<char>>
    decreases n,
{
    if n <= 1 {
        seq![s]
    } else {
        match split_once(s, sep) {
            None => seq![s],
            Some(pair) => seq![pair.0] + split_n(pair.1, sep, (n - 1) as nat),
        }
    }
}

pub fn split_text_n(s: &str, sep: char, n: u8) -> (r: Vec<String>)
    ensures
        texts(r@) == split_n(s@, sep, n as nat),
{
    let mut out: Vec<String> = Vec::new();
    let mut rest = s.to_owned();
    let mut left: u8 = n;
    proof {
        assert(texts(out@) + split_n(rest@, sep, left as nat) =~= split_n(s@, sep, n as nat));
    }
    while left > 1
        invariant
            texts(out@) + split_n(rest@, sep, left as nat) == split_n(s@, sep, n as nat),
        decreases left,
    {
        match split_text_once(rest.as_str(), sep) {
            None => {
                left = 1;
            },
            Some((head, tail)) => {
                let ghost before = out@;
                let ghost head_text = head@;
                out.push(head);
                proof {
                    assert(texts(out@) =~= texts(before).push(head_text));
                    assert(texts(out@) + split_n(tail@, sep, (left - 1) as nat) =~= texts(before)
                        + split_n(rest@, sep, left as nat));
                }
                rest = tail;
                left = left - 1;
            },
        }
    }
    let ghost before = out@;
    let ghost last = rest@;
    out.push(rest);
    proof {
        assert(texts(out@) =~= texts(before).push(last));
        assert(texts(out@) =~= texts(before) + seq![last]);
    }
    out
}

/// The parts in a row, with `sep` between each two.
pub open spec fn join(parts: Seq<Seq<char>>, sep: Seq<char>) -> Seq<char>
    decreases parts.len(),
{
    if parts.len() == 0 {
        Seq::empty()
    } else if parts.len() == 1 {
        parts[0]
    } else {
        join(parts.drop_last(), sep) + sep + parts.last()
    }
}

pub fn join_texts(parts: &Vec<String>, sep: &str) -> (r: String)
    ensures
        r@ == join(texts(parts@), sep@),
{
    let mut out = String::new();
    for i in 0..parts.len()
        invariant
            out@ == join(texts(parts@).take(i as int), sep@),
    {
        if i > 0 {
            out.append(sep);
        }
        out.append(parts[i].as_str());
        proof {
            let upto = texts(parts@).take(i as int + 1);
            assert(upto.drop_last() =~= texts(parts@).take(i as int));
            assert(upto.last() == parts@[i as int]@);
            if i == 0 {
                assert(out@ =~= parts@[0]@);
            }
        }
    }
    proof {
        assert(texts(parts@).take(parts@.len() as int) =~= texts(parts@));
    }
    out
}

/// Adds bytes at the end of a list.
pub fn append_bytes(out: &mut Vec<u8>, bytes: &[u8])
    ensures
        final(out)@ == old(out)@ + bytes@,
{
    let ghost start = out@;
    for i in 0..bytes.len()
        invariant
            out@ == start + bytes@.take(i as int),
    {
        out.push(bytes[i]);
        proof {
            assert(out@ =~= start + bytes@.take(i as int + 1));
        }
    }
    proof {
        assert(bytes@.take(bytes@.len() as int) =~= bytes@);
    }
}

/// The bytes of a text.
pub fn bytes_of(text: &str) -> (r: Vec<u8>)
    ensures
        r@ == encode_utf8(text@),
{
    let mut r: Vec<u8> = Vec::new();
    append_bytes(&mut r, text.as_bytes());
    proof {
        assert(r@ =~= encode_utf8(text@));
    }
    r
}

/// The text does not hold the character.
pub open spec fn lacks(s: Seq<char>, c: char) -> bool {
    forall|i: int| 0 <= i < s.len() ==> #[trigger] s[i] != c
}

/// What a list holds once another item is behind it.
pub proof fn lemma_push_contains<T>(s: Seq<T>, x: T)
    ensures
        forall|y: T|
            #![trigger s.push(x).contains(y)]
            #![trigger s.contains(y)]
            s.push(x).contains(y) <==> s.contains(y) || y == x,
{
    assert forall|y: T|
        #![trigger s.push(x).contains(y)]
        #![trigger s.contains(y)]
        s.push(x).contains(y) <==> s.contains(y) || y == x by {
        if s.contains(y) {
            let i = choose|i: int| 0 <= i < s.len() && s[i] == y;
            assert(s.push(x)[i] == y);
        }
        if y == x {
            assert(s.push(x)[s.len() as int] == y);
        }
        if s.push(x).contains(y) {
            let i = choose|i: int| 0 <= i < s.push(x).len() && s.push(x)[i] == y;
            if i < s.len() {
                assert(s[i] == y);
            }
        }
    }
}

} // verus!
