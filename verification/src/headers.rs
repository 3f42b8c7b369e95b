//! Request and response headers as plain values.

use vstd::prelude::*;

use crate::text::{
    ascii_lower, char_is_alnum, chars_of, is_alnum, same, texts, to_ascii_lower, views,
};

verus! {

/// One header line. Names are in lower case; values are raw bytes.
#[derive(Debug)]
pub struct Header {
    pub name: String,
    pub value: Vec<u8>,
}

#[verifier::ext_equal]
pub struct HeaderView {
    pub name: Seq<char>,
    pub value: Seq<u8>,
}

impl View for Header {
    type V = HeaderView;

    open spec fn view(&self) -> HeaderView {
        HeaderView { name: self.name@, value: self.value@ }
    }
}

impl Clone for Header {
    fn clone(&self) -> (r: Self)
        ensures
            r@ == self@,
    {
        let value = self.value.clone();
        proof {
            assert(value@ =~= self.value@);
        }
        Header { name: self.name.clone(), value }
    }
}

/// The headers of a message, in order; a name may occur more than once.
#[derive(Debug)]
pub struct Headers {
    pub entries: Vec<Header>,
}

impl View for Headers {
    type V = Seq<HeaderView>;

    open spec fn view(&self) -> Seq<HeaderView> {
        views(self.entries@)
    }
}

/// The values under a name, in order. Names are compared without regard to ASCII case.
pub open spec fn values_of(headers: Seq<HeaderView>, name: Seq<char>) -> Seq<Seq<u8>>
    decreases headers.len(),
{
    if headers.len() == 0 {
        Seq::empty()
    } else if headers.last().name == ascii_lower(name) {
        values_of(headers.drop_last(), name).push(headers.last().value)
    } else {
        values_of(headers.drop_last(), name)
    }
}

/// The first value under a name.
pub open spec fn value_of(headers: Seq<HeaderView>, name: Seq<char>) -> Option<Seq<u8>> {
    let found = values_of(headers, name);
    if found.len() > 0 {
        Some(found[0])
    } else {
        None
    }
}

/// The headers without those of a name, which is in lower case.
pub open spec fn without_name(headers: Seq<HeaderView>, name: Seq<char>) -> Seq<HeaderView>
    decreases headers.len(),
{
    if headers.len() == 0 {
        Seq::empty()
    } else if headers.last().name == name {
        without_name(headers.drop_last(), name)
    } else {
        without_name(headers.drop_last(), name).push(headers.last())
    }
}

/// The headers with one value under a name, in place of those that were there.
pub open spec fn with_only(headers: Seq<HeaderView>, name: Seq<char>, value: Seq<u8>) -> Seq<
    HeaderView,
> {
    without_name(headers, ascii_lower(name)).push(HeaderView { name: ascii_lower(name), value })
}

/// What is left without a name was there before, under another name.
pub proof fn lemma_without_name(headers: Seq<HeaderView>, name: Seq<char>)
    ensures
        forall|i: int|
            0 <= i < without_name(headers, name).len() ==> (#[trigger] without_name(
                headers,
                name,
            )[i]).name != name && headers.contains(without_name(headers, name)[i]),
    decreases headers.len(),
{
    if headers.len() > 0 {
        let rest = headers.drop_last();
        lemma_without_name(rest, name);
        assert forall|i: int| 0 <= i < without_name(headers, name).len() implies (
        #[trigger] without_name(headers, name)[i]).name != name && headers.contains(
            without_name(headers, name)[i],
        ) by {
            let before = without_name(rest, name);
            if i < before.len() {
                assert(without_name(headers, name)[i] == before[i]);
                let k = choose|k: int| 0 <= k < rest.len() && rest[k] == before[i];
                assert(headers[k] == before[i]);
            } else {
                assert(headers[headers.len() - 1] == headers.last());
            }
        }
    }
}

proof fn lemma_values_without(headers: Seq<HeaderView>, removed: Seq<char>, name: Seq<char>)
    ensures
        values_of(without_name(headers, removed), name) == (if removed == ascii_lower(name) {
            Seq::<Seq<u8>>::empty()
        } else {
            values_of(headers, name)
        }),
    decreases headers.len(),
{
    if headers.len() > 0 {
        let rest = headers.drop_last();
        lemma_values_without(rest, removed, name);
        let kept = without_name(rest, removed);
        if headers.last().name != removed {
            assert(kept.push(headers.last()).drop_last() =~= kept);
        }
    }
}

/// Putting a value under a name changes that name alone.
pub proof fn lemma_values_with_only(
    headers: Seq<HeaderView>,
    put: Seq<char>,
    value: Seq<u8>,
    name: Seq<char>,
)
    ensures
        values_of(with_only(headers, put, value), name) == (if ascii_lower(put) == ascii_lower(
            name,
        ) {
            seq![value]
        } else {
            values_of(headers, name)
        }),
{
    let kept = without_name(headers, ascii_lower(put));
    lemma_values_without(headers, ascii_lower(put), name);
    let all = with_only(headers, put, value);
    assert(all.drop_last() =~= kept);
    if ascii_lower(put) == ascii_lower(name) {
        assert(values_of(all, name) =~= seq![value]);
    }
}

/// Every value under a name, as header lines under that name.
pub open spec fn copied(source: Seq<HeaderView>, name: Seq<char>) -> Seq<HeaderView> {
    values_of(source, name).map_values(
        |value: Seq<u8>| HeaderView { name: ascii_lower(name), value },
    )
}

/// Every value under each of some names, name by name.
pub open spec fn all_copied(source: Seq<HeaderView>, names: Seq<Seq<char>>) -> Seq<HeaderView>
    decreases names.len(),
{
    if names.len() == 0 {
        Seq::empty()
    } else {
        all_copied(source, names.drop_last()) + copied(source, names.last())
    }
}

/// The first value under each of some names, name by name, where there is one.
pub open spec fn firsts_copied(source: Seq<HeaderView>, names: Seq<Seq<char>>) -> Seq<HeaderView>
    decreases names.len(),
{
    if names.len() == 0 {
        Seq::empty()
    } else {
        match value_of(source, names.last()) {
            Some(value) => firsts_copied(source, names.drop_last()).push(
                HeaderView { name: ascii_lower(names.last()), value },
            ),
            None => firsts_copied(source, names.drop_last()),
        }
    }
}

/// Whether a character may stand in the name of a header.
pub open spec fn is_token_char(c: char) -> bool {
    ||| is_alnum(c)
    ||| c == '!' || c == '#' || c == '$' || c == '%' || c == '&' || c == '\'' || c == '*'
    ||| c == '+' || c == '-' || c == '.' || c == '^' || c == '_' || c == '`' || c == '|' || c == '~'
}

/// Whether a text names a header.
pub open spec fn is_header_name(name: Seq<char>) -> bool {
    &&& 1 <= name.len() <= 65535
    &&& forall|i: int| 0 <= i < name.len() ==> is_token_char(#[trigger] name[i])
}

pub fn valid_header_name(name: &str) -> (r: bool)
    ensures
        r == is_header_name(name@),
{
    let chars = chars_of(name);
    if chars.len() == 0 || chars.len() > 65535 {
        return false;
    }
    for i in 0..chars.len()
        invariant
            chars@ == name@,
            forall|k: int| 0 <= k < i ==> is_token_char(#[trigger] name@[k]),
    {
        let c = chars[i];
        if !(char_is_alnum(c) || c == '!' || c == '#' || c == '$' || c == '%' || c == '&' || c
            == '\'' || c == '*' || c == '+' || c == '-' || c == '.' || c == '^' || c == '_' || c == '`'
            || c == '|' || c == '~') {
            proof {
                assert(!is_token_char(name@[i as int]));
            }
            return false;
        }
    }
    true
}

/// Whether a text can be the value of a header: it holds no control characters but the tab.
pub open spec fn is_header_value(value: Seq<char>) -> bool {
    forall|i: int|
        0 <= i < value.len() ==> (#[trigger] value[i] == '\t' || (value[i] >= ' ' && value[i]
            != '\x7f'))
}

pub fn valid_header_value(value: &str) -> (r: bool)
    ensures
        r == is_header_value(value@),
{
    let chars = chars_of(value);
    for i in 0..chars.len()
        invariant
            chars@ == value@,
            forall|k: int|
                0 <= k < i ==> (#[trigger] value@[k] == '\t' || (value@[k] >= ' ' && value@[k]
                    != '\x7f')),
    {
        let c = chars[i];
        if !(c == '\t' || (c >= ' ' && c != '\x7f')) {
            proof {
                assert(value@[i as int] == c);
            }
            return false;
        }
    }
    true
}

/// Whether a byte may stand in a header value that is read as text: a tab or visible ASCII.
pub open spec fn is_text_byte(byte: u8) -> bool {
    byte == 9 || 32 <= byte < 127
}

/// A header value as text, where every byte of it may stand in text.
pub open spec fn text_of(value: Seq<u8>) -> Option<Seq<char>> {
    if forall|i: int| 0 <= i < value.len() ==> is_text_byte(#[trigger] value[i]) {
        Some(value.map_values(|byte: u8| byte as char))
    } else {
        None
    }
}

/// Reads a header value as text.
pub fn value_text(value: &Vec<u8>) -> (r: Option<String>)
    ensures
        crate::text::opt_text(r) == text_of(value@),
{
    let mut out = String::new();
    for i in 0..value.len()
        invariant
            forall|k: int| 0 <= k < i ==> is_text_byte(#[trigger] value@[k]),
            out@ == value@.take(i as int).map_values(|byte: u8| byte as char),
    {
        let byte = value[i];
        if !(byte == 9 || (32 <= byte && byte < 127)) {
            proof {
                assert(!is_text_byte(value@[i as int]));
            }
            return None;
        }
        out.push(byte as char);
        proof {
            assert(out@ =~= value@.take(i as int + 1).map_values(|byte: u8| byte as char));
        }
    }
    proof {
        assert(value@.take(value@.len() as int) =~= value@);
    }
    Some(out)
}

impl Headers {
    pub fn new() -> (r: Self)
        ensures
            r@ == Seq::<HeaderView>::empty(),
    {
        let r = Headers { entries: Vec::new() };
        proof {
            assert(r@ =~= Seq::empty());
        }
        r
    }

    /// Adds a header line behind the others.
    pub fn append(&mut self, name: &str, value: Vec<u8>)
        ensures
            final(self)@ == old(self)@.push(
                (HeaderView { name: ascii_lower(name@), value: value@ }),
            ),
    {
        let ghost before = self@;
        let header = Header { name: to_ascii_lower(name), value };
        let ghost added = header@;
        self.entries.push(header);
        proof {
            assert(self@ =~= before.push(added));
        }
    }

    /// All values under a name, in order.
    pub fn get_all(&self, name: &str) -> (r: Vec<Vec<u8>>)
        ensures
            r@.len() == values_of(self@, name@).len(),
            forall|i: int| 0 <= i < r@.len() ==> (#[trigger] r@[i])@ == values_of(self@, name@)[i],
    {
        let wanted = to_ascii_lower(name);
        let mut out: Vec<Vec<u8>> = Vec::new();
        for i in 0..self.entries.len()
            invariant
                wanted@ == ascii_lower(name@),
                out@.len() == values_of(self@.take(i as int), name@).len(),
                forall|k: int|
                    0 <= k < out@.len() ==> (#[trigger] out@[k])@ == values_of(
                        self@.take(i as int),
                        name@,
                    )[k],
        {
            let entry = &self.entries[i];
            proof {
                assert(self@.take(i as int + 1).drop_last() =~= self@.take(i as int));
                assert(self@.take(i as int + 1).last() == entry@);
            }
            if same(entry.name.as_str(), wanted.as_str()) {
                let value = entry.value.clone();
                proof {
                    assert(value@ =~= entry.value@);
                }
                out.push(value);
            }
        }
        proof {
            assert(self@.take(self@.len() as int) =~= self@);
        }
        out
    }

    /// The first value under a name.
    pub fn get(&self, name: &str) -> (r: Option<Vec<u8>>)
        ensures
            match r {
                Some(value) => value_of(self@, name@) == Some(value@),
                None => value_of(self@, name@) is None,
            },
    {
        let found = self.get_all(name);
        if found.len() > 0 {
            let value = found[0].clone();
            proof {
                assert(value@ =~= found@[0]@);
            }
            Some(value)
        } else {
            None
        }
    }

    /// Puts one value under a name, in place of those that were there.
    pub fn insert(&mut self, name: &str, value: Vec<u8>)
        ensures
            final(self)@ == with_only(old(self)@, name@, value@),
    {
        let wanted = to_ascii_lower(name);
        let mut kept: Vec<Header> = Vec::new();
        for i in 0..self.entries.len()
            invariant
                wanted@ == ascii_lower(name@),
                self@ == old(self)@,
                views(kept@) == without_name(self@.take(i as int), wanted@),
        {
            let entry = &self.entries[i];
            proof {
                assert(self@.take(i as int + 1).drop_last() =~= self@.take(i as int));
                assert(self@.take(i as int + 1).last() == entry@);
            }
            if !same(entry.name.as_str(), wanted.as_str()) {
                let ghost before = kept@;
                kept.push(entry.clone());
                proof {
                    assert(views(kept@) =~= views(before).push(entry@));
                }
            }
        }
        proof {
            assert(self@.take(self@.len() as int) =~= self@);
        }
        let ghost before = kept@;
        let header = Header { name: wanted, value };
        let ghost added = header@;
        kept.push(header);
        proof {
            assert(views(kept@) =~= views(before).push(added));
        }
        self.entries = kept;
    }

    /// Adds every value that another message has under a name.
    pub fn copy_from(&mut self, source: &Headers, name: &str)
        ensures
            final(self)@ == old(self)@ + copied(source@, name@),
    {
        let values = source.get_all(name);
        let count = values.len();
        for i in 0..count
            invariant
                count == values@.len(),
                values@.len() == values_of(source@, name@).len(),
                forall|k: int|
                    0 <= k < values@.len() ==> (#[trigger] values@[k])@ == values_of(
                        source@,
                        name@,
                    )[k],
                self@ == old(self)@ + copied(source@, name@).take(i as int),
        {
            let value = values[i].clone();
            proof {
                assert(value@ =~= values@[i as int]@);
            }
            self.append(name, value);
            proof {
                assert(copied(source@, name@).take(i as int + 1) =~= copied(source@, name@).take(
                    i as int,
                ).push(copied(source@, name@)[i as int]));
                assert(self@ =~= old(self)@ + copied(source@, name@).take(i as int + 1));
            }
        }
        proof {
            assert(copied(source@, name@).take(count as int) =~= copied(source@, name@));
        }
    }

    /// Adds every value that another message has under each of some names.
    pub fn copy_all(&mut self, source: &Headers, names: &Vec<String>)
        ensures
            final(self)@ == old(self)@ + all_copied(source@, texts(names@)),
    {
        for i in 0..names.len()
            invariant
                self@ == old(self)@ + all_copied(source@, texts(names@).take(i as int)),
        {
            proof {
                assert(texts(names@).take(i as int + 1).drop_last() =~= texts(names@).take(i as int));
                assert(texts(names@).take(i as int + 1).last() == names@[i as int]@);
            }
            self.copy_from(source, names[i].as_str());
            proof {
                assert(self@ =~= old(self)@ + all_copied(
                    source@,
                    texts(names@).take(i as int + 1),
                ));
            }
        }
        proof {
            assert(texts(names@).take(names@.len() as int) =~= texts(names@));
        }
    }

    /// Adds the first value that another message has under each of some names.
    pub fn copy_firsts(&mut self, source: &Headers, names: &Vec<String>)
        ensures
            final(self)@ == old(self)@ + firsts_copied(source@, texts(names@)),
    {
        for i in 0..names.len()
            invariant
                self@ == old(self)@ + firsts_copied(source@, texts(names@).take(i as int)),
        {
            proof {
                assert(texts(names@).take(i as int + 1).drop_last() =~= texts(names@).take(i as int));
                assert(texts(names@).take(i as int + 1).last() == names@[i as int]@);
            }
            if let Some(value) = source.get(names[i].as_str()) {
                self.append(names[i].as_str(), value);
            }
            proof {
                assert(self@ =~= old(self)@ + firsts_copied(
                    source@,
                    texts(names@).take(i as int + 1),
                ));
            }
        }
        proof {
            assert(texts(names@).take(names@.len() as int) =~= texts(names@));
        }
    }

    pub fn contains(&self, name: &str) -> (r: bool)
        ensures
            r == (value_of(self@, name@) is Some),
    {
        self.get_all(name).len() > 0
    }
}

impl Clone for Headers {
    fn clone(&self) -> (r: Self)
        ensures
            r@ == self@,
    {
        let entries = self.entries.clone();
        proof {
            assert(views(entries@) =~= views(self.entries@));
        }
        Headers { entries }
    }
}

} // verus!
