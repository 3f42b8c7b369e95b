//! What holds of every canonical query and header value.

use vstd::multiset::Multiset;
use vstd::prelude::*;
use vstd::seq_lib::*;
use vstd::utf8::encode_utf8;

use crate::headers::{text_of, values_of, HeaderView};
use crate::order::{sorted_pairs, text_le, Ranked};
use crate::sigv4::{
    canonical_query_of, canonical_uri_of, encoded_byte, header_line, is_ascii_space, lemma_word_len,
    lemma_word_len_bound, normalized, normalized_values, query_pair, query_pairs, uri_encoded,
    word_len, words, written_pair,
};
use crate::text::{find, join, lacks, lemma_find, lemma_find_is, lemma_split_once_joined, split};
use crate::text_laws::digit_of;

verus! {

/// The pair can be written as a parameter and read again.
spec fn is_parameter(pair: (Seq<char>, Seq<char>)) -> bool {
    lacks(pair.0, '&') && lacks(pair.0, '=') && lacks(pair.1, '&')
}

pub proof fn lemma_split_lacks(s: Seq<char>, sep: char)
    ensures
        forall|i: int| 0 <= i < split(s, sep).len() ==> lacks(#[trigger] split(s, sep)[i], sep),
    decreases s.len(),
{
    lemma_find(s, sep);
    let at = find(s, sep) as int;
    if at < s.len() {
        let rest = split(s.skip(at + 1), sep);
        lemma_split_lacks(s.skip(at + 1), sep);
        assert forall|i: int| 0 <= i < split(s, sep).len() implies lacks(
            #[trigger] split(s, sep)[i],
            sep,
        ) by {
            if i > 0 {
                assert(split(s, sep)[i] == rest[i - 1]);
            }
        }
    }
}

/// The first part of a joined text stands before the first separator.
pub proof fn lemma_join_first(parts: Seq<Seq<char>>, sep: Seq<char>)
    requires
        parts.len() >= 2,
    ensures
        join(parts, sep) == parts[0] + sep + join(parts.drop_first(), sep),
    decreases parts.len(),
{
    let rest = parts.drop_first();
    assert(rest.last() == parts.last());
    if parts.len() == 2 {
        assert(parts.drop_last()[0] == parts[0]);
        assert(rest[0] == parts[1]);
        assert(join(parts.drop_last(), sep) == parts[0]);
    } else {
        lemma_join_first(parts.drop_last(), sep);
        assert(parts.drop_last().drop_first() =~= rest.drop_last());
        assert(join(parts, sep) =~= parts[0] + sep + join(rest, sep));
    }
}

/// Splitting undoes joining, where no part holds the separator.
pub proof fn lemma_split_joined(parts: Seq<Seq<char>>, sep: char)
    requires
        parts.len() > 0,
        forall|i: int| 0 <= i < parts.len() ==> lacks(#[trigger] parts[i], sep),
    ensures
        split(join(parts, seq![sep]), sep) == parts,
    decreases parts.len(),
{
    let s = join(parts, seq![sep]);
    if parts.len() == 1 {
        lemma_find_is(s, sep, s.len());
        assert(split(s, sep) =~= parts);
    } else {
        let rest = parts.drop_first();
        lemma_join_first(parts, seq![sep]);
        let at = parts[0].len();
        lemma_find_is(s, sep, at);
        assert(s.take(at as int) =~= parts[0]);
        assert(s.skip(at as int + 1) =~= join(rest, seq![sep]));
        assert forall|i: int| 0 <= i < rest.len() implies lacks(#[trigger] rest[i], sep) by {
            assert(rest[i] == parts[i + 1]);
        }
        lemma_split_joined(rest, sep);
        assert(split(s, sep) =~= parts);
    }
}

proof fn lemma_pairs_are_parameters(parts: Seq<Seq<char>>)
    requires
        forall|i: int| 0 <= i < parts.len() ==> lacks(#[trigger] parts[i], '&'),
    ensures
        forall|i: int|
            0 <= i < query_pairs(parts).len() ==> is_parameter(#[trigger] query_pairs(parts)[i]),
    decreases parts.len(),
{
    if parts.len() > 0 {
        let rest = parts.drop_last();
        assert forall|i: int| 0 <= i < rest.len() implies lacks(#[trigger] rest[i], '&') by {
            assert(rest[i] == parts[i]);
        }
        lemma_pairs_are_parameters(rest);
        let part = parts.last();
        assert(lacks(parts[parts.len() - 1], '&'));
        lemma_find(part, '=');
        let at = find(part, '=') as int;
        let pair = query_pair(part);
        assert(is_parameter(pair)) by {
            if at < part.len() {
                assert forall|i: int| 0 <= i < pair.1.len() implies #[trigger] pair.1[i] != '&' by {
                    assert(pair.1[i] == part[at + 1 + i]);
                }
            }
        }
        let before = query_pairs(rest);
        assert forall|i: int| 0 <= i < query_pairs(parts).len() implies is_parameter(
            #[trigger] query_pairs(parts)[i],
        ) by {
            if i < before.len() {
                assert(query_pairs(parts)[i] == before[i]);
            }
        }
    }
}

/// Parameters are read as they were written.
proof fn lemma_written_pairs(pairs: Seq<(Seq<char>, Seq<char>)>)
    requires
        forall|i: int| 0 <= i < pairs.len() ==> is_parameter(#[trigger] pairs[i]),
    ensures
        ({
            let written = pairs.map_values(|pair: (Seq<char>, Seq<char>)| written_pair(pair));
            &&& query_pairs(written) == pairs
            &&& forall|i: int| 0 <= i < written.len() ==> lacks(#[trigger] written[i], '&')
        }),
    decreases pairs.len(),
{
    reveal_strlit("=");
    let written = pairs.map_values(|pair: (Seq<char>, Seq<char>)| written_pair(pair));
    if pairs.len() > 0 {
        let rest = pairs.drop_last();
        assert forall|i: int| 0 <= i < rest.len() implies is_parameter(#[trigger] rest[i]) by {
            assert(rest[i] == pairs[i]);
        }
        lemma_written_pairs(rest);
        let before = rest.map_values(|pair: (Seq<char>, Seq<char>)| written_pair(pair));
        assert(written.drop_last() =~= before);
        let pair = pairs[pairs.len() - 1];
        assert(is_parameter(pair));
        assert("="@ =~= seq!['=']);
        assert(written.last() == pair.0 + seq!['='] + pair.1);
        lemma_split_once_joined(pair.0, pair.1, '=');
        assert(query_pair(written.last()) == pair);
        assert(query_pairs(written) =~= pairs);
        assert forall|i: int| 0 <= i < written.len() implies lacks(
            #[trigger] written[i],
            '&',
        ) by {
            if i < before.len() {
                assert(written[i] == before[i]);
            } else {
                let text = written[i];
                assert forall|k: int| 0 <= k < text.len() implies #[trigger] text[k] != '&' by {
                    if k < pair.0.len() {
                        assert(text[k] == pair.0[k]);
                    } else if k > pair.0.len() {
                        assert(text[k] == pair.1[k - pair.0.len() - 1]);
                    }
                }
            }
        }
    } else {
        assert(query_pairs(written) =~= pairs);
    }
}

/// A canonical query is in canonical form already.
pub proof fn law_canonical_queries_stay(query: Seq<char>)
    ensures
        canonical_query_of(canonical_query_of(query)) == canonical_query_of(query),
{
    broadcast use group_to_multiset_ensures;

    let leq = |a: (Seq<char>, Seq<char>), b: (Seq<char>, Seq<char>)|
        <(String, String) as Ranked>::rank_le(a, b);
    <(String, String) as Ranked>::lemma_rank_total();
    let parts = split(query, '&');
    let pairs = query_pairs(parts);
    let ordered = sorted_pairs(pairs);
    let written = ordered.map_values(|pair: (Seq<char>, Seq<char>)| written_pair(pair));
    lemma_split_lacks(query, '&');
    lemma_pairs_are_parameters(parts);
    pairs.lemma_sort_by_ensures(leq);
    assert forall|i: int| 0 <= i < ordered.len() implies is_parameter(#[trigger] ordered[i]) by {
        assert(ordered.contains(ordered[i]));
        assert(ordered.to_multiset().count(ordered[i]) > 0);
        assert(pairs.contains(ordered[i]));
        let k = choose|k: int| 0 <= k < pairs.len() && pairs[k] == ordered[i];
        assert(is_parameter(pairs[k]));
    }
    lemma_written_pairs(ordered);
    reveal_strlit("&");
    assert("&"@ =~= seq!['&']);
    let canonical = canonical_query_of(query);
    assert(query_pairs(split(canonical, '&')) == ordered) by {
        if written.len() == 0 {
            assert(canonical =~= Seq::empty());
            lemma_find(canonical, '&');
            assert(split(canonical, '&') =~= seq![canonical]);
            assert(seq![canonical].drop_last() =~= Seq::empty());
            assert(query_pairs(seq![canonical].drop_last()) =~= Seq::empty());
            assert(query_pairs(seq![canonical]) =~= Seq::empty());
            assert(ordered =~= Seq::empty());
        } else {
            lemma_split_joined(written, '&');
        }
    }
    ordered.lemma_sort_by_ensures(leq);
    lemma_sorted_unique(sorted_pairs(ordered), ordered, leq);
}

/// A parameter among others; an empty one does not count.
spec fn with_parameter(part: Seq<char>, bag: Multiset<(Seq<char>, Seq<char>)>) -> Multiset<
    (Seq<char>, Seq<char>),
> {
    if part.len() == 0 {
        bag
    } else {
        bag.insert(query_pair(part))
    }
}

/// The pairs of some parameters, without their order.
proof fn lemma_pairs_folded(parts: Seq<Seq<char>>, start: Multiset<(Seq<char>, Seq<char>)>)
    ensures
        parts.fold_right(
            |part: Seq<char>, bag: Multiset<(Seq<char>, Seq<char>)>| with_parameter(part, bag),
            start,
        ) == start.add(query_pairs(parts).to_multiset()),
    decreases parts.len(),
{
    broadcast use group_to_multiset_ensures;
    broadcast use vstd::multiset::group_multiset_axioms;

    let pairs = query_pairs(parts);
    if parts.len() == 0 {
        assert(pairs.to_multiset() =~= Multiset::empty());
        assert(start.add(pairs.to_multiset()) =~= start);
    } else {
        let next = with_parameter(parts.last(), start);
        lemma_pairs_folded(parts.drop_last(), next);
        let before = query_pairs(parts.drop_last());
        assert(next.add(before.to_multiset()) =~= start.add(pairs.to_multiset()));
    }
}

/// The order in which parameters come plays no part.
pub proof fn law_parameter_order_plays_no_part(first: Seq<char>, second: Seq<char>)
    requires
        split(first, '&').to_multiset() == split(second, '&').to_multiset(),
    ensures
        canonical_query_of(first) == canonical_query_of(second),
{
    broadcast use vstd::multiset::group_multiset_axioms;

    let step = |part: Seq<char>, bag: Multiset<(Seq<char>, Seq<char>)>| with_parameter(part, bag);
    let none = Multiset::<(Seq<char>, Seq<char>)>::empty();
    assert forall|x: Seq<char>, y: Seq<char>, v: Multiset<(Seq<char>, Seq<char>)>| #[trigger]
        step(x, step(y, v)) == step(y, step(x, v)) by {
        assert(step(x, step(y, v)) =~= step(y, step(x, v)));
    }
    lemma_fold_right_permutation(split(first, '&'), split(second, '&'), step, none);
    lemma_pairs_folded(split(first, '&'), none);
    lemma_pairs_folded(split(second, '&'), none);
    let a = query_pairs(split(first, '&'));
    let b = query_pairs(split(second, '&'));
    assert(none.add(a.to_multiset()) =~= a.to_multiset());
    assert(none.add(b.to_multiset()) =~= b.to_multiset());
    let leq = |x: (Seq<char>, Seq<char>), y: (Seq<char>, Seq<char>)|
        <(String, String) as Ranked>::rank_le(x, y);
    <(String, String) as Ranked>::lemma_rank_total();
    a.lemma_sort_by_ensures(leq);
    b.lemma_sort_by_ensures(leq);
    lemma_sorted_unique(sorted_pairs(a), sorted_pairs(b), leq);
}

/// A run of characters that are no white space.
spec fn is_word(s: Seq<char>) -> bool {
    s.len() > 0 && forall|i: int| 0 <= i < s.len() ==> !is_ascii_space(#[trigger] s[i])
}

proof fn lemma_words(s: Seq<char>)
    ensures
        forall|i: int| 0 <= i < words(s).len() ==> is_word(#[trigger] words(s)[i]),
    decreases s.len(),
{
    if s.len() > 0 {
        if is_ascii_space(s[0]) {
            lemma_words(s.drop_first());
            assert(words(s) == words(s.drop_first()));
        } else {
            let n = word_len(s) as int;
            lemma_word_len_bound(s);
            lemma_word_start(s);
            lemma_words(s.skip(n));
            let rest = words(s.skip(n));
            let word = s.take(n);
            assert(word_len(s) > 0);
            assert forall|i: int| 0 <= i < word.len() implies !is_ascii_space(
                #[trigger] word[i],
            ) by {
                assert(word[i] == s[i]);
            }
            assert(words(s) == seq![word] + rest);
            assert forall|i: int| 0 <= i < words(s).len() implies is_word(
                #[trigger] words(s)[i],
            ) by {
                if i > 0 {
                    assert(words(s)[i] == rest[i - 1]);
                }
            }
        }
    }
}

/// What stands before the first white space holds none.
proof fn lemma_word_start(s: Seq<char>)
    ensures
        forall|i: int| 0 <= i < word_len(s) ==> !is_ascii_space(#[trigger] s[i]),
    decreases s.len(),
{
    if s.len() > 0 && !is_ascii_space(s[0]) {
        let rest = s.drop_first();
        lemma_word_start(rest);
        lemma_word_len_bound(s);
        assert forall|i: int| 0 <= i < word_len(s) implies !is_ascii_space(#[trigger] s[i]) by {
            if i > 0 {
                assert(s[i] == rest[i - 1]);
            }
        }
    }
}

/// A word at the start of a text is its first word.
proof fn lemma_first_word(word: Seq<char>, rest: Seq<char>)
    requires
        is_word(word),
        rest.len() > 0 ==> is_ascii_space(rest[0]),
    ensures
        words(word + rest) == seq![word] + words(rest),
{
    let s = word + rest;
    assert(s[0] == word[0]);
    assert forall|k: int| 0 <= k < word.len() implies !is_ascii_space(#[trigger] s[k]) by {
        assert(s[k] == word[k]);
    }
    lemma_word_len(s, word.len());
    assert(s.take(word.len() as int) =~= word);
    assert(s.skip(word.len() as int) =~= rest);
}

/// Words with a space between each two are those words.
proof fn lemma_joined_words(list: Seq<Seq<char>>)
    requires
        forall|i: int| 0 <= i < list.len() ==> is_word(#[trigger] list[i]),
    ensures
        words(join(list, seq![' '])) == list,
    decreases list.len(),
{
    let space = seq![' '];
    if list.len() == 0 {
        assert(words(join(list, space)) =~= list);
    } else if list.len() == 1 {
        assert(list[0] + Seq::<char>::empty() =~= list[0]);
        lemma_first_word(list[0], Seq::empty());
        assert(words(Seq::<char>::empty()) =~= Seq::empty());
        assert(words(join(list, space)) =~= list);
    } else {
        let rest = list.drop_first();
        lemma_join_first(list, space);
        assert forall|i: int| 0 <= i < rest.len() implies is_word(#[trigger] rest[i]) by {
            assert(rest[i] == list[i + 1]);
        }
        lemma_joined_words(rest);
        let tail = space + join(rest, space);
        assert(list[0] + space + join(rest, space) =~= list[0] + tail);
        assert(is_ascii_space(tail[0]));
        lemma_first_word(list[0], tail);
        assert(tail.drop_first() =~= join(rest, space));
        assert(words(tail) == rest);
        assert(words(join(list, space)) =~= list);
    }
}

/// A header value that is normalized is left as it is.
pub proof fn law_normalized_values_stay(value: Seq<char>)
    ensures
        normalized(normalized(value)) == normalized(value),
{
    reveal_strlit(" ");
    assert(" "@ =~= seq![' ']);
    lemma_words(value);
    lemma_joined_words(words(value));
}

/// A byte that does not stand for itself is written as a percent sign and two digits, in capitals,
/// the higher first. A slash stands for itself in a path only.
pub proof fn law_percent_encoding(bytes: Seq<u8>, byte: u8, preserve_slash: bool)
    ensures
        uri_encoded(Seq::empty(), preserve_slash) == Seq::<char>::empty(),
        uri_encoded(bytes.push(byte), preserve_slash) == uri_encoded(bytes, preserve_slash)
            + encoded_byte(byte, preserve_slash),
        ({
            let c = byte as char;
            let stays = 'a' <= c <= 'z' || 'A' <= c <= 'Z' || '0' <= c <= '9' || c == '-' || c
                == '_' || c == '.' || c == '~' || (c == '/' && preserve_slash);
            let written = encoded_byte(byte, preserve_slash);
            &&& stays ==> written == seq![c]
            &&& !stays ==> {
                &&& written.len() == 3
                &&& written[0] == '%'
                &&& '0' <= written[1] <= '9' || 'A' <= written[1] <= 'F'
                &&& '0' <= written[2] <= '9' || 'A' <= written[2] <= 'F'
                &&& digit_of(written[1]) * 16 + digit_of(written[2]) == byte
            }
        }),
{
    assert(bytes.push(byte).drop_last() =~= bytes);
}

/// The empty path is the root, and any other is encoded with its slashes.
pub proof fn law_canonical_paths(path: Seq<char>)
    ensures
        path.len() > 0 ==> canonical_uri_of(path) == uri_encoded(encode_utf8(path), true),
        path.len() == 0 ==> canonical_uri_of(path) == uri_encoded(encode_utf8("/"@), true),
{
}

/// The words of a text stand between white space, however much of it.
pub proof fn law_words(word: Seq<char>, space: char, rest: Seq<char>)
    requires
        word.len() > 0,
        forall|i: int|
            0 <= i < word.len() ==> #[trigger] word[i] != ' ' && word[i] != '\t' && word[i] != '\n'
                && word[i] != '\u{c}' && word[i] != '\r',
        space == ' ' || space == '\t' || space == '\n' || space == '\u{c}' || space == '\r',
    ensures
        words(Seq::empty()) == Seq::<Seq<char>>::empty(),
        words(word) == seq![word],
        words(seq![space] + rest) == words(rest),
        words(word + seq![space] + rest) == seq![word] + words(rest),
        normalized(rest) == join(words(rest), " "@),
{
    let spaced = seq![space] + rest;
    assert(spaced.drop_first() =~= rest);
    let nothing = Seq::<char>::empty();
    assert(is_word(word));
    lemma_first_word(word, nothing);
    assert(word + nothing =~= word);
    assert(seq![word] + words(nothing) =~= seq![word]);
    lemma_first_word(word, spaced);
    assert(word + seq![space] + rest =~= word + spaced);
}

/// The parameters of a query are read one by one: each has a name and a value, which is empty where
/// there is no equals sign, and nothing between two ampersands is no parameter.
pub proof fn law_parameters(parts: Seq<Seq<char>>, name: Seq<char>, value: Seq<char>)
    requires
        lacks(name, '='),
    ensures
        query_pairs(Seq::empty()) == Seq::<(Seq<char>, Seq<char>)>::empty(),
        query_pairs(parts.push(Seq::empty())) == query_pairs(parts),
        query_pairs(parts.push(name + seq!['='] + value)) == query_pairs(parts).push((name, value)),
        name.len() > 0 ==> query_pairs(parts.push(name)) == query_pairs(parts).push(
            (name, Seq::empty()),
        ),
{
    let nothing = Seq::<char>::empty();
    let whole = name + seq!['='] + value;
    assert(parts.push(nothing).drop_last() =~= parts);
    assert(parts.push(whole).drop_last() =~= parts);
    assert(parts.push(name).drop_last() =~= parts);
    crate::text_laws::law_split_once(name, name, value, '=');
}

/// A canonical query has the parameters of the query, ordered by name and then by value, each with
/// an equals sign, and ampersands between them.
pub proof fn law_canonical_queries(query: Seq<char>)
    ensures
        exists|pairs: Seq<(Seq<char>, Seq<char>)>| #[trigger] is_ordered(
            pairs,
            query_pairs(split(query, '&')),
        ) && canonical_query_of(query) == join(
            pairs.map_values(|pair: (Seq<char>, Seq<char>)| pair.0 + "="@ + pair.1),
            "&"@,
        ),
{
    let given = query_pairs(split(query, '&'));
    let pairs = sorted_pairs(given);
    let leq = |a: (Seq<char>, Seq<char>), b: (Seq<char>, Seq<char>)|
        <(String, String) as Ranked>::rank_le(a, b);
    <(String, String) as Ranked>::lemma_rank_total();
    given.lemma_sort_by_ensures(leq);
    assert forall|i: int, j: int| 0 <= i < j < pairs.len() implies comes_first(
        #[trigger] pairs[i],
        #[trigger] pairs[j],
    ) by {
        assert(leq(pairs[i], pairs[j]));
    }
    assert(pairs.map_values(|pair: (Seq<char>, Seq<char>)| pair.0 + "="@ + pair.1)
        =~= pairs.map_values(|pair: (Seq<char>, Seq<char>)| written_pair(pair)));
    assert(is_ordered(pairs, given));
}

/// By name, and where the names are the same, by value.
pub open spec fn comes_first(a: (Seq<char>, Seq<char>), b: (Seq<char>, Seq<char>)) -> bool {
    a.0 != b.0 && text_le(a.0, b.0) || a.0 == b.0 && text_le(a.1, b.1)
}

/// These are the same pairs, in order.
pub open spec fn is_ordered(
    pairs: Seq<(Seq<char>, Seq<char>)>,
    given: Seq<(Seq<char>, Seq<char>)>,
) -> bool {
    &&& pairs.to_multiset() == given.to_multiset()
    &&& forall|i: int, j: int|
        0 <= i < j < pairs.len() ==> comes_first(#[trigger] pairs[i], #[trigger] pairs[j])
}

/// The values of a signed header stand on one line, with commas between them, each normalized.
pub proof fn law_signed_values(
    headers: Seq<HeaderView>,
    name: Seq<char>,
    values: Seq<Seq<u8>>,
    last: Seq<u8>,
    texts: Seq<Seq<char>>,
)
    ensures
        normalized_values(Seq::empty(), name) == Ok::<Seq<Seq<char>>, Seq<char>>(Seq::empty()),
        normalized_values(values, name) == Ok::<Seq<Seq<char>>, Seq<char>>(texts) && text_of(last)
            is Some ==> normalized_values(values.push(last), name) == Ok::<
            Seq<Seq<char>>,
            Seq<char>,
        >(texts.push(normalized(text_of(last)->Some_0))),
        text_of(last) is None ==> normalized_values(values.push(last), name) is Err,
        normalized_values(values_of(headers, name), name) == Ok::<Seq<Seq<char>>, Seq<char>>(texts)
            && texts.len() > 0 ==> header_line(headers, name) == Ok::<Seq<char>, Seq<char>>(
            name + ":"@ + join(texts, ","@) + "\n"@,
        ),
        values_of(headers, name).len() == 0 ==> header_line(headers, name) is Err,
{
    assert(values.push(last).drop_last() =~= values);
}

} // verus!
