//! What the generation of a catalog depends on.

use vstd::prelude::*;
use vstd::seq_lib::*;
use vstd::utf8::encode_utf8;

use crate::catalog::{
    add_documents, add_images, descriptor_value, discovered_catalog, discovery_input,
    file_catalog, file_input, policy_values, with_values, DiscoveredRuntimeImage,
    DiscoveredRuntimeImageView, DiscoveryPolicyView, RuntimeDocumentView,
};
use crate::descriptor::{
    declaration_checked, image_runtime_name, is_environment_name, variables_checked,
};
use crate::environment::{environment_value_text, is_blank, requested_environment};
use crate::image_laws::image_environment;
use crate::json::canonical_descriptor_of;
use crate::order::{
    keyed_order, law_keyed_order, sorted, text_le, Ranked,
};
use crate::primitives::{hex_digit, hex_text, sha256};
use crate::text::{lacks, starts_with};

verus! {

// Texts that end with a zero character.

/// The texts behind each other, each with a zero character.
spec fn flat(values: Seq<Seq<char>>) -> Seq<char>
    decreases values.len(),
{
    if values.len() == 0 {
        Seq::empty()
    } else {
        flat(values.drop_last()) + values.last() + seq!['\0']
    }
}

proof fn lemma_encode_add(a: Seq<char>, b: Seq<char>)
    ensures
        encode_utf8(a + b) == encode_utf8(a) + encode_utf8(b),
    decreases a.len(),
{
    if a.len() == 0 {
        assert(a + b =~= b);
        assert(encode_utf8(a) + encode_utf8(b) =~= encode_utf8(b));
    } else {
        lemma_encode_add(a.drop_first(), b);
        assert((a + b).drop_first() =~= a.drop_first() + b);
        assert(encode_utf8(a + b) =~= encode_utf8(a) + encode_utf8(b));
    }
}

proof fn lemma_values_are_flat(prefix: Seq<u8>, values: Seq<Seq<char>>)
    ensures
        with_values(prefix, values) == prefix + encode_utf8(flat(values)),
    decreases values.len(),
{
    if values.len() == 0 {
        assert(encode_utf8(flat(values)) =~= Seq::<u8>::empty());
        assert(prefix + encode_utf8(flat(values)) =~= prefix);
    } else {
        let rest = values.drop_last();
        lemma_values_are_flat(prefix, rest);
        lemma_encode_add(flat(rest) + values.last(), seq!['\0']);
        lemma_encode_add(flat(rest), values.last());
        vstd::utf8::is_ascii_chars_encode_utf8(seq!['\0']);
        assert(encode_utf8(seq!['\0']) =~= seq![0u8]) by {
            assert(seq!['\0'][0] as u8 == encode_utf8(seq!['\0'])[0]);
        }
        assert(with_values(prefix, values) =~= prefix + encode_utf8(flat(values)));
    }
}

proof fn lemma_flat_add(a: Seq<Seq<char>>, b: Seq<Seq<char>>)
    ensures
        flat(a + b) == flat(a) + flat(b),
    decreases b.len(),
{
    if b.len() == 0 {
        assert(a + b =~= a);
        assert(flat(a) + flat(b) =~= flat(a));
    } else {
        lemma_flat_add(a, b.drop_last());
        assert((a + b).drop_last() =~= a + b.drop_last());
        assert((a + b).last() == b.last());
        assert(flat(a + b) =~= flat(a) + flat(b));
    }
}

/// Nothing, or something that ends with a zero character.
spec fn is_closed(s: Seq<char>) -> bool {
    s.len() == 0 || s.last() == '\0'
}

proof fn lemma_flat_is_closed(values: Seq<Seq<char>>)
    ensures
        is_closed(flat(values)),
{
}

/// What stands behind the last zero character is determined.
proof fn lemma_last_piece(a: Seq<char>, s: Seq<char>, b: Seq<char>, t: Seq<char>)
    requires
        is_closed(a),
        is_closed(b),
        lacks(s, '\0'),
        lacks(t, '\0'),
        a + s == b + t,
    ensures
        a == b,
        s == t,
{
    let whole = a + s;
    assert(a.len() + s.len() == b.len() + t.len()) by {
        assert(whole.len() == (b + t).len());
    }
    if s.len() < t.len() {
        assert(whole[a.len() - 1] == '\0');
        assert((b + t)[a.len() - 1] == t[a.len() - 1 - b.len()]);
        assert(false);
    }
    if t.len() < s.len() {
        assert((b + t)[b.len() - 1] == '\0');
        assert(whole[b.len() - 1] == s[b.len() - 1 - a.len()]);
        assert(false);
    }
    assert(a =~= whole.take(a.len() as int));
    assert(b =~= whole.take(a.len() as int));
    assert(s =~= whole.skip(a.len() as int));
    assert(t =~= whole.skip(a.len() as int));
}

/// A zero character behind two texts can be left out.
proof fn lemma_without_zero(a: Seq<char>, b: Seq<char>)
    requires
        a + seq!['\0'] == b + seq!['\0'],
    ensures
        a == b,
{
    assert(a =~= (a + seq!['\0']).drop_last());
    assert(b =~= (b + seq!['\0']).drop_last());
}

/// What an environment value says, and what stands before it, is determined.
proof fn lemma_environment_value(
    a: Seq<char>,
    runtime: Seq<char>,
    name: Seq<char>,
    value: Seq<char>,
    b: Seq<char>,
    other_runtime: Seq<char>,
    other_name: Seq<char>,
    other_value: Seq<char>,
)
    requires
        is_closed(a),
        is_closed(b),
        lacks(runtime, '\0') && lacks(name, '\0') && lacks(value, '\0'),
        lacks(other_runtime, '\0') && lacks(other_name, '\0') && lacks(other_value, '\0'),
        a + environment_value_text(runtime, name, value) == b + environment_value_text(
            other_runtime,
            other_name,
            other_value,
        ),
    ensures
        a == b,
        runtime == other_runtime,
        name == other_name,
        value == other_value,
{
    reveal_strlit("environment\0");
    reveal_strlit("\0");
    let word = "environment\0"@.drop_last();
    assert("environment\0"@ =~= word + seq!['\0']);
    assert("\0"@ =~= seq!['\0']);
    let (a1, b1) = (a + word + seq!['\0'], b + word + seq!['\0']);
    let (a2, b2) = (a1 + runtime + seq!['\0'], b1 + other_runtime + seq!['\0']);
    let (a3, b3) = (a2 + name + seq!['\0'], b2 + other_name + seq!['\0']);
    assert(a + environment_value_text(runtime, name, value) =~= a3 + value);
    assert(b + environment_value_text(other_runtime, other_name, other_value) =~= b3
        + other_value);
    lemma_last_piece(a3, value, b3, other_value);
    lemma_without_zero(a2 + name, b2 + other_name);
    lemma_last_piece(a2, name, b2, other_name);
    lemma_without_zero(a1 + runtime, b1 + other_runtime);
    lemma_last_piece(a1, runtime, b1, other_runtime);
    lemma_without_zero(a + word, b + word);
    lemma_last_piece(a, word, b, word);
}

// Environment values.

/// The text is the value that some runtime has of a variable.
spec fn is_value_of(text: Seq<char>, environment: Map<Seq<char>, Seq<char>>) -> bool {
    exists|runtime: Seq<char>, name: Seq<char>| #[trigger]
        names_value(text, runtime, name, environment)
}

spec fn names_value(
    text: Seq<char>,
    runtime: Seq<char>,
    name: Seq<char>,
    environment: Map<Seq<char>, Seq<char>>,
) -> bool {
    &&& lacks(runtime, '\0')
    &&& lacks(name, '\0')
    &&& environment.contains_key(name)
    &&& lacks(environment[name], '\0')
    &&& text == environment_value_text(runtime, name, environment[name])
}

spec fn all_values_of(texts: Seq<Seq<char>>, environment: Map<Seq<char>, Seq<char>>) -> bool {
    forall|i: int| 0 <= i < texts.len() ==> is_value_of(#[trigger] texts[i], environment)
}

/// Lists of environment values that look the same when they are written are the same.
proof fn lemma_flat_values(
    a: Seq<Seq<char>>,
    first: Map<Seq<char>, Seq<char>>,
    b: Seq<Seq<char>>,
    second: Map<Seq<char>, Seq<char>>,
)
    requires
        all_values_of(a, first),
        all_values_of(b, second),
        flat(a) == flat(b),
    ensures
        a == b,
    decreases a.len(),
{
    if a.len() == 0 || b.len() == 0 {
        assert(a =~= b);
    } else {
        let (x, y) = (a.drop_last(), b.drop_last());
        assert(is_value_of(a[a.len() - 1], first));
        assert(is_value_of(b[b.len() - 1], second));
        let (r, n) = choose|r: Seq<char>, n: Seq<char>| #[trigger]
            names_value(a.last(), r, n, first);
        let (q, m) = choose|q: Seq<char>, m: Seq<char>| #[trigger]
            names_value(b.last(), q, m, second);
        lemma_without_zero(flat(x) + a.last(), flat(y) + b.last());
        lemma_flat_is_closed(x);
        lemma_flat_is_closed(y);
        lemma_environment_value(flat(x), r, n, first[n], flat(y), q, m, second[m]);
        assert forall|i: int| 0 <= i < x.len() implies is_value_of(#[trigger] x[i], first) by {
            assert(x[i] == a[i]);
        }
        assert forall|i: int| 0 <= i < y.len() implies is_value_of(#[trigger] y[i], second) by {
            assert(y[i] == b[i]);
        }
        lemma_flat_values(x, first, y, second);
        assert(a =~= x.push(a.last()));
        assert(b =~= y.push(b.last()));
    }
}

// The place of environment values among the others.

spec fn comes_before(text: Seq<char>) -> bool {
    text.len() > 0 && text[0] < 'e'
}

spec fn comes_behind(text: Seq<char>) -> bool {
    starts_with(text, "environment-"@) || (text.len() > 0 && text[0] > 'e')
}

/// Texts are in order by the first character in which they differ.
proof fn lemma_first_difference(a: Seq<char>, b: Seq<char>, at: int)
    requires
        0 <= at < a.len(),
        at < b.len(),
        forall|i: int| 0 <= i < at ==> a[i] == b[i],
        a[at] < b[at],
    ensures
        text_le(a, b),
    decreases at,
{
    if at > 0 {
        assert(a[0] == b[0]);
        let (x, y) = (a.drop_first(), b.drop_first());
        assert forall|i: int| 0 <= i < at - 1 implies x[i] == y[i] by {
            assert(a[i + 1] == b[i + 1]);
        }
        lemma_first_difference(x, y, at - 1);
    }
}

proof fn lemma_value_place(
    text: Seq<char>,
    environment: Map<Seq<char>, Seq<char>>,
    before: Seq<char>,
    behind: Seq<char>,
)
    requires
        is_value_of(text, environment),
    ensures
        comes_before(before) ==> text_le(before, text),
        comes_behind(behind) ==> text_le(text, behind),
{
    reveal_strlit("environment\0");
    reveal_strlit("environment-");
    let (r, n) = choose|r: Seq<char>, n: Seq<char>| #[trigger] names_value(text, r, n, environment);
    assert forall|i: int| 0 <= i < 12 implies text[i] == "environment\0"@[i] by {}
    if comes_before(before) {
        lemma_first_difference(before, text, 0);
    }
    if comes_behind(behind) {
        if starts_with(behind, "environment-"@) {
            assert forall|i: int| 0 <= i < 12 implies behind[i] == "environment-"@[i] by {
                assert(behind.subrange(0, 12)[i] == behind[i]);
            }
            lemma_first_difference(text, behind, 11);
        } else {
            lemma_first_difference(text, behind, 0);
        }
    }
}

proof fn lemma_before_behind(before: Seq<char>, behind: Seq<char>)
    requires
        comes_before(before),
        comes_behind(behind),
    ensures
        text_le(before, behind),
{
    reveal_strlit("environment-");
    if starts_with(behind, "environment-"@) {
        assert(behind.subrange(0, 12)[0] == behind[0]);
    }
    lemma_first_difference(before, behind, 0);
}

/// In order, what comes before the environment values stands first, and what comes behind them
/// last.
proof fn lemma_sorted_parts(
    all: Seq<Seq<char>>,
    before: Seq<Seq<char>>,
    values: Seq<Seq<char>>,
    behind: Seq<Seq<char>>,
    environment: Map<Seq<char>, Seq<char>>,
)
    requires
        all.to_multiset() == before.to_multiset().add(values.to_multiset()).add(
            behind.to_multiset(),
        ),
        forall|i: int| 0 <= i < before.len() ==> comes_before(#[trigger] before[i]),
        forall|i: int| 0 <= i < behind.len() ==> comes_behind(#[trigger] behind[i]),
        all_values_of(values, environment),
    ensures
        sorted(all) == sorted(before) + sorted(values) + sorted(behind),
        all_values_of(sorted(values), environment),
{
    broadcast use group_to_multiset_ensures;

    let leq = |a: Seq<char>, b: Seq<char>| <String as Ranked>::rank_le(a, b);
    <String as Ranked>::lemma_rank_total();
    all.lemma_sort_by_ensures(leq);
    before.lemma_sort_by_ensures(leq);
    values.lemma_sort_by_ensures(leq);
    behind.lemma_sort_by_ensures(leq);
    let (x, y, z) = (sorted(before), sorted(values), sorted(behind));
    assert forall|i: int| 0 <= i < x.len() implies comes_before(#[trigger] x[i]) by {
        lemma_kept(before, x, i);
    }
    assert forall|i: int| 0 <= i < y.len() implies is_value_of(#[trigger] y[i], environment) by {
        lemma_kept(values, y, i);
    }
    assert forall|i: int| 0 <= i < z.len() implies comes_behind(#[trigger] z[i]) by {
        lemma_kept(behind, z, i);
    }
    let whole = x + y + z;
    assert forall|i: int, j: int| 0 <= i < j < whole.len() implies #[trigger] leq(
        whole[i],
        whole[j],
    ) by {
        let m = x.len() as int;
        let n = m + y.len();
        if j < m {
            assert(leq(x[i], x[j]));
        } else if i < m && j < n {
            lemma_value_place(y[j - m], environment, x[i], x[i]);
        } else if i < m {
            lemma_before_behind(x[i], z[j - n]);
        } else if j < n {
            assert(leq(y[i - m], y[j - m]));
        } else if i < n {
            lemma_value_place(y[i - m], environment, z[j - n], z[j - n]);
        } else {
            assert(leq(z[i - n], z[j - n]));
        }
    }
    lemma_multiset_commutative(x, y);
    lemma_multiset_commutative(x + y, z);
    lemma_sorted_unique(sorted(all), whole, leq);
}

/// An item of a list in another order is an item of the list.
proof fn lemma_kept<A>(items: Seq<A>, ordered: Seq<A>, i: int)
    requires
        items.to_multiset() == ordered.to_multiset(),
        0 <= i < ordered.len(),
    ensures
        exists|k: int| 0 <= k < items.len() && #[trigger] items[k] == ordered[i],
{
    broadcast use group_to_multiset_ensures;

    assert(ordered.contains(ordered[i]));
    assert(ordered.to_multiset().count(ordered[i]) > 0);
    assert(items.contains(ordered[i]));
}

/// Lists that differ in their environment values are written differently.
proof fn lemma_inputs_differ(
    prefix: Seq<u8>,
    all: Seq<Seq<char>>,
    values: Seq<Seq<char>>,
    first: Map<Seq<char>, Seq<char>>,
    other_all: Seq<Seq<char>>,
    other_values: Seq<Seq<char>>,
    second: Map<Seq<char>, Seq<char>>,
    before: Seq<Seq<char>>,
    behind: Seq<Seq<char>>,
)
    requires
        all.to_multiset() == before.to_multiset().add(values.to_multiset()).add(
            behind.to_multiset(),
        ),
        other_all.to_multiset() == before.to_multiset().add(other_values.to_multiset()).add(
            behind.to_multiset(),
        ),
        forall|i: int| 0 <= i < before.len() ==> comes_before(#[trigger] before[i]),
        forall|i: int| 0 <= i < behind.len() ==> comes_behind(#[trigger] behind[i]),
        all_values_of(values, first),
        all_values_of(other_values, second),
        with_values(prefix, sorted(all)) == with_values(prefix, sorted(other_all)),
    ensures
        values.to_multiset() == other_values.to_multiset(),
{
    lemma_sorted_parts(all, before, values, behind, first);
    lemma_sorted_parts(other_all, before, other_values, behind, second);
    let (a, b) = (sorted(all), sorted(other_all));
    lemma_values_are_flat(prefix, a);
    lemma_values_are_flat(prefix, b);
    assert(encode_utf8(flat(a)) =~= with_values(prefix, a).skip(prefix.len() as int));
    assert(encode_utf8(flat(b)) =~= with_values(prefix, b).skip(prefix.len() as int));
    vstd::utf8::encode_utf8_decode_utf8(flat(a));
    vstd::utf8::encode_utf8_decode_utf8(flat(b));
    assert(flat(a) == flat(b));
    let (x, y, z, w) = (sorted(before), sorted(values), sorted(behind), sorted(other_values));
    lemma_flat_add(x + y, z);
    lemma_flat_add(x, y);
    lemma_flat_add(x + w, z);
    lemma_flat_add(x, w);
    let m = flat(x).len() as int;
    assert(flat(y).len() == flat(w).len());
    assert(flat(y) =~= flat(a).subrange(m, m + flat(y).len()));
    assert(flat(w) =~= flat(b).subrange(m, m + flat(y).len()));
    lemma_flat_values(y, first, w, second);
    let leq = |s: Seq<char>, t: Seq<char>| <String as Ranked>::rank_le(s, t);
    <String as Ranked>::lemma_rank_total();
    values.lemma_sort_by_ensures(leq);
    other_values.lemma_sort_by_ensures(leq);
}

// What runtimes ask for.

/// No approved variable has a value with a zero character, as no variable of a process can have.
pub open spec fn values_lack_zero(
    policy: DiscoveryPolicyView,
    environment: Map<Seq<char>, Seq<char>>,
) -> bool {
    forall|name: Seq<char>| #[trigger]
        environment.contains_key(name) && policy.environment_allowlist.contains(name) ==> lacks(
            environment[name],
            '\0',
        )
}

/// The variable is set to something in both environments, and not to the same.
pub open spec fn is_changed(
    variable: Seq<char>,
    first: Map<Seq<char>, Seq<char>>,
    second: Map<Seq<char>, Seq<char>>,
) -> bool {
    &&& first.contains_key(variable) && !is_blank(first[variable])
    &&& second.contains_key(variable) && !is_blank(second[variable])
    &&& first[variable] != second[variable]
}

proof fn lemma_declared_names(name: Seq<char>, variables: Seq<Seq<char>>)
    requires
        variables_checked(name, variables) is Ok,
    ensures
        forall|i: int| 0 <= i < variables.len() ==> lacks(#[trigger] variables[i], '\0'),
    decreases variables.len(),
{
    if variables.len() > 0 {
        let rest = variables.drop_last();
        lemma_declared_names(name, rest);
        assert forall|i: int| 0 <= i < variables.len() implies lacks(
            #[trigger] variables[i],
            '\0',
        ) by {
            if i < rest.len() {
                assert(rest[i] == variables[i]);
            } else {
                assert(is_environment_name(variables[i]));
            }
        }
    }
}

/// What a runtime finds of the variables that it asks for.
proof fn lemma_requested_values(
    runtime: Seq<char>,
    requested: Seq<Seq<char>>,
    policy: DiscoveryPolicyView,
    environment: Map<Seq<char>, Seq<char>>,
)
    requires
        lacks(runtime, '\0'),
        forall|i: int| 0 <= i < requested.len() ==> lacks(#[trigger] requested[i], '\0'),
        values_lack_zero(policy, environment),
    ensures
        ({
            let values = requested_environment(
                runtime,
                requested,
                policy.environment_allowlist,
                environment,
            ).values;
            &&& all_values_of(values, environment)
            &&& forall|name: Seq<char>|
                #![trigger requested.contains(name)]
                requested.contains(name) && policy.environment_allowlist.contains(name)
                    && environment.contains_key(name) && !is_blank(environment[name])
                    ==> values.contains(
                    environment_value_text(runtime, name, environment[name]),
                )
        }),
    decreases requested.len(),
{
    let allowlist = policy.environment_allowlist;
    let values = requested_environment(runtime, requested, allowlist, environment).values;
    if requested.len() > 0 {
        let rest = requested.drop_last();
        assert forall|i: int| 0 <= i < rest.len() implies lacks(#[trigger] rest[i], '\0') by {
            assert(rest[i] == requested[i]);
        }
        lemma_requested_values(runtime, rest, policy, environment);
        let before = requested_environment(runtime, rest, allowlist, environment).values;
        let last = requested.last();
        assert(lacks(requested[requested.len() - 1], '\0'));
        let given = allowlist.contains(last) && environment.contains_key(last) && !is_blank(
            environment[last],
        );
        let text = environment_value_text(runtime, last, environment[last]);
        if given {
            assert(values == before.push(text));
            assert(names_value(text, runtime, last, environment));
        } else {
            assert(values == before);
        }
        assert forall|i: int| 0 <= i < values.len() implies is_value_of(
            #[trigger] values[i],
            environment,
        ) by {
            if i < before.len() {
                assert(values[i] == before[i]);
            }
        }
        assert forall|name: Seq<char>|
            #![trigger requested.contains(name)]
            requested.contains(name) && allowlist.contains(name) && environment.contains_key(name)
                && !is_blank(environment[name]) implies values.contains(
            environment_value_text(runtime, name, environment[name]),
        ) by {
            if name == last {
                assert(values[before.len() as int] == text);
            } else {
                let k = choose|k: int| 0 <= k < requested.len() && requested[k] == name;
                assert(rest[k] == name);
                assert(rest.contains(name));
                let wanted = environment_value_text(runtime, name, environment[name]);
                let m = choose|m: int| 0 <= m < before.len() && before[m] == wanted;
                assert(values[m] == wanted);
            }
        }
    }
}

/// A value that one environment has and another has not.
proof fn lemma_value_is_new(
    runtime: Seq<char>,
    variable: Seq<char>,
    first: Map<Seq<char>, Seq<char>>,
    values: Seq<Seq<char>>,
    second: Map<Seq<char>, Seq<char>>,
)
    requires
        lacks(runtime, '\0') && lacks(variable, '\0') && lacks(first[variable], '\0'),
        first[variable] != second[variable],
        all_values_of(values, second),
    ensures
        !values.contains(environment_value_text(runtime, variable, first[variable])),
{
    let text = environment_value_text(runtime, variable, first[variable]);
    if values.contains(text) {
        let k = choose|k: int| 0 <= k < values.len() && values[k] == text;
        assert(is_value_of(values[k], second));
        let (r, n) = choose|r: Seq<char>, n: Seq<char>| #[trigger] names_value(text, r, n, second);
        let none = Seq::<char>::empty();
        assert(none + text =~= text);
        lemma_environment_value(none, runtime, variable, first[variable], none, r, n, second[n]);
    }
}

/// Digests that differ are written differently.
proof fn lemma_hex_differs(a: Seq<u8>, b: Seq<u8>)
    requires
        a.len() == b.len(),
        hex_text(a) == hex_text(b),
    ensures
        a == b,
{
    assert forall|i: int| 0 <= i < a.len() implies a[i] == b[i] by {
        let (x, y) = (a[i] as int, b[i] as int);
        assert((2 * i) / 2 == i && (2 * i + 1) / 2 == i);
        assert(hex_text(a)[2 * i] == hex_digit(x / 16));
        assert(hex_text(b)[2 * i] == hex_digit(y / 16));
        assert(hex_text(a)[2 * i + 1] == hex_digit(x % 16));
        assert(hex_text(b)[2 * i + 1] == hex_digit(y % 16));
        lemma_hex_digit(x / 16, y / 16);
        lemma_hex_digit(x % 16, y % 16);
    }
    assert(a =~= b);
}

proof fn lemma_hex_digit(m: int, n: int)
    requires
        0 <= m < 16,
        0 <= n < 16,
        hex_digit(m) == hex_digit(n),
    ensures
        m == n,
{
    assert(hex_digit(m) as int == if m < 10 { 48 + m } else { 87 + m });
    assert(hex_digit(n) as int == if n < 10 { 48 + n } else { 87 + n });
}

// Catalogs from files.

/// The name of an entry of a catalog file.
spec fn document_name(document: RuntimeDocumentView) -> Seq<char> {
    match document.name {
        Some(name) => name,
        None => image_runtime_name(document.image),
    }
}

spec fn document_values(
    documents: Seq<RuntimeDocumentView>,
    policy: DiscoveryPolicyView,
    environment: Map<Seq<char>, Seq<char>>,
) -> Seq<Seq<char>>
    decreases documents.len(),
{
    if documents.len() == 0 {
        Seq::empty()
    } else {
        document_values(documents.drop_last(), policy, environment) + requested_environment(
            document_name(documents.last()),
            documents.last().environment_variables,
            policy.environment_allowlist,
            environment,
        ).values
    }
}

proof fn lemma_document_values(
    documents: Seq<RuntimeDocumentView>,
    policy: DiscoveryPolicyView,
    environment: Map<Seq<char>, Seq<char>>,
)
    requires
        add_documents(documents, policy, environment) is Ok,
        values_lack_zero(policy, environment),
    ensures
        ({
            let values = document_values(documents, policy, environment);
            &&& add_documents(documents, policy, environment)->Ok_0.values == policy_values(policy)
                + values
            &&& all_values_of(values, environment)
            &&& forall|i: int, name: Seq<char>|
                #![trigger documents[i].environment_variables.contains(name)]
                0 <= i < documents.len() && documents[i].environment_variables.contains(name)
                    ==> lacks(document_name(documents[i]), '\0') && lacks(name, '\0') && (
                policy.environment_allowlist.contains(name) && environment.contains_key(name)
                    && !is_blank(environment[name]) ==> values.contains(
                    environment_value_text(document_name(documents[i]), name, environment[name]),
                ))
        }),
    decreases documents.len(),
{
    let values = document_values(documents, policy, environment);
    if documents.len() == 0 {
        assert(policy_values(policy) + values =~= policy_values(policy));
    } else {
        let rest = documents.drop_last();
        let document = documents.last();
        let runtime = document_name(document);
        lemma_document_values(rest, policy, environment);
        let before = document_values(rest, policy, environment);
        let requested = document.environment_variables;
        let added = requested_environment(
            runtime,
            requested,
            policy.environment_allowlist,
            environment,
        ).values;
        assert(declaration_checked(runtime, requested, document.lifecycle_configuration) is Ok);
        lemma_declared_names(runtime, requested);
        lemma_requested_values(runtime, requested, policy, environment);
        assert(add_documents(documents, policy, environment)->Ok_0.values =~= policy_values(policy)
            + values);
        assert forall|i: int| 0 <= i < values.len() implies is_value_of(
            #[trigger] values[i],
            environment,
        ) by {
            if i < before.len() {
                assert(values[i] == before[i]);
            } else {
                assert(values[i] == added[i - before.len()]);
            }
        }
        assert forall|i: int, name: Seq<char>|
            #![trigger documents[i].environment_variables.contains(name)]
            0 <= i < documents.len()
                && documents[i].environment_variables.contains(name) implies lacks(
            document_name(documents[i]),
            '\0',
        ) && lacks(name, '\0') && (policy.environment_allowlist.contains(name)
            && environment.contains_key(name) && !is_blank(environment[name]) ==> values.contains(
            environment_value_text(document_name(documents[i]), name, environment[name]),
        )) by {
            let text = environment_value_text(
                document_name(documents[i]),
                name,
                environment[name],
            );
            if i < rest.len() {
                assert(rest[i] == documents[i]);
                assert(rest[i].environment_variables.contains(name));
                if before.contains(text) {
                    let m = choose|m: int| 0 <= m < before.len() && before[m] == text;
                    assert(values[m] == text);
                }
            } else {
                assert(requested.contains(name));
                let k = choose|k: int| 0 <= k < requested.len() && requested[k] == name;
                assert(lacks(requested[k], '\0'));
                if added.contains(text) {
                    let m = choose|m: int| 0 <= m < added.len() && added[m] == text;
                    assert(values[before.len() + m] == text);
                }
            }
        }
    }
}

/// Where the settings of a policy stand among the values of a generation.
proof fn lemma_policy_places(policy: DiscoveryPolicyView)
    ensures
        ({
            let values = policy_values(policy);
            &&& comes_before(values[0])
            &&& comes_behind(values[1])
            &&& comes_behind(values[2])
            &&& comes_behind(values[3])
        }),
{
    reveal_strlit("connectivity\0");
    reveal_strlit("network\0");
    reveal_strlit("environment-allowlist\0");
    reveal_strlit("environment-");
    reveal_strlit("header-allowlist\0");
    let values = policy_values(policy);
    assert(values[2].subrange(0, 12) =~= "environment-"@);
}

proof fn lemma_policy_parts(policy: DiscoveryPolicyView)
    ensures
        policy_values(policy) == policy_values(policy).take(1) + policy_values(policy).skip(1),
        forall|i: int|
            0 <= i < policy_values(policy).take(1).len() ==> comes_before(
                #[trigger] policy_values(policy).take(1)[i],
            ),
        forall|i: int|
            0 <= i < policy_values(policy).skip(1).len() ==> comes_behind(
                #[trigger] policy_values(policy).skip(1)[i],
            ),
{
    lemma_policy_places(policy);
    let values = policy_values(policy);
    assert(values =~= values.take(1) + values.skip(1));
    assert forall|i: int| 0 <= i < values.skip(1).len() implies comes_behind(
        #[trigger] values.skip(1)[i],
    ) by {
        assert(values.skip(1)[i] == values[i + 1]);
    }
}

/// The generation of a file's catalog follows the environment: where a variable that a runtime asks
/// for and may have is changed, the generation is a digest of something else. The generations then
/// differ, unless the two digests are the same.
pub proof fn law_file_generation_follows_the_environment(
    path: Seq<char>,
    canonical_source: Seq<u8>,
    documents: Seq<RuntimeDocumentView>,
    policy: DiscoveryPolicyView,
    first: Map<Seq<char>, Seq<char>>,
    second: Map<Seq<char>, Seq<char>>,
    i: int,
    variable: Seq<char>,
)
    requires
        file_catalog(path, canonical_source, documents, policy, first) is Ok,
        file_catalog(path, canonical_source, documents, policy, second) is Ok,
        0 <= i < documents.len(),
        documents[i].environment_variables.contains(variable),
        policy.environment_allowlist.contains(variable),
        is_changed(variable, first, second),
        values_lack_zero(policy, first),
        values_lack_zero(policy, second),
    ensures
        ({
            let a = file_input(
                canonical_source,
                sorted(add_documents(documents, policy, first)->Ok_0.values),
            );
            let b = file_input(
                canonical_source,
                sorted(add_documents(documents, policy, second)->Ok_0.values),
            );
            &&& a != b
            &&& sha256(a) != sha256(b) ==> file_catalog(
                path,
                canonical_source,
                documents,
                policy,
                first,
            )->Ok_0.generation != file_catalog(
                path,
                canonical_source,
                documents,
                policy,
                second,
            )->Ok_0.generation
        }),
{
    broadcast use group_to_multiset_ensures;
    broadcast use vstd::multiset::group_multiset_axioms;

    lemma_document_values(documents, policy, first);
    lemma_document_values(documents, policy, second);
    lemma_policy_parts(policy);
    let policies = policy_values(policy);
    let (before, behind) = (policies.take(1), policies.skip(1));
    let x = document_values(documents, policy, first);
    let y = document_values(documents, policy, second);
    let all = policies + x;
    let other_all = policies + y;
    let a = file_input(canonical_source, sorted(all));
    let b = file_input(canonical_source, sorted(other_all));
    lemma_multiset_commutative(before, behind);
    lemma_multiset_commutative(policies, x);
    lemma_multiset_commutative(policies, y);
    assert(all.to_multiset() =~= before.to_multiset().add(x.to_multiset()).add(
        behind.to_multiset(),
    ));
    assert(other_all.to_multiset() =~= before.to_multiset().add(y.to_multiset()).add(
        behind.to_multiset(),
    ));
    let runtime = document_name(documents[i]);
    let text = environment_value_text(runtime, variable, first[variable]);
    assert(x.contains(text));
    lemma_value_is_new(runtime, variable, first, y, second);
    if a == b {
        let prefix = encode_utf8("flint-file-catalog-v2\0"@) + canonical_source;
        lemma_inputs_differ(prefix, all, x, first, other_all, y, second, before, behind);
        assert(x.to_multiset().count(text) > 0);
        assert(y.contains(text));
    }
    if hex_text(sha256(a)) == hex_text(sha256(b)) {
        lemma_hex_differs(sha256(a), sha256(b));
    }
}

// Catalogs from images.

spec fn descriptor_values(images: Seq<DiscoveredRuntimeImageView>) -> Seq<Seq<char>> {
    images.map_values(
        |image: DiscoveredRuntimeImageView|
            descriptor_value(image, canonical_descriptor_of(image.descriptor)->Ok_0),
    )
}

spec fn image_environment_values(
    images: Seq<DiscoveredRuntimeImageView>,
    policy: DiscoveryPolicyView,
    environment: Map<Seq<char>, Seq<char>>,
) -> Seq<Seq<char>>
    decreases images.len(),
{
    if images.len() == 0 {
        Seq::empty()
    } else {
        image_environment_values(images.drop_last(), policy, environment) + image_environment(
            images.last(),
            policy,
            environment,
        ).values
    }
}

proof fn lemma_image_values(
    images: Seq<DiscoveredRuntimeImageView>,
    policy: DiscoveryPolicyView,
    environment: Map<Seq<char>, Seq<char>>,
)
    requires
        add_images(images, policy, environment) is Ok,
        values_lack_zero(policy, environment),
    ensures
        ({
            let values = image_environment_values(images, policy, environment);
            &&& add_images(images, policy, environment)->Ok_0.values.to_multiset()
                == descriptor_values(images).to_multiset().add(values.to_multiset())
            &&& all_values_of(values, environment)
            &&& forall|i: int, name: Seq<char>|
                #![trigger images[i].descriptor.environment_variables.contains(name)]
                0 <= i < images.len() && images[i].descriptor.environment_variables.contains(name)
                    ==> lacks(images[i].descriptor.name, '\0') && lacks(name, '\0') && (
                policy.environment_allowlist.contains(name) && environment.contains_key(name)
                    && !is_blank(environment[name]) ==> values.contains(
                    environment_value_text(images[i].descriptor.name, name, environment[name]),
                ))
        }),
    decreases images.len(),
{
    broadcast use group_to_multiset_ensures;
    broadcast use vstd::multiset::group_multiset_axioms;

    let values = image_environment_values(images, policy, environment);
    let all = add_images(images, policy, environment)->Ok_0.values;
    let described = descriptor_values(images);
    if images.len() == 0 {
        assert(all.to_multiset() =~= described.to_multiset().add(values.to_multiset()));
    } else {
        let rest = images.drop_last();
        let image = images.last();
        let runtime = image.descriptor.name;
        lemma_image_values(rest, policy, environment);
        let before = image_environment_values(rest, policy, environment);
        let requested = image.descriptor.environment_variables;
        let added = image_environment(image, policy, environment).values;
        assert(declaration_checked(
            runtime,
            requested,
            image.descriptor.lifecycle_configuration,
        ) is Ok);
        lemma_declared_names(runtime, requested);
        lemma_requested_values(runtime, requested, policy, environment);
        let earlier = add_images(rest, policy, environment)->Ok_0.values;
        let own = descriptor_value(image, canonical_descriptor_of(image.descriptor)->Ok_0);
        assert(described =~= descriptor_values(rest).push(own));
        assert(all == earlier.push(own) + added);
        lemma_multiset_commutative(earlier.push(own), added);
        lemma_multiset_commutative(before, added);
        assert(all.to_multiset() =~= described.to_multiset().add(values.to_multiset()));
        assert forall|i: int| 0 <= i < values.len() implies is_value_of(
            #[trigger] values[i],
            environment,
        ) by {
            if i < before.len() {
                assert(values[i] == before[i]);
            } else {
                assert(values[i] == added[i - before.len()]);
            }
        }
        assert forall|i: int, name: Seq<char>|
            #![trigger images[i].descriptor.environment_variables.contains(name)]
            0 <= i < images.len()
                && images[i].descriptor.environment_variables.contains(name) implies lacks(
            images[i].descriptor.name,
            '\0',
        ) && lacks(name, '\0') && (policy.environment_allowlist.contains(name)
            && environment.contains_key(name) && !is_blank(environment[name]) ==> values.contains(
            environment_value_text(images[i].descriptor.name, name, environment[name]),
        )) by {
            let text = environment_value_text(
                images[i].descriptor.name,
                name,
                environment[name],
            );
            if i < rest.len() {
                assert(rest[i] == images[i]);
                assert(rest[i].descriptor.environment_variables.contains(name));
                if before.contains(text) {
                    let m = choose|m: int| 0 <= m < before.len() && before[m] == text;
                    assert(values[m] == text);
                }
            } else {
                assert(requested.contains(name));
                let k = choose|k: int| 0 <= k < requested.len() && requested[k] == name;
                assert(lacks(requested[k], '\0'));
                if added.contains(text) {
                    let m = choose|m: int| 0 <= m < added.len() && added[m] == text;
                    assert(values[before.len() + m] == text);
                }
            }
        }
    }
}

/// The generation of a catalog of images follows the environment in the same way.
pub proof fn law_image_generation_follows_the_environment(
    images: Seq<DiscoveredRuntimeImageView>,
    policy: DiscoveryPolicyView,
    first: Map<Seq<char>, Seq<char>>,
    second: Map<Seq<char>, Seq<char>>,
    i: int,
    variable: Seq<char>,
)
    requires
        discovered_catalog(images, policy, first) is Ok,
        discovered_catalog(images, policy, second) is Ok,
        0 <= i < images.len(),
        images[i].descriptor.environment_variables.contains(variable),
        policy.environment_allowlist.contains(variable),
        is_changed(variable, first, second),
        values_lack_zero(policy, first),
        values_lack_zero(policy, second),
    ensures
        ({
            let ordered = keyed_order::<DiscoveredRuntimeImage>(images);
            let a = discovery_input(
                add_images(ordered, policy, first)->Ok_0.values + policy_values(policy),
            );
            let b = discovery_input(
                add_images(ordered, policy, second)->Ok_0.values + policy_values(policy),
            );
            &&& a != b
            &&& sha256(a) != sha256(b) ==> discovered_catalog(
                images,
                policy,
                first,
            )->Ok_0.generation != discovered_catalog(images, policy, second)->Ok_0.generation
        }),
{
    broadcast use group_to_multiset_ensures;
    broadcast use vstd::multiset::group_multiset_axioms;

    let ordered = keyed_order::<DiscoveredRuntimeImage>(images);
    law_keyed_order::<DiscoveredRuntimeImage>(images);
    lemma_kept(ordered, images, i);
    let k = choose|k: int| 0 <= k < ordered.len() && #[trigger] ordered[k] == images[i];
    lemma_image_values(ordered, policy, first);
    lemma_image_values(ordered, policy, second);
    lemma_policy_parts(policy);
    let policies = policy_values(policy);
    let described = descriptor_values(ordered);
    let (before, behind) = (policies.take(1) + described, policies.skip(1));
    reveal_strlit("descriptor\0");
    assert forall|j: int| 0 <= j < before.len() implies comes_before(#[trigger] before[j]) by {
        if j == 0 {
            assert(before[0] == policies.take(1)[0]);
        } else {
            assert(before[j] == described[j - 1]);
        }
    }
    let x = image_environment_values(ordered, policy, first);
    let y = image_environment_values(ordered, policy, second);
    let built = add_images(ordered, policy, first)->Ok_0.values;
    let other_built = add_images(ordered, policy, second)->Ok_0.values;
    let (all, other_all) = (built + policies, other_built + policies);
    let (a, b) = (discovery_input(all), discovery_input(other_all));
    lemma_multiset_commutative(policies.take(1), described);
    lemma_multiset_commutative(policies.take(1), behind);
    lemma_multiset_commutative(built, policies);
    lemma_multiset_commutative(other_built, policies);
    assert(all.to_multiset() =~= before.to_multiset().add(x.to_multiset()).add(
        behind.to_multiset(),
    ));
    assert(other_all.to_multiset() =~= before.to_multiset().add(y.to_multiset()).add(
        behind.to_multiset(),
    ));
    let runtime = ordered[k].descriptor.name;
    let text = environment_value_text(runtime, variable, first[variable]);
    assert(ordered[k].descriptor.environment_variables.contains(variable));
    assert(x.contains(text));
    lemma_value_is_new(runtime, variable, first, y, second);
    if a == b {
        let prefix = encode_utf8("flint-docker-discovery-v2\0"@);
        lemma_inputs_differ(prefix, all, x, first, other_all, y, second, before, behind);
        assert(x.to_multiset().count(text) > 0);
        assert(y.contains(text));
    }
    if hex_text(sha256(a)) == hex_text(sha256(b)) {
        lemma_hex_differs(sha256(a), sha256(b));
    }
}

} // verus!
