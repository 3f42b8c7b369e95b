//! The environment of a session container.

use vstd::prelude::*;

use crate::labels::Labels;
use crate::order::{sort_ranked, sorted};
use crate::runtime::{ResolvedEnvironmentVariable, ResolvedEnvironmentVariableView, ResolvedRuntime};
use crate::text::{
    cat3, cat5, cat6, contains_text, same, split_once, split_text_once, texts, trim, trimmed, views,
};

verus! {

// What a runtime asks for.

/// What comes of the variables that a runtime asks for: those that it gets, what is to be said
/// about the others, and what its deployment depends on.
#[verifier::ext_equal]
pub struct RequestedEnvironment {
    pub variables: Seq<ResolvedEnvironmentVariableView>,
    pub warnings: Seq<Seq<char>>,
    pub values: Seq<Seq<char>>,
}

pub open spec fn not_approved(runtime_name: Seq<char>, name: Seq<char>) -> Seq<char> {
    "runtime "@ + runtime_name + " requested environment variable "@ + name
        + ", but it is not approved by FLINT_RUNTIME_ENV_ALLOWLIST"@
}

pub open spec fn not_set(runtime_name: Seq<char>, name: Seq<char>) -> Seq<char> {
    "runtime "@ + runtime_name + " requested environment variable "@ + name
        + ", but it is not set"@
}

pub open spec fn environment_value_text(
    runtime_name: Seq<char>,
    name: Seq<char>,
    value: Seq<char>,
) -> Seq<char> {
    "environment\0"@ + runtime_name + "\0"@ + name + "\0"@ + value
}

/// Some variable of the list has this name.
pub open spec fn has_variable(
    variables: Seq<ResolvedEnvironmentVariableView>,
    name: Seq<char>,
) -> bool {
    exists|i: int| 0 <= i < variables.len() && (#[trigger] variables[i]).name == name
}

pub open spec fn is_blank(value: Seq<char>) -> bool {
    trimmed(value).len() == 0
}

/// A requested variable is handed on where it is approved and set to something. Otherwise there is
/// a warning, and the runtime does without.
pub open spec fn requested_environment(
    runtime_name: Seq<char>,
    requested: Seq<Seq<char>>,
    allowlist: Seq<Seq<char>>,
    environment: Map<Seq<char>, Seq<char>>,
) -> RequestedEnvironment
    decreases requested.len(),
{
    if requested.len() == 0 {
        RequestedEnvironment {
            variables: Seq::empty(),
            warnings: Seq::empty(),
            values: Seq::empty(),
        }
    } else {
        let before = requested_environment(
            runtime_name,
            requested.drop_last(),
            allowlist,
            environment,
        );
        let name = requested.last();
        if !allowlist.contains(name) {
            RequestedEnvironment {
                warnings: before.warnings.push(not_approved(runtime_name, name)),
                ..before
            }
        } else if !environment.contains_key(name) || is_blank(environment[name]) {
            RequestedEnvironment {
                warnings: before.warnings.push(not_set(runtime_name, name)),
                ..before
            }
        } else {
            RequestedEnvironment {
                variables: if has_variable(before.variables, name) {
                    before.variables
                } else {
                    before.variables.push(
                        ResolvedEnvironmentVariableView {
                            name,
                            value: environment[name],
                            secret: true,
                        },
                    )
                },
                values: before.values.push(
                    environment_value_text(runtime_name, name, environment[name]),
                ),
                ..before
            }
        }
    }
}

fn knows_variable(variables: &Vec<ResolvedEnvironmentVariable>, name: &str) -> (r: bool)
    ensures
        r == has_variable(views(variables@), name@),
{
    for i in 0..variables.len()
        invariant
            forall|k: int| 0 <= k < i ==> (#[trigger] views(variables@)[k]).name != name@,
    {
        proof {
            assert(views(variables@)[i as int] == variables@[i as int]@);
        }
        if same(variables[i].name.as_str(), name) {
            return true;
        }
    }
    false
}

pub fn resolve_requested_environment(
    runtime_name: &str,
    requested: &Vec<String>,
    allowlist: &Vec<String>,
    environment: &Labels,
    generation_values: &mut Vec<String>,
) -> (r: (Vec<ResolvedEnvironmentVariable>, Vec<String>))
    ensures
        ({
            let wanted = requested_environment(
                runtime_name@,
                texts(requested@),
                texts(allowlist@),
                environment@,
            );
            &&& views(r.0@) == wanted.variables
            &&& texts(r.1@) == wanted.warnings
            &&& texts(final(generation_values)@) == texts(old(generation_values)@) + wanted.values
        }),
{
    let ghost all = texts(requested@);
    let ghost start = texts(generation_values@);
    let mut resolved: Vec<ResolvedEnvironmentVariable> = Vec::new();
    let mut warnings: Vec<String> = Vec::new();
    proof {
        assert(views(resolved@) =~= Seq::empty());
        assert(texts(warnings@) =~= Seq::empty());
        assert(texts(generation_values@) =~= start + Seq::empty());
    }
    for i in 0..requested.len()
        invariant
            all == texts(requested@),
            views(resolved@) == requested_environment(
                runtime_name@,
                all.take(i as int),
                texts(allowlist@),
                environment@,
            ).variables,
            texts(warnings@) == requested_environment(
                runtime_name@,
                all.take(i as int),
                texts(allowlist@),
                environment@,
            ).warnings,
            texts(generation_values@) == start + requested_environment(
                runtime_name@,
                all.take(i as int),
                texts(allowlist@),
                environment@,
            ).values,
    {
        let name = requested[i].as_str();
        proof {
            let upto = all.take(i as int + 1);
            assert(upto.drop_last() =~= all.take(i as int));
            assert(upto.last() == name@);
        }
        let ghost warnings_before = warnings@;
        if !contains_text(allowlist, name) {
            let warning = cat5(
                "runtime ",
                runtime_name,
                " requested environment variable ",
                name,
                ", but it is not approved by FLINT_RUNTIME_ENV_ALLOWLIST",
            );
            warnings.push(warning);
            proof {
                assert(texts(warnings@) =~= texts(warnings_before).push(warning@));
            }
        } else {
            let value = match environment.get(name) {
                Some(value) => if trim(value.as_str()).as_str().is_empty() {
                    None
                } else {
                    Some(value)
                },
                None => None,
            };
            match value {
                None => {
                    let warning = cat5(
                        "runtime ",
                        runtime_name,
                        " requested environment variable ",
                        name,
                        ", but it is not set",
                    );
                    warnings.push(warning);
                    proof {
                        assert(texts(warnings@) =~= texts(warnings_before).push(warning@));
                    }
                },
                Some(value) => {
                    let ghost values_before = generation_values@;
                    let entry = cat6(
                        "environment\0",
                        runtime_name,
                        "\0",
                        name,
                        "\0",
                        value.as_str(),
                    );
                    generation_values.push(entry);
                    proof {
                        assert(texts(generation_values@) =~= texts(values_before).push(entry@));
                    }
                    if !knows_variable(&resolved, name) {
                        let ghost resolved_before = resolved@;
                        let variable = ResolvedEnvironmentVariable {
                            name: name.to_owned(),
                            value: value.clone(),
                            secret: true,
                        };
                        let ghost added = variable@;
                        resolved.push(variable);
                        proof {
                            assert(views(resolved@) =~= views(resolved_before).push(added));
                        }
                    }
                },
            }
        }
    }
    proof {
        assert(all.take(all.len() as int) =~= all);
    }
    (resolved, warnings)
}

/// Only what was asked for, approved and set is handed to a container.
pub proof fn law_environment_is_approved(
    runtime_name: Seq<char>,
    requested: Seq<Seq<char>>,
    allowlist: Seq<Seq<char>>,
    environment: Map<Seq<char>, Seq<char>>,
    i: int,
)
    requires
        0 <= i < requested_environment(
            runtime_name,
            requested,
            allowlist,
            environment,
        ).variables.len(),
    ensures
        ({
            let variable = requested_environment(
                runtime_name,
                requested,
                allowlist,
                environment,
            ).variables[i];
            &&& requested.contains(variable.name)
            &&& allowlist.contains(variable.name)
            &&& environment.contains_key(variable.name)
            &&& environment[variable.name] == variable.value
            &&& !is_blank(variable.value)
        }),
    decreases requested.len(),
{
    let head = requested.drop_last();
    let before = requested_environment(runtime_name, head, allowlist, environment);
    if i < before.variables.len() {
        law_environment_is_approved(runtime_name, head, allowlist, environment, i);
        let variable = before.variables[i];
        let k = choose|k: int| 0 <= k < head.len() && head[k] == variable.name;
        assert(requested[k] == variable.name);
    } else {
        assert(requested[requested.len() - 1] == requested.last());
    }
}

/// No two variables have one name.
pub open spec fn distinct_variables(variables: Seq<ResolvedEnvironmentVariableView>) -> bool {
    forall|a: int, b: int|
        0 <= a < b < variables.len() ==> (#[trigger] variables[a]).name != (
        #[trigger] variables[b]).name
}

/// A runtime has each variable once, however often it asks for it.
pub proof fn law_variables_have_names_of_their_own(
    runtime_name: Seq<char>,
    requested: Seq<Seq<char>>,
    allowlist: Seq<Seq<char>>,
    environment: Map<Seq<char>, Seq<char>>,
)
    ensures
        distinct_variables(
            requested_environment(runtime_name, requested, allowlist, environment).variables,
        ),
    decreases requested.len(),
{
    if requested.len() > 0 {
        let head = requested.drop_last();
        law_variables_have_names_of_their_own(runtime_name, head, allowlist, environment);
        let before = requested_environment(runtime_name, head, allowlist, environment).variables;
        let after = requested_environment(
            runtime_name,
            requested,
            allowlist,
            environment,
        ).variables;
        assert forall|a: int, b: int| 0 <= a < b < after.len() implies (#[trigger] after[a]).name
            != (#[trigger] after[b]).name by {
            assert(after[a] == before[a]);
            if b < before.len() {
                assert(after[b] == before[b]);
            } else {
                assert(!has_variable(before, after[b].name));
            }
        }
    }
}

// What a container gets.

/// The name in an entry `NAME=value`.
pub open spec fn entry_name(entry: Seq<char>) -> Seq<char> {
    match split_once(entry, '=') {
        Some(pair) => pair.0,
        None => entry,
    }
}

pub open spec fn variable_entry(variable: ResolvedEnvironmentVariableView) -> Seq<char> {
    variable.name + "="@ + variable.value
}

/// The entries of an image and the variables of a runtime, each with its name.
pub open spec fn named_entries(
    image_environment: Seq<Seq<char>>,
    variables: Seq<ResolvedEnvironmentVariableView>,
) -> Seq<(Seq<char>, Seq<char>)> {
    image_environment.map_values(|entry: Seq<char>| (entry_name(entry), entry))
        + variables.map_values(
        |variable: ResolvedEnvironmentVariableView| (variable.name, variable_entry(variable)),
    )
}

pub open spec fn named_later(entries: Seq<(Seq<char>, Seq<char>)>, name: Seq<char>) -> bool {
    exists|i: int| 0 <= i < entries.len() && (#[trigger] entries[i]).0 == name
}

/// The entries that no later entry of the same name replaces.
pub open spec fn last_of_each_name(entries: Seq<(Seq<char>, Seq<char>)>) -> Seq<Seq<char>>
    decreases entries.len(),
{
    if entries.len() == 0 {
        Seq::empty()
    } else {
        let rest = last_of_each_name(entries.drop_first());
        if named_later(entries.drop_first(), entries[0].0) {
            rest
        } else {
            seq![entries[0].1] + rest
        }
    }
}

fn name_occurs_from(entries: &Vec<(String, String)>, from: usize, name: &str) -> (r: bool)
    requires
        from <= entries@.len(),
    ensures
        r == named_later(views(entries@).skip(from as int), name@),
{
    let ghost rest = views(entries@).skip(from as int);
    for i in from..entries.len()
        invariant
            from <= entries@.len(),
            rest == views(entries@).skip(from as int),
            forall|k: int| 0 <= k < i - from ==> (#[trigger] rest[k]).0 != name@,
    {
        proof {
            assert(rest[i - from] == entries@[i as int]@);
        }
        if same(entries[i].0.as_str(), name) {
            return true;
        }
    }
    false
}

fn keep_last(entries: &Vec<(String, String)>) -> (r: Vec<String>)
    ensures
        texts(r@) == last_of_each_name(views(entries@)),
{
    let mut out: Vec<String> = Vec::new();
    let ghost all = views(entries@);
    proof {
        assert(all.skip(0) =~= all);
        assert(texts(out@) + last_of_each_name(all.skip(0)) =~= last_of_each_name(all));
    }
    for i in 0..entries.len()
        invariant
            all == views(entries@),
            texts(out@) + last_of_each_name(all.skip(i as int)) == last_of_each_name(all),
    {
        let ghost before = out@;
        let ghost here = all.skip(i as int);
        proof {
            assert(here[0] == entries@[i as int]@);
            assert(here.drop_first() =~= all.skip(i as int + 1));
        }
        if !name_occurs_from(entries, i + 1, entries[i].0.as_str()) {
            out.push(entries[i].1.clone());
            proof {
                assert(texts(out@) =~= texts(before).push(entries@[i as int].1@));
                assert(texts(out@) + last_of_each_name(all.skip(i as int + 1)) =~= texts(before)
                    + last_of_each_name(here));
            }
        }
    }
    proof {
        assert(last_of_each_name(all.skip(all.len() as int)) =~= Seq::empty());
        assert(texts(out@) =~= last_of_each_name(all));
    }
    out
}

/// What a container's environment is: the image's entries, with the runtime's variables in place of
/// those of the same name, in ascending order.
pub open spec fn container_environment_of(
    image_environment: Seq<Seq<char>>,
    variables: Seq<ResolvedEnvironmentVariableView>,
) -> Seq<Seq<char>> {
    sorted(last_of_each_name(named_entries(image_environment, variables)))
}

/// The value of the first variable with a name.
pub open spec fn value_of_variable(
    variables: Seq<ResolvedEnvironmentVariableView>,
    name: Seq<char>,
) -> Option<Seq<char>>
    decreases variables.len(),
{
    if variables.len() == 0 {
        None
    } else if variables[0].name == name {
        Some(variables[0].value)
    } else {
        value_of_variable(variables.drop_first(), name)
    }
}

impl ResolvedRuntime {
    pub fn environment_value(&self, name: &str) -> (r: Option<&str>)
        ensures
            match (r, value_of_variable(self@.environment, name@)) {
                (Some(a), Some(b)) => a@ == b,
                (None, None) => true,
                _ => false,
            },
    {
        let ghost all = self@.environment;
        proof {
            assert(all.skip(0) =~= all);
        }
        for i in 0..self.environment.len()
            invariant
                all == self@.environment,
                value_of_variable(all, name@) == value_of_variable(all.skip(i as int), name@),
        {
            proof {
                assert(all.skip(i as int)[0] == self.environment@[i as int]@);
                assert(all.skip(i as int).drop_first() =~= all.skip(i as int + 1));
            }
            if same(self.environment[i].name.as_str(), name) {
                return Some(self.environment[i].value.as_str());
            }
        }
        None
    }

    pub fn container_environment(&self) -> (r: Vec<String>)
        ensures
            texts(r@) == container_environment_of(self@.image_environment, self@.environment),
    {
        let mut entries: Vec<(String, String)> = Vec::new();
        let ghost image_part = self@.image_environment.map_values(
            |entry: Seq<char>| (entry_name(entry), entry),
        );
        let ghost own_part = self@.environment.map_values(
            |variable: ResolvedEnvironmentVariableView| (variable.name, variable_entry(variable)),
        );
        let ghost all = named_entries(self@.image_environment, self@.environment);
        proof {
            assert(all == image_part + own_part);
            assert(views(entries@) =~= all.take(0));
        }
        for i in 0..self.image_environment.len()
            invariant
                all == image_part + own_part,
                image_part == self@.image_environment.map_values(
                    |entry: Seq<char>| (entry_name(entry), entry),
                ),
                views(entries@) == all.take(i as int),
        {
            let ghost before = entries@;
            let entry = self.image_environment[i].as_str();
            let name = match split_text_once(entry, '=') {
                Some(pair) => pair.0,
                None => entry.to_owned(),
            };
            let pair = (name, entry.to_owned());
            let ghost added = pair@;
            entries.push(pair);
            proof {
                assert(self@.image_environment[i as int] == entry@);
                assert(all[i as int] == added);
                assert(views(entries@) =~= views(before).push(added));
                assert(views(entries@) =~= all.take(i as int + 1));
            }
        }
        let offset = self.image_environment.len();
        for i in 0..self.environment.len()
            invariant
                all == image_part + own_part,
                image_part.len() == offset,
                own_part == self@.environment.map_values(
                    |variable: ResolvedEnvironmentVariableView|
                        (variable.name, variable_entry(variable)),
                ),
                views(entries@) == all.take(offset + i),
        {
            let ghost before = entries@;
            let variable = &self.environment[i];
            let pair = (
                variable.name.clone(),
                cat3(variable.name.as_str(), "=", variable.value.as_str()),
            );
            let ghost added = pair@;
            entries.push(pair);
            proof {
                assert(self@.environment[i as int] == variable@);
                assert(all[offset + i] == own_part[i as int]);
                assert(all[offset + i] == added);
                assert(views(entries@) =~= views(before).push(added));
                assert(views(entries@) =~= all.take(offset + i + 1));
            }
        }
        proof {
            assert(all.take(all.len() as int) =~= all);
        }
        sort_ranked(keep_last(&entries))
    }
}

proof fn lemma_last_is_kept(entries: Seq<(Seq<char>, Seq<char>)>, i: int)
    requires
        0 <= i < entries.len(),
        forall|j: int| i < j < entries.len() ==> (#[trigger] entries[j]).0 != entries[i].0,
    ensures
        last_of_each_name(entries).contains(entries[i].1),
    decreases entries.len(),
{
    let tail = entries.drop_first();
    let rest = last_of_each_name(tail);
    if i == 0 {
        assert(!named_later(tail, entries[0].0)) by {
            if named_later(tail, entries[0].0) {
                let k = choose|k: int| 0 <= k < tail.len() && (#[trigger] tail[k]).0 == entries[0].0;
                assert(tail[k] == entries[k + 1]);
            }
        }
        assert(last_of_each_name(entries)[0] == entries[0].1);
    } else {
        assert(tail[i - 1] == entries[i]);
        assert forall|j: int| i - 1 < j < tail.len() implies (#[trigger] tail[j]).0 != tail[i
            - 1].0 by {
            assert(tail[j] == entries[j + 1]);
        }
        lemma_last_is_kept(tail, i - 1);
        let k = choose|k: int| 0 <= k < rest.len() && rest[k] == entries[i].1;
        if named_later(tail, entries[0].0) {
            assert(last_of_each_name(entries)[k] == entries[i].1);
        } else {
            assert(last_of_each_name(entries)[k + 1] == entries[i].1);
        }
    }
}

/// A runtime's variables reach its containers whatever the image sets, where no two of them have
/// one name.
pub proof fn law_runtime_variables_win(
    image_environment: Seq<Seq<char>>,
    variables: Seq<ResolvedEnvironmentVariableView>,
    i: int,
)
    requires
        0 <= i < variables.len(),
        distinct_variables(variables),
    ensures
        container_environment_of(image_environment, variables).contains(
            variable_entry(variables[i]),
        ),
{
    let entries = named_entries(image_environment, variables);
    let at = image_environment.len() + i;
    assert(entries[at] == (variables[i].name, variable_entry(variables[i])));
    assert forall|j: int| at < j < entries.len() implies (#[trigger] entries[j]).0
        != entries[at].0 by {
        let k = j - image_environment.len();
        assert(entries[j] == (variables[k].name, variable_entry(variables[k])));
        assert(variables[i].name != variables[k].name);
    }
    lemma_last_is_kept(entries, at);
    let kept = last_of_each_name(entries);
    let leq = |a: Seq<char>, b: Seq<char>| <String as crate::order::Ranked>::rank_le(a, b);
    <String as crate::order::Ranked>::lemma_rank_total();
    kept.lemma_sort_by_ensures(leq);
    broadcast use vstd::seq_lib::group_to_multiset_ensures;

    assert(kept.to_multiset().count(variable_entry(variables[i])) > 0);
    assert(sorted(kept).to_multiset().count(variable_entry(variables[i])) > 0);
}

/// What a container is given: each variable of its runtime, and each entry of its image that no
/// variable and no later entry of the image has the name of. Nothing else, and in ascending order.
pub proof fn law_container_environments(
    image_environment: Seq<Seq<char>>,
    variables: Seq<ResolvedEnvironmentVariableView>,
    entry: Seq<char>,
)
    requires
        distinct_variables(variables),
    ensures
        ({
            let given = container_environment_of(image_environment, variables);
            &&& given.contains(entry) <==> {
                ||| exists|i: int|
                    0 <= i < variables.len() && entry == (#[trigger] variables[i]).name + "="@
                        + variables[i].value
                ||| exists|i: int|
                    0 <= i < image_environment.len() && #[trigger] image_environment[i] == entry
                        && (forall|j: int|
                        i < j < image_environment.len() ==> entry_name(
                            #[trigger] image_environment[j],
                        ) != entry_name(entry)) && (forall|j: int|
                        0 <= j < variables.len() ==> (#[trigger] variables[j]).name != entry_name(
                            entry,
                        ))
            }
            &&& forall|i: int, j: int|
                0 <= i < j < given.len() ==> crate::order::text_le(
                    #[trigger] given[i],
                    #[trigger] given[j],
                )
        }),
{
    let entries = named_entries(image_environment, variables);
    let kept = last_of_each_name(entries);
    let given = sorted(kept);
    let leq = |a: Seq<char>, b: Seq<char>| <String as crate::order::Ranked>::rank_le(a, b);
    <String as crate::order::Ranked>::lemma_rank_total();
    kept.lemma_sort_by_ensures(leq);
    broadcast use vstd::seq_lib::group_to_multiset_ensures;

    assert(given.contains(entry) <==> kept.contains(entry)) by {
        assert(given.to_multiset().count(entry) == kept.to_multiset().count(entry));
    }
    assert forall|i: int, j: int| 0 <= i < j < given.len() implies crate::order::text_le(
        #[trigger] given[i],
        #[trigger] given[j],
    ) by {
        assert(leq(given[i], given[j]));
    }
    let n = image_environment.len() as int;
    if kept.contains(entry) {
        lemma_kept_is_last(entries, entry);
        let i = choose|i: int| 0 <= i < entries.len() && is_last(entries, i, entry);
        if i < n {
            assert(entries[i] == (entry_name(image_environment[i]), image_environment[i]));
            assert forall|j: int| i < j < n implies entry_name(#[trigger] image_environment[j])
                != entry_name(entry) by {
                assert(entries[j].0 == entry_name(image_environment[j]));
            }
            assert forall|j: int| 0 <= j < variables.len() implies (#[trigger] variables[j]).name
                != entry_name(entry) by {
                assert(entries[n + j].0 == variables[j].name);
            }
            assert(image_environment[i] == entry);
        } else {
            assert(entries[i] == (variables[i - n].name, variable_entry(variables[i - n])));
            assert(entry == variables[i - n].name + "="@ + variables[i - n].value);
        }
    }
    if exists|i: int|
        0 <= i < variables.len() && entry == (#[trigger] variables[i]).name + "="@
            + variables[i].value {
        let i = choose|i: int|
            0 <= i < variables.len() && entry == (#[trigger] variables[i]).name + "="@
                + variables[i].value;
        law_runtime_variables_win(image_environment, variables, i);
    }
    if exists|i: int|
        0 <= i < n && #[trigger] image_environment[i] == entry && (forall|j: int|
            i < j < n ==> entry_name(#[trigger] image_environment[j]) != entry_name(entry)) && (
        forall|j: int|
            0 <= j < variables.len() ==> (#[trigger] variables[j]).name != entry_name(entry)) {
        let i = choose|i: int|
            0 <= i < n && #[trigger] image_environment[i] == entry && (forall|j: int|
                i < j < n ==> entry_name(#[trigger] image_environment[j]) != entry_name(entry)) && (
            forall|j: int|
                0 <= j < variables.len() ==> (#[trigger] variables[j]).name != entry_name(entry));
        assert(entries[i] == (entry_name(entry), entry));
        assert forall|j: int| i < j < entries.len() implies (#[trigger] entries[j]).0
            != entries[i].0 by {
            if j < n {
                assert(entries[j].0 == entry_name(image_environment[j]));
            } else {
                assert(entries[j].0 == variables[j - n].name);
            }
        }
        lemma_last_is_kept(entries, i);
    }
}

/// The entry at this place is this one, and no later entry has its name.
spec fn is_last(entries: Seq<(Seq<char>, Seq<char>)>, i: int, entry: Seq<char>) -> bool {
    &&& entries[i].1 == entry
    &&& forall|j: int| i < j < entries.len() ==> (#[trigger] entries[j]).0 != entries[i].0
}

proof fn lemma_kept_is_last(entries: Seq<(Seq<char>, Seq<char>)>, entry: Seq<char>)
    requires
        last_of_each_name(entries).contains(entry),
    ensures
        exists|i: int| 0 <= i < entries.len() && is_last(entries, i, entry),
    decreases entries.len(),
{
    let tail = entries.drop_first();
    let rest = last_of_each_name(tail);
    let kept = last_of_each_name(entries);
    let k = choose|k: int| 0 <= k < kept.len() && kept[k] == entry;
    if !named_later(tail, entries[0].0) && k == 0 {
        assert forall|j: int| 0 < j < entries.len() implies (#[trigger] entries[j]).0
            != entries[0].0 by {
            assert(tail[j - 1] == entries[j]);
        }
        assert(is_last(entries, 0, entry));
    } else {
        if !named_later(tail, entries[0].0) {
            assert(rest[k - 1] == entry);
        }
        assert(rest.contains(entry));
        lemma_kept_is_last(tail, entry);
        let i = choose|i: int| 0 <= i < tail.len() && is_last(tail, i, entry);
        assert(entries[i + 1] == tail[i]);
        assert forall|j: int| i + 1 < j < entries.len() implies (#[trigger] entries[j]).0
            != entries[i + 1].0 by {
            assert(entries[j] == tail[j - 1]);
        }
        assert(is_last(entries, i + 1, entry));
    }
}

/// The name in an entry stands before its first equals sign.
pub proof fn law_entry_names(name: Seq<char>, value: Seq<char>)
    requires
        crate::text::lacks(name, '='),
    ensures
        entry_name(name + seq!['='] + value) == name,
        entry_name(name) == name,
{
    crate::text_laws::law_split_once(name, name, value, '=');
}

/// A runtime that asks for a variable gets it, with its value, where it is approved and set to
/// something; and of a variable that it does not get, it is told.
pub proof fn law_requested_variables(
    runtime_name: Seq<char>,
    requested: Seq<Seq<char>>,
    allowlist: Seq<Seq<char>>,
    environment: Map<Seq<char>, Seq<char>>,
    name: Seq<char>,
)
    requires
        requested.contains(name),
    ensures
        ({
            let found = requested_environment(runtime_name, requested, allowlist, environment);
            let given = allowlist.contains(name) && environment.contains_key(name)
                && trimmed(environment[name]).len() > 0;
            &&& given <==> has_variable(found.variables, name)
            &&& !allowlist.contains(name) ==> found.warnings.contains(
                "runtime "@ + runtime_name + " requested environment variable "@ + name
                    + ", but it is not approved by FLINT_RUNTIME_ENV_ALLOWLIST"@,
            )
            &&& allowlist.contains(name) && !given ==> found.warnings.contains(
                "runtime "@ + runtime_name + " requested environment variable "@ + name
                    + ", but it is not set"@,
            )
        }),
    decreases requested.len(),
{
    let head = requested.drop_last();
    let before = requested_environment(runtime_name, head, allowlist, environment);
    let found = requested_environment(runtime_name, requested, allowlist, environment);
    let last = requested.last();
    let given = allowlist.contains(name) && environment.contains_key(name) && trimmed(
        environment[name],
    ).len() > 0;
    if has_variable(found.variables, name) {
        let i = choose|i: int|
            0 <= i < found.variables.len() && (#[trigger] found.variables[i]).name == name;
        law_environment_is_approved(runtime_name, requested, allowlist, environment, i);
    }
    if name == last {
        if given {
            if !has_variable(before.variables, name) {
                assert(found.variables[before.variables.len() as int].name == name);
            }
        } else {
            assert(found.warnings[before.warnings.len() as int] == found.warnings.last());
        }
    } else {
        let k = choose|k: int| 0 <= k < requested.len() && requested[k] == name;
        assert(head[k] == name);
        law_requested_variables(runtime_name, head, allowlist, environment, name);
        if has_variable(before.variables, name) {
            let i = choose|i: int|
                0 <= i < before.variables.len() && (#[trigger] before.variables[i]).name == name;
            assert(found.variables[i] == before.variables[i]);
        }
        assert forall|w: Seq<char>| before.warnings.contains(w) implies found.warnings.contains(
            w,
        ) by {
            let i = choose|i: int| 0 <= i < before.warnings.len() && before.warnings[i] == w;
            assert(found.warnings[i] == w);
        }
    }
}

} // verus!
