//! Which actions an authorization policy allows.

use vstd::prelude::*;

use crate::labels::{lookup, Labels};
use crate::runtime::{
    AuthorizationPolicy, AuthorizationPolicyView, ConditionKeyView, ConditionView, PolicyEffect,
    PolicyStatement, PolicyStatementView,
};
use crate::text::{agrees, cat2, same, texts, views};
use crate::wildcard::{matches_text, wildcard_match};

verus! {

/// The reason for which a request is refused.
#[derive(Debug)]
pub enum AuthorizationError {
    AccessDenied(String),
}

impl View for AuthorizationError {
    type V = Seq<char>;

    open spec fn view(&self) -> Seq<char> {
        match self {
            AuthorizationError::AccessDenied(message) => message@,
        }
    }
}

impl AuthorizationError {
    /// The text shown to callers.
    pub fn message(&self) -> (r: String)
        ensures
            r@ == "access denied: "@ + self@,
    {
        match self {
            AuthorizationError::AccessDenied(message) => cat2("access denied: ", message.as_str()),
        }
    }
}

/// A refusal with this reason.
pub fn denied<T>(message: &str) -> (r: Result<T, AuthorizationError>)
    ensures
        r matches Err(error) && error@ == message@,
{
    Err(AuthorizationError::AccessDenied(message.to_owned()))
}

/// What a caller may be allowed to do.
#[derive(Clone, Copy, Debug, PartialEq, Eq, Structural)]
pub enum RuntimeIamAction {
    InvokeAgentRuntime,
    InvokeAgentRuntimeForUser,
    InvokeAgentRuntimeCommand,
    StopRuntimeSession,
    GetAgentCard,
}

impl RuntimeIamAction {
    pub open spec fn name(self) -> Seq<char> {
        match self {
            RuntimeIamAction::InvokeAgentRuntime => "bedrock-agentcore:InvokeAgentRuntime"@,
            RuntimeIamAction::InvokeAgentRuntimeForUser =>
                "bedrock-agentcore:InvokeAgentRuntimeForUser"@,
            RuntimeIamAction::InvokeAgentRuntimeCommand =>
                "bedrock-agentcore:InvokeAgentRuntimeCommand"@,
            RuntimeIamAction::StopRuntimeSession => "bedrock-agentcore:StopRuntimeSession"@,
            RuntimeIamAction::GetAgentCard => "bedrock-agentcore:GetAgentCard"@,
        }
    }

    pub fn as_str(self) -> (r: &'static str)
        ensures
            r@ == self.name(),
    {
        match self {
            RuntimeIamAction::InvokeAgentRuntime => "bedrock-agentcore:InvokeAgentRuntime",
            RuntimeIamAction::InvokeAgentRuntimeForUser =>
                "bedrock-agentcore:InvokeAgentRuntimeForUser",
            RuntimeIamAction::InvokeAgentRuntimeCommand =>
                "bedrock-agentcore:InvokeAgentRuntimeCommand",
            RuntimeIamAction::StopRuntimeSession => "bedrock-agentcore:StopRuntimeSession",
            RuntimeIamAction::GetAgentCard => "bedrock-agentcore:GetAgentCard",
        }
    }
}

/// Some pattern of the list matches the value.
pub open spec fn any_matches(patterns: Seq<Seq<char>>, value: Seq<char>) -> bool {
    exists|i: int| 0 <= i < patterns.len() && #[trigger] matches_text(patterns[i], value)
}

fn any_pattern_matches(patterns: &Vec<String>, value: &str) -> (r: bool)
    ensures
        r == any_matches(texts(patterns@), value@),
{
    for i in 0..patterns.len()
        invariant
            forall|k: int| 0 <= k < i ==> !matches_text(#[trigger] texts(patterns@)[k], value@),
    {
        proof {
            assert(texts(patterns@)[i as int] == patterns@[i as int]@);
        }
        if wildcard_match(patterns[i].as_str(), value) {
            return true;
        }
    }
    false
}

/// What holds of one key of a request under a condition operator: the key is present, and its
/// value equals or matches one of the expected values. An operator of any other name never holds.
pub open spec fn key_holds(
    operator: Seq<char>,
    key: ConditionKeyView,
    context: Map<Seq<char>, Seq<char>>,
) -> bool {
    match lookup(context, key.key) {
        Some(actual) => {
            if operator == "StringEquals"@ || operator == "ArnEquals"@ {
                key.expected.contains(actual)
            } else if operator == "StringLike"@ || operator == "ArnLike"@ {
                any_matches(key.expected, actual)
            } else {
                false
            }
        },
        None => false,
    }
}

pub open spec fn condition_holds(
    condition: ConditionView,
    context: Map<Seq<char>, Seq<char>>,
) -> bool {
    forall|i: int|
        0 <= i < condition.keys.len() ==> #[trigger] key_holds(
            condition.operator,
            condition.keys[i],
            context,
        )
}

/// Every condition of the statement holds.
pub open spec fn conditions_hold(
    statement: PolicyStatementView,
    context: Map<Seq<char>, Seq<char>>,
) -> bool {
    forall|i: int|
        0 <= i < statement.conditions.len() ==> #[trigger] condition_holds(
            statement.conditions[i],
            context,
        )
}

fn key_matches(operator: &str, key: &str, expected: &Vec<String>, context: &Labels) -> (r: bool)
    ensures
        r == key_holds(
            operator@,
            (ConditionKeyView { key: key@, expected: texts(expected@) }),
            context@,
        ),
{
    match context.get(key) {
        Some(actual) => {
            if same(operator, "StringEquals") || same(operator, "ArnEquals") {
                crate::text::contains_text(expected, actual.as_str())
            } else if same(operator, "StringLike") || same(operator, "ArnLike") {
                any_pattern_matches(expected, actual.as_str())
            } else {
                false
            }
        },
        None => false,
    }
}

pub fn conditions_match(statement: &PolicyStatement, context: &Labels) -> (r: bool)
    ensures
        r == conditions_hold(statement@, context@),
{
    for i in 0..statement.conditions.len()
        invariant
            forall|k: int|
                0 <= k < i ==> #[trigger] condition_holds(statement@.conditions[k], context@),
    {
        let condition = &statement.conditions[i];
        proof {
            assert(statement@.conditions[i as int] == condition@);
        }
        for j in 0..condition.keys.len()
            invariant
                i < statement.conditions@.len(),
                statement@.conditions[i as int] == condition@,
                forall|k: int|
                    0 <= k < j ==> #[trigger] key_holds(
                        condition@.operator,
                        condition@.keys[k],
                        context@,
                    ),
        {
            let key = &condition.keys[j];
            proof {
                assert(condition@.keys[j as int] == key@);
            }
            if !key_matches(
                condition.operator.as_str(),
                key.key.as_str(),
                &key.expected,
                context,
            ) {
                proof {
                    assert(!key_holds(condition@.operator, condition@.keys[j as int], context@));
                    assert(!condition_holds(statement@.conditions[i as int], context@));
                }
                return false;
            }
        }
        proof {
            assert(condition_holds(statement@.conditions[i as int], context@));
        }
    }
    true
}

/// The statement speaks of this action on this resource by this principal, and its conditions
/// hold. Without a principal the statement's principals are not looked at.
pub open spec fn applies(
    statement: PolicyStatementView,
    action: RuntimeIamAction,
    resource: Seq<char>,
    principal: Option<Seq<char>>,
    context: Map<Seq<char>, Seq<char>>,
) -> bool {
    &&& any_matches(statement.actions, action.name())
    &&& any_matches(statement.resources, resource)
    &&& (principal matches Some(who) ==> any_matches(statement.principals, who))
    &&& conditions_hold(statement, context)
}

pub fn statement_matches(
    statement: &PolicyStatement,
    action: RuntimeIamAction,
    resource: &str,
    principal: Option<&str>,
    context: &Labels,
) -> (r: bool)
    ensures
        r == applies(
            statement@,
            action,
            resource@,
            (match principal {
                Some(who) => Some(who@),
                None => None,
            }),
            context@,
        ),
{
    if !any_pattern_matches(&statement.actions, action.as_str()) {
        return false;
    }
    if !any_pattern_matches(&statement.resources, resource) {
        return false;
    }
    let principal_matches = match principal {
        Some(who) => any_pattern_matches(&statement.principals, who),
        None => true,
    };
    principal_matches && conditions_match(statement, context)
}

/// Some statement of this effect applies.
pub open spec fn decides(
    statements: Seq<PolicyStatementView>,
    effect: PolicyEffect,
    action: RuntimeIamAction,
    resource: Seq<char>,
    principal: Option<Seq<char>>,
    context: Map<Seq<char>, Seq<char>>,
) -> bool {
    exists|i: int|
        0 <= i < statements.len() && statements[i].effect == effect && #[trigger] applies(
            statements[i],
            action,
            resource,
            principal,
            context,
        )
}

/// Why an action is refused, or that it is allowed: a deny that applies always refuses; an allow
/// of the caller's statements is needed; and where the runtime has statements of its own, one of
/// their allows is needed too.
pub open spec fn evaluated(
    policy: AuthorizationPolicyView,
    action: RuntimeIamAction,
    resource: Seq<char>,
    principal: Seq<char>,
    context: Map<Seq<char>, Seq<char>>,
) -> Result<(), Seq<char>> {
    let own = policy.identity_statements;
    let shared = policy.resource_statements;
    let who = Some(principal);
    if decides(own, PolicyEffect::Deny, action, resource, None, context) || decides(
        shared,
        PolicyEffect::Deny,
        action,
        resource,
        who,
        context,
    ) {
        Err("explicit policy deny for "@ + action.name())
    } else if !decides(own, PolicyEffect::Allow, action, resource, None, context) {
        Err("no identity policy allows "@ + action.name())
    } else if shared.len() > 0 && !decides(
        shared,
        PolicyEffect::Allow,
        action,
        resource,
        who,
        context,
    ) {
        Err("no resource policy allows "@ + action.name())
    } else {
        Ok(())
    }
}

/// Whether a deny applies, and whether an allow does.
fn effects(
    statements: &Vec<PolicyStatement>,
    action: RuntimeIamAction,
    resource: &str,
    principal: Option<&str>,
    context: &Labels,
) -> (r: (bool, bool))
    ensures
        ({
            let who = match principal {
                Some(who) => Some(who@),
                None => None,
            };
            &&& r.0 == decides(
                views(statements@),
                PolicyEffect::Deny,
                action,
                resource@,
                who,
                context@,
            )
            &&& r.1 == decides(
                views(statements@),
                PolicyEffect::Allow,
                action,
                resource@,
                who,
                context@,
            )
        }),
{
    let mut deny = false;
    let mut allow = false;
    let ghost who = match principal {
        Some(who) => Some(who@),
        None => None,
    };
    let ghost all = views(statements@);
    proof {
        assert(!decides(all.take(0), PolicyEffect::Deny, action, resource@, who, context@));
        assert(!decides(all.take(0), PolicyEffect::Allow, action, resource@, who, context@));
    }
    for i in 0..statements.len()
        invariant
            all == views(statements@),
            who == (match principal {
                Some(who) => Some(who@),
                None => None,
            }),
            deny == decides(
                all.take(i as int),
                PolicyEffect::Deny,
                action,
                resource@,
                who,
                context@,
            ),
            allow == decides(
                all.take(i as int),
                PolicyEffect::Allow,
                action,
                resource@,
                who,
                context@,
            ),
    {
        let statement = &statements[i];
        let hit = statement_matches(statement, action, resource, principal, context);
        proof {
            assert(all[i as int] == statement@);
            lemma_decides_step(all, i as int, PolicyEffect::Deny, action, resource@, who, context@);
            lemma_decides_step(all, i as int, PolicyEffect::Allow, action, resource@, who, context@);
        }
        if hit {
            match statement.effect {
                PolicyEffect::Deny => {
                    deny = true;
                },
                PolicyEffect::Allow => {
                    allow = true;
                },
            }
        }
    }
    proof {
        assert(all.take(all.len() as int) =~= all);
    }
    (deny, allow)
}

proof fn lemma_decides_step(
    all: Seq<PolicyStatementView>,
    i: int,
    effect: PolicyEffect,
    action: RuntimeIamAction,
    resource: Seq<char>,
    who: Option<Seq<char>>,
    context: Map<Seq<char>, Seq<char>>,
)
    requires
        0 <= i < all.len(),
    ensures
        decides(all.take(i + 1), effect, action, resource, who, context) == (decides(
            all.take(i),
            effect,
            action,
            resource,
            who,
            context,
        ) || (all[i].effect == effect && applies(all[i], action, resource, who, context))),
{
    let shorter = all.take(i);
    let longer = all.take(i + 1);
    if decides(shorter, effect, action, resource, who, context) {
        let k = choose|k: int|
            0 <= k < shorter.len() && shorter[k].effect == effect && #[trigger] applies(
                shorter[k],
                action,
                resource,
                who,
                context,
            );
        assert(longer[k] == shorter[k]);
        assert(applies(longer[k], action, resource, who, context));
    }
    if all[i].effect == effect && applies(all[i], action, resource, who, context) {
        assert(longer[i] == all[i]);
        assert(applies(longer[i], action, resource, who, context));
    }
    if decides(longer, effect, action, resource, who, context) {
        let k = choose|k: int|
            0 <= k < longer.len() && longer[k].effect == effect && #[trigger] applies(
                longer[k],
                action,
                resource,
                who,
                context,
            );
        if k < i {
            assert(shorter[k] == longer[k]);
            assert(applies(shorter[k], action, resource, who, context));
        }
    }
}

pub fn evaluate_action(
    policy: &AuthorizationPolicy,
    action: RuntimeIamAction,
    resource: &str,
    principal: &str,
    context: &Labels,
) -> (r: Result<(), AuthorizationError>)
    ensures
        agrees(r, evaluated(policy@, action, resource@, principal@, context@)),
{
    let own = effects(&policy.identity_statements, action, resource, None, context);
    let shared = effects(&policy.resource_statements, action, resource, Some(principal), context);
    if own.0 || shared.0 {
        return denied(cat2("explicit policy deny for ", action.as_str()).as_str());
    }
    if !own.1 {
        return denied(cat2("no identity policy allows ", action.as_str()).as_str());
    }
    if policy.resource_statements.len() > 0 && !shared.1 {
        return denied(cat2("no resource policy allows ", action.as_str()).as_str());
    }
    Ok(())
}

/// A deny that applies refuses the action, whatever else the policy says.
pub proof fn law_deny_overrides(
    policy: AuthorizationPolicyView,
    action: RuntimeIamAction,
    resource: Seq<char>,
    principal: Seq<char>,
    context: Map<Seq<char>, Seq<char>>,
    i: int,
)
    requires
        0 <= i < policy.identity_statements.len(),
        policy.identity_statements[i].effect == PolicyEffect::Deny,
        applies(policy.identity_statements[i], action, resource, None, context),
    ensures
        evaluated(policy, action, resource, principal, context) == Err::<(), Seq<char>>(
            "explicit policy deny for "@ + action.name(),
        ),
{
}

/// A deny of the runtime's own statements refuses the action as well.
pub proof fn law_resource_deny_overrides(
    policy: AuthorizationPolicyView,
    action: RuntimeIamAction,
    resource: Seq<char>,
    principal: Seq<char>,
    context: Map<Seq<char>, Seq<char>>,
    i: int,
)
    requires
        0 <= i < policy.resource_statements.len(),
        policy.resource_statements[i].effect == PolicyEffect::Deny,
        applies(policy.resource_statements[i], action, resource, Some(principal), context),
    ensures
        evaluated(policy, action, resource, principal, context) == Err::<(), Seq<char>>(
            "explicit policy deny for "@ + action.name(),
        ),
{
}

/// Nothing is allowed without an allow among the caller's statements.
pub proof fn law_default_is_deny(
    policy: AuthorizationPolicyView,
    action: RuntimeIamAction,
    resource: Seq<char>,
    principal: Seq<char>,
    context: Map<Seq<char>, Seq<char>>,
)
    requires
        forall|i: int|
            0 <= i < policy.identity_statements.len() ==> (
            #[trigger] policy.identity_statements[i]).effect == PolicyEffect::Deny || !applies(
                policy.identity_statements[i],
                action,
                resource,
                None,
                context,
            ),
    ensures
        evaluated(policy, action, resource, principal, context) is Err,
{
}

} // verus!
