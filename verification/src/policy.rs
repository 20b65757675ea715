//! Role-based authorization of capability requests.

use std::collections::BTreeMap;
use vstd::prelude::*;
use crate::ir::{AuthorizationPolicy, CapabilityRequest, Diagnostic, PolicyRule};
use crate::text::str_eq;

verus! {

/// The outcome of evaluating a request against a policy.
#[derive(Debug, Clone, PartialEq, Eq)]
pub enum PolicyDecision {
    Allow,
    Deny { reason: String },
    Degrade { reason: String },
}

/// The actor a request is evaluated for.
#[derive(Debug, Clone, PartialEq, Eq)]
pub struct ActorContext {
    pub role: String,
    pub actor_id: String,
}

/// A decision described by plain values: 0 allow, 1 deny, 2 degrade, with its reason.
pub open spec fn decision_is(d: PolicyDecision, kind: int, reason: Seq<char>) -> bool {
    match d {
        PolicyDecision::Allow => kind == 0,
        PolicyDecision::Deny { reason: r } => kind == 1 && r@ == reason,
        PolicyDecision::Degrade { reason: r } => kind == 2 && r@ == reason,
    }
}

/// A rule covers a capability when it lists none (all) or lists that capability.
pub open spec fn spec_rule_matches(rule: PolicyRule, capability: Seq<char>) -> bool {
    rule.capabilities@.len() == 0 || exists|i: int| 0 <= i < rule.capabilities@.len() && #[trigger] rule.capabilities@[i]@ == capability
}

/// Some rule of `role` with effect `effect` covers `capability`.
pub open spec fn has_rule(rules: Seq<PolicyRule>, role: Seq<char>, effect: Seq<char>, capability: Seq<char>) -> bool {
    exists|i: int| 0 <= i < rules.len() && #[trigger] rules[i].role@ == role && rules[i].effect@ == effect
        && spec_rule_matches(rules[i], capability)
}

/// Some rule names `role`.
pub open spec fn role_known(rules: Seq<PolicyRule>, role: Seq<char>) -> bool {
    exists|i: int| 0 <= i < rules.len() && #[trigger] rules[i].role@ == role
}

/// The decision of the default effect for `capability`.
pub open spec fn default_decision_is(default_effect: Seq<char>, capability: Seq<char>, d: PolicyDecision) -> bool {
    if default_effect == "allow"@ {
        decision_is(d, 0, Seq::empty())
    } else if default_effect == "degrade"@ {
        decision_is(d, 2, "AUZ-003: default degrade for '"@ + capability + "'"@)
    } else {
        decision_is(d, 1, "AUZ-001: default deny for '"@ + capability + "'"@)
    }
}

/// What the policy decides for `role` asking for `capability`: an unknown role gets
/// the default; otherwise a covering deny rule wins, then a covering allow rule, then
/// a covering degrade rule, and the default when none covers.
pub open spec fn evaluation_is(policy: AuthorizationPolicy, role: Seq<char>, capability: Seq<char>, d: PolicyDecision) -> bool {
    let rules = policy.rules@;
    if !role_known(rules, role) {
        default_decision_is(policy.default_effect@, capability, d)
    } else if has_rule(rules, role, "deny"@, capability) {
        decision_is(d, 1, "AUZ-001: role '"@ + role + "' denied capability '"@ + capability + "'"@)
    } else if has_rule(rules, role, "allow"@, capability) {
        decision_is(d, 0, Seq::empty())
    } else if has_rule(rules, role, "degrade"@, capability) {
        decision_is(d, 2, "AUZ-002: role '"@ + role + "' degraded for capability '"@ + capability + "'"@)
    } else {
        default_decision_is(policy.default_effect@, capability, d)
    }
}

/// Whether `rule` covers `capability`.
pub fn rule_matches_capability(rule: &PolicyRule, capability: &str) -> (b: bool)
    ensures
        b == spec_rule_matches(*rule, capability@),
{
    if rule.capabilities.len() == 0 {
        return true;
    }
    let mut i: usize = 0;
    while i < rule.capabilities.len()
        invariant
            i <= rule.capabilities@.len(),
            forall|k: int| 0 <= k < i ==> #[trigger] rule.capabilities@[k]@ != capability@,
        decreases rule.capabilities@.len() - i,
    {
        if str_eq(rule.capabilities[i].as_str(), capability) {
            return true;
        }
        i = i + 1;
    }
    false
}

/// The built-in policy's contents.
pub open spec fn default_policy_shape(p: AuthorizationPolicy) -> bool {
    &&& p.policy_id@ == "default-policy"@
    &&& p.version@ == "0.1"@
    &&& p.default_effect@ == "deny"@
    &&& p.rules@.len() == 4
    &&& p.rules@[0].role@ == "human_operator"@
    &&& p.rules@[0].effect@ == "allow"@
    &&& p.rules@[0].capabilities@.len() == 0
    &&& p.rules@[1].role@ == "external_agent"@
    &&& p.rules@[1].effect@ == "allow"@
    &&& p.rules@[1].capabilities@.len() == 0
    &&& p.rules@[2].role@ == "external_agent"@
    &&& p.rules@[2].effect@ == "deny"@
    &&& p.rules@[2].capabilities@.len() == 2
    &&& p.rules@[2].capabilities@[0]@ == "patch.submit"@
    &&& p.rules@[2].capabilities@[1]@ == "patch.deferred_rollback"@
    &&& p.rules@[2].patch_classes@.len() == 1
    &&& p.rules@[2].patch_classes@[0]@ == "emergency"@
    &&& p.rules@[3].role@ == "auto_recovery"@
    &&& p.rules@[3].effect@ == "allow"@
    &&& p.rules@[3].capabilities@.len() == 4
    &&& p.rules@[3].capabilities@[0]@ == "patch.rollback"@
    &&& p.rules@[3].capabilities@[1]@ == "patch.deferred_rollback"@
    &&& p.rules@[3].capabilities@[2]@ == "run.status"@
    &&& p.rules@[3].capabilities@[3]@ == "system.doctor"@
}

/// Evaluates capability requests against an authorization policy.
pub struct PolicyEngine {
    policy: AuthorizationPolicy,
}

fn join5(a: &str, b: &str, c: &str, d: &str, e: &str) -> (s: String)
    ensures
        s@ == a@ + b@ + c@ + d@ + e@,
{
    let mut s = String::from_str(a);
    s.append(b);
    s.append(c);
    s.append(d);
    s.append(e);
    s
}

fn rule(role: &str, effect: &str, capabilities: &[&str], patch_classes: &[&str]) -> (r: PolicyRule)
    ensures
        r.role@ == role@,
        r.effect@ == effect@,
        r.capabilities@.len() == capabilities@.len(),
        forall|i: int| 0 <= i < capabilities@.len() ==> #[trigger] r.capabilities@[i]@ == capabilities@[i]@,
        r.patch_classes@.len() == patch_classes@.len(),
        forall|i: int| 0 <= i < patch_classes@.len() ==> #[trigger] r.patch_classes@[i]@ == patch_classes@[i]@,
        r.conditions@ == Map::<String, String>::empty(),
{
    PolicyRule {
        role: String::from_str(role),
        effect: String::from_str(effect),
        capabilities: strings(capabilities),
        patch_classes: strings(patch_classes),
        conditions: BTreeMap::new(),
    }
}

fn strings(items: &[&str]) -> (v: Vec<String>)
    ensures
        v@.len() == items@.len(),
        forall|i: int| 0 <= i < items@.len() ==> #[trigger] v@[i]@ == items@[i]@,
{
    let mut v: Vec<String> = Vec::new();
    let mut i: usize = 0;
    while i < items.len()
        invariant
            i <= items@.len(),
            v@.len() == i,
            forall|k: int| 0 <= k < i ==> #[trigger] v@[k]@ == items@[k]@,
        decreases items@.len() - i,
    {
        v.push(String::from_str(items[i]));
        i = i + 1;
    }
    v
}

impl PolicyEngine {
    /// The policy this engine evaluates against.
    pub closed spec fn policy_spec(self) -> AuthorizationPolicy {
        self.policy
    }

    /// An engine for `policy`.
    pub fn new(policy: AuthorizationPolicy) -> (e: Self)
        ensures
            e.policy_spec() == policy,
    {
        PolicyEngine { policy }
    }

    /// The built-in policy: default deny; human operators may do everything; external
    /// agents may do everything but submit patches or trigger deferred rollbacks;
    /// auto-recovery may only roll back, query run status and run the doctor.
    pub fn default_policy() -> (e: Self)
        ensures
            default_policy_shape(e.policy_spec()),
    {
        let mut rules: Vec<PolicyRule> = Vec::new();
        rules.push(rule("human_operator", "allow", &[], &[]));
        rules.push(rule("external_agent", "allow", &[], &[]));
        rules.push(rule("external_agent", "deny", &["patch.submit", "patch.deferred_rollback"], &["emergency"]));
        rules.push(rule(
            "auto_recovery",
            "allow",
            &["patch.rollback", "patch.deferred_rollback", "run.status", "system.doctor"],
            &[],
        ));
        let e = Self::new(AuthorizationPolicy {
            policy_id: String::from_str("default-policy"),
            version: String::from_str("0.1"),
            default_effect: String::from_str("deny"),
            rules,
        });
        e
    }

    /// Decides `request` for `actor`; see `evaluation_is`.
    pub fn evaluate(&self, request: &CapabilityRequest, actor: &ActorContext) -> (d: PolicyDecision)
        ensures
            evaluation_is(self.policy_spec(), actor.role@, request.capability@, d),
    {
        let capability = request.capability.as_str();
        let rules = &self.policy.rules;
        let role = actor.role.as_str();
        // rules of the actor's role, deny first
        let mut known = false;
        let mut i: usize = 0;
        while i < rules.len()
            invariant
                i <= rules@.len(),
                rules@ == self.policy_spec().rules@,
                role@ == actor.role@,
                capability@ == request.capability@,
                known == exists|k: int| 0 <= k < i && #[trigger] rules@[k].role@ == role@,
                forall|k: int| 0 <= k < i && #[trigger] rules@[k].role@ == role@ && rules@[k].effect@ == "deny"@
                    ==> !spec_rule_matches(rules@[k], capability@),
            decreases rules@.len() - i,
        {
            if str_eq(rules[i].role.as_str(), role) {
                known = true;
                if str_eq(rules[i].effect.as_str(), "deny") && rule_matches_capability(&rules[i], capability) {
                    assert(role_known(rules@, role@));
                    assert(has_rule(rules@, role@, "deny"@, capability@));
                    let reason = join5("AUZ-001: role '", role, "' denied capability '", capability, "'");
                    let d = PolicyDecision::Deny { reason };
                    return d;
                }
            }
            i = i + 1;
        }
        if !known {
            return self.apply_default(capability);
        }
        assert(role_known(rules@, role@));
        assert(!has_rule(rules@, role@, "deny"@, capability@));
        let mut i: usize = 0;
        while i < rules.len()
            invariant
                i <= rules@.len(),
                rules@ == self.policy_spec().rules@,
                role@ == actor.role@,
                capability@ == request.capability@,
                role_known(rules@, role@),
                !has_rule(rules@, role@, "deny"@, capability@),
                forall|k: int| 0 <= k < i && #[trigger] rules@[k].role@ == role@ && rules@[k].effect@ == "allow"@
                    ==> !spec_rule_matches(rules@[k], capability@),
            decreases rules@.len() - i,
        {
            if str_eq(rules[i].role.as_str(), role) && str_eq(rules[i].effect.as_str(), "allow")
                && rule_matches_capability(&rules[i], capability) {
                assert(has_rule(rules@, role@, "allow"@, capability@));
                return PolicyDecision::Allow;
            }
            i = i + 1;
        }
        assert(!has_rule(rules@, role@, "allow"@, capability@));
        let mut i: usize = 0;
        while i < rules.len()
            invariant
                i <= rules@.len(),
                rules@ == self.policy_spec().rules@,
                role@ == actor.role@,
                capability@ == request.capability@,
                role_known(rules@, role@),
                !has_rule(rules@, role@, "deny"@, capability@),
                !has_rule(rules@, role@, "allow"@, capability@),
                forall|k: int| 0 <= k < i && #[trigger] rules@[k].role@ == role@ && rules@[k].effect@ == "degrade"@
                    ==> !spec_rule_matches(rules@[k], capability@),
            decreases rules@.len() - i,
        {
            if str_eq(rules[i].role.as_str(), role) && str_eq(rules[i].effect.as_str(), "degrade")
                && rule_matches_capability(&rules[i], capability) {
                assert(has_rule(rules@, role@, "degrade"@, capability@));
                let reason = join5("AUZ-002: role '", role, "' degraded for capability '", capability, "'");
                return PolicyDecision::Degrade { reason };
            }
            i = i + 1;
        }
        assert(!has_rule(rules@, role@, "degrade"@, capability@));
        self.apply_default(capability)
    }

    /// The decision of the policy's default effect for `capability`.
    pub fn apply_default(&self, capability: &str) -> (d: PolicyDecision)
        ensures
            default_decision_is(self.policy_spec().default_effect@, capability@, d),
    {
        if str_eq(self.policy.default_effect.as_str(), "allow") {
            PolicyDecision::Allow
        } else if str_eq(self.policy.default_effect.as_str(), "degrade") {
            let reason = crate::text::join3("AUZ-003: default degrade for '", capability, "'");
            PolicyDecision::Degrade { reason }
        } else {
            let reason = crate::text::join3("AUZ-001: default deny for '", capability, "'");
            PolicyDecision::Deny { reason }
        }
    }

    /// The diagnostic a decision carries: an AUZ-001 error for a denial, an AUZ-002
    /// warning for a degradation, none for an allowance.
    pub fn deny_diagnostic(decision: &PolicyDecision) -> (r: Option<Diagnostic>)
        ensures
            decision matches PolicyDecision::Allow ==> r is None,
            decision matches PolicyDecision::Deny { reason } ==> (r matches Some(d)
                && d.is_plain("AUZ-001"@, "error"@, reason@)),
            decision matches PolicyDecision::Degrade { reason } ==> (r matches Some(d)
                && d.is_plain("AUZ-002"@, "warning"@, reason@)),
    {
        match decision {
            PolicyDecision::Deny { reason } => Some(Diagnostic::error("AUZ-001", reason.as_str())),
            PolicyDecision::Degrade { reason } => Some(Diagnostic::warning("AUZ-002", reason.as_str())),
            PolicyDecision::Allow => None,
        }
    }
}

/// Under the built-in policy, human operators are allowed every capability; external
/// agents are denied exactly patch submission and deferred rollback and allowed the rest;
/// auto-recovery is allowed exactly rollback, deferred rollback, run status and the
/// doctor and denied the rest; any other role is denied everything.
pub proof fn lemma_default_policy_roles(p: AuthorizationPolicy, role: Seq<char>, capability: Seq<char>, d: PolicyDecision)
    requires
        default_policy_shape(p),
        evaluation_is(p, role, capability, d),
    ensures
        role == "human_operator"@ ==> d is Allow,
        role == "external_agent"@ ==> ((d is Deny) <==> (capability == "patch.submit"@ || capability == "patch.deferred_rollback"@)),
        role == "external_agent"@ ==> (d is Allow || d is Deny),
        role == "auto_recovery"@ ==> ((d is Allow) <==> (capability == "patch.rollback"@
            || capability == "patch.deferred_rollback"@ || capability == "run.status"@ || capability == "system.doctor"@)),
        role == "auto_recovery"@ ==> (d is Allow || d is Deny),
        (role != "human_operator"@ && role != "external_agent"@ && role != "auto_recovery"@) ==> d is Deny,
{
    reveal_strlit("human_operator");
    reveal_strlit("external_agent");
    reveal_strlit("auto_recovery");
    reveal_strlit("allow");
    reveal_strlit("deny");
    reveal_strlit("degrade");
    let rules = p.rules@;
    assert("allow"@.len() != "deny"@.len());
    assert("degrade"@.len() != "deny"@.len() && "degrade"@.len() != "allow"@.len());
    assert("human_operator"@[0] != "external_agent"@[0]);
    assert("human_operator"@[0] != "auto_recovery"@[0]);
    assert("external_agent"@.len() != "auto_recovery"@.len());
    if role == "human_operator"@ {
        assert(role_known(rules, role)) by { assert(rules[0].role@ == role); }
        assert(!has_rule(rules, role, "deny"@, capability)) by {
            if has_rule(rules, role, "deny"@, capability) {
                let i = choose|i: int| 0 <= i < rules.len() && #[trigger] rules[i].role@ == role && rules[i].effect@ == "deny"@
                    && spec_rule_matches(rules[i], capability);
                assert(i == 0 || i == 1 || i == 2 || i == 3);
            }
        }
        assert(has_rule(rules, role, "allow"@, capability)) by { assert(rules[0].role@ == role); }
    } else if role == "external_agent"@ {
        assert(role_known(rules, role)) by { assert(rules[1].role@ == role); }
        let caps2 = rules[2].capabilities@;
        if capability == "patch.submit"@ || capability == "patch.deferred_rollback"@ {
            assert(has_rule(rules, role, "deny"@, capability)) by {
                if capability == "patch.submit"@ {
                    assert(rules[2].capabilities@[0]@ == capability);
                } else {
                    assert(rules[2].capabilities@[1]@ == capability);
                }
            }
        } else {
            assert(!has_rule(rules, role, "deny"@, capability)) by {
                if has_rule(rules, role, "deny"@, capability) {
                    let i = choose|i: int| 0 <= i < rules.len() && #[trigger] rules[i].role@ == role && rules[i].effect@ == "deny"@
                        && spec_rule_matches(rules[i], capability);
                    assert(i == 2);
                    let k = choose|k: int| 0 <= k < rules[2].capabilities@.len() && #[trigger] rules[2].capabilities@[k]@ == capability;
                    assert(k == 0 || k == 1);
                }
            }
            assert(has_rule(rules, role, "allow"@, capability)) by { assert(rules[1].role@ == role); }
        }
    } else if role == "auto_recovery"@ {
        assert(role_known(rules, role)) by { assert(rules[3].role@ == role); }
        let caps3 = rules[3].capabilities@;
        assert(!has_rule(rules, role, "deny"@, capability)) by {
            if has_rule(rules, role, "deny"@, capability) {
                let i = choose|i: int| 0 <= i < rules.len() && #[trigger] rules[i].role@ == role && rules[i].effect@ == "deny"@
                    && spec_rule_matches(rules[i], capability);
                assert(i == 0 || i == 1 || i == 2 || i == 3);
            }
        }
        assert(!has_rule(rules, role, "degrade"@, capability)) by {
            if has_rule(rules, role, "degrade"@, capability) {
                let i = choose|i: int| 0 <= i < rules.len() && #[trigger] rules[i].role@ == role && rules[i].effect@ == "degrade"@
                    && spec_rule_matches(rules[i], capability);
                assert(i == 0 || i == 1 || i == 2 || i == 3);
            }
        }
        if capability == "patch.rollback"@ || capability == "patch.deferred_rollback"@ || capability == "run.status"@ || capability == "system.doctor"@ {
            assert(has_rule(rules, role, "allow"@, capability)) by {
                if capability == "patch.rollback"@ {
                    assert(caps3[0]@ == capability);
                } else if capability == "patch.deferred_rollback"@ {
                    assert(caps3[1]@ == capability);
                } else if capability == "run.status"@ {
                    assert(caps3[2]@ == capability);
                } else {
                    assert(caps3[3]@ == capability);
                }
            }
        } else {
            assert(!has_rule(rules, role, "allow"@, capability)) by {
                if has_rule(rules, role, "allow"@, capability) {
                    let i = choose|i: int| 0 <= i < rules.len() && #[trigger] rules[i].role@ == role && rules[i].effect@ == "allow"@
                        && spec_rule_matches(rules[i], capability);
                    assert(i == 3);
                    let k = choose|k: int| 0 <= k < caps3.len() && #[trigger] caps3[k]@ == capability;
                    assert(k == 0 || k == 1 || k == 2 || k == 3);
                }
            }
        }
    } else {
        assert(!role_known(rules, role)) by {
            if role_known(rules, role) {
                let i = choose|i: int| 0 <= i < rules.len() && #[trigger] rules[i].role@ == role;
                assert(i == 0 || i == 1 || i == 2 || i == 3);
            }
        }
    }
}

} // verus!
