//! # Qcloud Lighthouse
//!
//! Firewall rules of a Lighthouse instance. The API takes the whole rule
//! list back at once.
use vstd::prelude::*;

use crate::sdk::qcloud::util::{request_builder, signed_as, BasicRequest, MachineType, Secret};
use crate::sdk::request::{RequestError, SignedRequest};
use crate::util::{name_set, name_set_contents, NameSet, str_eq};

verus! {

/// Lighthouse instance
#[derive(Debug)]
pub struct Instance {
    pub id: String,
    pub region: String,
}

/// A firewall rule of an instance; `firewall_rule_description` names it.
#[derive(Debug)]
pub struct FirewallRuleInfo {
    pub app_type: Option<String>,
    pub protocol: String,
    pub port: String,
    pub cidr_block: String,
    pub action: String,
    pub firewall_rule_description: String,
}

/// A firewall rule as plain text values.
pub struct FirewallRuleInfoView {
    pub app_type: Option<Seq<char>>,
    pub protocol: Seq<char>,
    pub port: Seq<char>,
    pub cidr_block: Seq<char>,
    pub action: Seq<char>,
    pub firewall_rule_description: Seq<char>,
}

impl View for FirewallRuleInfo {
    type V = FirewallRuleInfoView;

    open spec fn view(&self) -> FirewallRuleInfoView {
        FirewallRuleInfoView {
            app_type: match self.app_type {
                Some(a) => Some(a@),
                None => None,
            },
            protocol: self.protocol@,
            port: self.port@,
            cidr_block: self.cidr_block@,
            action: self.action@,
            firewall_rule_description: self.firewall_rule_description@,
        }
    }
}

impl Clone for FirewallRuleInfo {
    fn clone(&self) -> (r: Self)
        ensures
            r == *self,
    {
        FirewallRuleInfo {
            app_type: match &self.app_type {
                Some(a) => Some(a.clone()),
                None => None,
            },
            protocol: self.protocol.clone(),
            port: self.port.clone(),
            cidr_block: self.cidr_block.clone(),
            action: self.action.clone(),
            firewall_rule_description: self.firewall_rule_description.clone(),
        }
    }
}

/// The answer of `DescribeFirewallRules`.
#[derive(Debug)]
pub struct DescribeFirewallRulesResponse {
    pub firewall_rule_set: Vec<FirewallRuleInfo>,
    pub firewall_version: i32,
    pub total_count: i32,
}

/// The views of a list of rules.
pub open spec fn rule_views(rules: Seq<FirewallRuleInfo>) -> Seq<FirewallRuleInfoView> {
    rules.map_values(|r: FirewallRuleInfo| r@)
}

/// A rule must change when it is managed, an address is given, and its
/// block differs from that address.
pub open spec fn needs_update(r: FirewallRuleInfoView, ip: Seq<char>, names: Set<Seq<char>>) -> bool {
    names.contains(r.firewall_rule_description) && ip.len() > 0 && r.cidr_block != ip
}

/// What one rule becomes.
pub open spec fn updated_rule(
    r: FirewallRuleInfoView,
    ip: Seq<char>,
    names: Set<Seq<char>>,
) -> FirewallRuleInfoView {
    if needs_update(r, ip, names) {
        FirewallRuleInfoView { cidr_block: ip, ..r }
    } else {
        r
    }
}

/// The rules after the comparison, in their order.
pub open spec fn updated_rules(
    rules: Seq<FirewallRuleInfoView>,
    ip: Seq<char>,
    names: Set<Seq<char>>,
) -> Seq<FirewallRuleInfoView> {
    rules.map_values(|r: FirewallRuleInfoView| updated_rule(r, ip, names))
}

/// Whether any of the rules must change.
pub open spec fn any_needs_update(
    rules: Seq<FirewallRuleInfoView>,
    ip: Seq<char>,
    names: Set<Seq<char>>,
) -> bool {
    exists|i: int| 0 <= i < rules.len() && needs_update(#[trigger] rules[i], ip, names)
}

/// ### Compare rules
///
/// Returns every rule, each managed one (its description is in
/// `matched_descriptions`) with its block set to `current_ip`, and whether
/// any changed. An empty `current_ip` changes nothing.
pub fn compare_rules(
    firewall_rules: &[FirewallRuleInfo],
    current_ip: &str,
    matched_descriptions: &[String],
) -> (r: (Vec<FirewallRuleInfo>, bool))
    ensures
        rule_views(r.0@) == updated_rules(
            rule_views(firewall_rules@),
            current_ip@,
            name_set(matched_descriptions@),
        ),
        r.1 == any_needs_update(
            rule_views(firewall_rules@),
            current_ip@,
            name_set(matched_descriptions@),
        ),
{
    let matched_set = NameSet::from_names(matched_descriptions);
    let ghost names = name_set(matched_descriptions@);
    let ghost all = rule_views(firewall_rules@);
    let mut require_update = false;
    let mut modified_rules: Vec<FirewallRuleInfo> = Vec::new();
    let mut i: usize = 0;
    while i < firewall_rules.len()
        invariant
            0 <= i <= firewall_rules@.len(),
            all == rule_views(firewall_rules@),
            name_set_contents(matched_set) == names,
            rule_views(modified_rules@) == updated_rules(all.take(i as int), current_ip@, names),
            require_update == exists|j: int|
                0 <= j < i && needs_update(#[trigger] all[j], current_ip@, names),
        decreases firewall_rules@.len() - i,
    {
        let ghost before = modified_rules@;
        let mut rule = firewall_rules[i].clone();
        assert(rule@ == all[i as int]);
        if matched_set.contains(rule.firewall_rule_description.as_str()) && !current_ip.is_empty()
            && !str_eq(rule.cidr_block.as_str(), current_ip) {
            rule.cidr_block = current_ip.to_owned();
            require_update = true;
        }
        let ghost rv = rule@;
        assert(rv == updated_rule(all[i as int], current_ip@, names));
        modified_rules.push(rule);
        assert(rule_views(modified_rules@) =~= rule_views(before).push(rv));
        assert(updated_rules(all.take(i + 1), current_ip@, names) =~= updated_rules(
            all.take(i as int),
            current_ip@,
            names,
        ).push(rv));
        i = i + 1;
    }
    assert(all.take(firewall_rules@.len() as int) =~= all);
    (modified_rules, require_update)
}

} // verus!

verus! {

/// Comparing again with the same address changes nothing: no rule of the
/// returned list needs a further update.
pub proof fn lemma_compare_rules_converges(
    rules: Seq<FirewallRuleInfoView>,
    ip: Seq<char>,
    names: Set<Seq<char>>,
)
    ensures
        !any_needs_update(updated_rules(rules, ip, names), ip, names),
{
    let out = updated_rules(rules, ip, names);
    assert forall|i: int| 0 <= i < out.len() implies !needs_update(#[trigger] out[i], ip, names) by {
        assert(out[i] == updated_rule(rules[i], ip, names));
    }
}

/// A rule whose description is not one of the names is returned as it was.
pub proof fn lemma_compare_rules_managed_only(
    rules: Seq<FirewallRuleInfoView>,
    ip: Seq<char>,
    names: Set<Seq<char>>,
)
    ensures
        forall|i: int|
            0 <= i < rules.len() && !names.contains(rules[i].firewall_rule_description) ==> (
            #[trigger] updated_rules(rules, ip, names)[i]) == rules[i],
{
}

} // verus!

verus! {

// ---------------------------------------------------------------------------
// Requests
/// ### Request DescribeFirewallRules
///
/// The signed request that lists the firewall rules of an instance;
/// `payload` is the JSON of its instance id, offset 0 and limit 100.
pub fn list_rules_request(instance: &Instance, secret: &Secret, payload: String, timestamp: u64) -> (r: Result<
    SignedRequest,
    RequestError,
>)
    ensures
        signed_as(r, MachineType::Lighthouse, *secret, "DescribeFirewallRules"@, payload@, instance.region@, timestamp),
{
    request_builder(
        BasicRequest {
            machine_type: MachineType::Lighthouse,
            action: "DescribeFirewallRules",
            payload,
            region: instance.region.clone(),
            secret,
        },
        timestamp,
    )
}

/// The rules as `ModifyFirewallRules` takes them: the same rules without
/// their application type, which the API does not accept back.
pub fn rules_for_modify(firewall_rules: &[FirewallRuleInfo]) -> (r: Vec<FirewallRuleInfo>)
    ensures
        r@.len() == firewall_rules@.len(),
        forall|i: int|
            0 <= i < r@.len() ==> (#[trigger] r@[i])@ == (FirewallRuleInfoView {
                app_type: None,
                ..firewall_rules@[i]@
            }),
{
    let mut r: Vec<FirewallRuleInfo> = Vec::new();
    let mut i: usize = 0;
    while i < firewall_rules.len()
        invariant
            0 <= i <= firewall_rules@.len(),
            r@.len() == i,
            forall|j: int|
                0 <= j < i ==> (#[trigger] r@[j])@ == (FirewallRuleInfoView {
                    app_type: None,
                    ..firewall_rules@[j]@
                }),
        decreases firewall_rules@.len() - i,
    {
        let mut rule = firewall_rules[i].clone();
        rule.app_type = None;
        r.push(rule);
        i = i + 1;
    }
    r
}

/// ### Request ModifyFirewallRules
///
/// The signed request that replaces the firewall rules of an instance;
/// `payload` is the JSON of its instance id and the rules from
/// [`rules_for_modify`].
pub fn modify_rules_request(instance: &Instance, secret: &Secret, payload: String, timestamp: u64) -> (r: Result<
    SignedRequest,
    RequestError,
>)
    ensures
        signed_as(r, MachineType::Lighthouse, *secret, "ModifyFirewallRules"@, payload@, instance.region@, timestamp),
{
    request_builder(
        BasicRequest {
            machine_type: MachineType::Lighthouse,
            action: "ModifyFirewallRules",
            payload,
            region: instance.region.clone(),
            secret,
        },
        timestamp,
    )
}

} // verus!
