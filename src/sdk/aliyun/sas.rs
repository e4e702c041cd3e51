//! # Aliyun SAS
//!
//! Firewall rules of a Simple Application Server instance. The API has no
//! in-place update: changed rules are deleted and created again.
use vstd::prelude::*;

use crate::sdk::aliyun::util::{param_views, request_builder, signed_as, BasicRequest, MachineType, Secret};
use crate::sdk::request::{RequestError, SignedRequest};
use crate::util::{contains_name, names_contain, str_eq};

verus! {

/// A Simple Application Server instance.
#[derive(Debug)]
pub struct Instance {
    pub id: String,
    pub region: String,
}

/// A firewall rule of an instance; `remark` names it.
#[derive(Debug)]
pub struct FirewallRule {
    pub remark: String,
    pub port: String,
    pub rule_id: String,
    pub rule_protocol: String,
    pub policy: String,
    pub source_cidr_ip: String,
}

/// A firewall rule as plain text values.
pub struct FirewallRuleView {
    pub remark: Seq<char>,
    pub port: Seq<char>,
    pub rule_id: Seq<char>,
    pub rule_protocol: Seq<char>,
    pub policy: Seq<char>,
    pub source_cidr_ip: Seq<char>,
}

impl View for FirewallRule {
    type V = FirewallRuleView;

    open spec fn view(&self) -> FirewallRuleView {
        FirewallRuleView {
            remark: self.remark@,
            port: self.port@,
            rule_id: self.rule_id@,
            rule_protocol: self.rule_protocol@,
            policy: self.policy@,
            source_cidr_ip: self.source_cidr_ip@,
        }
    }
}

impl Clone for FirewallRule {
    fn clone(&self) -> (r: Self)
        ensures
            r == *self,
    {
        FirewallRule {
            remark: self.remark.clone(),
            port: self.port.clone(),
            rule_id: self.rule_id.clone(),
            rule_protocol: self.rule_protocol.clone(),
            policy: self.policy.clone(),
            source_cidr_ip: self.source_cidr_ip.clone(),
        }
    }
}

/// The rule list returned by `ListFirewallRules`.
#[derive(Debug)]
pub struct ListFirewallRulesResponse {
    pub total_count: i32,
    pub page_size: i32,
    pub page_number: i32,
    pub firewall_rules: Vec<FirewallRule>,
}

/// The identifiers returned by `CreateFirewallRules`.
#[derive(Debug)]
pub struct CreateFirewallRulesResponse {
    pub firewall_rule_ids: Vec<String>,
}

/// The views of a list of rules.
pub open spec fn rule_views(rules: Seq<FirewallRule>) -> Seq<FirewallRuleView> {
    rules.map_values(|r: FirewallRule| r@)
}

/// A rule must change when it is managed, an address is given, and its
/// source differs from that address.
pub open spec fn needs_update(r: FirewallRuleView, ip: Seq<char>, names: Seq<String>) -> bool {
    names_contain(names, r.remark) && ip.len() > 0 && r.source_cidr_ip != ip
}

/// The rules that must change, in their order, each with its source set to
/// `ip`.
pub open spec fn rules_to_update(
    rules: Seq<FirewallRuleView>,
    ip: Seq<char>,
    names: Seq<String>,
) -> Seq<FirewallRuleView>
    decreases rules.len(),
{
    if rules.len() == 0 {
        seq![]
    } else {
        let before = rules_to_update(rules.drop_last(), ip, names);
        let r = rules.last();
        if needs_update(r, ip, names) {
            before.push(FirewallRuleView { source_cidr_ip: ip, ..r })
        } else {
            before
        }
    }
}

/// ### Compare rules
///
/// Returns the managed rules (those whose remark is in
/// `matched_descriptions`) whose source differs from `current_ip`, with the
/// source replaced, and whether there is any. An empty `current_ip` changes
/// nothing.
pub fn compare_rules(
    firewall_rules: &[FirewallRule],
    current_ip: &str,
    matched_descriptions: &[String],
) -> (r: (Vec<FirewallRule>, bool))
    ensures
        rule_views(r.0@) == rules_to_update(
            rule_views(firewall_rules@),
            current_ip@,
            matched_descriptions@,
        ),
        r.1 == (r.0@.len() > 0),
{
    let mut require_update = false;
    let mut modified: Vec<FirewallRule> = Vec::new();
    let ghost all = rule_views(firewall_rules@);
    let mut i: usize = 0;
    while i < firewall_rules.len()
        invariant
            0 <= i <= firewall_rules@.len(),
            all == rule_views(firewall_rules@),
            rule_views(modified@) == rules_to_update(
                all.take(i as int),
                current_ip@,
                matched_descriptions@,
            ),
            require_update == (modified@.len() > 0),
        decreases firewall_rules@.len() - i,
    {
        let rule = &firewall_rules[i];
        assert(all.take(i + 1).drop_last() =~= all.take(i as int));
        assert(all.take(i + 1).last() == rule@);
        if contains_name(matched_descriptions, rule.remark.as_str()) && !current_ip.is_empty()
            && !str_eq(rule.source_cidr_ip.as_str(), current_ip) {
            let ghost before = modified@;
            let mut changed = rule.clone();
            changed.source_cidr_ip = current_ip.to_owned();
            modified.push(changed);
            require_update = true;
            assert(rule_views(modified@) =~= rule_views(before).push(changed@));
        }
        i = i + 1;
    }
    assert(all.take(firewall_rules@.len() as int) =~= all);
    (modified, require_update)
}

} // verus!

verus! {

/// `x` is one of the rules, needing update, after its update.
pub open spec fn updated_from(
    x: FirewallRuleView,
    rules: Seq<FirewallRuleView>,
    ip: Seq<char>,
    names: Seq<String>,
) -> bool {
    exists|i: int|
        0 <= i < rules.len() && needs_update(rules[i], ip, names) && x == FirewallRuleView {
            source_cidr_ip: ip,
            ..#[trigger] rules[i]
        }
}

proof fn lemma_updates_from(rules: Seq<FirewallRuleView>, ip: Seq<char>, names: Seq<String>)
    ensures
        forall|j: int|
            0 <= j < rules_to_update(rules, ip, names).len() ==> updated_from(
                #[trigger] rules_to_update(rules, ip, names)[j],
                rules,
                ip,
                names,
            ),
    decreases rules.len(),
{
    if rules.len() > 0 {
        let d = rules.drop_last();
        lemma_updates_from(d, ip, names);
        let out = rules_to_update(rules, ip, names);
        let before = rules_to_update(d, ip, names);
        assert forall|j: int| 0 <= j < out.len() implies updated_from(
            #[trigger] out[j],
            rules,
            ip,
            names,
        ) by {
            if j < before.len() {
                assert(out[j] == before[j]);
                assert(updated_from(before[j], d, ip, names));
                let i = choose|i: int|
                    0 <= i < d.len() && needs_update(d[i], ip, names) && before[j] == FirewallRuleView {
                        source_cidr_ip: ip,
                        ..#[trigger] d[i]
                    };
                assert(rules[i] == d[i]);
            } else {
                assert(needs_update(rules.last(), ip, names));
                assert(out[j] == FirewallRuleView { source_cidr_ip: ip, ..rules[rules.len() - 1] });
            }
        }
    }
}

proof fn lemma_no_updates(rules: Seq<FirewallRuleView>, ip: Seq<char>, names: Seq<String>)
    requires
        forall|i: int| 0 <= i < rules.len() ==> !needs_update(#[trigger] rules[i], ip, names),
    ensures
        rules_to_update(rules, ip, names).len() == 0,
    decreases rules.len(),
{
    if rules.len() > 0 {
        let d = rules.drop_last();
        assert forall|i: int| 0 <= i < d.len() implies !needs_update(#[trigger] d[i], ip, names) by {
            assert(d[i] == rules[i]);
        }
        lemma_no_updates(d, ip, names);
        assert(!needs_update(rules[rules.len() - 1], ip, names));
    }
}

/// Comparing again with the same address changes nothing: the rules
/// returned by a comparison need no further update.
pub proof fn lemma_compare_rules_converges(rules: Seq<FirewallRuleView>, ip: Seq<char>, names: Seq<String>)
    ensures
        rules_to_update(rules_to_update(rules, ip, names), ip, names).len() == 0,
{
    let out = rules_to_update(rules, ip, names);
    lemma_updates_from(rules, ip, names);
    assert forall|j: int| 0 <= j < out.len() implies !needs_update(#[trigger] out[j], ip, names) by {
        assert(updated_from(out[j], rules, ip, names));
    }
    lemma_no_updates(out, ip, names);
}

/// Only managed rules are ever returned for update: each returned rule's
/// description is one of the names.
pub proof fn lemma_compare_rules_managed_only(rules: Seq<FirewallRuleView>, ip: Seq<char>, names: Seq<String>)
    ensures
        forall|j: int|
            0 <= j < rules_to_update(rules, ip, names).len() ==> names_contain(names, (#[trigger] rules_to_update(rules, ip, names)[j]).remark),
{
    lemma_updates_from(rules, ip, names);
    let out = rules_to_update(rules, ip, names);
    assert forall|j: int| 0 <= j < out.len() implies names_contain(names, (#[trigger] out[j]).remark) by {
        assert(updated_from(out[j], rules, ip, names));
    }
}

} // verus!

verus! {

// ---------------------------------------------------------------------------
// Requests
/// The parameters of `ListFirewallRules`.
pub open spec fn list_params(instance: Instance) -> Seq<(Seq<char>, Seq<char>)> {
    seq![("InstanceId"@, instance.id@), ("RegionId"@, instance.region@), ("PageSize"@, "100"@)]
}

/// ### Request ListFirewallRules
///
/// The signed request that lists the firewall rules of an instance.
pub fn list_rules_request(instance: &Instance, secret: &Secret, timestamp: i64, nonce: &str) -> (r:
    Result<SignedRequest, RequestError>)
    ensures
        signed_as(
            r,
            MachineType::Sas,
            instance.region@,
            *secret,
            "ListFirewallRules"@,
            list_params(*instance),
            ""@,
            timestamp,
            nonce@,
        ),
{
    let params = vec![
        ("InstanceId", instance.id.as_str()),
        ("RegionId", instance.region.as_str()),
        ("PageSize", "100"),
    ];
    assert(param_views(params@) =~= list_params(*instance));
    request_builder(
        BasicRequest {
            machine_type: MachineType::Sas,
            region_id: instance.region.as_str(),
            secret,
            action: "ListFirewallRules",
            params: params.as_slice(),
            body: "",
        },
        timestamp,
        nonce,
    )
}

/// The rule identifiers joined by `,`.
pub open spec fn joined_ids(rules: Seq<FirewallRuleView>) -> Seq<char>
    decreases rules.len(),
{
    if rules.len() == 0 {
        seq![]
    } else if rules.len() == 1 {
        rules[0].rule_id
    } else {
        joined_ids(rules.drop_last()) + ","@ + rules.last().rule_id
    }
}

/// The parameters of `DeleteFirewallRules` for some rules.
pub open spec fn delete_params(instance: Instance, rules: Seq<FirewallRuleView>) -> Seq<
    (Seq<char>, Seq<char>),
> {
    seq![
        ("InstanceId"@, instance.id@),
        ("RegionId"@, instance.region@),
        ("RuleIds"@, joined_ids(rules)),
    ]
}

/// Some rule has an empty identifier.
pub open spec fn some_id_missing(rules: Seq<FirewallRuleView>) -> bool {
    exists|i: int| 0 <= i < rules.len() && (#[trigger] rules[i]).rule_id.len() == 0
}

/// ### Request DeleteFirewallRules
///
/// The signed request that deletes the given rules, by their identifiers.
/// A rule without an identifier is never targeted: the request is refused.
pub fn delete_rules_request(
    instance: &Instance,
    secret: &Secret,
    firewall_rules: &[FirewallRule],
    timestamp: i64,
    nonce: &str,
) -> (r: Result<SignedRequest, RequestError>)
    ensures
        some_id_missing(rule_views(firewall_rules@)) ==> r == Err::<SignedRequest, RequestError>(
            RequestError::MissingRuleId,
        ),
        !some_id_missing(rule_views(firewall_rules@)) ==> signed_as(
            r,
            MachineType::Sas,
            instance.region@,
            *secret,
            "DeleteFirewallRules"@,
            delete_params(*instance, rule_views(firewall_rules@)),
            ""@,
            timestamp,
            nonce@,
        ),
{
    let ghost all = rule_views(firewall_rules@);
    let mut t: usize = 0;
    while t < firewall_rules.len()
        invariant
            0 <= t <= firewall_rules@.len(),
            all == rule_views(firewall_rules@),
            forall|j: int| 0 <= j < t ==> (#[trigger] all[j]).rule_id.len() > 0,
        decreases firewall_rules@.len() - t,
    {
        if firewall_rules[t].rule_id.as_str().is_empty() {
            assert(all[t as int].rule_id.len() == 0);
            return Err(RequestError::MissingRuleId);
        }
        t = t + 1;
    }
    let mut rule_ids = String::new();
    let mut i: usize = 0;
    while i < firewall_rules.len()
        invariant
            0 <= i <= firewall_rules@.len(),
            all == rule_views(firewall_rules@),
            rule_ids@ == joined_ids(all.take(i as int)),
        decreases firewall_rules@.len() - i,
    {
        if i > 0 {
            rule_ids.append(",");
        }
        rule_ids.append(firewall_rules[i].rule_id.as_str());
        assert(all.take(i + 1).drop_last() =~= all.take(i as int));
        if i == 0 {
            assert(joined_ids(all.take(1)) == all.take(1)[0].rule_id);
            assert(rule_ids@ =~= joined_ids(all.take(1)));
        } else {
            assert(rule_ids@ =~= joined_ids(all.take(i + 1)));
        }
        i = i + 1;
    }
    assert(all.take(firewall_rules@.len() as int) =~= all);
    let params = vec![
        ("InstanceId", instance.id.as_str()),
        ("RegionId", instance.region.as_str()),
        ("RuleIds", rule_ids.as_str()),
    ];
    assert(param_views(params@) =~= delete_params(*instance, all));
    request_builder(
        BasicRequest {
            machine_type: MachineType::Sas,
            region_id: instance.region.as_str(),
            secret,
            action: "DeleteFirewallRules",
            params: params.as_slice(),
            body: "",
        },
        timestamp,
        nonce,
    )
}

/// The parameters of `CreateFirewallRules`, the rules given as JSON text.
pub open spec fn create_params(instance: Instance, rules_json: Seq<char>) -> Seq<
    (Seq<char>, Seq<char>),
> {
    seq![
        ("InstanceId"@, instance.id@),
        ("RegionId"@, instance.region@),
        ("FirewallRules"@, rules_json),
    ]
}

/// ### Request CreateFirewallRules
///
/// The signed request that creates rules; `rules_json` is the JSON array of
/// the rules to create.
pub fn create_rules_request(
    instance: &Instance,
    secret: &Secret,
    rules_json: &str,
    timestamp: i64,
    nonce: &str,
) -> (r: Result<SignedRequest, RequestError>)
    ensures
        signed_as(
            r,
            MachineType::Sas,
            instance.region@,
            *secret,
            "CreateFirewallRules"@,
            create_params(*instance, rules_json@),
            ""@,
            timestamp,
            nonce@,
        ),
{
    let params = vec![
        ("InstanceId", instance.id.as_str()),
        ("RegionId", instance.region.as_str()),
        ("FirewallRules", rules_json),
    ];
    assert(param_views(params@) =~= create_params(*instance, rules_json@));
    request_builder(
        BasicRequest {
            machine_type: MachineType::Sas,
            region_id: instance.region.as_str(),
            secret,
            action: "CreateFirewallRules",
            params: params.as_slice(),
            body: "",
        },
        timestamp,
        nonce,
    )
}

} // verus!
