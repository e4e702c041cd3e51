//! # Aliyun ECS
//!
//! Ingress rules of an Elastic Compute Service security group. The API has
//! no in-place update: changed rules are revoked and authorized again.
use vstd::prelude::*;

use crate::sdk::aliyun::util::{param_views, request_builder, signed_as, BasicRequest, MachineType, Secret};
use crate::sdk::request::{RequestError, SignedRequest};
use crate::util::{contains_name, decimal, names_contain, pair_views, str_eq, to_decimal};

verus! {

/// A security group, by identifier and region.
#[derive(Debug)]
pub struct SecurityGroup {
    pub id: String,
    pub region: String,
}

/// A rule of a security group; `description` names it. An empty text field
/// is a field the provider left out.
#[derive(Debug)]
pub struct SecurityGroupRule {
    pub security_group_rule_id: String,
    pub direction: String,
    pub source_group_id: String,
    pub dest_group_owner_account: String,
    pub dest_prefix_list_id: String,
    pub dest_prefix_list_name: String,
    pub source_cidr_ip: String,
    pub ipv6_dest_cidr_ip: String,
    pub create_time: String,
    pub ipv6_source_cidr_ip: String,
    pub dest_group_id: String,
    pub dest_cidr_ip: String,
    pub ip_protocol: String,
    pub priority: i32,
    pub dest_group_name: String,
    pub nic_type: String,
    pub policy: String,
    pub description: String,
    pub port_range: String,
    pub source_prefix_list_name: String,
    pub source_prefix_list_id: String,
    pub source_group_owner_account: String,
    pub source_group_name: String,
    pub source_port_range: String,
}

/// A security group rule as plain values.
pub struct SecurityGroupRuleView {
    pub security_group_rule_id: Seq<char>,
    pub direction: Seq<char>,
    pub source_group_id: Seq<char>,
    pub dest_group_owner_account: Seq<char>,
    pub dest_prefix_list_id: Seq<char>,
    pub dest_prefix_list_name: Seq<char>,
    pub source_cidr_ip: Seq<char>,
    pub ipv6_dest_cidr_ip: Seq<char>,
    pub create_time: Seq<char>,
    pub ipv6_source_cidr_ip: Seq<char>,
    pub dest_group_id: Seq<char>,
    pub dest_cidr_ip: Seq<char>,
    pub ip_protocol: Seq<char>,
    pub priority: i32,
    pub dest_group_name: Seq<char>,
    pub nic_type: Seq<char>,
    pub policy: Seq<char>,
    pub description: Seq<char>,
    pub port_range: Seq<char>,
    pub source_prefix_list_name: Seq<char>,
    pub source_prefix_list_id: Seq<char>,
    pub source_group_owner_account: Seq<char>,
    pub source_group_name: Seq<char>,
    pub source_port_range: Seq<char>,
}

impl View for SecurityGroupRule {
    type V = SecurityGroupRuleView;

    open spec fn view(&self) -> SecurityGroupRuleView {
        SecurityGroupRuleView {
            security_group_rule_id: self.security_group_rule_id@,
            direction: self.direction@,
            source_group_id: self.source_group_id@,
            dest_group_owner_account: self.dest_group_owner_account@,
            dest_prefix_list_id: self.dest_prefix_list_id@,
            dest_prefix_list_name: self.dest_prefix_list_name@,
            source_cidr_ip: self.source_cidr_ip@,
            ipv6_dest_cidr_ip: self.ipv6_dest_cidr_ip@,
            create_time: self.create_time@,
            ipv6_source_cidr_ip: self.ipv6_source_cidr_ip@,
            dest_group_id: self.dest_group_id@,
            dest_cidr_ip: self.dest_cidr_ip@,
            ip_protocol: self.ip_protocol@,
            priority: self.priority,
            dest_group_name: self.dest_group_name@,
            nic_type: self.nic_type@,
            policy: self.policy@,
            description: self.description@,
            port_range: self.port_range@,
            source_prefix_list_name: self.source_prefix_list_name@,
            source_prefix_list_id: self.source_prefix_list_id@,
            source_group_owner_account: self.source_group_owner_account@,
            source_group_name: self.source_group_name@,
            source_port_range: self.source_port_range@,
        }
    }
}

impl Clone for SecurityGroupRule {
    fn clone(&self) -> (r: Self)
        ensures
            r == *self,
    {
        SecurityGroupRule {
            security_group_rule_id: self.security_group_rule_id.clone(),
            direction: self.direction.clone(),
            source_group_id: self.source_group_id.clone(),
            dest_group_owner_account: self.dest_group_owner_account.clone(),
            dest_prefix_list_id: self.dest_prefix_list_id.clone(),
            dest_prefix_list_name: self.dest_prefix_list_name.clone(),
            source_cidr_ip: self.source_cidr_ip.clone(),
            ipv6_dest_cidr_ip: self.ipv6_dest_cidr_ip.clone(),
            create_time: self.create_time.clone(),
            ipv6_source_cidr_ip: self.ipv6_source_cidr_ip.clone(),
            dest_group_id: self.dest_group_id.clone(),
            dest_cidr_ip: self.dest_cidr_ip.clone(),
            ip_protocol: self.ip_protocol.clone(),
            priority: self.priority,
            dest_group_name: self.dest_group_name.clone(),
            nic_type: self.nic_type.clone(),
            policy: self.policy.clone(),
            description: self.description.clone(),
            port_range: self.port_range.clone(),
            source_prefix_list_name: self.source_prefix_list_name.clone(),
            source_prefix_list_id: self.source_prefix_list_id.clone(),
            source_group_owner_account: self.source_group_owner_account.clone(),
            source_group_name: self.source_group_name.clone(),
            source_port_range: self.source_port_range.clone(),
        }
    }
}

/// The answer of `DescribeSecurityGroupAttribute`.
#[derive(Debug)]
pub struct DescribeSecurityGroupAttributeResponse {
    pub permissions: DescribeSecurityGroupAttributeResponsePermissions,
}

/// The rules of a security group.
#[derive(Debug)]
pub struct DescribeSecurityGroupAttributeResponsePermissions {
    pub permission: Vec<SecurityGroupRule>,
}

/// The views of a list of rules.
pub open spec fn rule_views(rules: Seq<SecurityGroupRule>) -> Seq<SecurityGroupRuleView> {
    rules.map_values(|r: SecurityGroupRule| r@)
}

/// The IPv6 source is set, a current IPv6 address is given, and they differ.
pub open spec fn ipv6_outdated(r: SecurityGroupRuleView, ipv6: Seq<char>) -> bool {
    r.ipv6_source_cidr_ip.len() > 0 && ipv6.len() > 0 && r.ipv6_source_cidr_ip != ipv6
}

/// A current IPv4 address is given and the IPv4 source differs from it.
pub open spec fn ipv4_outdated(r: SecurityGroupRuleView, ipv4: Seq<char>) -> bool {
    ipv4.len() > 0 && r.source_cidr_ip != ipv4
}

/// What one managed rule becomes: the IPv6 source is updated when it is
/// outdated, and only otherwise the IPv4 source.
pub open spec fn updated_rule(
    r: SecurityGroupRuleView,
    ipv4: Seq<char>,
    ipv6: Seq<char>,
) -> SecurityGroupRuleView {
    if ipv6_outdated(r, ipv6) {
        SecurityGroupRuleView { ipv6_source_cidr_ip: ipv6, ..r }
    } else {
        SecurityGroupRuleView { source_cidr_ip: ipv4, ..r }
    }
}

/// A rule must change when it is managed and one of its sources is outdated.
pub open spec fn needs_update(
    r: SecurityGroupRuleView,
    ipv4: Seq<char>,
    ipv6: Seq<char>,
    names: Seq<String>,
) -> bool {
    names_contain(names, r.description) && (ipv6_outdated(r, ipv6) || ipv4_outdated(r, ipv4))
}

/// The rules that must change, in their order, each as `updated_rule` makes it.
pub open spec fn rules_to_update(
    rules: Seq<SecurityGroupRuleView>,
    ipv4: Seq<char>,
    ipv6: Seq<char>,
    names: Seq<String>,
) -> Seq<SecurityGroupRuleView>
    decreases rules.len(),
{
    if rules.len() == 0 {
        seq![]
    } else {
        let before = rules_to_update(rules.drop_last(), ipv4, ipv6, names);
        let r = rules.last();
        if needs_update(r, ipv4, ipv6, names) {
            before.push(updated_rule(r, ipv4, ipv6))
        } else {
            before
        }
    }
}

/// ### Compare rules
///
/// Returns the managed rules (those whose description is in
/// `matched_descriptions`) that must change, changed, and whether there is
/// any. A rule whose IPv6 source is set and differs from `current_ipv6` gets
/// the new IPv6 source and keeps its IPv4 source; otherwise a rule whose IPv4
/// source differs from `current_ipv4` gets the new IPv4 source. An empty
/// current address leaves its family as it is.
pub fn compare_rules(
    security_group_rules: &[SecurityGroupRule],
    current_ipv4: &str,
    current_ipv6: &str,
    matched_descriptions: &[String],
) -> (r: (Vec<SecurityGroupRule>, bool))
    ensures
        rule_views(r.0@) == rules_to_update(
            rule_views(security_group_rules@),
            current_ipv4@,
            current_ipv6@,
            matched_descriptions@,
        ),
        r.1 == (r.0@.len() > 0),
{
    let mut require_update = false;
    let mut modified: Vec<SecurityGroupRule> = Vec::new();
    let ghost all = rule_views(security_group_rules@);
    let mut i: usize = 0;
    while i < security_group_rules.len()
        invariant
            0 <= i <= security_group_rules@.len(),
            all == rule_views(security_group_rules@),
            rule_views(modified@) == rules_to_update(
                all.take(i as int),
                current_ipv4@,
                current_ipv6@,
                matched_descriptions@,
            ),
            require_update == (modified@.len() > 0),
        decreases security_group_rules@.len() - i,
    {
        let rule = &security_group_rules[i];
        assert(all.take(i + 1).drop_last() =~= all.take(i as int));
        assert(all.take(i + 1).last() == rule@);
        if contains_name(matched_descriptions, rule.description.as_str()) {
            let ghost before = modified@;
            if !rule.ipv6_source_cidr_ip.as_str().is_empty() && !current_ipv6.is_empty()
                && !str_eq(rule.ipv6_source_cidr_ip.as_str(), current_ipv6) {
                let mut changed = rule.clone();
                changed.ipv6_source_cidr_ip = current_ipv6.to_owned();
                modified.push(changed);
                require_update = true;
                assert(rule_views(modified@) =~= rule_views(before).push(changed@));
            } else if !current_ipv4.is_empty() && !str_eq(rule.source_cidr_ip.as_str(), current_ipv4) {
                let mut changed = rule.clone();
                changed.source_cidr_ip = current_ipv4.to_owned();
                modified.push(changed);
                require_update = true;
                assert(rule_views(modified@) =~= rule_views(before).push(changed@));
            }
        }
        i = i + 1;
    }
    assert(all.take(security_group_rules@.len() as int) =~= all);
    (modified, require_update)
}

} // verus!

verus! {

/// `x` is one of the rules, needing update, after its update.
pub open spec fn updated_from(
    x: SecurityGroupRuleView,
    rules: Seq<SecurityGroupRuleView>,
    ipv4: Seq<char>,
    ipv6: Seq<char>,
    names: Seq<String>,
) -> bool {
    exists|i: int|
        0 <= i < rules.len() && needs_update(rules[i], ipv4, ipv6, names) && x == updated_rule(
            #[trigger] rules[i],
            ipv4,
            ipv6,
        )
}

proof fn lemma_rules_to_update_from(
    rules: Seq<SecurityGroupRuleView>,
    ipv4: Seq<char>,
    ipv6: Seq<char>,
    names: Seq<String>,
)
    ensures
        forall|j: int|
            0 <= j < rules_to_update(rules, ipv4, ipv6, names).len() ==> updated_from(
                #[trigger] rules_to_update(rules, ipv4, ipv6, names)[j],
                rules,
                ipv4,
                ipv6,
                names,
            ),
    decreases rules.len(),
{
    if rules.len() > 0 {
        let d = rules.drop_last();
        lemma_rules_to_update_from(d, ipv4, ipv6, names);
        let out = rules_to_update(rules, ipv4, ipv6, names);
        let before = rules_to_update(d, ipv4, ipv6, names);
        assert forall|j: int| 0 <= j < out.len() implies updated_from(
            #[trigger] out[j],
            rules,
            ipv4,
            ipv6,
            names,
        ) by {
            if j < before.len() {
                assert(out[j] == before[j]);
                assert(updated_from(before[j], d, ipv4, ipv6, names));
                let i = choose|i: int|
                    0 <= i < d.len() && needs_update(d[i], ipv4, ipv6, names) && before[j]
                        == updated_rule(#[trigger] d[i], ipv4, ipv6);
                assert(rules[i] == d[i]);
            } else {
                assert(needs_update(rules.last(), ipv4, ipv6, names));
                assert(out[j] == updated_rule(rules[rules.len() - 1], ipv4, ipv6));
            }
        }
    }
}

proof fn lemma_rules_to_update_none(
    rules: Seq<SecurityGroupRuleView>,
    ipv4: Seq<char>,
    ipv6: Seq<char>,
    names: Seq<String>,
)
    requires
        forall|i: int| 0 <= i < rules.len() ==> !needs_update(#[trigger] rules[i], ipv4, ipv6, names),
    ensures
        rules_to_update(rules, ipv4, ipv6, names).len() == 0,
    decreases rules.len(),
{
    if rules.len() > 0 {
        let d = rules.drop_last();
        assert forall|i: int| 0 <= i < d.len() implies !needs_update(#[trigger] d[i], ipv4, ipv6, names) by {
            assert(d[i] == rules[i]);
        }
        lemma_rules_to_update_none(d, ipv4, ipv6, names);
        assert(!needs_update(rules[rules.len() - 1], ipv4, ipv6, names));
    }
}

/// Comparing again with the same addresses changes nothing: the rules
/// returned by a comparison need no further update, unless a managed rule
/// had both its IPv6 and its IPv4 source outdated (one pass updates only
/// the IPv6 one).
pub proof fn lemma_compare_rules_converges(
    rules: Seq<SecurityGroupRuleView>,
    ipv4: Seq<char>,
    ipv6: Seq<char>,
    names: Seq<String>,
)
    requires
        forall|i: int|
            0 <= i < rules.len() ==> !(names_contain(names, (#[trigger] rules[i]).description)
                && ipv6_outdated(rules[i], ipv6) && ipv4_outdated(rules[i], ipv4)),
    ensures
        rules_to_update(rules_to_update(rules, ipv4, ipv6, names), ipv4, ipv6, names).len() == 0,
{
    let out = rules_to_update(rules, ipv4, ipv6, names);
    lemma_rules_to_update_from(rules, ipv4, ipv6, names);
    assert forall|j: int| 0 <= j < out.len() implies !needs_update(#[trigger] out[j], ipv4, ipv6, names) by {
        assert(updated_from(out[j], rules, ipv4, ipv6, names));
        let i = choose|i: int|
            0 <= i < rules.len() && needs_update(rules[i], ipv4, ipv6, names) && out[j]
                == updated_rule(#[trigger] rules[i], ipv4, ipv6);
        assert(names_contain(names, rules[i].description));
    }
    lemma_rules_to_update_none(out, ipv4, ipv6, names);
}

/// Only managed rules are ever returned for update: each returned rule's
/// description is one of the names.
pub proof fn lemma_compare_rules_managed_only(
    rules: Seq<SecurityGroupRuleView>,
    ipv4: Seq<char>,
    ipv6: Seq<char>,
    names: Seq<String>,
)
    ensures
        forall|j: int|
            0 <= j < rules_to_update(rules, ipv4, ipv6, names).len() ==> names_contain(
                names,
                (#[trigger] rules_to_update(rules, ipv4, ipv6, names)[j]).description,
            ),
{
    lemma_rules_to_update_from(rules, ipv4, ipv6, names);
    let out = rules_to_update(rules, ipv4, ipv6, names);
    assert forall|j: int| 0 <= j < out.len() implies names_contain(names, (#[trigger] out[j]).description) by {
        assert(updated_from(out[j], rules, ipv4, ipv6, names));
        let i = choose|i: int|
            0 <= i < rules.len() && needs_update(rules[i], ipv4, ipv6, names) && out[j]
                == updated_rule(#[trigger] rules[i], ipv4, ipv6);
    }
}

/// A rule whose IPv6 and IPv4 sources are both outdated gets only its IPv6
/// source updated in one pass; its IPv4 source stays as it was.
pub proof fn lemma_compare_rules_one_family_per_pass(
    r: SecurityGroupRuleView,
    ipv4: Seq<char>,
    ipv6: Seq<char>,
)
    requires
        ipv6_outdated(r, ipv6),
        ipv4_outdated(r, ipv4),
    ensures
        updated_rule(r, ipv4, ipv6).ipv6_source_cidr_ip == ipv6,
        updated_rule(r, ipv4, ipv6).source_cidr_ip == r.source_cidr_ip,
        updated_rule(r, ipv4, ipv6).source_cidr_ip != ipv4,
{
}

} // verus!

verus! {

// ---------------------------------------------------------------------------
// Requests
/// The parameters of `DescribeSecurityGroupAttribute`.
pub open spec fn list_params(g: SecurityGroup) -> Seq<(Seq<char>, Seq<char>)> {
    seq![
        ("SecurityGroupId"@, g.id@),
        ("RegionId"@, g.region@),
        ("Direction"@, "ingress"@),
        ("MaxResults"@, "1000"@),
    ]
}

/// ### Request DescribeSecurityGroupAttribute
///
/// The signed request that lists the ingress rules of a security group.
pub fn list_rules_request(
    security_group: &SecurityGroup,
    secret: &Secret,
    timestamp: i64,
    nonce: &str,
) -> (r: Result<SignedRequest, RequestError>)
    ensures
        signed_as(
            r,
            MachineType::Ecs,
            security_group.region@,
            *secret,
            "DescribeSecurityGroupAttribute"@,
            list_params(*security_group),
            ""@,
            timestamp,
            nonce@,
        ),
{
    let params = vec![
        ("SecurityGroupId", security_group.id.as_str()),
        ("RegionId", security_group.region.as_str()),
        ("Direction", "ingress"),
        ("MaxResults", "1000"),
    ];
    assert(param_views(params@) =~= list_params(*security_group));
    request_builder(
        BasicRequest {
            machine_type: MachineType::Ecs,
            region_id: security_group.region.as_str(),
            secret,
            action: "DescribeSecurityGroupAttribute",
            params: params.as_slice(),
            body: "",
        },
        timestamp,
        nonce,
    )
}

/// `SecurityGroupRuleId.n` for the n-th rule (counting from 1) and its id.
pub open spec fn rule_id_params(rules: Seq<SecurityGroupRuleView>) -> Seq<(Seq<char>, Seq<char>)>
    decreases rules.len(),
{
    if rules.len() == 0 {
        seq![]
    } else {
        rule_id_params(rules.drop_last()).push(
            (
                "SecurityGroupRuleId."@ + decimal(rules.len() as nat),
                rules.last().security_group_rule_id,
            ),
        )
    }
}

/// The parameters of `RevokeSecurityGroup` for some rules.
pub open spec fn delete_params(g: SecurityGroup, rules: Seq<SecurityGroupRuleView>) -> Seq<
    (Seq<char>, Seq<char>),
> {
    seq![("SecurityGroupId"@, g.id@), ("RegionId"@, g.region@)] + rule_id_params(rules)
}

/// Some rule has an empty identifier.
pub open spec fn some_id_missing(rules: Seq<SecurityGroupRuleView>) -> bool {
    exists|i: int| 0 <= i < rules.len() && (#[trigger] rules[i]).security_group_rule_id.len() == 0
}

/// ### Request RevokeSecurityGroup
///
/// The signed request that deletes the given rules, by their identifiers.
/// A rule without an identifier is never targeted: the request is refused.
pub fn delete_rules_request(
    security_group: &SecurityGroup,
    secret: &Secret,
    security_group_rules: &[SecurityGroupRule],
    timestamp: i64,
    nonce: &str,
) -> (r: Result<SignedRequest, RequestError>)
    ensures
        some_id_missing(rule_views(security_group_rules@)) ==> r == Err::<SignedRequest, RequestError>(
            RequestError::MissingRuleId,
        ),
        !some_id_missing(rule_views(security_group_rules@)) ==> signed_as(
            r,
            MachineType::Ecs,
            security_group.region@,
            *secret,
            "RevokeSecurityGroup"@,
            delete_params(*security_group, rule_views(security_group_rules@)),
            ""@,
            timestamp,
            nonce@,
        ),
{
    let ghost all = rule_views(security_group_rules@);
    let mut t: usize = 0;
    while t < security_group_rules.len()
        invariant
            0 <= t <= security_group_rules@.len(),
            all == rule_views(security_group_rules@),
            forall|j: int| 0 <= j < t ==> (#[trigger] all[j]).security_group_rule_id.len() > 0,
        decreases security_group_rules@.len() - t,
    {
        if security_group_rules[t].security_group_rule_id.as_str().is_empty() {
            assert(all[t as int].security_group_rule_id.len() == 0);
            return Err(RequestError::MissingRuleId);
        }
        t = t + 1;
    }
    let mut keys: Vec<String> = Vec::new();
    let mut i: usize = 0;
    while i < security_group_rules.len()
        invariant
            0 <= i <= security_group_rules@.len(),
            keys@.len() == i,
            forall|j: int|
                0 <= j < i ==> (#[trigger] keys@[j])@ == "SecurityGroupRuleId."@ + decimal(
                    (j + 1) as nat,
                ),
        decreases security_group_rules@.len() - i,
    {
        let mut key = String::from_str("SecurityGroupRuleId.");
        let n = to_decimal(i as u64 + 1);
        key.append(n.as_str());
        keys.push(key);
        i = i + 1;
    }
    let mut params: Vec<(&str, &str)> = vec![
        ("SecurityGroupId", security_group.id.as_str()),
        ("RegionId", security_group.region.as_str()),
    ];
    let ghost base = param_views(params@);
    assert(base =~= seq![("SecurityGroupId"@, security_group.id@), ("RegionId"@, security_group.region@)]);
    let mut k: usize = 0;
    while k < security_group_rules.len()
        invariant
            0 <= k <= security_group_rules@.len(),
            keys@.len() == security_group_rules@.len(),
            all == rule_views(security_group_rules@),
            forall|j: int|
                0 <= j < keys@.len() ==> (#[trigger] keys@[j])@ == "SecurityGroupRuleId."@ + decimal(
                    (j + 1) as nat,
                ),
            param_views(params@) == base + rule_id_params(all.take(k as int)),
        decreases security_group_rules@.len() - k,
    {
        let ghost before = params@;
        let ghost item = (keys@[k as int]@, all[k as int].security_group_rule_id);
        params.push((keys[k].as_str(), security_group_rules[k].security_group_rule_id.as_str()));
        assert(param_views(params@) =~= param_views(before).push(item));
        assert(all.take(k + 1).drop_last() =~= all.take(k as int));
        assert(all.take(k + 1).last() == all[k as int]);
        assert(rule_id_params(all.take(k + 1)) == rule_id_params(all.take(k as int)).push(item));
        assert(param_views(params@) =~= base + rule_id_params(all.take(k + 1)));
        k = k + 1;
    }
    assert(all.take(security_group_rules@.len() as int) =~= all);
    request_builder(
        BasicRequest {
            machine_type: MachineType::Ecs,
            region_id: security_group.region.as_str(),
            secret,
            action: "RevokeSecurityGroup",
            params: params.as_slice(),
            body: "",
        },
        timestamp,
        nonce,
    )
}

/// A member that is left out when its text is empty.
pub open spec fn text_member(name: Seq<char>, value: Seq<char>) -> Seq<(Seq<char>, Seq<char>)> {
    if value.len() == 0 {
        seq![]
    } else {
        seq![(name, value)]
    }
}

/// A signed 32-bit number in decimal.
pub open spec fn int_text(n: int) -> Seq<char> {
    if n >= 0 {
        decimal(n as nat)
    } else {
        "-"@ + decimal((-n) as nat)
    }
}

/// The members of a rule as it is sent: every non-empty text field and the
/// priority, named as the API names them.
pub open spec fn rule_members(r: SecurityGroupRuleView) -> Seq<(Seq<char>, Seq<char>)> {
    rule_members_1(r) + rule_members_2(r) + rule_members_3(r) + rule_members_4(r)
}

/// Part 1 of the members of a rule, in field order.
pub open spec fn rule_members_1(r: SecurityGroupRuleView) -> Seq<(Seq<char>, Seq<char>)> {
    text_member("SecurityGroupRuleId"@, r.security_group_rule_id)
        + text_member("Direction"@, r.direction)
        + text_member("SourceGroupId"@, r.source_group_id)
        + text_member("DestGroupOwnerAccount"@, r.dest_group_owner_account)
        + text_member("DestPrefixListId"@, r.dest_prefix_list_id)
        + text_member("DestPrefixListName"@, r.dest_prefix_list_name)
}

/// Part 2 of the members of a rule, in field order.
pub open spec fn rule_members_2(r: SecurityGroupRuleView) -> Seq<(Seq<char>, Seq<char>)> {
    text_member("SourceCidrIp"@, r.source_cidr_ip)
        + text_member("Ipv6DestCidrIp"@, r.ipv6_dest_cidr_ip)
        + text_member("CreateTime"@, r.create_time)
        + text_member("Ipv6SourceCidrIp"@, r.ipv6_source_cidr_ip)
        + text_member("DestGroupId"@, r.dest_group_id)
        + text_member("DestCidrIp"@, r.dest_cidr_ip)
}

/// Part 3 of the members of a rule, in field order.
pub open spec fn rule_members_3(r: SecurityGroupRuleView) -> Seq<(Seq<char>, Seq<char>)> {
    text_member("IpProtocol"@, r.ip_protocol)
        + seq![("Priority"@, int_text(r.priority as int))]
        + text_member("DestGroupName"@, r.dest_group_name)
        + text_member("NicType"@, r.nic_type)
        + text_member("Policy"@, r.policy)
        + text_member("Description"@, r.description)
}

/// Part 4 of the members of a rule, in field order.
pub open spec fn rule_members_4(r: SecurityGroupRuleView) -> Seq<(Seq<char>, Seq<char>)> {
    text_member("PortRange"@, r.port_range)
        + text_member("SourcePrefixListName"@, r.source_prefix_list_name)
        + text_member("SourcePrefixListId"@, r.source_prefix_list_id)
        + text_member("SourceGroupOwnerAccount"@, r.source_group_owner_account)
        + text_member("SourceGroupName"@, r.source_group_name)
        + text_member("SourcePortRange"@, r.source_port_range)
}

/// Member names put below a prefix.
pub open spec fn prefixed(prefix: Seq<char>, members: Seq<(Seq<char>, Seq<char>)>) -> Seq<
    (Seq<char>, Seq<char>),
> {
    members.map_values(|m: (Seq<char>, Seq<char>)| (prefix + m.0, m.1))
}

/// `Permissions.n.Name` for each member of the n-th rule (counting from 1).
pub open spec fn permission_params(rules: Seq<SecurityGroupRuleView>) -> Seq<(Seq<char>, Seq<char>)>
    decreases rules.len(),
{
    if rules.len() == 0 {
        seq![]
    } else {
        permission_params(rules.drop_last()) + prefixed(
            "Permissions."@ + decimal(rules.len() as nat) + "."@,
            rule_members(rules.last()),
        )
    }
}

/// The parameters of `AuthorizeSecurityGroup` for some rules.
pub open spec fn create_params(g: SecurityGroup, rules: Seq<SecurityGroupRuleView>) -> Seq<
    (Seq<char>, Seq<char>),
> {
    seq![("SecurityGroupId"@, g.id@), ("RegionId"@, g.region@)] + permission_params(rules)
}

fn push_member(out: &mut Vec<(String, String)>, prefix: &str, name: &str, value: &str)
    ensures
        pair_views(final(out)@) == pair_views(old(out)@) + prefixed(prefix@, text_member(name@, value@)),
{
    if !value.is_empty() {
        let mut key = String::from_str(prefix);
        key.append(name);
        out.push((key, value.to_owned()));
    }
    assert(pair_views(final(out)@) =~= pair_views(old(out)@) + prefixed(
        prefix@,
        text_member(name@, value@),
    ));
}

fn int_to_decimal(n: i32) -> (r: String)
    ensures
        r@ == int_text(n as int),
{
    if n >= 0 {
        to_decimal(n as u64)
    } else {
        let magnitude = (-(n as i64)) as u64;
        let mut r = String::from_str("-");
        let digits = to_decimal(magnitude);
        r.append(digits.as_str());
        r
    }
}

fn push_priority(out: &mut Vec<(String, String)>, prefix: &str, name: &str, value: i32)
    ensures
        pair_views(final(out)@) == pair_views(old(out)@) + prefixed(
            prefix@,
            seq![(name@, int_text(value as int))],
        ),
{
    let mut key = String::from_str(prefix);
    key.append(name);
    out.push((key, int_to_decimal(value)));
    assert(pair_views(final(out)@) =~= pair_views(old(out)@) + prefixed(
        prefix@,
        seq![(name@, int_text(value as int))],
    ));
}

fn push_rule_members_1(out: &mut Vec<(String, String)>, prefix: &str, rule: &SecurityGroupRule)
    ensures
        pair_views(final(out)@) == pair_views(old(out)@) + prefixed(prefix@, rule_members_1(rule@)),
{
    let ghost start = pair_views(out@);
    let ghost mut acc: Seq<(Seq<char>, Seq<char>)> = seq![];
    assert(prefixed(prefix@, acc) =~= Seq::<(Seq<char>, Seq<char>)>::empty());
    assert(pair_views(out@) =~= start + prefixed(prefix@, acc));
    push_member(out, prefix, "SecurityGroupRuleId", rule.security_group_rule_id.as_str());
    proof {
        lemma_prefixed_concat(prefix@, acc, text_member("SecurityGroupRuleId"@, rule.security_group_rule_id@));
        acc = acc + text_member("SecurityGroupRuleId"@, rule.security_group_rule_id@);
    }
    assert(pair_views(out@) =~= start + prefixed(prefix@, acc));
    push_member(out, prefix, "Direction", rule.direction.as_str());
    proof {
        lemma_prefixed_concat(prefix@, acc, text_member("Direction"@, rule.direction@));
        acc = acc + text_member("Direction"@, rule.direction@);
    }
    assert(pair_views(out@) =~= start + prefixed(prefix@, acc));
    push_member(out, prefix, "SourceGroupId", rule.source_group_id.as_str());
    proof {
        lemma_prefixed_concat(prefix@, acc, text_member("SourceGroupId"@, rule.source_group_id@));
        acc = acc + text_member("SourceGroupId"@, rule.source_group_id@);
    }
    assert(pair_views(out@) =~= start + prefixed(prefix@, acc));
    push_member(out, prefix, "DestGroupOwnerAccount", rule.dest_group_owner_account.as_str());
    proof {
        lemma_prefixed_concat(prefix@, acc, text_member("DestGroupOwnerAccount"@, rule.dest_group_owner_account@));
        acc = acc + text_member("DestGroupOwnerAccount"@, rule.dest_group_owner_account@);
    }
    assert(pair_views(out@) =~= start + prefixed(prefix@, acc));
    push_member(out, prefix, "DestPrefixListId", rule.dest_prefix_list_id.as_str());
    proof {
        lemma_prefixed_concat(prefix@, acc, text_member("DestPrefixListId"@, rule.dest_prefix_list_id@));
        acc = acc + text_member("DestPrefixListId"@, rule.dest_prefix_list_id@);
    }
    assert(pair_views(out@) =~= start + prefixed(prefix@, acc));
    push_member(out, prefix, "DestPrefixListName", rule.dest_prefix_list_name.as_str());
    proof {
        lemma_prefixed_concat(prefix@, acc, text_member("DestPrefixListName"@, rule.dest_prefix_list_name@));
        acc = acc + text_member("DestPrefixListName"@, rule.dest_prefix_list_name@);
    }
    assert(pair_views(out@) =~= start + prefixed(prefix@, acc));
    assert(acc =~= rule_members_1(rule@));
}

fn push_rule_members_2(out: &mut Vec<(String, String)>, prefix: &str, rule: &SecurityGroupRule)
    ensures
        pair_views(final(out)@) == pair_views(old(out)@) + prefixed(prefix@, rule_members_2(rule@)),
{
    let ghost start = pair_views(out@);
    let ghost mut acc: Seq<(Seq<char>, Seq<char>)> = seq![];
    assert(prefixed(prefix@, acc) =~= Seq::<(Seq<char>, Seq<char>)>::empty());
    assert(pair_views(out@) =~= start + prefixed(prefix@, acc));
    push_member(out, prefix, "SourceCidrIp", rule.source_cidr_ip.as_str());
    proof {
        lemma_prefixed_concat(prefix@, acc, text_member("SourceCidrIp"@, rule.source_cidr_ip@));
        acc = acc + text_member("SourceCidrIp"@, rule.source_cidr_ip@);
    }
    assert(pair_views(out@) =~= start + prefixed(prefix@, acc));
    push_member(out, prefix, "Ipv6DestCidrIp", rule.ipv6_dest_cidr_ip.as_str());
    proof {
        lemma_prefixed_concat(prefix@, acc, text_member("Ipv6DestCidrIp"@, rule.ipv6_dest_cidr_ip@));
        acc = acc + text_member("Ipv6DestCidrIp"@, rule.ipv6_dest_cidr_ip@);
    }
    assert(pair_views(out@) =~= start + prefixed(prefix@, acc));
    push_member(out, prefix, "CreateTime", rule.create_time.as_str());
    proof {
        lemma_prefixed_concat(prefix@, acc, text_member("CreateTime"@, rule.create_time@));
        acc = acc + text_member("CreateTime"@, rule.create_time@);
    }
    assert(pair_views(out@) =~= start + prefixed(prefix@, acc));
    push_member(out, prefix, "Ipv6SourceCidrIp", rule.ipv6_source_cidr_ip.as_str());
    proof {
        lemma_prefixed_concat(prefix@, acc, text_member("Ipv6SourceCidrIp"@, rule.ipv6_source_cidr_ip@));
        acc = acc + text_member("Ipv6SourceCidrIp"@, rule.ipv6_source_cidr_ip@);
    }
    assert(pair_views(out@) =~= start + prefixed(prefix@, acc));
    push_member(out, prefix, "DestGroupId", rule.dest_group_id.as_str());
    proof {
        lemma_prefixed_concat(prefix@, acc, text_member("DestGroupId"@, rule.dest_group_id@));
        acc = acc + text_member("DestGroupId"@, rule.dest_group_id@);
    }
    assert(pair_views(out@) =~= start + prefixed(prefix@, acc));
    push_member(out, prefix, "DestCidrIp", rule.dest_cidr_ip.as_str());
    proof {
        lemma_prefixed_concat(prefix@, acc, text_member("DestCidrIp"@, rule.dest_cidr_ip@));
        acc = acc + text_member("DestCidrIp"@, rule.dest_cidr_ip@);
    }
    assert(pair_views(out@) =~= start + prefixed(prefix@, acc));
    assert(acc =~= rule_members_2(rule@));
}

fn push_rule_members_3(out: &mut Vec<(String, String)>, prefix: &str, rule: &SecurityGroupRule)
    ensures
        pair_views(final(out)@) == pair_views(old(out)@) + prefixed(prefix@, rule_members_3(rule@)),
{
    let ghost start = pair_views(out@);
    let ghost mut acc: Seq<(Seq<char>, Seq<char>)> = seq![];
    assert(prefixed(prefix@, acc) =~= Seq::<(Seq<char>, Seq<char>)>::empty());
    assert(pair_views(out@) =~= start + prefixed(prefix@, acc));
    push_member(out, prefix, "IpProtocol", rule.ip_protocol.as_str());
    proof {
        lemma_prefixed_concat(prefix@, acc, text_member("IpProtocol"@, rule.ip_protocol@));
        acc = acc + text_member("IpProtocol"@, rule.ip_protocol@);
    }
    assert(pair_views(out@) =~= start + prefixed(prefix@, acc));
    push_priority(out, prefix, "Priority", rule.priority);
    proof {
        lemma_prefixed_concat(prefix@, acc, seq![("Priority"@, int_text(rule.priority as int))]);
        acc = acc + seq![("Priority"@, int_text(rule.priority as int))];
    }
    assert(pair_views(out@) =~= start + prefixed(prefix@, acc));
    push_member(out, prefix, "DestGroupName", rule.dest_group_name.as_str());
    proof {
        lemma_prefixed_concat(prefix@, acc, text_member("DestGroupName"@, rule.dest_group_name@));
        acc = acc + text_member("DestGroupName"@, rule.dest_group_name@);
    }
    assert(pair_views(out@) =~= start + prefixed(prefix@, acc));
    push_member(out, prefix, "NicType", rule.nic_type.as_str());
    proof {
        lemma_prefixed_concat(prefix@, acc, text_member("NicType"@, rule.nic_type@));
        acc = acc + text_member("NicType"@, rule.nic_type@);
    }
    assert(pair_views(out@) =~= start + prefixed(prefix@, acc));
    push_member(out, prefix, "Policy", rule.policy.as_str());
    proof {
        lemma_prefixed_concat(prefix@, acc, text_member("Policy"@, rule.policy@));
        acc = acc + text_member("Policy"@, rule.policy@);
    }
    assert(pair_views(out@) =~= start + prefixed(prefix@, acc));
    push_member(out, prefix, "Description", rule.description.as_str());
    proof {
        lemma_prefixed_concat(prefix@, acc, text_member("Description"@, rule.description@));
        acc = acc + text_member("Description"@, rule.description@);
    }
    assert(pair_views(out@) =~= start + prefixed(prefix@, acc));
    assert(acc =~= rule_members_3(rule@));
}

fn push_rule_members_4(out: &mut Vec<(String, String)>, prefix: &str, rule: &SecurityGroupRule)
    ensures
        pair_views(final(out)@) == pair_views(old(out)@) + prefixed(prefix@, rule_members_4(rule@)),
{
    let ghost start = pair_views(out@);
    let ghost mut acc: Seq<(Seq<char>, Seq<char>)> = seq![];
    assert(prefixed(prefix@, acc) =~= Seq::<(Seq<char>, Seq<char>)>::empty());
    assert(pair_views(out@) =~= start + prefixed(prefix@, acc));
    push_member(out, prefix, "PortRange", rule.port_range.as_str());
    proof {
        lemma_prefixed_concat(prefix@, acc, text_member("PortRange"@, rule.port_range@));
        acc = acc + text_member("PortRange"@, rule.port_range@);
    }
    assert(pair_views(out@) =~= start + prefixed(prefix@, acc));
    push_member(out, prefix, "SourcePrefixListName", rule.source_prefix_list_name.as_str());
    proof {
        lemma_prefixed_concat(prefix@, acc, text_member("SourcePrefixListName"@, rule.source_prefix_list_name@));
        acc = acc + text_member("SourcePrefixListName"@, rule.source_prefix_list_name@);
    }
    assert(pair_views(out@) =~= start + prefixed(prefix@, acc));
    push_member(out, prefix, "SourcePrefixListId", rule.source_prefix_list_id.as_str());
    proof {
        lemma_prefixed_concat(prefix@, acc, text_member("SourcePrefixListId"@, rule.source_prefix_list_id@));
        acc = acc + text_member("SourcePrefixListId"@, rule.source_prefix_list_id@);
    }
    assert(pair_views(out@) =~= start + prefixed(prefix@, acc));
    push_member(out, prefix, "SourceGroupOwnerAccount", rule.source_group_owner_account.as_str());
    proof {
        lemma_prefixed_concat(prefix@, acc, text_member("SourceGroupOwnerAccount"@, rule.source_group_owner_account@));
        acc = acc + text_member("SourceGroupOwnerAccount"@, rule.source_group_owner_account@);
    }
    assert(pair_views(out@) =~= start + prefixed(prefix@, acc));
    push_member(out, prefix, "SourceGroupName", rule.source_group_name.as_str());
    proof {
        lemma_prefixed_concat(prefix@, acc, text_member("SourceGroupName"@, rule.source_group_name@));
        acc = acc + text_member("SourceGroupName"@, rule.source_group_name@);
    }
    assert(pair_views(out@) =~= start + prefixed(prefix@, acc));
    push_member(out, prefix, "SourcePortRange", rule.source_port_range.as_str());
    proof {
        lemma_prefixed_concat(prefix@, acc, text_member("SourcePortRange"@, rule.source_port_range@));
        acc = acc + text_member("SourcePortRange"@, rule.source_port_range@);
    }
    assert(pair_views(out@) =~= start + prefixed(prefix@, acc));
    assert(acc =~= rule_members_4(rule@));
}

fn push_rule_members(out: &mut Vec<(String, String)>, prefix: &str, rule: &SecurityGroupRule)
    ensures
        pair_views(final(out)@) == pair_views(old(out)@) + prefixed(prefix@, rule_members(rule@)),
{
    let ghost start = pair_views(out@);
    push_rule_members_1(out, prefix, rule);
    push_rule_members_2(out, prefix, rule);
    push_rule_members_3(out, prefix, rule);
    push_rule_members_4(out, prefix, rule);
    proof {
        let r = rule@;
        lemma_prefixed_concat(prefix@, rule_members_1(r), rule_members_2(r));
        lemma_prefixed_concat(prefix@, rule_members_1(r) + rule_members_2(r), rule_members_3(r));
        lemma_prefixed_concat(
            prefix@,
            rule_members_1(r) + rule_members_2(r) + rule_members_3(r),
            rule_members_4(r),
        );
    }
    assert(pair_views(out@) =~= start + prefixed(prefix@, rule_members(rule@)));
}

proof fn lemma_prefixed_concat(
    prefix: Seq<char>,
    a: Seq<(Seq<char>, Seq<char>)>,
    b: Seq<(Seq<char>, Seq<char>)>,
)
    ensures
        prefixed(prefix, a + b) == prefixed(prefix, a) + prefixed(prefix, b),
{
    assert(prefixed(prefix, a + b) =~= prefixed(prefix, a) + prefixed(prefix, b));
}

/// ### Request AuthorizeSecurityGroup
///
/// The signed request that creates the given rules: the n-th rule's
/// non-empty fields and priority as `Permissions.n.Name` parameters.
pub fn create_rules_request(
    security_group: &SecurityGroup,
    secret: &Secret,
    security_group_rules: &[SecurityGroupRule],
    timestamp: i64,
    nonce: &str,
) -> (r: Result<SignedRequest, RequestError>)
    ensures
        signed_as(
            r,
            MachineType::Ecs,
            security_group.region@,
            *secret,
            "AuthorizeSecurityGroup"@,
            create_params(*security_group, rule_views(security_group_rules@)),
            ""@,
            timestamp,
            nonce@,
        ),
{
    let ghost all = rule_views(security_group_rules@);
    let mut members: Vec<(String, String)> = Vec::new();
    let mut i: usize = 0;
    while i < security_group_rules.len()
        invariant
            0 <= i <= security_group_rules@.len(),
            all == rule_views(security_group_rules@),
            pair_views(members@) == permission_params(all.take(i as int)),
        decreases security_group_rules@.len() - i,
    {
        let mut prefix = String::from_str("Permissions.");
        let n = to_decimal(i as u64 + 1);
        prefix.append(n.as_str());
        prefix.append(".");
        push_rule_members(&mut members, prefix.as_str(), &security_group_rules[i]);
        assert(all.take(i + 1).drop_last() =~= all.take(i as int));
        i = i + 1;
    }
    assert(all.take(security_group_rules@.len() as int) =~= all);
    let mut params: Vec<(&str, &str)> = vec![
        ("SecurityGroupId", security_group.id.as_str()),
        ("RegionId", security_group.region.as_str()),
    ];
    let ghost base = param_views(params@);
    assert(base =~= seq![("SecurityGroupId"@, security_group.id@), ("RegionId"@, security_group.region@)]);
    let mut k: usize = 0;
    while k < members.len()
        invariant
            0 <= k <= members@.len(),
            param_views(params@) == base + pair_views(members@).take(k as int),
        decreases members@.len() - k,
    {
        let ghost before = params@;
        params.push((members[k].0.as_str(), members[k].1.as_str()));
        assert(param_views(params@) =~= param_views(before).push(pair_views(members@)[k as int]));
        assert(param_views(params@) =~= base + pair_views(members@).take(k + 1));
        k = k + 1;
    }
    assert(pair_views(members@).take(members@.len() as int) =~= pair_views(members@));
    request_builder(
        BasicRequest {
            machine_type: MachineType::Ecs,
            region_id: security_group.region.as_str(),
            secret,
            action: "AuthorizeSecurityGroup",
            params: params.as_slice(),
            body: "",
        },
        timestamp,
        nonce,
    )
}

} // verus!
