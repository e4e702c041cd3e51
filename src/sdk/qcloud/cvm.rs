//! # Qcloud CVM
//!
//! Ingress policies of a Cloud Virtual Machine security group. The API
//! replaces the whole ingress policy set at once.
use vstd::prelude::*;

use crate::sdk::qcloud::util::{request_builder, signed_as, BasicRequest, MachineType, Secret};
use crate::sdk::request::{RequestError, SignedRequest};
use crate::util::{name_set, name_set_contents, NameSet, str_eq};

verus! {

/// A security group, by identifier and region.
#[derive(Debug)]
pub struct SecurityGroup {
    pub id: String,
    pub region: String,
}

/// The policies of a security group.
#[derive(Debug)]
pub struct SecurityGroupPolicySet {
    pub version: String,
    pub egress: Vec<SecurityGroupPolicy>,
    pub ingress: Vec<SecurityGroupPolicy>,
}

impl Clone for SecurityGroupPolicySet {
    fn clone(&self) -> (r: Self)
        ensures
            r.version == self.version,
            r.egress@ == self.egress@,
            r.ingress@ == self.ingress@,
    {
        SecurityGroupPolicySet {
            version: self.version.clone(),
            egress: clone_policies(&self.egress),
            ingress: clone_policies(&self.ingress),
        }
    }
}

/// A policy of a security group; `policy_description` names it. An empty
/// text field is a field the provider left out.
#[derive(Debug)]
pub struct SecurityGroupPolicy {
    pub policy_index: i32,
    pub protocol: String,
    pub port: String,
    pub service_template: ServiceTemplateSpecification,
    pub cidr_block: String,
    pub ipv6_cidr_block: String,
    pub security_group_id: String,
    pub address_template: AddressTemplateSpecification,
    pub action: String,
    pub policy_description: String,
    pub modify_time: String,
}

/// A policy as plain values.
pub struct SecurityGroupPolicyView {
    pub policy_index: i32,
    pub protocol: Seq<char>,
    pub port: Seq<char>,
    pub service_template: ServiceTemplateSpecificationView,
    pub cidr_block: Seq<char>,
    pub ipv6_cidr_block: Seq<char>,
    pub security_group_id: Seq<char>,
    pub address_template: AddressTemplateSpecificationView,
    pub action: Seq<char>,
    pub policy_description: Seq<char>,
    pub modify_time: Seq<char>,
}

impl View for SecurityGroupPolicy {
    type V = SecurityGroupPolicyView;

    open spec fn view(&self) -> SecurityGroupPolicyView {
        SecurityGroupPolicyView {
            policy_index: self.policy_index,
            protocol: self.protocol@,
            port: self.port@,
            service_template: self.service_template@,
            cidr_block: self.cidr_block@,
            ipv6_cidr_block: self.ipv6_cidr_block@,
            security_group_id: self.security_group_id@,
            address_template: self.address_template@,
            action: self.action@,
            policy_description: self.policy_description@,
            modify_time: self.modify_time@,
        }
    }
}

impl Clone for SecurityGroupPolicy {
    fn clone(&self) -> (r: Self)
        ensures
            r == *self,
    {
        SecurityGroupPolicy {
            policy_index: self.policy_index,
            protocol: self.protocol.clone(),
            port: self.port.clone(),
            service_template: self.service_template.clone(),
            cidr_block: self.cidr_block.clone(),
            ipv6_cidr_block: self.ipv6_cidr_block.clone(),
            security_group_id: self.security_group_id.clone(),
            address_template: self.address_template.clone(),
            action: self.action.clone(),
            policy_description: self.policy_description.clone(),
            modify_time: self.modify_time.clone(),
        }
    }
}

/// An address template reference.
#[derive(Debug)]
pub struct AddressTemplateSpecification {
    pub address_id: String,
    pub address_group_id: String,
}

/// An address template reference, as plain text values.
pub struct AddressTemplateSpecificationView {
    pub address_id: Seq<char>,
    pub address_group_id: Seq<char>,
}

impl View for AddressTemplateSpecification {
    type V = AddressTemplateSpecificationView;

    open spec fn view(&self) -> AddressTemplateSpecificationView {
        AddressTemplateSpecificationView { address_id: self.address_id@, address_group_id: self.address_group_id@ }
    }
}

impl Clone for AddressTemplateSpecification {
    fn clone(&self) -> (r: Self)
        ensures
            r == *self,
    {
        AddressTemplateSpecification { address_id: self.address_id.clone(), address_group_id: self.address_group_id.clone() }
    }
}

impl AddressTemplateSpecification {
    /// Whether both fields are empty.
    pub fn is_empty(&self) -> (r: bool)
        ensures
            r == (self.address_id@.len() == 0 && self.address_group_id@.len() == 0),
    {
        self.address_id.as_str().is_empty() && self.address_group_id.as_str().is_empty()
    }
}

/// A service template reference.
#[derive(Debug)]
pub struct ServiceTemplateSpecification {
    pub service_id: String,
    pub service_group_id: String,
}

/// A service template reference, as plain text values.
pub struct ServiceTemplateSpecificationView {
    pub service_id: Seq<char>,
    pub service_group_id: Seq<char>,
}

impl View for ServiceTemplateSpecification {
    type V = ServiceTemplateSpecificationView;

    open spec fn view(&self) -> ServiceTemplateSpecificationView {
        ServiceTemplateSpecificationView { service_id: self.service_id@, service_group_id: self.service_group_id@ }
    }
}

impl Clone for ServiceTemplateSpecification {
    fn clone(&self) -> (r: Self)
        ensures
            r == *self,
    {
        ServiceTemplateSpecification { service_id: self.service_id.clone(), service_group_id: self.service_group_id.clone() }
    }
}

impl ServiceTemplateSpecification {
    /// Whether both fields are empty.
    pub fn is_empty(&self) -> (r: bool)
        ensures
            r == (self.service_id@.len() == 0 && self.service_group_id@.len() == 0),
    {
        self.service_id.as_str().is_empty() && self.service_group_id.as_str().is_empty()
    }
}

/// The request of `DescribeSecurityGroupPolicies`.
#[derive(Debug)]
pub struct DescribeSecurityGroupPoliciesRequest {
    pub security_group_id: String,
}

/// The answer of `DescribeSecurityGroupPolicies`.
#[derive(Debug)]
pub struct DescribeSecurityGroupPoliciesResponse {
    pub security_group_policy_set: SecurityGroupPolicySet,
}

/// The request of `ReplaceSecurityGroupPolicies`.
#[derive(Debug)]
pub struct ReplaceSecurityGroupPoliciesRequest {
    pub security_group_id: String,
    pub security_group_policy_set: SecurityGroupPolicySet,
}

fn clone_policies(policies: &Vec<SecurityGroupPolicy>) -> (r: Vec<SecurityGroupPolicy>)
    ensures
        r@ == policies@,
{
    let mut r: Vec<SecurityGroupPolicy> = Vec::new();
    let mut i: usize = 0;
    while i < policies.len()
        invariant
            0 <= i <= policies@.len(),
            r@ == policies@.take(i as int),
        decreases policies@.len() - i,
    {
        r.push(policies[i].clone());
        assert(r@ =~= policies@.take(i + 1));
        i = i + 1;
    }
    assert(r@ =~= policies@);
    r
}

/// The views of a list of policies.
pub open spec fn policy_views(p: Seq<SecurityGroupPolicy>) -> Seq<SecurityGroupPolicyView> {
    p.map_values(|x: SecurityGroupPolicy| x@)
}

/// The IPv6 block is set, a current IPv6 address is given, and they differ.
pub open spec fn ipv6_outdated(p: SecurityGroupPolicyView, ipv6: Seq<char>) -> bool {
    p.ipv6_cidr_block.len() > 0 && ipv6.len() > 0 && p.ipv6_cidr_block != ipv6
}

/// A current IPv4 address is given and the IPv4 block differs from it.
pub open spec fn ipv4_outdated(p: SecurityGroupPolicyView, ipv4: Seq<char>) -> bool {
    ipv4.len() > 0 && p.cidr_block != ipv4
}

/// A policy must change when it is managed and one of its blocks is outdated.
pub open spec fn needs_update(
    p: SecurityGroupPolicyView,
    ipv4: Seq<char>,
    ipv6: Seq<char>,
    names: Set<Seq<char>>,
) -> bool {
    names.contains(p.policy_description) && (ipv6_outdated(p, ipv6) || ipv4_outdated(p, ipv4))
}

/// What one policy becomes: unchanged unless it must change; then the IPv6
/// block takes the current IPv6 address when it is outdated, and only
/// otherwise the IPv4 block takes the current IPv4 address.
pub open spec fn updated_policy(
    p: SecurityGroupPolicyView,
    ipv4: Seq<char>,
    ipv6: Seq<char>,
    names: Set<Seq<char>>,
) -> SecurityGroupPolicyView {
    if !needs_update(p, ipv4, ipv6, names) {
        p
    } else if ipv6_outdated(p, ipv6) {
        SecurityGroupPolicyView { ipv6_cidr_block: ipv6, ..p }
    } else {
        SecurityGroupPolicyView { cidr_block: ipv4, ..p }
    }
}

/// The ingress policies after the comparison, in their order.
pub open spec fn updated_policies(
    p: Seq<SecurityGroupPolicyView>,
    ipv4: Seq<char>,
    ipv6: Seq<char>,
    names: Set<Seq<char>>,
) -> Seq<SecurityGroupPolicyView> {
    p.map_values(|x: SecurityGroupPolicyView| updated_policy(x, ipv4, ipv6, names))
}

/// Whether any of the policies must change.
pub open spec fn any_needs_update(
    p: Seq<SecurityGroupPolicyView>,
    ipv4: Seq<char>,
    ipv6: Seq<char>,
    names: Set<Seq<char>>,
) -> bool {
    exists|i: int| 0 <= i < p.len() && needs_update(#[trigger] p[i], ipv4, ipv6, names)
}

/// ### Compare policies
///
/// Returns the policy set with every managed ingress policy (those whose
/// description is in `matched_descriptions`) brought to the current address,
/// and whether any changed. A policy whose IPv6 block is set and differs
/// from `current_ipv6` gets the new IPv6 block and keeps its IPv4 block;
/// otherwise a policy whose IPv4 block differs from `current_ipv4` gets the
/// new IPv4 block. An empty current address leaves its family as it is. Version and egress
/// policies are kept as they are.
pub fn compare_rules(
    security_group_policy_set: &SecurityGroupPolicySet,
    current_ipv4: &str,
    current_ipv6: &str,
    matched_descriptions: &[String],
) -> (r: (SecurityGroupPolicySet, bool))
    ensures
        r.0.version == security_group_policy_set.version,
        r.0.egress@ == security_group_policy_set.egress@,
        policy_views(r.0.ingress@) == updated_policies(
            policy_views(security_group_policy_set.ingress@),
            current_ipv4@,
            current_ipv6@,
            name_set(matched_descriptions@),
        ),
        r.1 == any_needs_update(
            policy_views(security_group_policy_set.ingress@),
            current_ipv4@,
            current_ipv6@,
            name_set(matched_descriptions@),
        ),
{
    let matched_set = NameSet::from_names(matched_descriptions);
    let ghost names = name_set(matched_descriptions@);
    let ghost all = policy_views(security_group_policy_set.ingress@);
    let source = &security_group_policy_set.ingress;
    let mut require_update = false;
    let mut ingress: Vec<SecurityGroupPolicy> = Vec::new();
    let mut i: usize = 0;
    while i < source.len()
        invariant
            0 <= i <= source@.len(),
            source == &security_group_policy_set.ingress,
            all == policy_views(source@),
            name_set_contents(matched_set) == names,
            policy_views(ingress@) == updated_policies(all.take(i as int), current_ipv4@, current_ipv6@, names),
            require_update == exists|j: int|
                0 <= j < i && needs_update(#[trigger] all[j], current_ipv4@, current_ipv6@, names),
        decreases source@.len() - i,
    {
        let ghost before = ingress@;
        let mut policy = source[i].clone();
        assert(policy@ == all[i as int]);
        if matched_set.contains(policy.policy_description.as_str()) {
            if !policy.ipv6_cidr_block.as_str().is_empty() && !current_ipv6.is_empty() && !str_eq(
                policy.ipv6_cidr_block.as_str(),
                current_ipv6,
            ) {
                policy.ipv6_cidr_block = current_ipv6.to_owned();
                require_update = true;
            } else if !current_ipv4.is_empty() && !str_eq(policy.cidr_block.as_str(), current_ipv4) {
                policy.cidr_block = current_ipv4.to_owned();
                require_update = true;
            }
        }
        assert(policy@ == updated_policy(all[i as int], current_ipv4@, current_ipv6@, names));
        let ghost pv = policy@;
        ingress.push(policy);
        assert(policy_views(ingress@) =~= policy_views(before).push(pv));
        assert(updated_policies(all.take(i + 1), current_ipv4@, current_ipv6@, names) =~= updated_policies(
            all.take(i as int),
            current_ipv4@,
            current_ipv6@,
            names,
        ).push(pv));
        i = i + 1;
    }
    assert(all.take(source@.len() as int) =~= all);
    (
        SecurityGroupPolicySet {
            version: security_group_policy_set.version.clone(),
            egress: clone_policies(&security_group_policy_set.egress),
            ingress,
        },
        require_update,
    )
}

} // verus!

verus! {

/// Comparing again with the same addresses changes nothing: no policy of
/// the returned set needs a further update, unless a managed policy had
/// both its IPv6 and its IPv4 block outdated (one pass updates only the
/// IPv6 one).
pub proof fn lemma_compare_rules_converges(
    p: Seq<SecurityGroupPolicyView>,
    ipv4: Seq<char>,
    ipv6: Seq<char>,
    names: Set<Seq<char>>,
)
    requires
        forall|i: int|
            0 <= i < p.len() ==> !(names.contains((#[trigger] p[i]).policy_description)
                && ipv6_outdated(p[i], ipv6) && ipv4_outdated(p[i], ipv4)),
    ensures
        !any_needs_update(updated_policies(p, ipv4, ipv6, names), ipv4, ipv6, names),
{
    let out = updated_policies(p, ipv4, ipv6, names);
    assert forall|i: int| 0 <= i < out.len() implies !needs_update(#[trigger] out[i], ipv4, ipv6, names) by {
        assert(out[i] == updated_policy(p[i], ipv4, ipv6, names));
    }
}

/// A policy whose description is not one of the names is returned as it was.
pub proof fn lemma_compare_rules_managed_only(
    p: Seq<SecurityGroupPolicyView>,
    ipv4: Seq<char>,
    ipv6: Seq<char>,
    names: Set<Seq<char>>,
)
    ensures
        forall|i: int|
            0 <= i < p.len() && !names.contains(p[i].policy_description) ==> (#[trigger] updated_policies(
                p,
                ipv4,
                ipv6,
                names,
            )[i]) == p[i],
{
}

/// A managed policy whose IPv6 and IPv4 blocks are both outdated gets only
/// its IPv6 block updated in one pass; its IPv4 block stays as it was.
pub proof fn lemma_compare_rules_one_family_per_pass(
    p: SecurityGroupPolicyView,
    ipv4: Seq<char>,
    ipv6: Seq<char>,
    names: Set<Seq<char>>,
)
    requires
        names.contains(p.policy_description),
        ipv6_outdated(p, ipv6),
        ipv4_outdated(p, ipv4),
    ensures
        updated_policy(p, ipv4, ipv6, names).ipv6_cidr_block == ipv6,
        updated_policy(p, ipv4, ipv6, names).cidr_block == p.cidr_block,
        updated_policy(p, ipv4, ipv6, names).cidr_block != ipv4,
{
}

} // verus!

verus! {

// ---------------------------------------------------------------------------
// Requests
/// ### Request DescribeSecurityGroupPolicies
///
/// The signed request that lists the policies of a security group;
/// `payload` is the JSON of its [`DescribeSecurityGroupPoliciesRequest`].
pub fn list_rules_request(security_group: &SecurityGroup, secret: &Secret, payload: String, timestamp: u64) -> (r: Result<
    SignedRequest,
    RequestError,
>)
    ensures
        signed_as(r, MachineType::Cvm, *secret, "DescribeSecurityGroupPolicies"@, payload@, security_group.region@, timestamp),
{
    request_builder(
        BasicRequest {
            machine_type: MachineType::Cvm,
            action: "DescribeSecurityGroupPolicies",
            payload,
            region: security_group.region.clone(),
            secret,
        },
        timestamp,
    )
}

/// The policy set sent to `ReplaceSecurityGroupPolicies`: the API replaces
/// the policies of each direction it is given, so the egress policies are
/// left out and only the ingress policies are replaced.
pub fn replacement_policy_set(security_group_policy_set: &SecurityGroupPolicySet) -> (r:
    SecurityGroupPolicySet)
    ensures
        r.version == security_group_policy_set.version,
        r.egress@.len() == 0,
        r.ingress@ == security_group_policy_set.ingress@,
{
    SecurityGroupPolicySet {
        version: security_group_policy_set.version.clone(),
        egress: Vec::new(),
        ingress: clone_policies(&security_group_policy_set.ingress),
    }
}

/// ### Request ReplaceSecurityGroupPolicies
///
/// The signed request that replaces the ingress policies of a security group;
/// `payload` is the JSON of its [`ReplaceSecurityGroupPoliciesRequest`], whose
/// set comes from [`replacement_policy_set`].
pub fn modify_rules_request(security_group: &SecurityGroup, secret: &Secret, payload: String, timestamp: u64) -> (r: Result<
    SignedRequest,
    RequestError,
>)
    ensures
        signed_as(r, MachineType::Cvm, *secret, "ReplaceSecurityGroupPolicies"@, payload@, security_group.region@, timestamp),
{
    request_builder(
        BasicRequest {
            machine_type: MachineType::Cvm,
            action: "ReplaceSecurityGroupPolicies",
            payload,
            region: security_group.region.clone(),
            secret,
        },
        timestamp,
    )
}

} // verus!
