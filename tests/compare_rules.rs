use solo_lib::sdk::aliyun::ecs::{compare_rules as ecs_compare, SecurityGroupRule};
use solo_lib::sdk::aliyun::sas::{compare_rules as sas_compare, FirewallRule};
use solo_lib::sdk::qcloud::cvm::{
    compare_rules as cvm_compare, AddressTemplateSpecification, SecurityGroupPolicy,
    SecurityGroupPolicySet, ServiceTemplateSpecification,
};
use solo_lib::sdk::qcloud::lighthouse::{compare_rules as lighthouse_compare, FirewallRuleInfo};
use solo_lib::sdk::rainyun::rcs::{compare_rules as rcs_compare, Record};

fn s(x: &str) -> String {
    x.to_string()
}

fn ecs_rule(description: &str, v4: &str, v6: &str) -> SecurityGroupRule {
    SecurityGroupRule {
        security_group_rule_id: s("sgr-1"),
        direction: s("ingress"),
        source_group_id: s(""),
        dest_group_owner_account: s(""),
        dest_prefix_list_id: s(""),
        dest_prefix_list_name: s(""),
        source_cidr_ip: s(v4),
        ipv6_dest_cidr_ip: s(""),
        create_time: s(""),
        ipv6_source_cidr_ip: s(v6),
        dest_group_id: s(""),
        dest_cidr_ip: s(""),
        ip_protocol: s("TCP"),
        priority: 1,
        dest_group_name: s(""),
        nic_type: s(""),
        policy: s("accept"),
        description: s(description),
        port_range: s("22/22"),
        source_prefix_list_name: s(""),
        source_prefix_list_id: s(""),
        source_group_owner_account: s(""),
        source_group_name: s(""),
        source_port_range: s(""),
    }
}

fn managed() -> Vec<String> {
    vec![s("ssh")]
}

#[test]
fn ecs_outdated_ipv4_is_replaced() {
    let rules = vec![ecs_rule("ssh", "1.2.3.4", "")];
    let (changed, require_update) = ecs_compare(&rules, "5.6.7.8", "", &managed());
    assert!(require_update);
    assert_eq!(changed.len(), 1);
    assert_eq!(changed[0].source_cidr_ip, "5.6.7.8");
    assert_eq!(changed[0].description, "ssh");
    assert_eq!(changed[0].security_group_rule_id, "sgr-1");
}

#[test]
fn ecs_current_ipv4_needs_nothing() {
    let rules = vec![ecs_rule("ssh", "1.2.3.4", "")];
    let (changed, require_update) = ecs_compare(&rules, "1.2.3.4", "", &managed());
    assert!(!require_update);
    assert!(changed.is_empty());
}

#[test]
fn ecs_unmanaged_rule_is_never_touched() {
    let rules = vec![ecs_rule("web", "1.2.3.4", "")];
    let (changed, require_update) = ecs_compare(&rules, "5.6.7.8", "", &managed());
    assert!(!require_update);
    assert!(changed.is_empty());
}

#[test]
fn ecs_both_families_outdated_updates_ipv6_only() {
    let rules = vec![ecs_rule("ssh", "1.2.3.4", "2001:db8::1")];
    let (changed, require_update) = ecs_compare(&rules, "5.6.7.8", "2001:db8::2", &managed());
    assert!(require_update);
    assert_eq!(changed.len(), 1);
    assert_eq!(changed[0].ipv6_source_cidr_ip, "2001:db8::2");
    assert_eq!(changed[0].source_cidr_ip, "1.2.3.4");
    // a second pass then updates the IPv4 source
    let (again, require_again) = ecs_compare(&changed, "5.6.7.8", "2001:db8::2", &managed());
    assert!(require_again);
    assert_eq!(again[0].source_cidr_ip, "5.6.7.8");
    assert_eq!(again[0].ipv6_source_cidr_ip, "2001:db8::2");
}

#[test]
fn ecs_second_pass_is_a_no_op() {
    let rules = vec![
        ecs_rule("ssh", "1.2.3.4", ""),
        ecs_rule("web", "9.9.9.9", ""),
        ecs_rule("ssh", "5.6.7.8", "2001:db8::1"),
    ];
    let (changed, require_update) = ecs_compare(&rules, "5.6.7.8", "2001:db8::2", &managed());
    assert!(require_update);
    assert_eq!(changed.len(), 2);
    let (again, require_again) = ecs_compare(&changed, "5.6.7.8", "2001:db8::2", &managed());
    assert!(!require_again);
    assert!(again.is_empty());
}

#[test]
fn ecs_empty_address_leaves_family_alone() {
    let rules = vec![ecs_rule("ssh", "1.2.3.4", "2001:db8::1")];
    let (changed, require_update) = ecs_compare(&rules, "", "", &managed());
    assert!(!require_update);
    assert!(changed.is_empty());
    let (changed, _) = ecs_compare(&rules, "5.6.7.8", "", &managed());
    assert_eq!(changed[0].source_cidr_ip, "5.6.7.8");
    assert_eq!(changed[0].ipv6_source_cidr_ip, "2001:db8::1");
}

fn sas_rule(remark: &str, cidr: &str) -> FirewallRule {
    FirewallRule {
        remark: s(remark),
        port: s("22/22"),
        rule_id: s("r-1"),
        rule_protocol: s("TCP"),
        policy: s("accept"),
        source_cidr_ip: s(cidr),
    }
}

#[test]
fn sas_only_managed_outdated_rules_change() {
    let rules = vec![sas_rule("ssh", "1.2.3.4"), sas_rule("web", "1.2.3.4"), sas_rule("ssh", "5.6.7.8")];
    let (changed, require_update) = sas_compare(&rules, "5.6.7.8", &managed());
    assert!(require_update);
    assert_eq!(changed.len(), 1);
    assert_eq!(changed[0].remark, "ssh");
    assert_eq!(changed[0].source_cidr_ip, "5.6.7.8");
    let (again, require_again) = sas_compare(&changed, "5.6.7.8", &managed());
    assert!(!require_again);
    assert!(again.is_empty());
}

fn policy(description: &str, v4: &str, v6: &str) -> SecurityGroupPolicy {
    SecurityGroupPolicy {
        policy_index: 0,
        protocol: s("TCP"),
        port: s("22"),
        service_template: ServiceTemplateSpecification { service_id: s(""), service_group_id: s("") },
        cidr_block: s(v4),
        ipv6_cidr_block: s(v6),
        security_group_id: s(""),
        address_template: AddressTemplateSpecification { address_id: s(""), address_group_id: s("") },
        action: s("ACCEPT"),
        policy_description: s(description),
        modify_time: s(""),
    }
}

#[test]
fn cvm_keeps_all_policies_and_updates_managed_ones() {
    let set = SecurityGroupPolicySet {
        version: s("7"),
        egress: vec![policy("ssh", "0.0.0.0/0", "")],
        ingress: vec![
            policy("ssh", "1.2.3.4", ""),
            policy("web", "1.2.3.4", ""),
            policy("ssh", "5.6.7.8", "2001:db8::1"),
        ],
    };
    let (out, require_update) = cvm_compare(&set, "5.6.7.8", "2001:db8::2", &managed());
    assert!(require_update);
    assert_eq!(out.version, "7");
    assert_eq!(out.egress.len(), 1);
    assert_eq!(out.egress[0].cidr_block, "0.0.0.0/0");
    assert_eq!(out.ingress.len(), 3);
    assert_eq!(out.ingress[0].cidr_block, "5.6.7.8");
    assert_eq!(out.ingress[1].cidr_block, "1.2.3.4");
    assert_eq!(out.ingress[2].ipv6_cidr_block, "2001:db8::2");
    assert_eq!(out.ingress[2].cidr_block, "5.6.7.8");
    let (_, require_again) = cvm_compare(&out, "5.6.7.8", "2001:db8::2", &managed());
    assert!(!require_again);
}

#[test]
fn cvm_dual_policy_updates_ipv6_only() {
    let set = SecurityGroupPolicySet {
        version: s("1"),
        egress: vec![],
        ingress: vec![policy("ssh", "1.2.3.4", "2001:db8::1")],
    };
    let (out, require_update) = cvm_compare(&set, "5.6.7.8", "2001:db8::2", &managed());
    assert!(require_update);
    assert_eq!(out.ingress[0].ipv6_cidr_block, "2001:db8::2");
    assert_eq!(out.ingress[0].cidr_block, "1.2.3.4");
    let (again, require_again) = cvm_compare(&out, "5.6.7.8", "2001:db8::2", &managed());
    assert!(require_again);
    assert_eq!(again.ingress[0].cidr_block, "5.6.7.8");
    assert_eq!(again.ingress[0].ipv6_cidr_block, "2001:db8::2");
}

fn lighthouse_rule(description: &str, cidr: &str) -> FirewallRuleInfo {
    FirewallRuleInfo {
        app_type: Some(s("SSH")),
        protocol: s("TCP"),
        port: s("22"),
        cidr_block: s(cidr),
        action: s("ACCEPT"),
        firewall_rule_description: s(description),
    }
}

#[test]
fn lighthouse_returns_every_rule() {
    let rules = vec![lighthouse_rule("ssh", "1.2.3.4"), lighthouse_rule("web", "1.2.3.4")];
    let (out, require_update) = lighthouse_compare(&rules, "5.6.7.8", &managed());
    assert!(require_update);
    assert_eq!(out.len(), 2);
    assert_eq!(out[0].cidr_block, "5.6.7.8");
    assert_eq!(out[0].app_type.as_deref(), Some("SSH"));
    assert_eq!(out[1].cidr_block, "1.2.3.4");
    let (_, require_again) = lighthouse_compare(&out, "5.6.7.8", &managed());
    assert!(!require_again);
    let (_, nothing) = lighthouse_compare(&rules, "", &managed());
    assert!(!nothing);
}

fn record(description: &str, source: &str) -> Record {
    Record {
        id: 7,
        is_enable: true,
        pos: 1,
        source_address: s(source),
        dest_port: s("22"),
        protocol: s("tcp"),
        action: s("accept"),
        description: s(description),
    }
}

#[test]
fn rcs_only_managed_outdated_records_change() {
    let records = vec![record("ssh", "1.2.3.4"), record("web", "1.2.3.4")];
    let (changed, require_update) = rcs_compare(&records, "5.6.7.8", &managed());
    assert!(require_update);
    assert_eq!(changed.len(), 1);
    assert_eq!(changed[0].id, 7);
    assert_eq!(changed[0].source_address, "5.6.7.8");
    let (_, require_again) = rcs_compare(&changed, "5.6.7.8", &managed());
    assert!(!require_again);
}
