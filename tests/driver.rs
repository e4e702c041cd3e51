use solo_lib::sdk::aliyun::ecs::{create_rules_request, delete_rules_request, SecurityGroup, SecurityGroupRule};
use solo_lib::sdk::aliyun::sas::{delete_rules_request as sas_delete_request, FirewallRule, Instance};
use solo_lib::sdk::aliyun::Secret;
use solo_lib::sdk::driver::{next_step, step_label, MachineType, Mutation, Step};
use solo_lib::sdk::qcloud::cvm::{replacement_policy_set, SecurityGroupPolicySet};
use solo_lib::sdk::qcloud::lighthouse::{rules_for_modify, FirewallRuleInfo};

#[test]
fn steps_follow_the_product() {
    assert!(next_step(MachineType::AliyunEcs, Step::FetchingRules, false) == Step::Done);
    assert!(next_step(MachineType::AliyunEcs, Step::FetchingRules, true) == Step::DeletingRules);
    assert!(next_step(MachineType::AliyunSas, Step::DeletingRules, true) == Step::CreatingRules);
    assert!(next_step(MachineType::AliyunSas, Step::CreatingRules, true) == Step::Done);
    assert!(next_step(MachineType::QcloudCvm, Step::FetchingRules, true) == Step::ModifyingRules);
    assert!(next_step(MachineType::QcloudLighthouse, Step::ModifyingRules, true) == Step::Done);
    assert!(next_step(MachineType::RainyunRcs, Step::FetchingRules, true) == Step::ModifyingRules);
    assert!(MachineType::RainyunRcs.mutation() == Mutation::ModifyEach);
    assert!(MachineType::QcloudCvm.uses_ipv6());
    assert!(!MachineType::AliyunSas.uses_ipv6());
    assert_eq!(step_label(Step::FetchingRules), "Fetching firewall rules");
    assert_eq!(step_label(Step::DeletingRules), "Deleting firewall rules");
    assert_eq!(step_label(Step::CreatingRules), "Adding firewall rules");
    assert_eq!(step_label(Step::ModifyingRules), "Modifying firewall rules");
    assert_eq!(step_label(Step::Done), "Done");
}

fn rule(id: &str, cidr: &str) -> SecurityGroupRule {
    let e = || String::new();
    SecurityGroupRule {
        security_group_rule_id: id.to_string(),
        direction: "ingress".to_string(),
        source_group_id: e(),
        dest_group_owner_account: e(),
        dest_prefix_list_id: e(),
        dest_prefix_list_name: e(),
        source_cidr_ip: cidr.to_string(),
        ipv6_dest_cidr_ip: e(),
        create_time: e(),
        ipv6_source_cidr_ip: e(),
        dest_group_id: e(),
        dest_cidr_ip: e(),
        ip_protocol: "TCP".to_string(),
        priority: -3,
        dest_group_name: e(),
        nic_type: e(),
        policy: e(),
        description: "ssh".to_string(),
        port_range: "22/22".to_string(),
        source_prefix_list_name: e(),
        source_prefix_list_id: e(),
        source_group_owner_account: e(),
        source_group_name: e(),
        source_port_range: e(),
    }
}

fn pairs(v: &[(String, String)]) -> Vec<(&str, &str)> {
    v.iter().map(|(a, b)| (a.as_str(), b.as_str())).collect()
}

#[test]
fn ecs_mutation_parameters() {
    let g = SecurityGroup { id: "sg-1".to_string(), region: "cn-hangzhou".to_string() };
    let s = Secret { secret_id: "AK".to_string(), secret_key: "SK".to_string() };
    let rules = vec![rule("a", "1.1.1.1"), rule("b", "2.2.2.2")];
    let d = delete_rules_request(&g, &s, &rules, 1700000000, "N").unwrap();
    assert_eq!(
        pairs(&d.query),
        vec![
            ("SecurityGroupId", "sg-1"),
            ("RegionId", "cn-hangzhou"),
            ("SecurityGroupRuleId.1", "a"),
            ("SecurityGroupRuleId.2", "b"),
        ]
    );
    let refused = delete_rules_request(&g, &s, &[rule("", "1.1.1.1")], 1700000000, "N");
    assert!(matches!(refused, Err(solo_lib::sdk::request::RequestError::MissingRuleId)));
    let c = create_rules_request(&g, &s, &rules, 1700000000, "N").unwrap();
    assert_eq!(
        pairs(&c.query),
        vec![
            ("SecurityGroupId", "sg-1"),
            ("RegionId", "cn-hangzhou"),
            ("Permissions.1.SecurityGroupRuleId", "a"),
            ("Permissions.1.Direction", "ingress"),
            ("Permissions.1.SourceCidrIp", "1.1.1.1"),
            ("Permissions.1.IpProtocol", "TCP"),
            ("Permissions.1.Priority", "-3"),
            ("Permissions.1.Description", "ssh"),
            ("Permissions.1.PortRange", "22/22"),
            ("Permissions.2.SecurityGroupRuleId", "b"),
            ("Permissions.2.Direction", "ingress"),
            ("Permissions.2.SourceCidrIp", "2.2.2.2"),
            ("Permissions.2.IpProtocol", "TCP"),
            ("Permissions.2.Priority", "-3"),
            ("Permissions.2.Description", "ssh"),
            ("Permissions.2.PortRange", "22/22"),
        ]
    );
}

#[test]
fn sas_delete_joins_ids() {
    let i = Instance { id: "i-1".to_string(), region: "cn-beijing".to_string() };
    let s = Secret { secret_id: "AK".to_string(), secret_key: "SK".to_string() };
    let r = |id: &str| FirewallRule {
        remark: "ssh".to_string(),
        port: "22".to_string(),
        rule_id: id.to_string(),
        rule_protocol: "TCP".to_string(),
        policy: "accept".to_string(),
        source_cidr_ip: "1.1.1.1".to_string(),
    };
    let req = sas_delete_request(&i, &s, &[r("x"), r("y"), r("z")], 1700000000, "N").unwrap();
    assert_eq!(req.url, "https://swas.cn-beijing.aliyuncs.com/");
    assert_eq!(pairs(&req.query)[2], ("RuleIds", "x,y,z"));
    let refused = sas_delete_request(&i, &s, &[r("x"), r("")], 1700000000, "N");
    assert!(matches!(refused, Err(solo_lib::sdk::request::RequestError::MissingRuleId)));
}

#[test]
fn payload_preparation() {
    let set = SecurityGroupPolicySet { version: "3".to_string(), egress: vec![], ingress: vec![] };
    let out = replacement_policy_set(&set);
    assert_eq!(out.version, "3");
    assert!(out.egress.is_empty());
    let rules = vec![FirewallRuleInfo {
        app_type: Some("SSH".to_string()),
        protocol: "TCP".to_string(),
        port: "22".to_string(),
        cidr_block: "1.1.1.1".to_string(),
        action: "ACCEPT".to_string(),
        firewall_rule_description: "ssh".to_string(),
    }];
    let out = rules_for_modify(&rules);
    assert!(out[0].app_type.is_none());
    assert_eq!(out[0].cidr_block, "1.1.1.1");
}

use solo_lib::notification::{run_status, should_notify, NotificationTrigger, ServerOutcome, Status};

#[test]
fn run_status_from_outcomes() {
    let changed = ServerOutcome::Success { is_ip_changed: true };
    let same = ServerOutcome::Success { is_ip_changed: false };
    assert!(run_status(false, &[]) == Status::SuccessButNotChanged);
    assert!(run_status(false, &[same, same]) == Status::SuccessButNotChanged);
    assert!(run_status(false, &[same, changed]) == Status::SuccessFullyChanged);
    assert!(run_status(false, &[changed, ServerOutcome::Failed]) == Status::Failed);
    assert!(run_status(true, &[changed]) == Status::Failed);
}

#[test]
fn triggers_select_notifications() {
    assert!(should_notify(NotificationTrigger::OnSuccess, Status::SuccessButNotChanged));
    assert!(!should_notify(NotificationTrigger::OnSuccess, Status::Failed));
    assert!(should_notify(NotificationTrigger::OnFailure, Status::Failed));
    assert!(!should_notify(NotificationTrigger::OnSuccessFullyChanged, Status::SuccessButNotChanged));
    assert!(should_notify(NotificationTrigger::Both, Status::SuccessFullyChanged));
    assert!(!should_notify(NotificationTrigger::Both, Status::SuccessButNotChanged));
    assert!(should_notify(NotificationTrigger::Always, Status::SuccessButNotChanged));
}
