use solo_lib::sdk::aliyun::ecs::{list_rules_request, SecurityGroup};
use solo_lib::sdk::aliyun::util::{build_sored_encoded_query_string, generate_nonce, nonce_from_draws, percent_code};
use solo_lib::sdk::aliyun::Secret as AliyunSecret;
use solo_lib::sdk::aliyun::MachineType as AliyunMachine;
use solo_lib::sdk::qcloud::cvm::{list_rules_request as cvm_list_request, SecurityGroup as CvmGroup};
use solo_lib::sdk::qcloud::Secret as QcloudSecret;
use solo_lib::sdk::qcloud::MachineType as QcloudMachine;
use solo_lib::sdk::rainyun::rcs::{list_rules_request as rcs_list_request, modify_rule_request};
use solo_lib::sdk::request::{HttpMethod, RequestError, SignedRequest};
use solo_lib::util::{hmac256, sha256_hex, to_decimal};

const NONCE: &str = "ABCDEFGHIJKLMNOPQRSTUVWXYZ012345";

fn header<'a>(r: &'a SignedRequest, name: &str) -> &'a str {
    r.headers.iter().find(|(n, _)| n == name).map(|(_, v)| v.as_str()).unwrap()
}

#[test]
fn query_string_is_sorted_by_key() {
    assert_eq!(build_sored_encoded_query_string(&[("b", "2"), ("a", "1")]), "a=1&b=2");
    assert_eq!(
        build_sored_encoded_query_string(&[("b", "2"), ("a", "1")]),
        build_sored_encoded_query_string(&[("a", "1"), ("b", "2")])
    );
}

#[test]
fn query_string_edge_cases() {
    assert_eq!(build_sored_encoded_query_string(&[]), "");
    assert_eq!(build_sored_encoded_query_string(&[("k", "1"), ("k", "2")]), "k=2");
    assert_eq!(build_sored_encoded_query_string(&[("x y", "a&b")]), "x%20y=a%26b");
}

#[test]
fn percent_code_keeps_unreserved_only() {
    assert_eq!(percent_code("AZaz09-_.~"), "AZaz09-_.~");
    assert_eq!(percent_code("a b+c/é~_.-"), "a%20b%2Bc%2F%C3%A9~_.-");
    assert_eq!(percent_code("*"), "%2A");
    assert_eq!(percent_code(""), "");
}

#[test]
fn digests_match_known_values() {
    assert_eq!(sha256_hex(""), "e3b0c44298fc1c149afbf4c8996fb92427ae41e4649b934ca495991b7852b855");
    let code = hmac256(b"key", "The quick brown fox jumps over the lazy dog");
    assert_eq!(hex_of(&code), "f7bc83f430538424b13298e6aa6fb143ef4d59a14946175997479dbc2d1a3cd8");
}

fn hex_of(b: &[u8]) -> String {
    b.iter().map(|x| format!("{:02x}", x)).collect()
}

#[test]
fn decimal_text() {
    assert_eq!(to_decimal(0), "0");
    assert_eq!(to_decimal(1700000000), "1700000000");
    assert_eq!(to_decimal(u64::MAX), "18446744073709551615");
}

#[test]
fn service_info_of_each_product() {
    let (host, version) = AliyunMachine::Ecs.service_info("cn-hangzhou");
    assert_eq!(host, "ecs.cn-hangzhou.aliyuncs.com");
    assert_eq!(version, "2014-05-26");
    let (host, version) = AliyunMachine::Sas.service_info("cn-beijing");
    assert_eq!(host, "swas.cn-beijing.aliyuncs.com");
    assert_eq!(version, "2020-06-01");
    assert_eq!(
        QcloudMachine::Cvm.service_info(),
        ("vpc", "vpc.tencentcloudapi.com", "2017-03-12", "https://vpc.tencentcloudapi.com")
    );
    assert_eq!(QcloudMachine::Lighthouse.service_info().0, "lighthouse");
}

fn aliyun_secret() -> AliyunSecret {
    AliyunSecret { secret_id: "AK".to_string(), secret_key: "SK".to_string() }
}

fn group() -> SecurityGroup {
    SecurityGroup { id: "sg-1".to_string(), region: "cn-hangzhou".to_string() }
}

#[test]
fn acs3_signature_matches_reference() {
    let r = list_rules_request(&group(), &aliyun_secret(), 1700000000, NONCE).unwrap();
    assert!(r.method == HttpMethod::Post);
    assert_eq!(r.url, "https://ecs.cn-hangzhou.aliyuncs.com/");
    assert_eq!(header(&r, "x-acs-date"), "2023-11-14T22:13:20Z");
    assert_eq!(header(&r, "x-acs-signature-nonce"), NONCE);
    assert_eq!(header(&r, "x-acs-action"), "DescribeSecurityGroupAttribute");
    assert_eq!(
        header(&r, "Authorization"),
        "ACS3-HMAC-SHA256 Credential=AK,SignedHeaders=host;x-acs-action;x-acs-content-sha256;x-acs-date;x-acs-signature-nonce;x-acs-version,Signature=dd74c94bcf03a02c4948b6ecd01a614487ccebceab0118eea46f2bea43432499"
    );
    assert_eq!(r.query.len(), 4);
}

#[test]
fn acs3_signature_is_deterministic_and_sensitive() {
    let a = list_rules_request(&group(), &aliyun_secret(), 1700000000, NONCE).unwrap();
    let b = list_rules_request(&group(), &aliyun_secret(), 1700000000, NONCE).unwrap();
    assert_eq!(header(&a, "Authorization"), header(&b, "Authorization"));
    let other_group = SecurityGroup { id: "sg-2".to_string(), region: "cn-hangzhou".to_string() };
    let c = list_rules_request(&other_group, &aliyun_secret(), 1700000000, NONCE).unwrap();
    assert_ne!(header(&a, "Authorization"), header(&c, "Authorization"));
    let d = list_rules_request(&group(), &aliyun_secret(), 1700000001, NONCE).unwrap();
    assert_ne!(header(&a, "Authorization"), header(&d, "Authorization"));
    let e = list_rules_request(&group(), &aliyun_secret(), 1700000000, "ABCDEFGHIJKLMNOPQRSTUVWXYZ012346").unwrap();
    assert_ne!(header(&a, "Authorization"), header(&e, "Authorization"));
}

#[test]
fn acs3_rejects_bad_header_value() {
    let bad = AliyunSecret { secret_id: "A\nK".to_string(), secret_key: "SK".to_string() };
    let r = list_rules_request(&group(), &bad, 1700000000, NONCE);
    assert!(matches!(r, Err(RequestError::InvalidHeaderValue)));
}

#[test]
fn acs3_rejects_out_of_range_time() {
    let r = list_rules_request(&group(), &aliyun_secret(), i64::MAX, NONCE);
    assert!(matches!(r, Err(RequestError::TimestampOutOfRange)));
}

#[test]
fn nonce_has_32_uppercase_alphanumerics() {
    let n = generate_nonce();
    assert_eq!(n.len(), 32);
    assert!(n.chars().all(|c| c.is_ascii_uppercase() || c.is_ascii_digit()));
}

#[test]
fn tc3_signature_matches_reference() {
    let secret = QcloudSecret { secret_id: "AK".to_string(), secret_key: "SK".to_string() };
    let sg = CvmGroup { id: "sg-1".to_string(), region: "ap-guangzhou".to_string() };
    let payload = "{\"SecurityGroupId\":\"sg-1\"}".to_string();
    let r = cvm_list_request(&sg, &secret, payload.clone(), 1700000000).unwrap();
    assert_eq!(r.url, "https://vpc.tencentcloudapi.com");
    assert_eq!(r.body, payload);
    assert_eq!(header(&r, "X-TC-Timestamp"), "1700000000");
    assert_eq!(header(&r, "X-TC-Action"), "DescribeSecurityGroupPolicies");
    assert_eq!(header(&r, "X-TC-Region"), "ap-guangzhou");
    assert_eq!(
        header(&r, "Authorization"),
        "TC3-HMAC-SHA256 Credential=AK/2023-11-14/vpc/tc3_request, SignedHeaders=content-type;host;x-tc-action, Signature=31003c12f4bfd7f480dfa62cc3c902d7b2bcaa29bbeb8f1d4d5bae3f2a59b9a3"
    );
    let again = cvm_list_request(&sg, &secret, payload, 1700000000).unwrap();
    assert_eq!(header(&r, "Authorization"), header(&again, "Authorization"));
    let changed = cvm_list_request(&sg, &secret, "{\"SecurityGroupId\":\"sg-2\"}".to_string(), 1700000000).unwrap();
    assert_ne!(header(&r, "Authorization"), header(&changed, "Authorization"));
}

#[test]
fn rainyun_requests_carry_the_key() {
    let r = rcs_list_request("42", "token").unwrap();
    assert!(r.method == HttpMethod::Get);
    assert_eq!(r.url, "https://api.v2.rainyun.com/product/rcs/42/firewall/rule?options=null");
    assert_eq!(header(&r, "x-api-key"), "token");
    let m = modify_rule_request("42", "token", "{}".to_string()).unwrap();
    assert!(m.method == HttpMethod::Post);
    assert_eq!(m.url, "https://api.v2.rainyun.com/product/rcs/42/firewall/rule");
    assert_eq!(m.body, "{}");
    assert!(matches!(rcs_list_request("42", "bad\u{7f}"), Err(RequestError::InvalidHeaderValue)));
}

#[test]
fn nonce_spells_the_draws() {
    let mut draws: Vec<usize> = (0..32).collect();
    draws[31] = 35;
    assert_eq!(nonce_from_draws(&draws), "ABCDEFGHIJKLMNOPQRSTUVWXYZ012349");
    assert_eq!(nonce_from_draws(&[26; 32]), "00000000000000000000000000000000");
}

#[test]
fn digest_is_64_lowercase_hex_digits() {
    let h = sha256_hex("solo");
    assert_eq!(h.len(), 64);
    assert!(h.chars().all(|c| c.is_ascii_digit() || ('a'..='f').contains(&c)));
    assert_ne!(sha256_hex("solo"), sha256_hex("sola"));
}
