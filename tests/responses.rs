use solo_lib::json::{flatten_json, JsonValue};
use solo_lib::sdk::aliyun::util::to_error_response as aliyun_error;
use solo_lib::sdk::qcloud::util::to_error_response as qcloud_error;
use solo_lib::sdk::rainyun::util::to_error_response as rainyun_error;

fn st(x: &str) -> JsonValue {
    JsonValue::Str(x.to_string())
}

fn obj(members: Vec<(&str, JsonValue)>) -> JsonValue {
    JsonValue::Object(members.into_iter().map(|(k, v)| (k.to_string(), v)).collect())
}

fn num(n: u64) -> JsonValue {
    JsonValue::Number(n.to_string(), Some(n))
}

#[test]
fn aliyun_error_response_is_recognised() {
    let v = obj(vec![("RequestId", st("x")), ("Code", st("InvalidParameter")), ("Message", st("bad"))]);
    let e = aliyun_error(&v).unwrap();
    assert_eq!(e.request_id, "x");
    assert_eq!(e.code, "InvalidParameter");
    assert_eq!(e.message, "bad");
    assert_eq!(e.describe(), "SdkError: request_id=x, code=InvalidParameter, message=bad");
}

#[test]
fn aliyun_success_response_is_not_an_error() {
    let v = obj(vec![("RequestId", st("x")), ("Permissions", obj(vec![]))]);
    assert!(aliyun_error(&v).is_none());
    let v = obj(vec![("RequestId", st("x")), ("Code", num(400)), ("Message", st("bad"))]);
    assert!(aliyun_error(&v).is_none());
    assert!(aliyun_error(&JsonValue::Null).is_none());
}

#[test]
fn qcloud_error_response_is_recognised() {
    let v = obj(vec![(
        "Response",
        obj(vec![
            ("Error", obj(vec![("Code", st("AuthFailure")), ("Message", st("denied"))])),
            ("RequestId", st("r-1")),
        ]),
    )]);
    let e = qcloud_error(&v).unwrap();
    assert_eq!(e.request_id, "r-1");
    assert_eq!(e.code, "AuthFailure");
    assert_eq!(e.message, "denied");
    let ok = obj(vec![("Response", obj(vec![("RequestId", st("r-1"))]))]);
    assert!(qcloud_error(&ok).is_none());
    let bare = obj(vec![("Response", obj(vec![("Error", obj(vec![("Code", st("Internal"))]))]))]);
    let e = qcloud_error(&bare).unwrap();
    assert_eq!(e.request_id, "");
    assert_eq!(e.code, "Internal");
    assert_eq!(e.message, "");
    let not_object = obj(vec![("Response", obj(vec![("Error", st("x"))]))]);
    assert!(qcloud_error(&not_object).is_none());
}

#[test]
fn rainyun_error_response_is_recognised() {
    let v = obj(vec![("code", num(401)), ("message", st("no key"))]);
    let e = rainyun_error(&v).unwrap();
    assert_eq!(e.code, "401");
    assert_eq!(e.message, "no key");
    assert_eq!(e.request_id, "");
    let ok = obj(vec![("code", num(200)), ("message", st("ok"))]);
    assert!(rainyun_error(&ok).is_none());
    let silent = obj(vec![("code", num(500))]);
    let e = rainyun_error(&silent).unwrap();
    assert_eq!(e.code, "500");
    assert_eq!(e.message, "");
    let negative = obj(vec![("code", JsonValue::Number("-1".to_string(), None)), ("message", st("odd"))]);
    let e = rainyun_error(&negative).unwrap();
    assert_eq!(e.code, "-1");
    assert_eq!(e.message, "odd");
    let float_ok = obj(vec![("code", JsonValue::Number("200".to_string(), None))]);
    assert!(rainyun_error(&float_ok).is_none());
    let text_code = obj(vec![("code", st("500"))]);
    assert!(rainyun_error(&text_code).is_none());
}

#[test]
fn flatten_json_names_members_and_elements() {
    let v = JsonValue::Array(vec![
        obj(vec![("SourceCidrIp", st("1.2.3.4")), ("Priority", JsonValue::Number("1".to_string(), Some(1)))]),
        obj(vec![("Enabled", JsonValue::Bool(true)), ("Note", JsonValue::Null)]),
    ]);
    let flat = flatten_json(&v, "Permissions");
    let expected: Vec<(String, String)> = vec![
        ("Permissions.1.SourceCidrIp", "1.2.3.4"),
        ("Permissions.1.Priority", "1"),
        ("Permissions.2.Enabled", "true"),
        ("Permissions.2.Note", "null"),
    ]
    .into_iter()
    .map(|(a, b)| (a.to_string(), b.to_string()))
    .collect();
    assert_eq!(flat, expected);
    let top = flatten_json(&obj(vec![("a", obj(vec![("b", st("c"))]))]), "");
    assert_eq!(top, vec![("a.b".to_string(), "c".to_string())]);
}

#[test]
fn json_lookup() {
    let v = obj(vec![("a", st("1")), ("b", num(2))]);
    assert_eq!(v.get("a").and_then(|x| x.as_str()).map(|s| s.as_str()), Some("1"));
    assert_eq!(v.get("b").and_then(|x| x.as_u64()), Some(2));
    assert!(v.get("c").is_none());
}
