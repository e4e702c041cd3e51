//! Request signing and response classification shared by the Qcloud products.
use vstd::prelude::*;

use crate::error::SdkError;

verus! {

/// API credentials.
#[derive(Debug)]
pub struct Secret {
    pub secret_id: String,
    pub secret_key: String,
}

/// Machine Type
#[derive(Debug, Clone, Copy, PartialEq, Eq, Structural)]
pub enum MachineType {
    /// Lighthouse instance
    Lighthouse,
    /// Cvm instance
    Cvm,
}

/// Common response: the API wraps every answer in a `Response` object.
#[derive(Debug)]
pub struct CommonResponse<T> {
    pub response: ResponseWrapper<T>,
}

/// The answer's payload and its request id.
#[derive(Debug)]
pub struct ResponseWrapper<T> {
    pub data: T,
    pub request_id: String,
}

/// An empty struct, used for requests that don't require a payload
#[derive(Debug)]
pub struct Empty {}

/// Error response
#[derive(Debug)]
pub struct ErrorResponse {
    pub error: SdkError,
}

} // verus!

verus! {

/// A text member, or the empty text when it is missing or not a string.
pub open spec fn text_or_empty(v: crate::json::JsonValue, key: Seq<char>) -> Seq<char> {
    match crate::json::str_field(v, key) {
        Some(s) => s,
        None => Seq::<char>::empty(),
    }
}

/// An answer is an error when its `Response` object holds an `Error`
/// object; the error's request id is `Response.RequestId`, its code and
/// message `Error.Code` and `Error.Message`, each empty when missing.
pub open spec fn error_fields(v: crate::json::JsonValue) -> Option<
    (Seq<char>, Seq<char>, Seq<char>),
> {
    match crate::json::field(v, "Response"@) {
        Some(resp) => match crate::json::field(resp, "Error"@) {
            Some(err) => match err {
                crate::json::JsonValue::Object(_) => Some(
                    (
                        text_or_empty(resp, "RequestId"@),
                        text_or_empty(err, "Code"@),
                        text_or_empty(err, "Message"@),
                    ),
                ),
                _ => None,
            },
            None => None,
        },
        None => None,
    }
}

fn str_or_empty(v: &crate::json::JsonValue, key: &str) -> (r: String)
    ensures
        r@ == text_or_empty(*v, key@),
{
    match crate::json::get_str(v, key) {
        Some(s) => s,
        None => String::new(),
    }
}

/// The error that an answer reports, if it reports one (see [`error_fields`]).
pub fn to_error_response(response: &crate::json::JsonValue) -> (r: Option<SdkError>)
    ensures
        match r {
            Some(e) => error_fields(*response) == Some((e.request_id@, e.code@, e.message@)),
            None => error_fields(*response) is None,
        },
{
    let resp = match response.get("Response") {
        Some(x) => x,
        None => {
            return None;
        },
    };
    let error = match resp.get("Error") {
        Some(x) => x,
        None => {
            return None;
        },
    };
    match error {
        crate::json::JsonValue::Object(_) => {},
        _ => {
            return None;
        },
    }
    Some(
        SdkError {
            request_id: str_or_empty(resp, "RequestId"),
            code: str_or_empty(error, "Code"),
            message: str_or_empty(error, "Message"),
        },
    )
}

} // verus!

verus! {

/// The service name of a product.
pub open spec fn service_name(mt: MachineType) -> Seq<char> {
    match mt {
        MachineType::Lighthouse => "lighthouse"@,
        MachineType::Cvm => "vpc"@,
    }
}

/// The API host of a product.
pub open spec fn service_host(mt: MachineType) -> Seq<char> {
    match mt {
        MachineType::Lighthouse => "lighthouse.tencentcloudapi.com"@,
        MachineType::Cvm => "vpc.tencentcloudapi.com"@,
    }
}

/// The API version of a product.
pub open spec fn service_version(mt: MachineType) -> Seq<char> {
    match mt {
        MachineType::Lighthouse => "2020-03-24"@,
        MachineType::Cvm => "2017-03-12"@,
    }
}

/// The endpoint URL of a product.
pub open spec fn service_endpoint(mt: MachineType) -> Seq<char> {
    match mt {
        MachineType::Lighthouse => "https://lighthouse.tencentcloudapi.com"@,
        MachineType::Cvm => "https://vpc.tencentcloudapi.com"@,
    }
}

impl MachineType {
    /// Returns (service, host, version, endpoint)
    pub fn service_info(&self) -> (r: (&'static str, &'static str, &'static str, &'static str))
        ensures
            r.0@ == service_name(*self),
            r.1@ == service_host(*self),
            r.2@ == service_version(*self),
            r.3@ == service_endpoint(*self),
    {
        match self {
            MachineType::Lighthouse => (
                "lighthouse",
                "lighthouse.tencentcloudapi.com",
                "2020-03-24",
                "https://lighthouse.tencentcloudapi.com",
            ),
            MachineType::Cvm => (
                "vpc",
                "vpc.tencentcloudapi.com",
                "2017-03-12",
                "https://vpc.tencentcloudapi.com",
            ),
        }
    }
}

/// The names of the signed headers, joined by `;`.
pub const SIGNED_HEADERS: &'static str = "content-type;host;x-tc-action";

/// The content type of every request.
pub const CONTENT_TYPE: &'static str = "application/json";

/// The canonical request that the signature covers.
pub open spec fn canonical_request(host: Seq<char>, action: Seq<char>, payload: Seq<char>) -> Seq<
    char,
> {
    "POST\n/\n\n"@ + "content-type:"@ + CONTENT_TYPE@ + "\nhost:"@ + host + "\nx-tc-action:"@
        + crate::util::lowercase_of(action) + "\n\n"@ + SIGNED_HEADERS@ + "\n"@
        + crate::sdk::aliyun::util::sha256_hex_of(payload)
}

/// The credential scope of a day and service.
pub open spec fn credential_scope(date: Seq<char>, service: Seq<char>) -> Seq<char> {
    date + "/"@ + service + "/tc3_request"@
}

/// The text that is signed.
pub open spec fn string_to_sign(timestamp: u64, scope: Seq<char>, canonical: Seq<char>) -> Seq<
    char,
> {
    "TC3-HMAC-SHA256\n"@ + crate::util::decimal(timestamp as nat) + "\n"@ + scope + "\n"@
        + crate::sdk::aliyun::util::sha256_hex_of(canonical)
}

/// The HMAC-SHA256 code of the UTF-8 form of a text.
pub open spec fn hmac_of(key: Seq<u8>, msg: Seq<char>) -> Seq<u8> {
    crate::util::hmac_sha256_of(key, vstd::utf8::encode_utf8(msg))
}

/// The signing key, derived from the secret key by chained HMAC over the
/// date, the service and `tc3_request`.
pub open spec fn signing_key(secret_key: Seq<char>, date: Seq<char>, service: Seq<char>) -> Seq<u8> {
    hmac_of(
        hmac_of(hmac_of(vstd::utf8::encode_utf8("TC3"@ + secret_key), date), service),
        "tc3_request"@,
    )
}

/// The `Authorization` header value.
pub open spec fn authorization(secret_id: Seq<char>, scope: Seq<char>, sig: Seq<char>) -> Seq<char> {
    "TC3-HMAC-SHA256 Credential="@ + secret_id + "/"@ + scope + ", SignedHeaders="@
        + SIGNED_HEADERS@ + ", Signature="@ + sig
}

/// The headers of a signed request, in the order they are set.
pub open spec fn request_headers(
    mt: MachineType,
    secret_id: Seq<char>,
    secret_key: Seq<char>,
    action: Seq<char>,
    payload: Seq<char>,
    region: Seq<char>,
    timestamp: u64,
    date: Seq<char>,
) -> Seq<(Seq<char>, Seq<char>)> {
    let scope = credential_scope(date, service_name(mt));
    let canonical = canonical_request(service_host(mt), action, payload);
    let sig = crate::util::hex_lower(
        hmac_of(
            signing_key(secret_key, date, service_name(mt)),
            string_to_sign(timestamp, scope, canonical),
        ),
    );
    seq![
        ("Authorization"@, authorization(secret_id, scope, sig)),
        ("Content-Type"@, CONTENT_TYPE@),
        ("Host"@, service_host(mt)),
        ("X-TC-Action"@, action),
        ("X-TC-Timestamp"@, crate::util::decimal(timestamp as nat)),
        ("X-TC-Version"@, service_version(mt)),
        ("X-TC-Region"@, region),
    ]
}

/// The UTC day of a timestamp, `None` outside the calendar range.
pub open spec fn date_of(timestamp: u64) -> Option<Seq<char>> {
    if timestamp <= i64::MAX {
        crate::util::utc_format_of(timestamp as int, crate::util::DATE_PATTERN@)
    } else {
        None
    }
}

/// `r` is the outcome of signing the request of `action` with `payload`:
/// the signed `POST` request when the day exists and every header value is
/// accepted, else the error that says which failed.
pub open spec fn signed_as(
    r: Result<crate::sdk::request::SignedRequest, crate::sdk::request::RequestError>,
    mt: MachineType,
    secret: Secret,
    action: Seq<char>,
    payload: Seq<char>,
    region: Seq<char>,
    timestamp: u64,
) -> bool {
    let date = date_of(timestamp);
    let headers = request_headers(
        mt,
        secret.secret_id@,
        secret.secret_key@,
        action,
        payload,
        region,
        timestamp,
        date->0,
    );
    match r {
        Ok(req) => {
            &&& date is Some
            &&& crate::sdk::request::headers_ok(headers)
            &&& req.method == crate::sdk::request::HttpMethod::Post
            &&& req.url@ == service_endpoint(mt)
            &&& crate::util::pair_views(req.headers@) == headers
            &&& req.query@.len() == 0
            &&& req.body@ == payload
        },
        Err(e) => if date is None {
            e == crate::sdk::request::RequestError::TimestampOutOfRange
        } else {
            e == crate::sdk::request::RequestError::InvalidHeaderValue
                && !crate::sdk::request::headers_ok(headers)
        },
    }
}

/// What a request is made of.
#[derive(Debug)]
pub struct BasicRequest<'a> {
    pub machine_type: MachineType,
    pub action: &'a str,
    pub payload: String,
    pub region: String,
    pub secret: &'a Secret,
}

/// HMAC-SHA256 of the UTF-8 form of `msg` under `key`.
pub fn sign(key: &[u8], msg: &str) -> (r: Vec<u8>)
    ensures
        r@ == hmac_of(key@, msg@),
{
    crate::util::hmac256(key, msg)
}

/// ### Sign a request (TC3-HMAC-SHA256)
///
/// Builds the `POST` request of an action with a JSON payload, signed for
/// the time `timestamp` seconds after the epoch. Fails when chrono cannot
/// represent the day, or when a header value holds a byte that HTTP refuses.
pub fn request_builder(basic_request: BasicRequest<'_>, timestamp: u64) -> (r: Result<
    crate::sdk::request::SignedRequest,
    crate::sdk::request::RequestError,
>)
    ensures
        signed_as(
            r,
            basic_request.machine_type,
            *basic_request.secret,
            basic_request.action@,
            basic_request.payload@,
            basic_request.region@,
            timestamp,
        ),
{
    let (service, host, version, endpoint) = basic_request.machine_type.service_info();
    if timestamp > 0x7fff_ffff_ffff_ffff {
        return Err(crate::sdk::request::RequestError::TimestampOutOfRange);
    }
    let date = match crate::util::format_utc(timestamp as i64, crate::util::DATE_PATTERN) {
        Some(d) => d,
        None => {
            return Err(crate::sdk::request::RequestError::TimestampOutOfRange);
        },
    };
    let lower_action = crate::util::to_lowercase(basic_request.action);
    let hashed_request_payload = crate::util::sha256_hex(basic_request.payload.as_str());
    let mut canonical = String::from_str("POST\n/\n\n");
    canonical.append("content-type:");
    canonical.append(CONTENT_TYPE);
    canonical.append("\nhost:");
    canonical.append(host);
    canonical.append("\nx-tc-action:");
    canonical.append(lower_action.as_str());
    canonical.append("\n\n");
    canonical.append(SIGNED_HEADERS);
    canonical.append("\n");
    canonical.append(hashed_request_payload.as_str());

    let mut scope = date.clone();
    scope.append("/");
    scope.append(service);
    scope.append("/tc3_request");
    let ts = crate::util::to_decimal(timestamp);
    let hashed_canonical_request = crate::util::sha256_hex(canonical.as_str());
    let mut string_to_sign = String::from_str("TC3-HMAC-SHA256\n");
    string_to_sign.append(ts.as_str());
    string_to_sign.append("\n");
    string_to_sign.append(scope.as_str());
    string_to_sign.append("\n");
    string_to_sign.append(hashed_canonical_request.as_str());

    let mut key = String::from_str("TC3");
    key.append(basic_request.secret.secret_key.as_str());
    let secret_date = sign(key.as_str().as_bytes(), date.as_str());
    let secret_service = sign(secret_date.as_slice(), service);
    let secret_signing = sign(secret_service.as_slice(), "tc3_request");
    let code = sign(secret_signing.as_slice(), string_to_sign.as_str());
    let signature = crate::util::hex_encode(code.as_slice());

    let mut authorization = String::from_str("TC3-HMAC-SHA256 Credential=");
    authorization.append(basic_request.secret.secret_id.as_str());
    authorization.append("/");
    authorization.append(scope.as_str());
    authorization.append(", SignedHeaders=");
    authorization.append(SIGNED_HEADERS);
    authorization.append(", Signature=");
    authorization.append(signature.as_str());

    let mut headers: Vec<(String, String)> = Vec::new();
    crate::sdk::request::push_header(&mut headers, "Authorization", authorization.as_str());
    crate::sdk::request::push_header(&mut headers, "Content-Type", CONTENT_TYPE);
    crate::sdk::request::push_header(&mut headers, "Host", host);
    crate::sdk::request::push_header(&mut headers, "X-TC-Action", basic_request.action);
    crate::sdk::request::push_header(&mut headers, "X-TC-Timestamp", ts.as_str());
    crate::sdk::request::push_header(&mut headers, "X-TC-Version", version);
    crate::sdk::request::push_header(&mut headers, "X-TC-Region", basic_request.region.as_str());
    assert(crate::util::pair_views(headers@) =~= request_headers(
        basic_request.machine_type,
        basic_request.secret.secret_id@,
        basic_request.secret.secret_key@,
        basic_request.action@,
        basic_request.payload@,
        basic_request.region@,
        timestamp,
        date@,
    ));
    if !crate::sdk::request::check_headers(&headers) {
        return Err(crate::sdk::request::RequestError::InvalidHeaderValue);
    }
    Ok(
        crate::sdk::request::SignedRequest {
            method: crate::sdk::request::HttpMethod::Post,
            url: endpoint.to_owned(),
            headers,
            query: Vec::new(),
            body: basic_request.payload,
        },
    )
}

} // verus!

verus! {

/// Signing is reproducible: two requests signed from the same secret,
/// payload and timestamp either both fail the same way or are both built,
/// with the same headers (so the same signature).
pub proof fn lemma_signing_reproducible(
    r1: Result<crate::sdk::request::SignedRequest, crate::sdk::request::RequestError>,
    r2: Result<crate::sdk::request::SignedRequest, crate::sdk::request::RequestError>,
    mt: MachineType,
    secret: Secret,
    action: Seq<char>,
    payload: Seq<char>,
    region: Seq<char>,
    timestamp: u64,
)
    requires
        signed_as(r1, mt, secret, action, payload, region, timestamp),
        signed_as(r2, mt, secret, action, payload, region, timestamp),
    ensures
        r1 is Ok <==> r2 is Ok,
        r1 is Err ==> r1 == r2,
        r1 is Ok ==> crate::util::pair_views(r1->Ok_0.headers@) == crate::util::pair_views(
            r2->Ok_0.headers@,
        ),
{
}

} // verus!
