//! Requests and response classification of the Rainyun API.
use vstd::prelude::*;

verus! {

/// The envelope of every answer: a status code and the payload.
#[derive(Debug)]
pub struct CommonResponse<T> {
    pub code: u32,
    pub data: T,
}

} // verus!

verus! {

/// The status code that marks success.
pub const SUCCESS_CODE: u64 = 200;

/// The message of an answer, empty when missing.
pub open spec fn message_text(v: crate::json::JsonValue) -> Seq<char> {
    match crate::json::str_field(v, "message"@) {
        Some(m) => m,
        None => Seq::<char>::empty(),
    }
}

/// An answer is an error when its `code` is a number other than 200; the
/// error has the code in decimal (or as written, for a number that is not a
/// non-negative integer), the `message` (empty when missing) and no request
/// id.
pub open spec fn error_fields(v: crate::json::JsonValue) -> Option<(Seq<char>, Seq<char>)> {
    match crate::json::field(v, "code"@) {
        Some(crate::json::JsonValue::Number(text, value)) => match value {
            Some(code) => if code != SUCCESS_CODE {
                Some((crate::util::decimal(code as nat), message_text(v)))
            } else {
                None
            },
            None => if text@ != "200"@ {
                Some((text@, message_text(v)))
            } else {
                None
            },
        },
        _ => None,
    }
}

/// The error that an answer reports, if it reports one (see [`error_fields`]).
pub fn to_error_response(response: &crate::json::JsonValue) -> (r: Option<crate::SdkError>)
    ensures
        match r {
            Some(e) => error_fields(*response) == Some((e.code@, e.message@))
                && e.request_id@.len() == 0,
            None => error_fields(*response) is None,
        },
{
    let code = match response.get("code") {
        Some(crate::json::JsonValue::Number(text, value)) => match value {
            Some(n) => {
                if *n == SUCCESS_CODE {
                    return None;
                }
                crate::util::to_decimal(*n)
            },
            None => {
                if crate::util::str_eq(text.as_str(), "200") {
                    return None;
                }
                text.clone()
            },
        },
        _ => {
            return None;
        },
    };
    let message = match crate::json::get_str(response, "message") {
        Some(s) => s,
        None => String::new(),
    };
    Some(crate::SdkError { code, message, request_id: String::new() })
}

} // verus!

verus! {

/// What a request is made of.
#[derive(Debug)]
pub struct BasicRequest<'a> {
    pub payload: String,
    pub method: crate::sdk::request::HttpMethod,
    /// Text appended to the URL as it is, such as `?options=null`.
    pub query: Option<String>,
    pub instance_id: &'a str,
    pub token: &'a str,
}

/// The firewall rule URL of a server, with the query text after it.
pub open spec fn rule_url(instance_id: Seq<char>, query: Seq<char>) -> Seq<char> {
    "https://api.v2.rainyun.com/product/rcs/"@ + instance_id + "/firewall/rule"@ + query
}

/// ### Build a request
///
/// The API key travels verbatim in the `x-api-key` header; nothing is
/// signed. Fails when the key holds a byte that HTTP refuses in a header.
pub fn request_builder(basic_request: BasicRequest<'_>) -> (r: Result<
    crate::sdk::request::SignedRequest,
    crate::sdk::request::RequestError,
>)
    ensures
        ({
            let query = match basic_request.query {
                Some(q) => q@,
                None => Seq::<char>::empty(),
            };
            let headers = seq![("x-api-key"@, basic_request.token@)];
            match r {
                Ok(req) => {
                    &&& crate::sdk::request::headers_ok(headers)
                    &&& req.method == basic_request.method
                    &&& req.url@ == rule_url(basic_request.instance_id@, query)
                    &&& crate::util::pair_views(req.headers@) == headers
                    &&& req.query@.len() == 0
                    &&& req.body@ == basic_request.payload@
                },
                Err(e) => e == crate::sdk::request::RequestError::InvalidHeaderValue
                    && !crate::sdk::request::headers_ok(headers),
            }
        }),
{
    let mut url = String::from_str("https://api.v2.rainyun.com/product/rcs/");
    url.append(basic_request.instance_id);
    url.append("/firewall/rule");
    match &basic_request.query {
        Some(q) => url.append(q.as_str()),
        None => {},
    }
    let mut headers: Vec<(String, String)> = Vec::new();
    crate::sdk::request::push_header(&mut headers, "x-api-key", basic_request.token);
    assert(crate::util::pair_views(headers@) =~= seq![("x-api-key"@, basic_request.token@)]);
    if !crate::sdk::request::check_headers(&headers) {
        return Err(crate::sdk::request::RequestError::InvalidHeaderValue);
    }
    Ok(
        crate::sdk::request::SignedRequest {
            method: basic_request.method,
            url,
            headers,
            query: Vec::new(),
            body: basic_request.payload,
        },
    )
}

} // verus!
