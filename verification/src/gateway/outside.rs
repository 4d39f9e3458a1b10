//! What the gateway takes from the crates `pingora-http` and `http`, and from
//! std.
use http::StatusCode;
use pingora_http::{RequestHeader, ResponseHeader};
use vstd::prelude::*;
use vstd::utf8::{decode_utf8, valid_utf8};
use crate::gateway::fields::{
    few_names, field_name, field_text, field_value, has_names, no_fields, with_appended,
    with_inserted,
};
use crate::text::{decimal, lower, opt_str, opt_text};

verus! {

/// `http::StatusCode::from_u16`: whether a number is a status code, that is
/// has three digits.
#[verifier::external_body]
pub(crate) fn is_status_code(code: u16) -> (r: bool)
    ensures
        r == (100 <= code <= 999),
{
    StatusCode::from_u16(code).is_ok()
}

/// The phrase that the HTTP standards put behind a status code, if they do.
pub uninterp spec fn reason_phrase(code: u16) -> Option<Seq<char>>;

/// `http::StatusCode::canonical_reason`: the phrase behind a status code, if
/// the standards name one. Which phrase that is, is left to its name.
#[verifier::external_body]
pub(crate) fn canonical_reason(code: u16) -> (r: Option<&'static str>)
    ensures
        opt_str(r) == reason_phrase(code),
{
    StatusCode::from_u16(code).ok()?.canonical_reason()
}

/// `String::from_utf8` of std: the text that some bytes encode, or none where
/// they are not UTF-8.
#[verifier::external_body]
pub(crate) fn text_from_utf8(bytes: Vec<u8>) -> (r: Option<String>)
    ensures
        match r {
            Some(s) => valid_utf8(bytes@) && s@ == decode_utf8(bytes@),
            None => !valid_utf8(bytes@),
        },
{
    String::from_utf8(bytes).ok()
}

/// The head of a request of the crate `pingora-http`.
#[verifier::external_type_specification]
#[verifier::external_body]
pub struct ExRequestHeader(RequestHeader);

/// The fields of a request: under each name, in lower case, the bytes of its
/// values in order.
pub uninterp spec fn request_fields(request: RequestHeader) -> Map<Seq<char>, Seq<Seq<u8>>>;

/// The path and query of a request's URI, where it has such a part.
pub uninterp spec fn request_path_and_query(request: RequestHeader) -> Option<Seq<char>>;

/// The path of a request's URI.
pub uninterp spec fn request_path(request: RequestHeader) -> Seq<char>;

/// The host in the authority of a request's URI, where it has one.
pub uninterp spec fn request_authority(request: RequestHeader) -> Option<Seq<char>>;

/// `RequestHeader::insert_header`: puts the value in place of all values under
/// the name, whatever its case, and leaves the rest of the request alone. A
/// name or value that HTTP does not allow is refused, and nothing changes. The
/// map behind it panics when it would have to grow beyond its limit, which is
/// far above the number of names required here.
#[verifier::external_body]
pub(crate) fn insert_request_header(request: &mut RequestHeader, name: String, value: String) -> (ok:
    bool)
    requires
        few_names(request_fields(*old(request)), 1),
    ensures
        ok == (field_name(name@) && field_value(value@)),
        request_fields(*final(request)) == (if ok {
            with_inserted(request_fields(*old(request)), name@, value@)
        } else {
            request_fields(*old(request))
        }),
        request_path_and_query(*final(request)) == request_path_and_query(*old(request)),
        request_path(*final(request)) == request_path(*old(request)),
        request_authority(*final(request)) == request_authority(*old(request)),
{
    request.insert_header(name, value).is_ok()
}

/// `RequestHeader::append_header`: puts the value behind those that stand under
/// the name, whatever its case, and leaves the rest of the request alone. A
/// name or value that HTTP does not allow is refused, and so is any field once
/// the map behind it cannot grow, which is not so with few names; then nothing
/// changes. When exactly the map cannot grow is left unsaid.
#[verifier::external_body]
pub(crate) fn append_request_header(request: &mut RequestHeader, name: String, value: String) -> (ok:
    bool)
    ensures
        ok ==> field_name(name@) && field_value(value@),
        field_name(name@) && field_value(value@) && few_names(request_fields(*old(request)), 1)
            ==> ok,
        request_fields(*final(request)) == (if ok {
            with_appended(request_fields(*old(request)), name@, value@)
        } else {
            request_fields(*old(request))
        }),
        request_path_and_query(*final(request)) == request_path_and_query(*old(request)),
        request_path(*final(request)) == request_path(*old(request)),
        request_authority(*final(request)) == request_authority(*old(request)),
{
    request.append_header(name, value).is_ok()
}

/// `RequestHeader::remove_header`: takes out all values under the name, whatever
/// its case, and leaves the rest of the request alone.
#[verifier::external_body]
pub(crate) fn remove_request_header(request: &mut RequestHeader, name: &str)
    requires
        field_name(name@),
    ensures
        request_fields(*final(request)) == request_fields(*old(request)).remove(lower(name@)),
        request_path_and_query(*final(request)) == request_path_and_query(*old(request)),
        request_path(*final(request)) == request_path(*old(request)),
        request_authority(*final(request)) == request_authority(*old(request)),
{
    request.remove_header(name);
}

/// The path and query that a request has once a target was put into it; none
/// where the target is refused.
pub uninterp spec fn accepted_target(target: Seq<char>) -> Option<Seq<char>>;

/// `RequestHeader::set_raw_path`: puts another target into a request and keeps
/// its fields, or refuses the target and changes nothing. The URI of an
/// accepted target has a path and query and no authority. Which targets are
/// accepted, and what path and query they give, is left to its name; what
/// becomes of the path alone is left unsaid.
#[verifier::external_body]
pub(crate) fn set_request_target(request: &mut RequestHeader, target: &str) -> (ok: bool)
    ensures
        ok == (accepted_target(target@) is Some),
        request_path_and_query(*final(request)) == (match accepted_target(target@) {
            Some(accepted) => Some(accepted),
            None => request_path_and_query(*old(request)),
        }),
        !ok ==> request_path(*final(request)) == request_path(*old(request)),
        request_authority(*final(request)) == (if ok {
            None
        } else {
            request_authority(*old(request))
        }),
        request_fields(*final(request)) == request_fields(*old(request)),
{
    request.set_raw_path(target.as_bytes()).is_ok()
}

/// `Uri::path_and_query` of a request's URI.
#[verifier::external_body]
pub(crate) fn path_and_query_of_request(request: &RequestHeader) -> (r: Option<String>)
    ensures
        opt_text(r) == request_path_and_query(*request),
{
    request.uri.path_and_query().map(|target| target.as_str().to_string())
}

/// `Uri::path` of a request's URI.
#[verifier::external_body]
pub(crate) fn path_of_request(request: &RequestHeader) -> (r: String)
    ensures
        r@ == request_path(*request),
{
    request.uri.path().to_string()
}

/// `Uri::authority` of a request's URI, and `Authority::host` of it.
#[verifier::external_body]
pub(crate) fn authority_of_request(request: &RequestHeader) -> (r: Option<String>)
    ensures
        opt_text(r) == request_authority(*request),
{
    request.uri.authority().map(|authority| authority.host().to_string())
}

/// `HeaderMap::get` for the field `host` of a request, and
/// `HeaderValue::to_str`: its first value, where that is visible ASCII.
#[verifier::external_body]
pub(crate) fn host_field_of_request(request: &RequestHeader) -> (r: Option<String>)
    ensures
        opt_text(r) == field_text(request_fields(*request), "host"@),
{
    request.headers.get("host")?.to_str().ok().map(|value| value.to_string())
}

/// `HeaderMap::keys_len` of a request's fields: how many names there are.
#[verifier::external_body]
pub(crate) fn count_request_names(request: &RequestHeader) -> (r: usize)
    ensures
        has_names(request_fields(*request), r as nat),
{
    request.headers.keys_len()
}

/// The head of a response of the crate `pingora-http`.
#[verifier::external_type_specification]
#[verifier::external_body]
pub struct ExResponseHeader(ResponseHeader);

/// The fields of a response: under each name, in lower case, the bytes of its
/// values in order.
pub uninterp spec fn response_fields(response: ResponseHeader) -> Map<Seq<char>, Seq<Seq<u8>>>;

/// The status code of a response.
pub uninterp spec fn response_status(response: ResponseHeader) -> u16;

/// `ResponseHeader::build`: a response with the status code and without
/// fields; a number that is no status code is refused.
#[verifier::external_body]
pub(crate) fn new_response(code: u16) -> (r: Option<ResponseHeader>)
    ensures
        match r {
            Some(response) => 100 <= code <= 999 && response_status(response) == code
                && response_fields(response) == no_fields(),
            None => !(100 <= code <= 999),
        },
{
    ResponseHeader::build(code, None).ok()
}

/// `ResponseHeader::insert_header`: puts the value in place of all values under
/// the name, whatever its case, and keeps the status code. A name or value
/// that HTTP does not allow is refused, and nothing changes. The map behind it
/// is far from its limit with the number of names required here.
#[verifier::external_body]
pub(crate) fn insert_response_header(
    response: &mut ResponseHeader,
    name: String,
    value: String,
) -> (ok: bool)
    requires
        few_names(response_fields(*old(response)), 1),
    ensures
        ok == (field_name(name@) && field_value(value@)),
        response_fields(*final(response)) == (if ok {
            with_inserted(response_fields(*old(response)), name@, value@)
        } else {
            response_fields(*old(response))
        }),
        response_status(*final(response)) == response_status(*old(response)),
{
    response.insert_header(name, value).is_ok()
}

/// `ResponseHeader::set_content_length`: puts the number, in decimal, in place
/// of all values under `content-length`, and keeps the status code. It is never
/// refused.
#[verifier::external_body]
pub(crate) fn set_response_length(response: &mut ResponseHeader, len: usize) -> (ok: bool)
    requires
        few_names(response_fields(*old(response)), 1),
    ensures
        ok,
        response_fields(*final(response)) == with_inserted(
            response_fields(*old(response)),
            "content-length"@,
            decimal(len as nat),
        ),
        response_status(*final(response)) == response_status(*old(response)),
{
    response.set_content_length(len).is_ok()
}

} // verus!
