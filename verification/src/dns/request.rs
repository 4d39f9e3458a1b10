//! What a request must be like to be answered, and what a response carries.
use vstd::prelude::*;
use crate::dns::filter::{code_of_outcome, outcome_to_response_code};
use crate::dns::types::{DnsOutcome, RecordType, ResponseCode};

verus! {

/// The number of the record type that negotiates keys.
pub const TKEY: u16 = 249;

/// The code that refuses a query of the given type, if it is refused: transfers
/// and the like are refused, types that are no question are malformed, and the
/// signing of messages is not supported.
pub open spec fn type_refusal(query_type: RecordType) -> Option<ResponseCode> {
    match query_type {
        RecordType::ANY => Some(ResponseCode::Refused),
        RecordType::AXFR => Some(ResponseCode::Refused),
        RecordType::IXFR => Some(ResponseCode::Refused),
        RecordType::OPT => Some(ResponseCode::FormErr),
        RecordType::ZERO => Some(ResponseCode::FormErr),
        RecordType::TSIG => Some(ResponseCode::NotImp),
        RecordType::Other(code) => if code == TKEY {
            Some(ResponseCode::NotImp)
        } else {
            None
        },
        _ => None,
    }
}

/// The code that refuses a request, if it is refused, in the order in which a
/// request is looked at: it holds one question, is a query, is of the Internet
/// class, and asks for a type that is answered.
pub open spec fn refusal(
    questions: usize,
    is_query: bool,
    is_internet: bool,
    query_type: RecordType,
) -> Option<ResponseCode> {
    if questions != 1 {
        Some(ResponseCode::FormErr)
    } else if !is_query {
        Some(ResponseCode::NotImp)
    } else if !is_internet {
        Some(ResponseCode::Refused)
    } else {
        type_refusal(query_type)
    }
}

pub fn preflight(questions: usize, is_query: bool, is_internet: bool, query_type: RecordType) -> (r:
    Option<ResponseCode>)
    ensures
        r == refusal(questions, is_query, is_internet, query_type),
{
    if questions != 1 {
        return Some(ResponseCode::FormErr);
    }
    if !is_query {
        return Some(ResponseCode::NotImp);
    }
    if !is_internet {
        return Some(ResponseCode::Refused);
    }
    match query_type {
        RecordType::ANY | RecordType::AXFR | RecordType::IXFR => Some(ResponseCode::Refused),
        RecordType::OPT | RecordType::ZERO => Some(ResponseCode::FormErr),
        RecordType::TSIG => Some(ResponseCode::NotImp),
        RecordType::Other(code) => if code == TKEY {
            Some(ResponseCode::NotImp)
        } else {
            None
        },
        _ => None,
    }
}

/// What the header of a response says.
#[derive(Debug, Clone, Copy, PartialEq, Eq, Structural)]
pub struct ResponseMeta {
    /// The number of the request.
    pub id: u16,
    pub response_code: ResponseCode,
    pub authoritative: bool,
    pub recursion_available: bool,
}

/// The header of a response with the given code.
pub open spec fn meta_with(id: u16, response_code: ResponseCode) -> ResponseMeta {
    ResponseMeta { id, response_code, authoritative: true, recursion_available: true }
}

/// The header of a response that refuses a request.
pub fn send_error_response(id: u16, code: ResponseCode) -> (r: ResponseMeta)
    ensures
        r == meta_with(id, code),
{
    ResponseMeta { id, response_code: code, authoritative: true, recursion_available: true }
}

/// The header of a response that could not be sent.
pub fn serve_failed(id: u16) -> (r: ResponseMeta)
    ensures
        r == meta_with(id, ResponseCode::ServFail),
{
    send_error_response(id, ResponseCode::ServFail)
}

/// The header of a response with the given outcome.
pub fn response_meta(id: u16, outcome: DnsOutcome) -> (r: ResponseMeta)
    ensures
        r == meta_with(id, code_of_outcome(outcome)),
{
    send_error_response(id, outcome_to_response_code(outcome))
}

/// A request is looked into exactly when it is one ordinary question.
pub proof fn law_accepted_requests(
    questions: usize,
    is_query: bool,
    is_internet: bool,
    query_type: RecordType,
)
    ensures
        refusal(questions, is_query, is_internet, query_type) is None <==> (questions == 1
            && is_query && is_internet && type_refusal(query_type) is None),
{
}

/// Which refusal a request gets: one without exactly one question is
/// malformed, one that is no query not supported, and one of another class
/// refused, in this order. Transfers and queries for everything are refused,
/// types that are no question malformed, and signatures not supported.
pub proof fn law_refusals(
    questions: usize,
    is_query: bool,
    is_internet: bool,
    query_type: RecordType,
)
    ensures
        ({
            let r = refusal(questions, is_query, is_internet, query_type);
            let plain = questions == 1 && is_query && is_internet;
            &&& questions != 1 ==> r == Some(ResponseCode::FormErr)
            &&& questions == 1 && !is_query ==> r == Some(ResponseCode::NotImp)
            &&& questions == 1 && is_query && !is_internet ==> r == Some(ResponseCode::Refused)
            &&& plain ==> (r == Some(ResponseCode::Refused) <==> query_type == RecordType::ANY
                || query_type == RecordType::AXFR || query_type == RecordType::IXFR)
            &&& plain ==> (r == Some(ResponseCode::FormErr) <==> query_type == RecordType::OPT
                || query_type == RecordType::ZERO)
            &&& plain ==> (r == Some(ResponseCode::NotImp) <==> query_type == RecordType::TSIG
                || query_type == RecordType::Other(249))
            &&& plain ==> (r is None <==> query_type == RecordType::A || query_type
                == RecordType::AAAA || query_type == RecordType::PTR || query_type
                == RecordType::SVCB || query_type == RecordType::HTTPS || (query_type is Other
                && query_type != RecordType::Other(249)))
        }),
{
}

/// A response carries the number of its request and the given code, and says
/// that the router is in authority and asks others itself.
pub proof fn law_response_header(id: u16, code: ResponseCode)
    ensures
        meta_with(id, code).id == id,
        meta_with(id, code).response_code == code,
        meta_with(id, code).authoritative,
        meta_with(id, code).recursion_available,
{
}

} // verus!
