//! The headers that a request gets on its way to the upstream, and those of
//! the responses that the gateway writes itself.
use pingora_http::{RequestHeader, ResponseHeader};
use vstd::prelude::*;
use vstd::utf8::encode_utf8;
use crate::gateway::failure::{ErrorKind, ErrorSource, ProxyError};
use crate::gateway::fields::{
    after_changes, allowed_until, few_names, field_name, field_value, is_field_name,
    is_field_value, lemma_digits_are_value, lemma_joined_is_value, lemma_one_name_more,
    lemma_values_in_a_row, no_fields, values_under, with_inserted, FieldChange, Fields, MOST_NAMES,
};
use crate::gateway::outside::{
    append_request_header, count_request_names, insert_request_header, insert_response_header,
    is_status_code, new_response, remove_request_header, request_fields, response_fields,
    response_status, set_response_length,
};
use crate::gateway::route::request_target;
use crate::gateway::rules::{ProxyHeaderConflictMode, ProxyRequestHeader};
use crate::net::{groups_text, longest_zero_run, zero_run, IpAddr, Ipv4Addr, Ipv6Addr};
use crate::text::{decimal, has_char, hexadecimal, lower};

verus! {

impl IpAddr {
    pub open spec fn text(self) -> Seq<char> {
        match self {
            IpAddr::V4(ip) => ip.text(),
            IpAddr::V6(ip) => ip.text(),
        }
    }

    pub fn to_text(&self) -> (r: String)
        ensures
            r@ == self.text(),
    {
        match self {
            IpAddr::V4(ip) => ip.to_text(),
            IpAddr::V6(ip) => ip.to_text(),
        }
    }
}

/// An address as the standard forwarding header has it: one with colons in
/// brackets and quotes.
pub open spec fn forwarded_value(ip: Seq<char>) -> Seq<char> {
    if ip.contains(':') {
        "\"["@ + ip + "]\""@
    } else {
        ip
    }
}

pub fn forwarded_for_value(client_ip: &str) -> (r: String)
    ensures
        r@ == forwarded_value(client_ip@),
{
    if has_char(client_ip, ':') {
        "\"[".to_owned().concat(client_ip).concat("]\"")
    } else {
        client_ip.to_owned()
    }
}

proof fn lemma_v4_is_value(ip: Ipv4Addr)
    ensures
        field_value(ip.text()),
{
    reveal_strlit(".");
    let o = ip.spec_octets();
    let dot = "."@;
    lemma_digits_are_value(o[0] as nat, 10);
    lemma_digits_are_value(o[1] as nat, 10);
    lemma_digits_are_value(o[2] as nat, 10);
    lemma_digits_are_value(o[3] as nat, 10);
    let one = decimal(o[0] as nat) + dot;
    lemma_values_in_a_row(decimal(o[0] as nat), dot);
    let two = one + decimal(o[1] as nat);
    lemma_values_in_a_row(one, decimal(o[1] as nat));
    lemma_values_in_a_row(two, dot);
    let three = two + dot + decimal(o[2] as nat);
    lemma_values_in_a_row(two + dot, decimal(o[2] as nat));
    lemma_values_in_a_row(three, dot);
    lemma_values_in_a_row(three + dot, decimal(o[3] as nat));
}

proof fn lemma_groups_are_value(segments: Seq<u16>)
    ensures
        field_value(groups_text(segments)),
{
    reveal_strlit(":");
    let parts = segments.map_values(|s: u16| hexadecimal(s as nat));
    assert forall|i: int| 0 <= i < parts.len() implies field_value(#[trigger] parts[i]) by {
        lemma_digits_are_value(segments[i] as nat, 16);
    }
    lemma_joined_is_value(parts, ":"@);
}

proof fn lemma_v6_is_value(ip: Ipv6Addr)
    ensures
        field_value(ip.text()),
{
    reveal_strlit("::ffff:");
    reveal_strlit("::");
    match ip.mapped_v4() {
        Some(v4) => {
            lemma_v4_is_value(v4);
            lemma_values_in_a_row("::ffff:"@, v4.text());
        },
        None => {
            let s = ip.spec_segments();
            let at = longest_zero_run(s, 8);
            let n = zero_run(s, at);
            lemma_groups_are_value(s.subrange(0, at));
            lemma_groups_are_value(s.subrange(at + n, 8));
            lemma_groups_are_value(s.subrange(0, 8));
            lemma_values_in_a_row(groups_text(s.subrange(0, at)), "::"@);
            lemma_values_in_a_row(
                groups_text(s.subrange(0, at)) + "::"@,
                groups_text(s.subrange(at + n, 8)),
            );
        },
    }
}

proof fn lemma_address_is_value(ip: IpAddr)
    ensures
        field_value(ip.text()),
        field_value("for="@ + forwarded_value(ip.text())),
{
    reveal_strlit("for=");
    reveal_strlit("\"[");
    reveal_strlit("]\"");
    match ip {
        IpAddr::V4(v4) => lemma_v4_is_value(v4),
        IpAddr::V6(v6) => lemma_v6_is_value(v6),
    }
    lemma_values_in_a_row("\"["@, ip.text());
    lemma_values_in_a_row("\"["@ + ip.text(), "]\""@);
    lemma_values_in_a_row("for="@, forwarded_value(ip.text()));
}

/// What tells the upstream the client's address.
pub open spec fn client_ip_changes(ip: IpAddr) -> Seq<FieldChange> {
    seq![
        FieldChange::Append("X-Forwarded-For"@, ip.text()),
        FieldChange::Insert("X-Real-IP"@, ip.text()),
        FieldChange::Append("Forwarded"@, "for="@ + forwarded_value(ip.text())),
    ]
}

/// The failure of a request that does not take a header.
pub open spec fn header_refused() -> ProxyError {
    ProxyError { kind: ErrorKind::Unlisted, source: ErrorSource::Unset }
}

fn refused() -> (r: Result<(), ProxyError>)
    ensures
        r == Err::<(), ProxyError>(header_refused()),
{
    Err(ProxyError { kind: ErrorKind::Unlisted, source: ErrorSource::Unset })
}

/// Puts a value in place of all values under a name. With few names only a name
/// or value that is not allowed is refused. With very many the old values are
/// taken out first, and the new one is refused where there is no room for it.
fn put_field(request: &mut RequestHeader, name: String, value: String) -> (ok: bool)
    ensures
        ok ==> field_name(name@) && field_value(value@),
        field_name(name@) && field_value(value@) && few_names(request_fields(*old(request)), 1)
            ==> ok,
        request_fields(*final(request)) == (if ok {
            with_inserted(request_fields(*old(request)), name@, value@)
        } else if field_name(name@) && field_value(value@) {
            request_fields(*old(request)).remove(lower(name@))
        } else {
            request_fields(*old(request))
        }),
        request_target(*final(request)) == request_target(*old(request)),
{
    if count_request_names(request) < MOST_NAMES {
        return insert_request_header(request, name, value);
    }
    if !is_field_name(&name) || !is_field_value(&value) {
        return false;
    }
    let ghost f0 = request_fields(*request);
    let ghost key = lower(name@);
    let ghost text = value@;
    remove_request_header(request, &name);
    let ok: bool = append_request_header(request, name, value);
    proof {
        let bytes = encode_utf8(text);
        assert(Seq::<Seq<u8>>::empty().push(bytes) =~= seq![bytes]);
        assert(f0.remove(key).insert(key, seq![bytes]) =~= f0.insert(key, seq![bytes]));
    }
    ok
}

/// Tells the upstream the client's address.
pub fn apply_client_ip_headers(upstream_request: &mut RequestHeader, client_ip: IpAddr) -> (r:
    Result<(), ProxyError>)
    ensures
        few_names(request_fields(*old(upstream_request)), 3) ==> r is Ok,
        match r {
            Ok(_) => request_fields(*final(upstream_request)) == after_changes(
                request_fields(*old(upstream_request)),
                client_ip_changes(client_ip),
            ),
            Err(e) => e == header_refused(),
        },
        request_target(*final(upstream_request)) == request_target(*old(upstream_request)),
{
    let ip = client_ip.to_text();
    let forwarded = "for=".to_owned().concat(&forwarded_for_value(&ip));
    let ghost f0 = request_fields(*upstream_request);
    let ghost changes = client_ip_changes(client_ip);
    proof {
        reveal_strlit("X-Forwarded-For");
        reveal_strlit("X-Real-IP");
        reveal_strlit("Forwarded");
        lemma_address_is_value(client_ip);
        lemma_client_ip_changes(f0, client_ip, 0);
    }
    if !append_request_header(upstream_request, "X-Forwarded-For".to_owned(), ip.clone()) {
        return refused();
    }
    if !put_field(upstream_request, "X-Real-IP".to_owned(), ip) {
        return refused();
    }
    if !append_request_header(upstream_request, "Forwarded".to_owned(), forwarded) {
        return refused();
    }
    Ok(())
}

/// What the changes that tell the client's address come to, one after the
/// other, and how much room they leave.
pub(crate) proof fn lemma_client_ip_changes(fields: Fields, ip: IpAddr, more: nat)
    ensures
        ({
            let changes = client_ip_changes(ip);
            let one = changes[0].applied(fields);
            let two = changes[1].applied(one);
            let three = changes[2].applied(two);
            &&& after_changes(fields, changes) == three
            &&& few_names(fields, more + 3) ==> few_names(one, more + 2) && few_names(two, more + 1)
                && few_names(three, more)
        }),
{
    let changes = client_ip_changes(ip);
    let one = changes[0].applied(fields);
    let two = changes[1].applied(one);
    if few_names(fields, more + 3) {
        lemma_one_name_more(fields, changes[0], more + 2);
        lemma_one_name_more(one, changes[1], more + 1);
        lemma_one_name_more(two, changes[2], more);
    }
    assert(changes.drop_last() =~= seq![changes[0], changes[1]]);
    assert(changes.drop_last().drop_last() =~= seq![changes[0]]);
    assert(changes.drop_last().drop_last().drop_last() =~= Seq::empty());
    assert(after_changes(fields, changes.drop_last().drop_last().drop_last()) == fields);
    assert(after_changes(fields, changes.drop_last().drop_last()) == one);
    assert(after_changes(fields, changes.drop_last()) == two);
}

/// What adds a configured header.
pub open spec fn configured_change(
    header: ProxyRequestHeader,
    mode: ProxyHeaderConflictMode,
) -> FieldChange {
    match mode {
        ProxyHeaderConflictMode::Replace => FieldChange::Insert(header.name@, header.value@),
        ProxyHeaderConflictMode::Append => FieldChange::Append(header.name@, header.value@),
    }
}

/// What adds the configured headers, in order.
pub open spec fn configured_changes(
    headers: Seq<ProxyRequestHeader>,
    mode: ProxyHeaderConflictMode,
) -> Seq<FieldChange> {
    headers.map_values(|h: ProxyRequestHeader| configured_change(h, mode))
}

/// Adds the configured headers, up to the first one that is not allowed. Where
/// there are very many names, one for which there is no room ends it too.
pub fn apply_configured_headers(
    upstream_request: &mut RequestHeader,
    headers: &Vec<ProxyRequestHeader>,
    mode: ProxyHeaderConflictMode,
) -> (r: Result<(), ProxyError>)
    ensures
        ({
            let changes = configured_changes(headers@, mode);
            let n = allowed_until(changes, 0);
            let before = request_fields(*old(upstream_request));
            let after = request_fields(*final(upstream_request));
            &&& match r {
                Ok(_) => n == changes.len() && after == after_changes(before, changes),
                Err(e) => e == header_refused(),
            }
            &&& few_names(before, headers@.len()) ==> (r is Ok <==> n == changes.len()) && after
                == after_changes(before, changes.take(n))
        }),
        request_target(*final(upstream_request)) == request_target(*old(upstream_request)),
{
    let ghost f0 = request_fields(*upstream_request);
    let ghost t0 = request_target(*upstream_request);
    let ghost changes = configured_changes(headers@, mode);
    let n: usize = headers.len();
    assert(changes.take(0) =~= Seq::empty());
    for i in 0..n
        invariant
            n == headers@.len(),
            changes == configured_changes(headers@, mode),
            f0 == request_fields(*old(upstream_request)),
            t0 == request_target(*old(upstream_request)),
            allowed_until(changes, 0) == allowed_until(changes, i as int),
            request_fields(*upstream_request) == after_changes(f0, changes.take(i as int)),
            request_target(*upstream_request) == t0,
            few_names(f0, n as nat) ==> few_names(
                request_fields(*upstream_request),
                (n - i) as nat,
            ),
    {
        let name = headers[i].name.clone();
        let value = headers[i].value.clone();
        proof {
            assert(changes.take(i + 1).drop_last() =~= changes.take(i as int));
            assert(changes[i as int] == configured_change(headers@[i as int], mode));
            if few_names(f0, n as nat) {
                lemma_one_name_more(
                    request_fields(*upstream_request),
                    changes[i as int],
                    (n - i - 1) as nat,
                );
            }
        }
        let taken: bool = match mode {
            ProxyHeaderConflictMode::Replace => put_field(upstream_request, name, value),
            ProxyHeaderConflictMode::Append => append_request_header(upstream_request, name, value),
        };
        if !taken {
            return refused();
        }
    }
    assert(changes.take(n as int) =~= changes);
    Ok(())
}

/// A status code, or 500 in place of a number that is none.
pub open spec fn proper_status(code: u16) -> u16 {
    if 100 <= code <= 999 {
        code
    } else {
        500
    }
}

pub fn normalize_status_code(code: u16) -> (r: u16)
    ensures
        r == proper_status(code),
{
    if is_status_code(code) {
        code
    } else {
        500
    }
}

/// The failure of a response that could not be made.
pub open spec fn response_refused() -> ProxyError {
    ProxyError { kind: ErrorKind::InvalidHttpHeader, source: ErrorSource::Internal }
}

fn no_response() -> (r: ProxyError)
    ensures
        r == response_refused(),
{
    ProxyError { kind: ErrorKind::InvalidHttpHeader, source: ErrorSource::Internal }
}

/// The fields of a response with a body of the given length and one more field,
/// which is not to be kept.
pub open spec fn own_response_fields(body_len: usize, name: Seq<char>, value: Seq<char>) -> Fields {
    after_changes(
        no_fields(),
        seq![
            FieldChange::Insert("content-length"@, decimal(body_len as nat)),
            FieldChange::Insert(name, value),
            FieldChange::Insert("Cache-Control"@, "private, no-store"@),
        ],
    )
}

/// A response with a body of the given length and one more field, which is not
/// to be kept.
fn build_own_response(status: u16, body_len: usize, name: &str, value: &str) -> (r: Result<
    ResponseHeader,
    ProxyError,
>)
    requires
        100 <= status <= 999,
        field_name(name@),
    ensures
        match r {
            Ok(response) => field_value(value@) && response_status(response) == status
                && response_fields(response) == own_response_fields(body_len, name@, value@),
            Err(e) => !field_value(value@) && e == response_refused(),
        },
{
    proof {
        reveal_strlit("Cache-Control");
        reveal_strlit("private, no-store");
        let changes = seq![
            FieldChange::Insert("content-length"@, decimal(body_len as nat)),
            FieldChange::Insert(name@, value@),
            FieldChange::Insert("Cache-Control"@, "private, no-store"@),
        ];
        let f0 = no_fields();
        let one = changes[0].applied(f0);
        let two = changes[1].applied(one);
        assert(few_names(f0, 3));
        lemma_one_name_more(f0, changes[0], 2);
        lemma_one_name_more(one, changes[1], 1);
        assert(changes.drop_last() =~= seq![changes[0], changes[1]]);
        assert(changes.drop_last().drop_last() =~= seq![changes[0]]);
        assert(changes.drop_last().drop_last().drop_last() =~= Seq::empty());
        assert(after_changes(f0, changes.drop_last().drop_last().drop_last()) == f0);
        assert(after_changes(f0, changes.drop_last().drop_last()) == one);
        assert(after_changes(f0, changes.drop_last()) == two);
    }
    let mut response = match new_response(status) {
        Some(response) => response,
        None => {
            return Err(no_response());
        },
    };
    if !set_response_length(&mut response, body_len) {
        return Err(no_response());
    }
    if !insert_response_header(&mut response, name.to_owned(), value.to_owned()) {
        return Err(no_response());
    }
    if !insert_response_header(
        &mut response,
        "Cache-Control".to_owned(),
        "private, no-store".to_owned(),
    ) {
        return Err(no_response());
    }
    Ok(response)
}

/// The head of an error response: plain text that is not to be kept.
pub fn build_gateway_error_response_header(status_code: u16, body_len: usize) -> (r: Result<
    ResponseHeader,
    ProxyError,
>)
    ensures
        r matches Ok(response) && response_status(response) == proper_status(status_code)
            && response_fields(response) == own_response_fields(
            body_len,
            "Content-Type"@,
            "text/plain; charset=utf-8"@,
        ),
{
    proof {
        reveal_strlit("Content-Type");
        reveal_strlit("text/plain; charset=utf-8");
    }
    build_own_response(
        normalize_status_code(status_code),
        body_len,
        "Content-Type",
        "text/plain; charset=utf-8",
    )
}

/// The head of a redirect: where to, without a body. A location with a control
/// character cannot be written.
pub fn build_redirect_response_header(location: &str) -> (r: Result<ResponseHeader, ProxyError>)
    ensures
        match r {
            Ok(response) => field_value(location@) && response_status(response) == 308
                && response_fields(response) == own_response_fields(0, "Location"@, location@),
            Err(e) => !field_value(location@) && e == response_refused(),
        },
{
    proof {
        reveal_strlit("Location");
    }
    build_own_response(308, 0, "Location", location)
}

/// A configured header that replaces is the only one under its name, whatever
/// the client sent, unless a later one has the same name.
pub proof fn law_replaced_header_is_alone(
    fields: Fields,
    headers: Seq<ProxyRequestHeader>,
    i: int,
)
    requires
        0 <= i < headers.len(),
        forall|k: int|
            i < k < headers.len() ==> lower((#[trigger] headers[k]).name@) != lower(
                headers[i].name@,
            ),
    ensures
        ({
            let after = after_changes(
                fields,
                configured_changes(headers, ProxyHeaderConflictMode::Replace),
            );
            values_under(after, lower(headers[i].name@)) == seq![encode_utf8(headers[i].value@)]
        }),
    decreases headers.len(),
{
    let mode = ProxyHeaderConflictMode::Replace;
    let front = headers.drop_last();
    assert(configured_changes(headers, mode).drop_last() =~= configured_changes(front, mode));
    assert(configured_changes(headers, mode).last() == configured_change(headers.last(), mode));
    if i < headers.len() - 1 {
        assert(front[i] == headers[i]);
        assert(headers[headers.len() - 1] == headers.last());
        assert forall|k: int| i < k < front.len() implies lower((#[trigger] front[k]).name@)
            != lower(front[i].name@) by {
            assert(front[k] == headers[k]);
        }
        law_replaced_header_is_alone(fields, front, i);
    }
}

/// An appended header keeps what the client sent in front of it.
pub proof fn law_appended_header_keeps_others(fields: Fields, header: ProxyRequestHeader)
    ensures
        values_under(
            configured_change(header, ProxyHeaderConflictMode::Append).applied(fields),
            lower(header.name@),
        ) == values_under(fields, lower(header.name@)).push(encode_utf8(header.value@)),
{
}

/// Where every configured header is allowed, all of them are added.
pub proof fn law_allowed_headers_are_added(
    headers: Seq<ProxyRequestHeader>,
    mode: ProxyHeaderConflictMode,
)
    requires
        forall|i: int|
            0 <= i < headers.len() ==> field_name((#[trigger] headers[i]).name@) && field_value(
                headers[i].value@,
            ),
    ensures
        allowed_until(configured_changes(headers, mode), 0) == headers.len(),
{
    lemma_all_allowed(configured_changes(headers, mode), 0);
}

proof fn lemma_all_allowed(changes: Seq<FieldChange>, i: int)
    requires
        0 <= i <= changes.len(),
        forall|k: int| 0 <= k < changes.len() ==> (#[trigger] changes[k]).allowed(),
    ensures
        allowed_until(changes, i) == changes.len(),
    decreases changes.len() - i,
{
    if i < changes.len() {
        lemma_all_allowed(changes, i + 1);
    }
}

/// The configured headers with a name, letter case aside.
pub open spec fn headers_named(headers: Seq<ProxyRequestHeader>, key: Seq<char>) -> Seq<
    ProxyRequestHeader,
> {
    headers.filter(|h: ProxyRequestHeader| lower(h.name@) == key)
}

/// What stands under a name once the configured headers are added: where they
/// are appended, the values from before and then theirs, in order; where they
/// replace, the value of the last one of that name, and what was there before
/// where none has the name.
pub proof fn law_configured_headers_of_a_name(
    fields: Fields,
    headers: Seq<ProxyRequestHeader>,
    key: Seq<char>,
)
    ensures
        values_under(
            after_changes(fields, configured_changes(headers, ProxyHeaderConflictMode::Append)),
            key,
        ) == values_under(fields, key) + headers_named(headers, key).map_values(
            |h: ProxyRequestHeader| encode_utf8(h.value@),
        ),
        values_under(
            after_changes(fields, configured_changes(headers, ProxyHeaderConflictMode::Replace)),
            key,
        ) == if headers_named(headers, key).len() == 0 {
            values_under(fields, key)
        } else {
            seq![encode_utf8(headers_named(headers, key).last().value@)]
        },
    decreases headers.len(),
{
    reveal(Seq::filter);
    let named = headers_named(headers, key);
    let value = |h: ProxyRequestHeader| encode_utf8(h.value@);
    let append = configured_changes(headers, ProxyHeaderConflictMode::Append);
    let replace = configured_changes(headers, ProxyHeaderConflictMode::Replace);
    if headers.len() == 0 {
        assert(values_under(fields, key) + named.map_values(value) =~= values_under(fields, key));
    } else {
        let less = headers.drop_last();
        let before = headers_named(less, key);
        law_configured_headers_of_a_name(fields, less, key);
        assert(append.drop_last() =~= configured_changes(less, ProxyHeaderConflictMode::Append));
        assert(replace.drop_last() =~= configured_changes(less, ProxyHeaderConflictMode::Replace));
        if lower(headers.last().name@) == key {
            assert(named =~= before.push(headers.last()));
            assert(values_under(fields, key) + named.map_values(value) =~= (values_under(
                fields,
                key,
            ) + before.map_values(value)).push(encode_utf8(headers.last().value@)));
        } else {
            assert(named =~= before);
        }
    }
}

/// The client's address stands alone under `x-real-ip`, and behind what was
/// there before under `x-forwarded-for` and, marked as such, under
/// `forwarded`; every other field stays.
pub proof fn law_client_ip_is_told(fields: Fields, ip: IpAddr, key: Seq<char>)
    ensures
        ({
            let after = after_changes(fields, client_ip_changes(ip));
            &&& values_under(after, "x-real-ip"@) == seq![encode_utf8(ip.text())]
            &&& values_under(after, "x-forwarded-for"@) == values_under(
                fields,
                "x-forwarded-for"@,
            ).push(encode_utf8(ip.text()))
            &&& values_under(after, "forwarded"@) == values_under(fields, "forwarded"@).push(
                encode_utf8("for="@ + forwarded_value(ip.text())),
            )
            &&& key != "x-real-ip"@ && key != "x-forwarded-for"@ && key != "forwarded"@
                ==> values_under(after, key) == values_under(fields, key)
        }),
{
    reveal_strlit("X-Forwarded-For");
    reveal_strlit("X-Real-IP");
    reveal_strlit("Forwarded");
    reveal_strlit("x-forwarded-for");
    reveal_strlit("x-real-ip");
    reveal_strlit("forwarded");
    assert(lower("X-Forwarded-For"@) =~= "x-forwarded-for"@);
    assert(lower("X-Real-IP"@) =~= "x-real-ip"@);
    assert(lower("Forwarded"@) =~= "forwarded"@);
    assert("x-forwarded-for"@.len() == 15 && "x-real-ip"@.len() == 9);
    assert("x-real-ip"@[0] == 'x' && "forwarded"@[0] == 'f');
    reveal_with_fuel(after_changes, 4);
    let changes = client_ip_changes(ip);
    assert(changes.drop_last().drop_last().drop_last() =~= Seq::empty());
}

/// An address with a colon in it goes in brackets and quotes into the standard
/// forwarding header, and any other as it is.
pub proof fn law_colons_are_quoted(ip: Seq<char>)
    ensures
        ip.contains(':') ==> forwarded_value(ip) == seq!['"', '['] + ip + seq![']', '"'],
        !ip.contains(':') ==> forwarded_value(ip) == ip,
{
    reveal_strlit("\"[");
    reveal_strlit("]\"");
    assert("\"["@ =~= seq!['"', '[']);
    assert("]\""@ =~= seq![']', '"']);
}

/// Headers are added up to the first one that a message cannot take.
pub proof fn law_headers_up_to_the_first_refused(changes: Seq<FieldChange>, i: int)
    requires
        0 <= i <= changes.len(),
    ensures
        ({
            let n = allowed_until(changes, i);
            &&& i <= n <= changes.len()
            &&& forall|k: int|
                i <= k < n ==> match #[trigger] changes[k] {
                    FieldChange::Insert(name, value) => field_name(name) && field_value(value),
                    FieldChange::Append(name, value) => field_name(name) && field_value(value),
                }
            &&& n < changes.len() ==> match changes[n] {
                FieldChange::Insert(name, value) => !field_name(name) || !field_value(value),
                FieldChange::Append(name, value) => !field_name(name) || !field_value(value),
            }
        }),
    decreases changes.len() - i,
{
    if i < changes.len() && changes[i].allowed() {
        law_headers_up_to_the_first_refused(changes, i + 1);
    }
}

/// A response of the gateway's own tells the length of its body and that it is
/// not to be kept.
pub proof fn law_own_response_fields(
    body_len: usize,
    name: Seq<char>,
    value: Seq<char>,
)
    requires
        lower(name) != "content-length"@,
        lower(name) != "cache-control"@,
    ensures
        ({
            let fields = own_response_fields(body_len, name, value);
            &&& values_under(fields, "content-length"@) == seq![
                encode_utf8(decimal(body_len as nat)),
            ]
            &&& values_under(fields, "cache-control"@) == seq![encode_utf8("private, no-store"@)]
            &&& values_under(fields, lower(name)) == seq![encode_utf8(value)]
        }),
{
    reveal_strlit("content-length");
    reveal_strlit("Cache-Control");
    reveal_strlit("cache-control");
    assert(lower("content-length"@) =~= "content-length"@);
    assert(lower("Cache-Control"@) =~= "cache-control"@);
    assert("content-length"@.len() == 14 && "cache-control"@.len() == 13);
    let changes = seq![
        FieldChange::Insert("content-length"@, decimal(body_len as nat)),
        FieldChange::Insert(name, value),
        FieldChange::Insert("Cache-Control"@, "private, no-store"@),
    ];
    reveal_with_fuel(after_changes, 4);
    assert(changes.drop_last().drop_last().drop_last() =~= Seq::empty());
}

/// A number that is no status code is answered as 500.
pub proof fn law_status_codes_have_three_digits(code: u16)
    ensures
        100 <= code <= 999 ==> proper_status(code) == code,
        !(100 <= code <= 999) ==> proper_status(code) == 500,
{
}

} // verus!
