//! What the gateway passes on, in both directions, and what it answers itself.

use http::HeaderMap;
use vstd::prelude::*;
use vstd::utf8::encode_utf8;

use crate::config::{
    law_base_is_slashless_prefix, law_trailing_slashes_ignored, law_version_suffix_ignored, normalized, RuntimeConfig,
};
use crate::headers::{
    as_text, first_value, has_header, header_fields, header_list, is_header_name, is_header_value, is_visible,
    lemma_fields_finite, lemma_plain_name, lemma_values_append, lists_fields, no_headers, read_header_name,
    read_header_text, read_header_value, read_status, set_header, value_text, values_of, Fields, NAMES_WITH_ROOM,
};
use crate::json::{
    first_is_true, is_true, lemma_listed_member, member_is_true, member_texts, nested_object_text, object_flags,
    read_object, write_nested_object,
};
use crate::text::{
    begins_with_case_of, ends_with, is_case_of, is_white_space, law_affixes_agree_throughout,
    law_only_capital_letters_change, law_trimming_takes_all_white_space, law_trimming_takes_the_whole_run,
    lemma_trim_end_run, lemma_trim_white_around, lowercase, starts_with, trim_end, trim_end_of, trim_white, trim_white_of,
};

verus! {

/// The largest request body that the gateway reads, in bytes.
pub const MAX_BODY_SIZE: usize = 10 * 1024 * 1024;

/// The header names that concern one connection only.
pub open spec fn hop_by_hop_names() -> Seq<Seq<char>> {
    seq![
        "connection"@,
        "keep-alive"@,
        "proxy-authenticate"@,
        "proxy-authorization"@,
        "te"@,
        "trailers"@,
        "transfer-encoding"@,
        "upgrade"@,
    ]
}

/// The names of request headers that the gateway's own request sets anew.
pub open spec fn request_only_names() -> Seq<Seq<char>> {
    seq!["host"@, "content-length"@]
}

/// `name`, in whatever case, concerns one connection only.
pub open spec fn hop_by_hop(name: Seq<char>) -> bool {
    hop_by_hop_names().contains(lowercase(name))
}

/// `name`, in whatever case, is not passed on with a request.
pub open spec fn request_drop(name: Seq<char>) -> bool {
    hop_by_hop(name) || request_only_names().contains(lowercase(name))
}

/// Whether a header concerns one connection only.
pub fn is_hop_by_hop(name: &str) -> (r: bool)
    ensures
        r == hop_by_hop(name@),
        r == ({
            let lower = lowercase(name@);
            ||| lower == "connection"@
            ||| lower == "keep-alive"@
            ||| lower == "proxy-authenticate"@
            ||| lower == "proxy-authorization"@
            ||| lower == "te"@
            ||| lower == "trailers"@
            ||| lower == "transfer-encoding"@
            ||| lower == "upgrade"@
        }),
{
    let r = is_case_of(name, "connection") || is_case_of(name, "keep-alive") || is_case_of(
        name,
        "proxy-authenticate",
    ) || is_case_of(name, "proxy-authorization") || is_case_of(name, "te") || is_case_of(
        name,
        "trailers",
    ) || is_case_of(name, "transfer-encoding") || is_case_of(name, "upgrade");
    proof {
        let names = hop_by_hop_names();
        let lower = lowercase(name@);
        assert(names[0] == "connection"@ && names[1] == "keep-alive"@);
        assert(names[2] == "proxy-authenticate"@ && names[3] == "proxy-authorization"@);
        assert(names[4] == "te"@ && names[5] == "trailers"@);
        assert(names[6] == "transfer-encoding"@ && names[7] == "upgrade"@);
        if names.contains(lower) {
            let i = choose|i: int| 0 <= i < names.len() && names[i] == lower;
            assert(names[i] == lower);
        }
    }
    r
}

/// Whether a request header is not passed on.
pub fn is_request_drop(name: &str) -> (r: bool)
    ensures
        r == request_drop(name@),
        r == ({
            let lower = lowercase(name@);
            ||| lower == "host"@
            ||| lower == "content-length"@
            ||| lower == "connection"@
            ||| lower == "keep-alive"@
            ||| lower == "proxy-authenticate"@
            ||| lower == "proxy-authorization"@
            ||| lower == "te"@
            ||| lower == "trailers"@
            ||| lower == "transfer-encoding"@
            ||| lower == "upgrade"@
        }),
{
    let extra = is_case_of(name, "host") || is_case_of(name, "content-length");
    proof {
        let names = request_only_names();
        let lower = lowercase(name@);
        assert(names[0] == "host"@ && names[1] == "content-length"@);
        if names.contains(lower) {
            let i = choose|i: int| 0 <= i < names.len() && names[i] == lower;
            assert(names[i] == lower);
        }
    }
    is_hop_by_hop(name) || extra
}

/// The direction in which headers pass through the gateway.
#[derive(Debug, Clone, Copy, PartialEq, Eq, Structural)]
pub enum Direction {
    ToUpstream,
    ToClient,
}

/// Headers of this name are not passed on in this direction.
pub open spec fn held_back(name: Seq<char>, direction: Direction) -> bool {
    match direction {
        Direction::ToUpstream => request_drop(name),
        Direction::ToClient => hop_by_hop(name),
    }
}

/// The values that are passed on if their name is.
pub open spec fn usable(values: Seq<Seq<u8>>) -> Seq<Seq<u8>> {
    values.filter(|value: Seq<u8>| is_header_value(value))
}

/// What is passed on of `values`, the values of a name that passes: the last
/// one that is usable.
pub open spec fn carried_values(values: Seq<Seq<u8>>) -> Seq<Seq<u8>> {
    seq![usable(values).last()]
}

/// A field passes: it is not held back, it is well formed, and one of its values
/// is usable.
pub open spec fn passes(name: Seq<char>, values: Seq<Seq<u8>>, direction: Direction) -> bool {
    &&& !held_back(name, direction)
    &&& is_header_name(name)
    &&& usable(values).len() > 0
}

/// The fields that pass, each with its last usable value.
pub open spec fn carried(fields: Fields, direction: Direction) -> Fields {
    Map::new(
        |name: Seq<char>| fields.contains_key(name) && passes(name, fields[name], direction),
        |name: Seq<char>| carried_values(fields[name]),
    )
}

/// A header map would have to hold more names than it can.
#[derive(Debug, Clone, Copy, PartialEq, Eq, Structural)]
pub struct TooManyHeaders;

/// The fields that pass of those in `list`.
spec fn carried_of(list: Seq<(String, Vec<u8>)>, direction: Direction) -> Fields {
    Map::new(
        |name: Seq<char>| passes(name, values_of(list, name), direction),
        |name: Seq<char>| carried_values(values_of(list, name)),
    )
}

proof fn lemma_usable_push(values: Seq<Seq<u8>>, value: Seq<u8>)
    ensures
        usable(values.push(value)) == (if is_header_value(value) {
            usable(values).push(value)
        } else {
            usable(values)
        }),
{
    reveal(Seq::filter);
    assert(values.push(value).drop_last() =~= values);
}

/// One more entry of the list.
proof fn lemma_carried_step(list: Seq<(String, Vec<u8>)>, i: int, direction: Direction)
    requires
        0 <= i < list.len(),
        lowercase(list[i].0@) == list[i].0@,
    ensures
        ({
            let name = list[i].0@;
            let value = list[i].1@;
            carried_of(list.take(i + 1), direction) == (if !held_back(name, direction)
                && is_header_name(name) && is_header_value(value) {
                carried_of(list.take(i), direction).insert(name, seq![value])
            } else {
                carried_of(list.take(i), direction)
            })
        }),
{
    let name = list[i].0@;
    let value = list[i].1@;
    let before = list.take(i);
    let after = list.take(i + 1);
    assert(after.drop_last() =~= before);
    assert forall|n: Seq<char>| #[trigger] values_of(after, n) == (if n == name {
        values_of(before, n).push(value)
    } else {
        values_of(before, n)
    }) by {}
    lemma_usable_push(values_of(before, name), value);
    let left = carried_of(after, direction);
    let right = if !held_back(name, direction) && is_header_name(name) && is_header_value(value) {
        carried_of(before, direction).insert(name, seq![value])
    } else {
        carried_of(before, direction)
    };
    assert(left =~= right);
}

/// The whole list.
proof fn lemma_carried_all(list: Seq<(String, Vec<u8>)>, fields: Fields, direction: Direction)
    requires
        lists_fields(list, fields),
    ensures
        carried_of(list, direction) == carried(fields, direction),
{
    reveal(Seq::filter);
    assert forall|name: Seq<char>| values_of(list, name).len() == 0 implies #[trigger] usable(
        values_of(list, name),
    ).len() == 0 by {}
    assert(carried_of(list, direction) =~= carried(fields, direction));
}

/// A beginning of the list carries no more names than the whole.
proof fn lemma_carried_bound(
    list: Seq<(String, Vec<u8>)>,
    fields: Fields,
    i: int,
    direction: Direction,
)
    requires
        lists_fields(list, fields),
        0 <= i <= list.len(),
    ensures
        carried_of(list.take(i), direction).dom().len() <= carried(
            fields,
            direction,
        ).dom().len(),
{
    lemma_fields_finite(list, fields);
    lemma_carried_all(list, fields, direction);
    let some = carried_of(list.take(i), direction).dom();
    let all = carried(fields, direction).dom();
    assert forall|name: Seq<char>| some.contains(name) implies all.contains(name) by {
        let first = values_of(list.take(i), name);
        let rest = values_of(list.skip(i), name);
        assert(list =~= list.take(i) + list.skip(i));
        lemma_values_append(list.take(i), list.skip(i), name);
        Seq::filter_distributes_over_add(first, rest, |value: Seq<u8>| is_header_value(value));
        assert(usable(first + rest) == usable(first) + usable(rest));
    }
    assert(all.subset_of(fields.dom()));
    vstd::set_lib::lemma_set_subset_finite(fields.dom(), all);
    vstd::set_lib::lemma_len_subset(some, all);
}

/// The headers that pass in this direction.
fn carry(headers: &HeaderMap, direction: Direction) -> (r: Result<HeaderMap, TooManyHeaders>)
    ensures
        r matches Ok(out) ==> header_fields(out) == carried(header_fields(*headers), direction),
        r is Err ==> carried(header_fields(*headers), direction).dom().len()
            >= NAMES_WITH_ROOM,
{
    let list = header_list(headers);
    let ghost fields = header_fields(*headers);
    let mut out = no_headers();
    proof {
        reveal(Seq::filter);
        assert(list@.take(0) =~= Seq::empty());
        assert(carried_of(list@.take(0), direction) =~= Fields::empty());
    }
    let mut i: usize = 0;
    while i < list.len()
        invariant
            i <= list.len(),
            lists_fields(list@, fields),
            fields == header_fields(*headers),
            header_fields(out) == carried_of(list@.take(i as int), direction),
        decreases list.len() - i,
    {
        let name = list[i].0.as_str();
        let held = match direction {
            Direction::ToUpstream => is_request_drop(name),
            Direction::ToClient => is_hop_by_hop(name),
        };
        proof {
            lemma_carried_step(list@, i as int, direction);
        }
        if !held {
            if let Ok(n) = read_header_name(name) {
                if let Ok(v) = read_header_value(list[i].1.as_slice()) {
                    proof {
                        lemma_carried_bound(list@, fields, i as int, direction);
                    }
                    if set_header(&mut out, n.as_str(), v.as_slice()).is_err() {
                        return Err(TooManyHeaders);
                    }
                }
            }
        }
        i = i + 1;
    }
    proof {
        assert(list@.take(i as int) =~= list@);
        lemma_carried_all(list@, fields, direction);
    }
    Ok(out)
}

/// The text of the credentials that the gateway itself presents: those of its
/// key, where that is more than white space.
pub open spec fn credentials(key: Option<Seq<char>>) -> Option<Seq<char>> {
    match key {
        Some(k) => if trim_white(k).len() > 0 {
            Some("Bearer "@ + trim_white(k))
        } else {
            None
        },
        None => None,
    }
}

/// The key of a configuration.
pub open spec fn key_of(key: Option<String>) -> Option<Seq<char>> {
    match key {
        Some(k) => Some(k@),
        None => None,
    }
}

/// The credentials that the gateway itself presents.
pub fn bearer_credentials(key: &Option<String>) -> (r: Option<String>)
    ensures
        key_of(r) == credentials(key_of(*key)),
{
    match key {
        Some(k) => {
            let trimmed = trim_white_of(k.as_str());
            if trimmed.is_empty() {
                None
            } else {
                let mut text = "Bearer ".to_owned();
                text.append(trimmed);
                Some(text)
            }
        },
        None => None,
    }
}

/// The fields of the request that goes upstream: those that pass, with the
/// gateway's credentials where no credentials pass.
pub open spec fn request_fields(fields: Fields, key: Option<Seq<char>>) -> Fields {
    let passed = carried(fields, Direction::ToUpstream);
    match credentials(key) {
        Some(text) => if !passed.contains_key("authorization"@) && is_header_value(
            encode_utf8(text),
        ) {
            passed.insert("authorization"@, seq![encode_utf8(text)])
        } else {
            passed
        },
        None => passed,
    }
}

/// The headers of the request that goes upstream.
pub fn filter_request_headers(headers: &HeaderMap, config: &RuntimeConfig) -> (r: Result<
    HeaderMap,
    TooManyHeaders,
>)
    ensures
        r matches Ok(out) ==> header_fields(out) == request_fields(
            header_fields(*headers),
            key_of(config.openai_api_key),
        ),
        r is Err ==> carried(header_fields(*headers), Direction::ToUpstream).dom().len()
            >= NAMES_WITH_ROOM,
        r is Err ==> carried(header_fields(*headers), Direction::ToUpstream).dom().len() >= 6554,
{
    proof {
        reveal_strlit("authorization");
        lemma_plain_name("authorization"@);
    }
    let mut out = carry(headers, Direction::ToUpstream)?;
    if !has_header(&out, "authorization") {
        if let Some(text) = bearer_credentials(&config.openai_api_key) {
            if let Ok(value) = read_header_text(text.as_str()) {
                if set_header(&mut out, "authorization", value.as_slice()).is_err() {
                    return Err(TooManyHeaders);
                }
            }
        }
    }
    Ok(out)
}

/// The headers of the answer that goes to the client.
pub fn filter_response_headers(headers: &HeaderMap) -> (r: Result<HeaderMap, TooManyHeaders>)
    ensures
        r matches Ok(out) ==> header_fields(out) == carried(
            header_fields(*headers),
            Direction::ToClient,
        ),
        r is Err ==> carried(header_fields(*headers), Direction::ToClient).dom().len()
            >= NAMES_WITH_ROOM,
        r is Err ==> carried(header_fields(*headers), Direction::ToClient).dom().len() >= 6554,
{
    carry(headers, Direction::ToClient)
}

/// The fields announce a stream of server-sent events: the first content type
/// is text that begins with `text/event-stream`, in whatever case.
pub open spec fn announces_events(fields: Fields) -> bool {
    &&& fields.contains_key("content-type"@)
    &&& is_visible(fields["content-type"@][0])
    &&& starts_with(lowercase(as_text(fields["content-type"@][0])), "text/event-stream"@)
}

/// Whether the headers announce a stream of server-sent events.
pub fn is_sse_content_type(headers: &HeaderMap) -> (r: bool)
    ensures
        r == announces_events(header_fields(*headers)),
        r == ({
            let fields = header_fields(*headers);
            &&& fields.contains_key("content-type"@)
            &&& is_visible(fields["content-type"@][0])
            &&& starts_with(
                lowercase(as_text(fields["content-type"@][0])),
                "text/event-stream"@,
            )
        }),
{
    proof {
        reveal_strlit("content-type");
        lemma_plain_name("content-type"@);
    }
    match first_value(headers, "content-type") {
        Some(value) => match value_text(value.as_slice()) {
            Some(text) => begins_with_case_of(text.as_str(), "text/event-stream"),
            None => false,
        },
        None => false,
    }
}

/// How a client for upstream requests is set up. `None` leaves a setting to the
/// client; times are in seconds.
#[derive(Debug, Clone, Copy, PartialEq, Eq, Structural)]
pub struct ClientSettings {
    pub connect_timeout_s: Option<u64>,
    pub read_timeout_s: Option<u64>,
    pub timeout_s: Option<u64>,
    pub pool_max_idle_per_host: Option<usize>,
    pub follow_redirects: bool,
}

/// The client for streamed answers: it waits for the next part of an answer as
/// long as that takes, and keeps no connection for later.
pub open spec fn stream_settings() -> ClientSettings {
    ClientSettings {
        connect_timeout_s: Some(10),
        read_timeout_s: None,
        timeout_s: None,
        pool_max_idle_per_host: Some(0),
        follow_redirects: false,
    }
}

/// The client for answers in one piece.
pub open spec fn non_stream_settings() -> ClientSettings {
    ClientSettings {
        connect_timeout_s: Some(10),
        read_timeout_s: Some(300),
        timeout_s: None,
        pool_max_idle_per_host: None,
        follow_redirects: false,
    }
}

/// What the gateway needs for every exchange.
#[derive(Debug, Clone)]
pub struct ProxyState {
    pub config: RuntimeConfig,
    pub stream_client: ClientSettings,
    pub non_stream_client: ClientSettings,
}

impl ProxyState {
    /// The state of a gateway with this configuration.
    pub fn new(config: RuntimeConfig) -> (state: ProxyState)
        ensures
            state.config == config,
            state.stream_client == stream_settings(),
            state.non_stream_client == non_stream_settings(),
    {
        ProxyState {
            config,
            stream_client: ClientSettings {
                connect_timeout_s: Some(10),
                read_timeout_s: None,
                timeout_s: None,
                pool_max_idle_per_host: Some(0),
                follow_redirects: false,
            },
            non_stream_client: ClientSettings {
                connect_timeout_s: Some(10),
                read_timeout_s: Some(300),
                timeout_s: None,
                pool_max_idle_per_host: None,
                follow_redirects: false,
            },
        }
    }
}

/// The client that makes a request.
#[derive(Debug, Clone, Copy, PartialEq, Eq, Structural)]
pub enum ClientKind {
    Stream,
    NonStream,
}

/// A request to the upstream server.
#[derive(Debug)]
pub struct UpstreamRequest {
    pub client: ClientKind,
    pub url: String,
    pub headers: HeaderMap,
    pub body: Vec<u8>,
}

/// The parts of a request to the upstream server.
pub struct RequestParts {
    pub client: ClientKind,
    pub url: Seq<char>,
    pub fields: Fields,
    pub body: Seq<u8>,
}

impl View for UpstreamRequest {
    type V = RequestParts;

    open spec fn view(&self) -> RequestParts {
        RequestParts {
            client: self.client,
            url: self.url@,
            fields: header_fields(self.headers),
            body: self.body@,
        }
    }
}

/// The beginning of an answer: all but its body.
#[derive(Debug)]
pub struct ResponseHead {
    pub status: u16,
    pub headers: HeaderMap,
}

/// The parts of the beginning of an answer.
pub struct HeadParts {
    pub status: u16,
    pub fields: Fields,
}

impl View for ResponseHead {
    type V = HeadParts;

    open spec fn view(&self) -> HeadParts {
        HeadParts { status: self.status, fields: header_fields(self.headers) }
    }
}

/// An answer to a client.
#[derive(Debug)]
pub struct Response {
    pub status: u16,
    pub headers: HeaderMap,
    pub body: Vec<u8>,
}

/// The parts of an answer to a client.
pub struct ResponseParts {
    pub status: u16,
    pub fields: Fields,
    pub body: Seq<u8>,
}

impl View for Response {
    type V = ResponseParts;

    open spec fn view(&self) -> ResponseParts {
        ResponseParts {
            status: self.status,
            fields: header_fields(self.headers),
            body: self.body@,
        }
    }
}

/// The numbers that are status codes.
pub open spec fn is_status(code: u16) -> bool {
    100 <= code <= 999
}

/// The members of a JSON error.
pub open spec fn error_fields(code: Seq<char>, message: Seq<char>) -> Seq<
    (Seq<char>, Option<Seq<char>>),
> {
    seq![
        ("message"@, Some(message)),
        ("type"@, Some("api_error"@)),
        ("param"@, None),
        ("code"@, Some(code)),
    ]
}

/// An answer in JSON.
pub open spec fn json_answer(status: u16, text: Seq<char>) -> ResponseParts {
    ResponseParts {
        status,
        fields: Fields::empty().insert("content-type"@, seq![encode_utf8("application/json"@)]),
        body: encode_utf8(text),
    }
}

/// An error that the gateway answers itself.
pub open spec fn error_response(status: u16, code: Seq<char>, message: Seq<char>) -> ResponseParts {
    json_answer(status, nested_object_text("error"@, error_fields(code, message)))
}

/// Visible ASCII text makes a header value.
proof fn lemma_ascii_value(s: Seq<char>)
    requires
        forall|i: int| 0 <= i < s.len() ==> ' ' <= #[trigger] s[i] && s[i] <= '~',
    ensures
        is_header_value(encode_utf8(s)),
{
    vstd::utf8::is_ascii_chars_encode_utf8(s);
}

/// The members of a JSON error.
pub fn error_members(code: &str, message: &str) -> (members: Vec<(String, Option<String>)>)
    ensures
        member_texts(members@) == error_fields(code@, message@),
{
    let mut members: Vec<(String, Option<String>)> = Vec::new();
    members.push(("message".to_owned(), Some(message.to_owned())));
    members.push(("type".to_owned(), Some("api_error".to_owned())));
    members.push(("param".to_owned(), None));
    members.push(("code".to_owned(), Some(code.to_owned())));
    assert(member_texts(members@) =~= error_fields(code@, message@));
    members
}

/// An answer with this JSON text.
pub fn json_response(status: u16, text: &str) -> (r: Response)
    requires
        is_status(status),
    ensures
        r@ == json_answer(status, text@),
{
    let mut headers = no_headers();
    proof {
        reveal_strlit("content-type");
        lemma_plain_name("content-type"@);
        reveal_strlit("application/json");
        lemma_ascii_value("application/json"@);
    }
    let set = set_header(&mut headers, "content-type", "application/json".as_bytes());
    assert(set is Ok);
    Response { status, headers, body: text.as_bytes_vec() }
}

/// An error that the gateway answers itself.
pub fn proxy_error(status: u16, code: &str, message: &str) -> (r: Response)
    requires
        is_status(status),
    ensures
        r@ == error_response(status, code@, message@),
{
    let text = write_nested_object("error", &error_members(code, message));
    json_response(status, text.as_str())
}

/// The body asks for a streamed answer: it is a JSON object with the member
/// `stream`, and that is `true`.
pub open spec fn asks_for_stream(body: Seq<u8>) -> bool {
    is_true(object_flags(body), "stream"@)
}

/// Whether the members of a request body ask for a streamed answer; `None` stands
/// for a body that is no JSON object.
pub fn wants_stream(members: &Option<Vec<(String, Option<bool>)>>) -> (r: bool)
    ensures
        r == (members matches Some(list) && first_is_true(list@, "stream"@)),
{
    match members {
        Some(list) => member_is_true(list, "stream"),
        None => false,
    }
}

/// Whether a request body asks for a streamed answer.
pub fn is_streaming(body: &[u8]) -> (r: bool)
    ensures
        r == asks_for_stream(body@),
        r == (object_flags(body@) matches Some(members) && members.contains_key("stream"@)
            && members["stream"@] == Some(true)),
{
    let members = read_object(body);
    proof {
        if members is Some {
            lemma_listed_member(members->0@, object_flags(body@)->0, "stream"@);
        }
    }
    wants_stream(&members)
}

/// The URL of a request: the endpoint under `base`, and the query of the request
/// that is passed on.
pub open spec fn responses_url(base: Seq<char>, query: Option<Seq<char>>) -> Seq<char> {
    let endpoint = trim_end(base, '/') + "/v1/responses"@;
    match query {
        Some(q) => endpoint + "?"@ + q,
        None => endpoint,
    }
}

/// A query as plain text.
pub open spec fn query_of(query: Option<&str>) -> Option<Seq<char>> {
    match query {
        Some(q) => Some(q@),
        None => None,
    }
}

/// The URL of a request to the upstream server.
pub fn upstream_url(base: &str, query: Option<&str>) -> (url: String)
    ensures
        url@ == responses_url(base@, query_of(query)),
{
    let mut url = trim_end_of(base, '/').to_owned();
    url.append("/v1/responses");
    if let Some(q) = query {
        url.append("?");
        url.append(q);
    }
    url
}

/// The request that passes a client's request on.
pub open spec fn passed_on(
    base: Seq<char>,
    key: Option<Seq<char>>,
    fields: Fields,
    query: Option<Seq<char>>,
    body: Seq<u8>,
) -> RequestParts {
    RequestParts {
        client: if asks_for_stream(body) {
            ClientKind::Stream
        } else {
            ClientKind::NonStream
        },
        url: responses_url(base, query),
        fields: request_fields(fields, key),
        body,
    }
}

/// What follows the reading of a request body.
#[derive(Debug)]
pub enum AfterBody {
    /// The request goes upstream.
    Send(UpstreamRequest),
    /// The client gets this answer.
    Reply(Response),
}

/// The answer to a body that could not be read within the limit.
pub open spec fn body_refused() -> ResponseParts {
    error_response(400, "body_too_large"@, "Request body too large"@)
}

/// Decides what follows once a request body has been read; `None` stands for a
/// body that could not be read within `MAX_BODY_SIZE`.
pub fn after_body(
    config: &RuntimeConfig,
    headers: &HeaderMap,
    query: Option<&str>,
    body: Option<Vec<u8>>,
) -> (r: Result<AfterBody, TooManyHeaders>)
    ensures
        body is None ==> (r matches Ok(AfterBody::Reply(reply)) && reply@ == body_refused()),
        body matches Some(bytes) ==> match r {
            Ok(AfterBody::Send(request)) => request@ == passed_on(
                config.llm_api_base@,
                key_of(config.openai_api_key),
                header_fields(*headers),
                query_of(query),
                bytes@,
            ),
            Ok(AfterBody::Reply(_)) => false,
            Err(_) => carried(header_fields(*headers), Direction::ToUpstream).dom().len()
                >= NAMES_WITH_ROOM,
        },
        r is Err ==> carried(header_fields(*headers), Direction::ToUpstream).dom().len() >= 6554,
        r matches Ok(AfterBody::Send(request)) ==> (body matches Some(bytes) && request.body@
            == bytes@ && (request.client is Stream <==> (object_flags(bytes@) matches Some(members)
            && members.contains_key("stream"@) && members["stream"@] == Some(true)))),
        r matches Ok(AfterBody::Reply(reply)) ==> reply.status == 400,
{
    match body {
        None => Ok(AfterBody::Reply(proxy_error(400, "body_too_large", "Request body too large"))),
        Some(bytes) => {
            let client = if is_streaming(bytes.as_slice()) {
                ClientKind::Stream
            } else {
                ClientKind::NonStream
            };
            let out = filter_request_headers(headers, config)?;
            let url = upstream_url(config.llm_api_base.as_str(), query);
            Ok(AfterBody::Send(UpstreamRequest { client, url, headers: out, body: bytes }))
        },
    }
}

/// How a request to the upstream server turned out.
#[derive(Debug)]
pub enum UpstreamOutcome {
    /// The server began to answer.
    Answered(ResponseHead),
    /// The request took too long.
    TimedOut,
    /// The request failed in any other way.
    Failed,
}

/// What follows the beginning of an upstream answer.
#[derive(Debug)]
pub enum AfterUpstream {
    /// The client gets this beginning, then the body as it arrives.
    Stream(ResponseHead),
    /// The body is read to its end first.
    Collect(ResponseHead),
    /// The client gets this answer.
    Reply(Response),
}

/// The beginning of the answer that the client gets for an upstream answer.
pub open spec fn relayed_head(head: HeadParts) -> HeadParts {
    let passed = carried(head.fields, Direction::ToClient);
    HeadParts {
        status: if is_status(head.status) {
            head.status
        } else {
            502
        },
        fields: if announces_events(head.fields) {
            passed.insert("x-accel-buffering"@, seq![encode_utf8("no"@)])
        } else {
            passed
        },
    }
}

/// The answer to a request that took too long upstream.
pub open spec fn upstream_timeout() -> ResponseParts {
    error_response(504, "upstream_timeout"@, "Upstream timeout"@)
}

/// The answer to a request that failed upstream.
pub open spec fn upstream_unavailable() -> ResponseParts {
    error_response(502, "upstream_unavailable"@, "Upstream unavailable"@)
}

/// The answer where the body of an upstream answer could not be read.
pub open spec fn payload_lost() -> ResponseParts {
    error_response(502, "upstream_unavailable"@, "Failed to read upstream response"@)
}

/// Decides what follows once the upstream server has begun to answer, or will
/// not.
pub fn after_upstream(outcome: &UpstreamOutcome) -> (r: Result<AfterUpstream, TooManyHeaders>)
    ensures
        match *outcome {
            UpstreamOutcome::TimedOut => r matches Ok(AfterUpstream::Reply(reply)) && reply@
                == upstream_timeout(),
            UpstreamOutcome::Failed => r matches Ok(AfterUpstream::Reply(reply)) && reply@
                == upstream_unavailable(),
            UpstreamOutcome::Answered(head) => match r {
                Ok(AfterUpstream::Stream(out)) => announces_events(head@.fields) && out@
                    == relayed_head(head@),
                Ok(AfterUpstream::Collect(out)) => !announces_events(head@.fields) && out@
                    == relayed_head(head@),
                Ok(AfterUpstream::Reply(_)) => false,
                Err(_) => carried(head@.fields, Direction::ToClient).dom().len() >= NAMES_WITH_ROOM,
            },
        },
        *outcome matches UpstreamOutcome::Answered(head) ==> match r {
            Ok(AfterUpstream::Stream(out)) => {
                let fields = header_fields(head.headers);
                &&& fields.contains_key("content-type"@)
                &&& is_visible(fields["content-type"@][0])
                &&& starts_with(
                    lowercase(as_text(fields["content-type"@][0])),
                    "text/event-stream"@,
                )
                &&& header_fields(out.headers).contains_key("x-accel-buffering"@)
                &&& header_fields(out.headers)["x-accel-buffering"@] == seq![encode_utf8("no"@)]
                &&& out.status == (if 100 <= head.status <= 999 {
                    head.status
                } else {
                    502
                })
            },
            Ok(AfterUpstream::Collect(out)) => {
                let fields = header_fields(head.headers);
                &&& !(fields.contains_key("content-type"@) && is_visible(
                    fields["content-type"@][0],
                ) && starts_with(
                    lowercase(as_text(fields["content-type"@][0])),
                    "text/event-stream"@,
                ))
                &&& out.status == (if 100 <= head.status <= 999 {
                    head.status
                } else {
                    502
                })
            },
            Ok(AfterUpstream::Reply(_)) => false,
            Err(_) => carried(header_fields(head.headers), Direction::ToClient).dom().len() >= 6554,
        },
        *outcome is TimedOut ==> (r matches Ok(AfterUpstream::Reply(reply)) && reply.status == 504),
        *outcome is Failed ==> (r matches Ok(AfterUpstream::Reply(reply)) && reply.status == 502),
{
    match outcome {
        UpstreamOutcome::TimedOut => Ok(
            AfterUpstream::Reply(proxy_error(504, "upstream_timeout", "Upstream timeout")),
        ),
        UpstreamOutcome::Failed => Ok(
            AfterUpstream::Reply(proxy_error(502, "upstream_unavailable", "Upstream unavailable")),
        ),
        UpstreamOutcome::Answered(head) => {
            let status = match read_status(head.status) {
                Some(code) => code,
                None => 502,
            };
            let mut headers = filter_response_headers(&head.headers)?;
            if is_sse_content_type(&head.headers) {
                proof {
                    reveal_strlit("x-accel-buffering");
                    lemma_plain_name("x-accel-buffering"@);
                    reveal_strlit("no");
                    lemma_ascii_value("no"@);
                }
                if set_header(&mut headers, "x-accel-buffering", "no".as_bytes()).is_err() {
                    return Err(TooManyHeaders);
                }
                Ok(AfterUpstream::Stream(ResponseHead { status, headers }))
            } else {
                Ok(AfterUpstream::Collect(ResponseHead { status, headers }))
            }
        },
    }
}

/// The answer with this beginning and this body.
pub open spec fn whole_response(head: HeadParts, body: Seq<u8>) -> ResponseParts {
    ResponseParts { status: head.status, fields: head.fields, body }
}

/// Decides the answer once the body of an upstream answer has been read to its
/// end; `None` stands for a body that could not be.
pub fn after_payload(head: ResponseHead, payload: Option<Vec<u8>>) -> (r: Response)
    ensures
        r@ == (match payload {
            Some(body) => whole_response(head@, body@),
            None => payload_lost(),
        }),
        payload matches Some(body) ==> r.status == head.status && header_fields(r.headers)
            == header_fields(head.headers) && r.body@ == body@,
        payload is None ==> r.status == 502,
{
    match payload {
        Some(body) => Response { status: head.status, headers: head.headers, body },
        None => proxy_error(502, "upstream_unavailable", "Failed to read upstream response"),
    }
}

/// Two spellings of a header name that differ in case only are held back alike.
pub proof fn law_case_of_names_is_ignored(a: Seq<char>, b: Seq<char>, direction: Direction)
    requires
        lowercase(a) == lowercase(b),
    ensures
        held_back(a, direction) == held_back(b, direction),
{
}

/// What concerns one connection only never leaves the gateway, in neither
/// direction.
pub proof fn law_hop_by_hop_headers_stay(
    name: Seq<char>,
    fields: Fields,
    key: Option<Seq<char>>,
    head: HeadParts,
)
    requires
        hop_by_hop(name),
    ensures
        !request_fields(fields, key).contains_key(name),
        !relayed_head(head).fields.contains_key(name),
{
    lemma_own_names_pass();
}

/// Nor does the gateway send the client's host or body length upstream.
pub proof fn law_request_only_headers_stay(
    name: Seq<char>,
    fields: Fields,
    key: Option<Seq<char>>,
)
    requires
        request_only_names().contains(lowercase(name)),
    ensures
        !request_fields(fields, key).contains_key(name),
{
    lemma_own_names_pass();
}

/// The names of the headers that the gateway adds are not held back.
proof fn lemma_own_names_pass()
    ensures
        !request_drop("authorization"@),
        !hop_by_hop("x-accel-buffering"@),
        lowercase("authorization"@) == "authorization"@,
        lowercase("x-accel-buffering"@) == "x-accel-buffering"@,
{
    reveal_strlit("authorization");
    reveal_strlit("x-accel-buffering");
    lemma_plain_name("authorization"@);
    lemma_plain_name("x-accel-buffering"@);
    reveal_strlit("connection");
    reveal_strlit("keep-alive");
    reveal_strlit("proxy-authenticate");
    reveal_strlit("proxy-authorization");
    reveal_strlit("te");
    reveal_strlit("trailers");
    reveal_strlit("transfer-encoding");
    reveal_strlit("upgrade");
    reveal_strlit("host");
    reveal_strlit("content-length");
    let hop = hop_by_hop_names();
    assert(forall|i: int| 0 <= i < hop.len() ==> #[trigger] hop[i].len() != 13);
    assert(hop[6].len() == 17 && hop[6][0] == 't');
    assert(forall|i: int|
        0 <= i < hop.len() ==> #[trigger] hop[i].len() != 17 || hop[i][0] != 'x');
    let own = request_only_names();
    assert(forall|i: int| 0 <= i < own.len() ==> #[trigger] own[i].len() != 13);
    assert("x-accel-buffering"@[0] == 'x');
}

proof fn lemma_last_usable(values: Seq<Seq<u8>>)
    ensures
        usable(values).len() > 0 ==> is_header_value(usable(values).last()),
        values.len() > 0 && is_header_value(values.last()) ==> usable(values).len() > 0 && usable(
            values,
        ).last() == values.last(),
    decreases values.len(),
{
    reveal(Seq::filter);
    if values.len() > 0 {
        assert(values =~= values.drop_last().push(values.last()));
        lemma_usable_push(values.drop_last(), values.last());
        lemma_last_usable(values.drop_last());
    }
}

/// Every other header of a request goes upstream with its last usable value: its
/// last value, where that is well formed.
pub proof fn law_other_request_headers_pass(
    name: Seq<char>,
    fields: Fields,
    key: Option<Seq<char>>,
)
    requires
        fields.contains_key(name),
        !request_drop(name),
        is_header_name(name),
        usable(fields[name]).len() > 0,
    ensures
        request_fields(fields, key).contains_key(name),
        request_fields(fields, key)[name] == seq![usable(fields[name]).last()],
        is_header_value(fields[name].last()) ==> request_fields(fields, key)[name]
            == seq![fields[name].last()],
{
    lemma_last_usable(fields[name]);
    reveal(Seq::filter);
}

/// Every other header of an answer goes to the client with its last usable value,
/// except that a stream of events is never to be buffered.
pub proof fn law_other_answer_headers_pass(name: Seq<char>, head: HeadParts)
    requires
        head.fields.contains_key(name),
        !hop_by_hop(name),
        is_header_name(name),
        usable(head.fields[name]).len() > 0,
        !(announces_events(head.fields) && name == "x-accel-buffering"@),
    ensures
        relayed_head(head).fields.contains_key(name),
        relayed_head(head).fields[name] == seq![usable(head.fields[name]).last()],
        is_header_value(head.fields[name].last()) ==> relayed_head(head).fields[name]
            == seq![head.fields[name].last()],
{
    lemma_last_usable(head.fields[name]);
    reveal(Seq::filter);
}

/// A stream of events is marked as not to be buffered; nothing else is added to
/// an answer.
pub proof fn law_events_are_not_buffered(head: HeadParts)
    ensures
        announces_events(head.fields) ==> relayed_head(head).fields.contains_key(
            "x-accel-buffering"@,
        ) && relayed_head(head).fields["x-accel-buffering"@] == seq![encode_utf8("no"@)],
        forall|name: Seq<char>| #[trigger]
            relayed_head(head).fields.contains_key(name) ==> head.fields.contains_key(name) || (
            announces_events(head.fields) && name == "x-accel-buffering"@),
{
}

/// The only header that the gateway adds to a request is `authorization`.
pub proof fn law_only_credentials_are_added(fields: Fields, key: Option<Seq<char>>)
    ensures
        forall|name: Seq<char>| #[trigger]
            request_fields(fields, key).contains_key(name) ==> fields.contains_key(name) || name
                == "authorization"@,
{
}

/// Every header that leaves the gateway has one value, and that is well formed.
pub proof fn law_one_value_each(
    name: Seq<char>,
    fields: Fields,
    key: Option<Seq<char>>,
    head: HeadParts,
)
    ensures
        request_fields(fields, key).contains_key(name) ==> request_fields(fields, key)[name].len()
            == 1 && is_header_value(request_fields(fields, key)[name][0]),
        relayed_head(head).fields.contains_key(name) ==> relayed_head(head).fields[name].len() == 1
            && is_header_value(relayed_head(head).fields[name][0]),
{
    lemma_last_usable(fields[name]);
    lemma_last_usable(head.fields[name]);
    reveal_strlit("no");
    lemma_ascii_value("no"@);
}

/// Headers that passed once pass unchanged the next time.
pub proof fn law_passing_again_changes_nothing(fields: Fields, direction: Direction)
    ensures
        carried(carried(fields, direction), direction) == carried(fields, direction),
{
    let once = carried(fields, direction);
    assert forall|name: Seq<char>| once.contains_key(name) implies #[trigger] usable(once[name])
        == once[name] by {
        lemma_last_usable(fields[name]);
        reveal(Seq::filter);
        let value = usable(fields[name]).last();
        assert(seq![value] =~= Seq::empty().push(value));
        lemma_usable_push(Seq::empty(), value);
        assert(usable(Seq::empty()) =~= Seq::empty());
    }
    assert(carried(once, direction) =~= once);
}

/// A client's own credentials go upstream, whatever key the gateway has.
pub proof fn law_client_credentials_win(fields: Fields, key: Option<Seq<char>>)
    requires
        fields.contains_key("authorization"@),
        usable(fields["authorization"@]).len() > 0,
    ensures
        request_fields(fields, key).contains_key("authorization"@),
        request_fields(fields, key)["authorization"@] == seq![
            usable(fields["authorization"@]).last(),
        ],
        request_fields(fields, key) == request_fields(fields, None),
{
    reveal_strlit("authorization");
    lemma_plain_name("authorization"@);
    lemma_own_names_pass();
}

/// A request whose client presents no credentials is given those of the gateway's
/// key, where they can be sent; a blank key gives none.
pub proof fn law_gateway_credentials_fill_in(fields: Fields, key: Seq<char>)
    requires
        !carried(fields, Direction::ToUpstream).contains_key("authorization"@),
    ensures
        trim_white(key).len() > 0 && is_header_value(
            encode_utf8("Bearer "@ + trim_white(key)),
        ) ==> request_fields(fields, Some(key)) == carried(fields, Direction::ToUpstream).insert(
            "authorization"@,
            seq![encode_utf8("Bearer "@ + trim_white(key))],
        ),
        trim_white(key).len() == 0 ==> request_fields(fields, Some(key)) == request_fields(
            fields,
            None,
        ) && !request_fields(fields, Some(key)).contains_key("authorization"@),
{
}

/// White space around the key makes no difference.
pub proof fn law_white_space_around_key_is_ignored(
    key: Seq<char>,
    before: Seq<char>,
    after: Seq<char>,
)
    requires
        forall|i: int| 0 <= i < before.len() ==> is_white_space(#[trigger] before[i]),
        forall|i: int| 0 <= i < after.len() ==> is_white_space(#[trigger] after[i]),
    ensures
        credentials(Some(before + key + after)) == credentials(Some(key)),
{
    lemma_trim_white_around(key, before, after);
}

/// The client gets the status of the upstream answer, and always a status.
pub proof fn law_status_passes(head: HeadParts)
    ensures
        is_status(head.status) ==> relayed_head(head).status == head.status,
        is_status(relayed_head(head).status),
{
}

/// Bodies pass unchanged in both directions.
pub proof fn law_bodies_pass_unchanged(
    base: Seq<char>,
    key: Option<Seq<char>>,
    fields: Fields,
    query: Option<Seq<char>>,
    body: Seq<u8>,
    head: HeadParts,
    payload: Seq<u8>,
)
    ensures
        passed_on(base, key, fields, query, body).body == body,
        whole_response(relayed_head(head), payload).body == payload,
{
}

/// The answers that the gateway gives itself are errors, in JSON.
pub proof fn law_own_answers_are_json_errors(answer: ResponseParts)
    requires
        answer == body_refused() || answer == upstream_timeout() || answer == upstream_unavailable()
            || answer == payload_lost(),
    ensures
        400 <= answer.status <= 599,
        answer.fields["content-type"@] == seq![encode_utf8("application/json"@)],
{
}

/// The endpoint does not depend on slashes at the end of the base URL.
pub proof fn law_endpoint_ignores_slashes(
    base: Seq<char>,
    slashes: Seq<char>,
    query: Option<Seq<char>>,
)
    requires
        forall|i: int| 0 <= i < slashes.len() ==> slashes[i] == '/',
    ensures
        responses_url(base + slashes, query) == responses_url(base, query),
        responses_url(normalized(base + slashes), query) == responses_url(normalized(base), query),
{
    law_trailing_slashes_ignored(base, slashes);
    lemma_trim_end_run(base, slashes, '/');
}

/// The endpoint does not depend on whether the base URL was given with `/v1` at
/// its end, provided the rest does not end in `/v1` once more.
pub proof fn law_endpoint_ignores_version(
    base: Seq<char>,
    before: Seq<char>,
    after: Seq<char>,
    query: Option<Seq<char>>,
)
    requires
        forall|i: int| 0 <= i < before.len() ==> before[i] == '/',
        forall|i: int| 0 <= i < after.len() ==> after[i] == '/',
        !ends_with(trim_end(base, '/'), "/v1"@),
    ensures
        responses_url(normalized(base + before + "/v1"@ + after), query) == responses_url(
            normalized(base),
            query,
        ),
{
    law_version_suffix_ignored(base, before, after);
}

/// The endpoint stands directly under a normalised base URL.
pub proof fn law_endpoint_under_base(url: Seq<char>)
    ensures
        responses_url(normalized(url), None) == normalized(url) + "/v1/responses"@,
{
    law_base_is_slashless_prefix(url);
}

/// The headers that are held back towards the client are those of eight names, in
/// whatever case; towards the server, those and two more.
pub proof fn law_exactly_these_names_are_held_back(name: Seq<char>)
    ensures
        held_back(name, Direction::ToClient) <==> ({
            ||| lowercase(name) == "connection"@
            ||| lowercase(name) == "keep-alive"@
            ||| lowercase(name) == "proxy-authenticate"@
            ||| lowercase(name) == "proxy-authorization"@
            ||| lowercase(name) == "te"@
            ||| lowercase(name) == "trailers"@
            ||| lowercase(name) == "transfer-encoding"@
            ||| lowercase(name) == "upgrade"@
        }),
        held_back(name, Direction::ToUpstream) <==> ({
            ||| lowercase(name) == "connection"@
            ||| lowercase(name) == "keep-alive"@
            ||| lowercase(name) == "proxy-authenticate"@
            ||| lowercase(name) == "proxy-authorization"@
            ||| lowercase(name) == "te"@
            ||| lowercase(name) == "trailers"@
            ||| lowercase(name) == "transfer-encoding"@
            ||| lowercase(name) == "upgrade"@
            ||| lowercase(name) == "host"@
            ||| lowercase(name) == "content-length"@
        }),
{
    let hop = hop_by_hop_names();
    let own = request_only_names();
    assert(hop[0] == "connection"@ && hop[1] == "keep-alive"@ && hop[2] == "proxy-authenticate"@);
    assert(hop[3] == "proxy-authorization"@ && hop[4] == "te"@ && hop[5] == "trailers"@);
    assert(hop[6] == "transfer-encoding"@ && hop[7] == "upgrade"@);
    assert(own[0] == "host"@ && own[1] == "content-length"@);
    let lower = lowercase(name);
    if hop.contains(lower) {
        let i = choose|i: int| 0 <= i < hop.len() && hop[i] == lower;
        assert(hop[i] == lower);
    }
    if own.contains(lower) {
        let i = choose|i: int| 0 <= i < own.len() && own[i] == lower;
        assert(own[i] == lower);
    }
}

proof fn lemma_last_usable_is_a_value(values: Seq<Seq<u8>>)
    ensures
        usable(values).len() > 0 <==> exists|k: int|
            0 <= k < values.len() && is_header_value(#[trigger] values[k]),
        usable(values).len() > 0 ==> exists|k: int|
            0 <= k < values.len() && #[trigger] values[k] == usable(values).last()
                && is_header_value(values[k]) && forall|j: int|
                k < j < values.len() ==> !is_header_value(#[trigger] values[j]),
    decreases values.len(),
{
    reveal(Seq::filter);
    if values.len() > 0 {
        let before = values.drop_last();
        let n = before.len() as int;
        assert(values =~= before.push(values.last()));
        lemma_usable_push(before, values.last());
        lemma_last_usable_is_a_value(before);
        assert(forall|k: int| 0 <= k < n ==> #[trigger] before[k] == values[k]);
        assert(forall|k: int| 0 <= k < n ==> #[trigger] values[k] == before[k]);
        if is_header_value(values[n]) {
            assert(usable(values).last() == values[n]);
        } else if usable(before).len() > 0 {
            let k = choose|k: int|
                0 <= k < before.len() && #[trigger] before[k] == usable(before).last()
                    && is_header_value(before[k]) && forall|j: int|
                    k < j < before.len() ==> !is_header_value(#[trigger] before[j]);
            assert(values[k] == usable(values).last());
            assert forall|j: int| k < j < values.len() implies !is_header_value(
                #[trigger] values[j],
            ) by {
                if j < n {
                    assert(values[j] == before[j]);
                }
            }
        }
    }
}

/// A field passes if and only if its name is well formed and not held back, and
/// one of its values is well formed. What passes of it is the one value that is
/// well formed and has none behind it that is.
pub proof fn law_the_last_good_value_passes(
    fields: Fields,
    direction: Direction,
    name: Seq<char>,
)
    ensures
        carried(fields, direction).contains_key(name) <==> fields.contains_key(name) && !held_back(
            name,
            direction,
        ) && is_header_name(name) && exists|k: int|
            0 <= k < fields[name].len() && is_header_value(#[trigger] fields[name][k]),
        carried(fields, direction).contains_key(name) ==> carried(fields, direction)[name].len()
            == 1 && exists|k: int|
            0 <= k < fields[name].len() && #[trigger] fields[name][k] == carried(
                fields,
                direction,
            )[name][0] && is_header_value(fields[name][k]) && forall|j: int|
                k < j < fields[name].len() ==> !is_header_value(#[trigger] fields[name][j]),
{
    lemma_last_usable_is_a_value(fields[name]);
}

/// A request header reaches the server with its last value, where that has no
/// control characters but tabs, unless its name is one of ten; this holds
/// whatever the other headers are, and whatever key the gateway has.
pub proof fn law_any_other_header_reaches_the_server(
    name: Seq<char>,
    fields: Fields,
    key: Option<Seq<char>>,
)
    requires
        lowercase(name) != "connection"@,
        lowercase(name) != "keep-alive"@,
        lowercase(name) != "proxy-authenticate"@,
        lowercase(name) != "proxy-authorization"@,
        lowercase(name) != "te"@,
        lowercase(name) != "trailers"@,
        lowercase(name) != "transfer-encoding"@,
        lowercase(name) != "upgrade"@,
        lowercase(name) != "host"@,
        lowercase(name) != "content-length"@,
        is_header_name(name),
        fields.contains_key(name),
        fields[name].len() > 0,
        forall|i: int|
            0 <= i < fields[name].last().len() ==> #[trigger] fields[name].last()[i] == 9
                || fields[name].last()[i] >= 32 && fields[name].last()[i] != 127,
    ensures
        request_fields(fields, key).contains_key(name),
        request_fields(fields, key)[name] == seq![fields[name].last()],
{
    law_exactly_these_names_are_held_back(name);
    lemma_last_usable(fields[name]);
}

/// A header of an answer reaches the client with its last value, where that has
/// no control characters but tabs, unless its name is one of eight; this holds
/// whatever the other headers are, but for `x-accel-buffering`, which the gateway
/// may set itself.
pub proof fn law_any_other_header_reaches_the_client(name: Seq<char>, head: HeadParts)
    requires
        lowercase(name) != "connection"@,
        lowercase(name) != "keep-alive"@,
        lowercase(name) != "proxy-authenticate"@,
        lowercase(name) != "proxy-authorization"@,
        lowercase(name) != "te"@,
        lowercase(name) != "trailers"@,
        lowercase(name) != "transfer-encoding"@,
        lowercase(name) != "upgrade"@,
        name != "x-accel-buffering"@,
        is_header_name(name),
        head.fields.contains_key(name),
        head.fields[name].len() > 0,
        forall|i: int|
            0 <= i < head.fields[name].last().len() ==> #[trigger] head.fields[name].last()[i] == 9
                || head.fields[name].last()[i] >= 32 && head.fields[name].last()[i] != 127,
    ensures
        relayed_head(head).fields.contains_key(name),
        relayed_head(head).fields[name] == seq![head.fields[name].last()],
{
    law_exactly_these_names_are_held_back(name);
    lemma_last_usable(head.fields[name]);
}

/// Headers of eight names, in whatever case, reach neither the server nor the
/// client; those of two more do not reach the server.
pub proof fn law_named_headers_stay(
    name: Seq<char>,
    fields: Fields,
    key: Option<Seq<char>>,
    head: HeadParts,
)
    requires
        ({
            ||| lowercase(name) == "connection"@
            ||| lowercase(name) == "keep-alive"@
            ||| lowercase(name) == "proxy-authenticate"@
            ||| lowercase(name) == "proxy-authorization"@
            ||| lowercase(name) == "te"@
            ||| lowercase(name) == "trailers"@
            ||| lowercase(name) == "transfer-encoding"@
            ||| lowercase(name) == "upgrade"@
            ||| lowercase(name) == "host"@
            ||| lowercase(name) == "content-length"@
        }),
    ensures
        !request_fields(fields, key).contains_key(name),
        lowercase(name) != "host"@ && lowercase(name) != "content-length"@ ==> !relayed_head(
            head,
        ).fields.contains_key(name),
{
    law_exactly_these_names_are_held_back(name);
    lemma_own_names_pass();
}

/// Whether an answer is a stream of events rests on its first content type alone:
/// that consists of visible ASCII characters, spaces and tabs, and begins with
/// `text/event-stream` in whatever case. Such an answer is marked as not to be
/// buffered, whatever mark it had; any other keeps the mark that it had.
pub proof fn law_the_content_type_alone_decides(head: HeadParts)
    ensures
        announces_events(head.fields) <==> head.fields.contains_key("content-type"@) && ({
            let value = head.fields["content-type"@][0];
            &&& value.len() >= 17
            &&& forall|i: int|
                0 <= i < value.len() ==> #[trigger] value[i] == 9 || 32 <= value[i] <= 126
            &&& forall|i: int|
                0 <= i < 17 ==> (if 65 <= #[trigger] value[i] <= 90 {
                    value[i] + 32
                } else {
                    value[i] as int
                }) == "text/event-stream"@[i] as int
        }),
        announces_events(head.fields) ==> relayed_head(head).fields.contains_key(
            "x-accel-buffering"@,
        ) && relayed_head(head).fields["x-accel-buffering"@] == seq![seq![110u8, 111u8]],
        !announces_events(head.fields) ==> relayed_head(head).fields == carried(
            head.fields,
            Direction::ToClient,
        ),
{
    reveal_strlit("text/event-stream");
    reveal_strlit("no");
    vstd::utf8::is_ascii_chars_encode_utf8("no"@);
    assert(encode_utf8("no"@) =~= seq![110u8, 111u8]);
    if head.fields.contains_key("content-type"@) {
        let value = head.fields["content-type"@][0];
        let text = lowercase(as_text(value));
        law_affixes_agree_throughout(text, "text/event-stream"@);
        law_only_capital_letters_change(as_text(value));
        assert forall|i: int| 0 <= i < value.len() implies #[trigger] text[i] as int == (if 65
            <= value[i] <= 90 {
            value[i] + 32
        } else {
            value[i] as int
        }) by {
            assert(as_text(value)[i] as int == value[i] as int);
        }
        if starts_with(text, "text/event-stream"@) {
            assert forall|i: int| 0 <= i < 17 implies (if 65 <= #[trigger] value[i] <= 90 {
                value[i] + 32
            } else {
                value[i] as int
            }) == "text/event-stream"@[i] as int by {
                assert(text[i] == "text/event-stream"@[i]);
            }
        }
    }
}

/// Two answers with the same content type are both streams of events, or neither
/// is, whatever else differs between them.
pub proof fn law_same_content_type_same_treatment(a: HeadParts, b: HeadParts)
    requires
        a.fields.contains_key("content-type"@) == b.fields.contains_key("content-type"@),
        a.fields.contains_key("content-type"@) ==> a.fields["content-type"@][0]
            == b.fields["content-type"@][0],
    ensures
        announces_events(a.fields) == announces_events(b.fields),
        announces_events(a.fields) ==> relayed_head(a).fields["x-accel-buffering"@] == relayed_head(
            b,
        ).fields["x-accel-buffering"@],
{
}

/// A request goes out with the client for streamed answers if and only if its
/// body, of whatever length, is a JSON object whose member `stream` is true.
pub proof fn law_the_member_stream_decides(
    base: Seq<char>,
    key: Option<Seq<char>>,
    fields: Fields,
    query: Option<Seq<char>>,
    body: Seq<u8>,
)
    ensures
        passed_on(base, key, fields, query, body).client == (match object_flags(body) {
            Some(members) => if members.contains_key("stream"@) && members["stream"@] == Some(
                true,
            ) {
                ClientKind::Stream
            } else {
                ClientKind::NonStream
            },
            None => ClientKind::NonStream,
        }),
{
}

/// Two requests go out with the same client where both bodies are JSON objects
/// that agree on the member `stream`, whatever else differs between them.
pub proof fn law_same_member_same_client(
    base: Seq<char>,
    key: Option<Seq<char>>,
    fields: Fields,
    query: Option<Seq<char>>,
    body: Seq<u8>,
    other_base: Seq<char>,
    other_key: Option<Seq<char>>,
    other_fields: Fields,
    other_query: Option<Seq<char>>,
    other_body: Seq<u8>,
)
    requires
        object_flags(body) is Some,
        object_flags(other_body) is Some,
        object_flags(body)->0.contains_key("stream"@) == object_flags(other_body)->0.contains_key(
            "stream"@,
        ),
        object_flags(body)->0.contains_key("stream"@) ==> object_flags(body)->0["stream"@]
            == object_flags(other_body)->0["stream"@],
    ensures
        passed_on(base, key, fields, query, body).client == passed_on(
            other_base,
            other_key,
            other_fields,
            other_query,
            other_body,
        ).client,
{
}

/// A request is made to `/v1/responses` directly behind the base URL, whatever
/// number of slashes that ends in, with the query of the client's request behind
/// a question mark, if it has one. Its body is the client's, to the last byte.
pub proof fn law_a_request_keeps_query_and_body(
    base: Seq<char>,
    slashes: Seq<char>,
    key: Option<Seq<char>>,
    fields: Fields,
    query: Seq<char>,
    body: Seq<u8>,
)
    requires
        base.len() > 0 ==> base[base.len() - 1] != '/',
        forall|i: int| 0 <= i < slashes.len() ==> slashes[i] == '/',
    ensures
        ({
            let path = seq!['/', 'v', '1', '/', 'r', 'e', 's', 'p', 'o', 'n', 's', 'e', 's'];
            let with = passed_on(base + slashes, key, fields, Some(query), body);
            let without = passed_on(base + slashes, key, fields, None, body);
            &&& with.url == base + path + seq!['?'] + query
            &&& without.url == base + path
            &&& with.url == responses_url(base + slashes, Some(query))
            &&& without.url == responses_url(base + slashes, None)
            &&& with.body == body && without.body == body
            &&& with.fields == request_fields(fields, key)
            &&& without.fields == request_fields(fields, key)
        }),
{
    reveal_strlit("/v1/responses");
    reveal_strlit("?");
    law_trimming_takes_the_whole_run(base, slashes, '/');
    assert("/v1/responses"@ =~= seq![
        '/',
        'v',
        '1',
        '/',
        'r',
        'e',
        's',
        'p',
        'o',
        'n',
        's',
        'e',
        's',
    ]);
    assert("?"@ =~= seq!['?']);
}

/// The credentials of a key are `Bearer` and the key without the white space
/// around it; without a key, or with one of white space alone, there are none.
pub proof fn law_credentials_are_the_trimmed_key(
    before: Seq<char>,
    key: Seq<char>,
    after: Seq<char>,
)
    requires
        forall|i: int| 0 <= i < before.len() ==> is_white_space(#[trigger] before[i]),
        forall|i: int| 0 <= i < after.len() ==> is_white_space(#[trigger] after[i]),
        key.len() > 0 ==> !is_white_space(key[0]) && !is_white_space(key[key.len() - 1]),
    ensures
        key.len() > 0 ==> credentials(Some(before + key + after)) == Some(
            seq!['B', 'e', 'a', 'r', 'e', 'r', ' '] + key,
        ),
        key.len() == 0 ==> credentials(Some(before + key + after)) is None,
        credentials(None) is None,
{
    reveal_strlit("Bearer ");
    law_trimming_takes_all_white_space(before, key, after);
    assert("Bearer "@ =~= seq!['B', 'e', 'a', 'r', 'e', 'r', ' ']);
}

/// The gateway's key touches no header but `authorization`, and that only where
/// the client's does not pass. There the server gets the credentials of the key,
/// where they have no control characters but tabs, and no such header otherwise.
pub proof fn law_the_key_touches_one_header(
    name: Seq<char>,
    fields: Fields,
    key: Option<Seq<char>>,
)
    ensures
        ({
            let passed = carried(fields, Direction::ToUpstream);
            let out = request_fields(fields, key);
            &&& name != "authorization"@ || passed.contains_key(name) ==> (out.contains_key(name)
                <==> passed.contains_key(name)) && (passed.contains_key(name) ==> out[name]
                == passed[name])
            &&& !passed.contains_key("authorization"@) ==> (out.contains_key("authorization"@) <==> (
            credentials(key) matches Some(text) && forall|i: int|
                0 <= i < encode_utf8(text).len() ==> #[trigger] encode_utf8(text)[i] == 9
                    || encode_utf8(text)[i] >= 32 && encode_utf8(text)[i] != 127))
            &&& !passed.contains_key("authorization"@) && out.contains_key("authorization"@) ==> (
            credentials(key) matches Some(text) && out["authorization"@] == seq![encode_utf8(text)])
        }),
{
}

/// An answer in JSON has the given status, the given text in UTF-8, and one header,
/// which says that it is JSON.
pub proof fn law_json_answers_say_so(status: u16, text: Seq<char>, name: Seq<char>)
    ensures
        json_answer(status, text).status == status,
        json_answer(status, text).body == encode_utf8(text),
        json_answer(status, text).fields.contains_key(name) <==> name == "content-type"@,
        json_answer(status, text).fields["content-type"@] == seq![encode_utf8("application/json"@)],
{
}

/// An error that the gateway answers itself has the given status, one header,
/// which says that it is JSON, and for a body an object `error` of four members:
/// the message, the type `api_error`, a `param` of null, and the code.
pub proof fn law_errors_have_four_members(
    status: u16,
    code: Seq<char>,
    message: Seq<char>,
    name: Seq<char>,
)
    ensures
        ({
            let answer = error_response(status, code, message);
            let members = error_fields(code, message);
            &&& answer.status == status
            &&& answer.fields.contains_key(name) <==> name == "content-type"@
            &&& answer.fields["content-type"@] == seq![encode_utf8("application/json"@)]
            &&& answer.body == encode_utf8(nested_object_text("error"@, members))
            &&& members.len() == 4
            &&& members[0].0 == "message"@ && members[0].1 == Some(message)
            &&& members[1].0 == "type"@ && members[1].1 == Some("api_error"@)
            &&& members[2].0 == "param"@ && members[2].1 is None
            &&& members[3].0 == "code"@ && members[3].1 == Some(code)
        }),
{
}

/// What goes wrong is told apart: a body that is not read, a server that takes too
/// long, one that cannot be asked, and an answer that breaks off. A body of ten
/// mebibytes is still read.
pub proof fn law_failures_are_told_apart()
    ensures
        body_refused() == error_response(400, "body_too_large"@, "Request body too large"@),
        upstream_timeout() == error_response(504, "upstream_timeout"@, "Upstream timeout"@),
        upstream_unavailable() == error_response(
            502,
            "upstream_unavailable"@,
            "Upstream unavailable"@,
        ),
        payload_lost() == error_response(
            502,
            "upstream_unavailable"@,
            "Failed to read upstream response"@,
        ),
        MAX_BODY_SIZE == 10_485_760,
{
}

/// Both clients give up on a connection after ten seconds, set no limit to a whole
/// answer and follow no redirects. The one for streamed answers waits for the next
/// part without limit and keeps no connections; the other waits five minutes.
pub proof fn law_clients_differ_in_patience()
    ensures
        stream_settings().connect_timeout_s == Some(10u64),
        non_stream_settings().connect_timeout_s == Some(10u64),
        stream_settings().timeout_s is None,
        non_stream_settings().timeout_s is None,
        !stream_settings().follow_redirects,
        !non_stream_settings().follow_redirects,
        stream_settings().read_timeout_s is None,
        non_stream_settings().read_timeout_s == Some(300u64),
        stream_settings().pool_max_idle_per_host == Some(0usize),
        non_stream_settings().pool_max_idle_per_host is None,
{
}

/// The client gets the status of the upstream answer where that is a number from
/// 100 to 999, and 502 otherwise; and the answer in one piece has that status,
/// those headers and the whole body.
pub proof fn law_answers_keep_status_and_body(head: HeadParts, body: Seq<u8>)
    ensures
        relayed_head(head).status == (if 100 <= head.status <= 999 {
            head.status
        } else {
            502u16
        }),
        whole_response(head, body).status == head.status,
        whole_response(head, body).fields == head.fields,
        whole_response(head, body).body == body,
        is_status(head.status) <==> 100 <= head.status <= 999,
{
}

/// The parts of a value are its fields as they stand.
pub proof fn law_parts_are_the_fields(
    request: UpstreamRequest,
    head: ResponseHead,
    response: Response,
)
    ensures
        request@.client == request.client,
        request@.url == request.url@,
        request@.fields == header_fields(request.headers),
        request@.body == request.body@,
        head@.status == head.status,
        head@.fields == header_fields(head.headers),
        response@.status == response.status,
        response@.fields == header_fields(response.headers),
        response@.body == response.body@,
{
}

/// Keys and queries are taken as they stand.
pub proof fn law_texts_are_taken_as_they_stand(key: Option<String>, query: Option<&str>)
    ensures
        key_of(key) is Some <==> key is Some,
        key matches Some(k) ==> key_of(key) == Some(k@),
        query_of(query) is Some <==> query is Some,
        query matches Some(q) ==> query_of(query) == Some(q@),
{
}

} // verus!
