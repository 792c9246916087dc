use agentic_api::config::{normalize_base_url, RuntimeConfig};
use agentic_api::json::member_is_true;
use agentic_api::proxy::{
    after_body, after_payload, after_upstream, bearer_credentials, filter_request_headers, filter_response_headers,
    error_members, is_hop_by_hop, is_request_drop, is_sse_content_type, is_streaming, json_response, proxy_error,
    upstream_url, wants_stream, AfterBody, AfterUpstream, ClientKind, ProxyState, Response, ResponseHead,
    TooManyHeaders, UpstreamOutcome, UpstreamRequest, MAX_BODY_SIZE,
};
use agentic_api::server::health_probe;
use http::header::{HeaderName, HeaderValue};
use http::HeaderMap;

fn config(key: Option<&str>) -> RuntimeConfig {
    RuntimeConfig {
        llm_api_base: "http://upstream:8000/".to_owned(),
        openai_api_key: key.map(|k| k.to_owned()),
        gateway_host: "127.0.0.1".to_owned(),
        gateway_port: 9000,
        upstream_ready_timeout_ns: 5_000_000_000,
        upstream_ready_interval_ns: 100_000_000,
    }
}

fn header_map(fields: &[(&'static str, &str)]) -> HeaderMap {
    let mut map = HeaderMap::new();
    for (name, value) in fields {
        map.append(*name, HeaderValue::from_str(value).unwrap());
    }
    map
}

fn sent(r: Result<AfterBody, TooManyHeaders>) -> UpstreamRequest {
    match r {
        Ok(AfterBody::Send(request)) => request,
        other => panic!("not sent: {other:?}"),
    }
}

fn text(answer: &Response) -> &str {
    std::str::from_utf8(&answer.body).unwrap()
}

#[test]
fn connection_headers_are_told_apart() {
    for name in [
        "connection",
        "Keep-Alive",
        "PROXY-AUTHENTICATE",
        "proxy-authorization",
        "TE",
        "trailers",
        "Transfer-Encoding",
        "upgrade",
    ] {
        assert!(is_hop_by_hop(name), "{name}");
        assert!(is_request_drop(name), "{name}");
    }
    for name in ["Host", "content-length"] {
        assert!(!is_hop_by_hop(name), "{name}");
        assert!(is_request_drop(name), "{name}");
    }
    for name in ["authorization", "trailer", "content-type", "", "x-te"] {
        assert!(!is_hop_by_hop(name), "{name}");
        assert!(!is_request_drop(name), "{name}");
    }
}

#[test]
fn request_headers_are_filtered() {
    let headers = header_map(&[
        ("host", "gateway"),
        ("connection", "close"),
        ("content-length", "2"),
        ("te", "trailers"),
        ("x-trace", "first"),
        ("x-trace", "last"),
        ("accept", "application/json"),
    ]);
    let out = filter_request_headers(&headers, &config(None)).unwrap();
    assert_eq!(out, header_map(&[("x-trace", "last"), ("accept", "application/json")]));
}

#[test]
fn response_headers_are_filtered() {
    let headers = header_map(&[
        ("transfer-encoding", "chunked"),
        ("upgrade", "h2c"),
        ("content-length", "2"),
        ("set-cookie", "a=1"),
        ("set-cookie", "b=2"),
    ]);
    let out = filter_response_headers(&headers).unwrap();
    assert_eq!(out, header_map(&[("content-length", "2"), ("set-cookie", "b=2")]));
    assert_eq!(filter_response_headers(&out).unwrap(), out);
}

#[test]
fn names_that_cannot_be_read_again_do_not_pass() {
    let mut headers = header_map(&[("accept", "*/*")]);
    let quoted = HeaderName::from_lowercase(b"x-\"quoted\"").unwrap();
    headers.insert(quoted, HeaderValue::from_static("1"));
    assert_eq!(headers.len(), 2);
    let accept = header_map(&[("accept", "*/*")]);
    assert_eq!(filter_request_headers(&headers, &config(None)).unwrap(), accept);
    assert_eq!(filter_response_headers(&headers).unwrap(), accept);
}

#[test]
fn opaque_values_pass() {
    let mut headers = HeaderMap::new();
    headers.insert("x-opaque", HeaderValue::from_bytes(b"a\xff\tb").unwrap());
    assert_eq!(filter_response_headers(&headers).unwrap(), headers);
}

#[test]
fn the_key_fills_in_for_missing_credentials() {
    let headers = header_map(&[("accept", "*/*")]);
    let out = filter_request_headers(&headers, &config(Some("  secret\n"))).unwrap();
    assert_eq!(out, header_map(&[("accept", "*/*"), ("authorization", "Bearer secret")]));
    assert_eq!(bearer_credentials(&Some(" k ".to_owned())), Some("Bearer k".to_owned()));
}

#[test]
fn client_credentials_win() {
    let headers = header_map(&[("authorization", "Bearer client")]);
    let out = filter_request_headers(&headers, &config(Some("secret"))).unwrap();
    assert_eq!(out, headers);
}

#[test]
fn blank_or_unsendable_keys_add_nothing() {
    let headers = header_map(&[("accept", "*/*")]);
    for key in [None, Some(""), Some(" \t\n"), Some("two\nlines")] {
        assert_eq!(filter_request_headers(&headers, &config(key)).unwrap(), headers);
    }
    assert_eq!(bearer_credentials(&Some(" \t".to_owned())), None);
    assert_eq!(bearer_credentials(&None), None);
}

#[test]
fn keys_beyond_ascii_are_sent_as_utf8() {
    let out = filter_request_headers(&HeaderMap::new(), &config(Some("schl\u{fc}ssel"))).unwrap();
    assert_eq!(out.get("authorization").unwrap().as_bytes(), b"Bearer schl\xc3\xbcssel");
}

#[test]
fn many_headers_pass() {
    let mut headers = HeaderMap::new();
    for i in 0..6553 {
        let name = HeaderName::from_bytes(format!("x-{i}").as_bytes()).unwrap();
        headers.insert(name, HeaderValue::from(i));
    }
    assert_eq!(filter_response_headers(&headers).unwrap(), headers);
    let out = filter_request_headers(&headers, &config(Some("secret"))).unwrap();
    assert_eq!(out.len(), 6554);
}

#[test]
fn a_full_map_has_no_room_for_credentials() {
    let mut headers = HeaderMap::new();
    for i in 0..24576 {
        let name = HeaderName::from_bytes(format!("x-{i}").as_bytes()).unwrap();
        if headers.try_insert(name, HeaderValue::from(i)).is_err() {
            break;
        }
    }
    assert!(headers.len() >= 6554);
    let refused = filter_request_headers(&headers, &config(Some("secret")));
    assert!(matches!(refused, Err(TooManyHeaders)));
}

#[test]
fn headers_held_back_take_no_room() {
    let mut headers = HeaderMap::new();
    for i in 0..8000 {
        let name = format!("x-{}{i}", if i < 2000 { "" } else { "\"" });
        let name = HeaderName::from_lowercase(name.as_bytes()).unwrap();
        headers.insert(name, HeaderValue::from(i));
    }
    assert_eq!(headers.len(), 8000);
    assert_eq!(filter_response_headers(&headers).unwrap().len(), 2000);
    assert_eq!(filter_request_headers(&headers, &config(Some("k"))).unwrap().len(), 2001);
}

#[test]
fn event_streams_are_recognised() {
    for value in ["text/event-stream", "Text/Event-Stream; charset=utf-8", "text/event-streams"] {
        assert!(is_sse_content_type(&header_map(&[("content-type", value)])), "{value}");
    }
    for value in ["application/json", "text/event", " text/event-stream"] {
        assert!(!is_sse_content_type(&header_map(&[("content-type", value)])), "{value}");
    }
    assert!(!is_sse_content_type(&HeaderMap::new()));
    let first = header_map(&[("content-type", "text/plain"), ("content-type", "text/event-stream")]);
    assert!(!is_sse_content_type(&first));
    let mut opaque = HeaderMap::new();
    opaque.insert("content-type", HeaderValue::from_bytes(b"text/event-stream\xff").unwrap());
    assert!(!is_sse_content_type(&opaque));
}

#[test]
fn errors_are_json() {
    let answer = proxy_error(400, "some_code", "a \"quoted\" message");
    assert_eq!(answer.status, 400);
    assert_eq!(answer.headers, header_map(&[("content-type", "application/json")]));
    assert_eq!(
        text(&answer),
        "{\"error\":{\"code\":\"some_code\",\"message\":\"a \\\"quoted\\\" message\",\"param\":null,\"type\":\"api_error\"}}"
    );
    let value: serde_json::Value = serde_json::from_slice(&answer.body).unwrap();
    assert_eq!(value["error"]["message"], "a \"quoted\" message");
    assert!(value["error"]["param"].is_null());
}

#[test]
fn an_error_has_four_members() {
    let members = error_members("c", "m");
    let expected = [
        ("message".to_owned(), Some("m".to_owned())),
        ("type".to_owned(), Some("api_error".to_owned())),
        ("param".to_owned(), None),
        ("code".to_owned(), Some("c".to_owned())),
    ];
    assert_eq!(members, expected);
    let answer = json_response(502, "{}");
    assert_eq!(answer.status, 502);
    assert_eq!(answer.headers, header_map(&[("content-type", "application/json")]));
    assert_eq!(answer.body, b"{}");
}

#[test]
fn streaming_is_asked_for_by_a_true_member() {
    assert!(is_streaming(b"{\"model\":\"m\",\"stream\":true}"));
    assert!(is_streaming(b" { \"stream\" : true } "));
    assert!(is_streaming(b"{\"stream\":false,\"stream\":true}"));
    for body in [
        "{\"stream\":false}",
        "{\"stream\":\"true\"}",
        "{\"stream\":1}",
        "{\"stream\":null}",
        "{\"Stream\":true}",
        "{\"options\":{\"stream\":true}}",
        "{\"stream\":true,\"stream\":false}",
        "{}",
        "[true]",
        "true",
        "\"stream\"",
        "{\"stream\":true",
        "",
    ] {
        assert!(!is_streaming(body.as_bytes()), "{body}");
    }
}

#[test]
fn the_first_member_of_a_name_decides() {
    let members = vec![
        ("model".to_owned(), None),
        ("stream".to_owned(), Some(true)),
        ("stream".to_owned(), Some(false)),
    ];
    assert!(member_is_true(&members, "stream"));
    assert!(!member_is_true(&members, "model"));
    assert!(!member_is_true(&members, "input"));
    assert!(wants_stream(&Some(members)));
    assert!(!wants_stream(&Some(vec![("stream".to_owned(), None)])));
    assert!(!wants_stream(&None));
}

#[test]
fn urls_name_the_endpoint() {
    assert_eq!(upstream_url("http://h:1//", None), "http://h:1/v1/responses");
    assert_eq!(upstream_url("http://h:1", Some("a=b&c")), "http://h:1/v1/responses?a=b&c");
    assert_eq!(upstream_url("http://h:1", Some("")), "http://h:1/v1/responses?");
}

#[test]
fn one_server_has_one_endpoint() {
    for given in ["http://h:1", "http://h:1/", "http://h:1/v1", "http://h:1//v1//"] {
        let url = upstream_url(&normalize_base_url(given), Some("q"));
        assert_eq!(url, "http://h:1/v1/responses?q");
    }
}

#[test]
fn probes_and_requests_present_the_same_credentials() {
    let out = filter_request_headers(&HeaderMap::new(), &config(Some(" k "))).unwrap();
    let probe = health_probe("http://h:1", &Some(" k ".to_owned())).unwrap();
    assert_eq!(out.get("authorization"), probe.headers.get("authorization"));
}

#[test]
fn clients_are_set_up_apart() {
    let state = ProxyState::new(config(None));
    assert_eq!(state.stream_client.connect_timeout_s, Some(10));
    assert_eq!(state.stream_client.read_timeout_s, None);
    assert_eq!(state.stream_client.pool_max_idle_per_host, Some(0));
    assert!(!state.stream_client.follow_redirects);
    assert_eq!(state.non_stream_client.connect_timeout_s, Some(10));
    assert_eq!(state.non_stream_client.read_timeout_s, Some(300));
    assert_eq!(state.non_stream_client.pool_max_idle_per_host, None);
    assert!(!state.non_stream_client.follow_redirects);
    assert_eq!(state.config.llm_api_base, "http://upstream:8000/");
}

#[test]
fn a_request_is_passed_on() {
    let headers = header_map(&[("host", "gateway"), ("content-type", "application/json")]);
    let body = b"{\"input\":\"hi\",\"stream\":true}".to_vec();
    let request = sent(after_body(&config(Some("k")), &headers, Some("x=1"), Some(body.clone())));
    assert_eq!(request.client, ClientKind::Stream);
    assert_eq!(request.url, "http://upstream:8000/v1/responses?x=1");
    assert_eq!(
        request.headers,
        header_map(&[("content-type", "application/json"), ("authorization", "Bearer k")])
    );
    assert_eq!(request.body, body);

    let request = sent(after_body(&config(None), &headers, None, Some(b"not json".to_vec())));
    assert_eq!(request.client, ClientKind::NonStream);
    assert_eq!(request.url, "http://upstream:8000/v1/responses");
    assert_eq!(request.body, b"not json");
}

#[test]
fn an_unreadable_body_is_refused() {
    assert_eq!(MAX_BODY_SIZE, 10_485_760);
    match after_body(&config(None), &HeaderMap::new(), None, None) {
        Ok(AfterBody::Reply(answer)) => {
            assert_eq!(answer.status, 400);
            assert!(text(&answer).contains("\"code\":\"body_too_large\",\"message\":\"Request body too large\""));
        }
        other => panic!("{other:?}"),
    }
}

#[test]
fn failures_upstream_are_reported() {
    match after_upstream(&UpstreamOutcome::TimedOut) {
        Ok(AfterUpstream::Reply(answer)) => {
            assert_eq!(answer.status, 504);
            assert!(text(&answer).contains("\"code\":\"upstream_timeout\",\"message\":\"Upstream timeout\""));
        }
        other => panic!("{other:?}"),
    }
    match after_upstream(&UpstreamOutcome::Failed) {
        Ok(AfterUpstream::Reply(answer)) => {
            assert_eq!(answer.status, 502);
            assert!(text(&answer).contains("\"code\":\"upstream_unavailable\",\"message\":\"Upstream unavailable\""));
        }
        other => panic!("{other:?}"),
    }
}

#[test]
fn an_answer_in_one_piece_is_collected() {
    let headers = header_map(&[("content-type", "application/json"), ("connection", "close")]);
    let outcome = UpstreamOutcome::Answered(ResponseHead { status: 429, headers });
    match after_upstream(&outcome) {
        Ok(AfterUpstream::Collect(head)) => {
            assert_eq!(head.status, 429);
            assert_eq!(head.headers, header_map(&[("content-type", "application/json")]));
            let answer = after_payload(head, Some(b"payload".to_vec()));
            assert_eq!(answer.status, 429);
            assert_eq!(answer.headers, header_map(&[("content-type", "application/json")]));
            assert_eq!(answer.body, b"payload");
        }
        other => panic!("{other:?}"),
    }
}

#[test]
fn a_lost_payload_is_reported() {
    let head = ResponseHead {
        status: 200,
        headers: HeaderMap::new(),
    };
    let answer = after_payload(head, None);
    assert_eq!(answer.status, 502);
    assert!(text(&answer).contains("\"message\":\"Failed to read upstream response\""));
}

#[test]
fn an_event_stream_is_not_buffered() {
    let headers = header_map(&[
        ("content-type", "text/event-stream; charset=utf-8"),
        ("x-accel-buffering", "yes"),
        ("transfer-encoding", "chunked"),
    ]);
    let outcome = UpstreamOutcome::Answered(ResponseHead { status: 200, headers });
    match after_upstream(&outcome) {
        Ok(AfterUpstream::Stream(head)) => {
            assert_eq!(head.status, 200);
            let expected = header_map(&[
                ("content-type", "text/event-stream; charset=utf-8"),
                ("x-accel-buffering", "no"),
            ]);
            assert_eq!(head.headers, expected);
        }
        other => panic!("{other:?}"),
    }
}

#[test]
fn odd_statuses_become_bad_gateway() {
    for (given, expected) in [(0, 502), (99, 502), (100, 100), (599, 599), (999, 999), (1000, 502)] {
        let outcome = UpstreamOutcome::Answered(ResponseHead {
            status: given,
            headers: HeaderMap::new(),
        });
        match after_upstream(&outcome) {
            Ok(AfterUpstream::Collect(head)) => assert_eq!(head.status, expected),
            other => panic!("{other:?}"),
        }
    }
}
