use hyper::header::{HeaderName, HeaderValue};
use hyper::HeaderMap;
use talkboy::message::{HeaderField, RequestHead, ResponseHead, UriParts, Version};
use talkboy::proxy::{
    calculate_target_uri, create_proxied_request, create_proxied_response, extract_authority,
    finish_recording, host_header, is_hop, is_ignored, remove_hop_headers, start_recording,
    AuthorityError, ProxyError, RecordError, TargetParts,
};
use talkboy::store::IncompleteEntryError;

fn field(name: &str, value: &[u8]) -> HeaderField {
    HeaderField { name: name.to_string(), value: value.to_vec() }
}

fn map(fields: Vec<HeaderField>) -> HeaderMap {
    let mut m = HeaderMap::new();
    for f in fields {
        m.append(
            HeaderName::from_bytes(f.name.as_bytes()).unwrap(),
            HeaderValue::from_bytes(&f.value).unwrap(),
        );
    }
    m
}

fn upstream() -> UriParts {
    UriParts {
        text: "https://api.upstream.test:8443/".to_string(),
        scheme: Some("https".to_string()),
        authority: Some("api.upstream.test:8443".to_string()),
        path: "/".to_string(),
        query: None,
        path_and_query: Some("/".to_string()),
    }
}

fn origin_form(path: &str, query: Option<&str>) -> UriParts {
    let path_and_query = match query {
        Some(q) => format!("{}?{}", path, q),
        None => path.to_string(),
    };
    UriParts {
        text: path_and_query.clone(),
        scheme: None,
        authority: None,
        path: path.to_string(),
        query: query.map(|q| q.to_string()),
        path_and_query: Some(path_and_query),
    }
}

fn request(path: &str, headers: Vec<HeaderField>) -> RequestHead {
    RequestHead {
        method: "GET".to_string(),
        uri: UriParts {
            text: format!("https://api.upstream.test:8443{}", path),
            scheme: Some("https".to_string()),
            authority: Some("api.upstream.test:8443".to_string()),
            path: path.to_string(),
            query: None,
            path_and_query: Some(path.to_string()),
        },
        version: Version::Http11,
        headers: map(headers),
    }
}

#[test]
fn the_eight_hop_by_hop_headers_are_known() {
    for name in [
        "connection",
        "keep-alive",
        "proxy-authenticate",
        "proxy-authorization",
        "te",
        "trailers",
        "transfer-encoding",
        "upgrade",
    ] {
        assert!(is_hop(name), "{}", name);
    }
    for name in ["host", "content-type", "trailer", "proxy-connection", "", "Connection"] {
        assert!(!is_hop(name), "{}", name);
    }
}

#[test]
fn hop_by_hop_headers_are_stripped_and_the_others_stay() {
    let mut headers = map(vec![
        field("connection", b"keep-alive"),
        field("accept", b"*/*"),
        field("keep-alive", b"timeout=5"),
        field("x-twice", b"1"),
        field("te", b"trailers"),
        field("transfer-encoding", b"chunked"),
        field("x-twice", b"2"),
        field("upgrade", b"h2c"),
        field("proxy-authorization", b"Basic eA=="),
        field("proxy-authenticate", b"Basic"),
        field("trailers", b"x"),
        field("content-type", b"text/plain"),
    ]);
    remove_hop_headers(&mut headers);
    assert_eq!(
        headers,
        map(vec![
            field("accept", b"*/*"),
            field("x-twice", b"1"),
            field("x-twice", b"2"),
            field("content-type", b"text/plain"),
        ])
    );
    assert_eq!(headers.len(), 4);
    let twice: Vec<&[u8]> = headers.get_all("x-twice").iter().map(|v| v.as_bytes()).collect();
    assert_eq!(twice, vec![&b"1"[..], &b"2"[..]]);
    let mut none = HeaderMap::new();
    remove_hop_headers(&mut none);
    assert_eq!(none, HeaderMap::new());
}

#[test]
fn the_authority_of_a_target_is_taken_out() {
    assert_eq!(extract_authority(&upstream()), Ok("api.upstream.test:8443".to_string()));
    let e = extract_authority(&origin_form("/only/a/path", None)).unwrap_err();
    assert_eq!(e, AuthorityError { uri: "/only/a/path".to_string() });
    assert_eq!(e.message(), "Proxy target '/only/a/path' has no authority");
}

#[test]
fn the_target_has_the_upstream_and_the_requested_path_and_query() {
    let target = calculate_target_uri(&origin_form("/v1/items", Some("page=2")), &upstream());
    assert_eq!(
        target,
        Ok(TargetParts {
            scheme: "https".to_string(),
            authority: "api.upstream.test:8443".to_string(),
            path_and_query: Some("/v1/items?page=2".to_string()),
        })
    );
}

#[test]
fn a_target_without_a_scheme_is_sent_over_http() {
    let mut bare = upstream();
    bare.scheme = None;
    let mut asterisk = origin_form("", None);
    asterisk.path_and_query = None;
    let target = calculate_target_uri(&asterisk, &bare).unwrap();
    assert_eq!(target.scheme, "http");
    assert_eq!(target.path_and_query, None);
}

#[test]
fn an_upstream_without_an_authority_is_refused() {
    let e = calculate_target_uri(&origin_form("/x", None), &origin_form("/upstream", None));
    assert_eq!(e, Err(AuthorityError { uri: "/upstream".to_string() }));
}

#[test]
fn the_host_header_is_the_authority() {
    assert_eq!(host_header("api.upstream.test:8443"), b"api.upstream.test:8443".to_vec());
}

#[test]
fn the_request_that_is_sent_on_is_rewritten() {
    let head = RequestHead {
        method: "PUT".to_string(),
        uri: origin_form("/v1/items", None),
        version: Version::Http10,
        headers: map(vec![
            field("host", b"localhost:8080"),
            field("connection", b"close"),
            field("accept", b"*/*"),
            field("host", b"other:1"),
        ]),
    };
    let sent =
        create_proxied_request(head, upstream(), host_header("api.upstream.test:8443")).unwrap();
    assert_eq!(sent.method, "PUT");
    assert_eq!(sent.version, Version::Http10);
    assert_eq!(sent.uri, upstream());
    assert_eq!(
        sent.headers,
        map(vec![field("host", b"api.upstream.test:8443"), field("accept", b"*/*")])
    );
    assert_eq!(sent.headers.len(), 2);
}

#[test]
fn a_request_without_a_host_gets_one() {
    let head = RequestHead {
        method: "GET".to_string(),
        uri: origin_form("/", None),
        version: Version::Http11,
        headers: map(vec![field("accept", b"*/*")]),
    };
    let sent = create_proxied_request(head, upstream(), host_header("up.test")).unwrap();
    assert_eq!(sent.headers, map(vec![field("accept", b"*/*"), field("host", b"up.test")]));
}

#[test]
fn a_host_that_cannot_stand_in_a_header_is_refused() {
    let head = RequestHead {
        method: "GET".to_string(),
        uri: origin_form("/", None),
        version: Version::Http11,
        headers: HeaderMap::new(),
    };
    let r = create_proxied_request(head, upstream(), b"up.test\r\nx: y".to_vec());
    assert_eq!(r, Err(ProxyError::InvalidHostHeader));
}

#[test]
fn a_request_with_too_many_headers_is_refused() {
    let mut headers = HeaderMap::new();
    for _ in 0..32768 {
        headers.append(HeaderName::from_static("x-many"), HeaderValue::from_static("1"));
    }
    headers.append(HeaderName::from_static("connection"), HeaderValue::from_static("close"));
    let head = RequestHead {
        method: "GET".to_string(),
        uri: origin_form("/", None),
        version: Version::Http11,
        headers,
    };
    let r = create_proxied_request(head, upstream(), host_header("up.test"));
    assert_eq!(r, Err(ProxyError::TooManyHeaders));
}

#[test]
fn the_response_that_is_handed_back_is_stripped() {
    let head = ResponseHead {
        status: 429,
        version: Version::Http11,
        headers: map(vec![
            field("retry-after", b"1"),
            field("transfer-encoding", b"chunked"),
            field("connection", b"close"),
        ]),
    };
    let back = create_proxied_response(head);
    assert_eq!(back.status, 429);
    assert_eq!(back.version, Version::Http11);
    assert_eq!(back.headers, map(vec![field("retry-after", b"1")]));
}

#[test]
fn statuses_are_ignored_by_the_list() {
    assert!(is_ignored(429, &vec![500, 429]));
    assert!(!is_ignored(200, &vec![500, 429]));
    assert!(!is_ignored(429, &Vec::new()));
}

#[test]
fn a_transaction_is_recorded_from_start_to_finish() {
    let head = request("/hello", vec![field("host", b"api.upstream.test:8443")]);
    let mut session = start_recording(&head, Vec::new()).unwrap();
    let response = ResponseHead {
        status: 200,
        version: Version::Http11,
        headers: map(vec![field("content-type", b"text/plain")]),
    };
    let name = finish_recording(&mut session, &response, b"hi".to_vec(), &vec![429], "GET", "/hello");
    assert_eq!(name.unwrap(), Some("GET.-hello.9beedbae.json".to_string()));
    assert_eq!(session.log().entries.len(), 1);
    assert_eq!(session.log().entries[0].response.content.text, Some("hi".to_string()));
}

#[test]
fn an_ignored_status_is_not_archived() {
    let head = request("/limited", Vec::new());
    let mut session = start_recording(&head, Vec::new()).unwrap();
    let response = ResponseHead { status: 429, version: Version::Http11, headers: HeaderMap::new() };
    let name = finish_recording(&mut session, &response, Vec::new(), &vec![429], "GET", "/limited");
    assert_eq!(name.unwrap(), None);
    assert_eq!(session.log().entries.len(), 0);
    assert_eq!(session.file_name("GET./limited"), Err(IncompleteEntryError::EmptySession));
}

#[test]
fn a_request_with_a_bad_cookie_is_not_begun() {
    let head = request("/x", vec![field("cookie", b"nonsense")]);
    assert!(start_recording(&head, Vec::new()).is_err());
}

#[test]
fn a_response_with_a_bad_cookie_is_not_archived() {
    let head = request("/x", Vec::new());
    let mut session = start_recording(&head, Vec::new()).unwrap();
    let response = ResponseHead {
        status: 200,
        version: Version::Http11,
        headers: map(vec![field("set-cookie", b"nonsense")]),
    };
    let r = finish_recording(&mut session, &response, Vec::new(), &Vec::new(), "GET", "/x");
    assert!(matches!(r, Err(RecordError::Conversion(_))));
    assert_eq!(session.log().entries.len(), 0);
}

#[test]
fn finishing_what_was_not_begun_is_incomplete() {
    let mut session = talkboy::store::HarSession::new();
    let response = ResponseHead { status: 200, version: Version::Http11, headers: HeaderMap::new() };
    let r = finish_recording(&mut session, &response, Vec::new(), &Vec::new(), "GET", "/x");
    assert!(matches!(r, Err(RecordError::Incomplete(IncompleteEntryError::MissingRequest))));
}
