use hyper::header::{HeaderName, HeaderValue};
use hyper::HeaderMap;
use talkboy::config::DelayOptions;
use talkboy::convert::ConversionError;
use talkboy::facts::{ArchivedRequest, RequestFacts};
use talkboy::message::{HeaderField, RequestHead, UriParts, Version};
use talkboy::model::{Content, HeaderEntry, ResponseEntry};
use talkboy::playback::{answer, find_match, find_match_index, hyper_request_to_facts};

fn field(name: &str, value: &[u8]) -> HeaderField {
    HeaderField { name: name.to_string(), value: value.to_vec() }
}

fn map(fields: Vec<HeaderField>) -> HeaderMap {
    let mut m = HeaderMap::new();
    for f in fields {
        m.append(
            HeaderName::from_bytes(f.name.as_bytes()).unwrap(),
            HeaderValue::from_bytes(&f.value).unwrap(),
        );
    }
    m
}

fn head(method: &str, path_and_query: Option<&str>, headers: Vec<HeaderField>) -> RequestHead {
    RequestHead {
        method: method.to_string(),
        uri: UriParts {
            text: path_and_query.unwrap_or("*").to_string(),
            scheme: None,
            authority: None,
            path: path_and_query.unwrap_or("").to_string(),
            query: None,
            path_and_query: path_and_query.map(|p| p.to_string()),
        },
        version: Version::Http11,
        headers: map(headers),
    }
}

fn response(status: i64, text: &str) -> ResponseEntry {
    ResponseEntry {
        status,
        status_text: status.to_string(),
        http_version: "HTTP/1.1".to_string(),
        cookies: Vec::new(),
        headers: vec![HeaderEntry {
            name: "content-type".to_string(),
            value: "text/plain".to_string(),
            comment: None,
        }],
        content: Content {
            size: text.len() as i64,
            compression: None,
            mime_type: "text/plain".to_string(),
            text: Some(text.to_string()),
            encoding: None,
            comment: None,
        },
        redirect_url: String::new(),
        headers_size: -1,
        body_size: -1,
        comment: None,
    }
}

fn stored(timing: u64, method: &str, path: &str, text: &str) -> ArchivedRequest {
    ArchivedRequest::new(
        timing,
        vec![
            RequestFacts::Method(method.to_string()),
            RequestFacts::PathAndQuery(path.to_string()),
        ],
        response(200, text),
    )
}

#[test]
fn the_facts_of_a_request_without_a_body() {
    let headers = vec![field("accept", b"*/*"), field("x-raw", &[0xff])];
    let facts = hyper_request_to_facts(&head("GET", Some("/a?b=1"), headers.clone()), Vec::new());
    assert_eq!(
        facts,
        vec![
            RequestFacts::Method("GET".to_string()),
            RequestFacts::PathAndQuery("/a?b=1".to_string()),
            RequestFacts::Headers(headers),
        ]
    );
}

#[test]
fn the_facts_of_a_request_with_a_body() {
    let headers = vec![field("content-type", b"application/json"), field("content-type", b"x")];
    let facts = hyper_request_to_facts(&head("POST", Some("/a"), headers.clone()), b"{}".to_vec());
    assert_eq!(
        facts,
        vec![
            RequestFacts::Method("POST".to_string()),
            RequestFacts::PathAndQuery("/a".to_string()),
            RequestFacts::Body { content_type: "application/json".to_string(), data: b"{}".to_vec() },
            RequestFacts::Headers(headers),
        ]
    );
}

#[test]
fn a_body_without_a_media_type_has_an_empty_one() {
    let facts = hyper_request_to_facts(&head("POST", None, Vec::new()), vec![0]);
    assert_eq!(
        facts,
        vec![
            RequestFacts::Method("POST".to_string()),
            RequestFacts::PathAndQuery(String::new()),
            RequestFacts::Body { content_type: String::new(), data: vec![0] },
            RequestFacts::Headers(Vec::new()),
        ]
    );
    let headers = vec![field("content-type", &[0xff])];
    let facts = hyper_request_to_facts(&head("POST", Some("/"), headers), vec![0]);
    assert_eq!(facts[2], RequestFacts::Body { content_type: String::new(), data: vec![0] });
}

#[test]
fn the_first_transaction_that_matches_is_found() {
    let transactions = vec![
        stored(1, "GET", "/a", "first a"),
        stored(2, "GET", "/b", "b"),
        stored(3, "GET", "/a", "second a"),
    ];
    let found = find_match(&transactions, &head("GET", Some("/a"), Vec::new()), Vec::new());
    assert_eq!(found.unwrap().original_timing(), 1);
    let found = find_match(&transactions, &head("GET", Some("/b"), Vec::new()), Vec::new());
    assert_eq!(found.unwrap().original_timing(), 2);
    let found = find_match(&transactions, &head("PUT", Some("/a"), Vec::new()), Vec::new());
    assert_eq!(found, None);
    let facts = vec![RequestFacts::PathAndQuery("/a".to_string())];
    assert_eq!(find_match_index(&transactions, &facts), Some(0));
    let facts = vec![RequestFacts::PathAndQuery("/c".to_string())];
    assert_eq!(find_match_index(&transactions, &facts), None);
    assert_eq!(find_match_index(&transactions, &Vec::new()), Some(0));
    assert_eq!(find_match_index(&[], &Vec::new()), None);
}

#[test]
fn a_request_that_nothing_matches_is_not_found() {
    let a = answer(&[], &head("GET", Some("/anything"), Vec::new()), Vec::new(), &DelayOptions::Original);
    assert!(!a.matched);
    assert_eq!(a.delay_ms, 0);
    let (head, body) = a.response.unwrap();
    assert_eq!(head.status, 404);
    assert_eq!(head.headers, Vec::new());
    assert_eq!(body, b"Not Found".to_vec());
    let transactions = vec![stored(1, "GET", "/a", "a")];
    let a = answer(
        &transactions,
        &RequestHead {
            method: "POST".to_string(),
            uri: UriParts {
                text: "/a".to_string(),
                scheme: None,
                authority: None,
                path: "/a".to_string(),
                query: None,
                path_and_query: Some("/a".to_string()),
            },
            version: Version::Http2,
            headers: HeaderMap::new(),
        },
        b"x".to_vec(),
        &DelayOptions::Static { millis: 250 },
    );
    assert_eq!(a.delay_ms, 0);
    assert_eq!(a.response.unwrap().0.status, 404);
}

#[test]
fn a_matched_request_is_answered_after_the_delay() {
    let transactions = vec![stored(75, "GET", "/a", "hello")];
    let request = head("GET", Some("/a"), vec![field("accept", b"*/*")]);
    let a = answer(&transactions, &request, Vec::new(), &DelayOptions::Static { millis: 250 });
    assert!(a.matched);
    assert_eq!(a.delay_ms, 250);
    let (head, body) = a.response.unwrap();
    assert_eq!(head.status, 200);
    assert_eq!(head.version, Version::Http11);
    assert_eq!(head.headers, vec![field("content-type", b"text/plain")]);
    assert_eq!(body, b"hello".to_vec());
    let a = answer(&transactions, &request, Vec::new(), &DelayOptions::Original);
    assert_eq!(a.delay_ms, 75);
    let a = answer(&transactions, &request, Vec::new(), &DelayOptions::NoDelay);
    assert_eq!(a.delay_ms, 0);
}

#[test]
fn a_match_that_cannot_be_restored_is_an_error_after_the_delay() {
    let mut broken = response(200, "x");
    broken.http_version = "HTTP/9".to_string();
    let transactions = vec![ArchivedRequest::new(10, Vec::new(), broken)];
    let a = answer(
        &transactions,
        &head("GET", Some("/"), Vec::new()),
        Vec::new(),
        &DelayOptions::Original,
    );
    assert_eq!(a.delay_ms, 10);
    assert!(matches!(a.response, Err(ConversionError::InvalidHttpVersion(_))));
}
