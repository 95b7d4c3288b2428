use hyper::header::{HeaderName, HeaderValue};
use hyper::HeaderMap;
use talkboy::convert::ConversionError;
use talkboy::facts::RequestFacts;
use talkboy::load::{
    http_version_for_str, request_body_and_encoding, response_body_and_encoding, HarLoader,
    HarLoadingError,
};
use talkboy::message::{HeaderField, RequestHead, ResponseHead, UriParts, Version};
use talkboy::model::{
    Content, Creator, Entry, Log, PostData, RequestEntry, ResponseEntry, Timings,
};
use talkboy::store::HarSession;

fn field(name: &str, value: &[u8]) -> HeaderField {
    HeaderField { name: name.to_string(), value: value.to_vec() }
}

fn map(fields: Vec<HeaderField>) -> HeaderMap {
    let mut m = HeaderMap::new();
    for f in fields {
        m.append(
            HeaderName::from_bytes(f.name.as_bytes()).unwrap(),
            HeaderValue::from_bytes(&f.value).unwrap(),
        );
    }
    m
}

fn content(text: Option<&str>, encoding: Option<&str>) -> Content {
    Content {
        size: 0,
        compression: None,
        mime_type: "text/plain".to_string(),
        text: text.map(|t| t.to_string()),
        encoding: encoding.map(|e| e.to_string()),
        comment: None,
    }
}

fn request(method: &str, url: &str, post_data: Option<PostData>) -> RequestEntry {
    RequestEntry {
        method: method.to_string(),
        url: url.to_string(),
        http_version: "HTTP/1.1".to_string(),
        cookies: Vec::new(),
        headers: Vec::new(),
        query_string: Vec::new(),
        post_data,
        headers_size: -1,
        body_size: -1,
        comment: None,
    }
}

fn entry(time: i64, request: RequestEntry) -> Entry {
    Entry {
        started_date_time: "2019-05-01T12:00:00+00:00".to_string(),
        time,
        request,
        response: ResponseEntry {
            status: 200,
            status_text: "200".to_string(),
            http_version: "HTTP/1.1".to_string(),
            cookies: Vec::new(),
            headers: Vec::new(),
            content: content(Some("ok"), None),
            redirect_url: String::new(),
            headers_size: -1,
            body_size: -1,
            comment: Some("kept".to_string()),
        },
        timings: Timings { send: -1, wait: -1, receive: -1 },
    }
}

fn log(version: &str, entries: Vec<Entry>) -> Log {
    Log {
        version: version.to_string(),
        creator: Creator { name: "other".to_string(), version: "9".to_string() },
        entries,
    }
}

fn method(m: &str) -> RequestFacts {
    RequestFacts::Method(m.to_string())
}

fn path(p: &str) -> RequestFacts {
    RequestFacts::PathAndQuery(p.to_string())
}

fn recorded(head: &RequestHead, body: Vec<u8>, response_body: Vec<u8>) -> HarSession {
    let mut session = HarSession::new();
    session.record_request(head, body).unwrap();
    session.start_session();
    let response = ResponseHead {
        status: 200,
        version: Version::Http11,
        headers: map(vec![field("content-type", b"text/plain"), field("x-raw", &[0xff, 0x80])]),
    };
    session.record_response(&response, response_body).unwrap();
    session.commit().unwrap();
    session
}

fn head(method: &str, path: &str) -> RequestHead {
    RequestHead {
        method: method.to_string(),
        uri: UriParts {
            text: format!("http://upstream.test{}", path),
            scheme: Some("http".to_string()),
            authority: Some("upstream.test".to_string()),
            path: path.to_string(),
            query: None,
            path_and_query: Some(path.to_string()),
        },
        version: Version::Http11,
        headers: map(vec![field("content-type", b"application/octet-stream")]),
    }
}

#[test]
fn an_archived_request_body_is_restored() {
    let text = PostData { mime_type: "text/plain".to_string(), text: "abc".to_string(), comment: None };
    assert_eq!(
        request_body_and_encoding(&text).unwrap(),
        (b"abc".to_vec(), "text/plain".to_string())
    );
    let binary = PostData {
        mime_type: String::new(),
        text: "//4A".to_string(),
        comment: Some("base64".to_string()),
    };
    assert_eq!(
        request_body_and_encoding(&binary).unwrap(),
        (vec![0xff, 0xfe, 0x00], String::new())
    );
    let broken = PostData {
        mime_type: String::new(),
        text: "?".to_string(),
        comment: Some("base64".to_string()),
    };
    assert!(matches!(
        request_body_and_encoding(&broken),
        Err(ConversionError::InvalidBase64(_))
    ));
}

#[test]
fn an_archived_response_body_is_restored() {
    assert_eq!(
        response_body_and_encoding(&content(None, None)).unwrap(),
        (None, String::new())
    );
    assert_eq!(
        response_body_and_encoding(&content(Some("abc"), None)).unwrap(),
        (Some(b"abc".to_vec()), "text/plain".to_string())
    );
    assert_eq!(
        response_body_and_encoding(&content(Some("//4A"), Some("base64"))).unwrap(),
        (Some(vec![0xff, 0xfe, 0x00]), "text/plain".to_string())
    );
    assert_eq!(
        response_body_and_encoding(&content(Some("//4A"), Some("gzip"))).unwrap(),
        (Some(b"//4A".to_vec()), "text/plain".to_string())
    );
    assert!(matches!(
        response_body_and_encoding(&content(Some("?"), Some("base64"))),
        Err(ConversionError::InvalidBase64(_))
    ));
}

#[test]
fn a_version_text_is_read_for_loading() {
    assert_eq!(http_version_for_str("HTTP/1.1").unwrap(), Version::Http11);
    assert_eq!(http_version_for_str("HTTP/2").unwrap(), Version::Http2);
    assert!(http_version_for_str("http/2").is_err());
    match http_version_for_str("HTTP/7") {
        Err(HarLoadingError::InvalidResponse(message)) => {
            assert_eq!(message, "Invalid HTTP version HTTP/7")
        }
        other => panic!("unexpected: {:?}", other),
    }
}

#[test]
fn only_regular_json_files_are_archives() {
    let loader = HarLoader::new();
    assert!(loader.accepts("recordings/p/GET.-hello.9beedbae.json", true));
    assert!(loader.accepts(".json", true));
    assert!(!loader.accepts("recordings/p/GET.-hello.9beedbae.json", false));
    assert!(!loader.accepts("recordings/p/notes.txt", true));
    assert!(!loader.accepts("recordings/p/archive.json.bak", true));
    assert!(!loader.accepts("json", true));
    assert!(!loader.accepts("", true));
    assert!(!loader.accepts("a.JSON", true));
}

#[test]
fn the_facts_of_a_request_are_its_method_and_its_path_and_query() {
    let loader = HarLoader::new();
    let facts = loader.get_facts(&request("get", "http://example.test/a/b?c=d&e", None)).unwrap();
    assert_eq!(facts, vec![method("GET"), path("/a/b?c=d&e")]);
}

#[test]
fn a_url_without_a_path_has_the_root_path() {
    let loader = HarLoader::new();
    let facts = loader.get_facts(&request("GET", "http://example.test", None)).unwrap();
    assert_eq!(facts, vec![method("GET"), path("/")]);
}

#[test]
fn a_url_of_a_host_alone_has_no_path_and_query() {
    let loader = HarLoader::new();
    let facts = loader.get_facts(&request("CONNECT", "example.test:443", None)).unwrap();
    assert_eq!(facts, vec![method("CONNECT"), path("")]);
}

#[test]
fn a_fragment_is_no_part_of_the_path_and_query() {
    let loader = HarLoader::new();
    let facts = loader.get_facts(&request("GET", "/a?b=1#frag", None)).unwrap();
    assert_eq!(facts, vec![method("GET"), path("/a?b=1")]);
}

#[test]
fn a_request_with_a_body_has_a_body_fact() {
    let loader = HarLoader::new();
    let data = PostData {
        mime_type: "application/json".to_string(),
        text: "{}".to_string(),
        comment: None,
    };
    let facts = loader.get_facts(&request("POST", "http://h.test/x", Some(data))).unwrap();
    assert_eq!(
        facts,
        vec![
            method("POST"),
            path("/x"),
            RequestFacts::Body { content_type: "application/json".to_string(), data: b"{}".to_vec() },
        ]
    );
}

#[test]
fn a_method_that_is_no_token_is_refused() {
    let loader = HarLoader::new();
    match loader.get_facts(&request("ge t", "http://h.test/x", None)) {
        Err(HarLoadingError::InvalidMatcher(message)) => assert_eq!(message, "Unknown method ge t"),
        other => panic!("unexpected: {:?}", other),
    }
    assert!(matches!(
        loader.get_facts(&request("", "http://h.test/x", None)),
        Err(HarLoadingError::InvalidMatcher(_))
    ));
}

#[test]
fn a_url_that_cannot_be_parsed_is_refused() {
    let loader = HarLoader::new();
    match loader.get_facts(&request("GET", "http://bad host/", None)) {
        Err(HarLoadingError::InvalidMatcher(message)) => {
            assert_eq!(message, "Invalid Uri http://bad host/")
        }
        other => panic!("unexpected: {:?}", other),
    }
    assert!(matches!(
        loader.get_facts(&request("GET", "", None)),
        Err(HarLoadingError::InvalidMatcher(_))
    ));
}

#[test]
fn the_method_is_judged_before_the_url_and_the_url_before_the_body() {
    let loader = HarLoader::new();
    let broken = PostData {
        mime_type: String::new(),
        text: "?".to_string(),
        comment: Some("base64".to_string()),
    };
    match loader.get_facts(&request("b a d", "http://bad host/", Some(broken.clone()))) {
        Err(HarLoadingError::InvalidMatcher(message)) => assert_eq!(message, "Unknown method b a d"),
        other => panic!("unexpected: {:?}", other),
    }
    match loader.get_facts(&request("GET", "http://bad host/", Some(broken.clone()))) {
        Err(HarLoadingError::InvalidMatcher(message)) => {
            assert_eq!(message, "Invalid Uri http://bad host/")
        }
        other => panic!("unexpected: {:?}", other),
    }
    assert!(matches!(
        loader.get_facts(&request("GET", "http://h.test/", Some(broken))),
        Err(HarLoadingError::Conversion(ConversionError::InvalidBase64(_)))
    ));
}

#[test]
fn an_entry_is_loaded_with_its_timing_and_its_response() {
    let loader = HarLoader::new();
    let e = entry(37, request("GET", "http://h.test/x", None));
    let loaded = loader.load_entry(&e).unwrap();
    assert_eq!(loaded.original_timing(), 37);
    assert_eq!(loaded.facts(), &vec![method("GET"), path("/x")]);
    assert_eq!(loaded.response(), &e.response);
}

#[test]
fn a_time_below_zero_counts_as_none() {
    let loader = HarLoader::new();
    let loaded = loader.load_entry(&entry(-1, request("GET", "http://h.test/x", None))).unwrap();
    assert_eq!(loaded.original_timing(), 0);
    let loaded = loader.load_entry(&entry(i64::MIN, request("GET", "/", None))).unwrap();
    assert_eq!(loaded.original_timing(), 0);
    let loaded = loader.load_entry(&entry(0, request("GET", "/", None))).unwrap();
    assert_eq!(loaded.original_timing(), 0);
}

#[test]
fn an_archive_of_another_version_is_refused() {
    let loader = HarLoader::new();
    let entries = vec![entry(1, request("GET", "http://h.test/x", None))];
    assert!(matches!(loader.load(&log("1.3", entries)), Err(HarLoadingError::InvalidVersion)));
    assert!(matches!(loader.load(&log("", Vec::new())), Err(HarLoadingError::InvalidVersion)));
}

#[test]
fn an_archive_is_loaded_entry_by_entry() {
    let loader = HarLoader::new();
    let entries = vec![
        entry(1, request("GET", "http://h.test/one", None)),
        entry(2, request("PUT", "http://h.test/two", None)),
        entry(3, request("GET", "http://h.test/three", None)),
    ];
    let loaded = loader.load(&log("1.2", entries)).unwrap();
    assert_eq!(loaded.len(), 3);
    assert_eq!(loaded[0].facts(), &vec![method("GET"), path("/one")]);
    assert_eq!(loaded[1].facts(), &vec![method("PUT"), path("/two")]);
    assert_eq!(loaded[2].original_timing(), 3);
    assert_eq!(loader.load(&log("1.2", Vec::new())).unwrap().len(), 0);
}

#[test]
fn the_first_entry_that_cannot_be_read_fails_the_archive() {
    let loader = HarLoader::new();
    let entries = vec![
        entry(1, request("GET", "http://h.test/one", None)),
        entry(2, request("GET", "http://bad host/", None)),
        entry(3, request("b a d", "http://h.test/three", None)),
    ];
    match loader.load(&log("1.2", entries)) {
        Err(HarLoadingError::InvalidMatcher(message)) => {
            assert_eq!(message, "Invalid Uri http://bad host/")
        }
        other => panic!("unexpected: {:?}", other),
    }
}

#[test]
fn several_archives_are_loaded_one_after_another() {
    let loader = HarLoader::new();
    let logs = vec![
        log("1.2", vec![entry(1, request("GET", "/a", None)), entry(2, request("GET", "/b", None))]),
        log("1.2", Vec::new()),
        log("1.2", vec![entry(3, request("GET", "/c", None))]),
    ];
    let loaded = loader.load_all(&logs).unwrap();
    let paths: Vec<&Vec<RequestFacts>> = loaded.iter().map(|t| t.facts()).collect();
    assert_eq!(
        paths,
        vec![
            &vec![method("GET"), path("/a")],
            &vec![method("GET"), path("/b")],
            &vec![method("GET"), path("/c")],
        ]
    );
    assert_eq!(loader.load_all(&Vec::new()).unwrap().len(), 0);
}

#[test]
fn the_first_archive_that_cannot_be_loaded_fails_them_all() {
    let loader = HarLoader::new();
    let logs = vec![
        log("1.2", vec![entry(1, request("GET", "/a", None))]),
        log("1.2", vec![entry(2, request("b a d", "/b", None))]),
        log("1.3", Vec::new()),
    ];
    assert!(matches!(loader.load_all(&logs), Err(HarLoadingError::InvalidMatcher(_))));
    let logs = vec![
        log("1.1", Vec::new()),
        log("1.2", vec![entry(2, request("b a d", "/b", None))]),
    ];
    assert!(matches!(loader.load_all(&logs), Err(HarLoadingError::InvalidVersion)));
}

#[test]
fn a_recorded_get_is_matched_after_loading() {
    let session = recorded(&head("GET", "/hello"), Vec::new(), b"hi".to_vec());
    let loaded = HarLoader::new().load(session.log()).unwrap();
    assert_eq!(loaded.len(), 1);
    assert!(loaded[0].matches(&[method("GET"), path("/hello")]));
    assert!(!loaded[0].matches(&[method("GET"), path("/other")]));
    assert_eq!(loaded[0].facts(), &vec![method("GET"), path("/hello")]);
}

#[test]
fn a_recorded_binary_body_is_restored_after_loading() {
    let session = recorded(&head("POST", "/upload"), vec![0xff, 0xfe, 0x00], Vec::new());
    let data = session.log().entries[0].request.post_data.as_ref().unwrap();
    assert_eq!(data.text, "//4A");
    assert_eq!(data.comment, Some("base64".to_string()));
    let loaded = HarLoader::new().load(session.log()).unwrap();
    assert_eq!(
        loaded[0].facts(),
        &vec![
            method("POST"),
            path("/upload"),
            RequestFacts::Body {
                content_type: "application/octet-stream".to_string(),
                data: vec![0xff, 0xfe, 0x00],
            },
        ]
    );
}

#[test]
fn a_recorded_transaction_comes_back_as_it_was() {
    let request = head("POST", "/things?kind=new");
    let session = recorded(&request, b"payload".to_vec(), vec![0x00, 0xff, 0x10]);
    let loaded = HarLoader::new().load(session.log()).unwrap();
    let t = &loaded[0];
    assert_eq!(t.facts()[0], method("POST"));
    assert_eq!(t.facts()[1], path("/things?kind=new"));
    assert_eq!(
        t.facts()[2],
        RequestFacts::Body {
            content_type: "application/octet-stream".to_string(),
            data: b"payload".to_vec(),
        }
    );
    let (response, body) = t.hyper_response().unwrap();
    assert_eq!(response.status, 200);
    assert_eq!(response.version, Version::Http11);
    assert_eq!(
        response.headers,
        vec![field("content-type", b"text/plain"), field("x-raw", &[0xff, 0x80])]
    );
    assert_eq!(body, vec![0x00, 0xff, 0x10]);
    assert_eq!(t.response(), &session.log().entries[0].response);
}

#[test]
fn loading_errors_say_what_went_wrong() {
    assert_eq!(HarLoadingError::InvalidVersion.message(), "Invalid HAR version");
    assert_eq!(
        HarLoadingError::InvalidMatcher("Unknown method x y".to_string()).message(),
        "Couldn't create matcher: Unknown method x y"
    );
    assert_eq!(
        HarLoadingError::InvalidResponse("Invalid HTTP version z".to_string()).message(),
        "Couldn't create response: Invalid HTTP version z"
    );
    assert_eq!(
        HarLoadingError::Conversion(ConversionError::InvalidCookieEncoding).message(),
        "Invalid encoding in cookie"
    );
}
