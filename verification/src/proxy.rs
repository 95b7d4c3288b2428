//! Recording: what is stripped from and added to the messages that pass
//! through, where requests are sent on to, and what is archived.

use vstd::prelude::*;
use crate::convert::{client_cookies, same_text, server_cookies, ConversionError, CookieScan};
use hyper::header::HeaderValue;
use hyper::HeaderMap;
use crate::message::{RequestHead, ResponseHead, UriParts};
use crate::outside::{
    header_fields, header_map_insert, header_map_len, header_map_remove, is_header_name,
    is_header_value,
};
use crate::model::{copy_opt, opt_view};
use crate::store::{
    archive_name, built_entry, hash_prefix, missing, recorded_request, recorded_response,
    request_fingerprint, HarSession, IncompleteEntryError, Moment,
};
use crate::text::text_bytes;

verus! {

/// Whether a header, by its name in lower case, holds for one connection
/// only and is not passed on.
pub open spec fn is_hop_header(name: Seq<char>) -> bool {
    name == "connection"@ || name == "keep-alive"@ || name == "proxy-authenticate"@ || name
        == "proxy-authorization"@ || name == "te"@ || name == "trailers"@ || name
        == "transfer-encoding"@ || name == "upgrade"@
}

/// Whether a header holds for one connection only.
pub fn is_hop(name: &str) -> (r: bool)
    ensures
        r == is_hop_header(name@),
{
    same_text(name, "connection") || same_text(name, "keep-alive") || same_text(
        name,
        "proxy-authenticate",
    ) || same_text(name, "proxy-authorization") || same_text(name, "te") || same_text(
        name,
        "trailers",
    ) || same_text(name, "transfer-encoding") || same_text(name, "upgrade")
}

/// How often a header is among the headers.
pub open spec fn held(fields: Seq<(Seq<char>, Seq<u8>)>, field: (Seq<char>, Seq<u8>)) -> nat {
    fields.to_multiset().count(field)
}

/// Whether `after` holds the headers of `before` that are passed on: none
/// that holds for one connection only, and every other as often as before.
pub open spec fn is_passed_on(
    before: Seq<(Seq<char>, Seq<u8>)>,
    after: Seq<(Seq<char>, Seq<u8>)>,
) -> bool {
    forall|f: (Seq<char>, Seq<u8>)|
        #[trigger] held(after, f) == if is_hop_header(f.0) {
            0
        } else {
            held(before, f)
        }
}

/// Whether `after` holds the headers of `before` that are sent on to the
/// upstream: `host` once, with this value; of the others none that holds
/// for one connection only, and every other as often as before.
pub open spec fn is_sent_on(
    before: Seq<(Seq<char>, Seq<u8>)>,
    after: Seq<(Seq<char>, Seq<u8>)>,
    host: Seq<u8>,
) -> bool {
    forall|f: (Seq<char>, Seq<u8>)|
        #[trigger] held(after, f) == if f.0 == "host"@ {
            if f.1 == host {
                1nat
            } else {
                0nat
            }
        } else if is_hop_header(f.0) {
            0
        } else {
            held(before, f)
        }
}

/// Strips the headers that hold for one connection only.
pub fn remove_hop_headers(headers: &mut HeaderMap<HeaderValue>)
    ensures
        is_passed_on(header_fields(*old(headers)), header_fields(*final(headers))),
{
    proof {
        reveal_strlit("connection");
        reveal_strlit("keep-alive");
        reveal_strlit("proxy-authenticate");
        reveal_strlit("proxy-authorization");
        reveal_strlit("te");
        reveal_strlit("trailers");
        reveal_strlit("transfer-encoding");
        reveal_strlit("upgrade");
    }
    let ghost f0 = header_fields(*headers);
    header_map_remove(headers, "connection");
    let ghost f1 = header_fields(*headers);
    header_map_remove(headers, "keep-alive");
    let ghost f2 = header_fields(*headers);
    header_map_remove(headers, "proxy-authenticate");
    let ghost f3 = header_fields(*headers);
    header_map_remove(headers, "proxy-authorization");
    let ghost f4 = header_fields(*headers);
    header_map_remove(headers, "te");
    let ghost f5 = header_fields(*headers);
    header_map_remove(headers, "trailers");
    let ghost f6 = header_fields(*headers);
    header_map_remove(headers, "transfer-encoding");
    let ghost f7 = header_fields(*headers);
    header_map_remove(headers, "upgrade");
    let ghost f8 = header_fields(*headers);
    assert forall|f: (Seq<char>, Seq<u8>)| #[trigger]
        held(f8, f) == if is_hop_header(f.0) {
            0
        } else {
            held(f0, f)
        } by {
        assert(held(f1, f) == f1.to_multiset().count(f));
        assert(held(f2, f) == f2.to_multiset().count(f));
        assert(held(f3, f) == f3.to_multiset().count(f));
        assert(held(f4, f) == f4.to_multiset().count(f));
        assert(held(f5, f) == f5.to_multiset().count(f));
        assert(held(f6, f) == f6.to_multiset().count(f));
        assert(held(f7, f) == f7.to_multiset().count(f));
        assert(held(f8, f) == f8.to_multiset().count(f));
    }
}

/// A target to send requests on to that names no host.
#[derive(Debug, PartialEq, Eq)]
pub struct AuthorityError {
    pub uri: String,
}

impl AuthorityError {
    /// What the error says.
    pub fn message(&self) -> (text: String)
        ensures
            text@ == "Proxy target '"@ + self.uri@ + "' has no authority"@,
    {
        String::from_str("Proxy target '").concat(self.uri.as_str()).concat("' has no authority")
    }
}

/// The host and port that a target names.
pub fn extract_authority(uri: &UriParts) -> (r: Result<String, AuthorityError>)
    ensures
        match r {
            Ok(authority) => uri@.authority == Some(authority@),
            Err(e) => uri@.authority is None && e.uri@ == uri@.text,
        },
{
    match &uri.authority {
        Some(a) => Ok(a.clone()),
        None => Err(AuthorityError { uri: uri.text.clone() }),
    }
}

/// The parts of the target that a request is sent on to.
#[derive(Debug, PartialEq, Eq)]
pub struct TargetParts {
    pub scheme: String,
    pub authority: String,
    pub path_and_query: Option<String>,
}

/// The target that a request is sent on to: the scheme and the host of the
/// upstream, `http` where it names no scheme, and the path and query of
/// the request. An upstream that names no host is refused.
pub fn calculate_target_uri(requested: &UriParts, proxied: &UriParts) -> (r: Result<
    TargetParts,
    AuthorityError,
>)
    ensures
        match r {
            Ok(target) => proxied@.authority == Some(target.authority@) && target.scheme@
                == (match proxied@.scheme {
                Some(s) => s,
                None => "http"@,
            }) && opt_view(target.path_and_query) == requested@.path_and_query,
            Err(e) => proxied@.authority is None && e.uri@ == proxied@.text,
        },
{
    let authority = match extract_authority(proxied) {
        Ok(a) => a,
        Err(e) => {
            return Err(e);
        },
    };
    let scheme = match &proxied.scheme {
        Some(s) => s.clone(),
        None => String::from_str("http"),
    };
    Ok(TargetParts { scheme, authority, path_and_query: copy_opt(&requested.path_and_query) })
}

/// What keeps a request from being sent on.
#[derive(Debug, Clone, Copy, PartialEq, Eq, Structural)]
pub enum ProxyError {
    /// The upstream's host cannot stand in a `host` header.
    InvalidHostHeader,
    /// The request has more headers than a map holds.
    TooManyHeaders,
}

/// The head of the request that is sent on: without the headers that hold
/// for one connection only, with the upstream as its one host, and with the
/// new target. A request with 32768 headers or more to pass on is refused,
/// and so is a host that cannot stand in a header.
pub fn create_proxied_request(head: RequestHead, target: UriParts, host_header: Vec<u8>) -> (r:
    Result<RequestHead, ProxyError>)
    ensures
        match r {
            Ok(sent) => {
                &&& sent@.method == head@.method
                &&& sent@.version == head@.version
                &&& sent@.uri == target@
                &&& is_sent_on(head@.headers, sent@.headers, host_header@)
                &&& is_header_name("host"@) && is_header_value(host_header@)
            },
            Err(ProxyError::TooManyHeaders) => exists|kept: Seq<(Seq<char>, Seq<u8>)>|
                #[trigger] is_passed_on(head@.headers, kept) && kept.len() >= 32768,
            Err(ProxyError::InvalidHostHeader) => {
                &&& !(is_header_name("host"@) && is_header_value(host_header@))
                &&& exists|kept: Seq<(Seq<char>, Seq<u8>)>|
                    #[trigger] is_passed_on(head@.headers, kept) && kept.len() < 32768
            },
        },
{
    let ghost before = head@.headers;
    let mut sent = head;
    remove_hop_headers(&mut sent.headers);
    let ghost kept = header_fields(sent.headers);
    if header_map_len(&sent.headers) >= 32768 {
        assert(is_passed_on(before, kept) && kept.len() >= 32768);
        return Err(ProxyError::TooManyHeaders);
    }
    proof {
        reveal_strlit("host");
    }
    if !header_map_insert(&mut sent.headers, "host", &host_header) {
        assert(is_passed_on(before, kept) && kept.len() < 32768);
        return Err(ProxyError::InvalidHostHeader);
    }
    sent.uri = target;
    proof {
        let after = header_fields(sent.headers);
        reveal_strlit("connection");
        reveal_strlit("keep-alive");
        reveal_strlit("proxy-authenticate");
        reveal_strlit("proxy-authorization");
        reveal_strlit("te");
        reveal_strlit("trailers");
        reveal_strlit("transfer-encoding");
        reveal_strlit("upgrade");
        assert forall|f: (Seq<char>, Seq<u8>)| #[trigger]
            held(after, f) == if f.0 == "host"@ {
                if f.1 == host_header@ {
                    1nat
                } else {
                    0nat
                }
            } else if is_hop_header(f.0) {
                0
            } else {
                held(before, f)
            } by {
            assert(held(after, f) == after.to_multiset().count(f));
            assert(held(kept, f) == kept.to_multiset().count(f));
        }
    }
    Ok(sent)
}

/// The head of the response that is handed back: without the headers that
/// hold for one connection only.
pub fn create_proxied_response(head: ResponseHead) -> (r: ResponseHead)
    ensures
        r@.status == head@.status,
        r@.version == head@.version,
        is_passed_on(head@.headers, r@.headers),
{
    let mut back = head;
    remove_hop_headers(&mut back.headers);
    back
}

/// The value of the `host` header for an upstream.
pub fn host_header(authority: &str) -> (value: Vec<u8>)
    ensures
        value@ == crate::text::bytes_of(authority@),
{
    text_bytes(authority)
}

/// Whether a status is among those whose responses are not archived.
pub fn is_ignored(status: u16, ignored_status_codes: &Vec<u16>) -> (r: bool)
    ensures
        r == ignored_status_codes@.contains(status),
{
    let mut i: usize = 0;
    while i < ignored_status_codes.len()
        invariant
            i <= ignored_status_codes.len(),
            forall|j: int| 0 <= j < i ==> ignored_status_codes@[j] != status,
        decreases ignored_status_codes.len() - i,
    {
        if ignored_status_codes[i] == status {
            return true;
        }
        i += 1;
    }
    false
}

/// The base of the name of a transaction's file: the method, a dot, and the
/// path without the query.
pub open spec fn base_name(method: Seq<char>, path: Seq<char>) -> Seq<char> {
    method + "."@ + path
}

/// What recording a transaction can fail on.
#[derive(Debug)]
pub enum RecordError {
    /// A message could not be put in its archived form.
    Conversion(ConversionError),
    /// The transaction lacked a part when it was to be committed.
    Incomplete(IncompleteEntryError),
}

/// Begins the recording of a transaction: a new session that holds the
/// request and is started at the moment the clock shows.
pub fn start_recording(head: &RequestHead, body: Vec<u8>) -> (r: Result<HarSession, ConversionError>)
    ensures
        match r {
            Ok(session) => client_cookies(head@.headers) matches CookieScan::Cookies(cookies)
                && session.pending_request() == Some(recorded_request(head@, body@, cookies))
                && session.pending_hash() == Some(request_fingerprint(head@, body@))
                && session.started() is Some && session.pending_response() is None
                && session.entries().len() == 0,
            Err(ConversionError::InvalidCookieEncoding) => client_cookies(head@.headers)
                is BadEncoding,
            Err(ConversionError::InvalidCookie(_)) => client_cookies(head@.headers) is BadCookie,
            Err(_) => false,
        },
{
    let mut har = HarSession::new();
    match har.record_request(head, body) {
        Ok(()) => {},
        Err(e) => {
            return Err(e);
        },
    }
    har.start_session();
    Ok(har)
}

/// Ends the recording of a transaction with the upstream's response. The
/// response is recorded. Where its status is among the ignored ones,
/// nothing more happens and there is no file. Otherwise the transaction is
/// committed as of the moment the clock shows, and the result is the name
/// of the file that is to hold the log. The commit fails only where no
/// request was recorded or the session was not started; the response then
/// stays recorded.
pub fn finish_recording(
    session: &mut HarSession,
    head: &ResponseHead,
    body: Vec<u8>,
    ignored_status_codes: &Vec<u16>,
    method: &str,
    path_without_query: &str,
) -> (r: Result<Option<String>, RecordError>)
    requires
        body@.len() <= i64::MAX,
    ensures
        final(session).log_header() == old(session).log_header(),
        match r {
            Ok(None) => {
                &&& ignored_status_codes@.contains(head.status)
                &&& server_cookies(head@.headers) matches CookieScan::Cookies(cookies)
                &&& final(session).pending_response() == Some(
                    recorded_response(head@, body@, cookies),
                )
                &&& final(session).entries() == old(session).entries()
                &&& final(session).pending_request() == old(session).pending_request()
                &&& final(session).started() == old(session).started()
            },
            Ok(Some(name)) => {
                &&& !ignored_status_codes@.contains(head.status)
                &&& server_cookies(head@.headers) matches CookieScan::Cookies(cookies)
                &&& old(session).pending_request() is Some
                &&& old(session).started() is Some
                &&& exists|now: Moment|
                    final(session).entries() == old(session).entries().push(
                        #[trigger] built_entry(
                            old(session).pending_request()->0,
                            recorded_response(head@, body@, cookies),
                            old(session).started()->0,
                            now,
                        ),
                    )
                &&& final(session).pending_request() is None
                &&& final(session).pending_response() is None
                &&& final(session).started() is None
                &&& name@ == archive_name(
                    base_name(method@, path_without_query@),
                    hash_prefix(final(session).entries()[0].request.comment),
                )
            },
            Err(RecordError::Conversion(e)) => {
                &&& match e {
                    ConversionError::InvalidCookieEncoding => server_cookies(head@.headers)
                        is BadEncoding,
                    ConversionError::InvalidCookie(_) => server_cookies(head@.headers)
                        is BadCookie,
                    _ => false,
                }
                &&& final(session).entries() == old(session).entries()
                &&& final(session).pending_response() == old(session).pending_response()
            },
            Err(RecordError::Incomplete(e)) => {
                &&& !ignored_status_codes@.contains(head.status)
                &&& server_cookies(head@.headers) matches CookieScan::Cookies(cookies)
                &&& final(session).pending_response() == Some(
                    recorded_response(head@, body@, cookies),
                )
                &&& final(session).pending_request() == old(session).pending_request()
                &&& final(session).started() == old(session).started()
                &&& missing(
                    old(session).pending_request(),
                    final(session).pending_response(),
                    old(session).started(),
                ) == Some(e)
                &&& final(session).entries() == old(session).entries()
            },
        },
{
    match session.record_response(head, body) {
        Ok(()) => {},
        Err(e) => {
            return Err(RecordError::Conversion(e));
        },
    }
    if is_ignored(head.status, ignored_status_codes) {
        return Ok(None);
    }
    match session.commit() {
        Ok(_) => {},
        Err(e) => {
            return Err(RecordError::Incomplete(e));
        },
    }
    let file_name_part = String::from_str(method).concat(".").concat(path_without_query);
    match session.file_name(file_name_part.as_str()) {
        Ok(name) => Ok(Some(name)),
        Err(e) => Err(RecordError::Incomplete(e)),
    }
}

} // verus!
