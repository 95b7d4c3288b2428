//! The recorder of a transaction, its fingerprint, and the name of the
//! file that holds it.

use vstd::prelude::*;
use crate::convert::{
    client_cookies, content_of, header_entry, post_data_of, query_list, server_cookies,
    version_text, ClientCookies, ConversionError, CookieScan, Header, HttpVersion, Query,
    RequestBody, ResponseBody, ServerCookies,
};
use crate::message::{
    field_views, find_header_text, header_text, HeaderField, RequestHead, RequestHeadView,
    ResponseHead, ResponseHeadView, Version,
};
use crate::model::{
    entry_views, header_views, opt_view, CookieEntryView, Creator, Entry, EntryView,
    HeaderEntry, HeaderEntryView, Log, RequestEntry, RequestEntryView, ResponseEntry,
    ResponseEntryView, Timings,
};
use crate::outside::{
    dashed, header_map_fields, is_lower_hex, moment_now, regex_replace_all,
    sha256_hex, sha256_hex_of,
};
use crate::text::{
    bytes_of, copy_range, decimal_of, decimal_text, find_from, join, occurs_at, remove_all,
    split_on, str_chars, string_from_chars, text_bytes, without,
};

verus! {

/// A moment of the clock in universal time: its RFC 3339 text, its whole
/// seconds since the start of 1970 and the nanoseconds within the second.
#[derive(Debug, PartialEq, Eq)]
pub struct Moment {
    pub rfc3339: String,
    pub seconds: i64,
    pub nanos: u32,
}

/// The base of a file's name made of a caller's text: `-` in place of every
/// character that is neither an ASCII letter or digit, `_` nor `.`, and no
/// more than the first 20 characters.
pub open spec fn normalized(text: Seq<char>) -> Seq<char> {
    if dashed(text).len() > 20 {
        dashed(text).take(20)
    } else {
        dashed(text)
    }
}

/// Makes the base of a file's name of a caller's text.
pub fn normalize_path(s: &str) -> (name: String)
    ensures
        name@ == normalized(s@),
{
    let replaced = match regex_replace_all("[[:^word:]--\\.]", s, "-") {
        Some(text) => text,
        None => {
            // The pattern is a regular expression, so this is never reached.
            proof {
                assert(false);
            }
            String::new()
        },
    };
    let chars = str_chars(replaced.as_str());
    if chars.len() > 20 {
        let head = copy_range(&chars, 0, 20);
        assert(head@ =~= dashed(s@).take(20));
        string_from_chars(&head)
    } else {
        replaced
    }
}

/// The nanoseconds from one moment to another.
pub open spec fn elapsed_nanos(
    start_seconds: i64,
    start_nanos: u32,
    end_seconds: i64,
    end_nanos: u32,
) -> int {
    (end_seconds - start_seconds) * 1_000_000_000 + (end_nanos - start_nanos)
}

/// The whole milliseconds of a span of nanoseconds, rounded towards zero.
pub open spec fn whole_millis(nanos: int) -> int {
    if nanos >= 0 {
        nanos / 1_000_000
    } else {
        -((-nanos) / 1_000_000)
    }
}

/// A number held to what an `i64` can hold.
pub open spec fn clamped(x: int) -> i64 {
    if x > i64::MAX {
        i64::MAX
    } else if x < i64::MIN {
        i64::MIN
    } else {
        x as i64
    }
}

/// The whole milliseconds from `start` to `end`.
pub open spec fn elapsed(start: Moment, end: Moment) -> i64 {
    clamped(whole_millis(elapsed_nanos(start.seconds, start.nanos, end.seconds, end.nanos)))
}

/// The whole milliseconds from `start` to `end`, rounded towards zero: less
/// than zero where `end` is the earlier.
pub fn elapsed_millis(start: &Moment, end: &Moment) -> (ms: i64)
    ensures
        ms == elapsed(*start, *end),
{
    let seconds: i128 = end.seconds as i128 - start.seconds as i128;
    let nanos: i128 = seconds * 1_000_000_000 + (end.nanos as i128 - start.nanos as i128);
    let millis: i128 = if nanos >= 0 {
        nanos / 1_000_000
    } else {
        -((-nanos) / 1_000_000)
    };
    if millis > i64::MAX as i128 {
        i64::MAX
    } else if millis < i64::MIN as i128 {
        i64::MIN
    } else {
        millis as i64
    }
}

/// The fingerprint of a transaction: the SHA-256 digest, in lower-case hex,
/// of the request's method, its path and query, the text of its HTTP version
/// and its body, in that order with nothing between them.
pub open spec fn fingerprint(
    method: Seq<char>,
    path_and_query: Seq<char>,
    version: Version,
    body: Seq<u8>,
) -> Seq<char> {
    sha256_hex_of(digest_input(method, path_and_query, version, body))
}

/// The bytes that a fingerprint is the digest of.
pub open spec fn digest_input(
    method: Seq<char>,
    path_and_query: Seq<char>,
    version: Version,
    body: Seq<u8>,
) -> Seq<u8> {
    bytes_of(method) + bytes_of(path_and_query) + bytes_of(version_text(version)) + body
}

/// A text that may be absent, as the empty text.
pub open spec fn or_empty(text: Option<Seq<char>>) -> Seq<char> {
    match text {
        Some(t) => t,
        None => Seq::empty(),
    }
}

/// The fingerprint of a request. Its headers, the host it was sent to and
/// the time play no part.
pub open spec fn request_fingerprint(head: RequestHeadView, body: Seq<u8>) -> Seq<char> {
    fingerprint(head.method, or_empty(head.uri.path_and_query), head.version, body)
}

/// Appends one byte string to another.
fn append_bytes(out: &mut Vec<u8>, more: &Vec<u8>)
    ensures
        final(out)@ == old(out)@ + more@,
{
    let mut i: usize = 0;
    while i < more.len()
        invariant
            i <= more.len(),
            out@ == old(out)@ + more@.take(i as int),
        decreases more.len() - i,
    {
        out.push(more[i]);
        i += 1;
        assert(out@ =~= old(out)@ + more@.take(i as int));
    }
    assert(more@.take(i as int) =~= more@);
}

/// Computes the fingerprint of a transaction.
pub fn compute_fingerprint(
    method: &str,
    path_and_query: &str,
    version: Version,
    body: &Vec<u8>,
) -> (hex: String)
    ensures
        hex@ == fingerprint(method@, path_and_query@, version, body@),
        hex@.len() == 64,
        forall|i: int| 0 <= i < hex@.len() ==> is_lower_hex(#[trigger] hex@[i]),
{
    let mut input = text_bytes(method);
    append_bytes(&mut input, &text_bytes(path_and_query));
    let version_name = HttpVersion::har(version);
    append_bytes(&mut input, &text_bytes(version_name.as_str()));
    append_bytes(&mut input, body);
    sha256_hex(&input)
}

/// Two transactions of one method, one path and query, one version and one
/// body have one fingerprint, whatever their headers, hosts and times.
pub proof fn lemma_fingerprint_stable(
    a: RequestHeadView,
    body_a: Seq<u8>,
    b: RequestHeadView,
    body_b: Seq<u8>,
)
    requires
        a.method == b.method,
        or_empty(a.uri.path_and_query) == or_empty(b.uri.path_and_query),
        a.version == b.version,
        body_a == body_b,
    ensures
        request_fingerprint(a, body_a) == request_fingerprint(b, body_b),
{
}

/// Different texts have different bytes.
pub proof fn lemma_bytes_tell_texts_apart(a: Seq<char>, b: Seq<char>)
    requires
        a != b,
    ensures
        bytes_of(a) != bytes_of(b),
{
    vstd::utf8::encode_utf8_decode_utf8(a);
    vstd::utf8::encode_utf8_decode_utf8(b);
}

/// Byte strings that differ still differ with the same bytes before and
/// after them.
pub proof fn lemma_middle_tells_apart(before: Seq<u8>, a: Seq<u8>, b: Seq<u8>, after: Seq<u8>)
    requires
        a != b,
    ensures
        before + a + after != before + b + after,
{
    let x = before + a + after;
    let y = before + b + after;
    if x == y {
        assert(x.len() == y.len());
        assert(a.len() == b.len());
        assert forall|i: int| 0 <= i < a.len() implies a[i] == b[i] by {
            assert(x[before.len() + i] == a[i]);
            assert(y[before.len() + i] == b[i]);
        }
        assert(a =~= b);
    }
}

/// Whether two requests differ in exactly one of the four parts that are digested.
pub open spec fn differ_in_one_part(
    method_a: Seq<char>,
    path_a: Seq<char>,
    version_a: Version,
    body_a: Seq<u8>,
    method_b: Seq<char>,
    path_b: Seq<char>,
    version_b: Version,
    body_b: Seq<u8>,
) -> bool {
    ||| method_a != method_b && path_a == path_b && version_a == version_b && body_a == body_b
    ||| method_a == method_b && path_a != path_b && version_a == version_b && body_a == body_b
    ||| method_a == method_b && path_a == path_b && version_a != version_b && body_a == body_b
    ||| method_a == method_b && path_a == path_b && version_a == version_b && body_a != body_b
}

/// Changing one of the four parts of a request changes the bytes that are
/// digested. (Whether the digest changes with them is for SHA-256 to say.)
pub proof fn lemma_digest_input_changes(
    method_a: Seq<char>,
    path_a: Seq<char>,
    version_a: Version,
    body_a: Seq<u8>,
    method_b: Seq<char>,
    path_b: Seq<char>,
    version_b: Version,
    body_b: Seq<u8>,
)
    requires
        differ_in_one_part(
            method_a,
            path_a,
            version_a,
            body_a,
            method_b,
            path_b,
            version_b,
            body_b,
        ),
    ensures
        digest_input(method_a, path_a, version_a, body_a) != digest_input(
            method_b,
            path_b,
            version_b,
            body_b,
        ),
{
    let ma = bytes_of(method_a);
    let mb = bytes_of(method_b);
    let pa = bytes_of(path_a);
    let pb = bytes_of(path_b);
    let va = bytes_of(version_text(version_a));
    let vb = bytes_of(version_text(version_b));
    let empty = Seq::<u8>::empty();
    if method_a != method_b {
        lemma_bytes_tell_texts_apart(method_a, method_b);
        lemma_middle_tells_apart(empty, ma, mb, pa + va + body_a);
        assert(empty + ma + (pa + va + body_a) =~= ma + pa + va + body_a);
        assert(empty + mb + (pa + va + body_a) =~= mb + pa + va + body_a);
    } else if path_a != path_b {
        lemma_bytes_tell_texts_apart(path_a, path_b);
        lemma_middle_tells_apart(ma, pa, pb, va + body_a);
        assert(ma + pa + (va + body_a) =~= ma + pa + va + body_a);
        assert(ma + pb + (va + body_a) =~= ma + pb + va + body_a);
    } else if version_a != version_b {
        crate::convert::lemma_version_texts_differ(version_a, version_b);
        lemma_bytes_tell_texts_apart(version_text(version_a), version_text(version_b));
        lemma_middle_tells_apart(ma + pa, va, vb, body_a);
    } else {
        lemma_middle_tells_apart(ma + pa + va, body_a, body_b, empty);
        assert(ma + pa + va + body_a + empty =~= ma + pa + va + body_a);
        assert(ma + pa + va + body_b + empty =~= ma + pa + va + body_b);
    }
}

/// The archived forms of a message's headers, in order.
pub open spec fn archived_headers(fields: Seq<(Seq<char>, Seq<u8>)>) -> Seq<HeaderEntryView> {
    fields.map_values(|f: (Seq<char>, Seq<u8>)| header_entry(f.0, f.1))
}

/// The archived forms of a message's headers, in order.
pub fn archive_headers(fields: &Vec<HeaderField>) -> (list: Vec<HeaderEntry>)
    ensures
        header_views(list@) == archived_headers(field_views(fields@)),
{
    let mut list: Vec<HeaderEntry> = Vec::new();
    let mut i: usize = 0;
    while i < fields.len()
        invariant
            i <= fields.len(),
            list.len() == i,
            forall|j: int|
                0 <= j < i ==> (#[trigger] list@[j])@ == header_entry(
                    fields@[j].name@,
                    fields@[j].value@,
                ),
        decreases fields.len() - i,
    {
        list.push(Header::har(fields[i].name.as_str(), &fields[i].value));
        i += 1;
    }
    assert(header_views(list@) =~= archived_headers(field_views(fields@)));
    list
}

/// The comment that carries a fingerprint.
pub open spec fn hash_comment(hash: Seq<char>) -> Seq<char> {
    "hash:"@ + hash
}

/// The archived form of a request whose cookies were read as `cookies`.
pub open spec fn recorded_request(
    head: RequestHeadView,
    body: Seq<u8>,
    cookies: Seq<CookieEntryView>,
) -> RequestEntryView {
    RequestEntryView {
        method: head.method,
        url: head.uri.text,
        http_version: version_text(head.version),
        cookies,
        headers: archived_headers(head.headers),
        query_string: query_list(head.uri.query),
        post_data: post_data_of(body, header_text(head.headers, "content-type"@)),
        headers_size: -1i64,
        body_size: -1i64,
        comment: Some(hash_comment(request_fingerprint(head, body))),
    }
}

/// The archived form of a response whose cookies were read as `cookies`.
pub open spec fn recorded_response(
    head: ResponseHeadView,
    body: Seq<u8>,
    cookies: Seq<CookieEntryView>,
) -> ResponseEntryView {
    ResponseEntryView {
        status: head.status as i64,
        status_text: decimal_of(head.status as nat),
        http_version: version_text(head.version),
        cookies,
        headers: archived_headers(head.headers),
        content: content_of(body, header_text(head.headers, "content-type"@)),
        redirect_url: header_text(head.headers, "location"@),
        headers_size: -1i64,
        body_size: -1i64,
        comment: None,
    }
}

/// What keeps a transaction from being committed.
#[derive(Debug, Clone, Copy, PartialEq, Eq, Structural)]
pub enum IncompleteEntryError {
    MissingRequest,
    MissingResponse,
    MissingBoth,
    MissingStart,
    EmptySession,
}

/// The view of an optional response.
pub open spec fn response_view(r: Option<ResponseEntry>) -> Option<ResponseEntryView> {
    match r {
        Some(r) => Some(r@),
        None => None,
    }
}

impl IncompleteEntryError {
    /// What the error says.
    pub open spec fn says(self) -> Seq<char> {
        match self {
            IncompleteEntryError::MissingRequest => "Incomplete Entry, missing Request"@,
            IncompleteEntryError::MissingResponse => "Incomplete Entry, missing Response"@,
            IncompleteEntryError::MissingBoth => {
                "Incomplete Entry, missing Request and Response"@
            },
            IncompleteEntryError::MissingStart => {
                "Incomplete Entry, missing Start time (did you call `start_session()`?)"@
            },
            IncompleteEntryError::EmptySession => "Empty Session (did you call `commit()`?)"@,
        }
    }

    /// What the error says.
    pub fn message(&self) -> (text: String)
        ensures
            text@ == self.says(),
    {
        match self {
            IncompleteEntryError::MissingRequest => String::from_str(
                "Incomplete Entry, missing Request",
            ),
            IncompleteEntryError::MissingResponse => String::from_str(
                "Incomplete Entry, missing Response",
            ),
            IncompleteEntryError::MissingBoth => String::from_str(
                "Incomplete Entry, missing Request and Response",
            ),
            IncompleteEntryError::MissingStart => String::from_str(
                "Incomplete Entry, missing Start time (did you call `start_session()`?)",
            ),
            IncompleteEntryError::EmptySession => String::from_str(
                "Empty Session (did you call `commit()`?)",
            ),
        }
    }
}

/// Why a session with these parts cannot be committed, if it cannot: the
/// request and the response are looked at first, then the start.
pub open spec fn missing(
    request: Option<RequestEntryView>,
    response: Option<ResponseEntryView>,
    start: Option<Moment>,
) -> Option<IncompleteEntryError> {
    if request is None && response is None {
        Some(IncompleteEntryError::MissingBoth)
    } else if request is None {
        Some(IncompleteEntryError::MissingRequest)
    } else if response is None {
        Some(IncompleteEntryError::MissingResponse)
    } else if start is None {
        Some(IncompleteEntryError::MissingStart)
    } else {
        None
    }
}

/// The transaction that a session with these parts commits at `now`.
pub open spec fn built_entry(
    request: RequestEntryView,
    response: ResponseEntryView,
    start: Moment,
    now: Moment,
) -> EntryView {
    EntryView {
        started_date_time: start.rfc3339@,
        time: elapsed(start, now),
        request,
        response,
        timings: Timings { send: -1i64, wait: -1i64, receive: -1i64 },
    }
}

/// The recorder of one transaction at a time: started, given a request
/// and a response, then committed to its log.
pub struct HarSession {
    log: Log,
    start_date: Option<Moment>,
    request: Option<(RequestEntry, String)>,
    response: Option<ResponseEntry>,
}

impl HarSession {
    /// The transactions committed so far.
    pub closed spec fn entries(&self) -> Seq<EntryView> {
        entry_views(self.log.entries@)
    }

    /// When the session was started, if it was.
    pub closed spec fn started(&self) -> Option<Moment> {
        self.start_date
    }

    /// The request recorded and not yet committed.
    pub closed spec fn pending_request(&self) -> Option<RequestEntryView> {
        match self.request {
            Some((request, _)) => Some(request@),
            None => None,
        }
    }

    /// The response recorded and not yet committed.
    pub closed spec fn pending_response(&self) -> Option<ResponseEntryView> {
        response_view(self.response)
    }

    /// The fingerprint of the request last recorded and not yet committed.
    pub closed spec fn pending_hash(&self) -> Option<Seq<char>> {
        match self.request {
            Some((_, hash)) => Some(hash@),
            None => None,
        }
    }

    /// The format's version and the writer's name and version in the log.
    pub closed spec fn log_header(&self) -> (Seq<char>, Seq<char>, Seq<char>) {
        (self.log.version@, self.log.creator.name@, self.log.creator.version@)
    }

    /// An empty session: nothing committed, nothing recorded, not started.
    pub fn new() -> (s: HarSession)
        ensures
            s.entries() == Seq::<EntryView>::empty(),
            s.started() is None,
            s.pending_request() is None,
            s.pending_response() is None,
            s.pending_hash() is None,
            s.log_header() == ("1.2"@, "Talkboy"@, "0.1.0"@),
    {
        let log = Log {
            version: String::from_str("1.2"),
            creator: Creator {
                name: String::from_str("Talkboy"),
                version: String::from_str("0.1.0"),
            },
            entries: Vec::new(),
        };
        assert(entry_views(log.entries@) =~= Seq::<EntryView>::empty());
        HarSession { log, start_date: None, request: None, response: None }
    }

    /// The log with what was committed so far.
    pub fn log(&self) -> (log: &Log)
        ensures
            entry_views(log.entries@) == self.entries(),
            (log.version@, log.creator.name@, log.creator.version@) == self.log_header(),
    {
        &self.log
    }

    /// Starts the session at `now`.
    pub fn start_session_at(&mut self, now: Moment)
        ensures
            final(self).started() == Some(now),
            final(self).entries() == old(self).entries(),
            final(self).pending_request() == old(self).pending_request(),
            final(self).pending_response() == old(self).pending_response(),
            final(self).pending_hash() == old(self).pending_hash(),
            final(self).log_header() == old(self).log_header(),
    {
        self.start_date = Some(now);
    }

    /// Starts the session at the moment the clock shows.
    pub fn start_session(&mut self)
        ensures
            final(self).started() is Some,
            final(self).entries() == old(self).entries(),
            final(self).pending_request() == old(self).pending_request(),
            final(self).pending_response() == old(self).pending_response(),
            final(self).pending_hash() == old(self).pending_hash(),
            final(self).log_header() == old(self).log_header(),
    {
        self.start_session_at(moment_now());
    }

    /// Appends a transaction to the log.
    pub fn add_entry(&mut self, entry: Entry)
        ensures
            final(self).entries() == old(self).entries().push(entry@),
            final(self).started() == old(self).started(),
            final(self).pending_request() == old(self).pending_request(),
            final(self).pending_response() == old(self).pending_response(),
            final(self).pending_hash() == old(self).pending_hash(),
            final(self).log_header() == old(self).log_header(),
    {
        self.log.entries.push(entry);
        assert(entry_views(self.log.entries@) =~= entry_views(old(self).log.entries@).push(entry@));
    }

    /// Whether the session is as it was but for the request recorded.
    pub open spec fn same_but_request(&self, before: &Self) -> bool {
        &&& self.entries() == before.entries()
        &&& self.started() == before.started()
        &&& self.pending_response() == before.pending_response()
        &&& self.log_header() == before.log_header()
    }

    /// Whether the session is as it was but for the response recorded.
    pub open spec fn same_but_response(&self, before: &Self) -> bool {
        &&& self.entries() == before.entries()
        &&& self.started() == before.started()
        &&& self.pending_request() == before.pending_request()
        &&& self.pending_hash() == before.pending_hash()
        &&& self.log_header() == before.log_header()
    }

    /// Records a request: computes its fingerprint and keeps its archived
    /// form with the fingerprint in its comment. A cookie header that cannot
    /// be read fails the call and leaves the session as it was.
    /// The short fingerprint that names the file is then the first 8 hex
    /// digits of the fingerprint.
    pub fn record_request(&mut self, head: &RequestHead, body: Vec<u8>) -> (r: Result<
        (),
        ConversionError,
    >)
        ensures
            final(self).same_but_request(old(self)),
            match r {
                Ok(()) => client_cookies(head@.headers) matches CookieScan::Cookies(cookies)
                    && final(self).pending_request() == Some(
                    recorded_request(head@, body@, cookies),
                ) && final(self).pending_hash() == Some(request_fingerprint(head@, body@))
                    && hash_prefix(Some(hash_comment(request_fingerprint(head@, body@))))
                    == request_fingerprint(head@, body@).take(8),
                Err(e) => final(self).pending_request() == old(self).pending_request()
                    && final(self).pending_hash() == old(self).pending_hash() && match e {
                    ConversionError::InvalidCookieEncoding => client_cookies(head@.headers)
                        is BadEncoding,
                    ConversionError::InvalidCookie(_) => client_cookies(head@.headers)
                        is BadCookie,
                    _ => false,
                },
            },
    {
        proof {
            reveal_strlit("content-type");
        }
        let mime_type = find_header_text(&head.headers, "content-type");
        let method = head.method.clone();
        let url = head.uri.text.clone();
        let path_and_query = match &head.uri.path_and_query {
            Some(pq) => pq.clone(),
            None => String::new(),
        };
        let http_version = HttpVersion::har(head.version);
        let request_hash = compute_fingerprint(
            method.as_str(),
            path_and_query.as_str(),
            head.version,
            &body,
        );
        proof {
            lemma_hash_prefix_of_fingerprint(request_hash@);
        }
        let cookies = match ClientCookies::har(&head.headers) {
            Ok(cookies) => cookies,
            Err(e) => {
                return Err(e);
            },
        };
        let query = match &head.uri.query {
            Some(q) => Some(q.as_str()),
            None => None,
        };
        let r = RequestEntry {
            method,
            url,
            http_version,
            cookies,
            headers: archive_headers(&header_map_fields(&head.headers)),
            query_string: Query::har(&query),
            post_data: RequestBody::har(body, mime_type),
            headers_size: -1,
            body_size: -1,
            comment: Some(String::from_str("hash:").concat(request_hash.as_str())),
        };
        self.request = Some((r, request_hash));
        Ok(())
    }

    /// Records a response: keeps its archived form. A cookie header that
    /// cannot be read fails the call and leaves the session as it was.
    pub fn record_response(&mut self, head: &ResponseHead, body: Vec<u8>) -> (r: Result<
        (),
        ConversionError,
    >)
        requires
            body@.len() <= i64::MAX,
        ensures
            final(self).same_but_response(old(self)),
            match r {
                Ok(()) => server_cookies(head@.headers) matches CookieScan::Cookies(cookies)
                    && final(self).pending_response() == Some(
                    recorded_response(head@, body@, cookies),
                ),
                Err(e) => final(self).pending_response() == old(self).pending_response()
                    && match e {
                    ConversionError::InvalidCookieEncoding => server_cookies(head@.headers)
                        is BadEncoding,
                    ConversionError::InvalidCookie(_) => server_cookies(head@.headers)
                        is BadCookie,
                    _ => false,
                },
            },
    {
        proof {
            reveal_strlit("content-type");
            reveal_strlit("location");
        }
        let mime_type = find_header_text(&head.headers, "content-type");
        let redirect_url = find_header_text(&head.headers, "location");
        let cookies = match ServerCookies::har(&head.headers) {
            Ok(cookies) => cookies,
            Err(e) => {
                return Err(e);
            },
        };
        let r = ResponseEntry {
            status: head.status as i64,
            status_text: decimal_text(head.status),
            http_version: HttpVersion::har(head.version),
            cookies,
            headers: archive_headers(&header_map_fields(&head.headers)),
            content: ResponseBody::har(body, mime_type),
            redirect_url,
            headers_size: -1,
            body_size: -1,
            comment: None,
        };
        self.response = Some(r);
        Ok(())
    }

    /// Commits the recorded transaction as of `now`: appends it to the log,
    /// clears what was recorded and the start, and hands out the request's
    /// fingerprint. Where a part is missing the session stays as it was.
    pub fn commit_at(&mut self, now: &Moment) -> (r: Result<String, IncompleteEntryError>)
        ensures
            final(self).log_header() == old(self).log_header(),
            match r {
                Ok(hash) => {
                    &&& missing(
                        old(self).pending_request(),
                        old(self).pending_response(),
                        old(self).started(),
                    ) is None
                    &&& Some(hash@) == old(self).pending_hash()
                    &&& final(self).entries() == old(self).entries().push(
                        built_entry(
                            old(self).pending_request()->0,
                            old(self).pending_response()->0,
                            old(self).started()->0,
                            *now,
                        ),
                    )
                    &&& final(self).started() is None
                    &&& final(self).pending_request() is None
                    &&& final(self).pending_response() is None
                    &&& final(self).pending_hash() is None
                },
                Err(e) => {
                    &&& missing(
                        old(self).pending_request(),
                        old(self).pending_response(),
                        old(self).started(),
                    ) == Some(e)
                    &&& final(self).entries() == old(self).entries()
                    &&& final(self).started() == old(self).started()
                    &&& final(self).pending_request() == old(self).pending_request()
                    &&& final(self).pending_response() == old(self).pending_response()
                    &&& final(self).pending_hash() == old(self).pending_hash()
                },
            },
    {
        if self.request.is_none() && self.response.is_none() {
            return Err(IncompleteEntryError::MissingBoth);
        }
        if self.request.is_none() {
            return Err(IncompleteEntryError::MissingRequest);
        }
        if self.response.is_none() {
            return Err(IncompleteEntryError::MissingResponse);
        }
        let (started_date_time, time) = match &self.start_date {
            Some(start) => (start.rfc3339.clone(), elapsed_millis(start, now)),
            None => {
                return Err(IncompleteEntryError::MissingStart);
            },
        };
        let (request, hash) = self.request.take().unwrap();
        let response = self.response.take().unwrap();
        let entry = Entry {
            started_date_time,
            time,
            request,
            response,
            timings: Timings { send: -1, wait: -1, receive: -1 },
        };
        self.add_entry(entry);
        self.start_date = None;
        Ok(hash)
    }

    /// Commits the recorded transaction as of the moment the clock shows.
    /// See `commit_at`; the time that the transaction took is the clock's.
    pub fn commit(&mut self) -> (r: Result<String, IncompleteEntryError>)
        ensures
            final(self).log_header() == old(self).log_header(),
            match r {
                Ok(hash) => {
                    &&& missing(
                        old(self).pending_request(),
                        old(self).pending_response(),
                        old(self).started(),
                    ) is None
                    &&& Some(hash@) == old(self).pending_hash()
                    &&& exists|now: Moment|
                        final(self).entries() == old(self).entries().push(
                            #[trigger] built_entry(
                                old(self).pending_request()->0,
                                old(self).pending_response()->0,
                                old(self).started()->0,
                                now,
                            ),
                        )
                    &&& final(self).started() is None
                    &&& final(self).pending_request() is None
                    &&& final(self).pending_response() is None
                    &&& final(self).pending_hash() is None
                },
                Err(e) => {
                    &&& missing(
                        old(self).pending_request(),
                        old(self).pending_response(),
                        old(self).started(),
                    ) == Some(e)
                    &&& final(self).entries() == old(self).entries()
                    &&& final(self).started() == old(self).started()
                    &&& final(self).pending_request() == old(self).pending_request()
                    &&& final(self).pending_response() == old(self).pending_response()
                    &&& final(self).pending_hash() == old(self).pending_hash()
                },
            },
    {
        let now = moment_now();
        self.commit_at(&now)
    }

    /// The short fingerprint by which the session's file is named: that of
    /// the first transaction committed, if there is one.
    pub fn file_hash(&self) -> (r: Option<String>)
        ensures
            opt_view(r) == if self.entries().len() == 0 {
                None
            } else {
                Some(hash_prefix(self.entries()[0].request.comment))
            },
    {
        if self.log.entries.len() == 0 {
            return None;
        }
        assert(entry_views(self.log.entries@)[0] == self.log.entries@[0]@);
        match &self.log.entries[0].request.comment {
            None => Some(String::new()),
            Some(comment) => {
                let chars = str_chars(comment.as_str());
                let pat = str_chars("hash:");
                let hash = remove_all(&chars, &pat);
                if hash.len() > 8 {
                    let head = copy_range(&hash, 0, 8);
                    assert(head@ =~= hash@.take(8));
                    Some(string_from_chars(&head))
                } else {
                    Some(string_from_chars(&hash))
                }
            },
        }
    }

    /// The name of the file that holds the session: the normalized base,
    /// the short fingerprint of the first transaction and `json`, with dots
    /// between. A session with nothing committed has no file.
    pub fn file_name(&self, base_name: &str) -> (r: Result<String, IncompleteEntryError>)
        ensures
            match r {
                Ok(name) => self.entries().len() > 0 && name@ == archive_name(
                    base_name@,
                    hash_prefix(self.entries()[0].request.comment),
                ),
                Err(e) => self.entries().len() == 0 && e == IncompleteEntryError::EmptySession,
            },
    {
        match self.file_hash() {
            None => Err(IncompleteEntryError::EmptySession),
            Some(hash) => Ok(
                normalize_path(base_name).concat(".").concat(hash.as_str()).concat(".json"),
            ),
        }
    }
}

/// The first `n` characters of a text, or all of a shorter one.
pub open spec fn first_chars(text: Seq<char>, n: int) -> Seq<char> {
    if text.len() > n {
        text.take(n)
    } else {
        text
    }
}

/// The short fingerprint read out of a request's comment: the comment
/// without any `hash:` in it, cut to 8 characters; empty without a comment.
pub open spec fn hash_prefix(comment: Option<Seq<char>>) -> Seq<char> {
    match comment {
        None => Seq::empty(),
        Some(c) => first_chars(without(c, "hash:"@), 8),
    }
}

/// The name of an archive's file.
pub open spec fn archive_name(base: Seq<char>, short_hash: Seq<char>) -> Seq<char> {
    normalized(base) + "."@ + short_hash + ".json"@
}

/// A text of hex digits holds no `hash:`.
proof fn lemma_no_marker_in_hex(hex: Seq<char>, from: int)
    requires
        forall|i: int| 0 <= i < hex.len() ==> is_lower_hex(#[trigger] hex[i]),
        0 <= from,
    ensures
        find_from(hex, "hash:"@, from) == hex.len(),
    decreases hex.len() - from,
{
    reveal_strlit("hash:");
    let pat = "hash:"@;
    if from >= hex.len() || from + pat.len() > hex.len() {
    } else {
        assert(hex.subrange(from, from + pat.len())[0] == hex[from]);
        assert(pat[0] == 'h');
        assert(is_lower_hex(hex[from]));
        lemma_no_marker_in_hex(hex, from + 1);
    }
}

/// The short fingerprint read out of the comment that carries a
/// fingerprint is the first 8 hex digits of that fingerprint.
pub proof fn lemma_hash_prefix_of_fingerprint(hex: Seq<char>)
    requires
        hex.len() >= 8,
        forall|i: int| 0 <= i < hex.len() ==> is_lower_hex(#[trigger] hex[i]),
    ensures
        hash_prefix(Some(hash_comment(hex))) == hex.take(8),
{
    reveal_strlit("hash:");
    let pat = "hash:"@;
    let comment = hash_comment(hex);
    assert(comment.subrange(0, pat.len() as int) =~= pat);
    assert(occurs_at(comment, pat, 0));
    assert(find_from(comment, pat, 0) == 0);
    assert(comment.take(0) =~= Seq::<char>::empty());
    assert(comment.skip(pat.len() as int) =~= hex);
    lemma_no_marker_in_hex(hex, 0);
    assert(split_on(hex, pat) =~= seq![hex]);
    let pieces = split_on(comment, pat);
    assert(pieces =~= seq![Seq::<char>::empty(), hex]);
    assert(pieces.drop_last() =~= seq![Seq::<char>::empty()]);
    assert(pieces.drop_last().drop_last() =~= Seq::<Seq<char>>::empty());
    assert(join(pieces.drop_last()) =~= Seq::<char>::empty()) by {
        reveal_with_fuel(join, 2);
    }
    assert(join(pieces) =~= hex);
    assert(first_chars(hex, 8) =~= hex.take(8));
}

} // verus!
