//! Conversions between the parts of a live message and their archived
//! forms: headers, bodies, versions, cookies and queries.

use vstd::prelude::*;
use vstd::utf8::*;
use hyper::header::HeaderValue;
use hyper::HeaderMap;
use crate::message::{byte_views, values_named, HeaderField, Version};
use crate::model::{
    cookie_views, opt_view, query_views, Content, ContentView, CookieEntry, CookieEntryView,
    HeaderEntry, HeaderEntryView, PostData, PostDataView, QueryEntry, QueryEntryView,
};
use crate::outside::{
    base64_decode, base64_decoding, base64_encode, base64_encoding, base64_error_text, cookie_of,
    header_fields, header_map_get_all, header_name_accepts, header_value_text, is_header_name,
    parse_cookie, value_text, ParsedCookie, ParsedCookieView,
};
use crate::text::{
    bytes_of, copy_range, find, find_from, lowercase_of, piece_views, split, split_on, str_chars,
    str_to_lowercase, string_from_chars, string_from_utf8, text_bytes,
};

verus! {

/// What a conversion between a live message and its archived form can fail on.
#[derive(Debug)]
pub enum ConversionError {
    /// The text names no HTTP version.
    InvalidHttpVersion(String),
    /// The text, lower-cased, is not accepted as a header's name.
    InvalidHeaderName(String),
    /// A text marked as base64 is none.
    InvalidBase64(base64::DecodeError),
    /// A cookie header's bytes are not printable ASCII.
    InvalidCookieEncoding,
    /// A cookie header's text is no cookie.
    InvalidCookie(cookie::ParseError),
}

impl ConversionError {
    /// What the error says, but for a text that is no base64, of which it
    /// says what the decoder said.
    pub open spec fn says(self) -> Option<Seq<char>> {
        match self {
            ConversionError::InvalidHttpVersion(v) => Some("Invalid HTTP version "@ + v@),
            ConversionError::InvalidHeaderName(_) => Some("invalid HTTP header name"@),
            ConversionError::InvalidBase64(_) => None,
            ConversionError::InvalidCookieEncoding => Some("Invalid encoding in cookie"@),
            ConversionError::InvalidCookie(_) => Some("Couldn't parse cookie"@),
        }
    }

    /// What the error says.
    pub fn message(&self) -> (text: String)
        ensures
            self.says() matches Some(said) ==> text@ == said,
    {
        match self {
            ConversionError::InvalidHttpVersion(v) => String::from_str(
                "Invalid HTTP version ",
            ).concat(v.as_str()),
            ConversionError::InvalidHeaderName(_) => String::from_str("invalid HTTP header name"),
            ConversionError::InvalidBase64(e) => base64_error_text(e),
            ConversionError::InvalidCookieEncoding => String::from_str(
                "Invalid encoding in cookie",
            ),
            ConversionError::InvalidCookie(_) => String::from_str("Couldn't parse cookie"),
        }
    }
}

/// The marker that stands beside a text that holds base64.
pub open spec fn base64_marker() -> Seq<char> {
    "base64"@
}

/// The marker that the archive puts beside an encoded text, if any.
pub open spec fn marker_for(encoded: bool) -> Option<Seq<char>> {
    if encoded {
        Some(base64_marker())
    } else {
        None
    }
}

/// The archived text of a byte string, and whether that text is base64:
/// well-formed UTF-8 is kept as the text it encodes, anything else is encoded.
pub open spec fn archived_text(bytes: Seq<u8>) -> (Seq<char>, bool) {
    if valid_utf8(bytes) {
        (decode_utf8(bytes), false)
    } else {
        (base64_encoding(bytes), true)
    }
}

/// The byte string behind an archived text and its marker, where the text is
/// acceptable: a text marked `"base64"` is decoded, any other stands for its
/// own bytes.
pub open spec fn restored_bytes(text: Seq<char>, marker: Option<Seq<char>>) -> Option<Seq<u8>> {
    if marker == Some(base64_marker()) {
        base64_decoding(text)
    } else {
        Some(bytes_of(text))
    }
}

/// Whether a byte string comes back from its archived text, which is empty
/// for the empty byte string alone.
pub open spec fn restores(bytes: Seq<u8>) -> bool {
    &&& restored_bytes(archived_text(bytes).0, marker_for(archived_text(bytes).1)) == Some(bytes)
    &&& archived_text(bytes).0.len() == 0 <==> bytes.len() == 0
}

/// Well-formed UTF-8 comes back from its archived text.
pub proof fn lemma_text_restores(bytes: Seq<u8>)
    requires
        valid_utf8(bytes),
    ensures
        restores(bytes),
{
    decode_utf8_encode_utf8(bytes);
    if decode_utf8(bytes).len() == 0 {
        assert(bytes_of(decode_utf8(bytes)) =~= Seq::<u8>::empty());
    }
}

/// Whether two texts are the same.
pub fn same_text(a: &str, b: &str) -> (r: bool)
    ensures
        r == (a@ == b@),
{
    let x = String::from_str(a);
    let y = String::from_str(b);
    x == y
}

/// The marker as a `String`, where the text was encoded.
fn marker_text(encoded: bool) -> (r: Option<String>)
    ensures
        opt_view(r) == marker_for(encoded),
{
    if encoded {
        Some(String::from_str("base64"))
    } else {
        None
    }
}

/// Turns bytes into the text that the archive holds for them, and says
/// whether that text is base64. Restoring the result gives the bytes back.
pub fn maybe_encode(b: Vec<u8>) -> (r: (String, bool))
    ensures
        (r.0@, r.1) == archived_text(b@),
        restores(b@),
{
    match string_from_utf8(b) {
        Ok(s) => {
            proof {
                decode_utf8_encode_utf8(b@);
                if s@.len() == 0 {
                    assert(bytes_of(s@) =~= Seq::<u8>::empty());
                }
            }
            (s, false)
        },
        Err(back) => (base64_encode(&back), true),
    }
}

/// Restores the bytes behind an archived text and its marker.
pub fn maybe_decode(text: &str, marker: &Option<String>) -> (r: Result<Vec<u8>, ConversionError>)
    ensures
        r is Ok <==> restored_bytes(text@, opt_view(*marker)) is Some,
        r matches Ok(bytes) ==> restored_bytes(text@, opt_view(*marker)) == Some(bytes@),
        r matches Err(e) ==> e is InvalidBase64,
{
    let encoded = match marker {
        Some(c) => same_text(c.as_str(), "base64"),
        None => false,
    };
    if encoded {
        match base64_decode(text) {
            Ok(bytes) => Ok(bytes),
            Err(e) => Err(ConversionError::InvalidBase64(e)),
        }
    } else {
        Ok(text_bytes(text))
    }
}

/// The archived form of a header with this name and these bytes as its value.
pub open spec fn header_entry(name: Seq<char>, value: Seq<u8>) -> HeaderEntryView {
    HeaderEntryView {
        name,
        value: archived_text(value).0,
        comment: marker_for(archived_text(value).1),
    }
}

/// Whether an archived header's name, put in lower case, can name a live header.
pub open spec fn header_name_ok(h: HeaderEntryView) -> bool {
    bytes_of(lowercase_of(h.name)).len() < 65536 && is_header_name(lowercase_of(h.name))
}

/// The bytes of an archived header's value, where its text is acceptable.
pub open spec fn header_bytes(h: HeaderEntryView) -> Option<Seq<u8>> {
    restored_bytes(h.value, h.comment)
}

/// Conversions of one header between a live message and the archive.
pub struct Header;

impl Header {
    /// The archived form of a live header. Its value is kept as text where the
    /// bytes are UTF-8 and as base64 with the marker otherwise, so that the
    /// bytes can be restored from it exactly.
    pub fn har(key: &str, val: &Vec<u8>) -> (h: HeaderEntry)
        ensures
            h@ == header_entry(key@, val@),
            header_bytes(h@) == Some(val@),
    {
        let name = String::from_str(key);
        let (value, encoded) = maybe_encode(val.clone());
        HeaderEntry { name, value, comment: marker_text(encoded) }
    }

    /// The live header that an archived one stands for: its name in lower
    /// case and the bytes of its value. The name is judged first.
    pub fn hyper(headers: &HeaderEntry) -> (r: Result<HeaderField, ConversionError>)
        ensures
            match r {
                Ok(field) => header_name_ok(headers@) && header_bytes(headers@) == Some(field.value@)
                    && field.name@ == lowercase_of(headers@.name),
                Err(ConversionError::InvalidHeaderName(name)) => !header_name_ok(headers@)
                    && name@ == headers@.name,
                Err(ConversionError::InvalidBase64(_)) => header_name_ok(headers@)
                    && header_bytes(headers@) is None,
                Err(_) => false,
            },
    {
        let name = str_to_lowercase(headers.name.as_str());
        if name.as_str().as_bytes().len() >= 65536 || !header_name_accepts(name.as_str()) {
            return Err(ConversionError::InvalidHeaderName(headers.name.clone()));
        }
        match maybe_decode(headers.value.as_str(), &headers.comment) {
            Ok(value) => Ok(HeaderField { name, value }),
            Err(e) => Err(e),
        }
    }
}

/// The archived form of a request body with this media type: none for an
/// empty body.
pub open spec fn post_data_of(body: Seq<u8>, mime_type: Seq<char>) -> Option<PostDataView> {
    if body.len() == 0 {
        None
    } else {
        Some(
            PostDataView {
                mime_type,
                text: archived_text(body).0,
                comment: marker_for(archived_text(body).1),
            },
        )
    }
}

/// The bytes of an archived request body, where its text is acceptable.
pub open spec fn post_data_bytes(data: PostDataView) -> Option<Seq<u8>> {
    restored_bytes(data.text, data.comment)
}

/// The bytes of a request whose archived body may be absent.
pub open spec fn request_body_bytes(data: Option<PostDataView>) -> Option<Seq<u8>> {
    match data {
        Some(d) => post_data_bytes(d),
        None => Some(Seq::empty()),
    }
}

/// Conversions of a request body between a live message and the archive.
pub struct RequestBody;

impl RequestBody {
    /// The archived form of a request body: absent for an empty body, else
    /// text or marked base64, from which the bytes can be restored exactly.
    pub fn har(body: Vec<u8>, mime_type: String) -> (r: Option<PostData>)
        ensures
            crate::model::post_data_view(r) == post_data_of(body@, mime_type@),
            request_body_bytes(crate::model::post_data_view(r)) == Some(body@),
    {
        if body.len() == 0 {
            assert(body@ =~= Seq::<u8>::empty());
            None
        } else {
            let (text, encoded) = maybe_encode(body);
            Some(PostData { mime_type, text, comment: marker_text(encoded) })
        }
    }

    /// The bytes and the media type of an archived request body.
    pub fn bytes(data: &PostData) -> (r: Result<(Vec<u8>, String), ConversionError>)
        ensures
            match r {
                Ok((body, mime_type)) => post_data_bytes(data@) == Some(body@) && mime_type@
                    == data@.mime_type,
                Err(ConversionError::InvalidBase64(_)) => post_data_bytes(data@) is None,
                Err(_) => false,
            },
    {
        let encoding = data.mime_type.clone();
        match maybe_decode(data.text.as_str(), &data.comment) {
            Ok(body) => Ok((body, encoding)),
            Err(e) => Err(e),
        }
    }
}

/// The archived form of a response body with this media type. `size` is the
/// body's length; an empty text is left out.
pub open spec fn content_of(body: Seq<u8>, mime_type: Seq<char>) -> ContentView {
    ContentView {
        size: body.len() as i64,
        compression: None,
        mime_type,
        text: if archived_text(body).0.len() == 0 {
            None
        } else {
            Some(archived_text(body).0)
        },
        encoding: marker_for(archived_text(body).1),
        comment: None,
    }
}

/// The bytes of an archived response body, where its text is acceptable: a
/// body without text is empty.
pub open spec fn content_bytes(content: ContentView) -> Option<Seq<u8>> {
    match content.text {
        None => Some(Seq::empty()),
        Some(text) => restored_bytes(text, content.encoding),
    }
}

/// The media type that comes with an archived response body: none where the
/// body has no text.
pub open spec fn content_mime_type(content: ContentView) -> Seq<char> {
    match content.text {
        None => Seq::empty(),
        Some(_) => content.mime_type,
    }
}

/// Conversions of a response body between a live message and the archive.
pub struct ResponseBody;

impl ResponseBody {
    /// The archived form of a response body: its exact size, and its bytes
    /// as text or marked base64, from which they can be restored exactly.
    pub fn har(body: Vec<u8>, mime_type: String) -> (content: Content)
        requires
            body@.len() <= i64::MAX,
        ensures
            content@ == content_of(body@, mime_type@),
            content_bytes(content@) == Some(body@),
    {
        let size = body.len() as i64;
        let ghost bytes = body@;
        let (text, encoded) = maybe_encode(body);
        let encoding = marker_text(encoded);
        if text.as_str().is_empty() {
            assert(bytes =~= Seq::<u8>::empty());
            Content { size, compression: None, mime_type, text: None, encoding, comment: None }
        } else {
            Content { size, compression: None, mime_type, text: Some(text), encoding, comment: None }
        }
    }

    /// The bytes and the media type of an archived response body. A body
    /// without text is empty and has no media type.
    pub fn hyper(content: &Content) -> (r: Result<(Vec<u8>, String), ConversionError>)
        ensures
            match r {
                Ok((body, mime_type)) => content_bytes(content@) == Some(body@) && mime_type@
                    == content_mime_type(content@),
                Err(ConversionError::InvalidBase64(_)) => content_bytes(content@) is None,
                Err(_) => false,
            },
    {
        match &content.text {
            None => Ok((Vec::new(), String::new())),
            Some(text) => {
                let mime_type = content.mime_type.clone();
                match maybe_decode(text.as_str(), &content.encoding) {
                    Ok(body) => Ok((body, mime_type)),
                    Err(e) => Err(e),
                }
            },
        }
    }
}

/// The text that names a version of HTTP in an archive.
pub open spec fn version_text(v: Version) -> Seq<char> {
    match v {
        Version::Http09 => "HTTP/0.9"@,
        Version::Http10 => "HTTP/1.0"@,
        Version::Http11 => "HTTP/1.1"@,
        Version::Http2 => "HTTP/2"@,
    }
}

/// The version that a text names: one of the four texts, letter for
/// letter, names its version, and no other text names any.
pub open spec fn canonical_version(text: Seq<char>) -> Option<Version> {
    if text == "HTTP/0.9"@ {
        Some(Version::Http09)
    } else if text == "HTTP/1.0"@ {
        Some(Version::Http10)
    } else if text == "HTTP/1.1"@ {
        Some(Version::Http11)
    } else if text == "HTTP/2"@ {
        Some(Version::Http2)
    } else {
        None
    }
}

/// The version that a text names.
pub fn version_from_text(text: &str) -> (r: Option<Version>)
    ensures
        r == canonical_version(text@),
{
    if same_text(text, "HTTP/0.9") {
        Some(Version::Http09)
    } else if same_text(text, "HTTP/1.0") {
        Some(Version::Http10)
    } else if same_text(text, "HTTP/1.1") {
        Some(Version::Http11)
    } else if same_text(text, "HTTP/2") {
        Some(Version::Http2)
    } else {
        None
    }
}

/// Conversions of an HTTP version between a live message and the archive.
pub struct HttpVersion;

impl HttpVersion {
    /// The text that names a version in an archive.
    pub fn har(v: Version) -> (text: String)
        ensures
            text@ == version_text(v),
    {
        match v {
            Version::Http09 => String::from_str("HTTP/0.9"),
            Version::Http10 => String::from_str("HTTP/1.0"),
            Version::Http11 => String::from_str("HTTP/1.1"),
            Version::Http2 => String::from_str("HTTP/2"),
        }
    }

    /// The version that a text names; a text that is none of the four is
    /// handed back in the error.
    pub fn hyper(v: &str) -> (r: Result<Version, ConversionError>)
        ensures
            match r {
                Ok(version) => canonical_version(v@) == Some(version),
                Err(ConversionError::InvalidHttpVersion(text)) => canonical_version(v@) is None
                    && text@ == v@,
                Err(_) => false,
            },
    {
        match version_from_text(v) {
            Some(version) => Ok(version),
            None => Err(ConversionError::InvalidHttpVersion(String::from_str(v))),
        }
    }
}

/// The four version texts are pairwise different.
pub proof fn lemma_version_texts_differ(a: Version, b: Version)
    ensures
        version_text(a) == version_text(b) ==> a == b,
{
    reveal_strlit("HTTP/0.9");
    reveal_strlit("HTTP/1.0");
    reveal_strlit("HTTP/1.1");
    reveal_strlit("HTTP/2");
    if version_text(a) == version_text(b) && a != b {
        assert(version_text(a).len() == version_text(b).len());
        assert(version_text(a)[5] == version_text(b)[5]);
        assert(version_text(a)[7] == version_text(b)[7]);
    }
}

/// Every version is read back from the text that names it, and a text
/// that names a version is that version's text.
pub proof fn lemma_version_round_trip(v: Version)
    ensures
        canonical_version(version_text(v)) == Some(v),
        forall|text: Seq<char>| canonical_version(text) == Some(v) ==> text == version_text(v),
{
    lemma_version_texts_differ(v, Version::Http09);
    lemma_version_texts_differ(v, Version::Http10);
    lemma_version_texts_differ(v, Version::Http11);
    lemma_version_texts_differ(v, Version::Http2);
}

/// One pair of a query: the name is what stands before the first `=`, the
/// value what follows it. A pair without `=` is a name with an empty value.
pub open spec fn query_pair(pair: Seq<char>) -> QueryEntryView {
    let i = find_from(pair, seq!['='], 0);
    if i < 0 || i + 1 > pair.len() {
        QueryEntryView { name: pair, value: Seq::empty(), comment: None }
    } else {
        QueryEntryView { name: pair.take(i), value: pair.skip(i + 1), comment: None }
    }
}

/// The pairs of a query, which `&` separates. Nothing is decoded. An absent
/// or empty query has no pairs.
pub open spec fn query_list(query: Option<Seq<char>>) -> Seq<QueryEntryView> {
    match query {
        None => Seq::empty(),
        Some(text) => if text.len() == 0 {
            Seq::empty()
        } else {
            split_on(text, seq!['&']).map_values(|pair: Seq<char>| query_pair(pair))
        },
    }
}

/// Splits one pair of a query at its first `=`.
fn query_entry(pair: &Vec<char>) -> (entry: QueryEntry)
    ensures
        entry@ == query_pair(pair@),
{
    let mut eq: Vec<char> = Vec::new();
    eq.push('=');
    assert(eq@ =~= seq!['=']);
    let i = find(pair, &eq);
    if i >= pair.len() {
        QueryEntry { name: string_from_chars(pair), value: String::new(), comment: None }
    } else {
        let name = copy_range(pair, 0, i);
        let value = copy_range(pair, i + 1, pair.len());
        assert(name@ =~= pair@.take(i as int));
        assert(value@ =~= pair@.skip(i + 1));
        QueryEntry {
            name: string_from_chars(&name),
            value: string_from_chars(&value),
            comment: None,
        }
    }
}

/// The conversion of a request's query to its archived form.
pub struct Query;

impl Query {
    /// The pairs of a raw query, in order: split at each `&`, then each pair
    /// at its first `=`, with nothing decoded.
    pub fn har(q: &Option<&str>) -> (list: Vec<QueryEntry>)
        ensures
            query_views(list@) == query_list(
                match *q {
                    Some(text) => Some(text@),
                    None => None,
                },
            ),
    {
        let mut list: Vec<QueryEntry> = Vec::new();
        match q {
            None => {
                assert(query_views(list@) =~= Seq::<QueryEntryView>::empty());
            },
            Some(text) => {
                let chars = str_chars(text);
                if chars.len() == 0 {
                    assert(query_views(list@) =~= Seq::<QueryEntryView>::empty());
                } else {
                    let mut amp: Vec<char> = Vec::new();
                    amp.push('&');
                    assert(amp@ =~= seq!['&']);
                    let pieces = split(&chars, &amp);
                    let ghost wanted = split_on(chars@, amp@);
                    let mut k: usize = 0;
                    while k < pieces.len()
                        invariant
                            k <= pieces.len(),
                            piece_views(pieces@) == wanted,
                            list.len() == k,
                            forall|j: int|
                                0 <= j < k ==> (#[trigger] list@[j])@ == query_pair(wanted[j]),
                        decreases pieces.len() - k,
                    {
                        let entry = query_entry(&pieces[k]);
                        assert(piece_views(pieces@)[k as int] == pieces@[k as int]@);
                        list.push(entry);
                        k += 1;
                    }
                    assert(query_views(list@) =~= wanted.map_values(
                        |pair: Seq<char>| query_pair(pair),
                    ));
                }
            },
        }
        list
    }
}

/// The archived form of a parsed cookie.
pub open spec fn cookie_entry(c: ParsedCookieView) -> CookieEntryView {
    CookieEntryView {
        name: c.name,
        value: c.value,
        path: c.path,
        domain: c.domain,
        expires: c.expires,
        http_only: c.http_only,
        secure: c.secure,
        comment: None,
    }
}

/// The archived form of a parsed cookie.
pub fn cookie_to_har(c: ParsedCookie) -> (entry: CookieEntry)
    ensures
        entry@ == cookie_entry(c@),
{
    CookieEntry {
        name: c.name,
        value: c.value,
        path: c.path,
        domain: c.domain,
        expires: c.expires,
        http_only: c.http_only,
        secure: c.secure,
        comment: None,
    }
}

/// The cookie texts that one header's value contributes: one unreadable
/// text where the value is not printable ASCII, else the value, split at
/// `sep` where there is one.
pub open spec fn value_cookie_texts(value: Seq<u8>, sep: Option<Seq<char>>) -> Seq<
    Option<Seq<char>>,
> {
    match value_text(value) {
        None => seq![None],
        Some(text) => match sep {
            Some(s) => split_on(text, s).map_values(|piece: Seq<char>| Some(piece)),
            None => seq![Some(text)],
        },
    }
}

/// The cookie texts of header values, in the order of the values.
pub open spec fn cookie_texts(values: Seq<Seq<u8>>, sep: Option<Seq<char>>) -> Seq<
    Option<Seq<char>>,
>
    decreases values.len(),
{
    if values.len() == 0 {
        Seq::empty()
    } else {
        cookie_texts(values.drop_last(), sep) + value_cookie_texts(values.last(), sep)
    }
}

/// What reading a list of cookie texts comes to.
pub enum CookieScan {
    /// Every text was a cookie: their archived forms, in order.
    Cookies(Seq<CookieEntryView>),
    /// The first text that failed could not be read as text.
    BadEncoding,
    /// The first text that failed was no cookie.
    BadCookie,
}

/// Reads cookie texts from the left and stops at the first that fails.
pub open spec fn scan_cookies(texts: Seq<Option<Seq<char>>>) -> CookieScan
    decreases texts.len(),
{
    if texts.len() == 0 {
        CookieScan::Cookies(Seq::empty())
    } else {
        match scan_cookies(texts.drop_last()) {
            CookieScan::Cookies(before) => match texts.last() {
                None => CookieScan::BadEncoding,
                Some(text) => match cookie_of(text) {
                    None => CookieScan::BadCookie,
                    Some(c) => CookieScan::Cookies(before.push(cookie_entry(c))),
                },
            },
            failed => failed,
        }
    }
}

/// The views of a list of cookie texts.
pub open spec fn text_views(texts: Seq<Option<String>>) -> Seq<Option<Seq<char>>> {
    texts.map_values(|t: Option<String>| opt_view(t))
}

/// Collects the cookie texts of header values.
fn collect_cookie_texts(values: &Vec<Vec<u8>>, sep: Option<&str>) -> (texts: Vec<Option<String>>)
    ensures
        text_views(texts@) == cookie_texts(
            byte_views(values@),
            match sep {
                Some(s) => Some(s@),
                None => None,
            },
        ),
{
    let ghost sep_view = match sep {
        Some(s) => Some(s@),
        None => None,
    };
    let mut texts: Vec<Option<String>> = Vec::new();
    let mut i: usize = 0;
    assert(byte_views(values@).take(0) =~= Seq::empty());
    assert(text_views(texts@) =~= Seq::empty());
    while i < values.len()
        invariant
            i <= values.len(),
            sep_view == match sep {
                Some(s) => Some(s@),
                None => None,
            },
            text_views(texts@) == cookie_texts(byte_views(values@).take(i as int), sep_view),
        decreases values.len() - i,
    {
        let value = &values[i];
        let ghost before = texts@;
        let ghost prefix = byte_views(values@).take(i + 1);
        assert(prefix.drop_last() =~= byte_views(values@).take(i as int));
        assert(prefix.last() == value@);
        match header_value_text(value) {
            None => {
                texts.push(None);
                assert(text_views(texts@) =~= text_views(before) + seq![None]);
            },
            Some(text) => match sep {
                None => {
                    texts.push(Some(text));
                    assert(text_views(texts@) =~= text_views(before) + seq![Some(text@)]);
                },
                Some(s) => {
                    let chars = str_chars(text.as_str());
                    let pat = str_chars(s);
                    let pieces = split(&chars, &pat);
                    let ghost wanted = split_on(text@, s@);
                    let mut k: usize = 0;
                    while k < pieces.len()
                        invariant
                            k <= pieces.len(),
                            piece_views(pieces@) == wanted,
                            text_views(texts@) == text_views(before) + wanted.take(
                                k as int,
                            ).map_values(|piece: Seq<char>| Some(piece)),
                        decreases pieces.len() - k,
                    {
                        let ghost so_far = texts@;
                        let piece = string_from_chars(&pieces[k]);
                        assert(piece_views(pieces@)[k as int] == pieces@[k as int]@);
                        texts.push(Some(piece));
                        k += 1;
                        assert(piece@ == wanted[k - 1]);
                        assert(text_views(texts@) =~= text_views(so_far).push(Some(piece@)));
                        assert(wanted.take(k as int) =~= wanted.take(k - 1).push(wanted[k - 1]));
                        assert(text_views(texts@) =~= text_views(before) + wanted.take(
                            k as int,
                        ).map_values(|piece: Seq<char>| Some(piece)));
                    }
                    assert(wanted.take(k as int) =~= wanted);
                },
            },
        }
        i += 1;
    }
    assert(byte_views(values@).take(i as int) =~= byte_views(values@));
    texts
}

/// Parses cookie texts from the left and stops at the first that fails.
fn parse_cookie_texts(texts: &Vec<Option<String>>) -> (r: Result<Vec<CookieEntry>, ConversionError>)
    ensures
        match r {
            Ok(list) => scan_cookies(text_views(texts@)) == CookieScan::Cookies(
                cookie_views(list@),
            ),
            Err(ConversionError::InvalidCookieEncoding) => scan_cookies(text_views(texts@))
                is BadEncoding,
            Err(ConversionError::InvalidCookie(_)) => scan_cookies(text_views(texts@)) is BadCookie,
            Err(_) => false,
        },
{
    let mut list: Vec<CookieEntry> = Vec::new();
    let mut i: usize = 0;
    assert(text_views(texts@).take(0) =~= Seq::empty());
    assert(cookie_views(list@) =~= Seq::empty());
    while i < texts.len()
        invariant
            i <= texts.len(),
            scan_cookies(text_views(texts@).take(i as int)) == CookieScan::Cookies(
                cookie_views(list@),
            ),
        decreases texts.len() - i,
    {
        let ghost prefix = text_views(texts@).take(i + 1);
        let ghost before = list@;
        assert(prefix.drop_last() =~= text_views(texts@).take(i as int));
        assert(prefix.last() == opt_view(texts@[i as int]));
        match &texts[i] {
            None => {
                proof {
                    lemma_scan_failure_stays(text_views(texts@), i + 1);
                }
                return Err(ConversionError::InvalidCookieEncoding);
            },
            Some(text) => match parse_cookie(text.as_str()) {
                Err(e) => {
                    proof {
                        lemma_scan_failure_stays(text_views(texts@), i + 1);
                    }
                    return Err(ConversionError::InvalidCookie(e));
                },
                Ok(c) => {
                    list.push(cookie_to_har(c));
                    assert(cookie_views(list@) =~= cookie_views(before).push(
                        cookie_entry(c@),
                    ));
                },
            },
        }
        i += 1;
    }
    assert(text_views(texts@).take(i as int) =~= text_views(texts@));
    Ok(list)
}

/// A failure among the first `n` texts is the failure of the whole list.
proof fn lemma_scan_failure_stays(texts: Seq<Option<Seq<char>>>, n: int)
    requires
        0 <= n <= texts.len(),
        !(scan_cookies(texts.take(n)) is Cookies),
    ensures
        scan_cookies(texts) == scan_cookies(texts.take(n)),
    decreases texts.len() - n,
{
    if n == texts.len() {
        assert(texts.take(n) =~= texts);
    } else {
        assert(texts.take(n + 1).drop_last() =~= texts.take(n));
        lemma_scan_failure_stays(texts, n + 1);
    }
}

/// The cookies that a client sent.
pub struct ClientCookies;

impl ClientCookies {
    /// The cookies of a request: every `cookie` header, split at `"; "`,
    /// each piece parsed. The first header that is not printable ASCII or
    /// piece that is no cookie fails the whole.
    pub fn har(m: &HeaderMap<HeaderValue>) -> (r: Result<Vec<CookieEntry>, ConversionError>)
        ensures
            match r {
                Ok(list) => client_cookies(header_fields(*m)) == CookieScan::Cookies(
                    cookie_views(list@),
                ),
                Err(ConversionError::InvalidCookieEncoding) => client_cookies(header_fields(*m))
                    is BadEncoding,
                Err(ConversionError::InvalidCookie(_)) => client_cookies(header_fields(*m))
                    is BadCookie,
                Err(_) => false,
            },
    {
        proof {
            reveal_strlit("cookie");
        }
        let values = header_map_get_all(m, "cookie");
        let texts = collect_cookie_texts(&values, Some("; "));
        parse_cookie_texts(&texts)
    }
}

/// The cookies that a server set.
pub struct ServerCookies;

impl ServerCookies {
    /// The cookies of a response: every `set-cookie` header, one cookie
    /// each. The first header that is not printable ASCII or no cookie fails
    /// the whole.
    pub fn har(m: &HeaderMap<HeaderValue>) -> (r: Result<Vec<CookieEntry>, ConversionError>)
        ensures
            match r {
                Ok(list) => server_cookies(header_fields(*m)) == CookieScan::Cookies(
                    cookie_views(list@),
                ),
                Err(ConversionError::InvalidCookieEncoding) => server_cookies(header_fields(*m))
                    is BadEncoding,
                Err(ConversionError::InvalidCookie(_)) => server_cookies(header_fields(*m))
                    is BadCookie,
                Err(_) => false,
            },
    {
        proof {
            reveal_strlit("set-cookie");
        }
        let values = header_map_get_all(m, "set-cookie");
        let texts = collect_cookie_texts(&values, None);
        parse_cookie_texts(&texts)
    }
}

/// What reading the cookies of a request's headers comes to.
pub open spec fn client_cookies(fields: Seq<(Seq<char>, Seq<u8>)>) -> CookieScan {
    scan_cookies(cookie_texts(values_named(fields, "cookie"@), Some("; "@)))
}

/// What reading the cookies of a response's headers comes to.
pub open spec fn server_cookies(fields: Seq<(Seq<char>, Seq<u8>)>) -> CookieScan {
    scan_cookies(cookie_texts(values_named(fields, "set-cookie"@), None))
}

} // verus!
