//! The calls into other crates. Verus believes the contracts in this file
//! and does not read the bodies; each doc comment says what is claimed.

use vstd::prelude::*;
use sha2::Digest;
use hyper::header::{HeaderName, HeaderValue};
use hyper::HeaderMap;
use crate::message::{
    byte_views, field_views, first_value, values_named, HeaderField, UriParts, UriPartsView,
};
use crate::model::opt_view;
use crate::store::Moment;

verus! {

/// The error of `base64::decode`, carried through unread.
#[verifier::external_type_specification]
#[verifier::external_body]
pub struct ExDecodeError(base64::DecodeError);

/// The error of `cookie::Cookie::parse`, carried through unread.
#[verifier::external_type_specification]
#[verifier::external_body]
pub struct ExCookieParseError(cookie::ParseError);

/// The text that `base64::encode` gives for these bytes.
pub uninterp spec fn base64_encoding(bytes: Seq<u8>) -> Seq<char>;

/// The bytes that `base64::decode` gives for this text, where it accepts the text.
pub uninterp spec fn base64_decoding(text: Seq<char>) -> Option<Seq<u8>>;

/// Calls `base64::encode`, which encodes with the standard alphabet and padding.
/// The contract names the text that comes back and claims that it has four
/// characters for every three bytes begun, and that `base64::decode` turns it
/// into the bytes it was made from.
#[verifier::external_body]
pub(crate) fn base64_encode(bytes: &Vec<u8>) -> (text: String)
    ensures
        text@ == base64_encoding(bytes@),
        text@.len() == (bytes@.len() + 2) / 3 * 4,
        base64_decoding(text@) == Some(bytes@),
{
    base64::encode(bytes)
}

/// Calls `base64::decode`, which decodes the standard alphabet with padding.
/// The contract names the bytes that come back and claims that the call fails
/// on exactly the texts for which there are none.
#[verifier::external_body]
pub(crate) fn base64_decode(text: &str) -> (r: Result<Vec<u8>, base64::DecodeError>)
    ensures
        r is Ok <==> base64_decoding(text@) is Some,
        r matches Ok(bytes) ==> base64_decoding(text@) == Some(bytes@),
{
    base64::decode(text)
}

/// Formats the error of `base64::decode` with `{}`. Nothing is claimed of the text.
#[verifier::external_body]
pub(crate) fn base64_error_text(e: &base64::DecodeError) -> String {
    format!("{}", e)
}

/// The lower-case hex digits of the SHA-256 digest of these bytes.
pub uninterp spec fn sha256_hex_of(bytes: Seq<u8>) -> Seq<char>;

/// Whether a character is a hex digit in lower case.
pub open spec fn is_lower_hex(c: char) -> bool {
    ('0' <= c && c <= '9') || ('a' <= c && c <= 'f')
}

/// Feeds the bytes to `sha2::Sha256` and formats the digest with `{:x}`. The
/// contract names the text and claims what every SHA-256 digest so written
/// has: 64 hex digits in lower case.
#[verifier::external_body]
pub(crate) fn sha256_hex(bytes: &Vec<u8>) -> (hex: String)
    ensures
        hex@ == sha256_hex_of(bytes@),
        hex@.len() == 64,
        forall|i: int| 0 <= i < hex@.len() ==> is_lower_hex(#[trigger] hex@[i]),
{
    let mut digest = sha2::Sha256::new();
    digest.input(bytes);
    format!("{:x}", digest.result())
}

/// Whether `HeaderName::from_lowercase` of the `http` crate accepts the
/// bytes of this text as a header's name.
pub uninterp spec fn is_header_name(text: Seq<char>) -> bool;

/// Calls `HeaderName::from_lowercase` on the bytes of the text and says
/// whether it accepted them. The call panics on 65536 bytes or more, which
/// `requires` leaves out. The contract names the answer.
#[verifier::external_body]
pub(crate) fn header_name_accepts(text: &str) -> (r: bool)
    requires
        crate::text::bytes_of(text@).len() < 65536,
    ensures
        r == is_header_name(text@),
{
    HeaderName::from_lowercase(text.as_bytes()).is_ok()
}

/// Whether `Method::from_bytes` of the `http` crate accepts the bytes of
/// this text as a request method.
pub uninterp spec fn is_method(text: Seq<char>) -> bool;

/// Calls `Method::from_bytes` on the bytes of the text and hands back the
/// method's text where it accepted them. The contract names the answer and
/// claims that an accepted method reads as the text it was made from.
#[verifier::external_body]
pub(crate) fn method_from_text(text: &str) -> (r: Option<String>)
    ensures
        r is Some <==> is_method(text@),
        r matches Some(m) ==> m@ == text@,
{
    hyper::Method::from_bytes(text.as_bytes()).ok().map(|m| m.as_str().to_string())
}

/// Whether a byte is printable ASCII or a tab.
pub open spec fn is_visible_ascii(b: u8) -> bool {
    (32 <= b && b < 127) || b == 9
}

/// A header value as text, the way `HeaderValue::to_str` of the `http` crate
/// reads it: only where every byte is printable ASCII or a tab, and then each
/// byte as the character of that code.
pub open spec fn value_text(bytes: Seq<u8>) -> Option<Seq<char>> {
    if forall|i: int| 0 <= i < bytes.len() ==> is_visible_ascii(#[trigger] bytes[i]) {
        Some(Seq::new(bytes.len(), |i: int| bytes[i] as char))
    } else {
        None
    }
}

/// Makes a `HeaderValue` of the bytes with `HeaderValue::from_bytes` and
/// reads it with `HeaderValue::to_str`. The contract claims `value_text`:
/// both calls refuse a byte that is not printable ASCII or a tab, and
/// `to_str` hands the bytes back unchanged as text.
#[verifier::external_body]
pub(crate) fn header_value_text(bytes: &Vec<u8>) -> (r: Option<String>)
    ensures
        opt_view(r) == value_text(bytes@),
{
    let value = HeaderValue::from_bytes(bytes).ok()?;
    value.to_str().ok().map(|s| s.to_string())
}

/// The parts that the `http` crate reads out of this text as a URI, where it
/// accepts the text.
pub uninterp spec fn uri_of(text: Seq<char>) -> Option<UriPartsView>;

/// Parses the text into a `Uri` of the `http` crate and copies out what its
/// accessors give. The contract names the parts and claims that the call
/// fails on exactly the texts for which there are none.
#[verifier::external_body]
pub(crate) fn parse_uri(text: &str) -> (r: Option<UriParts>)
    ensures
        r is Some <==> uri_of(text@) is Some,
        r matches Some(parts) ==> uri_of(text@) == Some(parts@),
{
    let uri = text.parse::<hyper::Uri>().ok()?;
    Some(UriParts {
        text: uri.to_string(),
        scheme: uri.scheme_str().map(|s| s.to_string()),
        authority: uri.authority_part().map(|a| a.as_str().to_string()),
        path: uri.path().to_string(),
        query: uri.query().map(|q| q.to_string()),
        path_and_query: uri.path_and_query().map(|pq| pq.to_string()),
    })
}

/// What `cookie::Cookie::parse` reads out of a cookie's text. `expires` is
/// the expiry as an RFC 3339 time.
pub struct ParsedCookie {
    pub name: String,
    pub value: String,
    pub path: Option<String>,
    pub domain: Option<String>,
    pub expires: Option<String>,
    pub http_only: Option<bool>,
    pub secure: Option<bool>,
}

pub struct ParsedCookieView {
    pub name: Seq<char>,
    pub value: Seq<char>,
    pub path: Option<Seq<char>>,
    pub domain: Option<Seq<char>>,
    pub expires: Option<Seq<char>>,
    pub http_only: Option<bool>,
    pub secure: Option<bool>,
}

impl View for ParsedCookie {
    type V = ParsedCookieView;

    open spec fn view(&self) -> ParsedCookieView {
        ParsedCookieView {
            name: self.name@,
            value: self.value@,
            path: opt_view(self.path),
            domain: opt_view(self.domain),
            expires: opt_view(self.expires),
            http_only: self.http_only,
            secure: self.secure,
        }
    }
}

/// What `cookie::Cookie::parse` reads out of this text, where it accepts it.
pub uninterp spec fn cookie_of(text: Seq<char>) -> Option<ParsedCookieView>;

/// Calls `cookie::Cookie::parse` and copies out what the cookie's accessors
/// give, the expiry formatted as RFC 3339. The contract names the result and
/// claims that the call fails on exactly the texts for which there is none.
#[verifier::external_body]
pub(crate) fn parse_cookie(text: &str) -> (r: Result<ParsedCookie, cookie::ParseError>)
    ensures
        r is Ok <==> cookie_of(text@) is Some,
        r matches Ok(c) ==> cookie_of(text@) == Some(c@),
{
    let c = cookie::Cookie::parse(text)?;
    Ok(ParsedCookie {
        name: c.name().to_string(),
        value: c.value().to_string(),
        path: c.path().map(|p| p.to_string()),
        domain: c.domain().map(|d| d.to_string()),
        expires: c.expires().map(|e| format!("{}", e.rfc3339())),
        http_only: c.http_only(),
        secure: c.secure(),
    })
}

/// What `Regex::replace_all` of the `regex` crate makes of `text` where every
/// match of `pattern` gives way to `rep`; nothing where `pattern` is no
/// regular expression.
pub uninterp spec fn regex_replaced(pattern: Seq<char>, text: Seq<char>, rep: Seq<char>) -> Option<
    Seq<char>,
>;

/// Whether a character is an ASCII letter, an ASCII digit or `_`.
pub open spec fn is_word_char(c: char) -> bool {
    ('a' <= c && c <= 'z') || ('A' <= c && c <= 'Z') || ('0' <= c && c <= '9') || c == '_'
}

/// The text with `-` in place of every character that is neither a word
/// character nor `.`.
pub open spec fn dashed(text: Seq<char>) -> Seq<char> {
    text.map_values(
        |c: char|
            if is_word_char(c) || c == '.' {
                c
            } else {
                '-'
            },
    )
}

/// The regular expression for one character that is neither a word
/// character nor `.`.
pub open spec fn non_word_pattern() -> Seq<char> {
    "[[:^word:]--\\.]"@
}

/// Compiles `pattern` with `Regex::new` and calls `Regex::replace_all`. The
/// contract names the result. Of one pattern it claims more: `[:word:]` is
/// the ASCII class `[0-9A-Za-z_]`, its negation with `.` taken out matches
/// one character at a time, and a replacement `-` holds no group reference,
/// so the call then gives `dashed`.
#[verifier::external_body]
pub(crate) fn regex_replace_all(pattern: &str, text: &str, rep: &str) -> (r: Option<String>)
    ensures
        opt_view(r) == regex_replaced(pattern@, text@, rep@),
        pattern@ == non_word_pattern() && rep@ == "-"@ ==> opt_view(r) == Some(dashed(text@)),
{
    let re = regex::Regex::new(pattern).ok()?;
    Some(re.replace_all(text, rep).into_owned())
}

/// Reads the clock with `chrono::Utc::now` and copies out the moment's
/// RFC 3339 text, its seconds since 1970 and the nanoseconds within the
/// second. Nothing is claimed of what the clock shows.
#[verifier::external_body]
pub(crate) fn moment_now() -> Moment {
    let now = chrono::Utc::now();
    Moment {
        rfc3339: now.to_rfc3339(),
        seconds: now.timestamp(),
        nanos: now.timestamp_subsec_nanos(),
    }
}

/// `HeaderMap` of the `http` crate, the headers of a live message.
#[verifier::external_type_specification]
#[verifier::external_body]
#[verifier::reject_recursive_types(T)]
pub struct ExHeaderMap<T>(HeaderMap<T>);

/// `HeaderValue` of the `http` crate, which a `HeaderMap` holds.
#[verifier::external_type_specification]
#[verifier::external_body]
pub struct ExHeaderValue(HeaderValue);

/// The headers that a map holds, in the order in which `HeaderMap::iter`
/// hands them out: each as its name, which is in lower case, and the bytes
/// of its value.
pub uninterp spec fn header_fields(map: HeaderMap<HeaderValue>) -> Seq<(Seq<char>, Seq<u8>)>;

/// Whether a text is short enough to be looked up in a map and holds no
/// ASCII capital. Such a text is a header's name only as it stands.
pub open spec fn is_lookup_name(name: Seq<char>) -> bool {
    name.len() <= 16000 && forall|i: int|
        0 <= i < name.len() ==> !('A' <= #[trigger] name[i] && name[i] <= 'Z')
}

/// Whether `HeaderValue::from_bytes` of the `http` crate accepts these
/// bytes: none is a control character but the tab.
pub open spec fn is_header_value(bytes: Seq<u8>) -> bool {
    forall|i: int| 0 <= i < bytes.len() ==> ((32 <= #[trigger] bytes[i] && bytes[i] != 127)
        || bytes[i] == 9)
}

/// Walks the map with `HeaderMap::iter` and copies out each name and value.
/// The contract names what comes out.
#[verifier::external_body]
pub(crate) fn header_map_fields(map: &HeaderMap<HeaderValue>) -> (fields: Vec<HeaderField>)
    ensures
        field_views(fields@) == header_fields(*map),
{
    map.iter()
        .map(|(k, v)| HeaderField { name: k.as_str().to_string(), value: v.as_bytes().to_vec() })
        .collect()
}

/// Calls `HeaderMap::len`, which counts the values held. The contract
/// claims that this is the number of headers that `iter` hands out.
#[verifier::external_body]
pub(crate) fn header_map_len(map: &HeaderMap<HeaderValue>) -> (n: usize)
    ensures
        n == header_fields(*map).len(),
{
    map.len()
}

/// Calls `HeaderMap::get` with the name as text and copies out the value.
/// The lookup panics on a name of 65536 bytes or more, which `requires`
/// leaves out; a name without capitals matches only as it stands. The
/// contract claims that the value is that of the first header of the name
/// among those that `iter` hands out, since a map keeps the values of one
/// name together and `get` gives the first of them.
#[verifier::external_body]
pub(crate) fn header_map_get(map: &HeaderMap<HeaderValue>, name: &str) -> (r: Option<Vec<u8>>)
    requires
        is_lookup_name(name@),
    ensures
        (match r {
            Some(value) => Some(value@),
            None => None,
        }) == first_value(header_fields(*map), name@),
{
    map.get(name).map(|v| v.as_bytes().to_vec())
}

/// Calls `HeaderMap::get_all` with the name as text and copies out the
/// values. The contract claims that they are the values of the headers of
/// that name, in the order in which `iter` hands them out.
#[verifier::external_body]
pub(crate) fn header_map_get_all(map: &HeaderMap<HeaderValue>, name: &str) -> (r: Vec<Vec<u8>>)
    requires
        is_lookup_name(name@),
    ensures
        byte_views(r@) == values_named(header_fields(*map), name@),
{
    map.get_all(name).iter().map(|v| v.as_bytes().to_vec()).collect()
}

/// Calls `HeaderMap::remove` with the name as text. The contract claims
/// that every header of that name is gone and every other header is held
/// as often as before. The call moves the map's last name into the place of
/// the one removed, so nothing is claimed of the order.
#[verifier::external_body]
pub(crate) fn header_map_remove(map: &mut HeaderMap<HeaderValue>, name: &str)
    requires
        is_lookup_name(name@),
    ensures
        forall|f: (Seq<char>, Seq<u8>)|
            #[trigger] header_fields(*final(map)).to_multiset().count(f) == if f.0 == name@ {
                0
            } else {
                header_fields(*old(map)).to_multiset().count(f)
            },
{
    map.remove(name);
}

/// Makes a name with `HeaderName::from_lowercase` and a value with
/// `HeaderValue::from_bytes` and, where both are accepted, calls
/// `HeaderMap::insert`, which puts the one value in place of all values of
/// that name. `requires` leaves out what the calls panic on: a name of 65536
/// bytes or more and a map that holds 32768 names. The contract claims when
/// the header is set, that the map then holds it once and no other header
/// of that name, and that every other header is held as often as before.
#[verifier::external_body]
pub(crate) fn header_map_insert(map: &mut HeaderMap<HeaderValue>, name: &str, value: &Vec<u8>) -> (r:
    bool)
    requires
        name@.len() <= 16000,
        header_fields(*old(map)).len() < 32768,
    ensures
        r == (is_header_name(name@) && is_header_value(value@)),
        !r ==> header_fields(*final(map)) == header_fields(*old(map)),
        r ==> forall|f: (Seq<char>, Seq<u8>)|
            #[trigger] header_fields(*final(map)).to_multiset().count(f) == if f.0 == name@ {
                if f.1 == value@ {
                    1nat
                } else {
                    0nat
                }
            } else {
                header_fields(*old(map)).to_multiset().count(f)
            },
{
    let name = match HeaderName::from_lowercase(name.as_bytes()) {
        Ok(name) => name,
        Err(_) => return false,
    };
    let value = match HeaderValue::from_bytes(value) {
        Ok(value) => value,
        Err(_) => return false,
    };
    map.insert(name, value);
    true
}

} // verus!
