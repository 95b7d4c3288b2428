//! The archive's data: HAR 1.2 as far as recording and playback use it.

use vstd::prelude::*;

verus! {

/// The view of an optional text.
pub open spec fn opt_view(text: Option<String>) -> Option<Seq<char>> {
    match text {
        Some(t) => Some(t@),
        None => None,
    }
}

/// Copies an optional text.
pub fn copy_opt(text: &Option<String>) -> (r: Option<String>)
    ensures
        opt_view(r) == opt_view(*text),
{
    match text {
        Some(t) => Some(t.clone()),
        None => None,
    }
}

/// One header of an archived message. Where `comment` is `"base64"`, `value`
/// holds the base64 text of the header's bytes; otherwise it holds them as text.
#[derive(Debug, PartialEq, Eq)]
pub struct HeaderEntry {
    pub name: String,
    pub value: String,
    pub comment: Option<String>,
}

pub struct HeaderEntryView {
    pub name: Seq<char>,
    pub value: Seq<char>,
    pub comment: Option<Seq<char>>,
}

impl View for HeaderEntry {
    type V = HeaderEntryView;

    open spec fn view(&self) -> HeaderEntryView {
        HeaderEntryView { name: self.name@, value: self.value@, comment: opt_view(self.comment) }
    }
}

impl Clone for HeaderEntry {
    fn clone(&self) -> (r: Self)
        ensures
            r@ == self@,
    {
        HeaderEntry {
            name: self.name.clone(),
            value: self.value.clone(),
            comment: copy_opt(&self.comment),
        }
    }
}

/// The views of a list of headers, in order.
pub open spec fn header_views(headers: Seq<HeaderEntry>) -> Seq<HeaderEntryView> {
    headers.map_values(|h: HeaderEntry| h@)
}

/// Copies a list of headers.
pub fn copy_headers(headers: &Vec<HeaderEntry>) -> (r: Vec<HeaderEntry>)
    ensures
        header_views(r@) == header_views(headers@),
{
    let r = headers.clone();
    assert(header_views(r@) =~= header_views(headers@));
    r
}

/// One pair of a request's query string, neither part decoded.
#[derive(Debug, PartialEq, Eq)]
pub struct QueryEntry {
    pub name: String,
    pub value: String,
    pub comment: Option<String>,
}

pub struct QueryEntryView {
    pub name: Seq<char>,
    pub value: Seq<char>,
    pub comment: Option<Seq<char>>,
}

impl View for QueryEntry {
    type V = QueryEntryView;

    open spec fn view(&self) -> QueryEntryView {
        QueryEntryView { name: self.name@, value: self.value@, comment: opt_view(self.comment) }
    }
}

impl Clone for QueryEntry {
    fn clone(&self) -> (r: Self)
        ensures
            r@ == self@,
    {
        QueryEntry {
            name: self.name.clone(),
            value: self.value.clone(),
            comment: copy_opt(&self.comment),
        }
    }
}

/// The views of a list of query pairs, in order.
pub open spec fn query_views(pairs: Seq<QueryEntry>) -> Seq<QueryEntryView> {
    pairs.map_values(|q: QueryEntry| q@)
}

/// Copies a list of query pairs.
pub fn copy_query(pairs: &Vec<QueryEntry>) -> (r: Vec<QueryEntry>)
    ensures
        query_views(r@) == query_views(pairs@),
{
    let r = pairs.clone();
    assert(query_views(r@) =~= query_views(pairs@));
    r
}

/// One cookie of an archived message. `expires` is an RFC 3339 time.
#[derive(Debug, PartialEq, Eq)]
pub struct CookieEntry {
    pub name: String,
    pub value: String,
    pub path: Option<String>,
    pub domain: Option<String>,
    pub expires: Option<String>,
    pub http_only: Option<bool>,
    pub secure: Option<bool>,
    pub comment: Option<String>,
}

pub struct CookieEntryView {
    pub name: Seq<char>,
    pub value: Seq<char>,
    pub path: Option<Seq<char>>,
    pub domain: Option<Seq<char>>,
    pub expires: Option<Seq<char>>,
    pub http_only: Option<bool>,
    pub secure: Option<bool>,
    pub comment: Option<Seq<char>>,
}

impl View for CookieEntry {
    type V = CookieEntryView;

    open spec fn view(&self) -> CookieEntryView {
        CookieEntryView {
            name: self.name@,
            value: self.value@,
            path: opt_view(self.path),
            domain: opt_view(self.domain),
            expires: opt_view(self.expires),
            http_only: self.http_only,
            secure: self.secure,
            comment: opt_view(self.comment),
        }
    }
}

impl Clone for CookieEntry {
    fn clone(&self) -> (r: Self)
        ensures
            r@ == self@,
    {
        CookieEntry {
            name: self.name.clone(),
            value: self.value.clone(),
            path: copy_opt(&self.path),
            domain: copy_opt(&self.domain),
            expires: copy_opt(&self.expires),
            http_only: self.http_only,
            secure: self.secure,
            comment: copy_opt(&self.comment),
        }
    }
}

/// The views of a list of cookies, in order.
pub open spec fn cookie_views(cookies: Seq<CookieEntry>) -> Seq<CookieEntryView> {
    cookies.map_values(|c: CookieEntry| c@)
}

/// Copies a list of cookies.
pub fn copy_cookies(cookies: &Vec<CookieEntry>) -> (r: Vec<CookieEntry>)
    ensures
        cookie_views(r@) == cookie_views(cookies@),
{
    let r = cookies.clone();
    assert(cookie_views(r@) =~= cookie_views(cookies@));
    r
}

/// The body of an archived request. Where `comment` is `"base64"`, `text`
/// holds the base64 text of the body; otherwise it holds the body as text.
#[derive(Debug, PartialEq, Eq)]
pub struct PostData {
    pub mime_type: String,
    pub text: String,
    pub comment: Option<String>,
}

pub struct PostDataView {
    pub mime_type: Seq<char>,
    pub text: Seq<char>,
    pub comment: Option<Seq<char>>,
}

impl View for PostData {
    type V = PostDataView;

    open spec fn view(&self) -> PostDataView {
        PostDataView {
            mime_type: self.mime_type@,
            text: self.text@,
            comment: opt_view(self.comment),
        }
    }
}

impl Clone for PostData {
    fn clone(&self) -> (r: Self)
        ensures
            r@ == self@,
    {
        PostData {
            mime_type: self.mime_type.clone(),
            text: self.text.clone(),
            comment: copy_opt(&self.comment),
        }
    }
}

/// The view of an optional request body.
pub open spec fn post_data_view(data: Option<PostData>) -> Option<PostDataView> {
    match data {
        Some(d) => Some(d@),
        None => None,
    }
}

/// The body of an archived response. `size` is the length of the body in
/// bytes. `text` is absent for an empty body. Where `encoding` is `"base64"`,
/// `text` holds the base64 text of the body; otherwise it holds the body as text.
#[derive(Debug, PartialEq, Eq)]
pub struct Content {
    pub size: i64,
    pub compression: Option<i64>,
    pub mime_type: String,
    pub text: Option<String>,
    pub encoding: Option<String>,
    pub comment: Option<String>,
}

pub struct ContentView {
    pub size: i64,
    pub compression: Option<i64>,
    pub mime_type: Seq<char>,
    pub text: Option<Seq<char>>,
    pub encoding: Option<Seq<char>>,
    pub comment: Option<Seq<char>>,
}

impl View for Content {
    type V = ContentView;

    open spec fn view(&self) -> ContentView {
        ContentView {
            size: self.size,
            compression: self.compression,
            mime_type: self.mime_type@,
            text: opt_view(self.text),
            encoding: opt_view(self.encoding),
            comment: opt_view(self.comment),
        }
    }
}

impl Clone for Content {
    fn clone(&self) -> (r: Self)
        ensures
            r@ == self@,
    {
        Content {
            size: self.size,
            compression: self.compression,
            mime_type: self.mime_type.clone(),
            text: copy_opt(&self.text),
            encoding: copy_opt(&self.encoding),
            comment: copy_opt(&self.comment),
        }
    }
}

/// An archived request. `comment` carries the transaction's fingerprint as
/// `hash:` followed by its hex digits. The two sizes are -1 where unknown.
#[derive(Debug, PartialEq, Eq)]
pub struct RequestEntry {
    pub method: String,
    pub url: String,
    pub http_version: String,
    pub cookies: Vec<CookieEntry>,
    pub headers: Vec<HeaderEntry>,
    pub query_string: Vec<QueryEntry>,
    pub post_data: Option<PostData>,
    pub headers_size: i64,
    pub body_size: i64,
    pub comment: Option<String>,
}

pub struct RequestEntryView {
    pub method: Seq<char>,
    pub url: Seq<char>,
    pub http_version: Seq<char>,
    pub cookies: Seq<CookieEntryView>,
    pub headers: Seq<HeaderEntryView>,
    pub query_string: Seq<QueryEntryView>,
    pub post_data: Option<PostDataView>,
    pub headers_size: i64,
    pub body_size: i64,
    pub comment: Option<Seq<char>>,
}

impl View for RequestEntry {
    type V = RequestEntryView;

    open spec fn view(&self) -> RequestEntryView {
        RequestEntryView {
            method: self.method@,
            url: self.url@,
            http_version: self.http_version@,
            cookies: cookie_views(self.cookies@),
            headers: header_views(self.headers@),
            query_string: query_views(self.query_string@),
            post_data: post_data_view(self.post_data),
            headers_size: self.headers_size,
            body_size: self.body_size,
            comment: opt_view(self.comment),
        }
    }
}

impl Clone for RequestEntry {
    fn clone(&self) -> (r: Self)
        ensures
            r@ == self@,
    {
        RequestEntry {
            method: self.method.clone(),
            url: self.url.clone(),
            http_version: self.http_version.clone(),
            cookies: copy_cookies(&self.cookies),
            headers: copy_headers(&self.headers),
            query_string: copy_query(&self.query_string),
            post_data: match &self.post_data {
                Some(d) => Some(d.clone()),
                None => None,
            },
            headers_size: self.headers_size,
            body_size: self.body_size,
            comment: copy_opt(&self.comment),
        }
    }
}

/// An archived response. `redirect_url` is the `Location` header's value, or
/// empty. The two sizes are -1 where unknown.
#[derive(Debug, PartialEq, Eq)]
pub struct ResponseEntry {
    pub status: i64,
    pub status_text: String,
    pub http_version: String,
    pub cookies: Vec<CookieEntry>,
    pub headers: Vec<HeaderEntry>,
    pub content: Content,
    pub redirect_url: String,
    pub headers_size: i64,
    pub body_size: i64,
    pub comment: Option<String>,
}

pub struct ResponseEntryView {
    pub status: i64,
    pub status_text: Seq<char>,
    pub http_version: Seq<char>,
    pub cookies: Seq<CookieEntryView>,
    pub headers: Seq<HeaderEntryView>,
    pub content: ContentView,
    pub redirect_url: Seq<char>,
    pub headers_size: i64,
    pub body_size: i64,
    pub comment: Option<Seq<char>>,
}

impl View for ResponseEntry {
    type V = ResponseEntryView;

    open spec fn view(&self) -> ResponseEntryView {
        ResponseEntryView {
            status: self.status,
            status_text: self.status_text@,
            http_version: self.http_version@,
            cookies: cookie_views(self.cookies@),
            headers: header_views(self.headers@),
            content: self.content@,
            redirect_url: self.redirect_url@,
            headers_size: self.headers_size,
            body_size: self.body_size,
            comment: opt_view(self.comment),
        }
    }
}

impl Clone for ResponseEntry {
    fn clone(&self) -> (r: Self)
        ensures
            r@ == self@,
    {
        ResponseEntry {
            status: self.status,
            status_text: self.status_text.clone(),
            http_version: self.http_version.clone(),
            cookies: copy_cookies(&self.cookies),
            headers: copy_headers(&self.headers),
            content: self.content.clone(),
            redirect_url: self.redirect_url.clone(),
            headers_size: self.headers_size,
            body_size: self.body_size,
            comment: copy_opt(&self.comment),
        }
    }
}

/// The phases of an exchange in milliseconds, -1 where a phase was not measured.
#[derive(Debug, Clone, Copy, PartialEq, Eq, Structural)]
pub struct Timings {
    pub send: i64,
    pub wait: i64,
    pub receive: i64,
}

/// One archived transaction: a request, its response, when it started and
/// how many milliseconds it took.
#[derive(Debug, PartialEq, Eq)]
pub struct Entry {
    pub started_date_time: String,
    pub time: i64,
    pub request: RequestEntry,
    pub response: ResponseEntry,
    pub timings: Timings,
}

pub struct EntryView {
    pub started_date_time: Seq<char>,
    pub time: i64,
    pub request: RequestEntryView,
    pub response: ResponseEntryView,
    pub timings: Timings,
}

impl View for Entry {
    type V = EntryView;

    open spec fn view(&self) -> EntryView {
        EntryView {
            started_date_time: self.started_date_time@,
            time: self.time,
            request: self.request@,
            response: self.response@,
            timings: self.timings,
        }
    }
}

impl Clone for Entry {
    fn clone(&self) -> (r: Self)
        ensures
            r@ == self@,
    {
        Entry {
            started_date_time: self.started_date_time.clone(),
            time: self.time,
            request: self.request.clone(),
            response: self.response.clone(),
            timings: self.timings,
        }
    }
}

/// The views of a list of transactions, in order.
pub open spec fn entry_views(entries: Seq<Entry>) -> Seq<EntryView> {
    entries.map_values(|e: Entry| e@)
}

/// The program that wrote an archive.
#[derive(Debug, PartialEq, Eq)]
pub struct Creator {
    pub name: String,
    pub version: String,
}

/// An archive: the format's version, who wrote it, and its transactions.
#[derive(Debug, PartialEq, Eq)]
pub struct Log {
    pub version: String,
    pub creator: Creator,
    pub entries: Vec<Entry>,
}

} // verus!
