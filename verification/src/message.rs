//! Live HTTP messages: their heads as plain values, their headers in the
//! map that the HTTP library keeps them in.

use vstd::prelude::*;
use crate::model::opt_view;
use hyper::header::HeaderValue;
use hyper::HeaderMap;
use crate::outside::{
    header_fields, header_map_get, header_value_text, is_lookup_name, value_text,
};

verus! {

/// A version of HTTP that a message can be sent in.
#[derive(Debug, Clone, Copy, PartialEq, Eq, Structural)]
pub enum Version {
    Http09,
    Http10,
    Http11,
    Http2,
}

/// One header of a live message: its name in lower case and the bytes of
/// its value, which need not be text.
#[derive(Debug, PartialEq, Eq)]
pub struct HeaderField {
    pub name: String,
    pub value: Vec<u8>,
}

impl View for HeaderField {
    type V = (Seq<char>, Seq<u8>);

    open spec fn view(&self) -> (Seq<char>, Seq<u8>) {
        (self.name@, self.value@)
    }
}

impl Clone for HeaderField {
    fn clone(&self) -> (r: Self)
        ensures
            r@ == self@,
    {
        HeaderField { name: self.name.clone(), value: self.value.clone() }
    }
}

/// The views of a list of headers, in order.
pub open spec fn field_views(fields: Seq<HeaderField>) -> Seq<(Seq<char>, Seq<u8>)> {
    fields.map_values(|f: HeaderField| f@)
}

/// The target of a request as its parts. `text` is the whole target as it
/// prints. `path_and_query` is the path with its leading `/`, then `?` and
/// the query where there is one; it is absent where the target has neither.
/// `path` and `query` are its two halves.
#[derive(Debug, PartialEq, Eq)]
pub struct UriParts {
    pub text: String,
    pub scheme: Option<String>,
    pub authority: Option<String>,
    pub path: String,
    pub query: Option<String>,
    pub path_and_query: Option<String>,
}

pub struct UriPartsView {
    pub text: Seq<char>,
    pub scheme: Option<Seq<char>>,
    pub authority: Option<Seq<char>>,
    pub path: Seq<char>,
    pub query: Option<Seq<char>>,
    pub path_and_query: Option<Seq<char>>,
}

impl View for UriParts {
    type V = UriPartsView;

    open spec fn view(&self) -> UriPartsView {
        UriPartsView {
            text: self.text@,
            scheme: opt_view(self.scheme),
            authority: opt_view(self.authority),
            path: self.path@,
            query: opt_view(self.query),
            path_and_query: opt_view(self.path_and_query),
        }
    }
}

/// The head of a live request. Its headers are in the map that the HTTP
/// library keeps them in.
#[derive(Debug, PartialEq, Eq)]
pub struct RequestHead {
    pub method: String,
    pub uri: UriParts,
    pub version: Version,
    pub headers: HeaderMap<HeaderValue>,
}

/// The head of a live response. Its headers are in the map that the HTTP
/// library keeps them in.
#[derive(Debug, PartialEq, Eq)]
pub struct ResponseHead {
    pub status: u16,
    pub version: Version,
    pub headers: HeaderMap<HeaderValue>,
}

/// The head of a response that was restored from an archive: its headers
/// are a list, in the order of the archive.
#[derive(Debug, PartialEq, Eq)]
pub struct RestoredHead {
    pub status: u16,
    pub version: Version,
    pub headers: Vec<HeaderField>,
}

pub struct RequestHeadView {
    pub method: Seq<char>,
    pub uri: UriPartsView,
    pub version: Version,
    pub headers: Seq<(Seq<char>, Seq<u8>)>,
}

impl View for RequestHead {
    type V = RequestHeadView;

    open spec fn view(&self) -> RequestHeadView {
        RequestHeadView {
            method: self.method@,
            uri: self.uri@,
            version: self.version,
            headers: header_fields(self.headers),
        }
    }
}

pub struct ResponseHeadView {
    pub status: u16,
    pub version: Version,
    pub headers: Seq<(Seq<char>, Seq<u8>)>,
}

impl View for ResponseHead {
    type V = ResponseHeadView;

    open spec fn view(&self) -> ResponseHeadView {
        ResponseHeadView {
            status: self.status,
            version: self.version,
            headers: header_fields(self.headers),
        }
    }
}

/// The value of the first header called `name`, if there is one.
pub open spec fn first_value(fields: Seq<(Seq<char>, Seq<u8>)>, name: Seq<char>) -> Option<
    Seq<u8>,
>
    decreases fields.len(),
{
    if fields.len() == 0 {
        None
    } else if fields[0].0 == name {
        Some(fields[0].1)
    } else {
        first_value(fields.drop_first(), name)
    }
}

/// The first header called `name` as text: empty where there is no such
/// header or its value is not printable ASCII.
pub open spec fn header_text(fields: Seq<(Seq<char>, Seq<u8>)>, name: Seq<char>) -> Seq<char> {
    match first_value(fields, name) {
        None => Seq::empty(),
        Some(value) => match value_text(value) {
            None => Seq::empty(),
            Some(text) => text,
        },
    }
}

/// The views of a list of byte strings.
pub open spec fn byte_views(values: Seq<Vec<u8>>) -> Seq<Seq<u8>> {
    values.map_values(|v: Vec<u8>| v@)
}

/// The values of the headers called `name`, in order.
pub open spec fn values_named(fields: Seq<(Seq<char>, Seq<u8>)>, name: Seq<char>) -> Seq<Seq<u8>>
    decreases fields.len(),
{
    if fields.len() == 0 {
        Seq::empty()
    } else if fields.last().0 == name {
        values_named(fields.drop_last(), name).push(fields.last().1)
    } else {
        values_named(fields.drop_last(), name)
    }
}

/// The first header called `name` as text, or the empty text. The name is
/// one without capitals, as the names in a map are.
pub(crate) fn find_header_text(headers: &HeaderMap<HeaderValue>, name: &str) -> (text: String)
    requires
        is_lookup_name(name@),
    ensures
        text@ == header_text(header_fields(*headers), name@),
{
    match header_map_get(headers, name) {
        None => String::new(),
        Some(value) => match header_value_text(&value) {
            Some(text) => text,
            None => String::new(),
        },
    }
}

} // verus!
