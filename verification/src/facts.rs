//! Facts told of requests, loaded transactions, and the rule by which a
//! transaction answers a request.

use vstd::prelude::*;
use crate::config::DelayOptions;
use crate::convert::{
    canonical_version, content_bytes, header_bytes, header_name_ok, same_text, ConversionError,
    Header, HttpVersion, ResponseBody,
};
use crate::message::{field_views, HeaderField, RestoredHead, Version};
use crate::model::{header_views, HeaderEntryView, ResponseEntry, ResponseEntryView};
use crate::text::lowercase_of;

verus! {

/// The kinds of fact that can be told of a request.
#[derive(Debug, Clone, Copy, PartialEq, Eq, Structural)]
pub enum FactKind {
    Method,
    PathAndQuery,
    Body,
    Headers,
}

/// One thing told of a request, by which requests are matched.
#[derive(Debug, PartialEq, Eq)]
pub enum RequestFacts {
    /// The method, in upper case.
    Method(String),
    /// The path with its leading `/`, then `?` and the query where there is one.
    PathAndQuery(String),
    /// A body that is not empty, with the media type it was sent under.
    Body { content_type: String, data: Vec<u8> },
    /// The headers, in order.
    Headers(Vec<HeaderField>),
}

/// A fact as a mathematical value.
pub enum FactView {
    Method(Seq<char>),
    PathAndQuery(Seq<char>),
    Body { content_type: Seq<char>, data: Seq<u8> },
    Headers(Seq<(Seq<char>, Seq<u8>)>),
}

impl FactView {
    /// The kind of this fact.
    pub open spec fn kind(self) -> FactKind {
        match self {
            FactView::Method(_) => FactKind::Method,
            FactView::PathAndQuery(_) => FactKind::PathAndQuery,
            FactView::Body { .. } => FactKind::Body,
            FactView::Headers(_) => FactKind::Headers,
        }
    }
}

impl View for RequestFacts {
    type V = FactView;

    open spec fn view(&self) -> FactView {
        match self {
            RequestFacts::Method(m) => FactView::Method(m@),
            RequestFacts::PathAndQuery(p) => FactView::PathAndQuery(p@),
            RequestFacts::Body { content_type, data } => FactView::Body {
                content_type: content_type@,
                data: data@,
            },
            RequestFacts::Headers(h) => FactView::Headers(field_views(h@)),
        }
    }
}

/// Whether two byte strings are the same.
pub fn same_bytes(a: &Vec<u8>, b: &Vec<u8>) -> (r: bool)
    ensures
        r == (a@ == b@),
{
    if a.len() != b.len() {
        return false;
    }
    let mut i: usize = 0;
    while i < a.len()
        invariant
            i <= a.len(),
            a.len() == b.len(),
            forall|j: int| 0 <= j < i ==> a@[j] == b@[j],
        decreases a.len() - i,
    {
        if a[i] != b[i] {
            return false;
        }
        i += 1;
    }
    assert(a@ =~= b@);
    true
}

/// Whether two lists of headers are the same, names, values and order.
pub fn same_fields(a: &Vec<HeaderField>, b: &Vec<HeaderField>) -> (r: bool)
    ensures
        r == (field_views(a@) == field_views(b@)),
{
    if a.len() != b.len() {
        assert(field_views(a@).len() != field_views(b@).len());
        return false;
    }
    let mut i: usize = 0;
    while i < a.len()
        invariant
            i <= a.len(),
            a.len() == b.len(),
            forall|j: int| 0 <= j < i ==> a@[j]@ == b@[j]@,
        decreases a.len() - i,
    {
        let same = same_text(a[i].name.as_str(), b[i].name.as_str()) && same_bytes(
            &a[i].value,
            &b[i].value,
        );
        if !same {
            assert(field_views(a@)[i as int] != field_views(b@)[i as int]);
            return false;
        }
        i += 1;
    }
    assert(field_views(a@) =~= field_views(b@));
    true
}

impl RequestFacts {
    /// The kind of this fact.
    pub fn kind(&self) -> (k: FactKind)
        ensures
            k == self@.kind(),
    {
        match self {
            RequestFacts::Method(_) => FactKind::Method,
            RequestFacts::PathAndQuery(_) => FactKind::PathAndQuery,
            RequestFacts::Body { .. } => FactKind::Body,
            RequestFacts::Headers(_) => FactKind::Headers,
        }
    }

    /// Whether two facts are of one kind, whatever they tell.
    pub fn matches_type(&self, other: &Self) -> (r: bool)
        ensures
            r == (self@.kind() == other@.kind()),
    {
        self.kind() == other.kind()
    }

    /// Whether two facts tell the same: one kind, and equal texts and bytes.
    pub fn same_as(&self, other: &Self) -> (r: bool)
        ensures
            r == (self@ == other@),
    {
        match (self, other) {
            (RequestFacts::Method(a), RequestFacts::Method(b)) => same_text(a.as_str(), b.as_str()),
            (RequestFacts::PathAndQuery(a), RequestFacts::PathAndQuery(b)) => same_text(
                a.as_str(),
                b.as_str(),
            ),
            (
                RequestFacts::Body { content_type: ta, data: da },
                RequestFacts::Body { content_type: tb, data: db },
            ) => same_text(ta.as_str(), tb.as_str()) && same_bytes(da, db),
            (RequestFacts::Headers(a), RequestFacts::Headers(b)) => same_fields(a, b),
            _ => false,
        }
    }
}

/// The views of a list of facts, in order.
pub open spec fn fact_views(facts: Seq<RequestFacts>) -> Seq<FactView> {
    facts.map_values(|f: RequestFacts| f@)
}

/// The first stored fact of a kind, if there is one.
pub open spec fn first_of_kind(stored: Seq<FactView>, kind: FactKind) -> Option<FactView>
    decreases stored.len(),
{
    if stored.len() == 0 {
        None
    } else if stored[0].kind() == kind {
        Some(stored[0])
    } else {
        first_of_kind(stored.drop_first(), kind)
    }
}

/// Whether some stored fact is of this kind.
pub open spec fn kind_appears(stored: Seq<FactView>, kind: FactKind) -> bool {
    exists|j: int| 0 <= j < stored.len() && (#[trigger] stored[j]).kind() == kind
}

/// Whether the stored facts leave a fact of a query standing: they hold
/// none of its kind, or the first of its kind tells the same.
pub open spec fn agrees(stored: Seq<FactView>, fact: FactView) -> bool {
    match first_of_kind(stored, fact.kind()) {
        Some(mine) => fact == mine,
        None => true,
    }
}

/// Whether stored facts match a query: every fact of the query agrees with them.
pub open spec fn matches_facts(stored: Seq<FactView>, query: Seq<FactView>) -> bool {
    forall|i: int| 0 <= i < query.len() ==> agrees(stored, #[trigger] query[i])
}

/// The first fact of a kind is there exactly where the kind appears, and is
/// then a stored fact of that kind with none of the kind before it.
pub proof fn lemma_first_of_kind(stored: Seq<FactView>, kind: FactKind)
    ensures
        first_of_kind(stored, kind) is Some <==> kind_appears(stored, kind),
        first_of_kind(stored, kind) matches Some(mine) ==> exists|j: int|
            0 <= j < stored.len() && #[trigger] stored[j] == mine && mine.kind() == kind && forall|
                k: int,
            |
                0 <= k < j ==> (#[trigger] stored[k]).kind() != kind,
    decreases stored.len(),
{
    if stored.len() == 0 {
    } else if stored[0].kind() == kind {
        assert(stored[0] == first_of_kind(stored, kind)->0);
    } else {
        let rest = stored.drop_first();
        lemma_first_of_kind(rest, kind);
        if kind_appears(stored, kind) {
            let j = choose|j: int| 0 <= j < stored.len() && (#[trigger] stored[j]).kind() == kind;
            assert(rest[j - 1].kind() == kind);
        }
        if kind_appears(rest, kind) {
            let j = choose|j: int| 0 <= j < rest.len() && (#[trigger] rest[j]).kind() == kind;
            assert(stored[j + 1].kind() == kind);
        }
        if first_of_kind(stored, kind) is Some {
            let mine = first_of_kind(stored, kind)->0;
            let j = choose|j: int|
                0 <= j < rest.len() && #[trigger] rest[j] == mine && mine.kind() == kind && forall|
                    k: int,
                |
                    0 <= k < j ==> (#[trigger] rest[k]).kind() != kind;
            assert(stored[j + 1] == mine);
            assert forall|k: int| 0 <= k < j + 1 implies (#[trigger] stored[k]).kind() != kind by {
                if k > 0 {
                    assert(rest[k - 1].kind() != kind);
                }
            }
        }
    }
}

/// Stored facts match a query exactly where every fact of the query whose
/// kind appears among them equals the first stored fact of that kind.
pub proof fn lemma_matches_by_kind(stored: Seq<FactView>, query: Seq<FactView>)
    ensures
        matches_facts(stored, query) <==> forall|i: int|
            0 <= i < query.len() && kind_appears(stored, (#[trigger] query[i]).kind())
                ==> first_of_kind(stored, query[i].kind()) == Some(query[i]),
{
    assert forall|i: int| 0 <= i < query.len() implies (agrees(stored, #[trigger] query[i]) <==> (
    kind_appears(stored, query[i].kind()) ==> first_of_kind(stored, query[i].kind()) == Some(
        query[i],
    ))) by {
        lemma_first_of_kind(stored, query[i].kind());
    }
}

/// A query without facts is matched by whatever is stored.
pub proof fn lemma_empty_query_matches(stored: Seq<FactView>)
    ensures
        matches_facts(stored, Seq::empty()),
{
}

/// What restoring a list of archived headers comes to.
pub enum HeaderScan {
    /// Every header was restored: names and values, in order.
    Fields(Seq<(Seq<char>, Seq<u8>)>),
    /// The first header that failed has a name that no header can have.
    BadName,
    /// The first header that failed has a value marked base64 that is none.
    BadBase64,
}

/// Restores archived headers from the left and stops at the first that fails.
pub open spec fn scan_headers(headers: Seq<HeaderEntryView>) -> HeaderScan
    decreases headers.len(),
{
    if headers.len() == 0 {
        HeaderScan::Fields(Seq::empty())
    } else {
        match scan_headers(headers.drop_last()) {
            HeaderScan::Fields(before) => if !header_name_ok(headers.last()) {
                HeaderScan::BadName
            } else {
                match header_bytes(headers.last()) {
                    None => HeaderScan::BadBase64,
                    Some(value) => HeaderScan::Fields(
                        before.push((lowercase_of(headers.last().name), value)),
                    ),
                }
            },
            failed => failed,
        }
    }
}

/// A failure among the first `n` headers is the failure of the whole list.
proof fn lemma_header_failure_stays(headers: Seq<HeaderEntryView>, n: int)
    requires
        0 <= n <= headers.len(),
        !(scan_headers(headers.take(n)) is Fields),
    ensures
        scan_headers(headers) == scan_headers(headers.take(n)),
    decreases headers.len() - n,
{
    if n == headers.len() {
        assert(headers.take(n) =~= headers);
    } else {
        assert(headers.take(n + 1).drop_last() =~= headers.take(n));
        lemma_header_failure_stays(headers, n + 1);
    }
}

/// What a stored response stands for as a live one, or the first part of it
/// that cannot be restored: the version, then each header in order, then the
/// body. The status is the stored one cut to sixteen bits, and the media
/// type stored with the body plays no part.
pub enum Restored {
    Response { status: u16, version: Version, headers: Seq<(Seq<char>, Seq<u8>)>, body: Seq<u8> },
    BadVersion,
    BadHeaderName,
    BadBase64,
}

/// The live response that a stored one stands for.
pub open spec fn restored(response: ResponseEntryView) -> Restored {
    match canonical_version(response.http_version) {
        None => Restored::BadVersion,
        Some(version) => match scan_headers(response.headers) {
            HeaderScan::BadName => Restored::BadHeaderName,
            HeaderScan::BadBase64 => Restored::BadBase64,
            HeaderScan::Fields(headers) => match content_bytes(response.content) {
                None => Restored::BadBase64,
                Some(body) => Restored::Response {
                    status: response.status as u16,
                    version,
                    headers,
                    body,
                },
            },
        },
    }
}

/// A transaction loaded from an archive: what is told of its request, how
/// long it took in milliseconds, and its response as the archive holds it.
#[derive(Debug, PartialEq, Eq)]
pub struct ArchivedRequest {
    original_timing: u64,
    facts: Vec<RequestFacts>,
    response: ResponseEntry,
}

impl ArchivedRequest {
    /// A loaded transaction of these parts.
    pub fn new(original_timing: u64, facts: Vec<RequestFacts>, response: ResponseEntry) -> (r: Self)
        ensures
            r.timing() == original_timing,
            r.stored() == fact_views(facts@),
            r.response_view() == response@,
    {
        ArchivedRequest { original_timing, facts, response }
    }

    /// How long the recorded exchange took, in milliseconds.
    pub closed spec fn timing(&self) -> u64 {
        self.original_timing
    }

    /// The facts stored of the request.
    pub closed spec fn stored(&self) -> Seq<FactView> {
        fact_views(self.facts@)
    }

    /// The stored response.
    pub closed spec fn response_view(&self) -> ResponseEntryView {
        self.response@
    }

    /// How long the recorded exchange took, in milliseconds.
    pub fn original_timing(&self) -> (ms: u64)
        ensures
            ms == self.timing(),
    {
        self.original_timing
    }

    /// The facts stored of the request.
    pub fn facts(&self) -> (facts: &Vec<RequestFacts>)
        ensures
            fact_views(facts@) == self.stored(),
    {
        &self.facts
    }

    /// The stored response.
    pub fn response(&self) -> (response: &ResponseEntry)
        ensures
            response@ == self.response_view(),
    {
        &self.response
    }

    /// The live response that the stored one stands for: its head and its
    /// body. The version is restored first, then each header in order, then
    /// the body, and the first failure is the error.
    pub fn hyper_response(&self) -> (r: Result<(RestoredHead, Vec<u8>), ConversionError>)
        ensures
            match r {
                Ok((head, body)) => restored(self.response_view()) == (Restored::Response {
                    status: head.status,
                    version: head.version,
                    headers: field_views(head.headers@),
                    body: body@,
                }),
                Err(ConversionError::InvalidHttpVersion(_)) => restored(self.response_view())
                    is BadVersion,
                Err(ConversionError::InvalidHeaderName(_)) => restored(self.response_view())
                    is BadHeaderName,
                Err(ConversionError::InvalidBase64(_)) => restored(self.response_view())
                    is BadBase64,
                Err(_) => false,
            },
    {
        let status = #[verifier::truncate] (self.response.status as u16);
        let version = match HttpVersion::hyper(self.response.http_version.as_str()) {
            Ok(v) => v,
            Err(e) => {
                return Err(e);
            },
        };
        let ghost stored = header_views(self.response.headers@);
        let mut headers: Vec<HeaderField> = Vec::new();
        let mut i: usize = 0;
        assert(stored.take(0) =~= Seq::empty());
        assert(field_views(headers@) =~= Seq::empty());
        while i < self.response.headers.len()
            invariant
                i <= self.response.headers.len(),
                stored == header_views(self.response.headers@),
                canonical_version(self.response@.http_version) == Some(version),
                scan_headers(stored.take(i as int)) == HeaderScan::Fields(field_views(headers@)),
            decreases self.response.headers.len() - i,
        {
            let ghost before = headers@;
            assert(stored.take(i + 1).drop_last() =~= stored.take(i as int));
            assert(stored.take(i + 1).last() == self.response.headers@[i as int]@);
            match Header::hyper(&self.response.headers[i]) {
                Ok(field) => {
                    headers.push(field);
                    assert(field_views(headers@) =~= field_views(before).push(field@));
                },
                Err(e) => {
                    proof {
                        let prefix = stored.take(i + 1);
                        assert(scan_headers(prefix.drop_last()) is Fields);
                        assert(!(scan_headers(prefix) is Fields));
                        lemma_header_failure_stays(stored, i + 1);
                    }
                    return Err(e);
                },
            }
            i += 1;
        }
        assert(stored.take(i as int) =~= stored);
        match ResponseBody::hyper(&self.response.content) {
            Ok((body, _mime_type)) => Ok((RestoredHead { status, version, headers }, body)),
            Err(e) => Err(e),
        }
    }

    /// How many milliseconds to wait before this transaction's response is
    /// sent: none, as long as the exchange took, or a fixed time.
    pub fn delay(&self, d: &DelayOptions) -> (ms: u64)
        ensures
            ms == match *d {
                DelayOptions::NoDelay => 0,
                DelayOptions::Original => self.timing(),
                DelayOptions::Static { millis } => millis,
            },
    {
        match d {
            DelayOptions::NoDelay => 0,
            DelayOptions::Original => self.original_timing,
            DelayOptions::Static { millis } => *millis,
        }
    }

    /// Whether this transaction answers a request of which `facts` are
    /// told: every one of them whose kind is stored here must equal the
    /// first stored fact of that kind; the others are passed over.
    pub fn matches(&self, facts: &[RequestFacts]) -> (r: bool)
        ensures
            r == matches_facts(self.stored(), fact_views(facts@)),
    {
        let mut i: usize = 0;
        while i < facts.len()
            invariant
                i <= facts.len(),
                forall|j: int|
                    0 <= j < i ==> agrees(fact_views(self.facts@), #[trigger] fact_views(facts@)[j]),
            decreases facts.len() - i,
        {
            let f = &facts[i];
            let mut k: usize = 0;
            let mut found: Option<usize> = None;
            assert(fact_views(self.facts@).skip(0) =~= fact_views(self.facts@));
            while k < self.facts.len() && found.is_none()
                invariant
                    k <= self.facts.len(),
                    first_of_kind(fact_views(self.facts@), f@.kind()) == match found {
                        Some(at) => Some(fact_views(self.facts@)[at as int]),
                        None => first_of_kind(fact_views(self.facts@).skip(k as int), f@.kind()),
                    },
                    found matches Some(at) ==> at < self.facts.len(),
                decreases self.facts.len() - k + if found is None { 1int } else { 0int },
            {
                let ghost rest = fact_views(self.facts@).skip(k as int);
                assert(rest[0] == self.facts@[k as int]@);
                assert(rest.drop_first() =~= fact_views(self.facts@).skip(k + 1));
                if self.facts[k].matches_type(f) {
                    found = Some(k);
                } else {
                    k += 1;
                }
            }
            let agreed = match found {
                Some(at) => f.same_as(&self.facts[at]),
                None => true,
            };
            assert(agreed == agrees(fact_views(self.facts@), f@));
            if !agreed {
                assert(!agrees(fact_views(self.facts@), fact_views(facts@)[i as int]));
                return false;
            }
            i += 1;
        }
        true
    }
}

} // verus!
