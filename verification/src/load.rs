//! The loading of archives into transactions that can be matched.

use vstd::prelude::*;
use crate::convert::{
    canonical_version, content_bytes, header_entry, header_name_ok, lemma_version_round_trip,
    post_data_bytes, restores, same_text, ConversionError, HttpVersion, RequestBody,
    ResponseBody,
};
use crate::facts::{
    agrees, fact_views, first_of_kind, matches_facts, restored, scan_headers, ArchivedRequest,
    FactView, HeaderScan, RequestFacts, Restored,
};
use crate::playback::request_facts;
use crate::message::{header_text, RequestHeadView, ResponseHeadView, Version};
use crate::model::{
    entry_views, Content, CookieEntryView, Entry, EntryView, Log, PostData, RequestEntry,
    RequestEntryView,
};
use crate::outside::{is_method, method_from_text, parse_uri, uri_of};
use crate::store::{archived_headers, or_empty, recorded_request, recorded_response};
use crate::text::{lowercase_of, str_to_uppercase, uppercase_of};

verus! {

/// What loading an archive can fail on.
#[derive(Debug)]
pub enum HarLoadingError {
    /// The archive is not of version 1.2.
    InvalidVersion,
    /// A request's method or URL cannot be read; the text says which.
    InvalidMatcher(String),
    /// A response cannot be restored; the text says why.
    InvalidResponse(String),
    /// A stored text cannot be restored.
    Conversion(ConversionError),
}

impl HarLoadingError {
    /// What the error says.
    pub fn message(&self) -> (text: String)
        ensures
            match *self {
                HarLoadingError::InvalidVersion => text@ == "Invalid HAR version"@,
                HarLoadingError::InvalidMatcher(why) => text@ == "Couldn't create matcher: "@
                    + why@,
                HarLoadingError::InvalidResponse(why) => text@ == "Couldn't create response: "@
                    + why@,
                HarLoadingError::Conversion(e) => e.says() matches Some(said) ==> text@ == said,
            },
    {
        match self {
            HarLoadingError::InvalidVersion => String::from_str("Invalid HAR version"),
            HarLoadingError::InvalidMatcher(why) => String::from_str(
                "Couldn't create matcher: ",
            ).concat(why.as_str()),
            HarLoadingError::InvalidResponse(why) => String::from_str(
                "Couldn't create response: ",
            ).concat(why.as_str()),
            HarLoadingError::Conversion(e) => e.message(),
        }
    }
}

/// The bytes and the media type of an archived request body.
pub fn request_body_and_encoding(d: &PostData) -> (r: Result<(Vec<u8>, String), ConversionError>)
    ensures
        match r {
            Ok((body, mime_type)) => post_data_bytes(d@) == Some(body@) && mime_type@
                == d@.mime_type,
            Err(ConversionError::InvalidBase64(_)) => post_data_bytes(d@) is None,
            Err(_) => false,
        },
{
    RequestBody::bytes(d)
}

/// The bytes and the media type of an archived response body: no bytes and
/// no media type where the body has no text.
pub fn response_body_and_encoding(c: &Content) -> (r: Result<
    (Option<Vec<u8>>, String),
    ConversionError,
>)
    ensures
        match r {
            Ok((None, mime_type)) => c@.text is None && mime_type@ == Seq::<char>::empty(),
            Ok((Some(body), mime_type)) => c@.text is Some && content_bytes(c@) == Some(body@)
                && mime_type@ == c@.mime_type,
            Err(ConversionError::InvalidBase64(_)) => content_bytes(c@) is None,
            Err(_) => false,
        },
{
    if c.text.is_none() {
        return Ok((None, String::new()));
    }
    match ResponseBody::hyper(c) {
        Ok((body, mime_type)) => Ok((Some(body), mime_type)),
        Err(e) => Err(e),
    }
}

/// The message of a text that names no HTTP version.
pub open spec fn invalid_version_message(text: Seq<char>) -> Seq<char> {
    "Invalid HTTP version "@ + text
}

/// The version that a text names.
pub fn http_version_for_str(s: &str) -> (r: Result<Version, HarLoadingError>)
    ensures
        match r {
            Ok(version) => canonical_version(s@) == Some(version),
            Err(HarLoadingError::InvalidResponse(message)) => canonical_version(s@) is None
                && message@ == invalid_version_message(s@),
            Err(_) => false,
        },
{
    match HttpVersion::hyper(s) {
        Ok(version) => Ok(version),
        Err(_) => Err(
            HarLoadingError::InvalidResponse(String::from_str("Invalid HTTP version ").concat(s)),
        ),
    }
}

/// What reading the facts of an archived request comes to: the facts, or
/// the first part that cannot be read.
pub enum FactsScan {
    Facts(Seq<FactView>),
    BadMethod,
    BadUri,
    BadBody,
}

/// The facts of an archived request: its method in upper case, the path and
/// query of its URL, and its body where it has one. The method is read
/// first, then the URL, then the body.
pub open spec fn facts_of(r: RequestEntryView) -> FactsScan {
    if !is_method(uppercase_of(r.method)) {
        FactsScan::BadMethod
    } else {
        match uri_of(r.url) {
            None => FactsScan::BadUri,
            Some(uri) => {
                let told = seq![
                    FactView::Method(uppercase_of(r.method)),
                    FactView::PathAndQuery(or_empty(uri.path_and_query)),
                ];
                match r.post_data {
                    None => FactsScan::Facts(told),
                    Some(d) => match post_data_bytes(d) {
                        None => FactsScan::BadBody,
                        Some(data) => FactsScan::Facts(
                            told.push(FactView::Body { content_type: d.mime_type, data }),
                        ),
                    },
                }
            },
        }
    }
}

/// How long a transaction took, in milliseconds: nothing for a time below zero.
pub open spec fn timing_of(time: i64) -> u64 {
    if time < 0 {
        0
    } else {
        time as u64
    }
}

/// Whether `e` is the error of an entry whose facts come to `scan`.
pub open spec fn is_entry_error(r: RequestEntryView, e: HarLoadingError) -> bool {
    match e {
        HarLoadingError::InvalidMatcher(message) => (facts_of(r) is BadMethod && message@
            == "Unknown method "@ + r.method) || (facts_of(r) is BadUri && message@
            == "Invalid Uri "@ + r.url),
        HarLoadingError::Conversion(ConversionError::InvalidBase64(_)) => facts_of(r) is BadBody,
        _ => false,
    }
}

/// Whether `a` is what loading the entry `e` gives.
pub open spec fn is_loaded(a: ArchivedRequest, e: EntryView) -> bool {
    &&& a.timing() == timing_of(e.time)
    &&& facts_of(e.request) == FactsScan::Facts(a.stored())
    &&& a.response_view() == e.response
}

/// The reader of archives.
pub struct HarLoader;

impl HarLoader {
    /// A reader of archives.
    pub fn new() -> HarLoader {
        HarLoader
    }

    /// Whether a directory's child is taken for an archive: a regular file
    /// whose name ends in `.json`.
    pub fn accepts(&self, path: &str, is_file: bool) -> (r: bool)
        ensures
            r == (is_file && ends_with(path@, ".json"@)),
    {
        if !is_file {
            return false;
        }
        let chars = crate::text::str_chars(path);
        let suffix = crate::text::str_chars(".json");
        if chars.len() < suffix.len() {
            return false;
        }
        crate::text::stands_at(&chars, &suffix, chars.len() - suffix.len())
    }

    /// The facts told of an archived request.
    pub fn get_facts(&self, r: &RequestEntry) -> (res: Result<Vec<RequestFacts>, HarLoadingError>)
        ensures
            match res {
                Ok(facts) => facts_of(r@) == FactsScan::Facts(fact_views(facts@)),
                Err(e) => is_entry_error(r@, e),
            },
    {
        let mut results: Vec<RequestFacts> = Vec::new();
        let upper = str_to_uppercase(r.method.as_str());
        let method = match method_from_text(upper.as_str()) {
            Some(m) => m,
            None => {
                return Err(
                    HarLoadingError::InvalidMatcher(
                        String::from_str("Unknown method ").concat(r.method.as_str()),
                    ),
                );
            },
        };
        results.push(RequestFacts::Method(method));
        let uri = match parse_uri(r.url.as_str()) {
            Some(uri) => uri,
            None => {
                return Err(
                    HarLoadingError::InvalidMatcher(
                        String::from_str("Invalid Uri ").concat(r.url.as_str()),
                    ),
                );
            },
        };
        let path = match uri.path_and_query {
            Some(pq) => pq,
            None => String::new(),
        };
        results.push(RequestFacts::PathAndQuery(path));
        if let Some(d) = &r.post_data {
            match request_body_and_encoding(d) {
                Ok((data, content_type)) => {
                    results.push(RequestFacts::Body { content_type, data });
                },
                Err(e) => {
                    return Err(HarLoadingError::Conversion(e));
                },
            }
        }
        assert(facts_of(r@) == FactsScan::Facts(fact_views(results@))) by {
            match facts_of(r@) {
                FactsScan::Facts(fs) => {
                    assert(fact_views(results@) =~= fs);
                },
                _ => {},
            }
        }
        Ok(results)
    }

    /// Loads one transaction: its facts, how long it took, and its response
    /// kept as it stands.
    pub fn load_entry(&self, e: &Entry) -> (r: Result<ArchivedRequest, HarLoadingError>)
        ensures
            match r {
                Ok(a) => is_loaded(a, e@),
                Err(err) => is_entry_error(e@.request, err),
            },
    {
        let timing: u64 = if e.time < 0 {
            0
        } else {
            e.time as u64
        };
        match self.get_facts(&e.request) {
            Ok(facts) => Ok(ArchivedRequest::new(timing, facts, e.response.clone())),
            Err(err) => Err(err),
        }
    }

    /// Loads the transactions of one archive, in order. An archive of
    /// another version than 1.2 is refused, and the first entry that cannot
    /// be read fails the whole.
    pub fn load(&self, log: &Log) -> (r: Result<Vec<ArchivedRequest>, HarLoadingError>)
        ensures
            match r {
                Ok(list) => log.version@ == "1.2"@ && all_loaded(list@, entry_views(log.entries@)),
                Err(HarLoadingError::InvalidVersion) => log.version@ != "1.2"@,
                Err(e) => log.version@ == "1.2"@ && first_failure(entry_views(log.entries@), e),
            },
    {
        if !same_text(log.version.as_str(), "1.2") {
            return Err(HarLoadingError::InvalidVersion);
        }
        let mut list: Vec<ArchivedRequest> = Vec::new();
        match self.load_into(&mut list, &log.entries) {
            Ok(()) => {
                assert(list@.skip(0) =~= list@);
                Ok(list)
            },
            Err(e) => Err(e),
        }
    }

    /// Loads entries in order onto the end of `list`, up to the first that
    /// cannot be read.
    fn load_into(&self, list: &mut Vec<ArchivedRequest>, entries: &Vec<Entry>) -> (r: Result<
        (),
        HarLoadingError,
    >)
        ensures
            old(list)@.len() <= final(list)@.len(),
            final(list)@.take(old(list)@.len() as int) == old(list)@,
            match r {
                Ok(()) => all_loaded(
                    final(list)@.skip(old(list)@.len() as int),
                    entry_views(entries@),
                ),
                Err(e) => first_failure(entry_views(entries@), e) && !(e is InvalidVersion),
            },
    {
        let ghost base = list@.len() as int;
        let mut i: usize = 0;
        assert(list@.take(base) =~= old(list)@);
        while i < entries.len()
            invariant
                i <= entries.len(),
                base == old(list)@.len(),
                list@.len() == base + i,
                list@.take(base) == old(list)@,
                forall|j: int|
                    0 <= j < i ==> is_loaded(#[trigger] list@[base + j], entries@[j]@),
            decreases entries.len() - i,
        {
            match self.load_entry(&entries[i]) {
                Ok(a) => {
                    let ghost before = list@;
                    list.push(a);
                    assert(list@.take(base) =~= before.take(base));
                },
                Err(e) => {
                    proof {
                        let views = entry_views(entries@);
                        assert(views[i as int].request == entries@[i as int]@.request);
                        assert forall|j: int| 0 <= j < i implies facts_of(
                            (#[trigger] views[j]).request,
                        ) is Facts by {
                            assert(is_loaded(list@[base + j], entries@[j]@));
                        }
                        assert(fails_at(views, i as int, e));
                    }
                    return Err(e);
                },
            }
            i += 1;
        }
        proof {
            let loaded = list@.skip(base);
            let views = entry_views(entries@);
            assert forall|j: int| 0 <= j < views.len() implies is_loaded(
                #[trigger] loaded[j],
                views[j],
            ) by {
                assert(loaded[j] == list@[base + j]);
            }
        }
        Ok(())
    }

    /// Loads the transactions of several archives, in the order of the
    /// archives. The first archive that cannot be loaded fails the whole.
    pub fn load_all(&self, logs: &Vec<Log>) -> (r: Result<Vec<ArchivedRequest>, HarLoadingError>)
        ensures
            match r {
                Ok(list) => all_loaded(list@, all_entries(logs@)) && forall|j: int|
                    0 <= j < logs.len() ==> log_loads(#[trigger] logs@[j]),
                Err(e) => exists|k: int| first_failing_log(logs@, k, e),
            },
    {
        let mut list: Vec<ArchivedRequest> = Vec::new();
        let mut i: usize = 0;
        assert(logs@.take(0) =~= Seq::<Log>::empty());
        while i < logs.len()
            invariant
                i <= logs.len(),
                all_loaded(list@, all_entries(logs@.take(i as int))),
                forall|j: int| 0 <= j < i ==> log_loads(#[trigger] logs@[j]),
            decreases logs.len() - i,
        {
            let log = &logs[i];
            if !same_text(log.version.as_str(), "1.2") {
                assert(first_failing_log(logs@, i as int, HarLoadingError::InvalidVersion));
                return Err(HarLoadingError::InvalidVersion);
            }
            let ghost before = list@;
            let ghost done = all_entries(logs@.take(i as int));
            let ghost more = entry_views(log.entries@);
            match self.load_into(&mut list, &log.entries) {
                Ok(()) => {
                    proof {
                        assert(logs@.take(i + 1).drop_last() =~= logs@.take(i as int));
                        assert(logs@.take(i + 1).last() == logs@[i as int]);
                        assert(all_entries(logs@.take(i + 1)) == done + more);
                        let loaded = list@.skip(before.len() as int);
                        assert forall|j: int| 0 <= j < (done + more).len() implies is_loaded(
                            #[trigger] list@[j],
                            (done + more)[j],
                        ) by {
                            if j < before.len() {
                                assert(list@.take(before.len() as int)[j] == list@[j]);
                            } else {
                                assert(loaded[j - before.len()] == list@[j]);
                            }
                        }
                        assert forall|j: int| 0 <= j < more.len() implies facts_of(
                            (#[trigger] more[j]).request,
                        ) is Facts by {
                            assert(is_loaded(loaded[j], more[j]));
                        }
                    }
                },
                Err(e) => {
                    assert(first_failing_log(logs@, i as int, e));
                    return Err(e);
                },
            }
            i += 1;
        }
        assert(logs@.take(i as int) =~= logs@);
        Ok(list)
    }
}

/// Whether `text` ends in `suffix`.
pub open spec fn ends_with(text: Seq<char>, suffix: Seq<char>) -> bool {
    text.len() >= suffix.len() && text.subrange(text.len() - suffix.len(), text.len() as int)
        == suffix
}

/// Whether `list` is what loading `entries` gives, one for one.
pub open spec fn all_loaded(list: Seq<ArchivedRequest>, entries: Seq<EntryView>) -> bool {
    &&& list.len() == entries.len()
    &&& forall|j: int| 0 <= j < entries.len() ==> is_loaded(#[trigger] list[j], entries[j])
}

/// Whether the entry at `k` is the first that cannot be read, with error `e`.
pub open spec fn fails_at(entries: Seq<EntryView>, k: int, e: HarLoadingError) -> bool {
    &&& 0 <= k < entries.len()
    &&& forall|j: int| 0 <= j < k ==> facts_of((#[trigger] entries[j]).request) is Facts
    &&& is_entry_error(entries[k].request, e)
}

/// Whether `e` is the error of the first entry that cannot be read.
pub open spec fn first_failure(entries: Seq<EntryView>, e: HarLoadingError) -> bool {
    exists|k: int| fails_at(entries, k, e)
}

/// Whether an archive can be loaded: it is of version 1.2 and the facts of
/// each of its entries can be read.
pub open spec fn log_loads(log: Log) -> bool {
    &&& log.version@ == "1.2"@
    &&& forall|j: int|
        0 <= j < log.entries@.len() ==> facts_of(
            (#[trigger] entry_views(log.entries@)[j]).request,
        ) is Facts
}

/// Whether loading this archive fails with `e`.
pub open spec fn log_fails(log: Log, e: HarLoadingError) -> bool {
    if log.version@ != "1.2"@ {
        e is InvalidVersion
    } else {
        !(e is InvalidVersion) && first_failure(entry_views(log.entries@), e)
    }
}

/// Whether the archive at `k` is the first that cannot be loaded, with error `e`.
pub open spec fn first_failing_log(logs: Seq<Log>, k: int, e: HarLoadingError) -> bool {
    &&& 0 <= k < logs.len()
    &&& forall|j: int| 0 <= j < k ==> log_loads(#[trigger] logs[j])
    &&& log_fails(logs[k], e)
}

/// The entries of several archives, one archive after another.
pub open spec fn all_entries(logs: Seq<Log>) -> Seq<EntryView>
    decreases logs.len(),
{
    if logs.len() == 0 {
        Seq::empty()
    } else {
        all_entries(logs.drop_last()) + entry_views(logs.last().entries@)
    }
}

/// Where the facts of a recorded request can be read, they tell its
/// method in upper case, the path and query of its URL, and its body with
/// its media type where the body is not empty and comes back from its
/// archived text.
pub proof fn lemma_recorded_request_loads(
    head: RequestHeadView,
    body: Seq<u8>,
    cookies: Seq<CookieEntryView>,
)
    ensures
        facts_of(recorded_request(head, body, cookies)) matches FactsScan::Facts(facts) ==> {
            &&& facts.len() >= 2
            &&& facts[0] == FactView::Method(uppercase_of(head.method))
            &&& uri_of(head.uri.text) matches Some(uri) && facts[1] == FactView::PathAndQuery(
                or_empty(uri.path_and_query),
            )
            &&& body.len() == 0 ==> facts.len() == 2
            &&& body.len() > 0 && restores(body) ==> facts.len() == 3 && facts[2]
                == (FactView::Body {
                content_type: header_text(head.headers, "content-type"@),
                data: body,
            })
        },
{
}

/// The live headers that archived headers are restored to, where each of
/// their values comes back from its archived text.
pub open spec fn restored_fields(fields: Seq<(Seq<char>, Seq<u8>)>) -> Seq<(Seq<char>, Seq<u8>)> {
    fields.map_values(|f: (Seq<char>, Seq<u8>)| (lowercase_of(f.0), f.1))
}

/// Where the archived forms of headers can be restored and each value
/// comes back from its archived text, they are restored to the headers
/// they were made of, the names in lower case.
pub proof fn lemma_archived_headers_restore(fields: Seq<(Seq<char>, Seq<u8>)>)
    requires
        forall|i: int| 0 <= i < fields.len() ==> restores((#[trigger] fields[i]).1),
    ensures
        scan_headers(archived_headers(fields)) matches HeaderScan::Fields(live) ==> live
            == restored_fields(fields),
    decreases fields.len(),
{
    if fields.len() == 0 {
        assert(restored_fields(fields) =~= Seq::empty());
    } else {
        let before = fields.drop_last();
        assert(archived_headers(fields).drop_last() =~= archived_headers(before));
        assert(archived_headers(fields).last() == header_entry(fields.last().0, fields.last().1));
        assert forall|i: int| 0 <= i < before.len() implies restores((#[trigger] before[i]).1) by {
            assert(before[i] == fields[i]);
        }
        lemma_archived_headers_restore(before);
        assert(restores(fields[fields.len() - 1].1));
        if scan_headers(archived_headers(fields)) is Fields {
            assert(restored_fields(fields) =~= restored_fields(before).push(
                (lowercase_of(fields.last().0), fields.last().1),
            ));
        }
    }
}

/// Where a recorded response can be restored, and its body and the values
/// of its headers come back from their archived texts, it is restored to
/// the status, the version, the headers and the body it was recorded with.
pub proof fn lemma_recorded_response_restores(
    head: ResponseHeadView,
    body: Seq<u8>,
    cookies: Seq<CookieEntryView>,
)
    requires
        restores(body),
        forall|i: int| 0 <= i < head.headers.len() ==> restores((#[trigger] head.headers[i]).1),
    ensures
        restored(recorded_response(head, body, cookies)) is Response ==> restored(
            recorded_response(head, body, cookies),
        ) == (Restored::Response {
            status: head.status,
            version: head.version,
            headers: restored_fields(head.headers),
            body,
        }),
{
    let stored = recorded_response(head, body, cookies);
    lemma_version_round_trip(head.version);
    lemma_archived_headers_restore(head.headers);
    let status: u16 = head.status;
    assert((status as i64) as u16 == status) by (bit_vector);
    if body.len() == 0 {
        assert(body =~= Seq::<u8>::empty());
    }
    assert(stored.status as u16 == head.status);
}

/// Whether the method and the URL of a live request are read again from
/// their texts as they are: the method is one and its own upper case, and
/// the target as it prints is parsed to the same path and query.
pub open spec fn is_read_again(head: RequestHeadView) -> bool {
    &&& is_method(head.method)
    &&& uppercase_of(head.method) == head.method
    &&& uri_of(head.uri.text) matches Some(uri) && uri.path_and_query == head.uri.path_and_query
}

/// The facts that a live request leaves in an archive: its method, its
/// path and query, and its body with the media type where the body is not
/// empty.
pub open spec fn archived_facts(head: RequestHeadView, body: Seq<u8>) -> Seq<FactView> {
    let told = seq![
        FactView::Method(head.method),
        FactView::PathAndQuery(or_empty(head.uri.path_and_query)),
    ];
    if body.len() == 0 {
        told
    } else {
        told.push(
            FactView::Body { content_type: header_text(head.headers, "content-type"@), data: body },
        )
    }
}

/// A request that was recorded comes back from the archive: where its
/// method and URL are read again as they are and its body comes back from
/// its archived text, loading gives its method, its path and query and its
/// body, and the loaded transaction matches the request it was recorded of.
pub proof fn lemma_recorded_request_comes_back(
    head: RequestHeadView,
    body: Seq<u8>,
    cookies: Seq<CookieEntryView>,
)
    requires
        is_read_again(head),
        restores(body),
    ensures
        facts_of(recorded_request(head, body, cookies)) == FactsScan::Facts(
            archived_facts(head, body),
        ),
        matches_facts(archived_facts(head, body), request_facts(head, body)),
{
    let stored = archived_facts(head, body);
    let query = request_facts(head, body);
    match facts_of(recorded_request(head, body, cookies)) {
        FactsScan::Facts(facts) => {
            assert(facts =~= stored);
        },
        _ => {},
    }
    reveal_with_fuel(first_of_kind, 4);
    assert forall|i: int| 0 <= i < query.len() implies agrees(stored, #[trigger] query[i]) by {
        assert(stored.drop_first().drop_first().drop_first() =~= Seq::<FactView>::empty()
            || stored.drop_first().drop_first() =~= Seq::<FactView>::empty());
    }
}

/// Whether a live header comes back from the archive as it is: its value
/// comes back from its archived text, and its name can name a header and is
/// its own lower case.
pub open spec fn comes_back(field: (Seq<char>, Seq<u8>)) -> bool {
    &&& restores(field.1)
    &&& header_name_ok(header_entry(field.0, field.1))
    &&& lowercase_of(field.0) == field.0
}

/// Headers that each come back from the archive are restored from their
/// archived forms to what they were, in order and with duplicates.
pub proof fn lemma_archived_headers_come_back(fields: Seq<(Seq<char>, Seq<u8>)>)
    requires
        forall|i: int| 0 <= i < fields.len() ==> comes_back(#[trigger] fields[i]),
    ensures
        scan_headers(archived_headers(fields)) == HeaderScan::Fields(fields),
    decreases fields.len(),
{
    if fields.len() == 0 {
        assert(fields =~= Seq::empty());
    } else {
        let before = fields.drop_last();
        assert(archived_headers(fields).drop_last() =~= archived_headers(before));
        assert(archived_headers(fields).last() == header_entry(fields.last().0, fields.last().1));
        assert forall|i: int| 0 <= i < before.len() implies comes_back(#[trigger] before[i]) by {
            assert(before[i] == fields[i]);
        }
        lemma_archived_headers_come_back(before);
        assert(comes_back(fields[fields.len() - 1]));
        assert(before.push(fields.last()) =~= fields);
    }
}

/// A response that was recorded comes back from the archive: where its
/// body and each of its headers come back, the stored response is restored
/// to the status, the version, the headers in their order and the body it
/// was recorded with. The media type stored with the body plays no part.
pub proof fn lemma_recorded_response_comes_back(
    head: ResponseHeadView,
    body: Seq<u8>,
    cookies: Seq<CookieEntryView>,
)
    requires
        restores(body),
        forall|i: int| 0 <= i < head.headers.len() ==> comes_back(#[trigger] head.headers[i]),
    ensures
        restored(recorded_response(head, body, cookies)) == (Restored::Response {
            status: head.status,
            version: head.version,
            headers: head.headers,
            body,
        }),
{
    lemma_version_round_trip(head.version);
    lemma_archived_headers_come_back(head.headers);
    let status: u16 = head.status;
    assert((status as i64) as u16 == status) by (bit_vector);
    if body.len() == 0 {
        assert(body =~= Seq::<u8>::empty());
    }
    assert(recorded_response(head, body, cookies).status as u16 == head.status);
}

} // verus!
