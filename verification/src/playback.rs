//! Playback: the facts of a live request, the search for the transaction
//! that answers it, and the answer.

use vstd::prelude::*;
use crate::config::DelayOptions;
use crate::convert::ConversionError;
use crate::facts::{
    fact_views, matches_facts, restored, ArchivedRequest, FactView, RequestFacts, Restored,
};
use crate::message::{
    field_views, find_header_text, header_text, RequestHead, RequestHeadView, RestoredHead,
    Version,
};
use crate::outside::header_map_fields;
use crate::store::or_empty;
use crate::text::text_bytes;

verus! {

/// The facts told of a live request: its method, its path and query, its
/// body with the media type where the body is not empty, and its headers.
pub open spec fn request_facts(head: RequestHeadView, body: Seq<u8>) -> Seq<FactView> {
    let told = seq![
        FactView::Method(head.method),
        FactView::PathAndQuery(or_empty(head.uri.path_and_query)),
    ];
    let with_body = if body.len() == 0 {
        told
    } else {
        told.push(
            FactView::Body { content_type: header_text(head.headers, "content-type"@), data: body },
        )
    };
    with_body.push(FactView::Headers(head.headers))
}

/// Tells the facts of a live request.
pub fn hyper_request_to_facts(parts: &RequestHead, body: Vec<u8>) -> (facts: Vec<RequestFacts>)
    ensures
        fact_views(facts@) == request_facts(parts@, body@),
{
    let mut results: Vec<RequestFacts> = Vec::new();
    results.push(RequestFacts::Method(parts.method.clone()));
    let path_and_query = match &parts.uri.path_and_query {
        Some(pq) => pq.clone(),
        None => String::new(),
    };
    results.push(RequestFacts::PathAndQuery(path_and_query));
    proof {
        reveal_strlit("content-type");
    }
    let content_type = find_header_text(&parts.headers, "content-type");
    if body.len() != 0 {
        results.push(RequestFacts::Body { content_type, data: body });
    }
    results.push(RequestFacts::Headers(header_map_fields(&parts.headers)));
    assert(fact_views(results@) =~= request_facts(parts@, body@));
    results
}

/// The index of the first transaction that matches a query, if one does.
pub open spec fn first_match(transactions: Seq<ArchivedRequest>, query: Seq<FactView>) -> Option<
    int,
>
    decreases transactions.len(),
{
    if transactions.len() == 0 {
        None
    } else {
        match first_match(transactions.drop_last(), query) {
            Some(i) => Some(i),
            None => if matches_facts(transactions.last().stored(), query) {
                Some(transactions.len() - 1)
            } else {
                None
            },
        }
    }
}

/// The first match is a transaction that matches, with none before it that
/// does; there is none only where no transaction matches.
pub proof fn lemma_first_match(transactions: Seq<ArchivedRequest>, query: Seq<FactView>)
    ensures
        match first_match(transactions, query) {
            Some(i) => 0 <= i < transactions.len() && matches_facts(
                transactions[i].stored(),
                query,
            ) && forall|j: int|
                0 <= j < i ==> !matches_facts((#[trigger] transactions[j]).stored(), query),
            None => forall|j: int|
                0 <= j < transactions.len() ==> !matches_facts(
                    (#[trigger] transactions[j]).stored(),
                    query,
                ),
        },
    decreases transactions.len(),
{
    if transactions.len() > 0 {
        let before = transactions.drop_last();
        lemma_first_match(before, query);
        assert forall|j: int| 0 <= j < before.len() implies before[j] == transactions[j] by {}
        match first_match(before, query) {
            Some(i) => {
                assert(before[i] == transactions[i]);
                assert forall|j: int| 0 <= j < i implies !matches_facts(
                    (#[trigger] transactions[j]).stored(),
                    query,
                ) by {
                    assert(before[j] == transactions[j]);
                }
            },
            None => {
                assert forall|j: int| 0 <= j < before.len() implies !matches_facts(
                    (#[trigger] transactions[j]).stored(),
                    query,
                ) by {
                    assert(before[j] == transactions[j]);
                }
            },
        }
    }
}

/// The index of the first transaction that matches the facts.
pub fn find_match_index(transactions: &[ArchivedRequest], facts: &Vec<RequestFacts>) -> (r: Option<
    usize,
>)
    ensures
        match r {
            Some(i) => first_match(transactions@, fact_views(facts@)) == Some(i as int) && i
                < transactions.len(),
            None => first_match(transactions@, fact_views(facts@)) is None,
        },
{
    let mut i: usize = 0;
    assert(transactions@.take(0) =~= Seq::<ArchivedRequest>::empty());
    while i < transactions.len()
        invariant
            i <= transactions.len(),
            first_match(transactions@.take(i as int), fact_views(facts@)) is None,
        decreases transactions.len() - i,
    {
        assert(transactions@.take(i + 1).drop_last() =~= transactions@.take(i as int));
        if transactions[i].matches(facts.as_slice()) {
            proof {
                lemma_match_stays(transactions@, fact_views(facts@), i + 1);
            }
            return Some(i);
        }
        i += 1;
    }
    assert(transactions@.take(i as int) =~= transactions@);
    None
}

/// A match among the first `n` transactions is the first match of them all.
proof fn lemma_match_stays(transactions: Seq<ArchivedRequest>, query: Seq<FactView>, n: int)
    requires
        0 <= n <= transactions.len(),
        first_match(transactions.take(n), query) is Some,
    ensures
        first_match(transactions, query) == first_match(transactions.take(n), query),
    decreases transactions.len() - n,
{
    if n == transactions.len() {
        assert(transactions.take(n) =~= transactions);
    } else {
        assert(transactions.take(n + 1).drop_last() =~= transactions.take(n));
        lemma_match_stays(transactions, query, n + 1);
    }
}

/// The first transaction, in the order of the list, that answers a request.
pub fn find_match<'a>(transactions: &'a [ArchivedRequest], parts: &RequestHead, body: Vec<u8>) -> (r:
    Option<&'a ArchivedRequest>)
    ensures
        match r {
            Some(t) => first_match(transactions@, request_facts(parts@, body@)) matches Some(i)
                && *t == transactions@[i],
            None => first_match(transactions@, request_facts(parts@, body@)) is None,
        },
{
    let facts = hyper_request_to_facts(parts, body);
    match find_match_index(transactions, &facts) {
        Some(i) => Some(&transactions[i]),
        None => None,
    }
}

/// What playback does with a request: how many milliseconds it waits, and
/// what it then sends.
pub struct Answer {
    pub matched: bool,
    pub delay_ms: u64,
    pub response: Result<(RestoredHead, Vec<u8>), ConversionError>,
}

/// The body of the answer to a request that nothing matches.
pub open spec fn not_found_body() -> Seq<u8> {
    crate::text::bytes_of("Not Found"@)
}

/// Whether an answer is the one for a request that nothing matches: status
/// 404 at once, without headers, with the body `Not Found`.
pub open spec fn is_not_found(answer: Answer) -> bool {
    &&& !answer.matched
    &&& answer.delay_ms == 0
    &&& answer.response matches Ok((head, body))
    &&& head.status == 404
    &&& head.version == Version::Http11
    &&& head.headers@.len() == 0
    &&& body@ == not_found_body()
}

/// Whether the response of an answer is what restoring `t` gives.
pub open spec fn is_restored(
    response: Result<(RestoredHead, Vec<u8>), ConversionError>,
    t: ArchivedRequest,
) -> bool {
    match response {
        Ok((head, body)) => restored(t.response_view()) == (Restored::Response {
            status: head.status,
            version: head.version,
            headers: field_views(head.headers@),
            body: body@,
        }),
        Err(ConversionError::InvalidHttpVersion(_)) => restored(t.response_view()) is BadVersion,
        Err(ConversionError::InvalidHeaderName(_)) => restored(t.response_view())
            is BadHeaderName,
        Err(ConversionError::InvalidBase64(_)) => restored(t.response_view()) is BadBase64,
        Err(_) => false,
    }
}

/// Answers a request from the archives: with the restored response of the
/// first transaction that matches, after the delay that `delay` asks of it,
/// or, where nothing matches, with a 404 at once.
pub fn answer(
    transactions: &[ArchivedRequest],
    parts: &RequestHead,
    body: Vec<u8>,
    delay: &DelayOptions,
) -> (r: Answer)
    ensures
        match first_match(transactions@, request_facts(parts@, body@)) {
            Some(i) => r.matched && is_restored(r.response, transactions@[i]) && r.delay_ms
                == match *delay {
                DelayOptions::NoDelay => 0,
                DelayOptions::Original => transactions@[i].timing(),
                DelayOptions::Static { millis } => millis,
            },
            None => is_not_found(r),
        },
{
    match find_match(transactions, parts, body) {
        Some(m) => Answer {
            matched: true,
            delay_ms: m.delay(delay),
            response: m.hyper_response(),
        },
        None => Answer {
            matched: false,
            delay_ms: 0,
            response: Ok(
                (
                    RestoredHead { status: 404, version: Version::Http11, headers: Vec::new() },
                    text_bytes("Not Found"),
                ),
            ),
        },
    }
}

} // verus!
