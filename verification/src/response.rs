//! Building the HTTP reply: the JSON payload around the extracted title, the
//! fallback when the document has no title, and the error replies for a
//! failed upstream fetch.

use vstd::prelude::*;
use crate::escape::{json_escape, json_escaped, unescape, lemma_unescape_round_trip};
use crate::scrape::{scrape_title, scraped_title};

verus! {

/// The literal substituted when the document has no title element.
pub open spec fn fallback_title() -> Seq<char> {
    "Title not found"@
}

/// The text serialized into the payload: the extracted title when there is
/// one, the fallback literal otherwise.
pub open spec fn title_text(found: Option<Seq<char>>) -> Seq<char> {
    match found {
        Some(t) => t,
        None => fallback_title(),
    }
}

/// The response body for a title: a one-field JSON object, the title escaped.
pub open spec fn payload_of(title: Seq<char>) -> Seq<char> {
    "{\"title\":\""@ + json_escaped(title) + "\"}"@
}

/// The response body owed for a successfully fetched document.
pub open spec fn response_body_of(html: Seq<char>) -> Seq<char> {
    payload_of(title_text(scraped_title(html)))
}

/// The title to serialize: the extracted one, or the fallback.
pub fn title_or_fallback(found: Option<String>) -> (r: String)
    ensures
        r@ == title_text(found.deep_view()),
{
    match found {
        Some(t) => t,
        None => "Title not found".to_owned(),
    }
}

/// The JSON payload for one title, with every character escaped.
pub fn build_payload(title: &str) -> (r: String)
    ensures
        r@ == payload_of(title@),
{
    let mut out = "{\"title\":\"".to_owned();
    let esc = json_escape(title);
    out.append(esc.as_str());
    out.append("\"}");
    out
}

/// The full body for a fetched page: extract the first title (or fall back)
/// and wrap it as JSON. The same page text always yields the same body.
pub fn handle_fetched_page(html: &str) -> (r: String)
    ensures
        r@ == response_body_of(html@),
        scraped_title(html@) matches Some(t) ==> r@ == payload_of(t),
        scraped_title(html@) is None ==> r@ == payload_of(fallback_title()),
{
    let found = scrape_title(html);
    let title = title_or_fallback(found);
    build_payload(title.as_str())
}

/// Why the upstream text could not be had.
#[derive(Clone, Copy, PartialEq, Eq, Debug, Structural)]
pub enum FetchError {
    /// The outbound request failed: network, DNS, TLS, or a non-success
    /// status.
    Fetch,
    /// The response body could not be decoded as text.
    Decode,
}

/// An HTTP reply: a status code and a body.
pub struct HttpReply {
    pub status: u16,
    pub body: String,
}

/// The JSON error body for a failed fetch.
pub open spec fn error_body_of(e: FetchError) -> Seq<char> {
    match e {
        FetchError::Fetch => "{\"error\":\"upstream fetch failed\"}"@,
        FetchError::Decode => "{\"error\":\"upstream body decode failed\"}"@,
    }
}

fn error_body(e: FetchError) -> (r: String)
    ensures
        r@ == error_body_of(e),
{
    match e {
        FetchError::Fetch => "{\"error\":\"upstream fetch failed\"}".to_owned(),
        FetchError::Decode => "{\"error\":\"upstream body decode failed\"}".to_owned(),
    }
}

/// Every fetch outcome gets a reply: a fetched page gets status 200 and the
/// title payload; a failed fetch gets status 502 — never 200 — and a fixed
/// JSON error body. No outcome is left without a well-formed reply.
pub fn respond(outcome: Result<String, FetchError>) -> (r: HttpReply)
    ensures
        outcome matches Ok(html) ==> r.status == 200 && r.body@ == response_body_of(html@),
        outcome matches Err(e) ==> r.status == 502 && r.status != 200 && r.body@ == error_body_of(
            e,
        ),
{
    match outcome {
        Ok(html) => HttpReply { status: 200, body: handle_fetched_page(html.as_str()) },
        Err(e) => HttpReply { status: 502, body: error_body(e) },
    }
}

/// The payload always parses back: it carries the fixed object frame, and the
/// text between its quotes is a legal JSON string body that decodes to
/// exactly the title that went in — whatever bytes the title holds.
pub proof fn lemma_payload_round_trip(title: Seq<char>)
    ensures
        payload_of(title).len() >= 12,
        payload_of(title).subrange(0, 10) == "{\"title\":\""@,
        payload_of(title).subrange(payload_of(title).len() - 2, payload_of(title).len() as int)
            == "\"}"@,
        unescape(payload_of(title).subrange(10, payload_of(title).len() - 2)) == Some(title),
{
    reveal_strlit("{\"title\":\"");
    reveal_strlit("\"}");
    lemma_unescape_round_trip(title);
    let p = payload_of(title);
    assert(p.subrange(0, 10) =~= "{\"title\":\""@);
    assert(p.subrange(p.len() - 2, p.len() as int) =~= "\"}"@);
    assert(p.subrange(10, p.len() - 2) =~= json_escaped(title));
}

/// Repeated invocations against the same upstream content produce identical
/// output: the response body is a function of the fetched text alone.
pub proof fn lemma_response_deterministic(html: Seq<char>, r1: Seq<char>, r2: Seq<char>)
    requires
        r1 == response_body_of(html),
        r2 == response_body_of(html),
    ensures
        r1 == r2,
{
}

} // verus!
