//! Title extraction from fetched HTML, through the scraper crate.

use vstd::prelude::*;

verus! {

/// The inner HTML of the first `title` element that a lenient HTML parse of
/// the document text yields, or `None` when the document has no such element.
/// The parse never fails: malformed markup simply yields fewer elements. The
/// value depends on the document text alone.
pub uninterp spec fn scraped_title(html: Seq<char>) -> Option<Seq<char>>;

/// Relies on scraper's `Html::parse_document` (a lenient parse that never
/// fails), `Selector::parse` (which always succeeds on the fixed selector
/// text `title`) and `ElementRef::inner_html` on the first selected element:
/// together they compute the first title's inner HTML from the document text
/// alone, deterministically.
#[verifier::external_body]
pub(crate) fn scrape_title(html: &str) -> (r: Option<String>)
    ensures
        r.deep_view() == scraped_title(html@),
{
    let document = scraper::Html::parse_document(html);
    let selector = scraper::Selector::parse("title").unwrap();
    document.select(&selector).next().map(|element| element.inner_html())
}

} // verus!
