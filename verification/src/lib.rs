//! Fetch-a-title endpoint logic: given the text of an upstream HTML page,
//! extract the first `<title>` element (or fall back to a fixed literal) and
//! build the JSON response body, with every character of the title properly
//! escaped so that the body is always valid JSON.

pub mod escape;
pub mod response;
pub mod scrape;

pub use response::{respond, handle_fetched_page, build_payload, title_or_fallback, FetchError,
    HttpReply};
