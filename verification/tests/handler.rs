//! End-to-end checks of the handler logic: title extraction through a real
//! HTML parse, JSON payload construction, escaping, and the error replies.

use page_title::{build_payload, handle_fetched_page, respond, FetchError};

fn parsed_title(body: &str) -> String {
    let v: serde_json::Value = serde_json::from_str(body).expect("body must be valid JSON");
    v["title"].as_str().expect("title must be a string").to_string()
}

#[test]
fn title_is_extracted_and_wrapped() {
    let body = handle_fetched_page("<html><head><title>Yahoo! JAPAN</title></head></html>");
    assert_eq!(body, "{\"title\":\"Yahoo! JAPAN\"}");
}

#[test]
fn missing_title_yields_fallback() {
    let body = handle_fetched_page("<html><head><h1>No title here</h1></head></html>");
    assert_eq!(body, "{\"title\":\"Title not found\"}");
}

#[test]
fn empty_document_yields_fallback() {
    let body = handle_fetched_page("");
    assert_eq!(body, "{\"title\":\"Title not found\"}");
}

#[test]
fn empty_title_element_yields_empty_title() {
    let body = handle_fetched_page("<html><head><title></title></head></html>");
    assert_eq!(body, "{\"title\":\"\"}");
}

#[test]
fn first_of_two_titles_wins() {
    let body = handle_fetched_page("<html><head><title>first</title><title>second</title></head></html>");
    assert_eq!(body, "{\"title\":\"first\"}");
}

#[test]
fn unclosed_title_still_parses_leniently() {
    let body = handle_fetched_page("<html><head><title>unclosed");
    assert_eq!(body, "{\"title\":\"unclosed\"}");
}

#[test]
fn quoted_title_is_escaped() {
    let body = handle_fetched_page("<html><head><title>a\"b</title></head></html>");
    assert_eq!(body, "{\"title\":\"a\\\"b\"}");
    assert_eq!(parsed_title(&body), "a\"b");
}

#[test]
fn successful_fetch_gets_status_200() {
    let reply = respond(Ok("<html><head><title>ok</title></head></html>".to_string()));
    assert_eq!(reply.status, 200);
    assert_eq!(reply.body, "{\"title\":\"ok\"}");
}

#[test]
fn fetch_failure_gets_non_200_with_json_error_body() {
    let reply = respond(Err(FetchError::Fetch));
    assert_ne!(reply.status, 200);
    assert_eq!(reply.status, 502);
    let v: serde_json::Value = serde_json::from_str(&reply.body).expect("error body must be JSON");
    assert_eq!(v["error"].as_str().unwrap(), "upstream fetch failed");
}

#[test]
fn decode_failure_gets_non_200_with_json_error_body() {
    let reply = respond(Err(FetchError::Decode));
    assert_ne!(reply.status, 200);
    assert_eq!(reply.status, 502);
    let v: serde_json::Value = serde_json::from_str(&reply.body).expect("error body must be JSON");
    assert_eq!(v["error"].as_str().unwrap(), "upstream body decode failed");
}

#[test]
fn payload_round_trips_for_hostile_titles() {
    let titles = [
        "plain",
        "",
        "quote \" inside",
        "backslash \\ inside",
        "newline \n and tab \t and return \r",
        "control \u{1} \u{1f} chars",
        "non-ASCII \u{65e5}\u{672c}\u{8a9e} and beyond \u{1f600}",
        "slash / and unicode-ish \\u0041",
    ];
    for title in titles {
        let body = build_payload(title);
        assert_eq!(parsed_title(&body), title, "title must survive the round trip");
    }
}

#[test]
fn repeated_invocations_are_identical() {
    let html = "<html><head><title>stable</title></head></html>";
    let first = handle_fetched_page(html);
    let second = handle_fetched_page(html);
    assert_eq!(first, second);
    let r1 = respond(Ok(html.to_string()));
    let r2 = respond(Ok(html.to_string()));
    assert_eq!(r1.status, r2.status);
    assert_eq!(r1.body, r2.body);
}
