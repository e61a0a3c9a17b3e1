use clip_history::link_metadata::{
    document_text, empty_link_metadata, extract_link_metadata, link_metadata_from_fetch,
    page_description, page_site_name, page_title, parse_link_url, summary_from_response,
    summary_prompt, truncate_for_summary, usable_api_key,
};

#[test]
fn parse_link_rejects_non_http_schemes() {
    assert!(parse_link_url("ftp://x").is_none());
}

#[test]
fn parse_link_rejects_malformed_text() {
    assert!(parse_link_url("not a url").is_none());
}

#[test]
fn parse_link_rejects_blank_text() {
    assert!(parse_link_url("  ").is_none());
    assert!(parse_link_url("").is_none());
}

#[test]
fn parse_link_accepts_https() {
    let url = parse_link_url("https://example.com").expect("https link expected");
    assert_eq!(url.scheme, "https");
    assert_eq!(url.serialized, "https://example.com/");
}

#[test]
fn parse_link_trims_and_normalizes() {
    let url = parse_link_url("  HTTP://Example.COM/path ").expect("http link expected");
    assert_eq!(url.scheme, "http");
    assert_eq!(url.serialized, "http://example.com/path");
}

const PAGE: &str = "<html><head>\
<title>  Fallback Title  </title>\
<meta property=\"og:title\" content=\"OG Title\">\
<meta property=\"og:description\" content=\"OG Description\">\
<meta name=\"description\" content=\"Plain Description\">\
<meta name=\"application-name\" content=\"AppName\">\
</head><body><p>Some   body\ttext</p></body></html>";

const PAGE_NO_OG: &str = "<html><head>\
<title>  Fallback Title  </title>\
<meta name=\"description\" content=\"Plain Description\">\
</head><body>hi</body></html>";

#[test]
fn page_title_prefers_og_title() {
    assert_eq!(page_title(PAGE).as_deref(), Some("OG Title"));
}

#[test]
fn page_title_falls_back_to_title_element() {
    assert_eq!(page_title(PAGE_NO_OG).as_deref(), Some("Fallback Title"));
    assert_eq!(page_title("<html><body>no title</body></html>"), None);
}

#[test]
fn page_description_resolution_order() {
    assert_eq!(page_description(PAGE).as_deref(), Some("OG Description"));
    assert_eq!(page_description(PAGE_NO_OG).as_deref(), Some("Plain Description"));
    assert_eq!(page_description("<html></html>"), None);
}

#[test]
fn page_site_name_resolution_order() {
    assert_eq!(page_site_name(PAGE).as_deref(), Some("AppName"));
    assert_eq!(page_site_name("<html></html>"), None);
}

#[test]
fn document_text_collapses_whitespace() {
    let text = document_text("<html><body><p>one   two</p>\n<p>three</p></body></html>");
    assert_eq!(text, "one two three");
}

#[test]
fn truncate_for_summary_caps_input() {
    let short = "within budget";
    assert_eq!(truncate_for_summary(short), short);
    let long: String = std::iter::repeat('x').take(9000).collect();
    let capped = truncate_for_summary(&long);
    assert_eq!(capped.chars().count(), 8003);
    assert!(capped.ends_with("..."));
}

#[test]
fn summary_prompt_includes_title_url_and_content() {
    let prompt = summary_prompt(
        &Some("  A Title ".to_string()),
        "https://example.com/",
        "page words",
    )
    .expect("prompt expected");
    assert_eq!(
        prompt,
        "Summarize the page below in 1-2 concise sentences.\nTitle: A Title\nURL: https://example.com/\nContent: page words"
    );
    let untitled = summary_prompt(&None, "https://example.com/", "words").unwrap();
    assert!(untitled.contains("Title: (unknown title)"));
    assert!(summary_prompt(&None, "https://example.com/", "").is_none());
}

#[test]
fn summary_from_response_reads_first_candidate() {
    let payload = "{\"candidates\":[{\"content\":{\"parts\":[{\"text\":\"  A short summary.  \"}]}}]}";
    assert_eq!(summary_from_response(payload).as_deref(), Some("A short summary."));
}

#[test]
fn summary_from_response_degrades_on_bad_payload() {
    assert_eq!(summary_from_response("not json"), None);
    assert_eq!(summary_from_response("{}"), None);
    let blank = "{\"candidates\":[{\"content\":{\"parts\":[{\"text\":\"   \"}]}}]}";
    assert_eq!(summary_from_response(blank), None);
}

#[test]
fn extract_link_metadata_prefers_summary_over_description() {
    let meta = extract_link_metadata(
        "https://example.com/",
        PAGE,
        Some("Summarized.".to_string()),
    );
    assert_eq!(meta.url, "https://example.com/");
    assert_eq!(meta.title.as_deref(), Some("OG Title"));
    assert_eq!(meta.description.as_deref(), Some("Summarized."));
    assert_eq!(meta.site_name.as_deref(), Some("AppName"));

    let scraped = extract_link_metadata("https://example.com/", PAGE, None);
    assert_eq!(scraped.description.as_deref(), Some("OG Description"));
}

#[test]
fn fetch_timeout_degrades_to_bare_metadata() {
    let meta = link_metadata_from_fetch("https://slow.example/", None, None);
    assert_eq!(meta.url, "https://slow.example/");
    assert_eq!(meta.title, None);
    assert_eq!(meta.description, None);
    assert_eq!(meta.site_name, None);

    let bare = empty_link_metadata("https://x.example/");
    assert_eq!(bare.url, "https://x.example/");
    assert_eq!(bare.title, None);
}

#[test]
fn empty_body_yields_all_null_fields() {
    // A non-success HTTP status hands the extractor an empty body; extraction
    // then finds nothing rather than failing the capture.
    let meta = extract_link_metadata("https://example.com/", "", None);
    assert_eq!(meta.url, "https://example.com/");
    assert_eq!(meta.title, None);
    assert_eq!(meta.description, None);
    assert_eq!(meta.site_name, None);
    assert_eq!(document_text(""), "");
}

#[test]
fn usable_api_key_requires_non_blank_value() {
    assert_eq!(usable_api_key(None), None);
    assert_eq!(usable_api_key(Some("   ".to_string())), None);
    assert_eq!(usable_api_key(Some(" k-123 ".to_string())), Some("k-123".to_string()));
}
