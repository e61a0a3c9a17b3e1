//! Link classification and metadata enrichment.
//!
//! A trimmed text snippet is classified as a link exactly when it parses as an
//! `http` or `https` URL. For a classified link, the fetched page body is
//! mined for title, description and site name, and an optional
//! externally-produced summary may replace the scraped description. Every
//! failure along the way degrades to absent fields; none of it ever blocks the
//! base capture.

use vstd::prelude::*;
use crate::text::{
    first_nonempty_trimmed_of, join_with, joined_with, opt_view, split_tokens, str_eq, tokens_of,
    trim_str, trimmed_of, truncate_with_ellipsis, truncated_of, views_of,
};

verus! {

/// Metadata attached to a captured link entry.
pub struct LinkMetadata {
    pub url: String,
    pub title: Option<String>,
    pub description: Option<String>,
    pub site_name: Option<String>,
}

/// An http(s) URL as the pipeline carries it: the scheme and the canonical
/// serialization of the parsed URL.
pub struct ParsedUrl {
    pub scheme: String,
    pub serialized: String,
}

/// What `url::Url::parse` makes of a string: absence when parsing fails,
/// otherwise the scheme and the serialized form of the parsed URL. A function
/// of the input text alone.
pub uninterp spec fn url_parse_of(s: Seq<char>) -> Option<(Seq<char>, Seq<char>)>;

/// Relies on `url::Url::parse`, `Url::scheme` and `Url::as_str`: whether the
/// text parses as a URL and, when it does, the parsed URL's scheme and
/// serialization; all functions of the text alone.
#[verifier::external_body]
fn parse_url_parts(s: &str) -> (r: Option<ParsedUrl>)
    ensures
        r is Some <==> url_parse_of(s@) is Some,
        (r matches Some(p) ==> Some((p.scheme@, p.serialized@)) == url_parse_of(s@)),
{
    match url::Url::parse(s) {
        Ok(u) => Some(
            ParsedUrl { scheme: u.scheme().to_owned(), serialized: u.as_str().to_owned() },
        ),
        Err(_) => None,
    }
}

/// The link a text snippet classifies as: the parsed URL's serialization when
/// the trimmed text is non-empty and parses with an `http` or `https` scheme,
/// absence otherwise.
pub open spec fn parsed_link_of(text: Seq<char>) -> Option<Seq<char>> {
    let t = trimmed_of(text);
    if t.len() == 0 {
        None
    } else {
        match url_parse_of(t) {
            Some(p) => if p.0 == "http"@ || p.0 == "https"@ {
                Some(p.1)
            } else {
                None
            },
            None => None,
        }
    }
}

/// Classifies a text snippet as a link, accepting only `http` and `https`
/// URLs; anything else (other schemes, malformed URLs, blank text) yields
/// nothing, and the caller falls back to plain-text classification.
pub fn parse_link_url(text: &str) -> (r: Option<ParsedUrl>)
    ensures
        r is Some <==> parsed_link_of(text@) is Some,
        (r matches Some(p) ==> Some(p.serialized@) == parsed_link_of(text@)),
        (r matches Some(p) ==> (p.scheme@ == "http"@ || p.scheme@ == "https"@)),
{
    let trimmed = trim_str(text);
    if trimmed.as_str().unicode_len() == 0 {
        return None;
    }
    match parse_url_parts(trimmed.as_str()) {
        Some(p) => {
            if str_eq(p.scheme.as_str(), "http") || str_eq(p.scheme.as_str(), "https") {
                Some(p)
            } else {
                None
            }
        },
        None => None,
    }
}

/// What scraper finds for a CSS selector in a parsed document: the `content`
/// attribute of each element matching the selector, in document order (and
/// nothing for an unparsable selector). A function of the document text and
/// the selector alone.
pub uninterp spec fn meta_contents_of(doc: Seq<char>, selector: Seq<char>) -> Seq<Seq<char>>;

/// Relies on `scraper::Html::parse_document`, `scraper::Selector::parse`,
/// `Html::select` and `ElementRef::attr`: the `content` attributes of the
/// elements matching the selector, in document order; a function of the
/// document and selector texts alone.
#[verifier::external_body]
fn meta_contents(doc: &str, selector: &str) -> (r: Vec<String>)
    ensures
        views_of(r@) == meta_contents_of(doc@, selector@),
{
    let document = scraper::Html::parse_document(doc);
    let mut out: Vec<String> = Vec::new();
    if let Ok(sel) = scraper::Selector::parse(selector) {
        for node in document.select(&sel) {
            if let Some(content) = node.attr("content") {
                out.push(content.to_owned());
            }
        }
    }
    out
}

/// What scraper finds for the document title: the concatenated text of the
/// first `title` element, when one exists. A function of the document text
/// alone.
pub uninterp spec fn title_text_of(doc: Seq<char>) -> Option<Seq<char>>;

/// Relies on `scraper::Html::parse_document`, `scraper::Selector::parse`,
/// `Html::select` and `ElementRef::text`: the text of the first `title`
/// element; a function of the document text alone.
#[verifier::external_body]
fn title_text_raw(doc: &str) -> (r: Option<String>)
    ensures
        r is Some <==> title_text_of(doc@) is Some,
        (r matches Some(t) ==> Some(t@) == title_text_of(doc@)),
{
    let document = scraper::Html::parse_document(doc);
    let sel = match scraper::Selector::parse("title") {
        Ok(s) => s,
        Err(_) => return None,
    };
    document.select(&sel).next().map(|node| node.text().collect::<String>())
}

/// What scraper yields for the document's visible text: the text chunks under
/// the root element, in document order. A function of the document text alone.
pub uninterp spec fn text_chunks_of(doc: Seq<char>) -> Seq<Seq<char>>;

/// Relies on `scraper::Html::parse_document`, `Html::root_element` and
/// `ElementRef::text`: the document's text chunks in order; a function of the
/// document text alone.
#[verifier::external_body]
fn document_text_chunks(doc: &str) -> (r: Vec<String>)
    ensures
        views_of(r@) == text_chunks_of(doc@),
{
    let document = scraper::Html::parse_document(doc);
    document.root_element().text().map(|chunk| chunk.to_owned()).collect()
}

/// The title of a page: the first non-blank `og:title` meta content, else the
/// trimmed document title when non-blank.
pub open spec fn page_title_of(doc: Seq<char>) -> Option<Seq<char>> {
    match first_nonempty_trimmed_of(meta_contents_of(doc, "meta[property=\"og:title\"]"@)) {
        Some(t) => Some(t),
        None => match title_text_of(doc) {
            Some(t) => if trimmed_of(t).len() > 0 {
                Some(trimmed_of(t))
            } else {
                None
            },
            None => None,
        },
    }
}

/// The scraped description of a page: `og:description`, else the
/// `name="description"` meta content.
pub open spec fn page_description_of(doc: Seq<char>) -> Option<Seq<char>> {
    match first_nonempty_trimmed_of(meta_contents_of(doc, "meta[property=\"og:description\"]"@)) {
        Some(d) => Some(d),
        None => first_nonempty_trimmed_of(meta_contents_of(doc, "meta[name=\"description\"]"@)),
    }
}

/// The site name of a page: `og:site_name`, else the
/// `name="application-name"` meta content.
pub open spec fn page_site_name_of(doc: Seq<char>) -> Option<Seq<char>> {
    match first_nonempty_trimmed_of(meta_contents_of(doc, "meta[property=\"og:site_name\"]"@)) {
        Some(s) => Some(s),
        None => first_nonempty_trimmed_of(meta_contents_of(doc, "meta[name=\"application-name\"]"@)),
    }
}

/// The first selector hit whose trimmed content is non-blank, trimmed.
fn first_meta_content(doc: &str, selector: &str) -> (r: Option<String>)
    ensures
        opt_view(r) == first_nonempty_trimmed_of(meta_contents_of(doc@, selector@)),
{
    let items = meta_contents(doc, selector);
    crate::text::first_nonempty_trimmed(&items)
}

/// The page title, per [`page_title_of`].
pub fn page_title(doc: &str) -> (r: Option<String>)
    ensures
        opt_view(r) == page_title_of(doc@),
{
    match first_meta_content(doc, "meta[property=\"og:title\"]") {
        Some(t) => Some(t),
        None => match title_text_raw(doc) {
            Some(t) => {
                let trimmed = trim_str(t.as_str());
                if trimmed.as_str().unicode_len() > 0 {
                    Some(trimmed)
                } else {
                    None
                }
            },
            None => None,
        },
    }
}

/// The scraped page description, per [`page_description_of`].
pub fn page_description(doc: &str) -> (r: Option<String>)
    ensures
        opt_view(r) == page_description_of(doc@),
{
    match first_meta_content(doc, "meta[property=\"og:description\"]") {
        Some(d) => Some(d),
        None => first_meta_content(doc, "meta[name=\"description\"]"),
    }
}

/// The page site name, per [`page_site_name_of`].
pub fn page_site_name(doc: &str) -> (r: Option<String>)
    ensures
        opt_view(r) == page_site_name_of(doc@),
{
    match first_meta_content(doc, "meta[property=\"og:site_name\"]") {
        Some(s) => Some(s),
        None => first_meta_content(doc, "meta[name=\"application-name\"]"),
    }
}

/// The visible text of a document with runs of white space collapsed to
/// single spaces: the chunks joined, split into tokens, and re-joined.
pub open spec fn document_text_of(doc: Seq<char>) -> Seq<char> {
    joined_with(tokens_of(joined_with(text_chunks_of(doc), seq![' '])), seq![' '])
}

/// The whitespace-collapsed visible text of a page, the input handed to
/// summarization.
pub fn document_text(doc: &str) -> (r: String)
    ensures
        r@ == document_text_of(doc@),
{
    let chunks = document_text_chunks(doc);
    proof {
        reveal_strlit(" ");
        assert(" "@ =~= seq![' ']);
    }
    let joined = join_with(&chunks, " ");
    let tokens = split_tokens(joined.as_str());
    join_with(&tokens, " ")
}

/// The character budget for text submitted to summarization.
pub const SUMMARY_INPUT_BUDGET: usize = 8000;

/// Caps summarization input at [`SUMMARY_INPUT_BUDGET`] characters, marking a
/// cut with an ellipsis.
pub fn truncate_for_summary(text: &str) -> (r: String)
    ensures
        r@ == truncated_of(text@, SUMMARY_INPUT_BUDGET as int),
        r@.len() <= SUMMARY_INPUT_BUDGET + 3,
{
    truncate_with_ellipsis(text, SUMMARY_INPUT_BUDGET)
}

/// The title line used in a summarization prompt: the trimmed title when
/// non-blank, else a fixed placeholder.
pub open spec fn title_line_of(title: Option<Seq<char>>) -> Seq<char> {
    match title {
        Some(t) => if trimmed_of(t).len() > 0 {
            trimmed_of(t)
        } else {
            "(unknown title)"@
        },
        None => "(unknown title)"@,
    }
}

/// The prompt submitted to the summarization service for a page.
pub open spec fn summary_prompt_of(
    title: Option<Seq<char>>,
    url: Seq<char>,
    content: Seq<char>,
) -> Seq<char> {
    "Summarize the page below in 1-2 concise sentences.\nTitle: "@ + title_line_of(title)
        + "\nURL: "@ + url + "\nContent: "@ + truncated_of(content, SUMMARY_INPUT_BUDGET as int)
}

/// Builds the summarization prompt for a page, or nothing when the page has
/// no visible text: title line, URL, and the truncated page text.
pub fn summary_prompt(title: &Option<String>, url: &str, content: &str) -> (r: Option<String>)
    ensures
        r is Some <==> content@.len() > 0,
        (r matches Some(p) ==> p@ == summary_prompt_of(opt_view(*title), url@, content@)),
{
    if content.unicode_len() == 0 {
        return None;
    }
    let mut out = String::new();
    out.append("Summarize the page below in 1-2 concise sentences.\nTitle: ");
    let line = match title {
        Some(t) => {
            let trimmed = trim_str(t.as_str());
            if trimmed.as_str().unicode_len() > 0 {
                trimmed
            } else {
                let mut p = String::new();
                p.append("(unknown title)");
                p
            }
        },
        None => {
            let mut p = String::new();
            p.append("(unknown title)");
            p
        },
    };
    out.append(line.as_str());
    out.append("\nURL: ");
    out.append(url);
    out.append("\nContent: ");
    let truncated = truncate_for_summary(content);
    out.append(truncated.as_str());
    Some(out)
}

/// The summarization key actually used: the configured value trimmed, when
/// non-blank. A missing or blank key silently disables summarization and
/// affects nothing else.
pub fn usable_api_key(raw: Option<String>) -> (r: Option<String>)
    ensures
        opt_view(r) == (match opt_view(raw) {
            Some(k) => if trimmed_of(k).len() > 0 {
                Some(trimmed_of(k))
            } else {
                None
            },
            None => None,
        }),
{
    match raw {
        Some(k) => {
            let t = trim_str(k.as_str());
            if t.as_str().unicode_len() > 0 {
                Some(t)
            } else {
                None
            }
        },
        None => None,
    }
}

/// What the summarization service's response payload carries at the first
/// candidate's first text part: absence when the payload does not parse as
/// JSON or the path is missing. A function of the payload text alone.
pub uninterp spec fn summary_text_of(payload: Seq<char>) -> Option<Seq<char>>;

/// Relies on `serde_json::from_str`, `Value::get` and `Value::as_str`: the
/// text of the response's first candidate part; a function of the payload
/// text alone.
#[verifier::external_body]
fn summary_response_text(payload: &str) -> (r: Option<String>)
    ensures
        r is Some <==> summary_text_of(payload@) is Some,
        (r matches Some(t) ==> Some(t@) == summary_text_of(payload@)),
{
    let value: serde_json::Value = match serde_json::from_str(payload) {
        Ok(v) => v,
        Err(_) => return None,
    };
    value
        .get("candidates")
        .and_then(|v| v.get(0))
        .and_then(|v| v.get("content"))
        .and_then(|v| v.get("parts"))
        .and_then(|v| v.get(0))
        .and_then(|v| v.get("text"))
        .and_then(|v| v.as_str())
        .map(|s| s.to_owned())
}

/// The summary a response payload yields: its text field trimmed, when that
/// is non-blank.
pub open spec fn summary_of_response(payload: Seq<char>) -> Option<Seq<char>> {
    match summary_text_of(payload) {
        Some(t) => if trimmed_of(t).len() > 0 {
            Some(trimmed_of(t))
        } else {
            None
        },
        None => None,
    }
}

/// Extracts the usable summary from a summarization response payload:
/// trimmed, and only when non-blank. A malformed payload yields nothing.
pub fn summary_from_response(payload: &str) -> (r: Option<String>)
    ensures
        opt_view(r) == summary_of_response(payload@),
{
    match summary_response_text(payload) {
        Some(t) => {
            let trimmed = trim_str(t.as_str());
            if trimmed.as_str().unicode_len() > 0 {
                Some(trimmed)
            } else {
                None
            }
        },
        None => None,
    }
}

/// The metadata record for a fetched page: the serialized URL, the scraped
/// title and site name, and the summary when one was produced, else the
/// scraped description.
pub fn extract_link_metadata(url: &str, doc: &str, summary: Option<String>) -> (r: LinkMetadata)
    ensures
        r.url@ == url@,
        opt_view(r.title) == page_title_of(doc@),
        opt_view(r.description) == (match opt_view(summary) {
            Some(s) => Some(s),
            None => page_description_of(doc@),
        }),
        opt_view(r.site_name) == page_site_name_of(doc@),
{
    let title = page_title(doc);
    let description = match summary {
        Some(s) => Some(s),
        None => page_description(doc),
    };
    let site_name = page_site_name(doc);
    let mut u = String::new();
    u.append(url);
    LinkMetadata { url: u, title, description, site_name }
}

/// The bare metadata record for a link whose page could not be fetched in
/// time: the URL with every enrichment field absent.
pub fn empty_link_metadata(url: &str) -> (r: LinkMetadata)
    ensures
        r.url@ == url@,
        r.title is None,
        r.description is None,
        r.site_name is None,
{
    let mut u = String::new();
    u.append(url);
    LinkMetadata { url: u, title: None, description: None, site_name: None }
}

/// The metadata a capture ends with: extracted from the page when a body
/// arrived before the fetch deadline, bare otherwise — a slow or unreachable
/// page degrades the fields, never the capture.
pub fn link_metadata_from_fetch(url: &str, body: Option<&String>, summary: Option<String>) -> (r:
    LinkMetadata)
    ensures
        r.url@ == url@,
        (body matches Some(doc) ==> opt_view(r.title) == page_title_of(doc@)),
        (body matches Some(doc) ==> opt_view(r.description) == (match opt_view(summary) {
            Some(s) => Some(s),
            None => page_description_of(doc@),
        })),
        (body matches Some(doc) ==> opt_view(r.site_name) == page_site_name_of(doc@)),
        body is None ==> r.title is None && r.description is None && r.site_name is None,
{
    match body {
        Some(doc) => extract_link_metadata(url, doc.as_str(), summary),
        None => empty_link_metadata(url),
    }
}

} // verus!
