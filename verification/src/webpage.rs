//! Reading a web page for the model: which addresses and answers are taken,
//! how the main text is taken out of the page, and how long it may be.

use vstd::prelude::*;
use crate::image_fetch::{primary_content_type, primary_media_type};
use crate::text::{occurs_at, starts_with, to_chars, to_string_range};

verus! {

/// Largest number of characters of a page's text that is handed on.
pub const MAX_EXTRACTED_TEXT_LENGTH: usize = 15000;

/// Seconds after which the download of a page is given up.
pub const PAGE_FETCH_TIMEOUT_SECS: u64 = 20;

/// Whether a text is an absolute URL, as the `url` crate reads it.
pub uninterp spec fn url_parses(address: Seq<char>) -> bool;

/// `Url::parse` of `url`: whether it takes the text is a function of the
/// text alone and is named `url_parses` here.
#[verifier::external_body]
fn url_is_valid(address: &str) -> (r: bool)
    ensures
        r == url_parses(address@),
{
    url::Url::parse(address).is_ok()
}

/// The main text of a page, as the `readability` crate takes it out of the
/// page's source for the page's address, or the text of its error.
pub uninterp spec fn readable_text(html: Seq<char>, address: Seq<char>) -> Result<
    Seq<char>,
    Seq<char>,
>;

/// `extractor::extract` of `readability`, on the source of a page and its
/// address as `Url::parse` reads it: the text of the product, or the error
/// as text, is a function of the two arguments alone and is named
/// `readable_text` here. The address is one that `Url::parse` takes.
#[verifier::external_body]
fn extract_text(html: &str, address: &str) -> (r: Result<String, String>)
    requires
        url_parses(address@),
    ensures
        match readable_text(html@, address@) {
            Ok(text) => r.is_ok() && r.unwrap()@ == text,
            Err(e) => r.is_err() && r.unwrap_err()@ == e,
        },
{
    let parsed = url::Url::parse(address).map_err(|e| e.to_string())?;
    readability::extractor::extract(&mut std::io::Cursor::new(html), &parsed).map(
        |product| product.text,
    ).map_err(|e| e.to_string())
}

/// Why a page was not read.
#[derive(Debug, PartialEq, Eq)]
pub enum WebpageError {
    /// The address is no absolute URL.
    InvalidUrl,
    /// The server named a media type that is not HTML.
    NotHtml(String),
    /// The main text could not be taken out of the page.
    ExtractFailed(String),
}

/// Mathematical value of a `WebpageError`.
pub enum WebpageErrorView {
    InvalidUrl,
    NotHtml(Seq<char>),
    ExtractFailed(Seq<char>),
}

impl View for WebpageError {
    type V = WebpageErrorView;

    open spec fn view(&self) -> WebpageErrorView {
        match self {
            WebpageError::InvalidUrl => WebpageErrorView::InvalidUrl,
            WebpageError::NotHtml(s) => WebpageErrorView::NotHtml(s@),
            WebpageError::ExtractFailed(s) => WebpageErrorView::ExtractFailed(s@),
        }
    }
}

/// The text of an error.
pub open spec fn webpage_error_text(e: WebpageErrorView) -> Seq<char> {
    match e {
        WebpageErrorView::InvalidUrl => "Invalid URL provided for reading"@,
        WebpageErrorView::NotHtml(t) => "URL does not appear to be an HTML page (Content-Type: "@
            + t + ")"@,
        WebpageErrorView::ExtractFailed(e) => "Failed to extract content using readability: "@ + e,
    }
}

impl WebpageError {
    /// The text of the error.
    pub fn message(&self) -> (r: String)
        ensures
            r@ == webpage_error_text(self@),
    {
        match self {
            WebpageError::InvalidUrl => "Invalid URL provided for reading".to_owned(),
            WebpageError::NotHtml(t) => {
                let mut r = "URL does not appear to be an HTML page (Content-Type: ".to_owned();
                r.push_str(t.as_str());
                r.push_str(")");
                r
            },
            WebpageError::ExtractFailed(e) => {
                let mut r = "Failed to extract content using readability: ".to_owned();
                r.push_str(e.as_str());
                r
            },
        }
    }
}

/// Checks the address of a page before it is fetched.
pub fn check_page_url(page_url: &str) -> (r: Result<(), WebpageError>)
    ensures
        r.is_ok() == url_parses(page_url@),
        r matches Err(e) ==> e@ == WebpageErrorView::InvalidUrl,
{
    if url_is_valid(page_url) {
        Ok(())
    } else {
        Err(WebpageError::InvalidUrl)
    }
}

/// Judges the media type of an answer: a page has to be HTML.
pub fn judge_page_type(mime_type: String) -> (r: Result<(), WebpageError>)
    ensures
        r.is_ok() == occurs_at(mime_type@, "text/html"@, 0),
        r matches Err(e) ==> e@ == WebpageErrorView::NotHtml(mime_type@),
{
    let chars = to_chars(mime_type.as_str());
    let wanted = to_chars("text/html");
    if starts_with(&chars, &wanted) {
        Ok(())
    } else {
        Err(WebpageError::NotHtml(mime_type))
    }
}

/// Checks the `Content-Type` header of an answer before its body is read.
pub fn check_page_content_type(content_type: Option<&str>) -> (r: Result<(), WebpageError>)
    ensures
        r.is_ok() == occurs_at(
            primary_media_type(
                match content_type {
                    Some(h) => Some(h@),
                    None => None,
                },
            ),
            "text/html"@,
            0,
        ),
        r matches Err(e) ==> e@ == WebpageErrorView::NotHtml(
            primary_media_type(
                match content_type {
                    Some(h) => Some(h@),
                    None => None,
                },
            ),
        ),
{
    judge_page_type(primary_content_type(content_type))
}

/// What is put behind a text that was cut.
pub open spec fn truncation_marker() -> Seq<char> {
    "... [truncated]"@
}

/// A text cut to the largest number of characters, with the marker behind
/// it if it was cut.
pub open spec fn truncated(text: Seq<char>) -> Seq<char> {
    if text.len() > MAX_EXTRACTED_TEXT_LENGTH {
        text.subrange(0, MAX_EXTRACTED_TEXT_LENGTH as int) + truncation_marker()
    } else {
        text
    }
}

/// Cuts a text to the largest number of characters.
pub fn truncate_text(text: String) -> (r: String)
    ensures
        r@ == truncated(text@),
{
    let chars = to_chars(text.as_str());
    if chars.len() > MAX_EXTRACTED_TEXT_LENGTH {
        let mut r = to_string_range(&chars, 0, MAX_EXTRACTED_TEXT_LENGTH);
        r.push_str("... [truncated]");
        r
    } else {
        text
    }
}

/// What reading gives for the result of the extraction.
pub open spec fn page_text(extracted: Result<Seq<char>, Seq<char>>) -> Result<
    Seq<char>,
    WebpageErrorView,
> {
    match extracted {
        Ok(text) => Ok(truncated(text)),
        Err(e) => Err(WebpageErrorView::ExtractFailed(e)),
    }
}

/// Turns the result of the extraction into what the model gets.
pub fn finish_page_text(extracted: Result<String, String>) -> (r: Result<String, WebpageError>)
    ensures
        match page_text(
            match extracted {
                Ok(t) => Ok(t@),
                Err(e) => Err(e@),
            },
        ) {
            Ok(text) => r.is_ok() && r.unwrap()@ == text,
            Err(e) => r.is_err() && r.unwrap_err()@ == e,
        },
{
    match extracted {
        Ok(text) => Ok(truncate_text(text)),
        Err(e) => Err(WebpageError::ExtractFailed(e)),
    }
}

/// Takes the main text out of the source of a page that was fetched from
/// an address, and cuts it to the largest length.
pub fn read_page(html: &str, page_url: &str) -> (r: Result<String, WebpageError>)
    ensures
        match (if url_parses(page_url@) {
            page_text(readable_text(html@, page_url@))
        } else {
            Err(WebpageErrorView::InvalidUrl)
        }) {
            Ok(text) => r.is_ok() && r.unwrap()@ == text,
            Err(e) => r.is_err() && r.unwrap_err()@ == e,
        },
{
    if !url_is_valid(page_url) {
        return Err(WebpageError::InvalidUrl);
    }
    finish_page_text(extract_text(html, page_url))
}

} // verus!
