//! Finding the magnet link in the page of a torrent.

use vstd::prelude::*;

verus! {

/// The selector of the magnet link: an anchor whose target begins with the
/// magnet scheme.
pub const MAGNET_SELECTOR: &'static str = "a[href^=\"magnet:?\"]";

/// Why no magnet link was found.
#[derive(Debug, PartialEq, Eq)]
pub enum NyaaParserError {
    /// No anchor of the page leads to a magnet link.
    MagnetLinkNotFound,
    /// The selector could not be read.
    SelectorParseError(String),
    /// The anchor that was found has no target.
    HrefAttributeMissing,
}

/// Mathematical value of a `NyaaParserError`.
pub enum NyaaParserErrorView {
    MagnetLinkNotFound,
    SelectorParseError(Seq<char>),
    HrefAttributeMissing,
}

impl View for NyaaParserError {
    type V = NyaaParserErrorView;

    open spec fn view(&self) -> NyaaParserErrorView {
        match self {
            NyaaParserError::MagnetLinkNotFound => NyaaParserErrorView::MagnetLinkNotFound,
            NyaaParserError::SelectorParseError(s) => NyaaParserErrorView::SelectorParseError(s@),
            NyaaParserError::HrefAttributeMissing => NyaaParserErrorView::HrefAttributeMissing,
        }
    }
}

/// The text of an error.
pub open spec fn parser_error_text(e: NyaaParserErrorView) -> Seq<char> {
    match e {
        NyaaParserErrorView::MagnetLinkNotFound =>
            "Could not find the magnet link anchor tag in the HTML content"@,
        NyaaParserErrorView::SelectorParseError(s) => "Failed to parse CSS selector: "@ + s,
        NyaaParserErrorView::HrefAttributeMissing =>
            "Found magnet link tag, but it is missing the 'href' attribute"@,
    }
}

impl NyaaParserError {
    /// The text of the error.
    pub fn message(&self) -> (r: String)
        ensures
            r@ == parser_error_text(self@),
    {
        match self {
            NyaaParserError::MagnetLinkNotFound =>
                "Could not find the magnet link anchor tag in the HTML content".to_owned(),
            NyaaParserError::SelectorParseError(s) => {
                let mut r = "Failed to parse CSS selector: ".to_owned();
                r.push_str(s.as_str());
                r
            },
            NyaaParserError::HrefAttributeMissing =>
                "Found magnet link tag, but it is missing the 'href' attribute".to_owned(),
        }
    }
}

/// What the `scraper` crate finds in a document for a selector and an
/// attribute: the error where it cannot read the selector; else nothing
/// where no element matches; else the first matching element's value of
/// the attribute, if it has that attribute.
pub uninterp spec fn first_match_attribute(
    html: Seq<char>,
    selector: Seq<char>,
    attribute: Seq<char>,
) -> Result<Option<Option<Seq<char>>>, Seq<char>>;

/// The outcome of a search by its mathematical value.
pub open spec fn search_view(found: Result<Option<Option<String>>, String>) -> Result<
    Option<Option<Seq<char>>>,
    Seq<char>,
> {
    match found {
        Ok(Some(Some(value))) => Ok(Some(Some(value@))),
        Ok(Some(None)) => Ok(Some(None)),
        Ok(None) => Ok(None),
        Err(e) => Err(e@),
    }
}

/// `Selector::parse`, `Html::parse_document`, `Html::select` and
/// `Element::attr` of `scraper`, one after the other: what they find is a
/// function of the three texts alone and is named `first_match_attribute`
/// here. The error of the selector is handed on as text.
#[verifier::external_body]
fn select_first_attribute(html: &str, selector: &str, attribute: &str) -> (r: Result<
    Option<Option<String>>,
    String,
>)
    ensures
        search_view(r) == first_match_attribute(html@, selector@, attribute@),
{
    let parsed = scraper::Selector::parse(selector).map_err(|e| e.to_string())?;
    let document = scraper::Html::parse_document(html);
    Ok(
        document.select(&parsed).next().map(
            |element| element.value().attr(attribute).map(|value| value.to_string()),
        ),
    )
}

/// What the search for the magnet anchor means: its target is the link; an
/// anchor without target, no anchor and a selector that was not read are
/// errors.
pub open spec fn magnet_of(found: Result<Option<Option<Seq<char>>>, Seq<char>>) -> Result<
    Seq<char>,
    NyaaParserErrorView,
> {
    match found {
        Ok(Some(Some(href))) => Ok(href),
        Ok(Some(None)) => Err(NyaaParserErrorView::HrefAttributeMissing),
        Ok(None) => Err(NyaaParserErrorView::MagnetLinkNotFound),
        Err(e) => Err(NyaaParserErrorView::SelectorParseError(e)),
    }
}

/// Reads the outcome of the search for the magnet anchor.
pub fn interpret_magnet_search(found: Result<Option<Option<String>>, String>) -> (r: Result<
    String,
    NyaaParserError,
>)
    ensures
        match magnet_of(search_view(found)) {
            Ok(href) => r.is_ok() && r.unwrap()@ == href,
            Err(e) => r.is_err() && r.unwrap_err()@ == e,
        },
{
    match found {
        Ok(Some(Some(href))) => Ok(href),
        Ok(Some(None)) => Err(NyaaParserError::HrefAttributeMissing),
        Ok(None) => Err(NyaaParserError::MagnetLinkNotFound),
        Err(e) => Err(NyaaParserError::SelectorParseError(e)),
    }
}

/// Extracts the magnet link from the source of a torrent's page: the target
/// of the first anchor that leads to a magnet link.
pub fn extract_magnet_url(html_content: &str) -> (r: Result<String, NyaaParserError>)
    ensures
        match magnet_of(first_match_attribute(html_content@, MAGNET_SELECTOR@, "href"@)) {
            Ok(href) => r.is_ok() && r.unwrap()@ == href,
            Err(e) => r.is_err() && r.unwrap_err()@ == e,
        },
{
    interpret_magnet_search(select_first_attribute(html_content, MAGNET_SELECTOR, "href"))
}

/// What the model is told after the magnet link of a page was found.
pub open spec fn download_confirmation(nyaa_url: Seq<char>) -> Seq<char> {
    "Okay, I found the magnet link for "@ + nyaa_url + " and will start the download."@
}

/// What the model is told where no magnet link was had, for the text of
/// the reason.
pub open spec fn download_failure(nyaa_url: Seq<char>, reason: Seq<char>) -> Seq<char> {
    "Failed to get magnet link for "@ + nyaa_url + ": "@ + reason
}

/// Writes the failure of a download.
pub fn describe_download_failure(nyaa_url: &str, reason: &str) -> (r: String)
    ensures
        r@ == download_failure(nyaa_url@, reason@),
{
    let mut r = "Failed to get magnet link for ".to_owned();
    r.push_str(nyaa_url);
    r.push_str(": ");
    r.push_str(reason);
    r
}

/// What the search for the magnet link of a page means for the download:
/// a link confirms it, an error is reported with its reason.
pub open spec fn download_outcome(
    nyaa_url: Seq<char>,
    magnet: Result<Seq<char>, NyaaParserErrorView>,
) -> Result<Seq<char>, Seq<char>> {
    match magnet {
        Ok(_) => Ok(download_confirmation(nyaa_url)),
        Err(e) => Err(download_failure(nyaa_url, parser_error_text(e))),
    }
}

/// Answers a request for a download from what the search for the magnet
/// link gave.
pub fn confirm_download(nyaa_url: &str, magnet: Result<String, NyaaParserError>) -> (r: Result<
    String,
    String,
>)
    ensures
        match download_outcome(
            nyaa_url@,
            match magnet {
                Ok(m) => Ok(m@),
                Err(e) => Err(e@),
            },
        ) {
            Ok(text) => r.is_ok() && r.unwrap()@ == text,
            Err(e) => r.is_err() && r.unwrap_err()@ == e,
        },
{
    match magnet {
        Ok(_) => {
            let mut r = "Okay, I found the magnet link for ".to_owned();
            r.push_str(nyaa_url);
            r.push_str(" and will start the download.");
            Ok(r)
        },
        Err(e) => {
            let reason = e.message();
            Err(describe_download_failure(nyaa_url, reason.as_str()))
        },
    }
}

/// Starts the download of the torrent whose page was fetched from an
/// address: finds the magnet link in the page's source and confirms, or
/// reports why none was had.
pub fn download_torrent(nyaa_url: &str, html_content: &str) -> (r: Result<String, String>)
    ensures
        match download_outcome(
            nyaa_url@,
            magnet_of(first_match_attribute(html_content@, MAGNET_SELECTOR@, "href"@)),
        ) {
            Ok(text) => r.is_ok() && r.unwrap()@ == text,
            Err(e) => r.is_err() && r.unwrap_err()@ == e,
        },
{
    confirm_download(nyaa_url, extract_magnet_url(html_content))
}

} // verus!
