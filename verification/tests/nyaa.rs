use emulbot::nyaa_parser::{
    confirm_download, describe_download_failure, download_torrent, extract_magnet_url,
    interpret_magnet_search, NyaaParserError,
};
use scraper::Selector;

#[test]
fn test_extract_magnet_from_real_file() {
    // A page of one torrent, as the site serves it: the target of the
    // magnet anchor is written with character references.
    let html_content = r#"<!DOCTYPE html>
<html lang="en">
<head><meta charset="utf-8"><title>[SubsPlease] Danjo no Yuujou wa Seiritsu suru - 01 (1080p) [605B7639].mkv :: Nyaa</title></head>
<body>
<nav class="navbar"><a class="navbar-brand" href="/">Nyaa</a> <a href="/upload">Upload</a> <a href="/rules">Rules</a></nav>
<div class="container">
<div class="panel panel-success">
  <div class="panel-heading"><h3 class="panel-title">[SubsPlease] Danjo no Yuujou wa Seiritsu suru - 01 (1080p) [605B7639].mkv</h3></div>
  <div class="panel-body"><div class="row"><div class="col-md-1">Submitter:</div><div class="col-md-5"><a class="text-success" href="/user/subsplease">subsplease</a></div></div></div>
  <div class="panel-footer clearfix">
    <a href="/download/1955613.torrent"><i class="fa fa-download fa-fw"></i>Download Torrent</a> or <a href="magnet:?xt=urn:btih:1695d42fae2d7655e544fa3a92f5d90fa0719106&amp;dn=%5BSubsPlease%5D%20Danjo%20no%20Yuujou%20wa%20Seiritsu%20suru%20-%2001%20%281080p%29%20%5B605B7639%5D.mkv&amp;tr=http%3A%2F%2Fnyaa.tracker.wf%3A7777%2Fannounce&amp;tr=udp%3A%2F%2Fopen.stealth.si%3A80%2Fannounce&amp;tr=udp%3A%2F%2Ftracker.opentrackr.org%3A1337%2Fannounce&amp;tr=udp%3A%2F%2Fexodus.desync.com%3A6969%2Fannounce&amp;tr=udp%3A%2F%2Ftracker.torrent.eu.org%3A451%2Fannounce" class="card-footer-item"><i class="fa fa-magnet fa-fw"></i>Magnet</a>
  </div>
</div>
<div id="comments" class="panel panel-default"><div class="panel-body">Thanks! <a href="https://example.org/">link</a></div></div>
</div>
</body>
</html>"#;
    let expected_magnet = "magnet:?xt=urn:btih:1695d42fae2d7655e544fa3a92f5d90fa0719106&dn=%5BSubsPlease%5D%20Danjo%20no%20Yuujou%20wa%20Seiritsu%20suru%20-%2001%20%281080p%29%20%5B605B7639%5D.mkv&tr=http%3A%2F%2Fnyaa.tracker.wf%3A7777%2Fannounce&tr=udp%3A%2F%2Fopen.stealth.si%3A80%2Fannounce&tr=udp%3A%2F%2Ftracker.opentrackr.org%3A1337%2Fannounce&tr=udp%3A%2F%2Fexodus.desync.com%3A6969%2Fannounce&tr=udp%3A%2F%2Ftracker.torrent.eu.org%3A451%2Fannounce";
    match extract_magnet_url(html_content) {
        Ok(url) => assert_eq!(url, expected_magnet),
        Err(e) => panic!("Extraction failed: {}", e.message()),
    }
}

#[test]
fn test_no_magnet_link() {
    let html_content = r#"
        <!DOCTYPE html>
        <html><body><p>No magnet link here.</p></body></html>
        "#;
    match extract_magnet_url(html_content) {
        Err(NyaaParserError::MagnetLinkNotFound) => (), // Expected error
        Ok(url) => panic!("Expected error, but got URL: {}", url),
        Err(e) => panic!("Expected MagnetLinkNotFound, but got different error: {}", e.message()),
    }
}

#[test]
fn test_magnet_link_no_href() {
    let html_content = r#"
        <!DOCTYPE html>
        <html><body><a>This link is missing href</a></body></html>
        "#;
    match extract_magnet_url(html_content) {
        Err(NyaaParserError::MagnetLinkNotFound) => (), // Expected error
        Ok(url) => panic!("Expected error, but got URL: {}", url),
        Err(e) => panic!("Expected MagnetLinkNotFound, but got different error: {}", e.message()),
    }
}

#[test]
fn test_magnet_link_no_href_but_tag_exists() {
    let html_content = r#"
         <!DOCTYPE html>
         <html><body><a class="magnet-link-style-but-no-href">Click me maybe?</a></body></html>
         "#;
    match extract_magnet_url(html_content) {
        Err(NyaaParserError::MagnetLinkNotFound) => (), // Correct, selector didn't match
        Ok(url) => panic!("Expected error, but got URL: {}", url),
        Err(e) => panic!("Expected MagnetLinkNotFound, but got different error: {}", e.message()),
    }
}

#[test]
fn test_invalid_selector() {
    let invalid_selector = "::invalid-pseudo-element";
    let result = Selector::parse(invalid_selector);
    if let Err(e) = result {
        let mapped_error: Result<String, NyaaParserError> =
            Err(e).map_err(|err| NyaaParserError::SelectorParseError(err.to_string()));
        assert!(matches!(mapped_error, Err(NyaaParserError::SelectorParseError(_))));
    }
}

#[test]
fn other_links_are_passed_over() {
    let html = r#"<a href="http://magnet:?x">no</a><a href="MAGNET:?upper">no</a><a href="magnet:?first">one</a><a href="magnet:?second">two</a>"#;
    assert_eq!(extract_magnet_url(html), Ok("magnet:?first".to_string()));
    assert_eq!(extract_magnet_url(""), Err(NyaaParserError::MagnetLinkNotFound));
}

#[test]
fn outcome_of_the_search_is_read() {
    assert_eq!(interpret_magnet_search(Ok(Some(Some("magnet:?x".to_string())))), Ok("magnet:?x".to_string()));
    assert_eq!(interpret_magnet_search(Ok(Some(None))), Err(NyaaParserError::HrefAttributeMissing));
    assert_eq!(interpret_magnet_search(Ok(None)), Err(NyaaParserError::MagnetLinkNotFound));
    assert_eq!(
        interpret_magnet_search(Err("bad".to_string())),
        Err(NyaaParserError::SelectorParseError("bad".to_string()))
    );
}

#[test]
fn parser_errors_have_their_texts() {
    assert_eq!(
        NyaaParserError::MagnetLinkNotFound.message(),
        "Could not find the magnet link anchor tag in the HTML content"
    );
    assert_eq!(
        NyaaParserError::SelectorParseError("oops".to_string()).message(),
        "Failed to parse CSS selector: oops"
    );
    assert_eq!(
        NyaaParserError::HrefAttributeMissing.message(),
        "Found magnet link tag, but it is missing the 'href' attribute"
    );
}

#[test]
fn download_is_confirmed_or_its_failure_told() {
    assert_eq!(
        download_torrent("https://nyaa.si/view/1", r#"<a href="magnet:?xt=1">m</a>"#),
        Ok("Okay, I found the magnet link for https://nyaa.si/view/1 and will start the download."
            .to_string())
    );
    assert_eq!(
        download_torrent("https://nyaa.si/view/1", "<p>404</p>"),
        Err("Failed to get magnet link for https://nyaa.si/view/1: Could not find the magnet link anchor tag in the HTML content".to_string())
    );
    assert_eq!(
        confirm_download("u", Err(NyaaParserError::HrefAttributeMissing)),
        Err("Failed to get magnet link for u: Found magnet link tag, but it is missing the 'href' attribute".to_string())
    );
    assert_eq!(
        describe_download_failure("u", "timed out"),
        "Failed to get magnet link for u: timed out"
    );
}
