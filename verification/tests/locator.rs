use dlrs::errors::DlError;

#[test]
fn thread_parse_url_builds_document_address() {
    let r = dlrs::thread::parse_url("https://boards.4chan.org/g/thread/76759434").unwrap();
    assert!(r.0 == "https://a.4cdn.org/g/thread/76759434.json");
    assert!(r.1 == "g");
}

#[test]
fn thread_parse_url_without_scheme() {
    let r = dlrs::thread::parse_url("boards.4chan.org/wg/thread/123").unwrap();
    assert!(r.0 == "https://a.4cdn.org/wg/thread/123.json");
    assert!(r.1 == "wg");
}

#[test]
fn thread_parse_url_rejects_too_few_segments() {
    assert!(dlrs::thread::parse_url("nothing-here") == Err(DlError::MalformedTarget));
    assert!(dlrs::thread::parse_url("a/b") == Err(DlError::MalformedTarget));
}

#[test]
fn board_parse_url_builds_catalog_address() {
    let r = dlrs::board::parse_url("https://boards.4chan.org/g/catalog").unwrap();
    assert!(r.0 == "https://a.4cdn.org/g/catalog.json");
    assert!(r.1 == "g");
}

#[test]
fn board_parse_url_rejects_too_few_segments() {
    assert!(dlrs::board::parse_url("nothing-here") == Err(DlError::MalformedTarget));
}

#[test]
fn locator_is_deterministic() {
    let a = dlrs::thread::parse_url("boards.4chan.org/g/thread/42");
    let b = dlrs::thread::parse_url("boards.4chan.org/g/thread/42");
    assert!(a == b);
}
