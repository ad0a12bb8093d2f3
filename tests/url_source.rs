use url2audio::url_source::{parse_content_length, ByteRange, UrlSource};
use url2audio::url_source_buff::{SeekOrigin, SourceError};

fn header(r: ByteRange) -> String {
    String::from_utf8(r.header_value()).unwrap()
}

#[test]
fn url_source_ureq_range() {
    assert_eq!(header(ByteRange { first: 0, last: Some(20) }), "bytes=0-20");
}

#[test]
fn url_source_ureq_range2() {
    assert_eq!(header(ByteRange { first: 10, last: None }), "bytes=10-");
}

#[test]
fn url_source_buff_ureq_range() {
    let mut src = UrlSource::new("https://example.com/a.mp3");
    let r = src.seek(SeekOrigin::Start(0)).unwrap();
    assert_eq!(header(ByteRange { last: Some(20), ..r }), "bytes=0-20");
}

#[test]
fn url_source_buff_ureq_range2() {
    let mut src = UrlSource::new("https://example.com/a.mp3");
    assert_eq!(header(src.seek(SeekOrigin::Start(10)).unwrap()), "bytes=10-");
}

#[test]
fn ureq_content_length() {
    assert_eq!(parse_content_length("52428800"), Some(52428800));
}

#[test]
fn header_value_large_numbers() {
    assert_eq!(
        header(ByteRange { first: u64::MAX, last: Some(u64::MAX) }),
        "bytes=18446744073709551615-18446744073709551615"
    );
    assert_eq!(header(ByteRange { first: 9, last: Some(10) }), "bytes=9-10");
}

#[test]
fn content_length_edge_cases() {
    assert_eq!(parse_content_length("0"), Some(0));
    assert_eq!(parse_content_length("007"), Some(7));
    assert_eq!(parse_content_length("18446744073709551615"), Some(u64::MAX));
    assert_eq!(parse_content_length("18446744073709551616"), None);
    assert_eq!(parse_content_length("99999999999999999999x"), None);
    assert_eq!(parse_content_length(""), None);
    assert_eq!(parse_content_length("12a"), None);
    assert_eq!(parse_content_length("+5"), None);
    assert_eq!(parse_content_length(" 5"), None);
}

#[test]
fn plain_source_seeks() {
    let mut src = UrlSource::new("https://example.com/a.mp3");
    assert_eq!(src.url(), "https://example.com/a.mp3");
    src.advance(100);
    assert_eq!(src.position(), 100);
    assert_eq!(src.seek(SeekOrigin::Current(-40)), Ok(ByteRange { first: 60, last: None }));
    assert_eq!(src.position(), 60);
    assert_eq!(src.seek(SeekOrigin::End(-5)), Err(SourceError::UnknownLength));
    assert_eq!(src.seek(SeekOrigin::Current(-61)), Err(SourceError::BeforeStart));
    assert_eq!(src.position(), 60);
    src.advance(usize::MAX);
    assert_eq!(src.position(), u64::MAX);
    assert_eq!(src.seek(SeekOrigin::Current(1)), Err(SourceError::PastEnd));
}
