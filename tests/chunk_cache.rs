use url2audio::player_engine::{ChunkSpan, PlayerStatus};
use url2audio::url_source::ByteRange;
use url2audio::url_source_buff::{
    SeekOrigin, SourceError, SourceStep, UrlSourceBuf, CHUNK_SIZE, MAX_CHUNK_KEY, STREAM_LIMIT,
};

const URL: &str = "https://example.com/a.mp3";

fn chunk_bytes(key: u64) -> Vec<u8> {
    (0..CHUNK_SIZE).map(|i| ((key * 7 + i) % 251) as u8).collect()
}

/// Reads `n` bytes, fetching missing chunks from the fake server; counts fetches.
fn read_fetching(src: &mut UrlSourceBuf, n: usize, fetches: &mut Vec<u64>) -> Vec<u8> {
    loop {
        match src.read(n) {
            SourceStep::Ready(b) => return b,
            SourceStep::NeedChunk(k) => {
                fetches.push(k);
                src.insert_chunk(k, chunk_bytes(k)).unwrap();
            }
        }
    }
}

fn seek_fetching(src: &mut UrlSourceBuf, to: SeekOrigin, fetches: &mut Vec<u64>) -> u64 {
    loop {
        match src.seek(to).unwrap() {
            SourceStep::Ready(p) => return p,
            SourceStep::NeedChunk(k) => {
                fetches.push(k);
                src.insert_chunk(k, chunk_bytes(k)).unwrap();
            }
        }
    }
}

#[test]
fn new_source_is_empty_at_start() {
    let src = UrlSourceBuf::new(URL, Some(10), true);
    assert_eq!(src.url(), URL);
    assert_eq!(src.position(), 0);
    assert_eq!(src.byte_len(), Some(10));
    assert!(!src.has_chunk(0));
}

#[test]
fn chunk_keys_and_ranges() {
    assert_eq!(UrlSourceBuf::get_chunk_key(0), 0);
    assert_eq!(UrlSourceBuf::get_chunk_key(65535), 0);
    assert_eq!(UrlSourceBuf::get_chunk_key(65536), 1);
    assert_eq!(UrlSourceBuf::get_chunk_key(u64::MAX), MAX_CHUNK_KEY + 1);
    assert_eq!(
        UrlSourceBuf::chunk_range(2),
        ByteRange { first: 131072, last: Some(196607) }
    );
    assert_eq!(
        String::from_utf8(UrlSourceBuf::chunk_range(1).header_value()).unwrap(),
        "bytes=65536-131071"
    );
}

#[test]
fn read_on_empty_cache_asks_for_first_chunk() {
    let mut src = UrlSourceBuf::new(URL, None, false);
    assert_eq!(src.read(10), SourceStep::NeedChunk(0));
    assert_eq!(src.position(), 0);
}

#[test]
fn read_returns_cached_bytes_and_advances() {
    let mut src = UrlSourceBuf::new(URL, None, false);
    assert_eq!(src.insert_chunk(0, chunk_bytes(0)), Ok(None));
    let expected: Vec<u8> = chunk_bytes(0)[..10].to_vec();
    assert_eq!(src.read(10), SourceStep::Ready(expected));
    assert_eq!(src.position(), 10);
    assert_eq!(src.read(0), SourceStep::Ready(vec![]));
}

#[test]
fn read_across_chunk_boundary_stitches_chunks() {
    let mut src = UrlSourceBuf::new(URL, None, false);
    let mut fetches = Vec::new();
    assert_eq!(seek_fetching(&mut src, SeekOrigin::Start(65530), &mut fetches), 65530);
    let got = read_fetching(&mut src, 12, &mut fetches);
    let mut expected = chunk_bytes(0)[65530..].to_vec();
    expected.extend_from_slice(&chunk_bytes(1)[..6]);
    assert_eq!(got, expected);
    assert_eq!(fetches, vec![0, 1]);
    assert_eq!(src.position(), 65542);
}

#[test]
fn cache_hit_issues_no_second_fetch() {
    let mut src = UrlSourceBuf::new(URL, None, false);
    let mut fetches = Vec::new();
    let first = read_fetching(&mut src, 100, &mut fetches);
    assert_eq!(fetches, vec![0]);
    assert_eq!(seek_fetching(&mut src, SeekOrigin::Start(0), &mut fetches), 0);
    let second = read_fetching(&mut src, 100, &mut fetches);
    assert_eq!(first, second);
    assert_eq!(seek_fetching(&mut src, SeekOrigin::Start(65535), &mut fetches), 65535);
    assert_eq!(fetches, vec![0]);
}

#[test]
fn seek_to_uncached_chunk_names_it_and_keeps_position() {
    let mut src = UrlSourceBuf::new(URL, None, false);
    assert_eq!(src.seek(SeekOrigin::Start(200000)), Ok(SourceStep::NeedChunk(3)));
    assert_eq!(src.position(), 0);
    src.insert_chunk(3, chunk_bytes(3)).unwrap();
    assert_eq!(src.seek(SeekOrigin::Start(200000)), Ok(SourceStep::Ready(200000)));
    assert_eq!(src.position(), 200000);
}

#[test]
fn seek_from_current_and_end() {
    let mut src = UrlSourceBuf::new(URL, Some(300000), false);
    for k in 0..5 {
        src.insert_chunk(k, chunk_bytes(k)).unwrap();
    }
    assert_eq!(src.seek(SeekOrigin::Start(1000)), Ok(SourceStep::Ready(1000)));
    assert_eq!(src.seek(SeekOrigin::Current(-500)), Ok(SourceStep::Ready(500)));
    assert_eq!(src.seek(SeekOrigin::End(-10)), Ok(SourceStep::Ready(299990)));
    assert_eq!(src.seek(SeekOrigin::Current(-300000)), Err(SourceError::BeforeStart));
    assert_eq!(src.position(), 299990);
}

#[test]
fn seek_errors() {
    let mut src = UrlSourceBuf::new(URL, None, false);
    assert_eq!(src.seek(SeekOrigin::End(0)), Err(SourceError::UnknownLength));
    assert_eq!(src.seek(SeekOrigin::Current(-1)), Err(SourceError::BeforeStart));
    assert_eq!(src.seek(SeekOrigin::Start(STREAM_LIMIT)), Err(SourceError::PastEnd));
    assert_eq!(src.position(), 0);
}

#[test]
fn short_chunk_is_an_error_and_not_cached() {
    let mut src = UrlSourceBuf::new(URL, Some(1_000_000), true);
    assert_eq!(src.insert_chunk(4, vec![1, 2, 3]), Err(SourceError::ShortChunk));
    assert!(!src.has_chunk(4));
    assert_eq!(src.seek(SeekOrigin::Start(4 * 65536)), Ok(SourceStep::NeedChunk(4)));
}

#[test]
fn chunk_event_reports_fractions_once() {
    let mut src = UrlSourceBuf::new(URL, Some(1_000_000), true);
    let ev = src.insert_chunk(3, chunk_bytes(3)).unwrap();
    assert_eq!(
        ev,
        Some(PlayerStatus::ChunkAdded(ChunkSpan { start: 196608, end: 262144, total: 1_000_000 }))
    );
    let span = ChunkSpan { start: 196608, end: 262144, total: 1_000_000 };
    let start = span.start as f64 / span.total as f64;
    let end = span.end as f64 / span.total as f64;
    assert!((start - 3.0 * 65536.0 / 1_000_000.0).abs() < 1e-12);
    assert!((end - (start + 65536.0 / 1_000_000.0)).abs() < 1e-12);
    assert_eq!(src.insert_chunk(3, chunk_bytes(9)), Ok(None));
    assert!(src.has_chunk(3));
    assert_eq!(src.seek(SeekOrigin::Start(196608)), Ok(SourceStep::Ready(196608)));
    assert_eq!(src.read(2), SourceStep::Ready(chunk_bytes(3)[..2].to_vec()));
}

#[test]
fn no_chunk_event_without_length_or_listener() {
    let mut unknown = UrlSourceBuf::new(URL, None, true);
    assert_eq!(unknown.insert_chunk(0, chunk_bytes(0)), Ok(None));
    let mut quiet = UrlSourceBuf::new(URL, Some(1_000_000), false);
    assert_eq!(quiet.insert_chunk(0, chunk_bytes(0)), Ok(None));
    let mut empty = UrlSourceBuf::new(URL, Some(0), true);
    assert_eq!(empty.insert_chunk(0, chunk_bytes(0)), Ok(None));
}

#[test]
fn read_stops_at_stream_limit() {
    let mut src = UrlSourceBuf::new(URL, None, false);
    src.insert_chunk(MAX_CHUNK_KEY, chunk_bytes(MAX_CHUNK_KEY)).unwrap();
    assert_eq!(src.seek(SeekOrigin::Start(STREAM_LIMIT - 4)), Ok(SourceStep::Ready(STREAM_LIMIT - 4)));
    let got = src.read(100);
    assert_eq!(got, SourceStep::Ready(chunk_bytes(MAX_CHUNK_KEY)[65532..].to_vec()));
    assert_eq!(src.position(), STREAM_LIMIT);
    assert_eq!(src.read(5), SourceStep::Ready(vec![]));
}
