//! A seekable byte stream over HTTP range requests, cached in fixed-size
//! chunks.
use std::collections::BTreeMap;
use vstd::prelude::*;

use crate::player_engine::{ChunkSpan, PlayerStatus};
use crate::url_source::ByteRange;

verus! {

broadcast use vstd::std_specs::btree::group_btree_axioms;

/// Size in bytes of one cached block of the remote stream.
pub const CHUNK_SIZE: u64 = 65536;

/// One past the last addressable byte: the end of the last whole chunk
/// below `u64::MAX`, so that every chunk's end offset fits in a `u64`.
pub const STREAM_LIMIT: u64 = 0xffff_ffff_ffff_0000;

/// The index of the last chunk below `STREAM_LIMIT`.
pub const MAX_CHUNK_KEY: u64 = 0xffff_ffff_fffe;

/// Where a seek is measured from, as in `std::io::SeekFrom`.
#[derive(PartialEq, Eq, Structural, Clone, Copy, Debug)]
pub enum SeekOrigin {
    Start(u64),
    End(i64),
    Current(i64),
}

/// Why a source operation could not be carried out.
#[derive(PartialEq, Eq, Structural, Clone, Copy, Debug)]
pub enum SourceError {
    /// A fetched chunk did not hold exactly `CHUNK_SIZE` bytes.
    ShortChunk,
    /// A seek relative to the end of a stream whose length is unknown.
    UnknownLength,
    /// A seek to a position before the first byte.
    BeforeStart,
    /// A seek to a position beyond the addressable range.
    PastEnd,
}

/// The outcome of a read or seek: done, or blocked on a chunk that has to be
/// fetched (and handed to `insert_chunk`) before the operation is retried.
#[derive(PartialEq, Eq, Debug)]
pub enum SourceStep<T> {
    Ready(T),
    NeedChunk(u64),
}

/// A seekable byte stream over a remote file, backed by a cache of
/// fixed-size chunks that are fetched once and never evicted.
pub struct UrlSourceBuf {
    chunks: BTreeMap<u64, Vec<u8>>,
    url: String,
    pos: u64,
    len: Option<u64>,
    report_chunks: bool,
}

/// The abstract state of a `UrlSourceBuf`.
pub struct SourceView {
    pub chunks: Map<u64, Seq<u8>>,
    pub url: Seq<char>,
    pub pos: u64,
    pub len: Option<u64>,
    pub report_chunks: bool,
}

impl View for UrlSourceBuf {
    type V = SourceView;

    closed spec fn view(&self) -> SourceView {
        SourceView {
            chunks: Map::new(|k: u64| self.chunks@.contains_key(k), |k: u64| self.chunks@[k]@),
            url: self.url@,
            pos: self.pos,
            len: self.len,
            report_chunks: self.report_chunks,
        }
    }
}

/// The index of the chunk that holds byte `p`.
pub open spec fn chunk_of(p: int) -> int {
    p / CHUNK_SIZE as int
}

/// Every cached chunk is full and lies inside the `u64` address range.
pub open spec fn chunks_wf(chunks: Map<u64, Seq<u8>>) -> bool {
    forall|k: u64| #[trigger]
        chunks.contains_key(k) ==> k <= MAX_CHUNK_KEY && chunks[k].len() == CHUNK_SIZE
}

/// All chunks with an index in `first..=last` are cached.
pub open spec fn keys_cached(chunks: Map<u64, Seq<u8>>, first: int, last: int) -> bool {
    forall|k: u64| first <= k <= last ==> #[trigger] chunks.contains_key(k)
}

/// The `n` bytes from offset `start` on are all in cached chunks.
pub open spec fn range_cached(chunks: Map<u64, Seq<u8>>, start: int, n: int) -> bool {
    n > 0 ==> keys_cached(chunks, chunk_of(start), chunk_of(start + n - 1))
}

/// `k` is the first chunk of the byte range `start..start + n` that is not
/// cached.
pub open spec fn first_missing(chunks: Map<u64, Seq<u8>>, k: u64, start: int, n: int) -> bool {
    &&& n > 0
    &&& chunk_of(start) <= k <= chunk_of(start + n - 1)
    &&& !chunks.contains_key(k)
    &&& keys_cached(chunks, chunk_of(start), k - 1)
}

/// The `n` bytes of the stream from offset `start` on, as the cache holds them.
pub open spec fn stream_bytes(chunks: Map<u64, Seq<u8>>, start: int, n: int) -> Seq<u8> {
    Seq::new(
        n as nat,
        |i: int| chunks[chunk_of(start + i) as u64][(start + i) % (CHUNK_SIZE as int)],
    )
}

/// How many bytes a read of `n` bytes at `pos` delivers: all of them, but
/// for the end of the addressable range.
pub open spec fn read_len(pos: u64, n: usize) -> int {
    if pos >= STREAM_LIMIT {
        0
    } else if n + pos > STREAM_LIMIT {
        STREAM_LIMIT - pos
    } else {
        n as int
    }
}

/// The absolute offset that a seek asks for; `None` where it is measured
/// from an end that is not known.
pub open spec fn seek_target(v: SourceView, origin: SeekOrigin) -> Option<int> {
    match origin {
        SeekOrigin::Start(p) => Some(p as int),
        SeekOrigin::Current(d) => Some(v.pos + d),
        SeekOrigin::End(d) => match v.len {
            Some(l) => Some(l + d),
            None => None,
        },
    }
}

/// The event that reports chunk `key` once it has been cached: sent only
/// where events were asked for and the stream's length is known.
pub open spec fn chunk_event(v: SourceView, key: u64) -> Option<PlayerStatus> {
    match v.len {
        Some(l) => if v.report_chunks && l > 0 {
            Some(
                PlayerStatus::ChunkAdded(
                    ChunkSpan {
                        start: (key * CHUNK_SIZE) as u64,
                        end: (key * CHUNK_SIZE + CHUNK_SIZE) as u64,
                        total: l,
                    },
                ),
            )
        } else {
            None
        },
        None => None,
    }
}

/// The source and the result after chunk `key`, holding `bytes`, was fetched.
pub open spec fn insert_outcome(v: SourceView, key: u64, bytes: Seq<u8>) -> (
    SourceView,
    Result<Option<PlayerStatus>, SourceError>,
) {
    if bytes.len() != CHUNK_SIZE {
        (v, Err(SourceError::ShortChunk))
    } else if v.chunks.contains_key(key) {
        (v, Ok(None))
    } else {
        (SourceView { chunks: v.chunks.insert(key, bytes), ..v }, Ok(chunk_event(v, key)))
    }
}

/// `a` and `b` agree on everything but the cursor.
pub open spec fn same_but_pos(a: SourceView, b: SourceView) -> bool {
    &&& a.chunks == b.chunks
    &&& a.url == b.url
    &&& a.len == b.len
    &&& a.report_chunks == b.report_chunks
}

/// `a` and `b` agree on everything but the cache.
pub open spec fn same_but_chunks(a: SourceView, b: SourceView) -> bool {
    &&& a.url == b.url
    &&& a.pos == b.pos
    &&& a.len == b.len
    &&& a.report_chunks == b.report_chunks
}

proof fn lemma_chunk_offset(key: int, i: int)
    requires
        0 <= key,
        0 <= i < CHUNK_SIZE,
    ensures
        chunk_of(key * CHUNK_SIZE + i) == key,
        (key * CHUNK_SIZE + i) % (CHUNK_SIZE as int) == i,
{
    vstd::arithmetic::div_mod::lemma_fundamental_div_mod_converse(
        key * CHUNK_SIZE + i,
        CHUNK_SIZE as int,
        key,
        i,
    );
}

impl UrlSourceBuf {
    pub closed spec fn wf(&self) -> bool {
        &&& chunks_wf(self@.chunks)
        &&& self.pos <= STREAM_LIMIT
    }

    /// A source over `url` with an empty cache and the cursor at the start.
    /// `len` is the stream's length where it is known; `report_chunks` asks
    /// for a `ChunkAdded` event for each newly cached chunk.
    pub fn new(url: &str, len: Option<u64>, report_chunks: bool) -> (r: Self)
        ensures
            r.wf(),
            r@.chunks == Map::<u64, Seq<u8>>::empty(),
            r@.url == url@,
            r@.pos == 0,
            r@.len == len,
            r@.report_chunks == report_chunks,
    {
        let r = UrlSourceBuf {
            chunks: BTreeMap::new(),
            url: url.to_owned(),
            pos: 0,
            len,
            report_chunks,
        };
        assert(r@.chunks =~= Map::<u64, Seq<u8>>::empty());
        r
    }

    pub fn url(&self) -> (r: &str)
        ensures
            r@ == self@.url,
    {
        self.url.as_str()
    }

    /// The stream's length, where it is known.
    pub fn byte_len(&self) -> (r: Option<u64>)
        ensures
            r == self@.len,
    {
        self.len
    }

    /// The offset of the next byte to be read.
    pub fn position(&self) -> (r: u64)
        ensures
            r == self@.pos,
    {
        self.pos
    }

    /// The range request that fetches chunk `key`.
    pub fn chunk_range(key: u64) -> (r: ByteRange)
        requires
            key <= MAX_CHUNK_KEY,
        ensures
            r == (ByteRange {
                first: (key * CHUNK_SIZE) as u64,
                last: Some((key * CHUNK_SIZE + CHUNK_SIZE - 1) as u64),
            }),
    {
        let first = key * CHUNK_SIZE;
        ByteRange { first, last: Some(first + (CHUNK_SIZE - 1)) }
    }

    /// The index of the chunk that holds byte `p`.
    pub fn get_chunk_key(p: u64) -> (r: u64)
        ensures
            r == chunk_of(p as int),
    {
        p / CHUNK_SIZE
    }

    pub fn has_chunk(&self, key: u64) -> (r: bool)
        ensures
            r == self@.chunks.contains_key(key),
    {
        self.chunks.contains_key(&key)
    }

    /// Caches a freshly fetched chunk. A chunk that is already cached is kept
    /// as it was, and reported no second time.
    pub fn insert_chunk(&mut self, key: u64, chunk: Vec<u8>) -> (r: Result<
        Option<PlayerStatus>,
        SourceError,
    >)
        requires
            old(self).wf(),
            key <= MAX_CHUNK_KEY,
        ensures
            final(self).wf(),
            (final(self)@, r) == insert_outcome(old(self)@, key, chunk@),
            old(self)@.chunks.submap_of(final(self)@.chunks),
    {
        if chunk.len() as u64 != CHUNK_SIZE {
            return Err(SourceError::ShortChunk);
        }
        if self.has_chunk(key) {
            return Ok(None);
        }
        let ghost chunk_view = chunk@;
        self.chunks.insert(key, chunk);
        assert(self@.chunks =~= old(self)@.chunks.insert(key, chunk_view));
        let event = match self.len {
            Some(l) => if self.report_chunks && l > 0 {
                let start = key * CHUNK_SIZE;
                Some(
                    PlayerStatus::ChunkAdded(
                        ChunkSpan { start, end: start + CHUNK_SIZE, total: l },
                    ),
                )
            } else {
                None
            },
            None => None,
        };
        Ok(event)
    }

    /// Finds the first chunk of `first..=last` that is not cached.
    fn first_uncached(&self, first: u64, last: u64) -> (r: Option<u64>)
        requires
            first <= last <= MAX_CHUNK_KEY,
        ensures
            match r {
                Some(k) => first <= k <= last && !self@.chunks.contains_key(k) && keys_cached(
                    self@.chunks,
                    first as int,
                    k - 1,
                ),
                None => keys_cached(self@.chunks, first as int, last as int),
            },
    {
        let mut k = first;
        while k <= last
            invariant
                first <= k <= last + 1,
                last <= MAX_CHUNK_KEY,
                keys_cached(self@.chunks, first as int, k - 1),
            decreases last + 1 - k,
        {
            if !self.has_chunk(k) {
                return Some(k);
            }
            k = k + 1;
        }
        None
    }

    /// Reads `n` bytes at the cursor (fewer only at the end of the
    /// addressable range) and moves the cursor past them. Where a chunk of
    /// that range is not cached, nothing moves and the first such chunk is
    /// named instead.
    pub fn read(&mut self, n: usize) -> (r: SourceStep<Vec<u8>>)
        requires
            old(self).wf(),
        ensures
            final(self).wf(),
            same_but_pos(final(self)@, old(self)@),
            ({
                let m = read_len(old(self)@.pos, n);
                match r {
                    SourceStep::Ready(bytes) => range_cached(old(self)@.chunks, old(self)@.pos as int, m)
                        && bytes@ == stream_bytes(old(self)@.chunks, old(self)@.pos as int, m)
                        && final(self)@.pos == old(self)@.pos + m,
                    SourceStep::NeedChunk(k) => !range_cached(old(self)@.chunks, old(self)@.pos as int, m)
                        && first_missing(old(self)@.chunks, k, old(self)@.pos as int, m)
                        && final(self)@.pos == old(self)@.pos,
                }
            }),
    {
        let pos = self.pos;
        let m: u64 = if n as u64 > STREAM_LIMIT - pos {
            STREAM_LIMIT - pos
        } else {
            n as u64
        };
        let ghost chunks = self@.chunks;
        if m == 0 {
            let empty: Vec<u8> = Vec::new();
            assert(empty@ =~= stream_bytes(chunks, pos as int, 0));
            return SourceStep::Ready(empty);
        }
        let end = pos + m;
        let first = pos / CHUNK_SIZE;
        let last = (end - 1) / CHUNK_SIZE;
        match self.first_uncached(first, last) {
            Some(k) => {
                return SourceStep::NeedChunk(k);
            },
            None => {},
        }
        let mut out: Vec<u8> = Vec::new();
        let mut p = pos;
        while p < end
            invariant
                self@.chunks == chunks,
                chunks_wf(chunks),
                pos <= p <= end,
                end == pos + m,
                end <= STREAM_LIMIT,
                first == chunk_of(pos as int),
                last == chunk_of(end - 1),
                keys_cached(chunks, first as int, last as int),
                out@ == stream_bytes(chunks, pos as int, p - pos),
            decreases end - p,
        {
            let key = p / CHUNK_SIZE;
            let off = p % CHUNK_SIZE;
            proof {
                vstd::arithmetic::div_mod::lemma_div_is_ordered(pos as int, p as int, CHUNK_SIZE as int);
                vstd::arithmetic::div_mod::lemma_div_is_ordered(p as int, end - 1, CHUNK_SIZE as int);
            }
            assert(chunks.contains_key(key));
            assert(self.chunks@.contains_key(key));
            let chunk = self.chunks.get(&key).unwrap();
            assert(chunk@ == chunks[key]);
            let stop: u64 = if end - p < CHUNK_SIZE - off {
                off + (end - p)
            } else {
                CHUNK_SIZE
            };
            let mut i = off;
            while i < stop
                invariant
                    off <= i <= stop <= CHUNK_SIZE,
                    p == key * CHUNK_SIZE + off,
                    p + (stop - off) <= end,
                    chunk@ == chunks[key],
                    chunks.contains_key(key),
                    chunks_wf(chunks),
                    pos <= p,
                    out@ == stream_bytes(chunks, pos as int, p + (i - off) - pos),
                decreases stop - i,
            {
                proof {
                    lemma_chunk_offset(key as int, i as int);
                }
                out.push(chunk[i as usize]);
                assert(out@ =~= stream_bytes(chunks, pos as int, p + (i + 1 - off) - pos));
                i = i + 1;
            }
            p = p + (stop - off);
        }
        self.pos = end;
        SourceStep::Ready(out)
    }

    /// Moves the cursor. A target whose chunk is cached is reached at once;
    /// otherwise nothing moves and that chunk is named, to be fetched before
    /// the seek is retried.
    pub fn seek(&mut self, origin: SeekOrigin) -> (r: Result<SourceStep<u64>, SourceError>)
        requires
            old(self).wf(),
        ensures
            final(self).wf(),
            same_but_pos(final(self)@, old(self)@),
            match seek_target(old(self)@, origin) {
                None => r == Err::<SourceStep<u64>, SourceError>(SourceError::UnknownLength)
                    && final(self)@.pos == old(self)@.pos,
                Some(t) => if t < 0 {
                    r == Err::<SourceStep<u64>, SourceError>(SourceError::BeforeStart)
                        && final(self)@.pos == old(self)@.pos
                } else if t >= STREAM_LIMIT {
                    r == Err::<SourceStep<u64>, SourceError>(SourceError::PastEnd)
                        && final(self)@.pos == old(self)@.pos
                } else if old(self)@.chunks.contains_key(chunk_of(t) as u64) {
                    r == Ok::<SourceStep<u64>, SourceError>(SourceStep::Ready(t as u64))
                        && final(self)@.pos == t
                } else {
                    r == Ok::<SourceStep<u64>, SourceError>(SourceStep::NeedChunk(chunk_of(t) as u64))
                        && final(self)@.pos == old(self)@.pos
                },
            },
    {
        let target: i128 = match origin {
            SeekOrigin::Start(p) => p as i128,
            SeekOrigin::Current(d) => self.pos as i128 + d as i128,
            SeekOrigin::End(d) => match self.len {
                Some(l) => l as i128 + d as i128,
                None => {
                    return Err(SourceError::UnknownLength);
                },
            },
        };
        if target < 0 {
            return Err(SourceError::BeforeStart);
        }
        if target >= STREAM_LIMIT as i128 {
            return Err(SourceError::PastEnd);
        }
        let t = target as u64;
        let key = Self::get_chunk_key(t);
        if self.has_chunk(key) {
            self.pos = t;
            Ok(SourceStep::Ready(t))
        } else {
            Ok(SourceStep::NeedChunk(key))
        }
    }
}

/// A cache hit is served again without a fetch: where the chunks of a read
/// were all cached, the same read against any later cache (which keeps every
/// chunk it had) finds them all again and yields the same bytes.
pub proof fn lemma_cached_read_served_again(v: SourceView, w: SourceView, n: usize)
    requires
        v.chunks.submap_of(w.chunks),
        w.pos == v.pos,
        range_cached(v.chunks, v.pos as int, read_len(v.pos, n)),
    ensures
        range_cached(w.chunks, w.pos as int, read_len(w.pos, n)),
        stream_bytes(w.chunks, w.pos as int, read_len(w.pos, n)) == stream_bytes(
            v.chunks,
            v.pos as int,
            read_len(v.pos, n),
        ),
{
    let m = read_len(v.pos, n);
    if m > 0 {
        assert forall|k: u64| chunk_of(w.pos as int) <= k <= chunk_of(w.pos + m - 1) implies #[trigger]
            w.chunks.contains_key(k) by {
            assert(v.chunks.contains_key(k));
            assert(v.chunks.dom().contains(k) ==> w.chunks.dom().contains(k));
        }
    }
    assert forall|i: int| 0 <= i < m implies #[trigger] stream_bytes(w.chunks, w.pos as int, m)[i]
        == stream_bytes(v.chunks, v.pos as int, m)[i] by {
        let k = chunk_of(v.pos + i);
        vstd::arithmetic::div_mod::lemma_div_is_ordered(v.pos as int, v.pos + i, CHUNK_SIZE as int);
        vstd::arithmetic::div_mod::lemma_div_is_ordered(v.pos + i, v.pos + m - 1, CHUNK_SIZE as int);
        vstd::arithmetic::div_mod::lemma_div_pos_is_pos(v.pos + i, CHUNK_SIZE as int);
        let kk = k as u64;
        assert(v.chunks.contains_key(kk));
        assert(v.chunks.dom().contains(kk) ==> w.chunks.dom().contains(kk) && v.chunks[kk]
            == w.chunks[kk]);
    }
    assert(stream_bytes(w.chunks, w.pos as int, m) =~= stream_bytes(v.chunks, v.pos as int, m));
}

/// A seek into a cached chunk needs no fetch, now or against any later cache.
pub proof fn lemma_cached_seek_served_again(v: SourceView, w: SourceView, t: int)
    requires
        v.chunks.submap_of(w.chunks),
        0 <= t < STREAM_LIMIT,
        v.chunks.contains_key(chunk_of(t) as u64),
    ensures
        w.chunks.contains_key(chunk_of(t) as u64),
{
}

/// Each chunk is reported at most once: fetching a chunk that was just
/// cached again caches nothing and reports nothing, whatever was fetched.
pub proof fn lemma_chunk_reported_once(v: SourceView, key: u64, first: Seq<u8>, again: Seq<u8>)
    requires
        first.len() == CHUNK_SIZE,
        !v.chunks.contains_key(key),
    ensures
        ({
            let (v1, r1) = insert_outcome(v, key, first);
            let (v2, r2) = insert_outcome(v1, key, again);
            &&& r1 == Ok::<Option<PlayerStatus>, SourceError>(chunk_event(v, key))
            &&& !(r2 matches Ok(Some(_)))
            &&& v2 == v1
        }),
{
}

} // verus!
