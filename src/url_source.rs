//! HTTP range requests and lengths, and the uncached byte stream.
use vstd::prelude::*;
use vstd::string::StringSliceAdditionalSpecFns;

use crate::url_source_buff::{SeekOrigin, SourceError};

verus! {

/// The decimal digits of `n`, in ASCII, most significant first.
pub open spec fn decimal(n: nat) -> Seq<u8>
    decreases n,
{
    if n < 10 {
        seq![(48 + n) as u8]
    } else {
        decimal(n / 10).push((48 + n % 10) as u8)
    }
}

pub open spec fn is_digit(b: u8) -> bool {
    48 <= b <= 57
}

/// The number that a run of ASCII digits spells.
pub open spec fn digits_value(s: Seq<u8>) -> nat
    decreases s.len(),
{
    if s.len() == 0 {
        0
    } else {
        digits_value(s.take(s.len() - 1)) * 10 + (s.last() - 48) as nat
    }
}

/// `bytes=`
pub open spec fn range_prefix() -> Seq<u8> {
    seq![98u8, 121u8, 116u8, 101u8, 115u8, 61u8]
}

/// A byte range of an HTTP `Range` request: from `first` to `last`
/// inclusive, or to the end of the resource where `last` is `None`.
#[derive(PartialEq, Eq, Structural, Clone, Copy, Debug)]
pub struct ByteRange {
    pub first: u64,
    pub last: Option<u64>,
}

/// The value of the `Range` header that asks for `r`, in ASCII:
/// `bytes=<first>-` or `bytes=<first>-<last>`.
pub open spec fn range_header(r: ByteRange) -> Seq<u8> {
    let head = range_prefix() + decimal(r.first as nat) + seq![45u8];
    match r.last {
        Some(l) => head + decimal(l as nat),
        None => head,
    }
}

/// Appends the decimal digits of `n`.
fn push_decimal(out: &mut Vec<u8>, n: u64)
    ensures
        final(out)@ == old(out)@ + decimal(n as nat),
    decreases n,
{
    if n >= 10 {
        push_decimal(out, n / 10);
    }
    out.push((48 + n % 10) as u8);
    assert(final(out)@ =~= old(out)@ + decimal(n as nat));
}

impl ByteRange {
    /// The `Range` header value that asks for this range.
    pub fn header_value(&self) -> (r: Vec<u8>)
        ensures
            r@ == range_header(*self),
    {
        let mut out: Vec<u8> = Vec::new();
        out.push(98u8);
        out.push(121u8);
        out.push(116u8);
        out.push(101u8);
        out.push(115u8);
        out.push(61u8);
        assert(out@ =~= range_prefix());
        push_decimal(&mut out, self.first);
        out.push(45u8);
        assert(out@ =~= range_prefix() + decimal(self.first as nat) + seq![45u8]);
        match self.last {
            Some(l) => {
                push_decimal(&mut out, l);
            },
            None => {},
        }
        out
    }
}

/// Reads a `Content-Length` header value: one or more ASCII digits whose
/// number fits in a `u64`. Anything else gives `None`.
pub fn parse_content_length(s: &str) -> (r: Option<u64>)
    ensures
        r == (if s.spec_bytes().len() > 0 && (forall|i: int|
            0 <= i < s.spec_bytes().len() ==> is_digit(#[trigger] s.spec_bytes()[i]))
            && digits_value(s.spec_bytes()) <= u64::MAX {
            Some(digits_value(s.spec_bytes()) as u64)
        } else {
            None::<u64>
        }),
{
    let bytes = s.as_bytes();
    let ghost b = bytes@;
    if bytes.len() == 0 {
        return None;
    }
    let mut value: u64 = 0;
    let mut i: usize = 0;
    while i < bytes.len()
        invariant
            b == bytes@,
            b == s.spec_bytes(),
            i <= b.len(),
            forall|j: int| 0 <= j < i ==> is_digit(#[trigger] b[j]),
            value == digits_value(b.take(i as int)),
        decreases b.len() - i,
    {
        let c = bytes[i];
        assert(b.take(i + 1).take(i as int) =~= b.take(i as int));
        if c < 48 || c > 57 {
            return None;
        }
        let d = (c - 48) as u64;
        if value > (u64::MAX - d) / 10 {
            proof {
                lemma_digits_value_grows(b, i as int + 1);
            }
            return None;
        }
        value = value * 10 + d;
        i = i + 1;
    }
    assert(b.take(b.len() as int) =~= b);
    Some(value)
}

/// Once a prefix of a digit run spells too large a number, so does the
/// whole run.
proof fn lemma_digits_value_grows(s: Seq<u8>, k: int)
    requires
        0 <= k <= s.len(),
        forall|j: int| 0 <= j < k ==> is_digit(#[trigger] s[j]),
    ensures
        digits_value(s) >= digits_value(s.take(k)) || exists|j: int|
            0 <= j < s.len() && !is_digit(#[trigger] s[j]),
    decreases s.len() - k,
{
    if k < s.len() {
        if is_digit(s[k]) {
            lemma_digits_value_grows(s, k + 1);
            assert(s.take(k + 1).take(k) =~= s.take(k));
        }
    } else {
        assert(s.take(k) =~= s);
    }
}

/// A stream over a remote file that fetches from wherever it is sought to,
/// with no cache. Its length is not known.
pub struct UrlSource {
    url: String,
    pos: u64,
}

pub struct UrlSourceView {
    pub url: Seq<char>,
    pub pos: u64,
}

impl View for UrlSource {
    type V = UrlSourceView;

    closed spec fn view(&self) -> UrlSourceView {
        UrlSourceView { url: self.url@, pos: self.pos }
    }
}

impl UrlSource {
    pub fn new(url: &str) -> (r: Self)
        ensures
            r@ == (UrlSourceView { url: url@, pos: 0 }),
    {
        UrlSource { url: url.to_owned(), pos: 0 }
    }

    pub fn url(&self) -> (r: &str)
        ensures
            r@ == self@.url,
    {
        self.url.as_str()
    }

    pub fn position(&self) -> (r: u64)
        ensures
            r == self@.pos,
    {
        self.pos
    }

    /// Records that `n` bytes were read at the cursor.
    pub fn advance(&mut self, n: usize)
        ensures
            final(self)@.url == old(self)@.url,
            final(self)@.pos == (if old(self)@.pos + n > u64::MAX {
                u64::MAX as int
            } else {
                old(self)@.pos + n
            }),
    {
        self.pos = self.pos.saturating_add(n as u64);
    }

    /// Moves the cursor and gives the range to request from there on. The
    /// length is not known, so a seek from the end fails.
    pub fn seek(&mut self, origin: SeekOrigin) -> (r: Result<ByteRange, SourceError>)
        ensures
            final(self)@.url == old(self)@.url,
            ({
                let target = match origin {
                    SeekOrigin::Start(p) => Some(p as int),
                    SeekOrigin::Current(d) => Some(old(self)@.pos + d),
                    SeekOrigin::End(_) => None,
                };
                match target {
                    None => r == Err::<ByteRange, SourceError>(SourceError::UnknownLength)
                        && final(self)@.pos == old(self)@.pos,
                    Some(t) => if t < 0 {
                        r == Err::<ByteRange, SourceError>(SourceError::BeforeStart)
                            && final(self)@.pos == old(self)@.pos
                    } else if t > u64::MAX {
                        r == Err::<ByteRange, SourceError>(SourceError::PastEnd)
                            && final(self)@.pos == old(self)@.pos
                    } else {
                        r == Ok::<ByteRange, SourceError>(ByteRange { first: t as u64, last: None })
                            && final(self)@.pos == t
                    },
                }
            }),
    {
        let target: i128 = match origin {
            SeekOrigin::Start(p) => p as i128,
            SeekOrigin::Current(d) => self.pos as i128 + d as i128,
            SeekOrigin::End(_) => {
                return Err(SourceError::UnknownLength);
            },
        };
        if target < 0 {
            return Err(SourceError::BeforeStart);
        }
        if target > u64::MAX as i128 {
            return Err(SourceError::PastEnd);
        }
        self.pos = target as u64;
        Ok(ByteRange { first: self.pos, last: None })
    }
}

} // verus!
