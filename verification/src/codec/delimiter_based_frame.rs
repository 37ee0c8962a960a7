//! Frames separated by one of several delimiters.
use bytes::{Bytes, BytesMut};
use vstd::prelude::*;

use crate::buf::{bytes_as_slice, bytes_copy_from_slice, bytes_mut_as_slice, bytes_mut_extend, bytes_mut_freeze, bytes_mut_split_to, bytes_mut_view, bytes_view};
use crate::codec::{Decoder, Encoder};
use crate::search::{find_from, first_match, lemma_first_match_is, lemma_first_match_some, matches_at};
use crate::{Error, Result};

verus! {

/// Codec whose frames end at the earliest delimiter, with the delimiter
/// stripped or kept.
pub struct DelimiterBasedFrameDecoder {
    max_frame_length: usize,
    delimiters: Vec<Bytes>,
    strip_delimiter: bool,
}

/// Where delimiter `k` first occurs in `s`, with its length.
pub open spec fn hit_of(s: Seq<u8>, ds: Seq<Seq<u8>>, k: int) -> Option<(int, int)> {
    match first_match(s, ds[k]) {
        Some(pos) => Some((pos, ds[k].len() as int)),
        None => None,
    }
}

/// Hits are ordered by position, then by delimiter length.
pub open spec fn hit_le(a: (int, int), b: (int, int)) -> bool {
    a.0 < b.0 || (a.0 == b.0 && a.1 <= b.1)
}

/// `h` is the least hit of any delimiter in `s`.
pub open spec fn is_best_hit(s: Seq<u8>, ds: Seq<Seq<u8>>, h: (int, int)) -> bool {
    &&& exists|k: int| 0 <= k < ds.len() && hit_of(s, ds, k) == Some(h)
    &&& forall|k: int| 0 <= k < ds.len() && #[trigger] hit_of(s, ds, k) is Some
        ==> hit_le(h, hit_of(s, ds, k)->0)
}

/// The earliest delimiter occurrence in `s` (the shorter delimiter where two
/// start at the same index), as (frame end, delimiter length).
pub open spec fn best_hit(s: Seq<u8>, ds: Seq<Seq<u8>>) -> Option<(int, int)> {
    if exists|k: int| 0 <= k < ds.len() && #[trigger] hit_of(s, ds, k) is Some {
        Some(choose|h: (int, int)| is_best_hit(s, ds, h))
    } else {
        None
    }
}

proof fn lemma_best_hit_is(s: Seq<u8>, ds: Seq<Seq<u8>>, h: (int, int))
    requires
        is_best_hit(s, ds, h),
    ensures
        best_hit(s, ds) == Some(h),
{
    let k = choose|k: int| 0 <= k < ds.len() && hit_of(s, ds, k) == Some(h);
    assert(hit_of(s, ds, k) is Some);
    let g = choose|g: (int, int)| is_best_hit(s, ds, g);
    let kg = choose|kg: int| 0 <= kg < ds.len() && hit_of(s, ds, kg) == Some(g);
    assert(hit_of(s, ds, kg) is Some);
    assert(hit_le(g, h) && hit_le(h, g));
}

impl DelimiterBasedFrameDecoder {
    /// The delimiters, as byte sequences.
    pub closed spec fn delimiters(&self) -> Seq<Seq<u8>> {
        self.delimiters@.map_values(|d: Bytes| bytes_view(d))
    }

    /// The longest frame accepted, in bytes.
    pub closed spec fn max_frame_length(&self) -> usize {
        self.max_frame_length
    }

    /// Whether the delimiter is dropped from decoded frames.
    pub closed spec fn strips_delimiter(&self) -> bool {
        self.strip_delimiter
    }

    /// There is at least one delimiter and none is empty.
    #[verifier::type_invariant]
    closed spec fn inv(&self) -> bool {
        &&& self.delimiters@.len() > 0
        &&& forall|k: int| 0 <= k < self.delimiters@.len() ==> bytes_view(#[trigger] self.delimiters@[k]).len() > 0
    }

    /// A decoder with one delimiter, which must not be empty.
    pub fn new(max_frame_length: usize, delimiter: Bytes) -> (r: Self)
        requires
            bytes_view(delimiter).len() > 0,
        ensures
            r.max_frame_length() == max_frame_length,
            r.delimiters() == seq![bytes_view(delimiter)],
            r.strips_delimiter(),
    {
        let mut delimiters = Vec::new();
        delimiters.push(delimiter);
        Self::new_many(max_frame_length, delimiters)
    }

    /// A decoder with one delimiter copied from `delimiter`, or `None` when
    /// it is empty, which [`DelimiterBasedFrameDecoder::new`] refuses.
    pub fn from_slice(max_frame_length: usize, delimiter: &[u8]) -> (r: Option<Self>)
        ensures
            r is Some <==> delimiter@.len() > 0,
            r matches Some(d) ==> d.max_frame_length() == max_frame_length && d.delimiters() == seq![delimiter@]
                && d.strips_delimiter(),
    {
        if delimiter.len() == 0 {
            return None;
        }
        Some(Self::new(max_frame_length, bytes_copy_from_slice(delimiter)))
    }

    /// A decoder with several delimiters: there must be at least one, and
    /// none may be empty.
    pub fn new_many(max_frame_length: usize, delimiters: Vec<Bytes>) -> (r: Self)
        requires
            delimiters@.len() > 0,
            forall|k: int| 0 <= k < delimiters@.len() ==> bytes_view(#[trigger] delimiters@[k]).len() > 0,
        ensures
            r.max_frame_length() == max_frame_length,
            r.delimiters() == delimiters@.map_values(|d: Bytes| bytes_view(d)),
            r.strips_delimiter(),
    {
        Self { max_frame_length, delimiters, strip_delimiter: true }
    }

    /// Chooses whether decoded frames keep their delimiter.
    pub fn strip_delimiter(self, strip_delimiter: bool) -> (r: Self)
        ensures
            r.max_frame_length() == self.max_frame_length(),
            r.delimiters() == self.delimiters(),
            r.strips_delimiter() == strip_delimiter,
    {
        proof {
            use_type_invariant(&self);
        }
        Self {
            max_frame_length: self.max_frame_length,
            delimiters: self.delimiters,
            strip_delimiter,
        }
    }

    /// A decoder for lines ending in `\r\n` or `\n`.
    pub fn line_delimiter(max_frame_length: usize) -> (r: Self)
        ensures
            r.max_frame_length() == max_frame_length,
            r.delimiters() == seq![seq![13u8, 10u8], seq![10u8]],
            r.strips_delimiter(),
    {
        let crlf: [u8; 2] = [13u8, 10u8];
        let lf: [u8; 1] = [10u8];
        let mut delimiters = Vec::new();
        delimiters.push(bytes_copy_from_slice(crlf.as_slice()));
        delimiters.push(bytes_copy_from_slice(lf.as_slice()));
        assert(crlf@ =~= seq![13u8, 10u8]);
        assert(lf@ =~= seq![10u8]);
        let r = Self::new_many(max_frame_length, delimiters);
        assert(r.delimiters() =~= seq![seq![13u8, 10u8], seq![10u8]]);
        r
    }

    /// The earliest occurrence of any delimiter, as (frame end, delimiter length).
    fn find_delimiter(&self, src: &[u8]) -> (r: Option<(usize, usize)>)
        ensures
            r is None <==> best_hit(src@, self.delimiters()) is None,
            r matches Some(h) ==> best_hit(src@, self.delimiters()) == Some((h.0 as int, h.1 as int))
                && h.0 + h.1 <= src@.len(),
    {
        proof {
            use_type_invariant(self);
        }
        let ghost ds = self.delimiters();
        let mut best: Option<(usize, usize)> = None;
        let mut k: usize = 0;
        assert(src@.skip(0) =~= src@);
        while k < self.delimiters.len()
            invariant
                0 <= k <= self.delimiters@.len(),
                ds == self.delimiters(),
                ds.len() == self.delimiters@.len(),
                forall|j: int| 0 <= j < self.delimiters@.len() ==> bytes_view(#[trigger] self.delimiters@[j]).len() > 0,
                src@.skip(0) == src@,
                best is None ==> forall|j: int| 0 <= j < k ==> #[trigger] hit_of(src@, ds, j) is None,
                best matches Some(h) ==> {
                    &&& exists|j: int| 0 <= j < k && hit_of(src@, ds, j) == Some((h.0 as int, h.1 as int))
                    &&& forall|j: int| 0 <= j < k && #[trigger] hit_of(src@, ds, j) is Some
                        ==> hit_le((h.0 as int, h.1 as int), hit_of(src@, ds, j)->0)
                    &&& h.0 + h.1 <= src@.len()
                },
            decreases self.delimiters@.len() - k,
        {
            let d = bytes_as_slice(&self.delimiters[k]);
            assert(d@ == ds[k as int]);
            let found = find_from(src, d, 0);
            let ghost old_best = best;
            proof {
                if let Some(ob) = old_best {
                    let w = choose|j: int| 0 <= j < k && hit_of(src@, ds, j) == Some((ob.0 as int, ob.1 as int));
                    assert(0 <= w < k + 1 && hit_of(src@, ds, w) == Some((ob.0 as int, ob.1 as int)));
                }
            }
            match found {
                None => {
                    assert(hit_of(src@, ds, k as int) is None);
                },
                Some(pos) => {
                    assert(hit_of(src@, ds, k as int) == Some((pos as int, d@.len() as int)));
                    let better = match best {
                        None => true,
                        Some((bp, bl)) => pos < bp || (pos == bp && d.len() < bl),
                    };
                    if better {
                        best = Some((pos, d.len()));
                    }
                },
            }
            proof {
                assert forall|j: int| 0 <= j < k + 1 && #[trigger] hit_of(src@, ds, j) is Some implies
                    best is Some && hit_le(((best->0).0 as int, (best->0).1 as int), hit_of(src@, ds, j)->0) by {
                }
            }
            k = k + 1;
        }
        match best {
            None => {},
            Some(h) => {
                proof {
                    lemma_best_hit_is(src@, ds, (h.0 as int, h.1 as int));
                }
            },
        }
        best
    }
}

impl Decoder for DelimiterBasedFrameDecoder {
    type Item = Bytes;

    /// Every configuration can be run.
    open spec fn decodable(&self) -> bool {
        true
    }

    /// Takes the bytes up to the earliest delimiter, or waits for one
    /// unless the buffer is already over the limit.
    fn decode(&mut self, src: &mut BytesMut) -> (res: Result<Option<Bytes>>)
        ensures
            final(self).delimiters() == old(self).delimiters(),
            final(self).max_frame_length() == old(self).max_frame_length(),
            final(self).strips_delimiter() == old(self).strips_delimiter(),
            ({
                let s = bytes_mut_view(*old(src));
                let max = old(self).max_frame_length();
                match best_hit(s, old(self).delimiters()) {
                    None => {
                        &&& bytes_mut_view(*final(src)) == s
                        &&& s.len() > max ==> (res matches Err(Error::FrameTooLarge { current, max: m })
                            && current == s.len() && m == max)
                        &&& s.len() <= max ==> res matches Ok(None)
                    },
                    Some((end, dlen)) => if end > max {
                        &&& bytes_mut_view(*final(src)) == s
                        &&& res matches Err(Error::FrameTooLarge { current, max: m })
                        &&& current == end && m == max
                    } else {
                        &&& bytes_mut_view(*final(src)) == s.skip(end + dlen)
                        &&& res matches Ok(Some(frame))
                        &&& old(self).strips_delimiter() ==> bytes_view(frame) == s.take(end)
                        &&& !old(self).strips_delimiter() ==> bytes_view(frame) == s.take(end + dlen)
                    },
                }
            }),
    {
        let slice = bytes_mut_as_slice(src);
        let len = slice.len();
        let found = self.find_delimiter(slice);
        match found {
            None => {
                if len > self.max_frame_length {
                    return Err(Error::FrameTooLarge { current: len, max: self.max_frame_length });
                }
                Ok(None)
            },
            Some((frame_end, delimiter_len)) => {
                if frame_end > self.max_frame_length {
                    return Err(Error::FrameTooLarge { current: frame_end, max: self.max_frame_length });
                }
                let mut frame = bytes_mut_split_to(src, frame_end + delimiter_len);
                if self.strip_delimiter {
                    let head = bytes_mut_split_to(&mut frame, frame_end);
                    return Ok(Some(bytes_mut_freeze(head)));
                }
                Ok(Some(bytes_mut_freeze(frame)))
            },
        }
    }
}

impl Encoder<Bytes> for DelimiterBasedFrameDecoder {
    /// Appends the frame and the first delimiter.
    fn encode(&mut self, item: Bytes, dst: &mut BytesMut) -> (res: Result<()>)
        ensures
            final(self).delimiters() == old(self).delimiters(),
            final(self).max_frame_length() == old(self).max_frame_length(),
            final(self).strips_delimiter() == old(self).strips_delimiter(),
            res is Ok,
            bytes_mut_view(*final(dst)) == bytes_mut_view(*old(dst)) + bytes_view(item)
                + old(self).delimiters()[0],
    {
        proof {
            use_type_invariant(&*self);
        }
        bytes_mut_extend(dst, bytes_as_slice(&item));
        bytes_mut_extend(dst, bytes_as_slice(&self.delimiters[0]));
        Ok(())
    }
}


/// What the encoder writes, a frame followed by the first delimiter, is
/// found again by the decoder, whatever bytes follow: the earliest delimiter
/// ends right after the frame and is the first one. This holds when no
/// delimiter starts inside the frame and none shorter than the first one
/// starts right after it.
pub proof fn lemma_delimiter_roundtrip(ds: Seq<Seq<u8>>, item: Seq<u8>, rest: Seq<u8>)
    requires
        ds.len() > 0,
        forall|k: int, j: int|
            0 <= k < ds.len() && 0 <= j < item.len() ==> !#[trigger] matches_at(item + ds[0] + rest, ds[k], j),
        forall|k: int|
            0 <= k < ds.len() && #[trigger] matches_at(item + ds[0] + rest, ds[k], item.len() as int) ==> ds[0].len()
                <= ds[k].len(),
    ensures
        best_hit(item + ds[0] + rest, ds) == Some((item.len() as int, ds[0].len() as int)),
{
    let s = item + ds[0] + rest;
    let n = item.len() as int;
    let h = (n, ds[0].len() as int);
    assert(s.subrange(n, n + ds[0].len()) =~= ds[0]);
    assert(matches_at(s, ds[0], n));
    assert forall|j: int| 0 <= j < n implies !matches_at(s, ds[0], j) by {
        assert(!matches_at(s, ds[0], j));
    }
    lemma_first_match_is(s, ds[0], n);
    assert(hit_of(s, ds, 0) == Some(h));
    assert forall|k: int| 0 <= k < ds.len() && #[trigger] hit_of(s, ds, k) is Some implies hit_le(
        h,
        hit_of(s, ds, k)->0,
    ) by {
        lemma_first_match_some(s, ds[k]);
        let pos = first_match(s, ds[k])->0;
        assert(matches_at(s, ds[k], pos));
        if pos < n {
            assert(!matches_at(s, ds[k], pos));
        }
    }
    lemma_best_hit_is(s, ds, h);
}

} // verus!
