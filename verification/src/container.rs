//! Parsing of container files.
//!
//! A container file is a flat, header-less concatenation of fixed-layout
//! records, each one label byte followed by a full pixel buffer. A file
//! whose length is an exact multiple of the record size parses cleanly;
//! any other length means the file ends with a label byte that is not
//! followed by a complete pixel block. That truncation is reported as
//! corruption, distinct from a clean end of file — but the complete
//! records before it are still extracted: a failure at the tail of a
//! stream does not discard the work its prefix carries.

use vstd::prelude::*;
use vstd::arithmetic::div_mod::{lemma_fundamental_div_mod, lemma_mod_bound};
use crate::{PIXEL_BYTES, RECORD_BYTES, PipelineError};

verus! {

/// One record parsed from a container file: a label byte and the pixel
/// buffer that follows it.
#[derive(Debug, PartialEq, Eq)]
pub struct Record {
    /// Index of the record's label in the label table.
    pub label: u8,
    /// The raw pixel buffer, top-down rows of RGB triples.
    pub pixels: Vec<u8>,
}

impl Record {
    /// A record is well formed when it carries a full pixel buffer.
    pub open spec fn wf(self) -> bool {
        self.pixels@.len() == PIXEL_BYTES
    }
}

/// The number of complete leading records in container bytes of length
/// `len`; bytes past the last complete record belong to a truncated
/// trailing record.
pub open spec fn record_count(len: int) -> int {
    len / RECORD_BYTES as int
}

/// True exactly when container bytes of length `len` are a whole number
/// of records.
pub open spec fn complete_records(len: int) -> bool {
    len % RECORD_BYTES as int == 0
}

/// The label byte of record `i` of container bytes `data`.
pub open spec fn record_label(data: Seq<u8>, i: int) -> u8 {
    data[i * RECORD_BYTES as int]
}

/// The pixel buffer of record `i` of container bytes `data`.
pub open spec fn record_pixels(data: Seq<u8>, i: int) -> Seq<u8> {
    data.subrange(i * RECORD_BYTES as int + 1, (i + 1) * RECORD_BYTES as int)
}

/// The span of complete record `i` lies within the container bytes, and
/// its pixel buffer is full.
pub proof fn lemma_record_bounds(data: Seq<u8>, i: int)
    requires
        0 <= i < record_count(data.len() as int),
    ensures
        0 <= i * RECORD_BYTES as int,
        (i + 1) * RECORD_BYTES as int <= data.len(),
        (i + 1) * RECORD_BYTES as int == i * RECORD_BYTES as int + RECORD_BYTES as int,
        record_pixels(data, i).len() == PIXEL_BYTES,
{
    let len = data.len() as int;
    let r = RECORD_BYTES as int;
    let cnt = record_count(len);
    lemma_fundamental_div_mod(len, r);
    lemma_mod_bound(len, r);
    assert(cnt * r == r * cnt) by (nonlinear_arith);
    assert(0 <= i * r && (i + 1) * r <= cnt * r && (i + 1) * r == i * r + r) by (nonlinear_arith)
        requires
            0 <= i < cnt,
            r > 0,
    ;
}

/// Parse a container file into its complete leading records.
///
/// Every complete record is yielded, in order, with its label byte and
/// its full pixel buffer — an empty container yields zero records and no
/// error. When, and only when, the bytes are not a whole number of
/// records, the container additionally ends with a label byte not
/// followed by a complete pixel block; that truncation is reported
/// beside the records, so the prefix it follows is never lost.
pub fn parse_container(data: &Vec<u8>) -> (r: (Vec<Record>, Option<PipelineError>))
    ensures
        r.0@.len() == record_count(data@.len() as int),
        forall|i: int|
            0 <= i < r.0@.len() ==> (#[trigger] r.0@[i]).label == record_label(data@, i),
        forall|i: int|
            0 <= i < r.0@.len() ==> (#[trigger] r.0@[i]).pixels@ == record_pixels(data@, i),
        forall|i: int| 0 <= i < r.0@.len() ==> (#[trigger] r.0@[i]).wf(),
        r.1 is Some <==> !complete_records(data@.len() as int),
        r.1 matches Some(e) ==> e == PipelineError::TruncatedRecord,
{
    let n = data.len() / RECORD_BYTES;
    proof {
        lemma_fundamental_div_mod(data@.len() as int, RECORD_BYTES as int);
        lemma_mod_bound(data@.len() as int, RECORD_BYTES as int);
        assert(n * RECORD_BYTES == RECORD_BYTES * n) by (nonlinear_arith);
    }
    let mut recs: Vec<Record> = Vec::new();
    let mut i: usize = 0;
    let mut off: usize = 0;
    while i < n
        invariant
            i <= n,
            off == i * RECORD_BYTES,
            n * RECORD_BYTES <= data@.len(),
            data@.len() <= usize::MAX,
            recs@.len() == i,
            forall|k: int|
                0 <= k < i ==> (#[trigger] recs@[k]).label == record_label(data@, k),
            forall|k: int|
                0 <= k < i ==> (#[trigger] recs@[k]).pixels@ == record_pixels(data@, k),
            forall|k: int| 0 <= k < i ==> (#[trigger] recs@[k]).wf(),
        decreases n - i,
    {
        proof {
            assert((i + 1) * RECORD_BYTES <= n * RECORD_BYTES) by (nonlinear_arith)
                requires
                    i < n,
            ;
            assert((i + 1) * RECORD_BYTES == i * RECORD_BYTES + RECORD_BYTES) by (nonlinear_arith);
        }
        let label = data[off];
        let mut pixels: Vec<u8> = Vec::with_capacity(PIXEL_BYTES);
        let mut j: usize = 0;
        while j < PIXEL_BYTES
            invariant
                j <= PIXEL_BYTES,
                off + RECORD_BYTES <= data@.len(),
                data@.len() <= usize::MAX,
                pixels@.len() == j,
                forall|k: int| 0 <= k < j ==> pixels@[k] == data@[off + 1 + k],
            decreases PIXEL_BYTES - j,
        {
            pixels.push(data[off + 1 + j]);
            j = j + 1;
        }
        proof {
            assert(pixels@ =~= record_pixels(data@, i as int));
        }
        recs.push(Record { label, pixels });
        off = off + RECORD_BYTES;
        i = i + 1;
    }
    let trailing = if data.len() % RECORD_BYTES != 0 {
        Some(PipelineError::TruncatedRecord)
    } else {
        None
    };
    (recs, trailing)
}

} // verus!
