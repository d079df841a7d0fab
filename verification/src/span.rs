//! The packed span codec: one 64-bit word holding (file, start, end).
//!
//! Layout: `file` in bits 48..64, `start` in bits 24..48, `end` in bits
//! 0..24. Values outside those widths are truncated rather than rejected,
//! a documented limit: at most 16M characters per file, at most 65535
//! files.

use vstd::prelude::*;
use crate::id::LiveFileId;

verus! {

/// A lightweight source location: (file, start, end) packed in one word.
#[derive(Clone, Copy, Debug, Default, Eq, Ord, PartialOrd, PartialEq, Structural)]
pub struct Span {
    pub store: u64,
}

/// The packed word over a file id and a start/end character range.
pub open spec fn span_word(live_file_id: LiveFileId, start: usize, end: usize) -> u64 {
    (((live_file_id.0 as u64) & 0xffff) << 48) | (((start as u64) & 0xffffff) << 24) | ((
    end as u64) & 0xffffff)
}

/// The start offset stored in a span word.
pub open spec fn spec_span_start(s: Span) -> usize {
    ((s.store >> 24) & 0xffffff) as usize
}

/// The end offset stored in a span word.
pub open spec fn spec_span_end(s: Span) -> usize {
    (s.store & 0xffffff) as usize
}

/// The file id stored in a span word.
pub open spec fn spec_span_file(s: Span) -> LiveFileId {
    LiveFileId(((s.store >> 48) & 0xffff) as u16)
}

impl Span {
    /// Packs (file, start, end); offsets at or above 2^24 are truncated.
    pub fn new(live_file_id: LiveFileId, start: usize, end: usize) -> (r: Self)
        ensures
            r.store == span_word(live_file_id, start, end),
    {
        Span {
            store: (((live_file_id.0 as u64) & 0xffff) << 48) | (((start as u64) & 0xffffff)
                << 24) | ((end as u64) & 0xffffff),
        }
    }

    /// The start offset of this span.
    pub fn start(&self) -> (r: usize)
        ensures
            r == spec_span_start(*self),
    {
        proof {
            let w = self.store;
            assert((w >> 24) & 0xffffff < 0x100_0000) by (bit_vector);
        }
        ((self.store >> 24) & 0xffffff) as usize
    }

    /// The end offset of this span.
    pub fn end(&self) -> (r: usize)
        ensures
            r == spec_span_end(*self),
    {
        proof {
            let w = self.store;
            assert(w & 0xffffff < 0x100_0000) by (bit_vector);
        }
        (self.store & 0xffffff) as usize
    }

    /// The length of this span. A span packed from a range with
    /// `start <= end` always satisfies the bound.
    pub fn len(&self) -> (r: usize)
        requires
            spec_span_start(*self) <= spec_span_end(*self),
        ensures
            r == spec_span_end(*self) - spec_span_start(*self),
    {
        self.end() - self.start()
    }

    /// The file id of this span.
    pub fn live_file_id(&self) -> (r: LiveFileId)
        ensures
            r == spec_span_file(*self),
    {
        proof {
            let w = self.store;
            assert((w >> 48) & 0xffff < 0x1_0000) by (bit_vector);
        }
        LiveFileId::index(((self.store >> 48) & 0xffff) as usize)
    }
}

/// Packing a span and reading it back recovers file, start and end exactly
/// for every in-range input, and its length is `end - start`.
pub proof fn lemma_span_roundtrip(live_file_id: LiveFileId, start: usize, end: usize)
    requires
        start < 0x100_0000,
        end < 0x100_0000,
    ensures
        spec_span_start(Span { store: span_word(live_file_id, start, end) }) == start,
        spec_span_end(Span { store: span_word(live_file_id, start, end) }) == end,
        spec_span_file(Span { store: span_word(live_file_id, start, end) }) == live_file_id,
        start <= end ==> spec_span_end(Span { store: span_word(live_file_id, start, end) })
            - spec_span_start(Span { store: span_word(live_file_id, start, end) }) == end - start,
{
    let f = live_file_id.0 as u64;
    let s = start as u64;
    let e = end as u64;
    assert(f < 0x1_0000 && s < 0x100_0000 && e < 0x100_0000 ==> ((((((f & 0xffff) << 48) | ((s
        & 0xffffff) << 24) | (e & 0xffffff)) >> 24) & 0xffffff) == s) && (((((f & 0xffff) << 48)
        | ((s & 0xffffff) << 24) | (e & 0xffffff)) & 0xffffff) == e) && ((((((f & 0xffff) << 48)
        | ((s & 0xffffff) << 24) | (e & 0xffffff)) >> 48) & 0xffff) == f)) by (bit_vector);
}

} // verus!
