//! Index ranges into a message buffer, and the grouped ranges produced by
//! the tokenizer for tags and for the origin prefix.

use vstd::prelude::*;

verus! {

/// A half-open range `start..end` of byte indices into a message buffer.
#[derive(Clone, Copy, Debug, PartialEq, Eq, Structural)]
pub struct Span {
    pub start: usize,
    pub end: usize,
}

impl Span {
    /// The range is ordered and lies within a buffer of length `len`.
    pub open spec fn wf(self, len: int) -> bool {
        self.start <= self.end <= len
    }

    /// The bytes of `s` that the range selects.
    pub open spec fn select(self, s: Seq<u8>) -> Seq<u8> {
        s.subrange(self.start as int, self.end as int)
    }
}

/// The ranges of one metadata tag: its key and, where the tag carried
/// one, its value.
#[derive(Clone, Copy, Debug, PartialEq, Eq)]
pub struct TagSpan {
    pub key: Span,
    pub value: Option<Span>,
}

impl TagSpan {
    pub open spec fn wf(self, len: int) -> bool {
        &&& self.key.wf(len)
        &&& (self.value matches Some(v) ==> v.wf(len))
    }

    /// The key bytes and optional value bytes that the ranges select.
    pub open spec fn select(self, s: Seq<u8>) -> (Seq<u8>, Option<Seq<u8>>) {
        (
            self.key.select(s),
            match self.value {
                Some(v) => Some(v.select(s)),
                None => None,
            },
        )
    }
}

/// The ranges of an origin prefix: the full prefix text after the leading
/// `:`, the origin itself, and the optional user and host parts.
#[derive(Clone, Copy, Debug, PartialEq, Eq)]
pub struct PrefixSpans {
    pub raw: Span,
    pub origin: Span,
    pub user: Option<Span>,
    pub host: Option<Span>,
}

impl PrefixSpans {
    pub open spec fn wf(self, len: int) -> bool {
        &&& self.raw.wf(len)
        &&& self.origin.wf(len)
        &&& (self.user matches Some(u) ==> u.wf(len))
        &&& (self.host matches Some(h) ==> h.wf(len))
    }
}

/// The byte strings that a list of ranges selects out of `s`, in order.
pub open spec fn select_views(spans: Seq<Span>, s: Seq<u8>) -> Seq<Seq<u8>> {
    spans.map_values(|sp: Span| sp.select(s))
}

/// The `(key, value?)` pairs that a list of tag ranges selects out of
/// `s`, in order.
pub open spec fn select_tag_views(spans: Seq<TagSpan>, s: Seq<u8>) -> Seq<
    (Seq<u8>, Option<Seq<u8>>),
> {
    spans.map_values(|ts: TagSpan| ts.select(s))
}

} // verus!
