//! Typed access to the metadata tags of a message.
//!
//! A type that implements [`Tag`] names the tag key it matches and can
//! interpret that tag's optional value; the default search scans the
//! tag sequence for the first pair whose key equals the name.

use crate::command::bytes_eq;
use crate::span::TagSpan;
use vstd::prelude::*;
use vstd::slice::slice_subrange;

verus! {

/// A double-ended cursor over the `(key, value?)` tag pairs of a
/// `Message`, lazily resolving index ranges into byte slices of the
/// shared buffer.
pub struct TagIter<'a> {
    source: &'a [u8],
    spans: &'a [TagSpan],
    front: usize,
    back: usize,
}

impl<'a> TagIter<'a> {
    #[verifier::type_invariant]
    spec fn inv(self) -> bool {
        &&& self.front <= self.back <= self.spans@.len()
        &&& forall|i: int|
            0 <= i < self.spans@.len() ==> (#[trigger] self.spans@[i]).wf(self.source@.len() as int)
    }

    /// The tag pairs not yet consumed, front to back.
    pub closed spec fn remaining(self) -> Seq<(Seq<u8>, Option<Seq<u8>>)> {
        self.spans@.subrange(self.front as int, self.back as int).map_values(
            |ts: TagSpan| ts.select(self.source@),
        )
    }

    /// A fresh cursor over all of `spans`, each range resolved against
    /// `source`.
    pub fn new(source: &'a [u8], spans: &'a [TagSpan]) -> (r: TagIter<'a>)
        requires
            forall|i: int| 0 <= i < spans@.len() ==> (#[trigger] spans@[i]).wf(source@.len() as int),
        ensures
            r.remaining() == spans@.map_values(|ts: TagSpan| ts.select(source@)),
    {
        let r = TagIter { source, spans, front: 0, back: spans.len() };
        proof {
            assert(r.spans@.subrange(0, r.spans@.len() as int) =~= r.spans@);
        }
        r
    }

    /// The next tag pair from the front, or `None` when the cursor is
    /// exhausted.
    pub fn next(&mut self) -> (r: Option<(&'a [u8], Option<&'a [u8]>)>)
        ensures
            match r {
                Some(p) => {
                    &&& old(self).remaining().len() > 0
                    &&& p.0@ == old(self).remaining()[0].0
                    &&& (match p.1 {
                        Some(v) => Some(v@),
                        None => None::<Seq<u8>>,
                    }) == old(self).remaining()[0].1
                    &&& final(self).remaining() == old(self).remaining().drop_first()
                },
                None => old(self).remaining().len() == 0 && final(self).remaining() == old(
                    self,
                ).remaining(),
            },
    {
        proof {
            use_type_invariant(&*self);
        }
        if self.front < self.back {
            let ts = self.spans[self.front];
            let key = slice_subrange(self.source, ts.key.start, ts.key.end);
            let value = match ts.value {
                Some(v) => Some(slice_subrange(self.source, v.start, v.end)),
                None => None,
            };
            let ghost prev = *self;
            self.front = self.front + 1;
            proof {
                assert(self.remaining() =~= prev.remaining().drop_first());
            }
            Some((key, value))
        } else {
            None
        }
    }

    /// The next tag pair from the back, or `None` when the cursor is
    /// exhausted.
    pub fn next_back(&mut self) -> (r: Option<(&'a [u8], Option<&'a [u8]>)>)
        ensures
            match r {
                Some(p) => {
                    &&& old(self).remaining().len() > 0
                    &&& p.0@ == old(self).remaining().last().0
                    &&& (match p.1 {
                        Some(v) => Some(v@),
                        None => None::<Seq<u8>>,
                    }) == old(self).remaining().last().1
                    &&& final(self).remaining() == old(self).remaining().drop_last()
                },
                None => old(self).remaining().len() == 0 && final(self).remaining() == old(
                    self,
                ).remaining(),
            },
    {
        proof {
            use_type_invariant(&*self);
        }
        if self.front < self.back {
            let ts = self.spans[self.back - 1];
            let key = slice_subrange(self.source, ts.key.start, ts.key.end);
            let value = match ts.value {
                Some(v) => Some(slice_subrange(self.source, v.start, v.end)),
                None => None,
            };
            let ghost prev = *self;
            self.back = self.back - 1;
            proof {
                assert(self.remaining() =~= prev.remaining().drop_last());
            }
            Some((key, value))
        } else {
            None
        }
    }
}

/// The value of the first tag pair whose key equals `key`: `None` when
/// no pair matches, otherwise that pair's optional value.
pub open spec fn spec_find_tag(tags: Seq<(Seq<u8>, Option<Seq<u8>>)>, key: Seq<u8>) -> Option<
    Option<Seq<u8>>,
>
    decreases tags.len(),
{
    if tags.len() == 0 {
        None
    } else if tags[0].0 == key {
        Some(tags[0].1)
    } else {
        spec_find_tag(tags.drop_first(), key)
    }
}

/// The capability implemented by every typed tag shape.
///
/// The default search scans the tag sequence for the first pair whose
/// key equals the shape's name, then asks `parse` to interpret that
/// pair's optional value.  A missing key or an uninterpretable value is
/// no match, never an error.
pub trait Tag: Sized {
    /// The key of the tag this shape matches.
    spec fn name_spec() -> Seq<u8>;

    /// Which results `parse` may return from the given optional value:
    /// the typed shape read from it, or no match.
    spec fn parse_matches(value: Option<Seq<u8>>, r: Option<Self>) -> bool;

    /// The key of the tag, as bytes.
    fn name() -> (r: Vec<u8>)
        ensures
            r@ == Self::name_spec(),
    ;

    /// Attempts to interpret the tag's optional value as this shape.
    fn parse(value: Option<&[u8]>) -> (r: Option<Self>)
        ensures
            Self::parse_matches(
                match value {
                    Some(v) => Some(v@),
                    None => None,
                },
                r,
            ),
    ;

    /// Searches the tags for the first pair keyed by this shape's name
    /// and delegates its value to `parse`; no pair is no match.
    fn try_match(tags: TagIter<'_>) -> (r: Option<Self>)
        ensures
            match spec_find_tag(tags.remaining(), Self::name_spec()) {
                Some(v) => Self::parse_matches(v, r),
                None => r is None,
            },
    {
        let name = Self::name();
        let mut it = tags;
        loop
            invariant
                name@ == Self::name_spec(),
                spec_find_tag(tags.remaining(), Self::name_spec()) == spec_find_tag(
                    it.remaining(),
                    Self::name_spec(),
                ),
            decreases it.remaining().len(),
        {
            match it.next() {
                Some((key, value)) => {
                    if bytes_eq(key, name.as_slice()) {
                        return Self::parse(value);
                    }
                },
                None => {
                    return None;
                },
            }
        }
    }
}

} // verus!
