//! The parsed, immutable record of one IRC line.
//!
//! A `Message` owns its validated-UTF-8 byte buffer and the index ranges
//! that the tokenizer carved out of it.  It is never mutated after
//! construction; cloning is O(1) and yields a value with identical
//! observable content, since the buffer and the range lists are shared
//! by reference counting.

use crate::arc_slice::ArcSlice;
use crate::command::{ArgumentIter, Command};
use crate::error::MessageParseError;
use crate::line::{
    command_ok, lemma_line_valid_utf8, lemma_parse_built_line, spec_line, token_ok,
    trailing_views,
};
use crate::parser::{
    parse_args, parse_command, parse_prefix, parse_tags, parsed_wf, spec_parse, Parsed,
};
use crate::span::{select_tag_views, select_views, PrefixSpans, Span, TagSpan};
use crate::tag::{spec_find_tag, Tag, TagIter};
use vstd::prelude::*;
use vstd::slice::{slice_subrange, slice_to_vec};
use vstd::string::StringSliceAdditionalSpecFns;
use vstd::utf8::valid_utf8;

verus! {

/// One parsed line: the shared buffer, the tag and argument ranges
/// (shared), the prefix ranges (small, copied) and the command range.
pub struct Message {
    buffer: ArcSlice<u8>,
    tags: ArcSlice<TagSpan>,
    prefix: Option<PrefixSpans>,
    command: Span,
    arguments: ArcSlice<Span>,
}

impl Message {
    /// The bytes of the whole line.
    pub closed spec fn bytes(self) -> Seq<u8> {
        self.buffer@
    }

    /// The ranges the tokenizer produced for this line.  An absent tag
    /// or argument list is one the grammar never saw, as opposed to one
    /// it saw empty; the grammar never produces an empty list.
    pub closed spec fn parsed(self) -> Parsed {
        Parsed {
            tags: if self.tags@.len() == 0 {
                None
            } else {
                Some(self.tags@)
            },
            prefix: self.prefix,
            command: self.command,
            args: if self.arguments@.len() == 0 {
                None
            } else {
                Some(self.arguments@)
            },
        }
    }

    #[verifier::type_invariant]
    spec fn inv(self) -> bool {
        &&& valid_utf8(self.bytes())
        &&& spec_parse(self.bytes()) == Some(self.parsed())
        &&& parsed_wf(self.parsed(), self.bytes().len() as int)
    }

    /// The bytes of the command.
    pub open spec fn command_bytes(self) -> Seq<u8> {
        self.parsed().command.select(self.bytes())
    }

    /// The argument ranges, in order; empty when the line had none.
    pub open spec fn args_spans(self) -> Seq<Span> {
        match self.parsed().args {
            Some(a) => a,
            None => Seq::empty(),
        }
    }

    /// The argument strings, in order, as carved from the line.
    pub open spec fn args_seq(self) -> Seq<Seq<u8>> {
        select_views(self.args_spans(), self.bytes())
    }

    /// The tag ranges, in order; empty when the line had no tag block.
    pub open spec fn tags_spans(self) -> Seq<TagSpan> {
        match self.parsed().tags {
            Some(t) => t,
            None => Seq::empty(),
        }
    }

    /// The tag pairs, in order: each key with its optional value.
    pub open spec fn tags_seq(self) -> Seq<(Seq<u8>, Option<Seq<u8>>)> {
        select_tag_views(self.tags_spans(), self.bytes())
    }

    /// The full prefix text, where the line had a prefix.
    pub open spec fn raw_prefix_bytes(self) -> Option<Seq<u8>> {
        match self.parsed().prefix {
            Some(pf) => Some(pf.raw.select(self.bytes())),
            None => None,
        }
    }

    /// The structured prefix: origin, optional user, optional host.
    pub open spec fn prefix_parts(self) -> Option<(Seq<u8>, Option<Seq<u8>>, Option<Seq<u8>>)> {
        match self.parsed().prefix {
            Some(pf) => Some(
                (
                    pf.origin.select(self.bytes()),
                    match pf.user {
                        Some(u) => Some(u.select(self.bytes())),
                        None => None,
                    },
                    match pf.host {
                        Some(h) => Some(h.select(self.bytes())),
                        None => None,
                    },
                ),
            ),
            None => None,
        }
    }

    /// Retrieve the raw command of this message.
    pub fn raw_command(&self) -> (r: &[u8])
        ensures
            r@ == self.command_bytes(),
    {
        proof {
            use_type_invariant(self);
        }
        slice_subrange(self.buffer.as_slice(), self.command.start, self.command.end)
    }

    /// The raw line this message was constructed from.
    pub fn raw_message(&self) -> (r: &[u8])
        ensures
            r@ == self.bytes(),
    {
        self.buffer.as_slice()
    }

    /// The raw prefix text of this message, where there is one.
    pub fn raw_prefix(&self) -> (r: Option<&[u8]>)
        ensures
            match r {
                Some(b) => self.raw_prefix_bytes() == Some(b@),
                None => self.raw_prefix_bytes() is None,
            },
    {
        proof {
            use_type_invariant(self);
        }
        match &self.prefix {
            Some(pf) => Some(slice_subrange(self.buffer.as_slice(), pf.raw.start, pf.raw.end)),
            None => None,
        }
    }

    /// The prefix of this message, where there is one, as its origin and
    /// the optional user and host parts.
    pub fn prefix(&self) -> (r: Option<(&[u8], Option<&[u8]>, Option<&[u8]>)>)
        ensures
            match r {
                Some((origin, user, host)) => {
                    &&& self.prefix_parts() matches Some((so, su, sh))
                    &&& so == origin@
                    &&& su == (match user {
                        Some(u) => Some(u@),
                        None => None::<Seq<u8>>,
                    })
                    &&& sh == (match host {
                        Some(h) => Some(h@),
                        None => None::<Seq<u8>>,
                    })
                },
                None => self.prefix_parts() is None,
            },
    {
        proof {
            use_type_invariant(self);
        }
        match &self.prefix {
            Some(pf) => {
                let origin = slice_subrange(
                    self.buffer.as_slice(),
                    pf.origin.start,
                    pf.origin.end,
                );
                let user = match pf.user {
                    Some(u) => Some(slice_subrange(self.buffer.as_slice(), u.start, u.end)),
                    None => None,
                };
                let host = match pf.host {
                    Some(h) => Some(slice_subrange(self.buffer.as_slice(), h.start, h.end)),
                    None => None,
                };
                Some((origin, user, host))
            },
            None => None,
        }
    }

    /// A fresh double-ended cursor over the raw arguments of this
    /// message, front to back.
    pub fn raw_args(&self) -> (r: ArgumentIter<'_>)
        ensures
            r.remaining() == self.args_seq(),
    {
        proof {
            use_type_invariant(self);
        }
        let r = ArgumentIter::new(self.buffer.as_slice(), self.arguments.as_slice());
        proof {
            assert(r.remaining() =~= self.args_seq());
        }
        r
    }

    /// A fresh double-ended cursor over the raw `(key, value?)` tag
    /// pairs of this message, front to back.
    pub fn raw_tags(&self) -> (r: TagIter<'_>)
        ensures
            r.remaining() == self.tags_seq(),
    {
        proof {
            use_type_invariant(self);
        }
        let r = TagIter::new(self.buffer.as_slice(), self.tags.as_slice());
        proof {
            assert(r.remaining() =~= self.tags_seq());
        }
        r
    }

    /// A strongly typed way of determining whether this message carries
    /// the command shape `T`, and of retrieving its fields.
    pub fn command<T: Command>(&self) -> (r: Option<T>)
        ensures
            self.command_bytes() == T::name_spec() ==> T::parse_matches(self.args_seq(), r),
            self.command_bytes() != T::name_spec() ==> r is None,
    {
        T::try_match(self.raw_command(), self.raw_args())
    }

    /// A strongly typed way of reading the tag shape `T` from the first
    /// tag keyed by `T`'s name, where one exists.
    pub fn tag<T: Tag>(&self) -> (r: Option<T>)
        ensures
            match spec_find_tag(self.tags_seq(), T::name_spec()) {
                Some(v) => T::parse_matches(v, r),
                None => r is None,
            },
    {
        T::try_match(self.raw_tags())
    }

    /// Parses a text value into a message.
    pub fn try_from(value: &str) -> (r: Result<Message, MessageParseError>)
        ensures
            parse_outcome(value.spec_bytes(), r),
    {
        parse_message(value.as_bytes())
    }
}

impl Clone for Message {
    /// An O(1) copy sharing the same buffer and range lists; the clone
    /// has identical observable content.
    fn clone(&self) -> (r: Self)
        ensures
            r.bytes() == self.bytes(),
            r.parsed() == self.parsed(),
    {
        proof {
            use_type_invariant(self);
        }
        Message {
            buffer: self.buffer.clone(),
            tags: self.tags.clone(),
            prefix: self.prefix,
            command: self.command,
            arguments: self.arguments.clone(),
        }
    }
}

/// What parsing a line must yield: a message holding exactly the ranges
/// of the grammar on success; the encoding error exactly when the bytes
/// are not valid UTF-8; the unexpected-end error exactly when the
/// grammar ran out of input.  No partial message is ever returned.
pub open spec fn parse_outcome(input: Seq<u8>, r: Result<Message, MessageParseError>) -> bool {
    match r {
        Ok(m) => valid_utf8(input) && m.bytes() == input && spec_parse(input) == Some(m.parsed()),
        Err(e) => if !valid_utf8(input) {
            e == MessageParseError::InvalidEncoding
        } else {
            e == MessageParseError::UnexpectedEndOfInput && spec_parse(input) is None
        },
    }
}

/// Relies on `std::str::from_utf8`: it accepts exactly the byte
/// sequences that are valid UTF-8.
#[verifier::external_body]
fn utf8_ok(s: &[u8]) -> (r: bool)
    ensures
        r == valid_utf8(s@),
{
    std::str::from_utf8(s).is_ok()
}

/// Parses one line of input (without its line terminator) into a
/// message, or reports the one classified error that applies.
pub fn parse_message(input: &[u8]) -> (r: Result<Message, MessageParseError>)
    ensures
        parse_outcome(input@, r),
{
    if !utf8_ok(input) {
        return Err(MessageParseError::InvalidEncoding);
    }
    let (tags, p1) = parse_tags(input)?;
    let (prefix, p2) = parse_prefix(input, p1)?;
    let (command, p3) = parse_command(input, p2)?;
    let (arguments, _p4) = parse_args(input, p3);

    let message = Message {
        buffer: ArcSlice::new(slice_to_vec(input)),
        tags: ArcSlice::new(
            match tags {
                Some(v) => v,
                None => Vec::new(),
            },
        ),
        prefix,
        command,
        arguments: ArcSlice::new(
            match arguments {
                Some(v) => v,
                None => Vec::new(),
            },
        ),
    };
    Ok(message)
}


/// A message parsed back from a built line carries exactly the parts
/// the line was built from: the command, then the middle arguments,
/// then the trailing argument, with no tags and no prefix.
pub proof fn lemma_built_line_outcome(
    cmd: Seq<u8>,
    middles: Seq<Seq<u8>>,
    trailing: Option<Seq<u8>>,
    r: Result<Message, MessageParseError>,
)
    requires
        command_ok(cmd),
        forall|i: int| 0 <= i < cmd.len() ==> cmd[i] <= 0x7f,
        forall|i: int| 0 <= i < middles.len() ==> token_ok(#[trigger] middles[i]),
        forall|i: int| 0 <= i < middles.len() ==> valid_utf8(#[trigger] middles[i]),
        trailing matches Some(t) ==> valid_utf8(t),
        spec_line(cmd, middles, trailing).len() <= usize::MAX,
        parse_outcome(spec_line(cmd, middles, trailing), r),
    ensures
        ({
            &&& r matches Ok(m)
            &&& m.bytes() == spec_line(cmd, middles, trailing)
            &&& m.command_bytes() == cmd
            &&& m.args_seq() == middles + trailing_views(trailing)
            &&& m.tags_seq() == Seq::<(Seq<u8>, Option<Seq<u8>>)>::empty()
            &&& m.raw_prefix_bytes() is None
        }),
{
    let line = spec_line(cmd, middles, trailing);
    lemma_line_valid_utf8(cmd, middles, trailing);
    lemma_parse_built_line(cmd, middles, trailing);
    let p = spec_parse(line).unwrap();
    let m = r.unwrap();
    assert(m.parsed() == p);
    assert(m.command_bytes() == cmd);
    assert(m.args_seq() == middles + trailing_views(trailing)) by {
        if middles.len() == 0 && trailing is None {
            assert(crate::line::parsed_args_views(p, line).len() == 0);
            assert(p.args is None);
            assert(m.args_seq() =~= middles + trailing_views(trailing));
        } else {
            assert(crate::line::parsed_args_views(p, line).len() > 0);
            assert(p.args is Some);
        }
    }
    assert(m.tags_seq() =~= Seq::<(Seq<u8>, Option<Seq<u8>>)>::empty());
}

} // verus!
