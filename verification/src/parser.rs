//! The single-pass tokenizer.
//!
//! One line of input (no trailing line terminator) is carved into index
//! ranges for tags, an origin prefix, the mandatory command and the
//! arguments, under a strict grammar.  The grammar is stated here as a
//! family of spec functions over the byte sequence; each executable
//! phase is proved to return exactly what its spec function says.
//!
//! Failure is atomic: a phase that runs past the end of the buffer while
//! still expecting a delimiter or a mandatory field yields no ranges at
//! all, and the whole parse reports an unexpected end of input.

use crate::error::MessageParseError;
use crate::span::{PrefixSpans, Span, TagSpan};
use vstd::prelude::*;

verus! {

/// The ASCII delimiter bytes of the grammar.
pub const SPACE: u8 = 32;

pub const EXCLAM: u8 = 33;

pub const COLON: u8 = 58;

pub const SEMI: u8 = 59;

pub const EQUALS: u8 = 61;

pub const AT_SIGN: u8 = 64;

// ---------------------------------------------------------------------
// Scanning: each spec function mirrors one delimiter-seeking pass.
// `Some(j)` is the index of the delimiter that ends the token; `None`
// means the pass ran out of input (or, for a tag key, hit a space).
// ---------------------------------------------------------------------

/// End of a tag key scanned from `i`: the first `=` or `;`.  A space
/// inside a key, or the end of the buffer, is a format error.
pub open spec fn scan_tag_key(s: Seq<u8>, i: int) -> Option<int>
    decreases s.len() - i,
{
    if i < 0 || i >= s.len() {
        None
    } else if s[i] == EQUALS || s[i] == SEMI {
        Some(i)
    } else if s[i] == SPACE {
        None
    } else if i + 1 >= s.len() {
        None
    } else {
        scan_tag_key(s, i + 1)
    }
}

/// End of a tag value scanned from `i`: the first `;` or space.
pub open spec fn scan_tag_value(s: Seq<u8>, i: int) -> Option<int>
    decreases s.len() - i,
{
    if i < 0 || i >= s.len() {
        None
    } else if s[i] == SEMI || s[i] == SPACE {
        Some(i)
    } else if i + 1 >= s.len() {
        None
    } else {
        scan_tag_value(s, i + 1)
    }
}

/// End of a prefix origin scanned from `i`: the first space, `!` or `@`.
pub open spec fn scan_prefix_origin(s: Seq<u8>, i: int) -> Option<int>
    decreases s.len() - i,
{
    if i < 0 || i >= s.len() {
        None
    } else if s[i] == SPACE || s[i] == EXCLAM || s[i] == AT_SIGN {
        Some(i)
    } else if i + 1 >= s.len() {
        None
    } else {
        scan_prefix_origin(s, i + 1)
    }
}

/// End of a prefix user scanned from `i`: the first space or `@`.
pub open spec fn scan_prefix_user(s: Seq<u8>, i: int) -> Option<int>
    decreases s.len() - i,
{
    if i < 0 || i >= s.len() {
        None
    } else if s[i] == SPACE || s[i] == AT_SIGN {
        Some(i)
    } else if i + 1 >= s.len() {
        None
    } else {
        scan_prefix_user(s, i + 1)
    }
}

/// End of a prefix host scanned from `i`: the first space.
pub open spec fn scan_prefix_host(s: Seq<u8>, i: int) -> Option<int>
    decreases s.len() - i,
{
    if i < 0 || i >= s.len() {
        None
    } else if s[i] == SPACE {
        Some(i)
    } else if i + 1 >= s.len() {
        None
    } else {
        scan_prefix_host(s, i + 1)
    }
}

/// End of the command scanned from `i`: the first space, or the end of
/// the buffer.  This pass cannot fail.
pub open spec fn scan_command(s: Seq<u8>, i: int) -> int
    decreases s.len() - i,
{
    if i < 0 || i >= s.len() {
        i
    } else if s[i] == SPACE {
        i
    } else {
        scan_command(s, i + 1)
    }
}

// ---------------------------------------------------------------------
// Bounds of the scans, needed for termination of the phase functions.
// ---------------------------------------------------------------------

proof fn lemma_scan_tag_key_bounds(s: Seq<u8>, i: int)
    ensures
        scan_tag_key(s, i) matches Some(j) ==> i <= j < s.len() && (s[j] == EQUALS || s[j] == SEMI),
    decreases s.len() - i,
{
    if 0 <= i && i < s.len() && !(s[i] == EQUALS || s[i] == SEMI) && s[i] != SPACE && i + 1
        < s.len() {
        lemma_scan_tag_key_bounds(s, i + 1);
    }
}

proof fn lemma_scan_tag_value_bounds(s: Seq<u8>, i: int)
    ensures
        scan_tag_value(s, i) matches Some(j) ==> i <= j < s.len() && (s[j] == SEMI || s[j] == SPACE),
    decreases s.len() - i,
{
    if 0 <= i && i < s.len() && !(s[i] == SEMI || s[i] == SPACE) && i + 1 < s.len() {
        lemma_scan_tag_value_bounds(s, i + 1);
    }
}

// ---------------------------------------------------------------------
// The grammar phases, as spec functions.  `None` means the phase raised
// an unexpected end of input.  The `int` is the position at which the
// next phase starts.
// ---------------------------------------------------------------------

/// One or more `key[=value]` tags separated by `;`, terminated by a
/// single space, scanned from `pos` (just past the leading `@` or the
/// previous `;`).  A tag has a value only if at least one byte stood
/// between its `=` and the next delimiter.
pub open spec fn spec_parse_tag_list(s: Seq<u8>, pos: int) -> Option<(Seq<TagSpan>, int)>
    decreases s.len() - pos,
        via spec_parse_tag_list_decreases
{
    match scan_tag_key(s, pos) {
        None => None,
        Some(key_end) => {
            let key = Span { start: pos as usize, end: key_end as usize };
            if s[key_end] == EQUALS && key_end + 1 >= s.len() {
                None
            } else {
                let vstart = if s[key_end] == EQUALS {
                    key_end + 1
                } else {
                    key_end
                };
                match scan_tag_value(s, vstart) {
                    None => None,
                    Some(vend) => {
                        let tag = TagSpan {
                            key,
                            value: if vstart == vend {
                                None
                            } else {
                                Some(Span { start: vstart as usize, end: vend as usize })
                            },
                        };
                        if vend + 1 >= s.len() {
                            None
                        } else if s[vend] == SPACE {
                            Some((seq![tag], vend + 1))
                        } else {
                            match spec_parse_tag_list(s, vend + 1) {
                                None => None,
                                Some((rest, p)) => Some((rest.insert(0, tag), p)),
                            }
                        }
                    },
                }
            }
        },
    }
}

#[via_fn]
proof fn spec_parse_tag_list_decreases(s: Seq<u8>, pos: int) {
    lemma_scan_tag_key_bounds(s, pos);
    if let Some(key_end) = scan_tag_key(s, pos) {
        lemma_scan_tag_value_bounds(s, key_end);
        lemma_scan_tag_value_bounds(s, key_end + 1);
    }
}

/// The tag phase: runs only when the line starts with `@`.  An empty
/// line is an error even when there are no tags, because the command is
/// mandatory.
pub open spec fn spec_parse_tags(s: Seq<u8>) -> Option<(Option<Seq<TagSpan>>, int)> {
    if s.len() == 0 {
        None
    } else if s[0] == AT_SIGN {
        if 1 >= s.len() {
            None
        } else {
            match spec_parse_tag_list(s, 1) {
                None => None,
                Some((tags, p)) => Some((Some(tags), p)),
            }
        }
    } else {
        Some((None, 0))
    }
}

/// The optional `!`-delimited user part of a prefix, scanned at `pos`
/// (the delimiter that ended the origin).
pub open spec fn spec_prefix_user(s: Seq<u8>, pos: int) -> Option<(Option<Span>, int)> {
    if 0 <= pos && pos < s.len() && s[pos] == EXCLAM {
        if pos + 1 >= s.len() {
            None
        } else {
            match scan_prefix_user(s, pos + 1) {
                None => None,
                Some(uend) => Some(
                    (Some(Span { start: (pos + 1) as usize, end: uend as usize }), uend),
                ),
            }
        }
    } else {
        Some((None, pos))
    }
}

/// The optional `@`-delimited host part of a prefix, scanned at `pos`.
pub open spec fn spec_prefix_host(s: Seq<u8>, pos: int) -> Option<(Option<Span>, int)> {
    if 0 <= pos && pos < s.len() && s[pos] == AT_SIGN {
        if pos + 1 >= s.len() {
            None
        } else {
            match scan_prefix_host(s, pos + 1) {
                None => None,
                Some(hend) => Some(
                    (Some(Span { start: (pos + 1) as usize, end: hend as usize }), hend),
                ),
            }
        }
    } else {
        Some((None, pos))
    }
}

/// The prefix phase: runs only when the byte at `pos` is `:`.  The
/// origin runs to the first space, `!` or `@`; an optional user part to
/// the first space or `@`; an optional host part to the first space; a
/// single terminating space follows.
pub open spec fn spec_parse_prefix(s: Seq<u8>, pos: int) -> Option<(Option<PrefixSpans>, int)> {
    if pos < 0 || pos >= s.len() {
        None
    } else if s[pos] == COLON {
        if pos + 1 >= s.len() {
            None
        } else {
            let ostart = pos + 1;
            match scan_prefix_origin(s, ostart) {
                None => None,
                Some(oend) => match spec_prefix_user(s, oend) {
                    None => None,
                    Some((user, p1)) => match spec_prefix_host(s, p1) {
                        None => None,
                        Some((host, p2)) => {
                            if p2 + 1 >= s.len() {
                                None
                            } else {
                                Some(
                                    (
                                        Some(
                                            PrefixSpans {
                                                raw: Span {
                                                    start: ostart as usize,
                                                    end: p2 as usize,
                                                },
                                                origin: Span {
                                                    start: ostart as usize,
                                                    end: oend as usize,
                                                },
                                                user,
                                                host,
                                            },
                                        ),
                                        p2 + 1,
                                    ),
                                )
                            }
                        },
                    },
                },
            }
        }
    } else {
        Some((None, pos))
    }
}

/// The command phase: mandatory; the command runs from `pos` to the
/// next space or to the end of the buffer.  A space after the command
/// must be followed by at least one more byte.
pub open spec fn spec_parse_command(s: Seq<u8>, pos: int) -> Option<(Span, int)> {
    if pos < 0 || pos >= s.len() {
        None
    } else {
        let cend = scan_command(s, pos);
        let cmd = Span { start: pos as usize, end: cend as usize };
        if cend < s.len() {
            if cend + 1 >= s.len() {
                None
            } else {
                Some((cmd, cend + 1))
            }
        } else {
            Some((cmd, cend))
        }
    }
}

/// The argument phase, scanned from `pos` with the current argument
/// beginning at `arg_start`.  A `:` at the start of an argument marks
/// the final argument, which runs verbatim to the end of the buffer; a
/// space ends the current argument; the last argument otherwise ends at
/// the buffer end.  A `:` inside an argument is an ordinary byte.
pub open spec fn spec_args_from(s: Seq<u8>, pos: int, arg_start: int) -> (Seq<Span>, int)
    decreases s.len() - pos,
{
    if pos < 0 || pos >= s.len() {
        (Seq::empty(), pos)
    } else if s[pos] == COLON && pos == arg_start {
        (seq![Span { start: (pos + 1) as usize, end: s.len() as usize }], pos + 1)
    } else if s[pos] == SPACE {
        let first = Span { start: arg_start as usize, end: pos as usize };
        if pos + 1 >= s.len() {
            (seq![first, Span { start: (pos + 1) as usize, end: (pos + 1) as usize }], pos + 1)
        } else {
            let (rest, p) = spec_args_from(s, pos + 1, pos + 1);
            (rest.insert(0, first), p)
        }
    } else {
        if pos + 1 >= s.len() {
            (seq![Span { start: arg_start as usize, end: (pos + 1) as usize }], pos + 1)
        } else {
            spec_args_from(s, pos + 1, arg_start)
        }
    }
}

/// The argument phase: absent when the command consumed the whole line.
/// This phase cannot fail.
pub open spec fn spec_parse_args(s: Seq<u8>, pos: int) -> (Option<Seq<Span>>, int) {
    if pos < 0 || pos >= s.len() {
        (None, pos)
    } else {
        let (args, p) = spec_args_from(s, pos, pos);
        (Some(args), p)
    }
}

// ---------------------------------------------------------------------
// The whole grammar.
// ---------------------------------------------------------------------

/// The ranges carved out of one parsed line: tags, prefix, command and
/// arguments.  Spec-level counterpart of a `Message` minus its buffer.
pub struct Parsed {
    pub tags: Option<Seq<TagSpan>>,
    pub prefix: Option<PrefixSpans>,
    pub command: Span,
    pub args: Option<Seq<Span>>,
}

/// Every range of `p` lies within a buffer of length `len`.
pub open spec fn parsed_wf(p: Parsed, len: int) -> bool {
    &&& p.command.wf(len)
    &&& (p.tags matches Some(ts) ==> forall|i: int|
        0 <= i < ts.len() ==> (#[trigger] ts[i]).wf(len))
    &&& (p.prefix matches Some(pf) ==> pf.wf(len))
    &&& (p.args matches Some(ar) ==> forall|i: int|
        0 <= i < ar.len() ==> (#[trigger] ar[i]).wf(len))
}

/// The grammar on one whole line: tags, then prefix, then command, then
/// arguments.  `None` is an unexpected end of input; encoding errors are
/// handled before this function applies.
pub open spec fn spec_parse(s: Seq<u8>) -> Option<Parsed> {
    match spec_parse_tags(s) {
        None => None,
        Some((tags, p1)) => match spec_parse_prefix(s, p1) {
            None => None,
            Some((prefix, p2)) => match spec_parse_command(s, p2) {
                None => None,
                Some((command, p3)) => {
                    let (args, _p4) = spec_parse_args(s, p3);
                    Some(Parsed { tags, prefix, command, args })
                },
            },
        },
    }
}


// ---------------------------------------------------------------------
// The executable tokenizer.  Each function is proved to return exactly
// what the corresponding spec function says of the input bytes.
// ---------------------------------------------------------------------

/// Steps to the next byte; past the end of the buffer that is an
/// unexpected end of input.
fn move_next(value: usize, bound: usize) -> (r: Result<usize, MessageParseError>)
    ensures
        r == if value + 1 >= bound {
            Err::<usize, MessageParseError>(MessageParseError::UnexpectedEndOfInput)
        } else {
            Ok::<usize, MessageParseError>((value + 1) as usize)
        },
{
    if bound > 0 && value < bound - 1 {
        Ok(value + 1)
    } else {
        Err(MessageParseError::UnexpectedEndOfInput)
    }
}

fn scan_key(s: &[u8], start: usize) -> (r: Result<usize, MessageParseError>)
    requires
        start < s@.len(),
    ensures
        match r {
            Ok(j) => scan_tag_key(s@, start as int) == Some(j as int) && start <= j < s@.len(),
            Err(e) => scan_tag_key(s@, start as int) is None && e
                == MessageParseError::UnexpectedEndOfInput,
        },
{
    let mut pos = start;
    loop
        invariant
            start <= pos < s@.len(),
            scan_tag_key(s@, start as int) == scan_tag_key(s@, pos as int),
        decreases s@.len() - pos,
    {
        let b = s[pos];
        if b == EQUALS || b == SEMI {
            return Ok(pos);
        }
        if b == SPACE {
            return Err(MessageParseError::UnexpectedEndOfInput);
        }
        if pos + 1 >= s.len() {
            return Err(MessageParseError::UnexpectedEndOfInput);
        }
        pos = pos + 1;
    }
}

fn scan_value(s: &[u8], start: usize) -> (r: Result<usize, MessageParseError>)
    requires
        start < s@.len(),
    ensures
        match r {
            Ok(j) => scan_tag_value(s@, start as int) == Some(j as int) && start <= j < s@.len(),
            Err(e) => scan_tag_value(s@, start as int) is None && e
                == MessageParseError::UnexpectedEndOfInput,
        },
{
    let mut pos = start;
    loop
        invariant
            start <= pos < s@.len(),
            scan_tag_value(s@, start as int) == scan_tag_value(s@, pos as int),
        decreases s@.len() - pos,
    {
        let b = s[pos];
        if b == SEMI || b == SPACE {
            return Ok(pos);
        }
        if pos + 1 >= s.len() {
            return Err(MessageParseError::UnexpectedEndOfInput);
        }
        pos = pos + 1;
    }
}

fn scan_origin(s: &[u8], start: usize) -> (r: Result<usize, MessageParseError>)
    requires
        start < s@.len(),
    ensures
        match r {
            Ok(j) => scan_prefix_origin(s@, start as int) == Some(j as int) && start <= j
                < s@.len(),
            Err(e) => scan_prefix_origin(s@, start as int) is None && e
                == MessageParseError::UnexpectedEndOfInput,
        },
{
    let mut pos = start;
    loop
        invariant
            start <= pos < s@.len(),
            scan_prefix_origin(s@, start as int) == scan_prefix_origin(s@, pos as int),
        decreases s@.len() - pos,
    {
        let b = s[pos];
        if b == SPACE || b == EXCLAM || b == AT_SIGN {
            return Ok(pos);
        }
        if pos + 1 >= s.len() {
            return Err(MessageParseError::UnexpectedEndOfInput);
        }
        pos = pos + 1;
    }
}

fn scan_user(s: &[u8], start: usize) -> (r: Result<usize, MessageParseError>)
    requires
        start < s@.len(),
    ensures
        match r {
            Ok(j) => scan_prefix_user(s@, start as int) == Some(j as int) && start <= j < s@.len(),
            Err(e) => scan_prefix_user(s@, start as int) is None && e
                == MessageParseError::UnexpectedEndOfInput,
        },
{
    let mut pos = start;
    loop
        invariant
            start <= pos < s@.len(),
            scan_prefix_user(s@, start as int) == scan_prefix_user(s@, pos as int),
        decreases s@.len() - pos,
    {
        let b = s[pos];
        if b == SPACE || b == AT_SIGN {
            return Ok(pos);
        }
        if pos + 1 >= s.len() {
            return Err(MessageParseError::UnexpectedEndOfInput);
        }
        pos = pos + 1;
    }
}

fn scan_host(s: &[u8], start: usize) -> (r: Result<usize, MessageParseError>)
    requires
        start < s@.len(),
    ensures
        match r {
            Ok(j) => scan_prefix_host(s@, start as int) == Some(j as int) && start <= j < s@.len(),
            Err(e) => scan_prefix_host(s@, start as int) is None && e
                == MessageParseError::UnexpectedEndOfInput,
        },
{
    let mut pos = start;
    loop
        invariant
            start <= pos < s@.len(),
            scan_prefix_host(s@, start as int) == scan_prefix_host(s@, pos as int),
        decreases s@.len() - pos,
    {
        let b = s[pos];
        if b == SPACE {
            return Ok(pos);
        }
        if pos + 1 >= s.len() {
            return Err(MessageParseError::UnexpectedEndOfInput);
        }
        pos = pos + 1;
    }
}

/// The tag list from `pos`, one tag per step of the recursion.
fn parse_tag_list(s: &[u8], pos: usize) -> (r: Result<(Vec<TagSpan>, usize), MessageParseError>)
    requires
        pos < s@.len(),
    ensures
        match r {
            Ok((tags, p)) => {
                &&& spec_parse_tag_list(s@, pos as int) == Some((tags@, p as int))
                &&& p <= s@.len()
                &&& tags@.len() >= 1
                &&& forall|i: int|
                    0 <= i < tags@.len() ==> (#[trigger] tags@[i]).wf(s@.len() as int)
            },
            Err(e) => spec_parse_tag_list(s@, pos as int) is None && e
                == MessageParseError::UnexpectedEndOfInput,
        },
    decreases s@.len() - pos,
{
    let key_end = scan_key(s, pos)?;
    let key = Span { start: pos, end: key_end };
    let vstart = if s[key_end] == EQUALS {
        match move_next(key_end, s.len()) {
            Ok(v) => v,
            Err(e) => {
                return Err(e);
            },
        }
    } else {
        key_end
    };
    let vend = scan_value(s, vstart)?;
    let tag = TagSpan {
        key,
        value: if vstart == vend {
            None
        } else {
            Some(Span { start: vstart, end: vend })
        },
    };
    if s[vend] == SPACE {
        let p = move_next(vend, s.len())?;
        let mut tags: Vec<TagSpan> = Vec::new();
        tags.push(tag);
        proof {
            assert(tags@ =~= seq![tag]);
        }
        Ok((tags, p))
    } else {
        let next = move_next(vend, s.len())?;
        let (mut rest, p) = parse_tag_list(s, next)?;
        rest.insert(0, tag);
        Ok((rest, p))
    }
}

/// The tag phase of one line.
pub(crate) fn parse_tags(s: &[u8]) -> (r: Result<(Option<Vec<TagSpan>>, usize), MessageParseError>)
    ensures
        match r {
            Ok((tags, p)) => {
                &&& spec_parse_tags(s@) == Some(
                    (
                        match tags {
                            Some(ts) => Some(ts@),
                            None => None,
                        },
                        p as int,
                    ),
                )
                &&& p <= s@.len()
                &&& (tags matches Some(ts) ==> ts@.len() >= 1 && forall|i: int|
                    0 <= i < ts@.len() ==> (#[trigger] ts@[i]).wf(s@.len() as int))
            },
            Err(e) => spec_parse_tags(s@) is None && e == MessageParseError::UnexpectedEndOfInput,
        },
{
    if s.len() == 0 {
        return Err(MessageParseError::UnexpectedEndOfInput);
    }
    if s[0] == AT_SIGN {
        let pos = move_next(0, s.len())?;
        let (tags, p) = parse_tag_list(s, pos)?;
        Ok((Some(tags), p))
    } else {
        Ok((None, 0))
    }
}

/// The prefix phase of one line, from `pos`.
pub(crate) fn parse_prefix(s: &[u8], pos: usize) -> (r: Result<
    (Option<PrefixSpans>, usize),
    MessageParseError,
>)
    ensures
        match r {
            Ok((prefix, p)) => {
                &&& spec_parse_prefix(s@, pos as int) == Some((prefix, p as int))
                &&& p <= s@.len()
                &&& (prefix matches Some(pf) ==> pf.wf(s@.len() as int))
            },
            Err(e) => spec_parse_prefix(s@, pos as int) is None && e
                == MessageParseError::UnexpectedEndOfInput,
        },
{
    if pos >= s.len() {
        return Err(MessageParseError::UnexpectedEndOfInput);
    }
    if s[pos] == COLON {
        let ostart = move_next(pos, s.len())?;
        let oend = scan_origin(s, ostart)?;

        let mut position = oend;
        let mut user: Option<Span> = None;
        if s[position] == EXCLAM {
            let ustart = move_next(position, s.len())?;
            let uend = scan_user(s, ustart)?;
            user = Some(Span { start: ustart, end: uend });
            position = uend;
        }

        let mut host: Option<Span> = None;
        if s[position] == AT_SIGN {
            let hstart = move_next(position, s.len())?;
            let hend = scan_host(s, hstart)?;
            host = Some(Span { start: hstart, end: hend });
            position = hend;
        }

        let prefix = PrefixSpans {
            raw: Span { start: ostart, end: position },
            origin: Span { start: ostart, end: oend },
            user,
            host,
        };
        let p = move_next(position, s.len())?;
        Ok((Some(prefix), p))
    } else {
        Ok((None, pos))
    }
}

/// The command phase of one line, from `pos`.
pub(crate) fn parse_command(s: &[u8], pos: usize) -> (r: Result<(Span, usize), MessageParseError>)
    ensures
        match r {
            Ok((cmd, p)) => {
                &&& spec_parse_command(s@, pos as int) == Some((cmd, p as int))
                &&& p <= s@.len()
                &&& cmd.wf(s@.len() as int)
            },
            Err(e) => spec_parse_command(s@, pos as int) is None && e
                == MessageParseError::UnexpectedEndOfInput,
        },
{
    if pos >= s.len() {
        return Err(MessageParseError::UnexpectedEndOfInput);
    }
    let mut position = pos;
    let command_start = position;

    while position < s.len() && s[position] != SPACE
        invariant
            command_start <= position <= s@.len(),
            scan_command(s@, command_start as int) == scan_command(s@, position as int),
        decreases s@.len() - position,
    {
        position = position + 1;
    }

    let command = Span { start: command_start, end: position };

    if position < s.len() {
        let p = move_next(position, s.len())?;
        Ok((command, p))
    } else {
        Ok((command, position))
    }
}

/// The argument phase from `pos`, with the current argument beginning at
/// `arg_start`.
fn parse_args_from(s: &[u8], pos: usize, arg_start: usize) -> (r: (Vec<Span>, usize))
    requires
        arg_start <= pos < s@.len(),
    ensures
        ({
            let (sargs, sp) = spec_args_from(s@, pos as int, arg_start as int);
            &&& r.0@ == sargs
            &&& r.1 as int == sp
            &&& r.0@.len() >= 1
            &&& forall|i: int| 0 <= i < r.0@.len() ==> (#[trigger] r.0@[i]).wf(s@.len() as int)
        }),
    decreases s@.len() - pos,
{
    if s[pos] == COLON && pos == arg_start {
        let mut args: Vec<Span> = Vec::new();
        args.push(Span { start: pos + 1, end: s.len() });
        proof {
            assert(args@ =~= seq![Span { start: (pos + 1) as usize, end: s@.len() as usize }]);
        }
        (args, pos + 1)
    } else if s[pos] == SPACE {
        let first = Span { start: arg_start, end: pos };
        if pos + 1 >= s.len() {
            let mut args: Vec<Span> = Vec::new();
            args.push(first);
            args.push(Span { start: pos + 1, end: pos + 1 });
            proof {
                assert(args@ =~= seq![
                    first,
                    Span { start: (pos + 1) as usize, end: (pos + 1) as usize },
                ]);
            }
            (args, pos + 1)
        } else {
            let (mut rest, p) = parse_args_from(s, pos + 1, pos + 1);
            rest.insert(0, first);
            (rest, p)
        }
    } else {
        if pos + 1 >= s.len() {
            let mut args: Vec<Span> = Vec::new();
            args.push(Span { start: arg_start, end: pos + 1 });
            proof {
                assert(args@ =~= seq![Span { start: arg_start as usize, end: (pos + 1) as usize }]);
            }
            (args, pos + 1)
        } else {
            parse_args_from(s, pos + 1, arg_start)
        }
    }
}

/// The argument phase of one line, from `pos`.  This phase cannot fail.
pub(crate) fn parse_args(s: &[u8], pos: usize) -> (r: (Option<Vec<Span>>, usize))
    ensures
        ({
            let (sargs, sp) = spec_parse_args(s@, pos as int);
            &&& (match r.0 {
                Some(ar) => Some(ar@),
                None => None,
            }) == sargs
            &&& r.1 as int == sp
            &&& (r.0 matches Some(ar) ==> ar@.len() >= 1 && forall|i: int|
                0 <= i < ar@.len() ==> (#[trigger] ar@[i]).wf(s@.len() as int))
        }),
{
    if pos >= s.len() {
        return (None, pos);
    }
    let (args, p) = parse_args_from(s, pos, pos);
    (Some(args), p)
}

} // verus!
