//! Construction of wire-ready lines, and the round-trip law: a line
//! built from a command, space-separated middle arguments and an
//! optional trailing argument parses back into exactly those parts.

use crate::parser::{
    scan_command, spec_args_from, spec_parse, spec_parse_command,
    spec_parse_prefix, spec_parse_tags, Parsed, AT_SIGN, COLON, SPACE,
};
use crate::span::{select_views, Span};
use vstd::prelude::*;
use vstd::utf8::{
    is_leading_byte_width_1, partial_valid_utf8_extend_ascii_block, valid_utf8,
    valid_utf8_concat,
};

verus! {

/// A token placeable as a command or middle argument: nonempty, with no
/// space, and not starting with the trailing-argument marker `:`.
pub open spec fn token_ok(t: Seq<u8>) -> bool {
    t.len() > 0 && t[0] != COLON && forall|i: int| 0 <= i < t.len() ==> t[i] != SPACE
}

/// A token placeable at the head of a line: one that does not start the
/// tag phase.
pub open spec fn command_ok(c: Seq<u8>) -> bool {
    token_ok(c) && c[0] != AT_SIGN
}

/// The middle arguments, each preceded by one space.
pub open spec fn spec_middles(middles: Seq<Seq<u8>>) -> Seq<u8>
    decreases middles.len(),
{
    if middles.len() == 0 {
        Seq::empty()
    } else {
        seq![SPACE] + middles[0] + spec_middles(middles.drop_first())
    }
}

/// The trailing argument with its ` :` marker, where there is one.
pub open spec fn spec_trailing(trailing: Option<Seq<u8>>) -> Seq<u8> {
    match trailing {
        Some(t) => seq![SPACE, COLON] + t,
        None => Seq::empty(),
    }
}

/// A full line: the command, the middle arguments, and the optional
/// trailing argument.
pub open spec fn spec_line(cmd: Seq<u8>, middles: Seq<Seq<u8>>, trailing: Option<Seq<u8>>) -> Seq<
    u8,
> {
    cmd + spec_middles(middles) + spec_trailing(trailing)
}

/// What stands after the command and its separating space: the middle
/// arguments separated by single spaces, then the marked trailing
/// argument.
pub open spec fn spec_tail(middles: Seq<Seq<u8>>, trailing: Option<Seq<u8>>) -> Seq<u8>
    decreases middles.len(),
{
    if middles.len() > 0 {
        middles[0] + spec_middles(middles.drop_first()) + spec_trailing(trailing)
    } else {
        match trailing {
            Some(t) => seq![COLON] + t,
            None => Seq::empty(),
        }
    }
}

/// The argument strings a parse result selects out of the line.
pub open spec fn parsed_args_views(p: Parsed, s: Seq<u8>) -> Seq<Seq<u8>> {
    match p.args {
        Some(a) => select_views(a, s),
        None => Seq::empty(),
    }
}

/// The trailing argument as a sequence of zero or one argument strings.
pub open spec fn trailing_views(trailing: Option<Seq<u8>>) -> Seq<Seq<u8>> {
    match trailing {
        Some(t) => seq![t],
        None => Seq::empty(),
    }
}

// ---------------------------------------------------------------------
// Supporting lemmas.
// ---------------------------------------------------------------------

/// Transfers indexing through an established subrange equality.
proof fn lemma_subrange_index(s: Seq<u8>, lo: int, hi: int, t: Seq<u8>)
    requires
        0 <= lo <= hi <= s.len(),
        s.subrange(lo, hi) == t,
    ensures
        t.len() == hi - lo,
        forall|k: int| 0 <= k < t.len() ==> t[k] == s[lo + k],
{
    assert(forall|k: int| 0 <= k < t.len() ==> t[k] == s.subrange(lo, hi)[k]);
}

/// The command scan stops at the first space, and nowhere earlier.
proof fn lemma_scan_command_segment(s: Seq<u8>, i: int, j: int)
    requires
        0 <= i <= j <= s.len(),
        forall|k: int| i <= k < j ==> s[k] != SPACE,
        j == s.len() || s[j] == SPACE,
    ensures
        scan_command(s, i) == j,
    decreases j - i,
{
    if i < j {
        lemma_scan_command_segment(s, i + 1, j);
    }
}

/// The argument scan walks over a space-free block that does not begin
/// with a `:` marker without producing anything, and closes the final
/// argument at the end of the buffer.
proof fn lemma_args_walk_token(s: Seq<u8>, pos: int, arg_start: int, j: int)
    requires
        s.len() <= usize::MAX,
        0 <= arg_start <= pos <= j <= s.len(),
        pos < s.len(),
        forall|k: int| pos <= k < j ==> s[k] != SPACE,
        pos == arg_start && pos < j ==> s[pos] != COLON,
    ensures
        j == s.len() ==> spec_args_from(s, pos, arg_start) == (
            seq![Span { start: arg_start as usize, end: s.len() as usize }],
            s.len() as int,
        ),
        j < s.len() ==> spec_args_from(s, pos, arg_start) == spec_args_from(s, j, arg_start),
    decreases j - pos,
{
    if pos < j {
        if pos + 1 < s.len() {
            lemma_args_walk_token(s, pos + 1, arg_start, j);
        }
    }
}

/// The argument scan on the tail of a built line yields exactly the
/// middle arguments and the trailing argument.
#[verifier::rlimit(60)]
proof fn lemma_args_parse_tail(
    s: Seq<u8>,
    pos: int,
    middles: Seq<Seq<u8>>,
    trailing: Option<Seq<u8>>,
)
    requires
        s.len() <= usize::MAX,
        0 <= pos < s.len(),
        forall|i: int| 0 <= i < middles.len() ==> token_ok(#[trigger] middles[i]),
        s.subrange(pos, s.len() as int) == spec_tail(middles, trailing),
        middles.len() > 0 || trailing is Some,
    ensures
        ({
            let (spans, _p) = spec_args_from(s, pos, pos);
            select_views(spans, s) == middles + trailing_views(trailing)
        }),
    decreases middles.len(),
{
    let tail = spec_tail(middles, trailing);
    let len = s.len() as int;
    lemma_subrange_index(s, pos, len, tail);
    if middles.len() == 0 {
        let t = trailing.unwrap();
        assert(tail == seq![COLON] + t);
        assert(tail[0] == COLON);
        assert(s[pos] == COLON);
        let (spans, _p) = spec_args_from(s, pos, pos);
        assert(spans == seq![Span { start: (pos + 1) as usize, end: s.len() as usize }]);
        assert(forall|k: int| 0 <= k < t.len() ==> tail[1 + k] == t[k]);
        assert(s.subrange(pos + 1, len) =~= t);
        assert(select_views(spans, s) =~= middles + trailing_views(trailing));
    } else {
        let m0 = middles[0];
        let rest = middles.drop_first();
        let j = pos + m0.len();
        // The tail begins with the first middle argument: space-free,
        // and its first byte is not the trailing marker.
        assert(forall|i: int| 0 <= i < m0.len() ==> tail[i] == m0[i]);
        assert(forall|k: int| pos <= k < j ==> s[k] == m0[k - pos]);
        assert(forall|k: int| pos <= k < j ==> s[k] != SPACE) by {
            assert(token_ok(middles[0]));
        }
        assert(s[pos] != COLON) by {
            assert(token_ok(middles[0]));
            assert(s[pos] == m0[0]);
        }
        if rest.len() == 0 && trailing is None {
            // The first middle argument is the last thing on the line.
            assert(tail =~= m0);
            assert(j == len);
            lemma_args_walk_token(s, pos, pos, j);
            let (spans, _p) = spec_args_from(s, pos, pos);
            assert(spans == seq![Span { start: pos as usize, end: s.len() as usize }]);
            assert(s.subrange(pos, len) =~= m0);
            assert(select_views(spans, s) =~= middles + trailing_views(trailing));
        } else {
            // A space and the rest of the tail follow the first middle
            // argument.
            let tl2 = spec_tail(rest, trailing);
            assert(spec_middles(rest) + spec_trailing(trailing) =~= seq![SPACE] + tl2) by {
                if rest.len() == 0 {
                    assert(trailing is Some);
                }
            }
            assert(tail =~= m0 + seq![SPACE] + tl2);
            assert(tl2.len() > 0) by {
                if rest.len() > 0 {
                    assert(token_ok(middles[1]));
                    assert(rest[0] == middles[1]);
                    assert(tl2.len() >= rest[0].len());
                }
            }
            assert(tail.len() == m0.len() + 1 + tl2.len());
            assert(j + 1 < len);
            assert(tail[(j - pos) as int] == SPACE);
            assert(s[j] == SPACE);
            lemma_args_walk_token(s, pos, pos, j);
            let first = Span { start: pos as usize, end: j as usize };
            let (spans, _p) = spec_args_from(s, pos, pos);
            let (rest_spans, _rp) = spec_args_from(s, j + 1, j + 1);
            assert(spans == rest_spans.insert(0, first));
            assert(forall|k: int| 0 <= k < tl2.len() ==> tail[m0.len() + 1 + k] == tl2[k]);
            assert(s.subrange(j + 1, len) =~= tl2);
            lemma_args_parse_tail(s, j + 1, rest, trailing);
            assert(select_views(rest_spans, s) == rest + trailing_views(trailing));
            assert(first.select(s) =~= m0);
            assert(select_views(spans, s) =~= middles + trailing_views(trailing)) by {
                let tv = trailing_views(trailing);
                assert(spans.len() == 1 + rest_spans.len());
                assert(rest_spans.len() == rest.len() + tv.len());
                assert(middles.len() == 1 + rest.len());
                assert(select_views(spans, s)[0] == spans[0].select(s));
                assert(spans[0] == first);
                assert((middles + tv)[0] == middles[0]);
                assert(forall|k: int| 1 <= k < spans.len() ==> spans[k] == rest_spans[k - 1]);
                assert(forall|k: int|
                    1 <= k < spans.len() ==> select_views(spans, s)[k] == spans[k].select(s));
                assert(forall|k: int|
                    0 <= k < rest_spans.len() ==> select_views(rest_spans, s)[k]
                        == rest_spans[k].select(s));
                assert(forall|k: int|
                    0 <= k < rest_spans.len() ==> rest_spans[k].select(s) == (rest + tv)[k]);
                assert(forall|k: int| 1 <= k < spans.len() ==> (middles + tv)[k] == (rest + tv)[k
                    - 1]) by {
                    assert(forall|k: int|
                        1 <= k < middles.len() ==> (middles + tv)[k] == middles[k] && middles[k]
                            == rest[k - 1] && (rest + tv)[k - 1] == rest[k - 1]);
                    assert(forall|k: int|
                        middles.len() <= k < spans.len() ==> (middles + tv)[k] == tv[k
                            - middles.len()] && (rest + tv)[k - 1] == tv[k - 1 - rest.len()]);
                }
            }
        }
    }
}

/// A sequence of ASCII bytes is valid UTF-8.
pub proof fn lemma_ascii_valid_utf8(s: Seq<u8>)
    requires
        forall|i: int| 0 <= i < s.len() ==> s[i] <= 0x7f,
    ensures
        valid_utf8(s),
{
    assert(s.subrange(0, 0) =~= Seq::<u8>::empty());
    assert(valid_utf8(s.subrange(0, 0)));
    assert(forall|i: int| 0 <= i < s.len() ==> is_leading_byte_width_1(#[trigger] s[i]));
    partial_valid_utf8_extend_ascii_block(s, 0, s.len() as int);
    assert(s.subrange(0, s.len() as int) =~= s);
}

// ---------------------------------------------------------------------
// The round-trip law.
// ---------------------------------------------------------------------

/// Round trip: a line built from a well-formed command, well-formed
/// middle arguments and an arbitrary trailing argument parses with no
/// tags and no prefix, with exactly that command, and with exactly
/// those arguments, each reproduced verbatim from the line.
pub proof fn lemma_parse_built_line(cmd: Seq<u8>, middles: Seq<Seq<u8>>, trailing: Option<Seq<u8>>)
    requires
        command_ok(cmd),
        forall|i: int| 0 <= i < middles.len() ==> token_ok(#[trigger] middles[i]),
        spec_line(cmd, middles, trailing).len() <= usize::MAX,
    ensures
        ({
            let line = spec_line(cmd, middles, trailing);
            &&& spec_parse(line) matches Some(p)
            &&& p.tags is None
            &&& p.prefix is None
            &&& p.command == Span { start: 0, end: cmd.len() as usize }
            &&& p.command.select(line) == cmd
            &&& parsed_args_views(p, line) == middles + trailing_views(trailing)
        }),
{
    let line = spec_line(cmd, middles, trailing);
    let len = line.len() as int;
    assert(cmd.len() > 0);
    assert(forall|k: int| 0 <= k < cmd.len() ==> line[k] == cmd[k]);
    assert(line[0] != AT_SIGN && line[0] != COLON && line[0] != SPACE);
    assert(spec_parse_tags(line) == Some((None::<Seq<crate::span::TagSpan>>, 0int)));
    assert(spec_parse_prefix(line, 0) == Some((None::<crate::span::PrefixSpans>, 0int)));

    let cend = cmd.len() as int;
    if middles.len() == 0 && trailing is None {
        assert(line =~= cmd);
        lemma_scan_command_segment(line, 0, cend);
        assert(cend == len);
        let p = spec_parse(line).unwrap();
        assert(p.command == Span { start: 0, end: cmd.len() as usize });
        assert(p.command.select(line) =~= cmd);
        assert(p.args is None);
        assert(parsed_args_views(p, line) =~= middles + trailing_views(trailing));
    } else {
        // A space and the nonempty tail follow the command.
        let tail = spec_tail(middles, trailing);
        assert(spec_middles(middles) + spec_trailing(trailing) =~= seq![SPACE] + tail) by {
            if middles.len() == 0 {
                assert(trailing is Some);
            }
        }
        assert(line =~= cmd + seq![SPACE] + tail);
        assert(tail.len() > 0) by {
            if middles.len() > 0 {
                assert(token_ok(middles[0]));
                assert(tail.len() >= middles[0].len());
            }
        }
        assert(line.len() == cmd.len() + 1 + tail.len());
        assert(line[cend] == SPACE);
        lemma_scan_command_segment(line, 0, cend);
        assert(scan_command(line, 0) == cend);
        assert(cend + 1 < len);
        assert(spec_parse_command(line, 0) == Some(
            (Span { start: 0, end: cmd.len() as usize }, cend + 1),
        ));
        assert(forall|k: int| 0 <= k < tail.len() ==> line[cmd.len() + 1 + k] == tail[k]);
        assert(line.subrange(cend + 1, len) =~= tail);
        lemma_args_parse_tail(line, cend + 1, middles, trailing);
        let p = spec_parse(line).unwrap();
        assert(p.command.select(line) =~= cmd);
        let (spans, _fp) = spec_args_from(line, cend + 1, cend + 1);
        assert(p.args == Some(spans));
        assert(parsed_args_views(p, line) == middles + trailing_views(trailing));
    }
}


/// A line of valid UTF-8 pieces, joined by the ASCII separators of the
/// grammar, is valid UTF-8.
proof fn lemma_middles_valid_utf8(middles: Seq<Seq<u8>>)
    requires
        forall|i: int| 0 <= i < middles.len() ==> valid_utf8(#[trigger] middles[i]),
    ensures
        valid_utf8(spec_middles(middles)),
    decreases middles.len(),
{
    if middles.len() == 0 {
        lemma_ascii_valid_utf8(spec_middles(middles));
    } else {
        lemma_ascii_valid_utf8(seq![SPACE]);
        lemma_middles_valid_utf8(middles.drop_first());
        valid_utf8_concat(seq![SPACE], middles[0]);
        valid_utf8_concat(seq![SPACE] + middles[0], spec_middles(middles.drop_first()));
    }
}

/// A line whose command is ASCII and whose arguments are valid UTF-8 is
/// valid UTF-8.
pub proof fn lemma_line_valid_utf8(cmd: Seq<u8>, middles: Seq<Seq<u8>>, trailing: Option<Seq<u8>>)
    requires
        forall|i: int| 0 <= i < cmd.len() ==> cmd[i] <= 0x7f,
        forall|i: int| 0 <= i < middles.len() ==> valid_utf8(#[trigger] middles[i]),
        trailing matches Some(t) ==> valid_utf8(t),
    ensures
        valid_utf8(spec_line(cmd, middles, trailing)),
{
    lemma_ascii_valid_utf8(cmd);
    lemma_middles_valid_utf8(middles);
    assert(valid_utf8(spec_trailing(trailing))) by {
        match trailing {
            Some(t) => {
                lemma_ascii_valid_utf8(seq![SPACE, COLON]);
                valid_utf8_concat(seq![SPACE, COLON], t);
            },
            None => {
                lemma_ascii_valid_utf8(spec_trailing(trailing));
            },
        }
    }
    valid_utf8_concat(cmd, spec_middles(middles));
    valid_utf8_concat(cmd + spec_middles(middles), spec_trailing(trailing));
}

// ---------------------------------------------------------------------
// Unfoldings of `spec_middles` for the small argument counts that the
// line constructors use.
// ---------------------------------------------------------------------

pub proof fn lemma_middles1(m1: Seq<u8>)
    ensures
        spec_middles(seq![m1]) == seq![SPACE] + m1,
{
    assert(seq![m1].drop_first() =~= Seq::<Seq<u8>>::empty());
    assert(spec_middles(Seq::<Seq<u8>>::empty()) == Seq::<u8>::empty());
    assert(spec_middles(seq![m1]) =~= seq![SPACE] + m1);
}

pub proof fn lemma_middles2(m1: Seq<u8>, m2: Seq<u8>)
    ensures
        spec_middles(seq![m1, m2]) == seq![SPACE] + m1 + (seq![SPACE] + m2),
{
    assert(seq![m1, m2].drop_first() =~= seq![m2]);
    lemma_middles1(m2);
    assert(spec_middles(seq![m1, m2]) =~= seq![SPACE] + m1 + (seq![SPACE] + m2));
}

pub proof fn lemma_middles3(m1: Seq<u8>, m2: Seq<u8>, m3: Seq<u8>)
    ensures
        spec_middles(seq![m1, m2, m3]) == seq![SPACE] + m1 + (seq![SPACE] + m2) + (seq![SPACE]
            + m3),
{
    assert(seq![m1, m2, m3].drop_first() =~= seq![m2, m3]);
    lemma_middles2(m2, m3);
    assert(spec_middles(seq![m1, m2, m3]) =~= seq![SPACE] + m1 + (seq![SPACE] + m2) + (seq![SPACE]
        + m3));
}

// ---------------------------------------------------------------------
// The executable line builders.
// ---------------------------------------------------------------------

/// Appends the bytes of `b` to `out`.
fn push_bytes(out: &mut Vec<u8>, b: &[u8])
    ensures
        final(out)@ == old(out)@ + b@,
{
    let mut i: usize = 0;
    while i < b.len()
        invariant
            i <= b@.len(),
            out@ == old(out)@ + b@.subrange(0, i as int),
        decreases b@.len() - i,
    {
        let ghost prev = out@;
        out.push(b[i]);
        i = i + 1;
        proof {
            assert(out@ =~= old(out)@ + b@.subrange(0, i as int));
        }
    }
    proof {
        assert(old(out)@ + b@.subrange(0, b@.len() as int) =~= old(out)@ + b@);
    }
}

/// Builds `cmd` followed by the marked trailing argument.
pub fn line_trailing(cmd: &[u8], t: &[u8]) -> (r: Vec<u8>)
    ensures
        r@ == spec_line(cmd@, Seq::empty(), Some(t@)),
{
    let mut out: Vec<u8> = Vec::new();
    push_bytes(&mut out, cmd);
    out.push(SPACE);
    out.push(COLON);
    push_bytes(&mut out, t);
    proof {
        assert(out@ =~= spec_line(cmd@, Seq::empty(), Some(t@)));
    }
    out
}

/// Builds `cmd` followed by one middle argument.
pub fn line_m1(cmd: &[u8], m1: &[u8]) -> (r: Vec<u8>)
    ensures
        r@ == spec_line(cmd@, seq![m1@], None),
{
    let mut out: Vec<u8> = Vec::new();
    push_bytes(&mut out, cmd);
    out.push(SPACE);
    push_bytes(&mut out, m1);
    proof {
        lemma_middles1(m1@);
        assert(out@ =~= spec_line(cmd@, seq![m1@], None));
    }
    out
}

/// Builds `cmd` followed by two middle arguments.
pub fn line_m2(cmd: &[u8], m1: &[u8], m2: &[u8]) -> (r: Vec<u8>)
    ensures
        r@ == spec_line(cmd@, seq![m1@, m2@], None),
{
    let mut out: Vec<u8> = Vec::new();
    push_bytes(&mut out, cmd);
    out.push(SPACE);
    push_bytes(&mut out, m1);
    out.push(SPACE);
    push_bytes(&mut out, m2);
    proof {
        lemma_middles2(m1@, m2@);
        assert(out@ =~= spec_line(cmd@, seq![m1@, m2@], None));
    }
    out
}

/// Builds `cmd`, one middle argument, and the marked trailing argument.
pub fn line_m1_trailing(cmd: &[u8], m1: &[u8], t: &[u8]) -> (r: Vec<u8>)
    ensures
        r@ == spec_line(cmd@, seq![m1@], Some(t@)),
{
    let mut out: Vec<u8> = Vec::new();
    push_bytes(&mut out, cmd);
    out.push(SPACE);
    push_bytes(&mut out, m1);
    out.push(SPACE);
    out.push(COLON);
    push_bytes(&mut out, t);
    proof {
        lemma_middles1(m1@);
        assert(out@ =~= spec_line(cmd@, seq![m1@], Some(t@)));
    }
    out
}

/// Builds `cmd`, three middle arguments, and the marked trailing
/// argument.
pub fn line_m3_trailing(cmd: &[u8], m1: &[u8], m2: &[u8], m3: &[u8], t: &[u8]) -> (r: Vec<u8>)
    ensures
        r@ == spec_line(cmd@, seq![m1@, m2@, m3@], Some(t@)),
{
    let mut out: Vec<u8> = Vec::new();
    push_bytes(&mut out, cmd);
    out.push(SPACE);
    push_bytes(&mut out, m1);
    out.push(SPACE);
    push_bytes(&mut out, m2);
    out.push(SPACE);
    push_bytes(&mut out, m3);
    out.push(SPACE);
    out.push(COLON);
    push_bytes(&mut out, t);
    proof {
        lemma_middles3(m1@, m2@, m3@);
        assert(out@ =~= spec_line(cmd@, seq![m1@, m2@, m3@], Some(t@)));
    }
    out
}

} // verus!
