//! Typed access to the command of a message.
//!
//! A type that implements [`Command`] names the wire command it matches
//! and can decompose the argument sequence of a message into its own
//! fixed shape, failing softly (no match) where the required fields
//! cannot all be pulled from the sequence.

use crate::parser::SPACE;
use crate::span::Span;
use vstd::prelude::*;
use vstd::slice::{slice_subrange, slice_to_vec};

verus! {

/// A double-ended cursor over the arguments of a `Message`.
///
/// It lazily converts index ranges into byte slices of the shared
/// buffer, and can be consumed from either end: extractors with a
/// variable or optional leading field peel their certain trailing
/// fields off the back first.
pub struct ArgumentIter<'a> {
    source: &'a [u8],
    spans: &'a [Span],
    front: usize,
    back: usize,
}

impl<'a> ArgumentIter<'a> {
    #[verifier::type_invariant]
    spec fn inv(self) -> bool {
        &&& self.front <= self.back <= self.spans@.len()
        &&& forall|i: int|
            0 <= i < self.spans@.len() ==> (#[trigger] self.spans@[i]).wf(self.source@.len() as int)
    }

    /// The argument strings not yet consumed, front to back.
    pub closed spec fn remaining(self) -> Seq<Seq<u8>> {
        self.spans@.subrange(self.front as int, self.back as int).map_values(
            |sp: Span| sp.select(self.source@),
        )
    }

    /// A fresh cursor over all of `spans`, each range resolved against
    /// `source`.
    pub fn new(source: &'a [u8], spans: &'a [Span]) -> (r: ArgumentIter<'a>)
        requires
            forall|i: int| 0 <= i < spans@.len() ==> (#[trigger] spans@[i]).wf(source@.len() as int),
        ensures
            r.remaining() == spans@.map_values(|sp: Span| sp.select(source@)),
    {
        let r = ArgumentIter { source, spans, front: 0, back: spans.len() };
        proof {
            assert(r.spans@.subrange(0, r.spans@.len() as int) =~= r.spans@);
        }
        r
    }

    /// The next argument from the front, or `None` when the cursor is
    /// exhausted.
    pub fn next(&mut self) -> (r: Option<&'a [u8]>)
        ensures
            match r {
                Some(b) => old(self).remaining().len() > 0 && b@ == old(self).remaining()[0]
                    && final(self).remaining() == old(self).remaining().drop_first(),
                None => old(self).remaining().len() == 0 && final(self).remaining() == old(
                    self,
                ).remaining(),
            },
    {
        proof {
            use_type_invariant(&*self);
        }
        if self.front < self.back {
            let sp = self.spans[self.front];
            let b = slice_subrange(self.source, sp.start, sp.end);
            let ghost prev = *self;
            self.front = self.front + 1;
            proof {
                assert(self.remaining() =~= prev.remaining().drop_first());
            }
            Some(b)
        } else {
            None
        }
    }

    /// The next argument from the back, or `None` when the cursor is
    /// exhausted.
    pub fn next_back(&mut self) -> (r: Option<&'a [u8]>)
        ensures
            match r {
                Some(b) => old(self).remaining().len() > 0 && b@ == old(self).remaining().last()
                    && final(self).remaining() == old(self).remaining().drop_last(),
                None => old(self).remaining().len() == 0 && final(self).remaining() == old(
                    self,
                ).remaining(),
            },
    {
        proof {
            use_type_invariant(&*self);
        }
        if self.front < self.back {
            let sp = self.spans[self.back - 1];
            let b = slice_subrange(self.source, sp.start, sp.end);
            let ghost prev = *self;
            self.back = self.back - 1;
            proof {
                assert(self.remaining() =~= prev.remaining().drop_last());
            }
            Some(b)
        } else {
            None
        }
    }
}

/// Compares two byte strings for equality.
pub fn bytes_eq(a: &[u8], b: &[u8]) -> (r: bool)
    ensures
        r == (a@ == b@),
{
    if a.len() != b.len() {
        return false;
    }
    let mut i: usize = 0;
    while i < a.len()
        invariant
            i <= a@.len(),
            a@.len() == b@.len(),
            forall|j: int| 0 <= j < i ==> a@[j] == b@[j],
        decreases a@.len() - i,
    {
        if a[i] != b[i] {
            return false;
        }
        i = i + 1;
    }
    proof {
        assert(a@ =~= b@);
    }
    true
}

/// The capability implemented by every typed command shape.
///
/// `try_match` compares the message's command to the shape's name
/// (exact, case-sensitive) and only on equality asks `parse` to pull the
/// shape's fields from the argument sequence.  Extraction never fails
/// loudly: a wrong name or missing fields is simply no match.
pub trait Command: Sized {
    /// The wire name of the command this shape matches.
    spec fn name_spec() -> Seq<u8>;

    /// Which results `parse` may return from the given argument strings:
    /// the typed shape filled from them, or no match.
    spec fn parse_matches(args: Seq<Seq<u8>>, r: Option<Self>) -> bool;

    /// The wire name of the command, as bytes.
    fn name() -> (r: Vec<u8>)
        ensures
            r@ == Self::name_spec(),
    ;

    /// Attempts to decompose the argument sequence into this shape.
    fn parse(args: ArgumentIter<'_>) -> (r: Option<Self>)
        ensures
            Self::parse_matches(args.remaining(), r),
    ;

    /// Matches the command name first, and parses the arguments only on
    /// equality; any other command value is no match, without parsing.
    fn try_match(command: &[u8], args: ArgumentIter<'_>) -> (r: Option<Self>)
        ensures
            command@ == Self::name_spec() ==> Self::parse_matches(args.remaining(), r),
            command@ != Self::name_spec() ==> r is None,
    {
        let name = Self::name();
        if bytes_eq(command, name.as_slice()) {
            Self::parse(args)
        } else {
            None
        }
    }
}

/// `r` is the single leading argument, or no match on an empty sequence.
pub open spec fn one_arg_matches(args: Seq<Seq<u8>>, r: Option<Seq<u8>>) -> bool {
    match r {
        Some(a) => args.len() >= 1 && a == args[0],
        None => args.len() == 0,
    }
}

/// `r` is the two leading arguments, or no match where fewer exist.
pub open spec fn two_arg_matches(args: Seq<Seq<u8>>, r: Option<(Seq<u8>, Seq<u8>)>) -> bool {
    match r {
        Some((a, b)) => args.len() >= 2 && a == args[0] && b == args[1],
        None => args.len() < 2,
    }
}

/// A PING command.  The field is the host.
pub struct Ping(pub Vec<u8>);

impl Command for Ping {
    open spec fn name_spec() -> Seq<u8> {
        seq![80u8, 73u8, 78u8, 71u8]
    }

    open spec fn parse_matches(args: Seq<Seq<u8>>, r: Option<Self>) -> bool {
        one_arg_matches(
            args,
            match r {
                Some(p) => Some(p.0@),
                None => None,
            },
        )
    }

    fn name() -> (r: Vec<u8>) {
        let mut v: Vec<u8> = Vec::new();
        v.push(80);
        v.push(73);
        v.push(78);
        v.push(71);
        proof {
            assert(v@ =~= Self::name_spec());
        }
        v
    }

    fn parse(args: ArgumentIter<'_>) -> (r: Option<Self>) {
        let mut args = args;
        match args.next() {
            Some(host) => Some(Ping(slice_to_vec(host))),
            None => None,
        }
    }
}


/// Pulls the single leading argument off the front of the cursor.
fn pull_one<'a>(args: ArgumentIter<'a>) -> (r: Option<&'a [u8]>)
    ensures
        one_arg_matches(
            args.remaining(),
            match r {
                Some(b) => Some(b@),
                None => None,
            },
        ),
{
    let mut it = args;
    it.next()
}

/// Pulls the two leading arguments off the front of the cursor.
fn pull_two<'a>(args: ArgumentIter<'a>) -> (r: Option<(&'a [u8], &'a [u8])>)
    ensures
        two_arg_matches(
            args.remaining(),
            match r {
                Some((a, b)) => Some((a@, b@)),
                None => None,
            },
        ),
{
    let mut it = args;
    let first = match it.next() {
        Some(a) => a,
        None => {
            return None;
        },
    };
    let second = match it.next() {
        Some(b) => b,
        None => {
            return None;
        },
    };
    Some((first, second))
}

/// A PONG command.  The field is the host.
pub struct Pong(pub Vec<u8>);

impl Command for Pong {
    open spec fn name_spec() -> Seq<u8> {
        seq![80u8, 79u8, 78u8, 71u8]
    }

    open spec fn parse_matches(args: Seq<Seq<u8>>, r: Option<Self>) -> bool {
        one_arg_matches(
            args,
            match r {
                Some(p) => Some(p.0@),
                None => None,
            },
        )
    }

    fn name() -> (r: Vec<u8>) {
        let mut v: Vec<u8> = Vec::new();
        v.push(80);
        v.push(79);
        v.push(78);
        v.push(71);
        proof {
            assert(v@ =~= Self::name_spec());
        }
        v
    }

    fn parse(args: ArgumentIter<'_>) -> (r: Option<Self>) {
        match pull_one(args) {
            Some(host) => Some(Pong(slice_to_vec(host))),
            None => None,
        }
    }
}

/// A PRIVMSG command.  The fields are the target and the message text.
pub struct PrivMsg(pub Vec<u8>, pub Vec<u8>);

impl Command for PrivMsg {
    open spec fn name_spec() -> Seq<u8> {
        seq![80u8, 82u8, 73u8, 86u8, 77u8, 83u8, 71u8]
    }

    open spec fn parse_matches(args: Seq<Seq<u8>>, r: Option<Self>) -> bool {
        two_arg_matches(
            args,
            match r {
                Some(p) => Some((p.0@, p.1@)),
                None => None,
            },
        )
    }

    fn name() -> (r: Vec<u8>) {
        let mut v: Vec<u8> = Vec::new();
        v.push(80);
        v.push(82);
        v.push(73);
        v.push(86);
        v.push(77);
        v.push(83);
        v.push(71);
        proof {
            assert(v@ =~= Self::name_spec());
        }
        v
    }

    fn parse(args: ArgumentIter<'_>) -> (r: Option<Self>) {
        match pull_two(args) {
            Some((target, text)) => Some(PrivMsg(slice_to_vec(target), slice_to_vec(text))),
            None => None,
        }
    }
}

/// A JOIN command.  The field is the channel list.
pub struct Join(pub Vec<u8>);

impl Command for Join {
    open spec fn name_spec() -> Seq<u8> {
        seq![74u8, 79u8, 73u8, 78u8]
    }

    open spec fn parse_matches(args: Seq<Seq<u8>>, r: Option<Self>) -> bool {
        one_arg_matches(
            args,
            match r {
                Some(p) => Some(p.0@),
                None => None,
            },
        )
    }

    fn name() -> (r: Vec<u8>) {
        let mut v: Vec<u8> = Vec::new();
        v.push(74);
        v.push(79);
        v.push(73);
        v.push(78);
        proof {
            assert(v@ =~= Self::name_spec());
        }
        v
    }

    fn parse(args: ArgumentIter<'_>) -> (r: Option<Self>) {
        match pull_one(args) {
            Some(channel) => Some(Join(slice_to_vec(channel))),
            None => None,
        }
    }
}

/// The WELCOME numeric.  The fields are the user and the welcome text.
pub struct Welcome(pub Vec<u8>, pub Vec<u8>);

impl Command for Welcome {
    open spec fn name_spec() -> Seq<u8> {
        seq![48u8, 48u8, 49u8]
    }

    open spec fn parse_matches(args: Seq<Seq<u8>>, r: Option<Self>) -> bool {
        two_arg_matches(
            args,
            match r {
                Some(p) => Some((p.0@, p.1@)),
                None => None,
            },
        )
    }

    fn name() -> (r: Vec<u8>) {
        let mut v: Vec<u8> = Vec::new();
        v.push(48);
        v.push(48);
        v.push(49);
        proof {
            assert(v@ =~= Self::name_spec());
        }
        v
    }

    fn parse(args: ArgumentIter<'_>) -> (r: Option<Self>) {
        match pull_two(args) {
            Some((user, text)) => Some(Welcome(slice_to_vec(user), slice_to_vec(text))),
            None => None,
        }
    }
}

/// The YOURHOST numeric.  The fields are the user and the host text.
pub struct YourHost(pub Vec<u8>, pub Vec<u8>);

impl Command for YourHost {
    open spec fn name_spec() -> Seq<u8> {
        seq![48u8, 48u8, 50u8]
    }

    open spec fn parse_matches(args: Seq<Seq<u8>>, r: Option<Self>) -> bool {
        two_arg_matches(
            args,
            match r {
                Some(p) => Some((p.0@, p.1@)),
                None => None,
            },
        )
    }

    fn name() -> (r: Vec<u8>) {
        let mut v: Vec<u8> = Vec::new();
        v.push(48);
        v.push(48);
        v.push(50);
        proof {
            assert(v@ =~= Self::name_spec());
        }
        v
    }

    fn parse(args: ArgumentIter<'_>) -> (r: Option<Self>) {
        match pull_two(args) {
            Some((user, text)) => Some(YourHost(slice_to_vec(user), slice_to_vec(text))),
            None => None,
        }
    }
}

/// The CREATED numeric.  The fields are the user and the created text.
pub struct Created(pub Vec<u8>, pub Vec<u8>);

impl Command for Created {
    open spec fn name_spec() -> Seq<u8> {
        seq![48u8, 48u8, 51u8]
    }

    open spec fn parse_matches(args: Seq<Seq<u8>>, r: Option<Self>) -> bool {
        two_arg_matches(
            args,
            match r {
                Some(p) => Some((p.0@, p.1@)),
                None => None,
            },
        )
    }

    fn name() -> (r: Vec<u8>) {
        let mut v: Vec<u8> = Vec::new();
        v.push(48);
        v.push(48);
        v.push(51);
        proof {
            assert(v@ =~= Self::name_spec());
        }
        v
    }

    fn parse(args: ArgumentIter<'_>) -> (r: Option<Self>) {
        match pull_two(args) {
            Some((user, text)) => Some(Created(slice_to_vec(user), slice_to_vec(text))),
            None => None,
        }
    }
}

/// The MYINFO numeric.  The fields are the user and the server info text.
pub struct ServerInfo(pub Vec<u8>, pub Vec<u8>);

impl Command for ServerInfo {
    open spec fn name_spec() -> Seq<u8> {
        seq![48u8, 48u8, 52u8]
    }

    open spec fn parse_matches(args: Seq<Seq<u8>>, r: Option<Self>) -> bool {
        two_arg_matches(
            args,
            match r {
                Some(p) => Some((p.0@, p.1@)),
                None => None,
            },
        )
    }

    fn name() -> (r: Vec<u8>) {
        let mut v: Vec<u8> = Vec::new();
        v.push(48);
        v.push(48);
        v.push(52);
        proof {
            assert(v@ =~= Self::name_spec());
        }
        v
    }

    fn parse(args: ArgumentIter<'_>) -> (r: Option<Self>) {
        match pull_two(args) {
            Some((user, text)) => Some(ServerInfo(slice_to_vec(user), slice_to_vec(text))),
            None => None,
        }
    }
}

// ---------------------------------------------------------------------
// Splitting on whitespace, for the member list of a NAMES reply.
// ---------------------------------------------------------------------

/// An ASCII whitespace byte: space, or one of tab, line feed, vertical
/// tab, form feed, carriage return.
pub open spec fn is_ws(b: u8) -> bool {
    b == SPACE || (9 <= b <= 13)
}

/// The split of `s` from `i` on runs of whitespace, with `cur` the part
/// of the current word read so far.
pub open spec fn split_ws_rec(s: Seq<u8>, i: int, cur: Seq<u8>) -> Seq<Seq<u8>>
    decreases s.len() - i,
{
    if i < 0 || i >= s.len() {
        if cur.len() == 0 {
            Seq::empty()
        } else {
            seq![cur]
        }
    } else if is_ws(s[i]) {
        if cur.len() == 0 {
            split_ws_rec(s, i + 1, Seq::empty())
        } else {
            seq![cur] + split_ws_rec(s, i + 1, Seq::empty())
        }
    } else {
        split_ws_rec(s, i + 1, cur.push(s[i]))
    }
}

/// The maximal runs of bytes of `s` that are not ASCII whitespace, in
/// order.  Whitespace characters outside ASCII are multi-byte sequences
/// here and are not treated as separators.
pub open spec fn split_ws(s: Seq<u8>) -> Seq<Seq<u8>> {
    split_ws_rec(s, 0, Seq::empty())
}

fn is_ws_byte(b: u8) -> (r: bool)
    ensures
        r == is_ws(b),
{
    b == SPACE || (9 <= b && b <= 13)
}

/// Splits `s` into its maximal runs of bytes that are not ASCII
/// whitespace.
pub fn split_whitespace(s: &[u8]) -> (r: Vec<Vec<u8>>)
    ensures
        r.deep_view() == split_ws(s@),
{
    let mut out: Vec<Vec<u8>> = Vec::new();
    let mut cur: Vec<u8> = Vec::new();
    let mut i: usize = 0;
    while i < s.len()
        invariant
            i <= s@.len(),
            split_ws(s@) == out.deep_view() + split_ws_rec(s@, i as int, cur@),
        decreases s@.len() - i,
    {
        let ghost prev_out = out;
        let ghost prev_cur = cur;
        let b = s[i];
        if is_ws_byte(b) {
            if cur.len() > 0 {
                out.push(cur);
                cur = Vec::new();
                proof {
                    assert(out.deep_view() =~~= prev_out.deep_view() + seq![prev_cur@]);
                    assert(out.deep_view() + split_ws_rec(s@, i + 1, cur@) =~~= prev_out.deep_view()
                        + split_ws_rec(s@, i as int, prev_cur@));
                }
            }
            proof {
                assert(cur@ =~= Seq::<u8>::empty());
            }
        } else {
            cur.push(b);
        }
        i = i + 1;
    }
    let ghost prev_out = out;
    let ghost prev_cur = cur;
    if cur.len() > 0 {
        out.push(cur);
        proof {
            assert(out.deep_view() =~~= prev_out.deep_view() + seq![prev_cur@]);
        }
    }
    proof {
        assert(out.deep_view() =~~= split_ws(s@));
    }
    out
}

// ---------------------------------------------------------------------
// The NAMES replies, whose leading fields are variable: their certain
// trailing fields are pulled off the back first.
// ---------------------------------------------------------------------

/// The visibility marker of a channel in a NAMES reply.
#[derive(Clone, Copy, Debug, PartialEq, Eq, Structural)]
pub enum NamesReplyChannelType {
    Secret,
    Private,
    Other,
}

/// The visibility named by a NAMES-reply marker argument: `@` is secret,
/// `*` is private, anything else is the sentinel classification.
pub open spec fn classify_channel(s: Seq<u8>) -> NamesReplyChannelType {
    if s == seq![64u8] {
        NamesReplyChannelType::Secret
    } else if s == seq![42u8] {
        NamesReplyChannelType::Private
    } else {
        NamesReplyChannelType::Other
    }
}

fn classify(s: &[u8]) -> (r: NamesReplyChannelType)
    ensures
        r == classify_channel(s@),
{
    if s.len() == 1 {
        if s[0] == 64 {
            proof {
                assert(s@ =~= seq![64u8]);
            }
            return NamesReplyChannelType::Secret;
        }
        if s[0] == 42 {
            proof {
                assert(s@ =~= seq![42u8]);
            }
            return NamesReplyChannelType::Private;
        }
    }
    NamesReplyChannelType::Other
}

/// The NAMES reply numeric.  The fields are the channel visibility, the
/// channel, and the member names split on ASCII whitespace.
pub struct NamesReply(pub NamesReplyChannelType, pub Vec<u8>, pub Vec<Vec<u8>>);

impl Command for NamesReply {
    open spec fn name_spec() -> Seq<u8> {
        seq![51u8, 53u8, 51u8]
    }

    open spec fn parse_matches(args: Seq<Seq<u8>>, r: Option<Self>) -> bool {
        match r {
            Some(nr) => {
                &&& args.len() >= 2
                &&& nr.0 == (if args.len() >= 3 {
                    classify_channel(args[args.len() - 3])
                } else {
                    NamesReplyChannelType::Other
                })
                &&& nr.1@ == args[args.len() - 2]
                &&& nr.2.deep_view() == split_ws(args[args.len() - 1])
            },
            None => args.len() < 2,
        }
    }

    fn name() -> (r: Vec<u8>) {
        let mut v: Vec<u8> = Vec::new();
        v.push(51);
        v.push(53);
        v.push(51);
        proof {
            assert(v@ =~= Self::name_spec());
        }
        v
    }

    fn parse(args: ArgumentIter<'_>) -> (r: Option<Self>) {
        let mut it = args;
        let names_arg = match it.next_back() {
            Some(a) => a,
            None => {
                return None;
            },
        };
        let channel = match it.next_back() {
            Some(a) => a,
            None => {
                return None;
            },
        };
        let channel_type = match it.next_back() {
            Some(marker) => classify(marker),
            None => NamesReplyChannelType::Other,
        };
        Some(NamesReply(channel_type, slice_to_vec(channel), split_whitespace(names_arg)))
    }
}

/// The end-of-NAMES numeric.  The fields are the channel and the closing
/// text; both are pulled off the back, since some servers prepend
/// non-standard leading arguments.
pub struct EndNamesReply(pub Vec<u8>, pub Vec<u8>);

impl Command for EndNamesReply {
    open spec fn name_spec() -> Seq<u8> {
        seq![51u8, 54u8, 54u8]
    }

    open spec fn parse_matches(args: Seq<Seq<u8>>, r: Option<Self>) -> bool {
        match r {
            Some(er) => {
                &&& args.len() >= 2
                &&& er.0@ == args[args.len() - 2]
                &&& er.1@ == args[args.len() - 1]
            },
            None => args.len() < 2,
        }
    }

    fn name() -> (r: Vec<u8>) {
        let mut v: Vec<u8> = Vec::new();
        v.push(51);
        v.push(54);
        v.push(54);
        proof {
            assert(v@ =~= Self::name_spec());
        }
        v
    }

    fn parse(args: ArgumentIter<'_>) -> (r: Option<Self>) {
        let mut it = args;
        let text = match it.next_back() {
            Some(a) => a,
            None => {
                return None;
            },
        };
        let channel = match it.next_back() {
            Some(a) => a,
            None => {
                return None;
            },
        };
        Some(EndNamesReply(slice_to_vec(channel), slice_to_vec(text)))
    }
}

} // verus!
