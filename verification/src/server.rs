//! Constructors for messages a server sends: each formats a wire-ready
//! line and parses it, so the result carries exactly the parts it was
//! built from.

use crate::command::{Command, Created, Ping, ServerInfo, Welcome, YourHost};
use crate::error::MessageParseError;
use crate::line::{command_ok, line_m1_trailing, line_trailing, spec_line, token_ok};
use crate::message::{lemma_built_line_outcome, parse_message, parse_outcome, Message};
use vstd::prelude::*;
use vstd::string::StringSliceAdditionalSpecFns;
use vstd::utf8::encode_utf8_valid_utf8;

verus! {

/// Constructs a message containing a PING command targeting the
/// specified host.
pub fn ping(host: &str) -> (r: Result<Message, MessageParseError>)
    ensures
        ({
            &&& r matches Ok(m)
            &&& m.bytes() == spec_line(Ping::name_spec(), Seq::empty(), Some(host.spec_bytes()))
            &&& m.command_bytes() == Ping::name_spec()
            &&& m.args_seq() == seq![host.spec_bytes()]
            &&& m.tags_seq().len() == 0
            &&& m.raw_prefix_bytes() is None
        }),
{
    let name = Ping::name();
    let line = line_trailing(name.as_slice(), host.as_bytes());
    let _n = line.len();
    let r = parse_message(line.as_slice());
    proof {
        let nm = Ping::name_spec();
        let hb = host.spec_bytes();
        assert(command_ok(nm));
        encode_utf8_valid_utf8(host@);
        lemma_built_line_outcome(nm, Seq::empty(), Some(hb), r);
        assert(Seq::<Seq<u8>>::empty() + seq![hb] =~= seq![hb]);
    }
    r
}

/// Constructs a message containing a WELCOME numeric with the specified
/// contents.
pub fn welcome(target: &str, message: &str) -> (r: Result<Message, MessageParseError>)
    ensures
        parse_outcome(
            spec_line(
                Welcome::name_spec(),
                seq![target.spec_bytes()],
                Some(message.spec_bytes()),
            ),
            r,
        ),
        token_ok(target.spec_bytes()) ==> ({
            &&& r matches Ok(m)
            &&& m.command_bytes() == Welcome::name_spec()
            &&& m.args_seq() == seq![target.spec_bytes(), message.spec_bytes()]
            &&& m.tags_seq().len() == 0
            &&& m.raw_prefix_bytes() is None
        }),
{
    let name = Welcome::name();
    let line = line_m1_trailing(name.as_slice(), target.as_bytes(), message.as_bytes());
    let _n = line.len();
    let r = parse_message(line.as_slice());
    proof {
        let nm = Welcome::name_spec();
        let tb = target.spec_bytes();
        let mb = message.spec_bytes();
        if token_ok(tb) {
            assert(command_ok(nm));
            encode_utf8_valid_utf8(target@);
            encode_utf8_valid_utf8(message@);
            lemma_built_line_outcome(nm, seq![tb], Some(mb), r);
            assert(seq![tb] + seq![mb] =~= seq![tb, mb]);
        }
    }
    r
}

/// Constructs a message containing a YOURHOST numeric with the
/// specified contents.
pub fn your_host(target: &str, message: &str) -> (r: Result<Message, MessageParseError>)
    ensures
        parse_outcome(
            spec_line(
                YourHost::name_spec(),
                seq![target.spec_bytes()],
                Some(message.spec_bytes()),
            ),
            r,
        ),
        token_ok(target.spec_bytes()) ==> ({
            &&& r matches Ok(m)
            &&& m.command_bytes() == YourHost::name_spec()
            &&& m.args_seq() == seq![target.spec_bytes(), message.spec_bytes()]
            &&& m.tags_seq().len() == 0
            &&& m.raw_prefix_bytes() is None
        }),
{
    let name = YourHost::name();
    let line = line_m1_trailing(name.as_slice(), target.as_bytes(), message.as_bytes());
    let _n = line.len();
    let r = parse_message(line.as_slice());
    proof {
        let nm = YourHost::name_spec();
        let tb = target.spec_bytes();
        let mb = message.spec_bytes();
        if token_ok(tb) {
            assert(command_ok(nm));
            encode_utf8_valid_utf8(target@);
            encode_utf8_valid_utf8(message@);
            lemma_built_line_outcome(nm, seq![tb], Some(mb), r);
            assert(seq![tb] + seq![mb] =~= seq![tb, mb]);
        }
    }
    r
}

/// Constructs a message containing a CREATED numeric with the specified
/// contents.
pub fn created(target: &str, message: &str) -> (r: Result<Message, MessageParseError>)
    ensures
        parse_outcome(
            spec_line(
                Created::name_spec(),
                seq![target.spec_bytes()],
                Some(message.spec_bytes()),
            ),
            r,
        ),
        token_ok(target.spec_bytes()) ==> ({
            &&& r matches Ok(m)
            &&& m.command_bytes() == Created::name_spec()
            &&& m.args_seq() == seq![target.spec_bytes(), message.spec_bytes()]
            &&& m.tags_seq().len() == 0
            &&& m.raw_prefix_bytes() is None
        }),
{
    let name = Created::name();
    let line = line_m1_trailing(name.as_slice(), target.as_bytes(), message.as_bytes());
    let _n = line.len();
    let r = parse_message(line.as_slice());
    proof {
        let nm = Created::name_spec();
        let tb = target.spec_bytes();
        let mb = message.spec_bytes();
        if token_ok(tb) {
            assert(command_ok(nm));
            encode_utf8_valid_utf8(target@);
            encode_utf8_valid_utf8(message@);
            lemma_built_line_outcome(nm, seq![tb], Some(mb), r);
            assert(seq![tb] + seq![mb] =~= seq![tb, mb]);
        }
    }
    r
}

/// Constructs a message containing a MYINFO numeric with the specified
/// contents.
pub fn server_info(target: &str, message: &str) -> (r: Result<Message, MessageParseError>)
    ensures
        parse_outcome(
            spec_line(
                ServerInfo::name_spec(),
                seq![target.spec_bytes()],
                Some(message.spec_bytes()),
            ),
            r,
        ),
        token_ok(target.spec_bytes()) ==> ({
            &&& r matches Ok(m)
            &&& m.command_bytes() == ServerInfo::name_spec()
            &&& m.args_seq() == seq![target.spec_bytes(), message.spec_bytes()]
            &&& m.tags_seq().len() == 0
            &&& m.raw_prefix_bytes() is None
        }),
{
    let name = ServerInfo::name();
    let line = line_m1_trailing(name.as_slice(), target.as_bytes(), message.as_bytes());
    let _n = line.len();
    let r = parse_message(line.as_slice());
    proof {
        let nm = ServerInfo::name_spec();
        let tb = target.spec_bytes();
        let mb = message.spec_bytes();
        if token_ok(tb) {
            assert(command_ok(nm));
            encode_utf8_valid_utf8(target@);
            encode_utf8_valid_utf8(message@);
            lemma_built_line_outcome(nm, seq![tb], Some(mb), r);
            assert(seq![tb] + seq![mb] =~= seq![tb, mb]);
        }
    }
    r
}

} // verus!
