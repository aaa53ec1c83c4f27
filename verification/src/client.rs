//! Constructors for messages a client sends: each formats a wire-ready
//! line and parses it, so the result carries exactly the parts it was
//! built from.

use crate::command::{Command, Join, Pong, PrivMsg};
use crate::error::MessageParseError;
use crate::line::{
    command_ok, line_m1, line_m1_trailing, line_m2, line_m3_trailing, spec_line, token_ok,
};
use crate::message::{lemma_built_line_outcome, parse_message, parse_outcome, Message};
use vstd::prelude::*;
use vstd::string::StringSliceAdditionalSpecFns;
use vstd::utf8::encode_utf8_valid_utf8;

verus! {

/// The wire name of the PASS command.
pub open spec fn pass_name() -> Seq<u8> {
    seq![80u8, 65u8, 83u8, 83u8]
}

/// The wire name of the NICK command.
pub open spec fn nick_name() -> Seq<u8> {
    seq![78u8, 73u8, 67u8, 75u8]
}

/// The wire name of the USER command.
pub open spec fn user_name() -> Seq<u8> {
    seq![85u8, 83u8, 69u8, 82u8]
}

/// The wire name of the CAP command.
pub open spec fn cap_name() -> Seq<u8> {
    seq![67u8, 65u8, 80u8]
}

/// The REQ subcommand of CAP.
pub open spec fn req_arg() -> Seq<u8> {
    seq![82u8, 69u8, 81u8]
}

/// The fixed mode argument of USER.
pub open spec fn user_mode_arg() -> Seq<u8> {
    seq![48u8]
}

/// The fixed unused argument of USER.
pub open spec fn user_unused_arg() -> Seq<u8> {
    seq![42u8]
}

fn pass_name_bytes() -> (r: Vec<u8>)
    ensures
        r@ == pass_name(),
{
    let mut v: Vec<u8> = Vec::new();
    v.push(80);
    v.push(65);
    v.push(83);
    v.push(83);
    proof {
        assert(v@ =~= pass_name());
    }
    v
}

fn nick_name_bytes() -> (r: Vec<u8>)
    ensures
        r@ == nick_name(),
{
    let mut v: Vec<u8> = Vec::new();
    v.push(78);
    v.push(73);
    v.push(67);
    v.push(75);
    proof {
        assert(v@ =~= nick_name());
    }
    v
}

fn user_name_bytes() -> (r: Vec<u8>)
    ensures
        r@ == user_name(),
{
    let mut v: Vec<u8> = Vec::new();
    v.push(85);
    v.push(83);
    v.push(69);
    v.push(82);
    proof {
        assert(v@ =~= user_name());
    }
    v
}

fn cap_name_bytes() -> (r: Vec<u8>)
    ensures
        r@ == cap_name(),
{
    let mut v: Vec<u8> = Vec::new();
    v.push(67);
    v.push(65);
    v.push(80);
    proof {
        assert(v@ =~= cap_name());
    }
    v
}

fn req_arg_bytes() -> (r: Vec<u8>)
    ensures
        r@ == req_arg(),
{
    let mut v: Vec<u8> = Vec::new();
    v.push(82);
    v.push(69);
    v.push(81);
    proof {
        assert(v@ =~= req_arg());
    }
    v
}

/// Constructs a message containing a PONG command targeting the
/// specified host.
pub fn pong(host: &str) -> (r: Result<Message, MessageParseError>)
    ensures
        parse_outcome(spec_line(Pong::name_spec(), seq![host.spec_bytes()], None), r),
        token_ok(host.spec_bytes()) ==> ({
            &&& r matches Ok(m)
            &&& m.command_bytes() == Pong::name_spec()
            &&& m.args_seq() == seq![host.spec_bytes()]
            &&& m.tags_seq().len() == 0
            &&& m.raw_prefix_bytes() is None
        }),
{
    let name = Pong::name();
    let line = line_m1(name.as_slice(), host.as_bytes());
    let _n = line.len();
    let r = parse_message(line.as_slice());
    proof {
        let hb = host.spec_bytes();
        if token_ok(hb) {
            assert(command_ok(Pong::name_spec()));
            encode_utf8_valid_utf8(host@);
            lemma_built_line_outcome(Pong::name_spec(), seq![hb], None, r);
            assert(seq![hb] + Seq::<Seq<u8>>::empty() =~= seq![hb]);
        }
    }
    r
}

/// Constructs a message containing a PASS command with the specified
/// password.
pub fn pass(password: &str) -> (r: Result<Message, MessageParseError>)
    ensures
        parse_outcome(spec_line(pass_name(), seq![password.spec_bytes()], None), r),
        token_ok(password.spec_bytes()) ==> ({
            &&& r matches Ok(m)
            &&& m.command_bytes() == pass_name()
            &&& m.args_seq() == seq![password.spec_bytes()]
            &&& m.tags_seq().len() == 0
            &&& m.raw_prefix_bytes() is None
        }),
{
    let name = pass_name_bytes();
    let line = line_m1(name.as_slice(), password.as_bytes());
    let _n = line.len();
    let r = parse_message(line.as_slice());
    proof {
        let pb = password.spec_bytes();
        if token_ok(pb) {
            assert(command_ok(pass_name()));
            encode_utf8_valid_utf8(password@);
            lemma_built_line_outcome(pass_name(), seq![pb], None, r);
            assert(seq![pb] + Seq::<Seq<u8>>::empty() =~= seq![pb]);
        }
    }
    r
}

/// Constructs a message containing a NICK command with the specified
/// nickname.
pub fn nick(nickname: &str) -> (r: Result<Message, MessageParseError>)
    ensures
        parse_outcome(spec_line(nick_name(), seq![nickname.spec_bytes()], None), r),
        token_ok(nickname.spec_bytes()) ==> ({
            &&& r matches Ok(m)
            &&& m.command_bytes() == nick_name()
            &&& m.args_seq() == seq![nickname.spec_bytes()]
            &&& m.tags_seq().len() == 0
            &&& m.raw_prefix_bytes() is None
        }),
{
    let name = nick_name_bytes();
    let line = line_m1(name.as_slice(), nickname.as_bytes());
    let _n = line.len();
    let r = parse_message(line.as_slice());
    proof {
        let nb = nickname.spec_bytes();
        if token_ok(nb) {
            assert(command_ok(nick_name()));
            encode_utf8_valid_utf8(nickname@);
            lemma_built_line_outcome(nick_name(), seq![nb], None, r);
            assert(seq![nb] + Seq::<Seq<u8>>::empty() =~= seq![nb]);
        }
    }
    r
}

/// Constructs a message containing a USER command with the specified
/// username and real name.
pub fn user(username: &str, real_name: &str) -> (r: Result<Message, MessageParseError>)
    ensures
        parse_outcome(
            spec_line(
                user_name(),
                seq![username.spec_bytes(), user_mode_arg(), user_unused_arg()],
                Some(real_name.spec_bytes()),
            ),
            r,
        ),
        token_ok(username.spec_bytes()) ==> ({
            &&& r matches Ok(m)
            &&& m.command_bytes() == user_name()
            &&& m.args_seq() == seq![
                username.spec_bytes(),
                user_mode_arg(),
                user_unused_arg(),
                real_name.spec_bytes(),
            ]
            &&& m.tags_seq().len() == 0
            &&& m.raw_prefix_bytes() is None
        }),
{
    let name = user_name_bytes();
    let mut mode: Vec<u8> = Vec::new();
    mode.push(48);
    let mut unused: Vec<u8> = Vec::new();
    unused.push(42);
    proof {
        assert(mode@ =~= user_mode_arg());
        assert(unused@ =~= user_unused_arg());
    }
    let line = line_m3_trailing(
        name.as_slice(),
        username.as_bytes(),
        mode.as_slice(),
        unused.as_slice(),
        real_name.as_bytes(),
    );
    let _n = line.len();
    let r = parse_message(line.as_slice());
    proof {
        let ub = username.spec_bytes();
        let rb = real_name.spec_bytes();
        let middles = seq![ub, user_mode_arg(), user_unused_arg()];
        if token_ok(ub) {
            assert(command_ok(user_name()));
            assert(token_ok(user_mode_arg()));
            assert(token_ok(user_unused_arg()));
            encode_utf8_valid_utf8(username@);
            encode_utf8_valid_utf8(real_name@);
            crate::line::lemma_ascii_valid_utf8(user_mode_arg());
            crate::line::lemma_ascii_valid_utf8(user_unused_arg());
            lemma_built_line_outcome(user_name(), middles, Some(rb), r);
            assert(middles + seq![rb] =~= seq![ub, user_mode_arg(), user_unused_arg(), rb]);
        }
    }
    r
}

/// Constructs a message containing an IRCv3 CAP REQ command for the
/// specified capability.
pub fn cap_req(cap: &str) -> (r: Result<Message, MessageParseError>)
    ensures
        ({
            &&& r matches Ok(m)
            &&& m.bytes() == spec_line(cap_name(), seq![req_arg()], Some(cap.spec_bytes()))
            &&& m.command_bytes() == cap_name()
            &&& m.args_seq() == seq![req_arg(), cap.spec_bytes()]
            &&& m.tags_seq().len() == 0
            &&& m.raw_prefix_bytes() is None
        }),
{
    let name = cap_name_bytes();
    let req = req_arg_bytes();
    let line = line_m1_trailing(name.as_slice(), req.as_slice(), cap.as_bytes());
    let _n = line.len();
    let r = parse_message(line.as_slice());
    proof {
        let cb = cap.spec_bytes();
        assert(command_ok(cap_name()));
        assert(token_ok(req_arg()));
        encode_utf8_valid_utf8(cap@);
        crate::line::lemma_ascii_valid_utf8(req_arg());
        lemma_built_line_outcome(cap_name(), seq![req_arg()], Some(cb), r);
        assert(seq![req_arg()] + seq![cb] =~= seq![req_arg(), cb]);
    }
    r
}

/// Constructs a message containing a JOIN command for the specified
/// channels, with an optional comma-separated list of channel keys.
pub fn join(channels: &str, keys: Option<&str>) -> (r: Result<Message, MessageParseError>)
    ensures
        keys is None ==> parse_outcome(
            spec_line(Join::name_spec(), seq![channels.spec_bytes()], None),
            r,
        ),
        keys matches Some(k) ==> parse_outcome(
            spec_line(Join::name_spec(), seq![channels.spec_bytes(), k.spec_bytes()], None),
            r,
        ),
        keys is None && token_ok(channels.spec_bytes()) ==> ({
            &&& r matches Ok(m)
            &&& m.command_bytes() == Join::name_spec()
            &&& m.args_seq() == seq![channels.spec_bytes()]
            &&& m.tags_seq().len() == 0
            &&& m.raw_prefix_bytes() is None
        }),
        keys matches Some(k) ==> ((token_ok(channels.spec_bytes()) && token_ok(k.spec_bytes()))
            ==> ({
            &&& r matches Ok(m)
            &&& m.command_bytes() == Join::name_spec()
            &&& m.args_seq() == seq![channels.spec_bytes(), k.spec_bytes()]
            &&& m.tags_seq().len() == 0
            &&& m.raw_prefix_bytes() is None
        })),
{
    let name = Join::name();
    let cb = channels.as_bytes();
    match keys {
        Some(k) => {
            let line = line_m2(name.as_slice(), cb, k.as_bytes());
            let _n = line.len();
            let r = parse_message(line.as_slice());
            proof {
                let cbs = channels.spec_bytes();
                let kbs = k.spec_bytes();
                if token_ok(cbs) && token_ok(kbs) {
                    assert(command_ok(Join::name_spec()));
                    encode_utf8_valid_utf8(channels@);
                    encode_utf8_valid_utf8(k@);
                    lemma_built_line_outcome(Join::name_spec(), seq![cbs, kbs], None, r);
                    assert(seq![cbs, kbs] + Seq::<Seq<u8>>::empty() =~= seq![cbs, kbs]);
                }
            }
            r
        },
        None => {
            let line = line_m1(name.as_slice(), cb);
            let _n = line.len();
            let r = parse_message(line.as_slice());
            proof {
                let cbs = channels.spec_bytes();
                if token_ok(cbs) {
                    assert(command_ok(Join::name_spec()));
                    encode_utf8_valid_utf8(channels@);
                    lemma_built_line_outcome(Join::name_spec(), seq![cbs], None, r);
                    assert(seq![cbs] + Seq::<Seq<u8>>::empty() =~= seq![cbs]);
                }
            }
            r
        },
    }
}

/// Constructs a message containing a PRIVMSG command sent to the
/// specified targets with the given message text.
pub fn priv_msg(targets: &str, message: &str) -> (r: Result<Message, MessageParseError>)
    ensures
        parse_outcome(
            spec_line(
                PrivMsg::name_spec(),
                seq![targets.spec_bytes()],
                Some(message.spec_bytes()),
            ),
            r,
        ),
        token_ok(targets.spec_bytes()) ==> ({
            &&& r matches Ok(m)
            &&& m.command_bytes() == PrivMsg::name_spec()
            &&& m.args_seq() == seq![targets.spec_bytes(), message.spec_bytes()]
            &&& m.tags_seq().len() == 0
            &&& m.raw_prefix_bytes() is None
        }),
{
    let name = PrivMsg::name();
    let line = line_m1_trailing(name.as_slice(), targets.as_bytes(), message.as_bytes());
    let _n = line.len();
    let r = parse_message(line.as_slice());
    proof {
        let tb = targets.spec_bytes();
        let mb = message.spec_bytes();
        if token_ok(tb) {
            assert(command_ok(PrivMsg::name_spec()));
            encode_utf8_valid_utf8(targets@);
            encode_utf8_valid_utf8(message@);
            lemma_built_line_outcome(PrivMsg::name_spec(), seq![tb], Some(mb), r);
            assert(seq![tb] + seq![mb] =~= seq![tb, mb]);
        }
    }
    r
}

} // verus!
