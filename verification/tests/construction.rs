use pircolate::command::{Join, Ping, Pong, PrivMsg, Welcome};
use pircolate::{client, server};

#[test]
fn ping_constructor_round_trips() {
    let message = server::ping("test.host.com").unwrap();
    let Ping(host) = message.command().unwrap();

    assert_eq!(b"PING", message.raw_command());
    assert_eq!(b"test.host.com".to_vec(), host);
}

#[test]
fn ping_with_empty_host_still_carries_one_argument() {
    let message = server::ping("").unwrap();
    let Ping(host) = message.command().unwrap();

    assert_eq!(Vec::<u8>::new(), host);
}

#[test]
fn welcome_constructor_round_trips() {
    let message = server::welcome("robots", "our overlords").unwrap();
    let Welcome(username, text) = message.command().unwrap();

    assert_eq!(b"robots".to_vec(), username);
    assert_eq!(b"our overlords".to_vec(), text);
}

#[test]
fn your_host_constructor_round_trips() {
    let message = server::your_host("robots", "our overlords").unwrap();

    assert_eq!(b"002", message.raw_command());
    assert_eq!(b"002 robots :our overlords", message.raw_message());
}

#[test]
fn created_constructor_round_trips() {
    let message = server::created("robots", "our overlords").unwrap();

    assert_eq!(b"003 robots :our overlords", message.raw_message());
}

#[test]
fn server_info_constructor_round_trips() {
    let message = server::server_info("robots", "our overlords").unwrap();

    assert_eq!(b"004 robots :our overlords", message.raw_message());
}

#[test]
fn pong_constructor_round_trips() {
    let message = client::pong("test.host.com").unwrap();
    let Pong(host) = message.command().unwrap();

    assert_eq!(b"test.host.com".to_vec(), host);
}

#[test]
fn pong_with_empty_host_is_malformed() {
    assert!(client::pong("").is_err());
}

#[test]
fn pong_accepts_a_host_with_an_interior_colon() {
    let message = client::pong("irc.example.com:6667").unwrap();
    let Pong(host) = message.command().unwrap();

    assert_eq!(b"irc.example.com:6667".to_vec(), host);
}

#[test]
fn pass_constructor_builds_the_expected_line() {
    let message = client::pass("hunter2").unwrap();

    assert_eq!(b"PASS hunter2", message.raw_message());
}

#[test]
fn nick_constructor_builds_the_expected_line() {
    let message = client::nick("memelord").unwrap();

    assert_eq!(b"NICK memelord", message.raw_message());
}

#[test]
fn user_constructor_builds_the_expected_line() {
    let message = client::user("memelord", "A Meme Lord").unwrap();

    assert_eq!(b"USER memelord 0 * :A Meme Lord", message.raw_message());

    let mut args = message.raw_args();
    assert_eq!(Some(&b"memelord"[..]), args.next());
    assert_eq!(Some(&b"0"[..]), args.next());
    assert_eq!(Some(&b"*"[..]), args.next());
    assert_eq!(Some(&b"A Meme Lord"[..]), args.next());
    assert_eq!(None, args.next());
}

#[test]
fn cap_req_constructor_builds_the_expected_line() {
    let message = client::cap_req("multi-prefix").unwrap();

    assert_eq!(b"CAP REQ :multi-prefix", message.raw_message());
    assert_eq!(b"CAP", message.raw_command());
}

#[test]
fn join_constructor_without_keys() {
    let message = client::join("#channel", None).unwrap();
    let Join(channel) = message.command().unwrap();

    assert_eq!(b"#channel".to_vec(), channel);
    assert_eq!(b"JOIN #channel", message.raw_message());
}

#[test]
fn join_constructor_with_keys() {
    let message = client::join("#a,#b", Some("k1,k2")).unwrap();

    assert_eq!(b"JOIN #a,#b k1,k2", message.raw_message());
}

#[test]
fn priv_msg_constructor_round_trips() {
    let message = client::priv_msg("#channel", "This is a message!").unwrap();
    let PrivMsg(target, text) = message.command().unwrap();

    assert_eq!(b"#channel".to_vec(), target);
    assert_eq!(b"This is a message!".to_vec(), text);
}
