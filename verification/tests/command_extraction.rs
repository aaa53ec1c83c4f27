use pircolate::command::{
    Created, EndNamesReply, NamesReply, NamesReplyChannelType, Ping, Pong, PrivMsg, ServerInfo,
    Welcome, YourHost,
};
use pircolate::Message;

#[test]
fn test_ping_command() {
    let message = Message::try_from("PING :test.host.com").unwrap();
    let Ping(host) = message.command().expect("Invalid ping command.");

    assert_eq!(b"test.host.com".to_vec(), host);
}

#[test]
fn test_pong_command() {
    let message = Message::try_from("PONG :test.host.com").unwrap();
    let Pong(host) = message.command().expect("Invalid pong command.");

    assert_eq!(b"test.host.com".to_vec(), host);
}

#[test]
fn test_privmsg_command() {
    let message = Message::try_from("PRIVMSG #channel :This is a message!").unwrap();
    let PrivMsg(target, text) = message.command().expect("Invalid privmsg command.");

    assert_eq!(b"#channel".to_vec(), target);
    assert_eq!(b"This is a message!".to_vec(), text);
}

#[test]
fn test_welcome_command() {
    let msg = Message::try_from("001 robots :our overlords").unwrap();
    let Welcome(username, text) = msg.command().expect("Invalid welcome command.");

    assert_eq!(b"robots".to_vec(), username);
    assert_eq!(b"our overlords".to_vec(), text);
}

#[test]
fn test_your_host_command() {
    let msg = Message::try_from("002 robots :our overlords").unwrap();
    let YourHost(username, text) = msg.command().expect("Invalid your host command.");

    assert_eq!(b"robots".to_vec(), username);
    assert_eq!(b"our overlords".to_vec(), text);
}

#[test]
fn test_created_command() {
    let msg = Message::try_from("003 robots :our overlords").unwrap();
    let Created(username, text) = msg.command().expect("Invalid created command.");

    assert_eq!(b"robots".to_vec(), username);
    assert_eq!(b"our overlords".to_vec(), text);
}

#[test]
fn test_server_info_command() {
    let msg = Message::try_from("004 robots :our overlords").unwrap();
    let ServerInfo(username, text) = msg.command().expect("Invalid server info command.");

    assert_eq!(b"robots".to_vec(), username);
    assert_eq!(b"our overlords".to_vec(), text);
}

#[test]
fn test_names_reply_command() {
    let msg = Message::try_from("353 = #test :robot1 robot2 robot3").unwrap();
    let NamesReply(channel_type, channel, users) =
        msg.command().expect("Invaid names reply command.");

    let expected_users = vec![b"robot1".to_vec(), b"robot2".to_vec(), b"robot3".to_vec()];

    assert_eq!(NamesReplyChannelType::Other, channel_type);
    assert_eq!(b"#test".to_vec(), channel);
    assert_eq!(expected_users, users);
}

#[test]
fn names_reply_secret_channel() {
    let msg = Message::try_from("353 @ #hidden :a b").unwrap();
    let NamesReply(channel_type, channel, users) = msg.command().unwrap();

    assert_eq!(NamesReplyChannelType::Secret, channel_type);
    assert_eq!(b"#hidden".to_vec(), channel);
    assert_eq!(vec![b"a".to_vec(), b"b".to_vec()], users);
}

#[test]
fn names_reply_private_channel() {
    let msg = Message::try_from("353 * #quiet :solo").unwrap();
    let NamesReply(channel_type, _, _) = msg.command().unwrap();

    assert_eq!(NamesReplyChannelType::Private, channel_type);
}

#[test]
fn names_reply_needs_two_arguments() {
    let msg = Message::try_from("353 #test").unwrap();
    assert!(msg.command::<NamesReply>().is_none());
}

#[test]
fn end_names_reply_pulls_from_the_back() {
    let msg = Message::try_from("366 extra noise #test :End of /NAMES list.").unwrap();
    let EndNamesReply(channel, text) = msg.command().expect("Invalid end of names command.");

    assert_eq!(b"#test".to_vec(), channel);
    assert_eq!(b"End of /NAMES list.".to_vec(), text);
}

#[test]
fn command_with_wrong_name_does_not_match() {
    let msg = Message::try_from("PING :test.host.com").unwrap();
    assert!(msg.command::<Pong>().is_none());
}

#[test]
fn command_with_too_few_arguments_does_not_match() {
    let msg = Message::try_from("PRIVMSG #channel").unwrap();
    assert!(msg.command::<PrivMsg>().is_none());
}
