use pircolate::message::parse_message;
use pircolate::{Message, MessageParseError};

#[test]
fn empty_buffer_is_unexpected_end_of_input() {
    assert_eq!(
        Err(MessageParseError::UnexpectedEndOfInput),
        parse_message(b"").map(|m| m.raw_message().to_vec())
    );
}

#[test]
fn truncated_tag_key_is_unexpected_end_of_input() {
    assert_eq!(
        Err(MessageParseError::UnexpectedEndOfInput),
        parse_message(b"@a").map(|m| m.raw_message().to_vec())
    );
}

#[test]
fn tag_key_with_space_is_unexpected_end_of_input() {
    assert_eq!(
        Err(MessageParseError::UnexpectedEndOfInput),
        parse_message(b"@a b TEST").map(|m| m.raw_message().to_vec())
    );
}

#[test]
fn truncated_prefix_is_unexpected_end_of_input() {
    assert_eq!(
        Err(MessageParseError::UnexpectedEndOfInput),
        parse_message(b":origin").map(|m| m.raw_message().to_vec())
    );
}

#[test]
fn trailing_space_after_command_is_unexpected_end_of_input() {
    assert_eq!(
        Err(MessageParseError::UnexpectedEndOfInput),
        parse_message(b"TEST ").map(|m| m.raw_message().to_vec())
    );
}

#[test]
fn whitespace_only_line_is_unexpected_end_of_input() {
    assert_eq!(
        Err(MessageParseError::UnexpectedEndOfInput),
        parse_message(b" ").map(|m| m.raw_message().to_vec())
    );
}

#[test]
fn invalid_utf8_is_an_encoding_error() {
    assert_eq!(
        Err(MessageParseError::InvalidEncoding),
        parse_message(&[0xff, 0xfe, 0x41]).map(|m| m.raw_message().to_vec())
    );
}

#[test]
fn error_descriptions() {
    assert_eq!("Invalid UTF-8 input", MessageParseError::InvalidEncoding.describe());
    assert_eq!(
        "Unexpected End of Input (malformed message).",
        MessageParseError::UnexpectedEndOfInput.describe()
    );
}

#[test]
fn tag_with_empty_value_has_no_value() {
    let result = parse_message(b"@key= TEST").unwrap();

    let mut tags = result.raw_tags();
    let (key, value) = tags.next().unwrap();

    assert_eq!(b"key", key);
    assert_eq!(None, value);
}

#[test]
fn clone_has_identical_observable_content() {
    let original = Message::try_from("@a=1 :origin!user@host TEST arg :trailing text").unwrap();
    let copy = original.clone();

    assert_eq!(original.raw_message(), copy.raw_message());
    assert_eq!(original.raw_command(), copy.raw_command());
    assert_eq!(original.raw_prefix(), copy.raw_prefix());
    assert_eq!(original.prefix(), copy.prefix());

    let mut a = original.raw_args();
    let mut b = copy.raw_args();
    loop {
        let (x, y) = (a.next(), b.next());
        assert_eq!(x, y);
        if x.is_none() {
            break;
        }
    }
}

#[test]
fn clones_outlive_the_original_in_any_drop_order() {
    let first = Message::try_from("PING :test.host.com").unwrap();
    let second = first.clone();
    let third = second.clone();

    drop(first);
    assert_eq!(b"PING", second.raw_command());

    drop(second);
    assert_eq!(b"PING", third.raw_command());

    let fourth = third.clone();
    drop(third);
    assert_eq!(b"test.host.com".to_vec(), {
        let mut args = fourth.raw_args();
        args.next().unwrap().to_vec()
    });
}
