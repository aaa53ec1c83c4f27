use pircolate::message::parse_message;

fn collected_args(message: &pircolate::Message) -> Vec<Vec<u8>> {
    let mut args = message.raw_args();
    let mut actual: Vec<Vec<u8>> = Vec::new();
    while let Some(arg) = args.next() {
        actual.push(arg.to_vec());
    }
    actual
}

fn collected_tags(message: &pircolate::Message) -> Vec<(Vec<u8>, Option<Vec<u8>>)> {
    let mut tags = message.raw_tags();
    let mut actual: Vec<(Vec<u8>, Option<Vec<u8>>)> = Vec::new();
    while let Some((key, value)) = tags.next() {
        actual.push((key.to_vec(), value.map(|v| v.to_vec())));
    }
    actual
}

#[test]
fn parse_command() {
    let result = parse_message("TEST".as_bytes()).unwrap();

    assert_eq!(None, result.prefix());
    assert_eq!(b"TEST", result.raw_command());
}

#[test]
fn parse_command_with_prefix() {
    let result = parse_message(":test.server.com TEST".as_bytes()).unwrap();

    assert_eq!(b"test.server.com", result.raw_prefix().unwrap());
    assert_eq!(b"TEST", result.raw_command());
}

#[test]
fn parse_command_with_argument_following_colon() {
    let result = parse_message("TEST :test.server.com".as_bytes()).unwrap();

    let expected_args = vec![b"test.server.com".to_vec()];

    assert_eq!(b"TEST", result.raw_command());
    assert_eq!(expected_args, collected_args(&result));
}

#[test]
fn parse_command_with_prefix_and_argument_following_colon() {
    let result = parse_message(":other.server.com TEST :test.server.com".as_bytes()).unwrap();

    let expected_args = vec![b"test.server.com".to_vec()];

    assert_eq!(b"other.server.com", result.raw_prefix().unwrap());
    assert_eq!(b"TEST", result.raw_command());
    assert_eq!(expected_args, collected_args(&result));
}

#[test]
fn parse_command_with_multiple_arguments() {
    let result = parse_message("TEST a b c".as_bytes()).unwrap();

    let expected_args = vec![b"a".to_vec(), b"b".to_vec(), b"c".to_vec()];

    assert_eq!(b"TEST", result.raw_command());
    assert_eq!(expected_args, collected_args(&result));
}

#[test]
fn parse_command_with_multiple_arguments_and_argument_following_colon() {
    let result = parse_message("TEST a b c :Memes for all!".as_bytes()).unwrap();

    let expected_args = vec![
        b"a".to_vec(),
        b"b".to_vec(),
        b"c".to_vec(),
        b"Memes for all!".to_vec(),
    ];

    assert_eq!(b"TEST", result.raw_command());
    assert_eq!(expected_args, collected_args(&result));
}

#[test]
fn parse_command_with_multiple_tags() {
    let result = parse_message("@a=1;b=2;d=;f;a\\b=3;c= TEST".as_bytes()).unwrap();

    let expected_tags = vec![
        (b"a".to_vec(), Some(b"1".to_vec())),
        (b"b".to_vec(), Some(b"2".to_vec())),
        (b"d".to_vec(), None),
        (b"f".to_vec(), None),
        (b"a\\b".to_vec(), Some(b"3".to_vec())),
        (b"c".to_vec(), None),
    ];

    assert_eq!(b"TEST", result.raw_command());
    assert_eq!(expected_tags, collected_tags(&result));
}

#[test]
fn parse_command_with_multibyte_character_arguments() {
    let result = parse_message("TEST :💖 Love 💖 Memes 💖".as_bytes()).unwrap();

    let expected_args = vec!["💖 Love 💖 Memes 💖".as_bytes().to_vec()];

    assert_eq!(expected_args, collected_args(&result));
}

#[test]
fn parse_command_with_512_byte_long_tags() {
    let message = format!("@a={} TEST", "1".repeat(508));
    let result = parse_message(message.as_bytes()).unwrap();

    let mut tags = result.raw_tags();
    let (key, value) = tags.next().unwrap();

    assert_eq!(b"a", key);
    assert_eq!(508, value.unwrap().len());
    assert_eq!(b"TEST", result.raw_command());
}

#[test]
fn parse_command_with_510_byte_long_command() {
    let message = "1".repeat(510);
    let result = parse_message(message.as_bytes()).unwrap();

    assert_eq!(510, result.raw_command().len());
}

#[test]
fn parse_command_with_512_byte_long_tags_and_510_byte_long_command() {
    let message = format!("@a={} {}", "1".repeat(508), "1".repeat(510));
    let result = parse_message(message.as_bytes()).unwrap();

    let mut tags = result.raw_tags();
    let (key, value) = tags.next().unwrap();

    assert_eq!(b"a", key);
    assert_eq!(508, value.unwrap().len());
    assert_eq!(510, result.raw_command().len());
}

#[test]
fn parse_command_with_basic_prefix() {
    let result = parse_message(":foo TEST".as_bytes()).unwrap();

    let prefix = result.prefix();

    assert_eq!(Some((&b"foo"[..], None, None)), prefix);
}

#[test]
fn parse_command_with_user_prefix() {
    let result = parse_message(":foo!foobert TEST".as_bytes()).unwrap();

    let prefix = result.prefix();

    assert_eq!(Some((&b"foo"[..], Some(&b"foobert"[..]), None)), prefix);
}

#[test]
fn parse_command_with_user_prefix_and_host() {
    let result = parse_message(":foo!foobert@host.test.com TEST".as_bytes()).unwrap();

    let prefix = result.prefix();

    assert_eq!(
        Some((&b"foo"[..], Some(&b"foobert"[..]), Some(&b"host.test.com"[..]))),
        prefix
    );
}

#[test]
fn parse_command_with_prefix_and_host() {
    let result = parse_message(":foo@host.test.com TEST".as_bytes()).unwrap();

    let prefix = result.prefix();

    assert_eq!(Some((&b"foo"[..], None, Some(&b"host.test.com"[..]))), prefix);
}

#[test]
fn parse_numeric_welcome() {
    let result = parse_message(
        "001 fjtest :Welcome to the Meme Loving IRC Network same@me.irl".as_bytes(),
    )
    .unwrap();

    assert_eq!(b"001", result.raw_command());
    assert_eq!(
        vec![
            b"fjtest".to_vec(),
            b"Welcome to the Meme Loving IRC Network same@me.irl".to_vec(),
        ],
        collected_args(&result)
    );
}

#[test]
fn raw_message_reproduces_the_input() {
    let input = "@k=v :origin TEST a :b c";
    let result = parse_message(input.as_bytes()).unwrap();

    assert_eq!(input.as_bytes(), result.raw_message());
}

#[test]
fn arguments_can_be_taken_from_the_back() {
    let result = parse_message("TEST a b :c d".as_bytes()).unwrap();

    let mut args = result.raw_args();
    assert_eq!(Some(&b"c d"[..]), args.next_back());
    assert_eq!(Some(&b"a"[..]), args.next());
    assert_eq!(Some(&b"b"[..]), args.next_back());
    assert_eq!(None, args.next());
    assert_eq!(None, args.next_back());
}

#[test]
fn colon_inside_an_argument_is_an_ordinary_byte() {
    let result = parse_message("TEST a:b 12:30".as_bytes()).unwrap();

    let expected_args = vec![b"a:b".to_vec(), b"12:30".to_vec()];

    assert_eq!(expected_args, collected_args(&result));
}

#[test]
fn colon_at_argument_start_takes_the_rest_verbatim() {
    let result = parse_message("TEST ::still one arg".as_bytes()).unwrap();

    let expected_args = vec![b":still one arg".to_vec()];

    assert_eq!(expected_args, collected_args(&result));
}

#[test]
fn leading_space_leaves_the_command_explicitly_empty() {
    let result = parse_message(" X".as_bytes()).unwrap();

    assert_eq!(b"", result.raw_command());
    assert_eq!(vec![b"X".to_vec()], collected_args(&result));
}

#[test]
fn trailing_space_yields_an_empty_final_argument() {
    let result = parse_message("TEST a ".as_bytes()).unwrap();

    let expected_args = vec![b"a".to_vec(), b"".to_vec()];

    assert_eq!(expected_args, collected_args(&result));
}

#[test]
fn tags_can_be_taken_from_the_back() {
    let result = parse_message("@a=1;b;c=3 TEST".as_bytes()).unwrap();

    let mut tags = result.raw_tags();
    assert_eq!(Some((&b"c"[..], Some(&b"3"[..]))), tags.next_back());
    assert_eq!(Some((&b"a"[..], Some(&b"1"[..]))), tags.next());
    assert_eq!(Some((&b"b"[..], None)), tags.next_back());
    assert_eq!(None, tags.next());
    assert_eq!(None, tags.next_back());
}

#[test]
fn message_without_tags_has_no_tag_pairs() {
    let result = parse_message("TEST".as_bytes()).unwrap();

    let mut tags = result.raw_tags();
    assert_eq!(None, tags.next());
}
