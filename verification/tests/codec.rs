//! Decode/encode round trips through the message codec.

use irc_wire::types::{Command, Message};

#[test]
fn test1() {
    let message: Message =
        Message::from_bytes("@id=234AB :dan!d@localhost PRIVMSG #chan :Hey what's up!".as_bytes())
            .unwrap();
    assert_eq!(
        "@id=234AB :dan!d@localhost PRIVMSG #chan :Hey what's up!\r\n",
        message.to_bytes()
    );
}

#[test]
fn test2() {
    let message: Message =
        Message::from_bytes(":irc.example.com CAP REQ :multi-prefix extended-join sasl".as_bytes())
            .unwrap();
    assert_eq!(
        ":irc.example.com CAP REQ :multi-prefix extended-join sasl\r\n",
        message.to_bytes()
    );
}

#[test]
fn decodes_tags_source_and_fields() {
    let message =
        Message::from_bytes("@id=234AB :dan!d@localhost PRIVMSG #chan :Hey what's up!".as_bytes())
            .unwrap();
    let tags = message.tags.as_ref().unwrap();
    assert_eq!(tags.len(), 1);
    assert_eq!(tags[0].key.value, "id");
    assert_eq!(tags[0].key.client_prefix, None);
    assert_eq!(tags[0].key.vendor, None);
    assert_eq!(tags[0].value.as_deref(), Some("234AB"));
    let source = message.source.as_ref().unwrap();
    assert_eq!(source.name, "dan");
    assert_eq!(source.user.as_deref(), Some("d"));
    assert_eq!(source.host.as_deref(), Some("localhost"));
    match &message.command {
        Command::PRIVMSG { targets, text } => {
            assert_eq!(targets, "#chan");
            assert_eq!(text, "Hey what's up!");
        }
        other => panic!("expected PRIVMSG, got {:?}", other),
    }
}

#[test]
fn decodes_cap_subcommand_and_capabilities() {
    let message =
        Message::from_bytes(":irc.example.com CAP REQ :multi-prefix extended-join sasl".as_bytes())
            .unwrap();
    assert_eq!(message.source.as_ref().unwrap().name, "irc.example.com");
    match &message.command {
        Command::CAP {
            subcommand,
            capabilities,
        } => {
            assert_eq!(subcommand, "REQ");
            assert_eq!(
                capabilities.as_deref(),
                Some("multi-prefix extended-join sasl")
            );
        }
        other => panic!("expected CAP, got {:?}", other),
    }
}

#[test]
fn round_trip_without_trailing_mark() {
    let message = Message::from_bytes("PRIVMSG #chan Hello".as_bytes()).unwrap();
    assert_eq!("PRIVMSG #chan Hello\r\n", message.to_bytes());
}

#[test]
fn redundant_trailing_mark_is_dropped() {
    // The final parameter holds no space, so the `:` mark is not re-emitted.
    let message = Message::from_bytes("PRIVMSG #chan :Hello".as_bytes()).unwrap();
    assert_eq!("PRIVMSG #chan Hello\r\n", message.to_bytes());
}

#[test]
fn unknown_verb_is_preserved() {
    let message = Message::from_bytes("FOO bar baz".as_bytes()).unwrap();
    match &message.command {
        Command::UNKNOWN { command, params } => {
            assert_eq!(command, "FOO");
            assert_eq!(params, &vec!["bar".to_string(), "baz".to_string()]);
        }
        other => panic!("expected UNKNOWN, got {:?}", other),
    }
    assert_eq!("FOO bar baz\r\n", message.to_bytes());
}

#[test]
fn invalid_utf8_is_rejected() {
    assert!(Message::from_bytes(&[0xff, 0xfe, b'A']).is_none());
}

#[test]
fn tags_without_following_space_are_rejected() {
    assert!(Message::from_bytes("@id=234AB".as_bytes()).is_none());
}

#[test]
fn source_without_following_space_is_rejected() {
    assert!(Message::from_bytes(":irc.example.com".as_bytes()).is_none());
}

#[test]
fn several_tags_round_trip() {
    let message = Message::from_bytes("@id=1;+typing=active PING tok".as_bytes()).unwrap();
    let tags = message.tags.as_ref().unwrap();
    assert_eq!(tags.len(), 2);
    assert_eq!(tags[0].key.value, "id");
    assert_eq!(tags[0].value.as_deref(), Some("1"));
    assert_eq!(tags[1].key.client_prefix.as_deref(), Some("+"));
    assert_eq!(tags[1].key.value, "typing");
    assert_eq!(tags[1].value.as_deref(), Some("active"));
    assert_eq!("@id=1;+typing=active PING tok\r\n", message.to_bytes());
}

#[test]
fn numeric_reply_round_trip() {
    let message = Message::from_bytes("353 alice = #chan :alice bob carol".as_bytes()).unwrap();
    match &message.command {
        Command::RPL_NAMREPLY {
            client,
            symbol,
            channel,
            members,
        } => {
            assert_eq!(client, "alice");
            assert_eq!(symbol, "=");
            assert_eq!(channel, "#chan");
            assert_eq!(members, &vec!["alice bob carol".to_string()]);
        }
        other => panic!("expected RPL_NAMREPLY, got {:?}", other),
    }
    assert_eq!("353 alice = #chan :alice bob carol\r\n", message.to_bytes());
}

#[test]
fn encode_marks_trailing_parameter_with_space() {
    let command = Command::PRIVMSG {
        targets: "#chan".to_string(),
        text: "two words".to_string(),
    };
    let message = Message::new(None, None, command);
    assert_eq!("PRIVMSG #chan :two words\r\n", message.to_bytes());
}

#[test]
fn parse_source_splits_name_user_host() {
    let s = Message::parse_source("dan!d@localhost").unwrap();
    assert_eq!(s.name, "dan");
    assert_eq!(s.user.as_deref(), Some("d"));
    assert_eq!(s.host.as_deref(), Some("localhost"));

    let bare = Message::parse_source("irc.example.com").unwrap();
    assert_eq!(bare.name, "irc.example.com");
    assert_eq!(bare.user, None);
    assert_eq!(bare.host, None);

    let host_only = Message::parse_source("dan@localhost").unwrap();
    assert_eq!(host_only.name, "dan");
    assert_eq!(host_only.user, None);
    assert_eq!(host_only.host.as_deref(), Some("localhost"));
}

#[test]
fn parse_tag_splits_key_and_value() {
    let t = Message::parse_tag("id=234AB").unwrap();
    assert_eq!(t.key.value, "id");
    assert_eq!(t.value.as_deref(), Some("234AB"));

    let bare = Message::parse_tag("typing").unwrap();
    assert_eq!(bare.key.value, "typing");
    assert_eq!(bare.value, None);
}

#[test]
fn parse_key_strips_client_prefix() {
    let k = Message::parse_key("+typing").unwrap();
    assert_eq!(k.client_prefix.as_deref(), Some("+"));
    assert_eq!(k.vendor, None);
    assert_eq!(k.value, "typing");
}

#[test]
fn parse_tags_splits_on_semicolons() {
    let tags = Message::parse_tags("a=1;b;c=3").unwrap();
    assert_eq!(tags.len(), 3);
    assert_eq!(tags[0].key.value, "a");
    assert_eq!(tags[0].value.as_deref(), Some("1"));
    assert_eq!(tags[1].key.value, "b");
    assert_eq!(tags[1].value, None);
    assert_eq!(tags[2].key.value, "c");
    assert_eq!(tags[2].value.as_deref(), Some("3"));
}

#[test]
fn message_new_assembles_the_parts() {
    let m = Message::new(
        None,
        None,
        Command::PING {
            token: "tok".to_string(),
        },
    );
    assert_eq!(m.tags, None);
    assert_eq!(m.source, None);
    assert_eq!(m.to_bytes(), "PING tok\r\n");
}
