//! The command and numeric registries: decode, re-encode, and the
//! shortfall behaviour, on concrete values.

use irc_wire::numeric::Numeric;
use irc_wire::types::Command;

#[test]
fn registry_inverse_on_a_command() {
    let c = Command::new(
        "PRIVMSG",
        vec!["#chan".to_string(), "Hello".to_string()],
    );
    assert_eq!(c.command(), "PRIVMSG");
    assert_eq!(c.params(), vec!["#chan".to_string(), "Hello".to_string()]);
    assert_eq!(c.numeric(), 0);
}

#[test]
fn registry_inverse_on_a_numeric_code() {
    let c = Command::new(
        "433",
        vec!["alice".to_string(), "bob".to_string()],
    );
    match &c {
        Command::ERR_NICKNAMEINUSE { client, nick } => {
            assert_eq!(client, "alice");
            assert_eq!(nick, "bob");
        }
        other => panic!("expected ERR_NICKNAMEINUSE, got {:?}", other),
    }
    assert_eq!(c.command(), "433");
    assert_eq!(c.params(), vec!["alice".to_string(), "bob".to_string()]);
    assert_eq!(c.numeric(), 433);
}

#[test]
fn registry_inverse_with_a_tail_variant() {
    let params = vec![
        "alice".to_string(),
        "=".to_string(),
        "#chan".to_string(),
        "alice".to_string(),
        "bob".to_string(),
    ];
    let c = Command::new("353", params.clone());
    assert_eq!(c.command(), "353");
    assert_eq!(c.params(), params);
    assert_eq!(c.numeric(), 353);
}

#[test]
fn registry_inverse_with_an_optional_slot() {
    let c = Command::new("PONG", vec!["tok".to_string()]);
    match &c {
        Command::PONG { token, server } => {
            assert_eq!(token, "tok");
            assert_eq!(server, &None);
        }
        other => panic!("expected PONG, got {:?}", other),
    }
    assert_eq!(c.params(), vec!["tok".to_string()]);
}

#[test]
fn arity_shortfall_degrades_to_unknown() {
    let c = Command::new("PRIVMSG", vec!["#chan".to_string()]);
    match &c {
        Command::UNKNOWN { command, params } => {
            assert_eq!(command, "PRIVMSG");
            assert_eq!(params, &vec!["#chan".to_string()]);
        }
        other => panic!("expected UNKNOWN, got {:?}", other),
    }
}

#[test]
fn arity_shortfall_with_no_parameters() {
    let c = Command::new("USER", Vec::new());
    match &c {
        Command::UNKNOWN { command, params } => {
            assert_eq!(command, "USER");
            assert!(params.is_empty());
        }
        other => panic!("expected UNKNOWN, got {:?}", other),
    }
}

#[test]
fn unregistered_verb_keeps_its_parameters() {
    let c = Command::new("FOO", vec!["bar".to_string(), "baz".to_string()]);
    match &c {
        Command::UNKNOWN { command, params } => {
            assert_eq!(command, "FOO");
            assert_eq!(params, &vec!["bar".to_string(), "baz".to_string()]);
        }
        other => panic!("expected UNKNOWN, got {:?}", other),
    }
    assert_eq!(c.params(), vec!["bar".to_string(), "baz".to_string()]);
}

#[test]
fn numeric_registry_inverse() {
    let n = Numeric::new("461", vec!["alice".to_string(), "JOIN".to_string()]);
    match &n {
        Numeric::ERR_NEEDMOREPARAMS { client, command } => {
            assert_eq!(client, "alice");
            assert_eq!(command, "JOIN");
        }
        other => panic!("expected ERR_NEEDMOREPARAMS, got {:?}", other),
    }
    assert_eq!(n.numeric(), 461);
    assert_eq!(n.params(), vec!["alice".to_string(), "JOIN".to_string()]);
}

#[test]
fn numeric_shortfall_degrades_to_unknown() {
    let n = Numeric::new("352", vec!["alice".to_string()]);
    match &n {
        Numeric::UNKNOWN { numeric, params } => {
            assert_eq!(numeric, "352");
            assert_eq!(params, &vec!["alice".to_string()]);
        }
        other => panic!("expected UNKNOWN, got {:?}", other),
    }
    assert_eq!(n.numeric(), 0);
}

#[test]
fn unregistered_numeric_code_is_preserved() {
    let n = Numeric::new("999", vec!["x".to_string()]);
    match &n {
        Numeric::UNKNOWN { numeric, params } => {
            assert_eq!(numeric, "999");
            assert_eq!(params, &vec!["x".to_string()]);
        }
        other => panic!("expected UNKNOWN, got {:?}", other),
    }
}

#[test]
fn channel_starts_with_its_founder() {
    let c = irc_wire::channel::Channel::new("#chan".to_string(), "alice".to_string());
    assert_eq!(c.name, "#chan");
    assert_eq!(c.members, vec!["alice".to_string()]);
    assert_eq!(c.flags, "");
}
