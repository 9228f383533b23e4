//! Tests of the record codec: exact documents, round trips, rejection
//! of malformed documents, and agreement with a general TOML writer.

use gus::codec::{emit_config, parse_config};
use gus::config::{Config, User};

fn user(name: &str, email: &str) -> User {
    User { name: name.to_string(), email: email.to_string() }
}

#[test]
fn emit_exact_document() {
    let config = Config {
        users: vec![user("Alice", "a@x")],
        previous_user: 0,
        current_user: 0,
    };
    let expected = "previous_user = 0\ncurrent_user = 0\n\n[[users]]\nname = \"Alice\"\nemail = \"a@x\"\n";
    assert_eq!(emit_config(&config), expected);
}

#[test]
fn emit_exact_two_identities() {
    let config = Config {
        users: vec![user("Alice", "a@x"), user("Bob", "b@x")],
        previous_user: 0,
        current_user: 1,
    };
    let expected = "previous_user = 0\ncurrent_user = 1\n\n[[users]]\nname = \"Alice\"\nemail = \"a@x\"\n\n[[users]]\nname = \"Bob\"\nemail = \"b@x\"\n";
    assert_eq!(emit_config(&config), expected);
}

#[test]
fn round_trip_simple() {
    let config = Config {
        users: vec![user("Alice", "a@x"), user("Bob", "b@x")],
        previous_user: 1,
        current_user: 0,
    };
    let text = emit_config(&config);
    assert_eq!(parse_config(&text), Some(config));
}

#[test]
fn round_trip_empty_list() {
    let config = Config { users: vec![], previous_user: 0, current_user: 0 };
    let text = emit_config(&config);
    assert_eq!(text, "previous_user = 0\ncurrent_user = 0\n");
    assert_eq!(parse_config(&text), Some(config));
}

#[test]
fn round_trip_special_characters() {
    let config = Config {
        users: vec![user("A \"quoted\" \\ name", "tab\there"), user("line\nbreak", "cr\rhere")],
        previous_user: 0,
        current_user: 1,
    };
    let text = emit_config(&config);
    assert_eq!(parse_config(&text), Some(config));
}

#[test]
fn round_trip_large_indices() {
    let config = Config {
        users: vec![user("Alice", "a@x")],
        previous_user: usize::MAX,
        current_user: usize::MAX - 1,
    };
    let text = emit_config(&config);
    assert_eq!(parse_config(&text), Some(config));
}

#[test]
fn parse_hand_written_document() {
    let text = "previous_user = 1\ncurrent_user = 0\n\n[[users]]\nname = \"Alice\"\nemail = \"a@x\"\n\n[[users]]\nname = \"Bob\"\nemail = \"b@x\"\n";
    let parsed = parse_config(text).unwrap();
    assert_eq!(parsed.previous_user, 1);
    assert_eq!(parsed.current_user, 0);
    assert_eq!(parsed.users, vec![user("Alice", "a@x"), user("Bob", "b@x")]);
}

#[test]
fn parse_unescapes_strings() {
    let text = "previous_user = 0\ncurrent_user = 0\n\n[[users]]\nname = \"say \\\"hi\\\"\"\nemail = \"a\\\\b\"\n";
    let parsed = parse_config(text).unwrap();
    assert_eq!(parsed.users[0].name, "say \"hi\"");
    assert_eq!(parsed.users[0].email, "a\\b");
}

#[test]
fn parse_rejects_malformed_documents() {
    // An unterminated last line.
    assert_eq!(parse_config("previous_user = 0\ncurrent_user = 0"), None);
    // A value that is not a number.
    assert_eq!(parse_config("previous_user = x\ncurrent_user = 0\n"), None);
    // A missing index line.
    assert_eq!(parse_config("previous_user = 0\n"), None);
    // A block without its header.
    assert_eq!(
        parse_config("previous_user = 0\ncurrent_user = 0\n\nname = \"A\"\nemail = \"a\"\n"),
        None
    );
    // A string without its closing quote.
    assert_eq!(
        parse_config(
            "previous_user = 0\ncurrent_user = 0\n\n[[users]]\nname = \"A\nemail = \"a\"\n"
        ),
        None
    );
    // An index too large for this machine.
    assert_eq!(
        parse_config("previous_user = 99999999999999999999999\ncurrent_user = 0\n"),
        None
    );
    // An empty document.
    assert_eq!(parse_config(""), None);
}

#[test]
fn decimal_digits_write_and_scan() {
    let mut out: Vec<char> = Vec::new();
    gus::dec::push_dec(0, &mut out);
    assert_eq!(out, vec!['0']);
    let mut out: Vec<char> = Vec::new();
    gus::dec::push_dec(90210, &mut out);
    assert_eq!(out, vec!['9', '0', '2', '1', '0']);

    let digits: Vec<char> = "12345".chars().collect();
    assert_eq!(gus::dec::scan_digits(&digits, 0), Some(12345));
    assert_eq!(gus::dec::scan_digits(&digits, 3), Some(45));
    let padded: Vec<char> = "007".chars().collect();
    assert_eq!(gus::dec::scan_digits(&padded, 0), Some(7));
    let junk: Vec<char> = "12a".chars().collect();
    assert_eq!(gus::dec::scan_digits(&junk, 0), None);
    let empty: Vec<char> = Vec::new();
    assert_eq!(gus::dec::scan_digits(&empty, 0), None);
}

#[test]
fn agrees_with_a_general_toml_writer() {
    let mut alice = toml::map::Map::new();
    alice.insert("name".to_string(), toml::Value::String("Alice".to_string()));
    alice.insert("email".to_string(), toml::Value::String("a@x".to_string()));
    let mut bob = toml::map::Map::new();
    bob.insert("name".to_string(), toml::Value::String("Bob".to_string()));
    bob.insert("email".to_string(), toml::Value::String("b@x".to_string()));
    let mut root = toml::map::Map::new();
    root.insert(
        "users".to_string(),
        toml::Value::Array(vec![toml::Value::Table(alice), toml::Value::Table(bob)]),
    );
    root.insert("previous_user".to_string(), toml::Value::Integer(0));
    root.insert("current_user".to_string(), toml::Value::Integer(1));
    let text = toml::to_string(&toml::Value::Table(root.clone())).unwrap();

    let config = Config {
        users: vec![user("Alice", "a@x"), user("Bob", "b@x")],
        previous_user: 0,
        current_user: 1,
    };
    // The writer orders keys alphabetically while this store keeps the
    // record's field order, so the comparison is over parsed values.
    let ours: toml::Value = toml::from_str(&emit_config(&config)).unwrap();
    let theirs: toml::Value = toml::from_str(&text).unwrap();
    assert_eq!(ours, theirs);
    assert_eq!(ours, toml::Value::Table(root));
}

#[test]
fn parsed_document_reads_like_toml() {
    let config = Config {
        users: vec![user("Alice", "a@x")],
        previous_user: 0,
        current_user: 0,
    };
    let text = emit_config(&config);
    let value: toml::Value = toml::from_str(&text).unwrap();
    assert_eq!(value["previous_user"].as_integer(), Some(0));
    assert_eq!(value["current_user"].as_integer(), Some(0));
    let users = value["users"].as_array().unwrap();
    assert_eq!(users.len(), 1);
    assert_eq!(users[0]["name"].as_str(), Some("Alice"));
    assert_eq!(users[0]["email"].as_str(), Some("a@x"));
}
