use simple_chat::client::{handle_input, show, InputAction, Printed, ServerLine};
use simple_chat::config::{
    client_config, connecting_line, listening_line, server_address, ClientConfig, Environment,
};
use simple_chat::message::{ClientMessage, ServerMessage};
use simple_chat::text::{is_space_char, to_decimal, trim};

fn text(s: &str) -> Option<String> {
    Some(s.to_string())
}

fn nothing() -> Environment {
    Environment { host: None, port: None, username: None }
}

fn args(rest: &[&str]) -> Vec<String> {
    let mut all = vec!["client".to_string()];
    for arg in rest {
        all.push(arg.to_string());
    }
    all
}

#[test]
fn input_is_submitted_or_complained_about() {
    assert_eq!(
        handle_input(Some("send hi ")),
        InputAction::Submit(ClientMessage::Send { text: "hi".to_string() })
    );
    assert_eq!(handle_input(Some("leave")), InputAction::Submit(ClientMessage::Leave));
    assert_eq!(handle_input(Some("  ")), InputAction::Ignore);
    assert_eq!(
        handle_input(Some("quit")),
        InputAction::Complain("Unknown command. Use: `send <MSG>` or `leave`".to_string())
    );
    assert_eq!(handle_input(None), InputAction::Stop);
}

#[test]
fn leave_and_the_end_end_the_input() {
    assert!(handle_input(Some(" leave ")).ends_input());
    assert!(handle_input(None).ends_input());
    for line in ["", "send leave", "left", "leave it"] {
        assert!(!handle_input(Some(line)).ends_input(), "{}", line);
    }
}

#[test]
fn only_leave_is_last() {
    assert!(ClientMessage::Leave.is_last());
    assert!(!ClientMessage::Send { text: "leave".to_string() }.is_last());
    let opening = ClientMessage::opening("alice".to_string());
    assert!(!opening.is_last());
    assert_eq!(opening, ClientMessage::Join { username: "alice".to_string() });
}

#[test]
fn server_lines_are_printed() {
    let chat = ServerMessage::Chat { from: "bob".to_string(), text: "hi".to_string() };
    assert_eq!(
        show(&ServerLine::Message(chat)),
        Printed::Output("\r[bob]: hi".to_string())
    );
    let info = ServerMessage::Info { text: "bob joined the chat".to_string() };
    assert_eq!(
        show(&ServerLine::Message(info)),
        Printed::Output("\r[INFO]: bob joined the chat".to_string())
    );
    let error = ServerMessage::Error { text: "Username already taken".to_string() };
    assert_eq!(
        show(&ServerLine::Message(error)),
        Printed::Diagnostic("\r[ERROR]: Username already taken".to_string())
    );
    assert_eq!(
        show(&ServerLine::Malformed("expected value".to_string())),
        Printed::Diagnostic("Parse error: expected value".to_string())
    );
}

#[test]
fn server_address_has_defaults() {
    assert_eq!(server_address(None, None), "127.0.0.1:8080");
    assert_eq!(server_address(text("0.0.0.0"), text("9000")), "0.0.0.0:9000");
    assert_eq!(server_address(text(""), None), ":8080");
    assert_eq!(listening_line("127.0.0.1:8080"), "Server listening on 127.0.0.1:8080");
}

#[test]
fn arguments_go_before_environment_before_defaults() {
    let environment = Environment { host: text("h"), port: text("1"), username: text("u") };
    let config = client_config(&args(&["127.0.0.1", "8080", "alice"]), environment).unwrap();
    assert_eq!(config.address, "127.0.0.1:8080");
    assert_eq!(config.username, "alice");

    let environment = Environment { host: text("h"), port: text("1"), username: text("u") };
    let config = client_config(&args(&["other"]), environment).unwrap();
    assert_eq!(config.address, "other:1");
    assert_eq!(config.username, "u");

    let environment = Environment { username: text("u"), ..nothing() };
    let config = client_config(&args(&[]), environment).unwrap();
    assert_eq!(config.address, "127.0.0.1:8080");
    assert_eq!(connecting_line(&config), "Connecting to 127.0.0.1:8080 as 'u'...");
}

#[test]
fn a_username_is_required() {
    assert_eq!(client_config(&args(&["host", "80"]), nothing()), None);
    assert_eq!(
        client_config(&args(&["host", "80", ""]), nothing()),
        Some(ClientConfig { address: "host:80".to_string(), username: String::new() })
    );
}

#[test]
fn numbers_are_written_in_decimal() {
    for n in [0u64, 1, 9, 10, 99, 100, 1234567890, u64::MAX] {
        assert_eq!(to_decimal(n), n.to_string());
    }
}

#[test]
fn white_space_is_what_unicode_says() {
    for n in 0..=0x10ffffu32 {
        if let Some(c) = char::from_u32(n) {
            assert_eq!(is_space_char(c), c.is_whitespace(), "{:x}", n);
        }
    }
}

#[test]
fn trimming_drops_white_space_at_both_ends() {
    for s in ["", " ", "a", " a", "a ", "\t a b \u{3000}\r\n", "\u{a0}\u{e9}\u{2028}", "a\u{200b} "] {
        assert_eq!(trim(s), s.trim());
    }
}
