use simple_chat::command::{parse_command, Command};

#[test]
fn test_command_parse_send() {
    let line = "send hello world";
    match parse_command(line) {
        Command::Send { text } => assert_eq!(text, "hello world"),
        other => panic!("parsed as {:?}", other),
    }
}

#[test]
fn test_command_parse_leave() {
    let line = "leave";
    assert_eq!(parse_command(line), Command::Leave);
}

#[test]
fn space_around_a_command_is_ignored() {
    assert_eq!(parse_command("  leave\t\r\n"), Command::Leave);
    assert_eq!(
        parse_command("\u{3000}send caf\u{e9}\u{a0}"),
        Command::Send { text: "caf\u{e9}".to_string() }
    );
}

#[test]
fn a_send_text_keeps_its_inner_and_leading_space() {
    assert_eq!(
        parse_command("send   two  words"),
        Command::Send { text: "  two  words".to_string() }
    );
    assert_eq!(parse_command("send leave"), Command::Send { text: "leave".to_string() });
}

#[test]
fn blank_lines_are_empty() {
    assert_eq!(parse_command(""), Command::Empty);
    assert_eq!(parse_command(" \t "), Command::Empty);
}

#[test]
fn anything_else_is_unknown() {
    for line in ["send", "send ", "sendhello", "Send hi", "LEAVE", "leave now", "hello", "send\thi"] {
        assert_eq!(parse_command(line), Command::Unknown, "{}", line);
    }
}
