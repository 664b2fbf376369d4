use serde_json::Value;
use simple_chat::client::ServerLine;
use simple_chat::message::{ClientMessage, ServerMessage};
use simple_chat::reading::{read_client_line, read_server_line};
use simple_chat::session::Event;

fn join(username: &str) -> ClientMessage {
    ClientMessage::Join { username: username.to_string() }
}

fn send(text: &str) -> ClientMessage {
    ClientMessage::Send { text: text.to_string() }
}

fn chat(from: &str, text: &str) -> ServerMessage {
    ServerMessage::Chat { from: from.to_string(), text: text.to_string() }
}

fn info(text: &str) -> ServerMessage {
    ServerMessage::Info { text: text.to_string() }
}

/// What a client's line says by itself, without the help of a general reader.
fn read_client(json: &str) -> Option<ClientMessage> {
    match read_client_line(json, Err("unread".to_string())) {
        Event::Message(message) => Some(message),
        other => {
            assert_eq!(other, Event::Malformed("unread".to_string()));
            None
        }
    }
}

/// What a server's line says by itself, without the help of a general reader.
fn read_server(json: &str) -> Option<ServerMessage> {
    match read_server_line(json, Err("unread".to_string())) {
        ServerLine::Message(message) => Some(message),
        other => {
            assert_eq!(other, ServerLine::Malformed("unread".to_string()));
            None
        }
    }
}

fn parse(json: &str) -> Value {
    serde_json::from_str(json).unwrap()
}

#[test]
fn serialize_join() {
    let msg = ClientMessage::Join { username: "alice".into() };
    let s = msg.to_json();
    assert!(s.contains("Join"));
    assert!(s.contains("alice"));
}

#[test]
fn serialize_send() {
    let msg = ClientMessage::Send { text: "hello world".into() };
    let s = msg.to_json();
    assert!(s.contains("Send"));
    assert!(s.contains("hello world"));
}

#[test]
fn serialize_leave() {
    let msg = ClientMessage::Leave;
    let s = msg.to_json();
    assert!(s.contains("Leave"));
}

#[test]
fn client_message_serialization() {
    let msg = ClientMessage::Join { username: "alice".to_string() };
    let json = msg.to_json();
    let decoded = read_client(&json).unwrap();
    assert!(matches!(decoded, ClientMessage::Join { ref username } if username == "alice"));
    let value = parse(&json);
    assert_eq!(value["type"], "Join");
    assert_eq!(value["payload"]["username"], "alice");
}

#[test]
fn server_message_serialization() {
    let msg = ServerMessage::Chat { from: "bob".to_string(), text: "hello".to_string() };
    let json = msg.to_json();
    let decoded = read_server(&json).unwrap();
    assert!(
        matches!(decoded, ServerMessage::Chat { ref from, ref text } if from == "bob" && text == "hello")
    );
    let value = parse(&json);
    assert_eq!(value["type"], "Chat");
    assert_eq!(value["payload"]["from"], "bob");
    assert_eq!(value["payload"]["text"], "hello");
}

#[test]
fn deserialize_chat() {
    let s = r#"{"type":"Chat","payload":{"from":"bob","text":"hi"}}"#;
    let msg: ServerMessage = read_server(s).unwrap();
    assert!(
        matches!(msg, ServerMessage::Chat { ref from, ref text } if from == "bob" && text == "hi")
    );
}

#[test]
fn deserialize_info() {
    let s = r#"{"type":"Info","payload":{"text":"alice joined"}}"#;
    let msg: ServerMessage = read_server(s).unwrap();
    assert!(matches!(msg, ServerMessage::Info { ref text } if text == "alice joined"));
}

#[test]
fn deserialize_error() {
    let s = r#"{"type":"Error","payload":{"text":"Username already taken"}}"#;
    let msg: ServerMessage = read_server(s).unwrap();
    assert!(matches!(msg, ServerMessage::Error { ref text } if text.contains("taken")));
}

#[test]
fn every_message_is_read_back() {
    for text in [
        "",
        "hi",
        "\"",
        "\\",
        "\\\"",
        "a\nb\r\t\u{8}\u{c}\u{0}\u{1b}",
        "\"}}",
        "\",\"text\":\"",
        "\u{7f}\u{e9}\u{2028}\u{1f600}",
    ] {
        for message in [join(text), send(text), ClientMessage::Leave] {
            assert_eq!(read_client(&message.to_json()), Some(message));
        }
        for other in ["", "x", "\\", "\"", "\",\"text\":\""] {
            let message = chat(text, other);
            assert_eq!(read_server(&message.to_json()), Some(message));
        }
        for message in [info(text), ServerMessage::Error { text: text.to_string() }] {
            assert_eq!(read_server(&message.to_json()), Some(message));
        }
    }
}

#[test]
fn other_spellings_are_left_to_the_general_reader() {
    for json in [
        "",
        "{}",
        "leave",
        r#"{"type":"Leave"} "#,
        r#"{ "type":"Leave"}"#,
        r#"{"type":"Leave","payload":null}"#,
        r#"{"payload":{"username":"a"},"type":"Join"}"#,
        r#"{"type":"Join","payload":{"username":"a}}"#,
        r#"{"type":"Join","payload":{"username":"\u0061"}}"#,
        r#"{"type":"Join","payload":{"username": "a"}}"#,
        r#"{"type":"Join","payload":{"username":1}}"#,
        r#"{"type":"Join","payload":{"username":"a","x":"b"}}"#,
        r#"{"type":"Chat","payload":{"from":"a","text":"b"}}"#,
    ] {
        assert_eq!(read_client(json), None, "{}", json);
        assert_eq!(read_client_line(json, Ok(join("b"))), Event::Message(join("b")));
    }
    for json in [
        "",
        r#"{"type":"Chat","payload":{"from":"a"}}"#,
        r#"{"type":"Chat","payload":{"from":"a","text":"b}}"#,
        r#"{"type":"Chat","payload":{"from":"a\","text":"b"}}"#,
        r#"{"type":"Chat","payload":{"text":"b","from":"a"}}"#,
        r#"{"type":"Chat","payload":{"from":"a", "text":"b"}}"#,
        r#"{"type":"Info","payload":{"text":"\/"}}"#,
        r#"{"type":"Leave"}"#,
    ] {
        assert_eq!(read_server(json), None, "{}", json);
        assert_eq!(read_server_line(json, Ok(info("b"))), ServerLine::Message(info("b")));
    }
}

#[test]
fn client_messages_have_their_exact_json() {
    assert_eq!(join("alice").to_json(), r#"{"type":"Join","payload":{"username":"alice"}}"#);
    assert_eq!(send("hi").to_json(), r#"{"type":"Send","payload":{"text":"hi"}}"#);
    assert_eq!(ClientMessage::Leave.to_json(), r#"{"type":"Leave"}"#);
}

#[test]
fn server_messages_have_their_exact_json() {
    assert_eq!(
        chat("bob", "hi").to_json(),
        r#"{"type":"Chat","payload":{"from":"bob","text":"hi"}}"#
    );
    assert_eq!(
        info("alice joined").to_json(),
        r#"{"type":"Info","payload":{"text":"alice joined"}}"#
    );
    assert_eq!(
        ServerMessage::Error { text: "Username already taken".to_string() }.to_json(),
        r#"{"type":"Error","payload":{"text":"Username already taken"}}"#
    );
}

#[test]
fn special_characters_are_escaped() {
    assert_eq!(
        send("a\"b\\c\u{8}\u{c}\n\r\t\u{0}\u{1f}\u{7f}/\u{e9}").to_json(),
        "{\"type\":\"Send\",\"payload\":{\"text\":\
         \"a\\\"b\\\\c\\b\\f\\n\\r\\t\\u0000\\u001f\u{7f}/\u{e9}\"}}"
    );
}

#[test]
fn every_low_character_is_read_back() {
    let mut text = String::new();
    for n in 0u32..0x180 {
        text.push(char::from_u32(n).unwrap());
    }
    text.push('\u{2028}');
    text.push('\u{10ffff}');
    let decoded = parse(&chat(&text, &text).to_json());
    assert_eq!(decoded["payload"]["from"], text.as_str());
    assert_eq!(decoded["payload"]["text"], text.as_str());
}

#[test]
fn a_line_is_json_with_one_newline_at_its_end() {
    let message = send("two\nlines");
    let line = message.to_line();
    assert_eq!(line, message.to_json() + "\n");
    assert_eq!(line.matches('\n').count(), 1);

    let message = chat("new\nline", "\r\n");
    let line = message.to_line();
    assert_eq!(line, message.to_json() + "\n");
    assert_eq!(line.matches('\n').count(), 1);
}

#[test]
fn a_stream_splits_into_its_messages() {
    let messages = vec![join("a\nb"), send(""), send("\"},{\""), ClientMessage::Leave];
    let stream: String = messages.iter().map(|message| message.to_line()).collect();
    let lines: Vec<&str> = stream.lines().collect();
    assert_eq!(lines.len(), 4);
    assert_eq!(stream.matches('\n').count(), 4);
    assert!(stream.ends_with('\n'));
    let read: Vec<Option<ClientMessage>> =
        lines.iter().map(|line| read_client(line)).collect();
    let sent: Vec<Option<ClientMessage>> = messages.iter().cloned().map(Some).collect();
    assert_eq!(read, sent);
    assert_eq!(parse(lines[0])["payload"]["username"], "a\nb");
    assert_eq!(parse(lines[1])["payload"]["text"], "");
    assert_eq!(parse(lines[2])["payload"]["text"], "\"},{\"");
    assert_eq!(parse(lines[3])["type"], "Leave");
}

#[test]
fn different_messages_have_different_json() {
    let messages = vec![
        chat("a", "b").to_json(),
        chat("a\",\"text\":\"b", "").to_json(),
        chat("", "ab").to_json(),
        chat("ab", "").to_json(),
        info("a").to_json(),
        ServerMessage::Error { text: "a".to_string() }.to_json(),
    ];
    for i in 0..messages.len() {
        for j in 0..i {
            assert_ne!(messages[i], messages[j]);
        }
    }
}

#[test]
fn a_line_is_read_as_the_general_reader_reads_it() {
    let spaced = r#"{ "type":"Leave"}"#;
    assert_eq!(
        read_client_line(spaced, Ok(ClientMessage::Leave)),
        Event::Message(ClientMessage::Leave)
    );
    assert_eq!(
        read_client_line("{", Err("EOF while parsing".to_string())),
        Event::Malformed("EOF while parsing".to_string())
    );
    let written = ClientMessage::Leave.to_json();
    assert_eq!(
        read_client_line(&written, Ok(ClientMessage::Leave)),
        Event::Message(ClientMessage::Leave)
    );
    assert_eq!(
        read_server_line("[]", Err("invalid type".to_string())),
        ServerLine::Malformed("invalid type".to_string())
    );
}
