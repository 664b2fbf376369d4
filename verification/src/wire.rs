//! The wire format: one JSON object per line.
//!
//! A message is an object whose `"type"` is the message's name and whose `"payload"`, where
//! the message has fields, is an object of these fields.

use vstd::prelude::*;
use vstd::string::StringExecFns;

use crate::message::{ClientMessage, ClientMessageView, ServerMessage, ServerMessageView};

verus! {

/// The hexadecimal digit, in lower case, that stands for `d`, which lies between 0 and 15.
pub open spec fn hex_digit(d: nat) -> char {
    if d < 10 {
        ('0' as nat + d) as char
    } else {
        ('a' as nat + d - 10) as char
    }
}

/// What stands for `c` inside a JSON string: the quote, the backslash and the control characters
/// below U+0020 are escaped, each in its shortest form; every other character stands for itself.
pub open spec fn json_char(c: char) -> Seq<char> {
    if c == '"' || c == '\\' {
        seq!['\\', c]
    } else if c == '\u{8}' {
        seq!['\\', 'b']
    } else if c == '\t' {
        seq!['\\', 't']
    } else if c == '\n' {
        seq!['\\', 'n']
    } else if c == '\u{c}' {
        seq!['\\', 'f']
    } else if c == '\r' {
        seq!['\\', 'r']
    } else if (c as nat) < 0x20 {
        seq!['\\', 'u', '0', '0', hex_digit(c as nat / 16), hex_digit(c as nat % 16)]
    } else {
        seq![c]
    }
}

/// What stands for `text` between the quotes of a JSON string.
pub open spec fn json_chars(text: Seq<char>) -> Seq<char>
    decreases text.len(),
{
    if text.len() == 0 {
        seq![]
    } else {
        json_char(text.first()) + json_chars(text.drop_first())
    }
}

/// The JSON string that holds `text`.
pub open spec fn json_string(text: Seq<char>) -> Seq<char> {
    seq!['"'] + json_chars(text) + seq!['"']
}

/// The JSON string that holds `text`, as `serde_json::to_string` writes it for a `str`.
///
/// Trusted: that the call succeeds on every text, and that it puts the text between quotes with
/// each character written as [`json_char`] says.
#[verifier::external_body]
fn quoted(text: &str) -> (json: String)
    ensures
        json@ == json_string(text@),
{
    serde_json::to_string(text).unwrap()
}

/// The JSON object that stands for a client's message.
pub open spec fn client_json(message: ClientMessageView) -> Seq<char> {
    match message {
        ClientMessageView::Join { username } => "{\"type\":\"Join\",\"payload\":{\"username\":"@
            + json_string(username) + "}}"@,
        ClientMessageView::Send { text } => "{\"type\":\"Send\",\"payload\":{\"text\":"@
            + json_string(text) + "}}"@,
        ClientMessageView::Leave => "{\"type\":\"Leave\"}"@,
    }
}

/// The JSON object that stands for a server's message.
pub open spec fn server_json(message: ServerMessageView) -> Seq<char> {
    match message {
        ServerMessageView::Chat { from, text } => "{\"type\":\"Chat\",\"payload\":{\"from\":"@
            + json_string(from) + ",\"text\":"@ + json_string(text) + "}}"@,
        ServerMessageView::Info { text } => "{\"type\":\"Info\",\"payload\":{\"text\":"@
            + json_string(text) + "}}"@,
        ServerMessageView::Error { text } => "{\"type\":\"Error\",\"payload\":{\"text\":"@
            + json_string(text) + "}}"@,
    }
}

/// The line that carries `json`.
pub open spec fn line(json: Seq<char>) -> Seq<char> {
    json.push('\n')
}

impl ClientMessage {
    /// Writes the message as JSON.
    pub fn to_json(&self) -> (json: String)
        ensures
            json@ == client_json(self@),
    {
        match self {
            ClientMessage::Join { username } => {
                let mut json = "{\"type\":\"Join\",\"payload\":{\"username\":".to_owned();
                json.append(quoted(username.as_str()).as_str());
                json.append("}}");
                json
            },
            ClientMessage::Send { text } => {
                let mut json = "{\"type\":\"Send\",\"payload\":{\"text\":".to_owned();
                json.append(quoted(text.as_str()).as_str());
                json.append("}}");
                json
            },
            ClientMessage::Leave => "{\"type\":\"Leave\"}".to_owned(),
        }
    }

    /// Writes the message as the line that the client sends.
    pub fn to_line(&self) -> (written: String)
        ensures
            written@ == line(client_json(self@)),
    {
        let mut written = self.to_json();
        end_line(&mut written);
        written
    }
}

impl ServerMessage {
    /// Writes the message as JSON.
    pub fn to_json(&self) -> (json: String)
        ensures
            json@ == server_json(self@),
    {
        match self {
            ServerMessage::Chat { from, text } => {
                let mut json = "{\"type\":\"Chat\",\"payload\":{\"from\":".to_owned();
                json.append(quoted(from.as_str()).as_str());
                json.append(",\"text\":");
                json.append(quoted(text.as_str()).as_str());
                json.append("}}");
                json
            },
            ServerMessage::Info { text } => {
                let mut json = "{\"type\":\"Info\",\"payload\":{\"text\":".to_owned();
                json.append(quoted(text.as_str()).as_str());
                json.append("}}");
                json
            },
            ServerMessage::Error { text } => {
                let mut json = "{\"type\":\"Error\",\"payload\":{\"text\":".to_owned();
                json.append(quoted(text.as_str()).as_str());
                json.append("}}");
                json
            },
        }
    }

    /// Writes the message as the line that the server sends.
    pub fn to_line(&self) -> (written: String)
        ensures
            written@ == line(server_json(self@)),
    {
        let mut written = self.to_json();
        end_line(&mut written);
        written
    }
}

/// Turns JSON into the line that carries it.
fn end_line(json: &mut String)
    ensures
        final(json)@ == line(old(json)@),
{
    proof {
        reveal_strlit("\n");
    }
    let ghost before = json@;
    json.append("\n");
    assert(json@ =~= line(before));
}

/// Whether `s` fits on one line.
pub open spec fn on_one_line(s: Seq<char>) -> bool {
    forall|i: int| 0 <= i < s.len() ==> s[i] != '\n'
}

/// The lines that carry `jsons`, one after the other.
pub open spec fn stream(jsons: Seq<Seq<char>>) -> Seq<char>
    decreases jsons.len(),
{
    if jsons.len() == 0 {
        seq![]
    } else {
        line(jsons.first()) + stream(jsons.drop_first())
    }
}

/// What a client sends when it sends `messages`.
pub open spec fn client_stream(messages: Seq<ClientMessageView>) -> Seq<char> {
    stream(messages.map_values(|message: ClientMessageView| client_json(message)))
}

/// What the server sends when it sends `messages`.
pub open spec fn server_stream(messages: Seq<ServerMessageView>) -> Seq<char> {
    stream(messages.map_values(|message: ServerMessageView| server_json(message)))
}

proof fn lemma_json_chars_on_one_line(text: Seq<char>)
    ensures
        on_one_line(json_chars(text)),
    decreases text.len(),
{
    if text.len() > 0 {
        lemma_json_chars_on_one_line(text.drop_first());
    }
}

proof fn lemma_json_char_split(c: char, d: char, rest_c: Seq<char>, rest_d: Seq<char>)
    requires
        json_char(c) + rest_c == json_char(d) + rest_d,
    ensures
        c == d,
        rest_c == rest_d,
{
    let whole_c = json_char(c) + rest_c;
    let whole_d = json_char(d) + rest_d;
    assert(whole_c[0] == whole_d[0]);
    if json_char(c).len() > 1 && json_char(d).len() > 1 {
        assert(whole_c[1] == json_char(c)[1]);
        assert(whole_d[1] == json_char(d)[1]);
        if json_char(c)[1] == 'u' {
            assert(whole_c[4] == json_char(c)[4] && whole_c[5] == json_char(c)[5]);
            assert(whole_d[4] == json_char(d)[4] && whole_d[5] == json_char(d)[5]);
        }
    }
    assert(c == d);
    assert(rest_c =~= whole_c.skip(json_char(c).len() as int));
    assert(rest_d =~= whole_d.skip(json_char(d).len() as int));
}

/// The closing quote of a JSON string is found, and what stands before it gives back the text.
proof fn lemma_json_chars_split(a: Seq<char>, b: Seq<char>, rest_a: Seq<char>, rest_b: Seq<char>)
    requires
        json_chars(a) + seq!['"'] + rest_a == json_chars(b) + seq!['"'] + rest_b,
    ensures
        a == b,
        rest_a == rest_b,
    decreases a.len(),
{
    let whole_a = json_chars(a) + seq!['"'] + rest_a;
    let whole_b = json_chars(b) + seq!['"'] + rest_b;
    assert(a.len() == 0 ==> whole_a[0] == '"');
    assert(a.len() > 0 ==> whole_a[0] == json_char(a.first())[0] && whole_a[0] != '"');
    assert(b.len() == 0 ==> whole_b[0] == '"');
    assert(b.len() > 0 ==> whole_b[0] == json_char(b.first())[0] && whole_b[0] != '"');
    if a.len() == 0 {
        assert(rest_a =~= whole_a.skip(1));
        assert(rest_b =~= whole_b.skip(1));
        assert(a =~= b);
    } else {
        let tail_a = json_chars(a.drop_first()) + seq!['"'] + rest_a;
        let tail_b = json_chars(b.drop_first()) + seq!['"'] + rest_b;
        assert(whole_a =~= json_char(a.first()) + tail_a);
        assert(whole_b =~= json_char(b.first()) + tail_b);
        lemma_json_char_split(a.first(), b.first(), tail_a, tail_b);
        lemma_json_chars_split(a.drop_first(), b.drop_first(), rest_a, rest_b);
        assert(a =~= seq![a.first()] + a.drop_first());
        assert(b =~= seq![b.first()] + b.drop_first());
    }
}

/// A JSON string in the middle of two equal texts with equal beginnings holds equal contents.
proof fn lemma_json_string_split(
    head: Seq<char>,
    a: Seq<char>,
    b: Seq<char>,
    rest_a: Seq<char>,
    rest_b: Seq<char>,
)
    requires
        head + json_string(a) + rest_a == head + json_string(b) + rest_b,
    ensures
        a == b,
        rest_a == rest_b,
{
    let whole_a = head + json_string(a) + rest_a;
    let whole_b = head + json_string(b) + rest_b;
    let n = head.len() as int + 1;
    assert(json_chars(a) + seq!['"'] + rest_a =~= whole_a.skip(n));
    assert(json_chars(b) + seq!['"'] + rest_b =~= whole_b.skip(n));
    lemma_json_chars_split(a, b, rest_a, rest_b);
}

/// What a client writes for one message fits on one line.
pub proof fn client_json_is_on_one_line(message: ClientMessageView)
    ensures
        on_one_line(client_json(message)),
{
    reveal_strlit("{\"type\":\"Join\",\"payload\":{\"username\":");
    reveal_strlit("{\"type\":\"Send\",\"payload\":{\"text\":");
    reveal_strlit("{\"type\":\"Leave\"}");
    reveal_strlit("}}");
    match message {
        ClientMessageView::Join { username } => lemma_json_chars_on_one_line(username),
        ClientMessageView::Send { text } => lemma_json_chars_on_one_line(text),
        ClientMessageView::Leave => {},
    }
}

/// What the server writes for one message fits on one line.
pub proof fn server_json_is_on_one_line(message: ServerMessageView)
    ensures
        on_one_line(server_json(message)),
{
    reveal_strlit("{\"type\":\"Chat\",\"payload\":{\"from\":");
    reveal_strlit(",\"text\":");
    reveal_strlit("{\"type\":\"Info\",\"payload\":{\"text\":");
    reveal_strlit("{\"type\":\"Error\",\"payload\":{\"text\":");
    reveal_strlit("}}");
    match message {
        ServerMessageView::Chat { from, text } => {
            lemma_json_chars_on_one_line(from);
            lemma_json_chars_on_one_line(text);
        },
        ServerMessageView::Info { text } => lemma_json_chars_on_one_line(text),
        ServerMessageView::Error { text } => lemma_json_chars_on_one_line(text),
    }
}

/// The initial of a message's name stands behind `{"type":"`.
proof fn lemma_client_json_initial(message: ClientMessageView)
    ensures
        client_json(message)[9] == match message {
            ClientMessageView::Join { .. } => 'J',
            ClientMessageView::Send { .. } => 'S',
            ClientMessageView::Leave => 'L',
        },
{
    reveal_strlit("{\"type\":\"Join\",\"payload\":{\"username\":");
    reveal_strlit("{\"type\":\"Send\",\"payload\":{\"text\":");
    reveal_strlit("{\"type\":\"Leave\"}");
}

/// The initial of a message's name stands behind `{"type":"`.
proof fn lemma_server_json_initial(message: ServerMessageView)
    ensures
        server_json(message)[9] == match message {
            ServerMessageView::Chat { .. } => 'C',
            ServerMessageView::Info { .. } => 'I',
            ServerMessageView::Error { .. } => 'E',
        },
{
    reveal_strlit("{\"type\":\"Chat\",\"payload\":{\"from\":");
    reveal_strlit("{\"type\":\"Info\",\"payload\":{\"text\":");
    reveal_strlit("{\"type\":\"Error\",\"payload\":{\"text\":");
}

/// The JSON of a client's message determines the message: nothing is lost in writing it.
pub proof fn client_json_determines_message(a: ClientMessageView, b: ClientMessageView)
    requires
        client_json(a) == client_json(b),
    ensures
        a == b,
{
    lemma_client_json_initial(a);
    lemma_client_json_initial(b);
    match (a, b) {
        (
            ClientMessageView::Join { username: x },
            ClientMessageView::Join { username: y },
        ) => lemma_json_string_split(
            "{\"type\":\"Join\",\"payload\":{\"username\":"@,
            x,
            y,
            "}}"@,
            "}}"@,
        ),
        (
            ClientMessageView::Send { text: x },
            ClientMessageView::Send { text: y },
        ) => lemma_json_string_split(
            "{\"type\":\"Send\",\"payload\":{\"text\":"@,
            x,
            y,
            "}}"@,
            "}}"@,
        ),
        _ => {},
    }
}

/// The JSON of a server's message determines the message: nothing is lost in writing it.
pub proof fn server_json_determines_message(a: ServerMessageView, b: ServerMessageView)
    requires
        server_json(a) == server_json(b),
    ensures
        a == b,
{
    lemma_server_json_initial(a);
    lemma_server_json_initial(b);
    match (a, b) {
        (
            ServerMessageView::Chat { from: u, text: x },
            ServerMessageView::Chat { from: v, text: y },
        ) => {
            let head = "{\"type\":\"Chat\",\"payload\":{\"from\":"@;
            let rest_a = ",\"text\":"@ + json_string(x) + "}}"@;
            let rest_b = ",\"text\":"@ + json_string(y) + "}}"@;
            assert(server_json(a) =~= head + json_string(u) + rest_a);
            assert(server_json(b) =~= head + json_string(v) + rest_b);
            lemma_json_string_split(head, u, v, rest_a, rest_b);
            lemma_json_string_split(",\"text\":"@, x, y, "}}"@, "}}"@);
        },
        (ServerMessageView::Info { text: x }, ServerMessageView::Info { text: y }) => {
            lemma_json_string_split(
                "{\"type\":\"Info\",\"payload\":{\"text\":"@,
                x,
                y,
                "}}"@,
                "}}"@,
            );
        },
        (ServerMessageView::Error { text: x }, ServerMessageView::Error { text: y }) => {
            lemma_json_string_split(
                "{\"type\":\"Error\",\"payload\":{\"text\":"@,
                x,
                y,
                "}}"@,
                "}}"@,
            );
        },
        _ => {},
    }
}

/// The lines of `s`, when `begun` is the beginning of the first: each ends at a newline, and what
/// no newline ends is no line yet.
pub open spec fn lines_after(begun: Seq<char>, s: Seq<char>) -> Seq<Seq<char>>
    decreases s.len(),
{
    if s.len() == 0 {
        seq![]
    } else if s.first() == '\n' {
        seq![begun] + lines_after(seq![], s.drop_first())
    } else {
        lines_after(begun.push(s.first()), s.drop_first())
    }
}

/// The lines of `s`, without their newlines.
pub open spec fn lines(s: Seq<char>) -> Seq<Seq<char>> {
    lines_after(seq![], s)
}

/// How many newlines there are in `s`.
pub open spec fn newlines(s: Seq<char>) -> nat
    decreases s.len(),
{
    if s.len() == 0 {
        0
    } else {
        newlines(s.drop_first()) + if s.first() == '\n' {
            1nat
        } else {
            0nat
        }
    }
}

proof fn lemma_line_is_split_off(begun: Seq<char>, json: Seq<char>, rest: Seq<char>)
    requires
        on_one_line(json),
    ensures
        lines_after(begun, line(json) + rest) == seq![begun + json] + lines(rest),
        newlines(line(json) + rest) == 1 + newlines(rest),
    decreases json.len(),
{
    let whole = line(json) + rest;
    if json.len() == 0 {
        assert(whole.drop_first() =~= rest);
        assert(begun + json =~= begun);
    } else {
        assert(whole.first() == json.first());
        assert(json[0] != '\n');
        assert(whole.drop_first() =~= line(json.drop_first()) + rest);
        lemma_line_is_split_off(begun.push(json.first()), json.drop_first(), rest);
        assert(begun.push(json.first()) + json.drop_first() =~= begun + json);
    }
}

/// A stream of lines splits at its newlines into what it carries. It has one newline for each
/// line, the last of them at its very end.
pub proof fn stream_splits_into_lines(jsons: Seq<Seq<char>>)
    requires
        forall|i: int| 0 <= i < jsons.len() ==> on_one_line(#[trigger] jsons[i]),
    ensures
        lines(stream(jsons)) == jsons,
        newlines(stream(jsons)) == jsons.len(),
        jsons.len() > 0 ==> stream(jsons).len() > 0 && stream(jsons).last() == '\n',
    decreases jsons.len(),
{
    if jsons.len() > 0 {
        let rest = jsons.drop_first();
        assert(on_one_line(jsons[0]));
        lemma_line_is_split_off(seq![], jsons.first(), stream(rest));
        stream_splits_into_lines(rest);
        assert(Seq::<char>::empty() + jsons.first() =~= jsons.first());
        assert(lines(stream(jsons)) =~= jsons);
        if rest.len() == 0 {
            assert(stream(jsons) =~= line(jsons.first()));
        }
    }
}

/// A stream of lines determines the lines: the newlines delimit them.
pub proof fn stream_determines_lines(a: Seq<Seq<char>>, b: Seq<Seq<char>>)
    requires
        forall|i: int| 0 <= i < a.len() ==> on_one_line(#[trigger] a[i]),
        forall|i: int| 0 <= i < b.len() ==> on_one_line(#[trigger] b[i]),
        stream(a) == stream(b),
    ensures
        a == b,
{
    stream_splits_into_lines(a);
    stream_splits_into_lines(b);
}

/// What a client sends determines the messages that it sends, their number and their order.
pub proof fn client_stream_determines_messages(
    a: Seq<ClientMessageView>,
    b: Seq<ClientMessageView>,
)
    requires
        client_stream(a) == client_stream(b),
    ensures
        a == b,
{
    let jsons_a = a.map_values(|message: ClientMessageView| client_json(message));
    let jsons_b = b.map_values(|message: ClientMessageView| client_json(message));
    assert forall|i: int| 0 <= i < jsons_a.len() implies on_one_line(#[trigger] jsons_a[i]) by {
        client_json_is_on_one_line(a[i]);
    }
    assert forall|i: int| 0 <= i < jsons_b.len() implies on_one_line(#[trigger] jsons_b[i]) by {
        client_json_is_on_one_line(b[i]);
    }
    stream_determines_lines(jsons_a, jsons_b);
    assert forall|i: int| 0 <= i < a.len() implies a[i] == b[i] by {
        assert(jsons_a[i] == jsons_b[i]);
        client_json_determines_message(a[i], b[i]);
    }
    assert(a.len() == jsons_a.len());
    assert(b.len() == jsons_b.len());
    assert(a =~= b);
}

/// What the server sends determines the messages that it sends, their number and their order.
pub proof fn server_stream_determines_messages(
    a: Seq<ServerMessageView>,
    b: Seq<ServerMessageView>,
)
    requires
        server_stream(a) == server_stream(b),
    ensures
        a == b,
{
    let jsons_a = a.map_values(|message: ServerMessageView| server_json(message));
    let jsons_b = b.map_values(|message: ServerMessageView| server_json(message));
    assert forall|i: int| 0 <= i < jsons_a.len() implies on_one_line(#[trigger] jsons_a[i]) by {
        server_json_is_on_one_line(a[i]);
    }
    assert forall|i: int| 0 <= i < jsons_b.len() implies on_one_line(#[trigger] jsons_b[i]) by {
        server_json_is_on_one_line(b[i]);
    }
    stream_determines_lines(jsons_a, jsons_b);
    assert forall|i: int| 0 <= i < a.len() implies a[i] == b[i] by {
        assert(jsons_a[i] == jsons_b[i]);
        server_json_determines_message(a[i], b[i]);
    }
    assert(a.len() == jsons_a.len());
    assert(b.len() == jsons_b.len());
    assert(a =~= b);
}

/// The JSON string that holds nothing is two quotes.
pub proof fn json_string_of_nothing()
    ensures
        json_string(seq![]) == "\"\""@,
{
    reveal_strlit("\"\"");
    assert(json_string(seq![]) =~= "\"\""@);
}

proof fn lemma_json_chars_of_one(c: char)
    ensures
        json_chars(seq![c]) == json_char(c),
{
    let one = seq![c];
    assert(one.drop_first() =~= seq![]);
    assert(json_chars(one.drop_first()) =~= seq![]);
    assert(json_chars(one) =~= json_char(c));
}

/// The JSON string that holds one character: the quote and the backslash stand behind a
/// backslash, five control characters have a letter behind it, the others below U+0020 their
/// code in hexadecimal, and every other character stands for itself.
pub proof fn json_string_of_one_character(c: char)
    ensures
        json_string(seq![c]) == if c == '"' {
            "\"\\\"\""@
        } else if c == '\\' {
            "\"\\\\\""@
        } else if c == '\u{8}' {
            "\"\\b\""@
        } else if c == '\t' {
            "\"\\t\""@
        } else if c == '\n' {
            "\"\\n\""@
        } else if c == '\u{c}' {
            "\"\\f\""@
        } else if c == '\r' {
            "\"\\r\""@
        } else if (c as int) < 0x10 {
            "\"\\u000"@ + seq!["0123456789abcdef"@[c as int]] + "\""@
        } else if (c as int) < 0x20 {
            "\"\\u001"@ + seq!["0123456789abcdef"@[c as int - 16]] + "\""@
        } else {
            "\""@ + seq![c] + "\""@
        },
{
    reveal_strlit("\"\\\"\"");
    reveal_strlit("\"\\\\\"");
    reveal_strlit("\"\\b\"");
    reveal_strlit("\"\\t\"");
    reveal_strlit("\"\\n\"");
    reveal_strlit("\"\\f\"");
    reveal_strlit("\"\\r\"");
    reveal_strlit("\"\\u000");
    reveal_strlit("\"\\u001");
    reveal_strlit("0123456789abcdef");
    reveal_strlit("\"");
    lemma_json_chars_of_one(c);
    let json = json_string(seq![c]);
    if c == '"' {
        assert(json =~= "\"\\\"\""@);
    } else if c == '\\' {
        assert(json =~= "\"\\\\\""@);
    } else if c == '\u{8}' {
        assert(json =~= "\"\\b\""@);
    } else if c == '\t' {
        assert(json =~= "\"\\t\""@);
    } else if c == '\n' {
        assert(json =~= "\"\\n\""@);
    } else if c == '\u{c}' {
        assert(json =~= "\"\\f\""@);
    } else if c == '\r' {
        assert(json =~= "\"\\r\""@);
    } else if (c as int) < 0x10 {
        assert(hex_digit(c as nat) == "0123456789abcdef"@[c as int]);
        assert(json =~= "\"\\u000"@ + seq!["0123456789abcdef"@[c as int]] + "\""@);
    } else if (c as int) < 0x20 {
        assert(hex_digit((c as nat - 16) as nat) == "0123456789abcdef"@[c as int - 16]);
        assert(json =~= "\"\\u001"@ + seq!["0123456789abcdef"@[c as int - 16]] + "\""@);
    } else {
        assert(json =~= "\""@ + seq![c] + "\""@);
    }
}

proof fn lemma_json_chars_add(a: Seq<char>, b: Seq<char>)
    ensures
        json_chars(a + b) == json_chars(a) + json_chars(b),
    decreases a.len(),
{
    if a.len() == 0 {
        assert(a + b =~= b);
        assert(json_chars(a) + json_chars(b) =~= json_chars(b));
    } else {
        assert((a + b).drop_first() =~= a.drop_first() + b);
        assert((a + b).first() == a.first());
        lemma_json_chars_add(a.drop_first(), b);
        assert(json_chars(a + b) =~= json_chars(a) + json_chars(b));
    }
}

/// The JSON string that holds two texts, one behind the other, is their two JSON strings without
/// the quotes where they meet.
pub proof fn json_string_of_two_texts(a: Seq<char>, b: Seq<char>)
    ensures
        json_string(a + b) == json_string(a).drop_last() + json_string(b).drop_first(),
{
    lemma_json_chars_add(a, b);
    assert(json_string(a + b) =~= json_string(a).drop_last() + json_string(b).drop_first());
}

/// A text without quotes, backslashes and control characters stands in its JSON string as it is.
pub proof fn json_string_of_plain_text(text: Seq<char>)
    requires
        forall|i: int|
            0 <= i < text.len() ==> #[trigger] text[i] != '"' && text[i] != '\\' && text[i] >= ' ',
    ensures
        json_string(text) == "\""@ + text + "\""@,
    decreases text.len(),
{
    reveal_strlit("\"");
    if text.len() == 0 {
        assert(json_string(text) =~= "\""@ + text + "\""@);
    } else {
        let rest = text.drop_first();
        assert forall|i: int| 0 <= i < rest.len() implies #[trigger] rest[i] != '"' && rest[i]
            != '\\' && rest[i] >= ' ' by {
            assert(rest[i] == text[i + 1]);
        }
        json_string_of_plain_text(rest);
        assert(text[0] != '"' && text[0] != '\\' && text[0] >= ' ');
        assert(json_chars(rest) =~= json_string(rest).subrange(1, json_string(rest).len() - 1));
        assert(json_chars(rest) =~= rest);
        assert(text =~= seq![text.first()] + rest);
        assert(json_string(text) =~= "\""@ + text + "\""@);
    }
}

/// The JSON of each of a client's messages, letter by letter but for its text.
pub proof fn client_json_is_spelled_out(username: Seq<char>, text: Seq<char>)
    ensures
        client_json(ClientMessageView::Join { username })
            == "{\"type\":\"Join\",\"payload\":{\"username\":"@ + json_string(username) + "}}"@,
        client_json(ClientMessageView::Send { text }) == "{\"type\":\"Send\",\"payload\":{\"text\":"@
            + json_string(text) + "}}"@,
        client_json(ClientMessageView::Leave) == "{\"type\":\"Leave\"}"@,
{
}

/// The JSON of each of the server's messages, letter by letter but for its texts.
pub proof fn server_json_is_spelled_out(from: Seq<char>, text: Seq<char>)
    ensures
        server_json(ServerMessageView::Chat { from, text })
            == "{\"type\":\"Chat\",\"payload\":{\"from\":"@ + json_string(from) + ",\"text\":"@
            + json_string(text) + "}}"@,
        server_json(ServerMessageView::Info { text }) == "{\"type\":\"Info\",\"payload\":{\"text\":"@
            + json_string(text) + "}}"@,
        server_json(ServerMessageView::Error { text })
            == "{\"type\":\"Error\",\"payload\":{\"text\":"@ + json_string(text) + "}}"@,
{
}

/// The line that carries JSON is the JSON and a newline.
pub proof fn line_is_json_and_newline(json: Seq<char>)
    ensures
        line(json) == json + "\n"@,
{
    reveal_strlit("\n");
    assert(line(json) =~= json + "\n"@);
}

} // verus!
