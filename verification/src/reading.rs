//! Reading lines.
//!
//! A message can be spelled in JSON in many ways, with white space or other escapes, say. What a
//! line says is settled by a general reader of JSON, whose reading is handed in here. Of a line
//! in the very form in which messages are written it is settled here, whatever was handed in:
//! it says the message that was written.

use vstd::prelude::*;
use vstd::string::StrSliceExecFns;

use crate::client::{ServerLine, ServerLineView};
use crate::message::{ClientMessage, ClientMessageView, ServerMessage, ServerMessageView};
use crate::session::{Event, EventView};
use crate::text::{option_view, to_chars};
use crate::wire::{
    client_json, client_json_determines_message, client_json_is_on_one_line, client_stream,
    json_char, json_chars, json_string, lines, newlines, on_one_line, server_json,
    server_json_determines_message, server_json_is_on_one_line, server_stream,
    stream_splits_into_lines,
};

verus! {

/// The client's message for which `json` stands, if there is one.
pub open spec fn client_message_in(json: Seq<char>) -> Option<ClientMessageView> {
    if exists|message: ClientMessageView| #[trigger] client_json(message) == json {
        Some(choose|message: ClientMessageView| #[trigger] client_json(message) == json)
    } else {
        None
    }
}

/// The server's message for which `json` stands, if there is one.
pub open spec fn server_message_in(json: Seq<char>) -> Option<ServerMessageView> {
    if exists|message: ServerMessageView| #[trigger] server_json(message) == json {
        Some(choose|message: ServerMessageView| #[trigger] server_json(message) == json)
    } else {
        None
    }
}

/// Reads a text from a JSON string, with `serde_json::from_str`.
///
/// Trusted: that the JSON string which holds a text, as [`json_string`] writes it, gives back that
/// text. What is read from other JSON is not said.
#[verifier::external_body]
fn unquoted(json: &str) -> (text: Option<String>)
    ensures
        forall|held: Seq<char>| json@ == #[trigger] json_string(held) ==> option_view(text) == Some(
            held,
        ),
{
    serde_json::from_str::<String>(json).ok()
}

/// What stands in `s` between `head` and `tail`, if `s` starts and ends with them.
fn between<'a>(s: &'a str, head: &str, tail: &str) -> (middle: Option<&'a str>)
    ensures
        match middle {
            Some(middle) => s@ == head@ + middle@ + tail@,
            None => forall|middle: Seq<char>| s@ != #[trigger] (head@ + middle) + tail@,
        },
{
    let n: usize = s.unicode_len();
    let h: usize = head.unicode_len();
    let t: usize = tail.unicode_len();
    if h <= n && t <= n - h && s.substring_char(0, h).to_owned() == head.to_owned()
        && s.substring_char(n - t, n).to_owned() == tail.to_owned() {
        let middle = s.substring_char(h, n - t);
        assert(s@ =~= head@ + middle@ + tail@);
        Some(middle)
    } else {
        proof {
            assert forall|middle: Seq<char>| s@ != #[trigger] (head@ + middle) + tail@ by {
                if s@ == head@ + middle + tail@ {
                    assert(s@.subrange(0, h as int) =~= head@);
                    assert(s@.subrange(n - t, n as int) =~= tail@);
                }
            }
        }
        None
    }
}

/// How much of `s`, which follows an opening quote, belongs to the JSON string, the closing quote
/// included; nothing, if no quote closes it.
spec fn closing(s: Seq<char>) -> Option<nat>
    decreases s.len(),
{
    if s.len() == 0 {
        None
    } else if s[0] == '"' {
        Some(1)
    } else {
        let step: int = if s[0] == '\\' {
            2
        } else {
            1
        };
        if step > s.len() {
            None
        } else {
            further(closing(s.skip(step)), step as nat)
        }
    }
}

proof fn lemma_closing_char(c: char, rest: Seq<char>)
    ensures
        closing(json_char(c) + rest) == further(closing(rest), json_char(c).len()),
{
    let whole = json_char(c) + rest;
    if json_char(c).len() == 1 {
        assert(whole.skip(1) =~= rest);
    } else if json_char(c).len() == 2 {
        assert(whole.skip(2) =~= rest);
    } else {
        reveal_with_fuel(closing, 6);
        assert(whole.skip(2).skip(1) =~= whole.skip(3));
        assert(whole.skip(3).skip(1) =~= whole.skip(4));
        assert(whole.skip(4).skip(1) =~= whole.skip(5));
        assert(whole.skip(5).skip(1) =~= rest);
    }
}

proof fn lemma_closing(text: Seq<char>, rest: Seq<char>)
    ensures
        closing(json_chars(text) + seq!['"'] + rest) == Some(json_chars(text).len() + 1),
    decreases text.len(),
{
    let whole = json_chars(text) + seq!['"'] + rest;
    if text.len() > 0 {
        let tail = json_chars(text.drop_first()) + seq!['"'] + rest;
        assert(whole =~= json_char(text.first()) + tail);
        lemma_closing_char(text.first(), tail);
        lemma_closing(text.drop_first(), rest);
    } else {
        assert(whole[0] == '"');
    }
}

/// `n` more than what `found` gives, if it gives anything.
spec fn further(found: Option<nat>, n: nat) -> Option<nat> {
    match found {
        Some(k) => Some(k + n),
        None => None,
    }
}

/// How much of `chars` from place `from` on, which follows an opening quote, belongs to the JSON
/// string.
fn find_closing(chars: &Vec<char>, from: usize) -> (length: Option<usize>)
    requires
        from <= chars.len(),
    ensures
        match length {
            Some(length) => closing(chars@.skip(from as int)) == Some(length as nat) && length
                <= chars.len() - from,
            None => closing(chars@.skip(from as int)) is None,
        },
{
    let mut i: usize = from;
    while i < chars.len()
        invariant
            from <= i <= chars.len(),
            closing(chars@.skip(from as int)) == further(
                closing(chars@.skip(i as int)),
                (i - from) as nat,
            ),
        decreases chars.len() - i,
    {
        let ghost here = chars@.skip(i as int);
        if chars[i] == '"' {
            return Some(i - from + 1);
        }
        let step: usize = if chars[i] == '\\' {
            2
        } else {
            1
        };
        if step > chars.len() - i {
            return None;
        }
        assert(here.skip(step as int) =~= chars@.skip(i + step));
        i = i + step;
    }
    None
}

/// Parts `s` behind the JSON string with which it starts.
fn split_string(s: &str) -> (parts: Option<(&str, &str)>)
    ensures
        forall|text: Seq<char>, rest: Seq<char>|
            s@ == #[trigger] (json_string(text) + rest) ==> (parts matches Some(parts)
                && parts.0@ == json_string(text) && parts.1@ == rest),
{
    let chars = to_chars(s);
    let n: usize = chars.len();
    proof {
        assert forall|text: Seq<char>, rest: Seq<char>|
            s@ == #[trigger] (json_string(text) + rest) implies n >= 1 && closing(s@.skip(1))
            == Some((json_string(text).len() - 1) as nat) && json_string(text) =~= s@.take(
            json_string(text).len() as int,
        ) && rest =~= s@.skip(json_string(text).len() as int) by {
            assert(s@.skip(1) =~= json_chars(text) + seq!['"'] + rest);
            lemma_closing(text, rest);
        }
    }
    if n == 0 {
        return None;
    }
    match find_closing(&chars, 1) {
        Some(length) => Some((s.substring_char(0, length + 1), s.substring_char(length + 1, n))),
        None => None,
    }
}

/// What `message` says, if it is there.
pub open spec fn client_option_view(message: Option<ClientMessage>) -> Option<ClientMessageView> {
    match message {
        Some(message) => Some(message@),
        None => None,
    }
}

/// What `message` says, if it is there.
pub open spec fn server_option_view(message: Option<ServerMessage>) -> Option<ServerMessageView> {
    match message {
        Some(message) => Some(message@),
        None => None,
    }
}

/// What stands between the same head and tail is the same.
proof fn lemma_between(head: Seq<char>, a: Seq<char>, b: Seq<char>, tail: Seq<char>)
    requires
        head + a + tail == head + b + tail,
    ensures
        a == b,
{
    let n = head.len() as int;
    assert((head + a + tail).len() == n + a.len() + tail.len());
    assert((head + b + tail).len() == n + b.len() + tail.len());
    assert(a =~= (head + a + tail).subrange(n, n + a.len()));
    assert(b =~= (head + b + tail).subrange(n, n + a.len()));
}

/// The text of the only field of a payload: the text in `json` between `head` and the closing
/// braces.
fn only_field(json: &str, head: &str) -> (text: Option<String>)
    ensures
        forall|held: Seq<char>|
            json@ == head@ + #[trigger] json_string(held) + "}}"@ ==> option_view(text) == Some(
                held,
            ),
{
    match between(json, head, "}}") {
        Some(middle) => {
            proof {
                assert forall|held: Seq<char>|
                    json@ == head@ + #[trigger] json_string(held) + "}}"@ implies middle@
                    == json_string(held) by {
                    lemma_between(head@, middle@, json_string(held), "}}"@);
                }
            }
            unquoted(middle)
        },
        None => None,
    }
}

/// The two texts of the payload of a `Chat`.
fn chat_fields(json: &str) -> (texts: Option<(String, String)>)
    ensures
        forall|from: Seq<char>, text: Seq<char>|
            json@ == #[trigger] server_json(ServerMessageView::Chat { from, text }) ==> (
            texts matches Some(texts) && texts.0@ == from && texts.1@ == text),
{
    let ghost head = "{\"type\":\"Chat\",\"payload\":{\"from\":"@;
    let middle = match between(json, "{\"type\":\"Chat\",\"payload\":{\"from\":", "}}") {
        Some(middle) => middle,
        None => {
            proof {
                assert forall|from: Seq<char>, text: Seq<char>|
                    json@ != #[trigger] server_json(ServerMessageView::Chat { from, text }) by {
                    lemma_chat(from, text);
                }
            }
            return None;
        },
    };
    proof {
        assert forall|from: Seq<char>, text: Seq<char>|
            json@ == #[trigger] server_json(ServerMessageView::Chat { from, text }) implies middle@
            == json_string(from) + (",\"text\":"@ + json_string(text)) by {
            lemma_chat(from, text);
            lemma_between(
                head,
                middle@,
                json_string(from) + (",\"text\":"@ + json_string(text)),
                "}}"@,
            );
        }
    }
    let (first, rest) = match split_string(middle) {
        Some(parts) => parts,
        None => return None,
    };
    let second = match between(rest, ",\"text\":", "") {
        Some(second) => second,
        None => {
            proof {
                assert forall|from: Seq<char>, text: Seq<char>|
                    json@ != #[trigger] server_json(ServerMessageView::Chat { from, text }) by {
                    lemma_no_tail(",\"text\":"@ + json_string(text));
                }
            }
            return None;
        },
    };
    proof {
        assert forall|from: Seq<char>, text: Seq<char>|
            json@ == #[trigger] server_json(ServerMessageView::Chat { from, text }) implies second@
            == json_string(text) by {
            lemma_no_tail(",\"text\":"@ + json_string(text));
            lemma_between(",\"text\":"@, second@, json_string(text), ""@);
        }
    }
    match (unquoted(first), unquoted(second)) {
        (Some(from), Some(text)) => Some((from, text)),
        _ => None,
    }
}

proof fn lemma_chat(from: Seq<char>, text: Seq<char>)
    ensures
        server_json(ServerMessageView::Chat { from, text }) == "{\"type\":\"Chat\",\"payload\":{\"from\":"@ + (json_string(from) + (
        ",\"text\":"@ + json_string(text))) + "}}"@,
{
    assert(server_json(ServerMessageView::Chat { from, text }) =~= "{\"type\":\"Chat\",\"payload\":{\"from\":"@ + (json_string(from) + (
    ",\"text\":"@ + json_string(text))) + "}}"@);
}

proof fn lemma_no_tail(s: Seq<char>)
    ensures
        s + ""@ == s,
{
    reveal_strlit("");
    assert(s + ""@ =~= s);
}

/// The client's message that was written as `json`, if one was.
fn written_by_client(json: &str) -> (message: Option<ClientMessage>)
    ensures
        client_option_view(message) == client_message_in(json@),
{
    let whole = json.to_owned();
    let candidate = ClientMessage::Leave;
    if candidate.to_json() == whole {
        proof {
            client_json_reads_back(candidate@);
        }
        return Some(candidate);
    }
    if let Some(username) = only_field(json, "{\"type\":\"Join\",\"payload\":{\"username\":") {
        let candidate = ClientMessage::Join { username };
        if candidate.to_json() == whole {
            proof {
                client_json_reads_back(candidate@);
            }
            return Some(candidate);
        }
    }
    if let Some(text) = only_field(json, "{\"type\":\"Send\",\"payload\":{\"text\":") {
        let candidate = ClientMessage::Send { text };
        if candidate.to_json() == whole {
            proof {
                client_json_reads_back(candidate@);
            }
            return Some(candidate);
        }
    }
    assert(forall|message: ClientMessageView| #[trigger] client_json(message) != json@);
    None
}

/// The server's message that was written as `json`, if one was.
fn written_by_server(json: &str) -> (message: Option<ServerMessage>)
    ensures
        server_option_view(message) == server_message_in(json@),
{
    let whole = json.to_owned();
    if let Some((from, text)) = chat_fields(json) {
        let candidate = ServerMessage::Chat { from, text };
        if candidate.to_json() == whole {
            proof {
                server_json_reads_back(candidate@);
            }
            return Some(candidate);
        }
    }
    if let Some(text) = only_field(json, "{\"type\":\"Info\",\"payload\":{\"text\":") {
        let candidate = ServerMessage::Info { text };
        if candidate.to_json() == whole {
            proof {
                server_json_reads_back(candidate@);
            }
            return Some(candidate);
        }
    }
    if let Some(text) = only_field(json, "{\"type\":\"Error\",\"payload\":{\"text\":") {
        let candidate = ServerMessage::Error { text };
        if candidate.to_json() == whole {
            proof {
                server_json_reads_back(candidate@);
            }
            return Some(candidate);
        }
    }
    assert(forall|message: ServerMessageView| #[trigger] server_json(message) != json@);
    None
}

/// What a general reader made of a client's line.
pub open spec fn client_reading(
    reading: Result<ClientMessage, String>,
) -> Result<ClientMessageView, Seq<char>> {
    match reading {
        Ok(message) => Ok(message@),
        Err(error) => Err(error@),
    }
}

/// What a general reader made of a server's line.
pub open spec fn server_reading(
    reading: Result<ServerMessage, String>,
) -> Result<ServerMessageView, Seq<char>> {
    match reading {
        Ok(message) => Ok(message@),
        Err(error) => Err(error@),
    }
}

/// The event that a client's line is, going by what a general reader made of it.
pub open spec fn client_event_of(reading: Result<ClientMessageView, Seq<char>>) -> EventView {
    match reading {
        Ok(message) => EventView::Message(message),
        Err(error) => EventView::Malformed(error),
    }
}

/// What a server's line says, going by what a general reader made of it.
pub open spec fn server_line_of(reading: Result<ServerMessageView, Seq<char>>) -> ServerLineView {
    match reading {
        Ok(message) => ServerLineView::Message(message),
        Err(error) => ServerLineView::Malformed(error),
    }
}

/// The event that a client's line is.
pub open spec fn client_event(
    line: Seq<char>,
    reading: Result<ClientMessageView, Seq<char>>,
) -> EventView {
    match client_message_in(line) {
        Some(message) => EventView::Message(message),
        None => client_event_of(reading),
    }
}

/// What a server's line says.
pub open spec fn server_line(
    line: Seq<char>,
    reading: Result<ServerMessageView, Seq<char>>,
) -> ServerLineView {
    match server_message_in(line) {
        Some(message) => ServerLineView::Message(message),
        None => server_line_of(reading),
    }
}

/// Says which event a client's line is, given what a general reader made of it: the message, or
/// what is wrong with the line.
pub fn read_client_line(line: &str, reading: Result<ClientMessage, String>) -> (event: Event)
    ensures
        event@ == client_event(line@, client_reading(reading)),
{
    match written_by_client(line) {
        Some(message) => Event::Message(message),
        None => match reading {
            Ok(message) => Event::Message(message),
            Err(error) => Event::Malformed(error),
        },
    }
}

/// Says what a server's line says, given what a general reader made of it: the message, or what
/// is wrong with the line.
pub fn read_server_line(line: &str, reading: Result<ServerMessage, String>) -> (read: ServerLine)
    ensures
        read@ == server_line(line@, server_reading(reading)),
{
    match written_by_server(line) {
        Some(message) => ServerLine::Message(message),
        None => match reading {
            Ok(message) => ServerLine::Message(message),
            Err(error) => ServerLine::Malformed(error),
        },
    }
}

/// A line that a client wrote is read as the message that it was written for.
pub proof fn client_line_reads_back(
    message: ClientMessageView,
    reading: Result<ClientMessageView, Seq<char>>,
)
    ensures
        client_event(client_json(message), reading) == EventView::Message(message),
{
    client_json_reads_back(message);
}

/// A line that the server wrote is read as the message that it was written for.
pub proof fn server_line_reads_back(
    message: ServerMessageView,
    reading: Result<ServerMessageView, Seq<char>>,
)
    ensures
        server_line(server_json(message), reading) == ServerLineView::Message(message),
{
    server_json_reads_back(message);
}

/// With a general reader that reads what was written as what it was written for, every line of a
/// client is read as the general reader reads it.
pub proof fn general_reading_of_client_is_kept(
    line: Seq<char>,
    reading: Result<ClientMessageView, Seq<char>>,
)
    requires
        forall|message: ClientMessageView| #[trigger]
            client_json(message) == line ==> reading == Ok::<ClientMessageView, Seq<char>>(message),
    ensures
        client_event(line, reading) == client_event_of(reading),
{
}

/// With a general reader that reads what was written as what it was written for, every line of
/// the server is read as the general reader reads it.
pub proof fn general_reading_of_server_is_kept(
    line: Seq<char>,
    reading: Result<ServerMessageView, Seq<char>>,
)
    requires
        forall|message: ServerMessageView| #[trigger]
            server_json(message) == line ==> reading == Ok::<ServerMessageView, Seq<char>>(message),
    ensures
        server_line(line, reading) == server_line_of(reading),
{
}

/// Reading the JSON of a client's message gives back the message.
pub proof fn client_json_reads_back(message: ClientMessageView)
    ensures
        client_message_in(client_json(message)) == Some(message),
{
    let read = choose|read: ClientMessageView| #[trigger]
        client_json(read) == client_json(message);
    client_json_determines_message(read, message);
}

/// Reading the JSON of a server's message gives back the message.
pub proof fn server_json_reads_back(message: ServerMessageView)
    ensures
        server_message_in(server_json(message)) == Some(message),
{
    let read = choose|read: ServerMessageView| #[trigger]
        server_json(read) == server_json(message);
    server_json_determines_message(read, message);
}

/// What a client sends has one newline for each message, the last of them at its very end, and
/// reading it line by line gives back the messages, in their order, whatever a general reader
/// makes of the lines.
pub proof fn client_stream_reads_back(
    messages: Seq<ClientMessageView>,
    reader: spec_fn(Seq<char>) -> Result<ClientMessageView, Seq<char>>,
)
    ensures
        newlines(client_stream(messages)) == messages.len(),
        messages.len() > 0 ==> client_stream(messages).len() > 0 && client_stream(messages).last()
            == '\n',
        lines(client_stream(messages)).map_values(|line: Seq<char>| client_event(line, reader(line)))
            == messages.map_values(|message: ClientMessageView| EventView::Message(message)),
{
    let jsons = messages.map_values(|message: ClientMessageView| client_json(message));
    assert forall|i: int| 0 <= i < jsons.len() implies on_one_line(#[trigger] jsons[i]) by {
        client_json_is_on_one_line(messages[i]);
    }
    stream_splits_into_lines(jsons);
    let read = jsons.map_values(|line: Seq<char>| client_event(line, reader(line)));
    assert forall|i: int| 0 <= i < read.len() implies read[i] == EventView::Message(messages[i]) by {
        client_line_reads_back(messages[i], reader(jsons[i]));
    }
    assert(read =~= messages.map_values(|message: ClientMessageView| EventView::Message(message)));
}

/// What the server sends has one newline for each message, the last of them at its very end, and
/// reading it line by line gives back the messages, in their order, whatever a general reader
/// makes of the lines.
pub proof fn server_stream_reads_back(
    messages: Seq<ServerMessageView>,
    reader: spec_fn(Seq<char>) -> Result<ServerMessageView, Seq<char>>,
)
    ensures
        newlines(server_stream(messages)) == messages.len(),
        messages.len() > 0 ==> server_stream(messages).len() > 0 && server_stream(messages).last()
            == '\n',
        lines(server_stream(messages)).map_values(|line: Seq<char>| server_line(line, reader(line)))
            == messages.map_values(|message: ServerMessageView| ServerLineView::Message(message)),
{
    let jsons = messages.map_values(|message: ServerMessageView| server_json(message));
    assert forall|i: int| 0 <= i < jsons.len() implies on_one_line(#[trigger] jsons[i]) by {
        server_json_is_on_one_line(messages[i]);
    }
    stream_splits_into_lines(jsons);
    let read = jsons.map_values(|line: Seq<char>| server_line(line, reader(line)));
    assert forall|i: int| 0 <= i < read.len() implies read[i] == ServerLineView::Message(messages[i]) by {
        server_line_reads_back(messages[i], reader(jsons[i]));
    }
    assert(read =~= messages.map_values(|message: ServerMessageView| ServerLineView::Message(message)));
}

/// A line that is the JSON of a client's message, letter by letter, is that message, with exactly
/// the text that its JSON string holds, whatever a general reader makes of it.
pub proof fn spelled_out_client_line_is_read(
    username: Seq<char>,
    text: Seq<char>,
    reading: Result<ClientMessageView, Seq<char>>,
)
    ensures
        client_event(
            "{\"type\":\"Join\",\"payload\":{\"username\":"@ + json_string(username) + "}}"@,
            reading,
        ) == EventView::Message(ClientMessageView::Join { username }),
        client_event(
            "{\"type\":\"Send\",\"payload\":{\"text\":"@ + json_string(text) + "}}"@,
            reading,
        ) == EventView::Message(ClientMessageView::Send { text }),
        client_event("{\"type\":\"Leave\"}"@, reading) == EventView::Message(
            ClientMessageView::Leave,
        ),
{
    client_line_reads_back(ClientMessageView::Join { username }, reading);
    client_line_reads_back(ClientMessageView::Send { text }, reading);
    client_line_reads_back(ClientMessageView::Leave, reading);
}

/// A line that is the JSON of a server's message, letter by letter, is that message, with exactly
/// the texts that its JSON strings hold, whatever a general reader makes of it.
pub proof fn spelled_out_server_line_is_read(
    from: Seq<char>,
    text: Seq<char>,
    reading: Result<ServerMessageView, Seq<char>>,
)
    ensures
        server_line(
            "{\"type\":\"Chat\",\"payload\":{\"from\":"@ + json_string(from) + ",\"text\":"@
                + json_string(text) + "}}"@,
            reading,
        ) == ServerLineView::Message(ServerMessageView::Chat { from, text }),
        server_line(
            "{\"type\":\"Info\",\"payload\":{\"text\":"@ + json_string(text) + "}}"@,
            reading,
        ) == ServerLineView::Message(ServerMessageView::Info { text }),
        server_line(
            "{\"type\":\"Error\",\"payload\":{\"text\":"@ + json_string(text) + "}}"@,
            reading,
        ) == ServerLineView::Message(ServerMessageView::Error { text }),
{
    server_line_reads_back(ServerMessageView::Chat { from, text }, reading);
    server_line_reads_back(ServerMessageView::Info { text }, reading);
    server_line_reads_back(ServerMessageView::Error { text }, reading);
}

/// A client's line that a general reader reads as a message is that message, and one that it
/// cannot read is malformed, with the reader's error. The one exception is a line that is, letter
/// by letter, the JSON of another message.
pub proof fn client_line_is_what_the_reader_says(
    line: Seq<char>,
    message: ClientMessageView,
    error: Seq<char>,
)
    ensures
        ({
            let another = {
                ||| line == "{\"type\":\"Leave\"}"@ && message != ClientMessageView::Leave
                ||| exists|username: Seq<char>|
                    line == "{\"type\":\"Join\",\"payload\":{\"username\":"@ + #[trigger] json_string(
                        username,
                    ) + "}}"@ && message != (ClientMessageView::Join { username })
                ||| exists|text: Seq<char>|
                    line == "{\"type\":\"Send\",\"payload\":{\"text\":"@ + #[trigger] json_string(text)
                        + "}}"@ && message != (ClientMessageView::Send { text })
            };
            !another ==> client_event(line, Ok(message)) == EventView::Message(message)
        }),
        ({
            let written = {
                ||| line == "{\"type\":\"Leave\"}"@
                ||| exists|username: Seq<char>|
                    line == "{\"type\":\"Join\",\"payload\":{\"username\":"@ + #[trigger] json_string(
                        username,
                    ) + "}}"@
                ||| exists|text: Seq<char>|
                    line == "{\"type\":\"Send\",\"payload\":{\"text\":"@ + #[trigger] json_string(text)
                        + "}}"@
            };
            !written ==> client_event(line, Err(error)) == EventView::Malformed(error)
        }),
{
    if let Some(held) = client_message_in(line) {
        assert(client_json(held) == line);
        match held {
            ClientMessageView::Join { username } => {
                assert(line == "{\"type\":\"Join\",\"payload\":{\"username\":"@ + json_string(username)
                    + "}}"@);
            },
            ClientMessageView::Send { text } => {
                assert(line == "{\"type\":\"Send\",\"payload\":{\"text\":"@ + json_string(text)
                    + "}}"@);
            },
            ClientMessageView::Leave => {},
        }
    }
}

/// A server's line that a general reader reads as a message is that message, and one that it
/// cannot read is malformed, with the reader's error. The one exception is a line that is, letter
/// by letter, the JSON of another message.
pub proof fn server_line_is_what_the_reader_says(
    line: Seq<char>,
    message: ServerMessageView,
    error: Seq<char>,
)
    ensures
        ({
            let another = {
                ||| exists|from: Seq<char>, text: Seq<char>|
                    line == "{\"type\":\"Chat\",\"payload\":{\"from\":"@ + #[trigger] json_string(from)
                        + ",\"text\":"@ + #[trigger] json_string(text) + "}}"@ && message
                        != (ServerMessageView::Chat { from, text })
                ||| exists|text: Seq<char>|
                    line == "{\"type\":\"Info\",\"payload\":{\"text\":"@ + #[trigger] json_string(text)
                        + "}}"@ && message != (ServerMessageView::Info { text })
                ||| exists|text: Seq<char>|
                    line == "{\"type\":\"Error\",\"payload\":{\"text\":"@ + #[trigger] json_string(text)
                        + "}}"@ && message != (ServerMessageView::Error { text })
            };
            !another ==> server_line(line, Ok(message)) == ServerLineView::Message(message)
        }),
        ({
            let written = {
                ||| exists|from: Seq<char>, text: Seq<char>|
                    line == "{\"type\":\"Chat\",\"payload\":{\"from\":"@ + #[trigger] json_string(from)
                        + ",\"text\":"@ + #[trigger] json_string(text) + "}}"@
                ||| exists|text: Seq<char>|
                    line == "{\"type\":\"Info\",\"payload\":{\"text\":"@ + #[trigger] json_string(text)
                        + "}}"@
                ||| exists|text: Seq<char>|
                    line == "{\"type\":\"Error\",\"payload\":{\"text\":"@ + #[trigger] json_string(text)
                        + "}}"@
            };
            !written ==> server_line(line, Err(error)) == ServerLineView::Malformed(error)
        }),
{
    if let Some(held) = server_message_in(line) {
        assert(server_json(held) == line);
        match held {
            ServerMessageView::Chat { from, text } => {
                assert(line == "{\"type\":\"Chat\",\"payload\":{\"from\":"@ + json_string(from)
                    + ",\"text\":"@ + json_string(text) + "}}"@);
            },
            ServerMessageView::Info { text } => {
                assert(line == "{\"type\":\"Info\",\"payload\":{\"text\":"@ + json_string(text)
                    + "}}"@);
            },
            ServerMessageView::Error { text } => {
                assert(line == "{\"type\":\"Error\",\"payload\":{\"text\":"@ + json_string(text)
                    + "}}"@);
            },
        }
    }
}

/// What a general reader made of a line is taken as it is.
pub proof fn readings_are_taken_as_they_are(
    request: ClientMessage,
    answer: ServerMessage,
    error: String,
)
    ensures
        client_reading(Ok(request)) == Ok::<ClientMessageView, Seq<char>>(request@),
        client_reading(Err(error)) == Err::<ClientMessageView, Seq<char>>(error@),
        server_reading(Ok(answer)) == Ok::<ServerMessageView, Seq<char>>(answer@),
        server_reading(Err(error)) == Err::<ServerMessageView, Seq<char>>(error@),
{
}

} // verus!
