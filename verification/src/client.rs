//! The client's side: what its input makes it submit, what it writes to the server, and what it
//! shows of the server's answers.

use vstd::prelude::*;

use crate::command::{
    blank_line_is_empty, command, leave_stands_alone, parse_command, send_stands_before_its_text,
    Command, CommandView,
};
use crate::message::{ClientMessage, ClientMessageView, ServerMessage, ServerMessageView};
use crate::text::{is_blank, is_space, join2, join3, trimmed};

verus! {

/// How many submitted messages can wait to be written to the server.
pub const OUTBOX_CAPACITY: usize = 32;

/// What the client does about its input.
#[derive(Debug, PartialEq, Eq)]
pub enum InputAction {
    /// Nothing.
    Ignore,
    /// Submit the message, to be written to the server.
    Submit(ClientMessage),
    /// Print a line about something that is wrong with the input.
    Complain(String),
    /// Read no more input.
    Stop,
}

/// What an [`InputAction`] says.
pub enum InputActionView {
    Ignore,
    Submit(ClientMessageView),
    Complain(Seq<char>),
    Stop,
}

impl View for InputAction {
    type V = InputActionView;

    open spec fn view(&self) -> InputActionView {
        match self {
            InputAction::Ignore => InputActionView::Ignore,
            InputAction::Submit(message) => InputActionView::Submit(message@),
            InputAction::Complain(text) => InputActionView::Complain(text@),
            InputAction::Stop => InputActionView::Stop,
        }
    }
}

/// What the client does about a line of input, or about its end.
pub open spec fn input_action(input: Option<Seq<char>>) -> InputActionView {
    match input {
        Some(line) => match command(line) {
            CommandView::Empty => InputActionView::Ignore,
            CommandView::Leave => InputActionView::Submit(ClientMessageView::Leave),
            CommandView::Send { text } => InputActionView::Submit(
                ClientMessageView::Send { text },
            ),
            CommandView::Unknown => InputActionView::Complain(
                "Unknown command. Use: `send <MSG>` or `leave`"@,
            ),
        },
        None => InputActionView::Stop,
    }
}

/// Whether the client reads no more input after this action.
pub open spec fn ends_input(action: InputActionView) -> bool {
    action == InputActionView::Stop || action == InputActionView::Submit(ClientMessageView::Leave)
}

impl InputAction {
    /// Tells whether the client reads no more input after this action.
    pub fn ends_input(&self) -> (ends: bool)
        ensures
            ends == ends_input(self@),
    {
        match self {
            InputAction::Stop => true,
            InputAction::Submit(message) => message.is_last(),
            _ => false,
        }
    }
}

/// Says what the client does about a line of input, or, with `None`, about its end.
pub fn handle_input(input: Option<&str>) -> (action: InputAction)
    ensures
        action@ == input_action(
            match input {
                Some(line) => Some(line@),
                None => None,
            },
        ),
{
    match input {
        Some(line) => match parse_command(line) {
            Command::Empty => InputAction::Ignore,
            Command::Leave => InputAction::Submit(ClientMessage::Leave),
            Command::Send { text } => InputAction::Submit(ClientMessage::Send { text }),
            Command::Unknown => InputAction::Complain(
                "Unknown command. Use: `send <MSG>` or `leave`".to_owned(),
            ),
        },
        None => InputAction::Stop,
    }
}

impl ClientMessage {
    /// The message with which a client enters the chat: the first that it writes.
    pub fn opening(username: String) -> (message: ClientMessage)
        ensures
            message@ == (ClientMessageView::Join { username: username@ }),
    {
        ClientMessage::Join { username }
    }

    /// Tells whether a client writes nothing after this message.
    pub fn is_last(&self) -> (last: bool)
        ensures
            last == (self@ == ClientMessageView::Leave),
    {
        match self {
            ClientMessage::Leave => true,
            _ => false,
        }
    }
}

/// What the client reads from the server.
#[derive(Debug, PartialEq, Eq)]
pub enum ServerLine {
    /// A message.
    Message(ServerMessage),
    /// A line that is no message; the text says what is wrong with it.
    Malformed(String),
}

/// A line that the client prints.
#[derive(Debug, PartialEq, Eq)]
pub enum Printed {
    /// To the standard output.
    Output(String),
    /// To the standard error output.
    Diagnostic(String),
}

/// What a [`ServerLine`] says.
pub enum ServerLineView {
    Message(ServerMessageView),
    Malformed(Seq<char>),
}

/// What a [`Printed`] says.
pub enum PrintedView {
    Output(Seq<char>),
    Diagnostic(Seq<char>),
}

impl View for ServerLine {
    type V = ServerLineView;

    open spec fn view(&self) -> ServerLineView {
        match self {
            ServerLine::Message(message) => ServerLineView::Message(message@),
            ServerLine::Malformed(error) => ServerLineView::Malformed(error@),
        }
    }
}

impl View for Printed {
    type V = PrintedView;

    open spec fn view(&self) -> PrintedView {
        match self {
            Printed::Output(text) => PrintedView::Output(text@),
            Printed::Diagnostic(text) => PrintedView::Diagnostic(text@),
        }
    }
}

/// What the client prints for what it read. The carriage return goes back over the prompt.
pub open spec fn shown(line: ServerLineView) -> PrintedView {
    match line {
        ServerLineView::Message(ServerMessageView::Chat { from, text }) => PrintedView::Output(
            "\r["@ + from + "]: "@ + text,
        ),
        ServerLineView::Message(ServerMessageView::Info { text }) => PrintedView::Output(
            "\r[INFO]: "@ + text,
        ),
        ServerLineView::Message(ServerMessageView::Error { text }) => PrintedView::Diagnostic(
            "\r[ERROR]: "@ + text,
        ),
        ServerLineView::Malformed(error) => PrintedView::Diagnostic("Parse error: "@ + error),
    }
}

/// Says what the client prints for what it read.
pub fn show(line: &ServerLine) -> (printed: Printed)
    ensures
        printed@ == shown(line@),
{
    match line {
        ServerLine::Message(ServerMessage::Chat { from, text }) => {
            let who = join3("\r[", from.as_str(), "]: ");
            Printed::Output(join2(who.as_str(), text.as_str()))
        },
        ServerLine::Message(ServerMessage::Info { text }) => Printed::Output(
            join2("\r[INFO]: ", text.as_str()),
        ),
        ServerLine::Message(ServerMessage::Error { text }) => Printed::Diagnostic(
            join2("\r[ERROR]: ", text.as_str()),
        ),
        ServerLine::Malformed(error) => Printed::Diagnostic(join2("Parse error: ", error.as_str())),
    }
}

/// A chat message is printed to the standard output, behind its sender in brackets; an `Info` to
/// the standard output, behind `[INFO]`; an `Error` to the standard error output, behind
/// `[ERROR]`; and what is wrong with a line to the standard error output, behind `Parse error`.
/// Each text is printed as it is.
pub proof fn every_answer_is_printed(from: Seq<char>, text: Seq<char>)
    ensures
        shown(ServerLineView::Message(ServerMessageView::Chat { from, text }))
            == PrintedView::Output("\r["@ + from + "]: "@ + text),
        shown(ServerLineView::Message(ServerMessageView::Info { text })) == PrintedView::Output(
            "\r[INFO]: "@ + text,
        ),
        shown(ServerLineView::Message(ServerMessageView::Error { text }))
            == PrintedView::Diagnostic("\r[ERROR]: "@ + text),
        shown(ServerLineView::Malformed(text)) == PrintedView::Diagnostic("Parse error: "@ + text),
{
}

/// `send`, a space and a text, with nothing but white space around, submits a `Send` with exactly
/// this text, where the text is not empty and does not end in white space.
pub proof fn send_submits_its_text(before: Seq<char>, text: Seq<char>, after: Seq<char>)
    requires
        is_blank(before),
        is_blank(after),
        text.len() > 0,
        !is_space(text.last()),
    ensures
        input_action(Some(before + ("send "@ + text) + after)) == InputActionView::Submit(
            ClientMessageView::Send { text },
        ),
{
    send_stands_before_its_text(before + ("send "@ + text) + after, text);
}

/// `leave`, with nothing but white space around, submits a `Leave`.
pub proof fn leave_is_submitted(before: Seq<char>, after: Seq<char>)
    requires
        is_blank(before),
        is_blank(after),
    ensures
        input_action(Some(before + "leave"@ + after)) == InputActionView::Submit(
            ClientMessageView::Leave,
        ),
{
    leave_stands_alone(before + "leave"@ + after);
}

/// White space alone is ignored, and the end of input stops the reading.
pub proof fn blank_input_is_ignored(line: Seq<char>)
    requires
        is_blank(line),
    ensures
        input_action(Some(line)) == InputActionView::Ignore,
        input_action(None) == InputActionView::Stop,
{
    blank_line_is_empty(line);
}

/// A line that is neither white space nor `leave` nor `send` with a text is complained of, with
/// the commands that there are.
pub proof fn other_input_is_complained_of(line: Seq<char>)
    requires
        !is_blank(line),
        forall|before: Seq<char>, after: Seq<char>|
            is_blank(before) && is_blank(after) ==> line != #[trigger] (before + "leave"@ + after),
        forall|before: Seq<char>, text: Seq<char>, after: Seq<char>|
            is_blank(before) && is_blank(after) && text.len() > 0 && !is_space(text.last()) ==> line
                != #[trigger] (before + ("send "@ + text) + after),
    ensures
        input_action(Some(line)) == InputActionView::Complain(
            "Unknown command. Use: `send <MSG>` or `leave`"@,
        ),
{
    blank_line_is_empty(line);
    leave_stands_alone(line);
    if let CommandView::Send { text } = command(line) {
        send_stands_before_its_text(line, text);
    }
}

/// A line ends the input exactly if it is `leave` with nothing but white space around; and the end
/// of input ends it.
pub proof fn leave_alone_ends_input(line: Seq<char>)
    ensures
        ends_input(input_action(Some(line))) <==> exists|before: Seq<char>, after: Seq<char>|
            is_blank(before) && is_blank(after) && line == #[trigger] (before + "leave"@ + after),
        ends_input(input_action(Some(line))) <==> trimmed(line) == "leave"@,
        ends_input(input_action(None)),
{
    reveal_strlit("leave");
    leave_stands_alone(line);
}

/// No message but a `Leave` ends the input, nothing that is ignored or complained of does, and the
/// end of input does.
pub proof fn nothing_else_ends_input(username: Seq<char>, text: Seq<char>)
    ensures
        !ends_input(InputActionView::Submit(ClientMessageView::Send { text })),
        !ends_input(InputActionView::Submit(ClientMessageView::Join { username })),
        !ends_input(InputActionView::Complain(text)),
        !ends_input(InputActionView::Ignore),
        ends_input(InputActionView::Submit(ClientMessageView::Leave)),
        ends_input(InputActionView::Stop),
{
}

/// Whatever text follows `send` and a space, the line does not end the input.
pub proof fn send_never_ends_input(text: Seq<char>)
    ensures
        !ends_input(input_action(Some("send "@ + text))),
{
    reveal_strlit("send ");
    reveal_strlit("leave");
    let line = "send "@ + text;
    leave_alone_ends_input(line);
    assert forall|before: Seq<char>, after: Seq<char>|
        is_blank(before) && is_blank(after) implies line != #[trigger] (before + "leave"@ + after) by {
        let left = before + "leave"@ + after;
        assert(line[0] == 's');
        if before.len() > 0 {
            assert(left[0] == before[0]);
            assert(is_space(before[0]));
        } else {
            assert(left[0] == 'l');
        }
    }
}

/// So many submitted messages can wait.
pub proof fn outbox_capacity_is_fixed()
    ensures
        OUTBOX_CAPACITY == 32,
{
}

/// What the client does, reads and prints says what its fields say.
pub proof fn client_values_say_their_fields(
    request: ClientMessage,
    answer: ServerMessage,
    text: String,
)
    ensures
        InputAction::Ignore@ == InputActionView::Ignore,
        InputAction::Submit(request)@ == InputActionView::Submit(request@),
        InputAction::Complain(text)@ == InputActionView::Complain(text@),
        InputAction::Stop@ == InputActionView::Stop,
        ServerLine::Message(answer)@ == ServerLineView::Message(answer@),
        ServerLine::Malformed(text)@ == ServerLineView::Malformed(text@),
        Printed::Output(text)@ == PrintedView::Output(text@),
        Printed::Diagnostic(text)@ == PrintedView::Diagnostic(text@),
{
}

} // verus!
