//! What the library's functions give, told of the calls themselves: of what goes into a call and
//! of what comes out of it.

use vstd::prelude::*;

use crate::client::{
    handle_input, leave_alone_ends_input, send_never_ends_input, show, InputAction,
    InputActionView, Printed, PrintedView, ServerLine, ServerLineView,
};
use crate::command::{
    blank_line_is_empty, leave_stands_alone, parse_command, send_stands_before_its_text, Command,
    CommandView,
};
use crate::config::{
    address_is_host_and_port, argument_goes_before_environment, client_config, connecting_line,
    listening_line, server_address, ClientConfig, Environment,
};
use crate::forward::{forward, ForwardAction, ForwardActionView, ForwardEvent};
use crate::message::{ClientMessage, ClientMessageView, ServerMessage, ServerMessageView};
use crate::reading::{
    client_line_is_what_the_reader_says, client_line_reads_back, read_client_line,
    read_server_line, server_line_is_what_the_reader_says, server_line_reads_back,
};
use crate::session::{actions_view, Action, ActionView, Event, EventView, Phase, PhaseView, Session};
use crate::text::{
    decimal, decimal_gives_back_the_number, is_blank, is_space, is_space_char, option_view,
    to_decimal, trim, trimmed_gives_what_stands_between,
};
use crate::users::Users;
use crate::wire::{json_string, line_is_json_and_newline};

verus! {

/// A client writes its message as the JSON that is given here letter by letter but for the text,
/// and the line that it sends is this JSON and a newline.
pub proof fn client_writes(message: ClientMessage, json: String, line: String)
    requires
        call_ensures(ClientMessage::to_json, (&message,), json),
        call_ensures(ClientMessage::to_line, (&message,), line),
    ensures
        json@ == match message {
            ClientMessage::Join { username } => "{\"type\":\"Join\",\"payload\":{\"username\":"@
                + json_string(username@) + "}}"@,
            ClientMessage::Send { text } => "{\"type\":\"Send\",\"payload\":{\"text\":"@
                + json_string(text@) + "}}"@,
            ClientMessage::Leave => "{\"type\":\"Leave\"}"@,
        },
        line@ == json@ + "\n"@,
{
    line_is_json_and_newline(json@);
}

/// The server writes its message as the JSON that is given here letter by letter but for the
/// texts, and the line that it sends is this JSON and a newline.
pub proof fn server_writes(message: ServerMessage, json: String, line: String)
    requires
        call_ensures(ServerMessage::to_json, (&message,), json),
        call_ensures(ServerMessage::to_line, (&message,), line),
    ensures
        json@ == match message {
            ServerMessage::Chat { from, text } => "{\"type\":\"Chat\",\"payload\":{\"from\":"@
                + json_string(from@) + ",\"text\":"@ + json_string(text@) + "}}"@,
            ServerMessage::Info { text } => "{\"type\":\"Info\",\"payload\":{\"text\":"@
                + json_string(text@) + "}}"@,
            ServerMessage::Error { text } => "{\"type\":\"Error\",\"payload\":{\"text\":"@
                + json_string(text@) + "}}"@,
        },
        line@ == json@ + "\n"@,
{
    line_is_json_and_newline(json@);
}

/// What a client wrote is read as the message that was written, whatever a general reader made
/// of it.
pub proof fn written_request_is_read(
    message: ClientMessage,
    json: String,
    line: &str,
    reading: Result<ClientMessage, String>,
    event: Event,
)
    requires
        call_ensures(ClientMessage::to_json, (&message,), json),
        line@ == json@,
        call_ensures(read_client_line, (line, reading), event),
    ensures
        event@ == EventView::Message(message@),
{
    match reading {
        Ok(read) => client_line_reads_back(message@, Ok(read@)),
        Err(error) => client_line_reads_back(message@, Err(error@)),
    }
}

/// What the server wrote is read as the message that was written, whatever a general reader made
/// of it.
pub proof fn written_answer_is_read(
    message: ServerMessage,
    json: String,
    line: &str,
    reading: Result<ServerMessage, String>,
    read: ServerLine,
)
    requires
        call_ensures(ServerMessage::to_json, (&message,), json),
        line@ == json@,
        call_ensures(read_server_line, (line, reading), read),
    ensures
        read@ == ServerLineView::Message(message@),
{
    match reading {
        Ok(given) => server_line_reads_back(message@, Ok(given@)),
        Err(error) => server_line_reads_back(message@, Err(error@)),
    }
}

/// A client's line that a general reader reads as a message is that message, unless it is the
/// JSON of another; one that it cannot read, and that is the JSON of none, is malformed.
pub proof fn request_is_read_as_the_reader_says(
    line: &str,
    message: ClientMessage,
    read: Event,
    error: String,
    unread: Event,
)
    requires
        call_ensures(read_client_line, (line, Ok(message)), read),
        call_ensures(read_client_line, (line, Err(error)), unread),
    ensures
        read@ == EventView::Message(message@) || {
            ||| line@ == "{\"type\":\"Leave\"}"@ && message@ != ClientMessageView::Leave
            ||| exists|username: Seq<char>|
                line@ == "{\"type\":\"Join\",\"payload\":{\"username\":"@ + #[trigger] json_string(
                    username,
                ) + "}}"@ && message@ != (ClientMessageView::Join { username })
            ||| exists|text: Seq<char>|
                line@ == "{\"type\":\"Send\",\"payload\":{\"text\":"@ + #[trigger] json_string(text)
                    + "}}"@ && message@ != (ClientMessageView::Send { text })
        },
        unread@ == EventView::Malformed(error@) || {
            ||| line@ == "{\"type\":\"Leave\"}"@
            ||| exists|username: Seq<char>|
                line@ == "{\"type\":\"Join\",\"payload\":{\"username\":"@ + #[trigger] json_string(
                    username,
                ) + "}}"@
            ||| exists|text: Seq<char>|
                line@ == "{\"type\":\"Send\",\"payload\":{\"text\":"@ + #[trigger] json_string(text)
                    + "}}"@
        },
{
    client_line_is_what_the_reader_says(line@, message@, error@);
}

/// A server's line that a general reader reads as a message is that message, unless it is the
/// JSON of another; one that it cannot read, and that is the JSON of none, is malformed.
pub proof fn answer_is_read_as_the_reader_says(
    line: &str,
    message: ServerMessage,
    read: ServerLine,
    error: String,
    unread: ServerLine,
)
    requires
        call_ensures(read_server_line, (line, Ok(message)), read),
        call_ensures(read_server_line, (line, Err(error)), unread),
    ensures
        read@ == ServerLineView::Message(message@) || {
            ||| exists|from: Seq<char>, text: Seq<char>|
                line@ == "{\"type\":\"Chat\",\"payload\":{\"from\":"@ + #[trigger] json_string(from)
                    + ",\"text\":"@ + #[trigger] json_string(text) + "}}"@ && message@
                    != (ServerMessageView::Chat { from, text })
            ||| exists|text: Seq<char>|
                line@ == "{\"type\":\"Info\",\"payload\":{\"text\":"@ + #[trigger] json_string(text)
                    + "}}"@ && message@ != (ServerMessageView::Info { text })
            ||| exists|text: Seq<char>|
                line@ == "{\"type\":\"Error\",\"payload\":{\"text\":"@ + #[trigger] json_string(text)
                    + "}}"@ && message@ != (ServerMessageView::Error { text })
        },
        unread@ == ServerLineView::Malformed(error@) || {
            ||| exists|from: Seq<char>, text: Seq<char>|
                line@ == "{\"type\":\"Chat\",\"payload\":{\"from\":"@ + #[trigger] json_string(from)
                    + ",\"text\":"@ + #[trigger] json_string(text) + "}}"@
            ||| exists|text: Seq<char>|
                line@ == "{\"type\":\"Info\",\"payload\":{\"text\":"@ + #[trigger] json_string(text)
                    + "}}"@
            ||| exists|text: Seq<char>|
                line@ == "{\"type\":\"Error\",\"payload\":{\"text\":"@ + #[trigger] json_string(text)
                    + "}}"@
        },
{
    server_line_is_what_the_reader_says(line@, message@, error@);
}

/// What the client prints, and where, for each message and for a line that is none.
pub proof fn client_prints(line: ServerLine, printed: Printed)
    requires
        call_ensures(show, (&line,), printed),
    ensures
        printed@ == match line {
            ServerLine::Message(ServerMessage::Chat { from, text }) => PrintedView::Output(
                "\r["@ + from@ + "]: "@ + text@,
            ),
            ServerLine::Message(ServerMessage::Info { text }) => PrintedView::Output(
                "\r[INFO]: "@ + text@,
            ),
            ServerLine::Message(ServerMessage::Error { text }) => PrintedView::Diagnostic(
                "\r[ERROR]: "@ + text@,
            ),
            ServerLine::Malformed(error) => PrintedView::Diagnostic("Parse error: "@ + error@),
        },
{
}

/// A line that the user types ends the input exactly if it is `leave` with nothing but white
/// space around, and then it submits a `Leave`; the end of input ends it too.
pub proof fn input_ends_with_leave(
    line: &str,
    action: InputAction,
    ends: bool,
    last: InputAction,
    over: bool,
)
    requires
        call_ensures(handle_input, (Some(line),), action),
        call_ensures(InputAction::ends_input, (&action,), ends),
        call_ensures(handle_input, (None,), last),
        call_ensures(InputAction::ends_input, (&last,), over),
    ensures
        ends <==> exists|before: Seq<char>, after: Seq<char>|
            is_blank(before) && is_blank(after) && line@ == #[trigger] (before + "leave"@ + after),
        ends ==> action@ == InputActionView::Submit(ClientMessageView::Leave),
        last@ == InputActionView::Stop,
        over,
{
    leave_alone_ends_input(line@);
}

/// Whatever text follows `send` and a space, the line does not end the input; and it submits a
/// `Send` with exactly this text, where the text is not empty and does not end in white space.
pub proof fn send_line_submits(line: &str, text: Seq<char>, action: InputAction, ends: bool)
    requires
        line@ == "send "@ + text,
        call_ensures(handle_input, (Some(line),), action),
        call_ensures(InputAction::ends_input, (&action,), ends),
    ensures
        !ends,
        text.len() > 0 && !is_space(text.last()) ==> action@ == InputActionView::Submit(
            ClientMessageView::Send { text },
        ),
{
    send_never_ends_input(text);
    let nothing = Seq::<char>::empty();
    assert(line@ =~= nothing + ("send "@ + text) + nothing);
    send_stands_before_its_text(line@, text);
}

/// Whether the input ends after an action depends on nothing but whether it is the end of input
/// or submits a `Leave`; and a client writes nothing more after a `Leave`, and after no other
/// message.
pub proof fn only_leave_is_last(
    action: InputAction,
    ends: bool,
    message: ClientMessage,
    last: bool,
    username: String,
    opening: ClientMessage,
)
    requires
        call_ensures(InputAction::ends_input, (&action,), ends),
        call_ensures(ClientMessage::is_last, (&message,), last),
        call_ensures(ClientMessage::opening, (username,), opening),
    ensures
        ends == match action {
            InputAction::Stop | InputAction::Submit(ClientMessage::Leave) => true,
            InputAction::Ignore | InputAction::Complain(_) | InputAction::Submit(
                ClientMessage::Join { .. },
            ) | InputAction::Submit(ClientMessage::Send { .. }) => false,
        },
        last == match message {
            ClientMessage::Leave => true,
            ClientMessage::Join { .. } | ClientMessage::Send { .. } => false,
        },
        opening@ == (ClientMessageView::Join { username: username@ }),
{
}

/// The command in a line: nothing, `leave` or `send` with a text, each with nothing but white
/// space around; and the client ignores, submits, or complains of it.
pub proof fn line_is_its_command(line: &str, parsed: Command, action: InputAction)
    requires
        call_ensures(parse_command, (line,), parsed),
        call_ensures(handle_input, (Some(line),), action),
    ensures
        parsed@ == CommandView::Empty <==> is_blank(line@),
        parsed@ == CommandView::Leave <==> exists|before: Seq<char>, after: Seq<char>|
            is_blank(before) && is_blank(after) && line@ == #[trigger] (before + "leave"@ + after),
        forall|text: Seq<char>|
            parsed@ == (CommandView::Send { text }) <==> {
                &&& text.len() > 0
                &&& !is_space(text.last())
                &&& exists|before: Seq<char>, after: Seq<char>|
                    is_blank(before) && is_blank(after) && line@ == #[trigger] (before + (
                    "send "@ + text) + after)
            },
        action@ == match parsed {
            Command::Empty => InputActionView::Ignore,
            Command::Leave => InputActionView::Submit(ClientMessageView::Leave),
            Command::Send { text } => InputActionView::Submit(
                ClientMessageView::Send { text: text@ },
            ),
            Command::Unknown => InputActionView::Complain(
                "Unknown command. Use: `send <MSG>` or `leave`"@,
            ),
        },
{
    blank_line_is_empty(line@);
    leave_stands_alone(line@);
    assert forall|text: Seq<char>|
        parsed@ == (CommandView::Send { text }) <==> {
            &&& text.len() > 0
            &&& !is_space(text.last())
            &&& exists|before: Seq<char>, after: Seq<char>|
                is_blank(before) && is_blank(after) && line@ == #[trigger] (before + ("send "@
                    + text) + after)
        } by {
        send_stands_before_its_text(line@, text);
    }
}

/// What the forwarding does: it hands on everything but what the user said, reports a lag, and
/// stops when nothing more will come or the client cannot be reached.
pub proof fn forwarding_does(username: String, event: ForwardEvent, action: ForwardAction)
    requires
        call_ensures(forward, (&username, event), action),
    ensures
        action@ == match event {
            ForwardEvent::Received(message) => match message {
                ServerMessage::Chat { from, .. } if from@ == username@ => ForwardActionView::Skip,
                _ => ForwardActionView::Send(message@),
            },
            ForwardEvent::Lagged(missed) => ForwardActionView::Warn(
                "Client "@ + username@ + " lagged by "@ + decimal(missed as nat) + " messages"@,
            ),
            ForwardEvent::ChannelClosed | ForwardEvent::SendFailed => ForwardActionView::Stop,
        },
{
}

/// A number is written with the digits that give it back when they are read from the left.
pub proof fn number_is_written(n: u64, written: String)
    requires
        call_ensures(to_decimal, (n,), written),
    ensures
        written@.fold_left(0, |before: int, c: char| 10 * before + (c as int - '0' as int)) == n,
        forall|i: int|
            0 <= i < written@.len() ==> '0' as int <= #[trigger] written@[i] as int <= '9' as int,
        written@.len() > 0,
        written@.len() > 1 ==> written@.first() != '0',
{
    decimal_gives_back_the_number(n as nat);
}

/// What is left of a text after trimming is what stands between the white space at its two ends.
pub proof fn text_is_trimmed(
    s: &str,
    before: Seq<char>,
    core: Seq<char>,
    after: Seq<char>,
    part: &str,
)
    requires
        s@ == before + core + after,
        is_blank(before),
        is_blank(after),
        core.len() > 0 ==> !is_space(core.first()) && !is_space(core.last()),
        call_ensures(trim, (s,), part),
    ensures
        part@ == core,
{
    trimmed_gives_what_stands_between(before, core, after);
}

/// What is taken for white space.
pub proof fn white_space_is_recognised(c: char, space: bool)
    requires
        call_ensures(is_space_char, (c,), space),
    ensures
        space <==> {
            ||| '\t' as int <= c as int <= '\r' as int
            ||| c == ' ' || c == '\u{85}' || c == '\u{a0}' || c == '\u{1680}'
            ||| 0x2000 <= c as int <= 0x200a
            ||| c == '\u{2028}' || c == '\u{2029}' || c == '\u{202f}' || c == '\u{205f}'
            ||| c == '\u{3000}'
        },
{
}

/// The server listens on the host and the port of its environment, and where one is missing on
/// `127.0.0.1` and `8080`.
pub proof fn server_listens_on(host: Option<String>, port: Option<String>, listening: String)
    requires
        call_ensures(server_address, (host, port), listening),
    ensures
        listening@ == match (host, port) {
            (Some(host), Some(port)) => host@ + ":"@ + port@,
            (None, Some(port)) => "127.0.0.1:"@ + port@,
            (Some(host), None) => host@ + ":8080"@,
            (None, None) => "127.0.0.1:8080"@,
        },
{
    let any = Seq::<char>::empty();
    match (host, port) {
        (Some(host), Some(port)) => address_is_host_and_port(host@, port@),
        (None, Some(port)) => address_is_host_and_port(any, port@),
        (Some(host), None) => address_is_host_and_port(host@, any),
        (None, None) => address_is_host_and_port(any, any),
    }
}

/// The client connects to the host and the port of its arguments, without these to those of its
/// environment, and without these to `127.0.0.1` and `8080`; its username is that of its
/// arguments, or else of its environment, and without any there is no configuration.
pub proof fn client_connects_to(
    args: Vec<String>,
    environment: Environment,
    config: Option<ClientConfig>,
)
    requires
        call_ensures(client_config, (&args, environment), config),
    ensures
        config is Some <==> args@.len() > 3 || environment.username is Some,
        config matches Some(config) ==> {
            let host = if args@.len() > 1 {
                args@[1]@
            } else if let Some(host) = environment.host {
                host@
            } else {
                "127.0.0.1"@
            };
            let port = if args@.len() > 2 {
                args@[2]@
            } else if let Some(port) = environment.port {
                port@
            } else {
                "8080"@
            };
            let username = if args@.len() > 3 {
                args@[3]@
            } else {
                environment.username->0@
            };
            &&& config.address@ == host + ":"@ + port
            &&& config.username@ == username
        },
{
    let host = option_view(environment.host);
    let port = option_view(environment.port);
    let username = option_view(environment.username);
    argument_goes_before_environment(args@, 1, host);
    argument_goes_before_environment(args@, 2, port);
    argument_goes_before_environment(args@, 3, username);
}

/// The lines with which the programs say what they do: where the server listens, and where the
/// client connects and under which username.
pub proof fn programs_say(
    given: &str,
    listening: String,
    config: ClientConfig,
    connecting: String,
)
    requires
        call_ensures(listening_line, (given,), listening),
        call_ensures(connecting_line, (&config,), connecting),
    ensures
        listening@ == "Server listening on "@ + given@,
        connecting@ == "Connecting to "@ + config.address@ + " as '"@ + config.username@ + "'..."@,
{
}

/// A connection starts out joining, and tells how far it has come.
pub proof fn connection_tells_its_phase<A: Copy>(
    address: A,
    opened: Session<A>,
    session: Session<A>,
    phase: &Phase,
)
    requires
        call_ensures(Session::<A>::new, (address,), opened),
        call_ensures(Session::<A>::phase, (&session,), phase),
    ensures
        opened@.address == address,
        opened@.phase == PhaseView::Joining,
        phase@ == session@.phase,
{
}

/// What the server does about an event on a connection, and what becomes of the connection and of
/// the register.
pub proof fn server_does<A: Copy>(
    session: &mut Session<A>,
    users: &mut Users<A>,
    event: Event,
    actions: Vec<Action>,
)
    requires
        call_ensures(Session::<A>::handle, (session, users, event), actions),
    ensures
        final(session)@.address == old(session)@.address,
        (final(session)@.phase, final(users)@, actions_view(actions@)) == match (
            old(session)@.phase,
            event,
        ) {
            (PhaseView::Joining, Event::Message(ClientMessage::Join { username })) => if old(
                users,
            )@.contains_key(username@) {
                (
                    PhaseView::Closed,
                    old(users)@,
                    seq![
                        ActionView::Reply(
                            ServerMessageView::Error { text: "Username already taken"@ },
                        ),
                    ],
                )
            } else {
                (
                    PhaseView::Chatting { username: username@ },
                    old(users)@.insert(username@, old(session)@.address),
                    seq![
                        ActionView::Broadcast(
                            ServerMessageView::Info { text: username@ + " joined the chat"@ },
                        ),
                        ActionView::StartForwarding(username@),
                    ],
                )
            },
            (PhaseView::Joining, Event::Message(_) | Event::Malformed(_)) => (
                PhaseView::Joining,
                old(users)@,
                seq![
                    ActionView::Reply(
                        ServerMessageView::Error { text: "Send Join message first"@ },
                    ),
                ],
            ),
            (PhaseView::Joining, Event::Disconnected) => (
                PhaseView::Closed,
                old(users)@,
                seq![],
            ),
            (PhaseView::Chatting { username }, Event::Message(ClientMessage::Send { text })) => (
                PhaseView::Chatting { username },
                old(users)@,
                seq![
                    ActionView::Broadcast(
                        ServerMessageView::Chat { from: username, text: text@ },
                    ),
                ],
            ),
            (PhaseView::Chatting { username }, Event::Message(_) | Event::Disconnected) => (
                PhaseView::Leaving { username },
                old(users)@,
                seq![ActionView::StopForwarding],
            ),
            (PhaseView::Chatting { username }, Event::Malformed(error)) => (
                PhaseView::Chatting { username },
                old(users)@,
                seq![ActionView::Warn("Parse error from "@ + username + ": "@ + error@)],
            ),
            (PhaseView::Leaving { username }, Event::ForwardingStopped) => (
                PhaseView::Closed,
                old(users)@.remove(username),
                seq![
                    ActionView::Broadcast(
                        ServerMessageView::Info { text: username + " left the chat"@ },
                    ),
                    ActionView::Report(username + " disconnected"@),
                ],
            ),
            (phase, _) => (phase, old(users)@, seq![]),
        },
{
}

/// The register holds a username from when it is entered until it is struck out, with the address
/// that it was entered with first; other usernames are not touched.
pub proof fn register_keeps_users<A>(
    empty: Users<A>,
    users: &mut Users<A>,
    username: String,
    address: A,
    entered: bool,
    leaving: &mut Users<A>,
    name: &str,
    asked: &Users<A>,
    taken: bool,
)
    requires
        call_ensures(Users::<A>::new, (), empty),
        call_ensures(Users::<A>::enter, (users, username, address), entered),
        call_ensures(Users::<A>::remove, (leaving, name), ()),
        call_ensures(Users::<A>::contains, (asked, name), taken),
    ensures
        empty@ == Map::<Seq<char>, A>::empty(),
        entered == !old(users)@.contains_key(username@),
        final(users)@ == if entered {
            old(users)@.insert(username@, address)
        } else {
            old(users)@
        },
        final(leaving)@ == old(leaving)@.remove(name@),
        taken == asked@.contains_key(name@),
{
}

} // verus!
