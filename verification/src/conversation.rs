//! A client and the server together: what the user types becomes what the others read.

use vstd::prelude::*;

use crate::client::{
    blank_input_is_ignored, ends_input, input_action, leave_alone_ends_input, leave_is_submitted,
    nothing_else_ends_input, other_input_is_complained_of, send_never_ends_input,
    send_submits_its_text, shown, InputActionView, PrintedView, ServerLineView,
};
use crate::command::{send_carries_text, send_prefix};
use crate::forward::{forwarding, ForwardActionView, ForwardEventView};
use crate::message::{ClientMessageView, ServerMessageView};
use crate::room::{chat_reaches_all_others, Room};
use crate::session::{
    broadcasts, history, joined, leaving_outcome, left, lemma_history_push, outcome, ActionView,
    EventView, PhaseView, SessionView,
};
use crate::text::{is_blank, is_space};

verus! {

/// The messages that a client submits when its user types `lines`: those after a line that ends
/// the input are not read any more.
pub open spec fn submitted(lines: Seq<Seq<char>>) -> Seq<ClientMessageView>
    decreases lines.len(),
{
    if lines.len() == 0 {
        seq![]
    } else {
        let action = input_action(Some(lines.first()));
        let rest = if ends_input(action) {
            seq![]
        } else {
            submitted(lines.drop_first())
        };
        match action {
            InputActionView::Submit(message) => seq![message] + rest,
            _ => rest,
        }
    }
}

/// Once a line has ended the input, what is typed after it makes no difference.
pub proof fn nothing_is_submitted_after_the_end(
    lines: Seq<Seq<char>>,
    last: Seq<char>,
    more: Seq<Seq<char>>,
)
    requires
        ends_input(input_action(Some(last))),
    ensures
        submitted(lines.push(last) + more) == submitted(lines.push(last)),
    decreases lines.len(),
{
    let short = lines.push(last);
    let long = short + more;
    assert(long.first() == short.first());
    if lines.len() > 0 {
        assert(short.drop_first() =~= lines.drop_first().push(last));
        assert(long.drop_first() =~= lines.drop_first().push(last) + more);
        nothing_is_submitted_after_the_end(lines.drop_first(), last, more);
    }
}

/// The messages that the client of `username` writes to the server.
pub open spec fn conversation(
    username: Seq<char>,
    lines: Seq<Seq<char>>,
) -> Seq<ClientMessageView> {
    seq![ClientMessageView::Join { username }] + submitted(lines)
}

/// What `username` is heard to say when `messages` arrive.
pub open spec fn said(
    username: Seq<char>,
    messages: Seq<ClientMessageView>,
) -> Seq<ServerMessageView>
    decreases messages.len(),
{
    if messages.len() == 0 {
        seq![]
    } else {
        match messages.last() {
            ClientMessageView::Send { text } => said(username, messages.drop_last()).push(
                ServerMessageView::Chat { from: username, text },
            ),
            _ => said(username, messages.drop_last()),
        }
    }
}

proof fn lemma_submitted(lines: Seq<Seq<char>>)
    ensures
        forall|i: int| 0 <= i < submitted(lines).len() ==> !(#[trigger] submitted(lines)[i] is Join),
        forall|i: int|
            0 <= i < submitted(lines).len() - 1 ==> #[trigger] submitted(lines)[i]
                != ClientMessageView::Leave,
    decreases lines.len(),
{
    if lines.len() > 0 {
        lemma_submitted(lines.drop_first());
    }
}

/// Whatever the user types, the client writes one `Join`, and writes it first; and it writes
/// nothing behind a `Leave`.
pub proof fn client_keeps_the_protocol(username: Seq<char>, lines: Seq<Seq<char>>)
    ensures
        conversation(username, lines).first() == (ClientMessageView::Join { username }),
        forall|i: int|
            0 < i < conversation(username, lines).len() ==> !(#[trigger] conversation(
                username,
                lines,
            )[i] is Join),
        forall|i: int|
            0 <= i < conversation(username, lines).len() - 1 ==> #[trigger] conversation(
                username,
                lines,
            )[i] != ClientMessageView::Leave,
{
    lemma_submitted(lines);
    let all = conversation(username, lines);
    assert forall|i: int| 0 < i < all.len() implies #[trigger] all[i] == submitted(lines)[i - 1] by {}
}

/// Whether `events` bring `messages` to a connection, in this order.
pub open spec fn bring<A>(
    events: Seq<(Map<Seq<char>, A>, EventView)>,
    messages: Seq<ClientMessageView>,
) -> bool {
    &&& events.len() == messages.len()
    &&& forall|i: int|
        0 <= i < events.len() ==> (#[trigger] events[i]).1 == EventView::Message(messages[i])
}

proof fn lemma_server_follows<A>(
    session: SessionView<A>,
    username: Seq<char>,
    messages: Seq<ClientMessageView>,
    events: Seq<(Map<Seq<char>, A>, EventView)>,
)
    requires
        session.phase == PhaseView::Joining,
        messages.len() > 0,
        messages.first() == (ClientMessageView::Join { username }),
        forall|i: int| 0 < i < messages.len() ==> !(#[trigger] messages[i] is Join),
        forall|i: int|
            0 <= i < messages.len() - 1 ==> #[trigger] messages[i] != ClientMessageView::Leave,
        bring(events, messages),
        !events.first().0.contains_key(username),
    ensures
        ({
            let (phase, actions) = history(session, events);
            &&& phase == if messages.last() == ClientMessageView::Leave {
                PhaseView::Leaving { username }
            } else {
                PhaseView::Chatting { username }
            }
            &&& broadcasts(actions) == seq![joined(username)] + said(username, messages)
            &&& forall|i: int| 0 <= i < actions.len() ==> !(#[trigger] actions[i] is Reply)
        }),
    decreases messages.len(),
{
    reveal_with_fuel(history, 2);
    reveal_with_fuel(said, 2);
    reveal_with_fuel(broadcasts, 3);
    let (phase, actions) = history(session, events.drop_last());
    let due = outcome(SessionView { phase, ..session }, events.last().0, events.last().1);
    assert(events.last().1 == EventView::Message(messages.last()));
    if messages.len() == 1 {
        assert(actions + due.actions =~= due.actions);
        assert(due.actions.drop_last() =~= seq![ActionView::Broadcast(joined(username))]);
        assert(broadcasts(due.actions) =~= seq![joined(username)] + said(username, messages));
    } else {
        lemma_server_follows(session, username, messages.drop_last(), events.drop_last());
        assert(messages[messages.len() - 2] != ClientMessageView::Leave);
        assert(!(messages[messages.len() - 1] is Join));
        assert(due.actions.len() == 1);
        assert((actions + due.actions).drop_last() =~= actions);
        assert(broadcasts(actions + due.actions) =~= seq![joined(username)] + said(
            username,
            messages,
        ));
    }
}

/// Whatever the user of a client types, a server on which the username is free when the client
/// joins has nothing to object: it answers nothing, announces that the user joined, and then
/// hands on every text that the user sends, in order and under the user's name. The user is in
/// the chat in the end, unless the last that the client wrote is that the user leaves.
pub proof fn server_follows_client<A>(
    session: SessionView<A>,
    username: Seq<char>,
    lines: Seq<Seq<char>>,
    events: Seq<(Map<Seq<char>, A>, EventView)>,
)
    requires
        session.phase == PhaseView::Joining,
        bring(events, conversation(username, lines)),
        !events.first().0.contains_key(username),
    ensures
        ({
            let messages = conversation(username, lines);
            let (phase, actions) = history(session, events);
            &&& phase == if messages.last() == ClientMessageView::Leave {
                PhaseView::Leaving { username }
            } else {
                PhaseView::Chatting { username }
            }
            &&& broadcasts(actions) == seq![joined(username)] + said(username, messages)
            &&& forall|i: int| 0 <= i < actions.len() ==> !(#[trigger] actions[i] is Reply)
        }),
{
    client_keeps_the_protocol(username, lines);
    lemma_server_follows(session, username, conversation(username, lines), events);
}

/// Whatever the user of a client types, when the client has left or its lines have come to an
/// end, and the forwarding to it has been stopped, the connection is closed, and what was
/// broadcast is that the user joined, every text that the user sent, and last that the user left.
pub proof fn client_is_seen_off<A>(
    session: SessionView<A>,
    username: Seq<char>,
    lines: Seq<Seq<char>>,
    events: Seq<(Map<Seq<char>, A>, EventView)>,
    users: Map<Seq<char>, A>,
    users_then: Map<Seq<char>, A>,
)
    requires
        session.phase == PhaseView::Joining,
        bring(events, conversation(username, lines)),
        !events.first().0.contains_key(username),
    ensures
        ({
            let messages = conversation(username, lines);
            let ended = if messages.last() == ClientMessageView::Leave {
                events
            } else {
                events.push((users, EventView::Disconnected))
            };
            let (phase, actions) = history(
                session,
                ended.push((users_then, EventView::ForwardingStopped)),
            );
            &&& phase == PhaseView::Closed
            &&& broadcasts(actions) == (seq![joined(username)] + said(username, messages)).push(
                left(username),
            )
        }),
{
    let messages = conversation(username, lines);
    let heard = seq![joined(username)] + said(username, messages);
    let disconnected = (users, EventView::Disconnected);
    let stopped = (users_then, EventView::ForwardingStopped);
    server_follows_client(session, username, lines, events);
    reveal_with_fuel(broadcasts, 3);
    let ended = if messages.last() == ClientMessageView::Leave {
        events
    } else {
        lemma_history_push(session, events, disconnected);
        events.push(disconnected)
    };
    assert(broadcasts(history(session, ended).1) =~= heard);
    lemma_history_push(session, ended, stopped);
    let due = leaving_outcome(username, users_then, EventView::ForwardingStopped);
    assert(due.actions.drop_last() =~= seq![ActionView::Broadcast(left(username))]);
    assert(broadcasts(due.actions) =~= seq![left(username)]);
    assert(broadcasts(history(session, ended.push(stopped)).1) =~= heard.push(left(username)));
}

/// A text that a user sends with a `send` command is broadcast, forwarded to every other user,
/// and printed there behind the sender's username.
pub proof fn typed_text_is_printed_for_others<A>(
    room: Room<A>,
    sender: int,
    username: Seq<char>,
    text: Seq<char>,
    receiver: int,
    receiver_name: Seq<char>,
)
    requires
        room.consistent(),
        room.sessions.contains_key(sender),
        room.sessions[sender].phase == (PhaseView::Chatting { username }),
        room.sessions.contains_key(receiver),
        room.sessions[receiver].phase == (PhaseView::Chatting { username: receiver_name }),
        room.pending[sender].len() == 0,
        receiver != sender,
        text.len() > 0,
        !is_space(text.last()),
    ensures
        ({
            let request = ClientMessageView::Send { text };
            let message = ServerMessageView::Chat { from: username, text };
            &&& input_action(Some(send_prefix() + text)) == InputActionView::Submit(request)
            &&& room.outcome(sender, EventView::Message(request)).actions == seq![
                ActionView::Broadcast(message),
            ]
            &&& forwarding(receiver_name, ForwardEventView::Received(message))
                == ForwardActionView::Send(message)
            &&& shown(ServerLineView::Message(message)) == PrintedView::Output(
                "\r["@ + username + "]: "@ + text,
            )
        }),
{
    send_carries_text(text);
    chat_reaches_all_others(room, sender, username, text, receiver, receiver_name);
}

/// A `send` line submits its text, and what is typed after it is submitted as if it had been typed
/// alone.
pub proof fn send_line_goes_before_the_rest(
    before: Seq<char>,
    text: Seq<char>,
    after: Seq<char>,
    more: Seq<Seq<char>>,
)
    requires
        is_blank(before),
        is_blank(after),
        text.len() > 0,
        !is_space(text.last()),
    ensures
        submitted(seq![before + ("send "@ + text) + after] + more) == seq![
            ClientMessageView::Send { text },
        ] + submitted(more),
{
    let line = before + ("send "@ + text) + after;
    send_submits_its_text(before, text, after);
    nothing_else_ends_input(seq![], text);
    assert((seq![line] + more).first() == line);
    assert((seq![line] + more).drop_first() =~= more);
}

/// A `leave` line submits a `Leave`, and nothing that is typed after it.
pub proof fn leave_line_comes_last(before: Seq<char>, after: Seq<char>, more: Seq<Seq<char>>)
    requires
        is_blank(before),
        is_blank(after),
    ensures
        submitted(seq![before + "leave"@ + after] + more) == seq![ClientMessageView::Leave],
{
    let line = before + "leave"@ + after;
    leave_is_submitted(before, after);
    assert((seq![line] + more).first() == line);
    assert(submitted(seq![line] + more) =~= seq![ClientMessageView::Leave]);
}

/// A line that is neither `leave` nor `send` with a text submits nothing, and what is typed after
/// it is submitted as if it had been typed alone.
pub proof fn other_line_is_passed_over(line: Seq<char>, more: Seq<Seq<char>>)
    requires
        forall|before: Seq<char>, after: Seq<char>|
            is_blank(before) && is_blank(after) ==> line != #[trigger] (before + "leave"@ + after),
        forall|before: Seq<char>, text: Seq<char>, after: Seq<char>|
            is_blank(before) && is_blank(after) && text.len() > 0 && !is_space(text.last()) ==> line
                != #[trigger] (before + ("send "@ + text) + after),
    ensures
        submitted(seq![line] + more) == submitted(more),
{
    if is_blank(line) {
        blank_input_is_ignored(line);
    } else {
        other_input_is_complained_of(line);
    }
    leave_alone_ends_input(line);
    assert((seq![line] + more).first() == line);
    assert((seq![line] + more).drop_first() =~= more);
}

/// Whatever text follows `send` and a space, the lines after it are still read: what they submit
/// alone comes behind what this line submits.
pub proof fn lines_after_send_are_read(text: Seq<char>, more: Seq<Seq<char>>)
    ensures
        submitted(seq!["send "@ + text] + more) == submitted(seq!["send "@ + text]) + submitted(
            more,
        ),
{
    let line = "send "@ + text;
    send_never_ends_input(text);
    assert((seq![line] + more).first() == line);
    assert((seq![line] + more).drop_first() =~= more);
    assert(seq![line].drop_first() =~= seq![]);
    assert(submitted(seq![line].drop_first()) =~= seq![]);
    assert(submitted(seq![line] + more) =~= submitted(seq![line]) + submitted(more));
}

} // verus!
