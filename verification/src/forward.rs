//! Forwarding what is broadcast to one client.

use vstd::prelude::*;

use crate::message::{ServerMessage, ServerMessageView};
use crate::text::{decimal, join2, join3, to_decimal};

verus! {

/// How many messages are kept for a client that is slow to take them; older ones are dropped.
pub const BROADCAST_CAPACITY: usize = 256;

/// What the forwarding to a client has to react to.
#[derive(Debug, PartialEq, Eq)]
pub enum ForwardEvent {
    /// A message was broadcast.
    Received(ServerMessage),
    /// So many messages were dropped, because the client was too slow.
    Lagged(u64),
    /// Nothing will be broadcast any more.
    ChannelClosed,
    /// A message could not be sent to the client.
    SendFailed,
}

/// What the forwarding does about an event.
#[derive(Debug, PartialEq, Eq)]
pub enum ForwardAction {
    /// Send the message to the client.
    Send(ServerMessage),
    /// Go on with the next message.
    Skip,
    /// Print a line about something that went wrong for the operator, and go on.
    Warn(String),
    /// Forward no more.
    Stop,
}

/// What a [`ForwardEvent`] says.
pub enum ForwardEventView {
    Received(ServerMessageView),
    Lagged(nat),
    ChannelClosed,
    SendFailed,
}

/// What a [`ForwardAction`] says.
pub enum ForwardActionView {
    Send(ServerMessageView),
    Skip,
    Warn(Seq<char>),
    Stop,
}

impl View for ForwardEvent {
    type V = ForwardEventView;

    open spec fn view(&self) -> ForwardEventView {
        match self {
            ForwardEvent::Received(message) => ForwardEventView::Received(message@),
            ForwardEvent::Lagged(missed) => ForwardEventView::Lagged(*missed as nat),
            ForwardEvent::ChannelClosed => ForwardEventView::ChannelClosed,
            ForwardEvent::SendFailed => ForwardEventView::SendFailed,
        }
    }
}

impl View for ForwardAction {
    type V = ForwardActionView;

    open spec fn view(&self) -> ForwardActionView {
        match self {
            ForwardAction::Send(message) => ForwardActionView::Send(message@),
            ForwardAction::Skip => ForwardActionView::Skip,
            ForwardAction::Warn(text) => ForwardActionView::Warn(text@),
            ForwardAction::Stop => ForwardActionView::Stop,
        }
    }
}

/// Whether `message` is for the client known as `username`: all are but what it said itself.
pub open spec fn is_for(username: Seq<char>, message: ServerMessageView) -> bool {
    match message {
        ServerMessageView::Chat { from, .. } => from != username,
        _ => true,
    }
}

/// What the forwarding to `username` does about an event.
pub open spec fn forwarding(username: Seq<char>, event: ForwardEventView) -> ForwardActionView {
    match event {
        ForwardEventView::Received(message) => if is_for(username, message) {
            ForwardActionView::Send(message)
        } else {
            ForwardActionView::Skip
        },
        ForwardEventView::Lagged(missed) => ForwardActionView::Warn(
            "Client "@ + username + " lagged by "@ + decimal(missed) + " messages"@,
        ),
        ForwardEventView::ChannelClosed | ForwardEventView::SendFailed => ForwardActionView::Stop,
    }
}

/// Whether the forwarding stops at this event.
pub open spec fn stops(event: ForwardEventView) -> bool {
    event is ChannelClosed || event is SendFailed
}

/// The messages that are received in `events` before the forwarding stops.
pub open spec fn received(events: Seq<ForwardEventView>) -> Seq<ServerMessageView>
    decreases events.len(),
{
    if events.len() == 0 || stops(events.first()) {
        seq![]
    } else {
        match events.first() {
            ForwardEventView::Received(message) => seq![message] + received(events.drop_first()),
            _ => received(events.drop_first()),
        }
    }
}

/// What the forwarding to `username` sends in the course of `events`.
pub open spec fn forwarded(
    username: Seq<char>,
    events: Seq<ForwardEventView>,
) -> Seq<ServerMessageView>
    decreases events.len(),
{
    if events.len() == 0 {
        seq![]
    } else {
        match forwarding(username, events.first()) {
            ForwardActionView::Send(message) => seq![message] + forwarded(
                username,
                events.drop_first(),
            ),
            ForwardActionView::Stop => seq![],
            _ => forwarded(username, events.drop_first()),
        }
    }
}

/// All messages that are received before the forwarding stops are sent, in order, but what the
/// user said. Messages that are dropped because the client is too slow are not received.
pub proof fn all_received_is_forwarded(username: Seq<char>, events: Seq<ForwardEventView>)
    ensures
        forwarded(username, events) == received(events).filter(
            |message: ServerMessageView| is_for(username, message),
        ),
    decreases events.len(),
{
    let wanted = |message: ServerMessageView| is_for(username, message);
    if events.len() == 0 || stops(events.first()) {
        reveal(Seq::filter);
    } else {
        let rest = events.drop_first();
        all_received_is_forwarded(username, rest);
        if let ForwardEventView::Received(message) = events.first() {
            let one = seq![message];
            assert(one.filter(wanted) == if wanted(message) {
                one
            } else {
                seq![]
            }) by {
                reveal_with_fuel(Seq::filter, 2);
                assert(one.drop_last() =~= seq![]);
            }
            Seq::filter_distributes_over_add(one, received(rest), wanted);
            assert(forwarded(username, events) =~= one.filter(wanted) + received(rest).filter(
                wanted,
            ));
        }
    }
}

/// That the client lagged behind changes nothing about what else is sent.
pub proof fn lag_changes_nothing_else(
    username: Seq<char>,
    before: Seq<ForwardEventView>,
    missed: nat,
    after: Seq<ForwardEventView>,
)
    ensures
        forwarded(username, before.push(ForwardEventView::Lagged(missed)) + after) == forwarded(
            username,
            before + after,
        ),
    decreases before.len(),
{
    let with = before.push(ForwardEventView::Lagged(missed)) + after;
    let without = before + after;
    if before.len() == 0 {
        assert(with.drop_first() =~= after);
        assert(without =~= after);
    } else {
        assert(with.first() == without.first());
        assert(with.drop_first() =~= before.drop_first().push(ForwardEventView::Lagged(missed))
            + after);
        assert(without.drop_first() =~= before.drop_first() + after);
        lag_changes_nothing_else(username, before.drop_first(), missed, after);
    }
}

/// Nothing is sent once the forwarding has stopped.
pub proof fn nothing_is_forwarded_after_the_stop(
    username: Seq<char>,
    before: Seq<ForwardEventView>,
    last: ForwardEventView,
    after: Seq<ForwardEventView>,
)
    requires
        stops(last),
    ensures
        forwarded(username, before.push(last) + after) == forwarded(username, before),
    decreases before.len(),
{
    let whole = before.push(last) + after;
    if before.len() > 0 {
        assert(whole.first() == before.first());
        assert(whole.drop_first() =~= before.drop_first().push(last) + after);
        nothing_is_forwarded_after_the_stop(username, before.drop_first(), last, after);
    }
}

/// Tells whether `message` is for the client known as `username`.
fn concerns(username: &String, message: &ServerMessage) -> (concerned: bool)
    ensures
        concerned == is_for(username@, message@),
{
    match message {
        ServerMessage::Chat { from, .. } => *from != *username,
        _ => true,
    }
}

/// Says what the forwarding to the client known as `username` does about an event.
pub fn forward(username: &String, event: ForwardEvent) -> (action: ForwardAction)
    ensures
        action@ == forwarding(username@, event@),
{
    match event {
        ForwardEvent::Received(message) => if concerns(username, &message) {
            ForwardAction::Send(message)
        } else {
            ForwardAction::Skip
        },
        ForwardEvent::Lagged(missed) => {
            let who = join3("Client ", username.as_str(), " lagged by ");
            ForwardAction::Warn(
                join3(who.as_str(), to_decimal(missed).as_str(), " messages"),
            )
        },
        ForwardEvent::ChannelClosed | ForwardEvent::SendFailed => ForwardAction::Stop,
    }
}

/// A chat message is forwarded as it is to every user but the one who said it; an announcement or
/// an error is forwarded as it is to every user.
pub proof fn messages_are_forwarded_as_they_are(
    username: Seq<char>,
    from: Seq<char>,
    text: Seq<char>,
)
    ensures
        from != username ==> forwarding(
            username,
            ForwardEventView::Received(ServerMessageView::Chat { from, text }),
        ) == ForwardActionView::Send(ServerMessageView::Chat { from, text }),
        forwarding(
            username,
            ForwardEventView::Received(ServerMessageView::Chat { from: username, text }),
        ) == ForwardActionView::Skip,
        forwarding(username, ForwardEventView::Received(ServerMessageView::Info { text }))
            == ForwardActionView::Send(ServerMessageView::Info { text }),
        forwarding(username, ForwardEventView::Received(ServerMessageView::Error { text }))
            == ForwardActionView::Send(ServerMessageView::Error { text }),
{
}

/// That a client lagged behind is reported to the operator, with the username and the number of
/// messages in decimal, and does not stop the forwarding.
pub proof fn lag_is_reported(username: Seq<char>, missed: nat)
    ensures
        forwarding(username, ForwardEventView::Lagged(missed)) == ForwardActionView::Warn(
            "Client "@ + username + " lagged by "@ + decimal(missed) + " messages"@,
        ),
{
}

/// The forwarding stops when nothing more will come, or when the client cannot be reached, and
/// at no other event.
pub proof fn forwarding_stops_at_the_end(username: Seq<char>, event: ForwardEventView)
    ensures
        forwarding(username, event) == ForwardActionView::Stop <==> event
            == ForwardEventView::ChannelClosed || event == ForwardEventView::SendFailed,
{
}

/// So many messages are kept for a slow client.
pub proof fn broadcast_capacity_is_fixed()
    ensures
        BROADCAST_CAPACITY == 256,
{
}

/// What the forwarding reacts to and does says what its fields say.
pub proof fn forwarding_values_say_their_fields(message: ServerMessage, missed: u64, text: String)
    ensures
        ForwardEvent::Received(message)@ == ForwardEventView::Received(message@),
        ForwardEvent::Lagged(missed)@ == ForwardEventView::Lagged(missed as nat),
        ForwardEvent::ChannelClosed@ == ForwardEventView::ChannelClosed,
        ForwardEvent::SendFailed@ == ForwardEventView::SendFailed,
        ForwardAction::Send(message)@ == ForwardActionView::Send(message@),
        ForwardAction::Skip@ == ForwardActionView::Skip,
        ForwardAction::Warn(text)@ == ForwardActionView::Warn(text@),
        ForwardAction::Stop@ == ForwardActionView::Stop,
{
}

} // verus!
