//! The server's side of one connection: which events lead to which actions.
//!
//! A connection starts out joining. It is admitted with its first `Join`, if the username is free,
//! and then chats until the client leaves, joins again or disconnects. The user is struck out of
//! the register, and the others are told, when the forwarding of messages to the client has been
//! stopped.

use vstd::prelude::*;

use crate::message::{ClientMessage, ClientMessageView, ServerMessage, ServerMessageView};
use crate::text::{join2, join3};
use crate::users::Users;

verus! {

/// What the server has to react to on a connection.
#[derive(Debug, PartialEq, Eq)]
pub enum Event {
    /// The client sent a message.
    Message(ClientMessage),
    /// The client sent a line that is no message; the text says what is wrong with it.
    Malformed(String),
    /// The client's lines have come to an end, or can no longer be read.
    Disconnected,
    /// The forwarding that [`Action::StopForwarding`] asked to stop has been stopped.
    ForwardingStopped,
}

/// What the server does about an event.
#[derive(Debug, PartialEq, Eq)]
pub enum Action {
    /// Send the message to the client of this connection alone; whether it arrives is no matter.
    Reply(ServerMessage),
    /// Hand the message to all connections.
    Broadcast(ServerMessage),
    /// Forward to this client, who is known by this username, what has been handed to all
    /// connections since this connection was opened, and go on with what will be.
    StartForwarding(String),
    /// Forward no more to this client.
    StopForwarding,
    /// Print a line for the operator.
    Report(String),
    /// Print a line about something that went wrong for the operator.
    Warn(String),
}

/// How far a connection has come.
#[derive(Debug, PartialEq, Eq)]
pub enum Phase {
    /// The client has no username yet.
    Joining,
    /// The client is in the chat.
    Chatting { username: String },
    /// The client has left the chat, but its username is still taken.
    Leaving { username: String },
    /// The connection is done with.
    Closed,
}

/// What an [`Event`] says.
pub enum EventView {
    Message(ClientMessageView),
    Malformed(Seq<char>),
    Disconnected,
    ForwardingStopped,
}

/// What an [`Action`] says.
pub enum ActionView {
    Reply(ServerMessageView),
    Broadcast(ServerMessageView),
    StartForwarding(Seq<char>),
    StopForwarding,
    Report(Seq<char>),
    Warn(Seq<char>),
}

/// What a [`Phase`] says.
pub enum PhaseView {
    Joining,
    Chatting { username: Seq<char> },
    Leaving { username: Seq<char> },
    Closed,
}

impl View for Event {
    type V = EventView;

    open spec fn view(&self) -> EventView {
        match self {
            Event::Message(message) => EventView::Message(message@),
            Event::Malformed(error) => EventView::Malformed(error@),
            Event::Disconnected => EventView::Disconnected,
            Event::ForwardingStopped => EventView::ForwardingStopped,
        }
    }
}

impl View for Action {
    type V = ActionView;

    open spec fn view(&self) -> ActionView {
        match self {
            Action::Reply(message) => ActionView::Reply(message@),
            Action::Broadcast(message) => ActionView::Broadcast(message@),
            Action::StartForwarding(username) => ActionView::StartForwarding(username@),
            Action::StopForwarding => ActionView::StopForwarding,
            Action::Report(text) => ActionView::Report(text@),
            Action::Warn(text) => ActionView::Warn(text@),
        }
    }
}

impl View for Phase {
    type V = PhaseView;

    open spec fn view(&self) -> PhaseView {
        match self {
            Phase::Joining => PhaseView::Joining,
            Phase::Chatting { username } => PhaseView::Chatting { username: username@ },
            Phase::Leaving { username } => PhaseView::Leaving { username: username@ },
            Phase::Closed => PhaseView::Closed,
        }
    }
}

/// What `actions` say, one by one.
pub open spec fn actions_view(actions: Seq<Action>) -> Seq<ActionView> {
    actions.map_values(|action: Action| action@)
}

/// The announcement that a user joined.
pub open spec fn joined(username: Seq<char>) -> ServerMessageView {
    ServerMessageView::Info { text: username + " joined the chat"@ }
}

/// The announcement that a user left.
pub open spec fn left(username: Seq<char>) -> ServerMessageView {
    ServerMessageView::Info { text: username + " left the chat"@ }
}

/// The answer to a client that asks for a username which is taken.
pub open spec fn username_taken() -> ServerMessageView {
    ServerMessageView::Error { text: "Username already taken"@ }
}

/// The answer to a client that sends something else before it has joined.
pub open spec fn join_first() -> ServerMessageView {
    ServerMessageView::Error { text: "Send Join message first"@ }
}

/// What comes of an event: the phase of the connection and the register after it, and what is to
/// be done, in this order.
pub struct Outcome<A> {
    pub phase: PhaseView,
    pub users: Map<Seq<char>, A>,
    pub actions: Seq<ActionView>,
}

/// What comes of an event on a connection that has not joined.
pub open spec fn joining_outcome<A>(
    address: A,
    users: Map<Seq<char>, A>,
    event: EventView,
) -> Outcome<A> {
    match event {
        EventView::Message(ClientMessageView::Join { username }) => if users.contains_key(
            username,
        ) {
            Outcome {
                phase: PhaseView::Closed,
                users,
                actions: seq![ActionView::Reply(username_taken())],
            }
        } else {
            Outcome {
                phase: PhaseView::Chatting { username },
                users: users.insert(username, address),
                actions: seq![
                    ActionView::Broadcast(joined(username)),
                    ActionView::StartForwarding(username),
                ],
            }
        },
        EventView::Message(_) | EventView::Malformed(_) => Outcome {
            phase: PhaseView::Joining,
            users,
            actions: seq![ActionView::Reply(join_first())],
        },
        EventView::Disconnected => Outcome { phase: PhaseView::Closed, users, actions: seq![] },
        EventView::ForwardingStopped => Outcome {
            phase: PhaseView::Joining,
            users,
            actions: seq![],
        },
    }
}

/// What comes of an event on a connection whose client chats as `username`.
pub open spec fn chatting_outcome<A>(
    username: Seq<char>,
    users: Map<Seq<char>, A>,
    event: EventView,
) -> Outcome<A> {
    match event {
        EventView::Message(ClientMessageView::Send { text }) => Outcome {
            phase: PhaseView::Chatting { username },
            users,
            actions: seq![
                ActionView::Broadcast(ServerMessageView::Chat { from: username, text }),
            ],
        },
        EventView::Message(_) | EventView::Disconnected => Outcome {
            phase: PhaseView::Leaving { username },
            users,
            actions: seq![ActionView::StopForwarding],
        },
        EventView::Malformed(error) => Outcome {
            phase: PhaseView::Chatting { username },
            users,
            actions: seq![ActionView::Warn("Parse error from "@ + username + ": "@ + error)],
        },
        EventView::ForwardingStopped => Outcome {
            phase: PhaseView::Chatting { username },
            users,
            actions: seq![],
        },
    }
}

/// What comes of an event on a connection whose client, `username`, has left the chat.
pub open spec fn leaving_outcome<A>(
    username: Seq<char>,
    users: Map<Seq<char>, A>,
    event: EventView,
) -> Outcome<A> {
    match event {
        EventView::ForwardingStopped => Outcome {
            phase: PhaseView::Closed,
            users: users.remove(username),
            actions: seq![
                ActionView::Broadcast(left(username)),
                ActionView::Report(username + " disconnected"@),
            ],
        },
        _ => Outcome { phase: PhaseView::Leaving { username }, users, actions: seq![] },
    }
}

/// What comes of an event on a connection.
pub open spec fn outcome<A>(
    session: SessionView<A>,
    users: Map<Seq<char>, A>,
    event: EventView,
) -> Outcome<A> {
    match session.phase {
        PhaseView::Joining => joining_outcome(session.address, users, event),
        PhaseView::Chatting { username } => chatting_outcome(username, users, event),
        PhaseView::Leaving { username } => leaving_outcome(username, users, event),
        PhaseView::Closed => Outcome { phase: PhaseView::Closed, users, actions: seq![] },
    }
}

/// The server's side of one connection.
#[derive(Debug)]
pub struct Session<A> {
    address: A,
    phase: Phase,
}

/// What a [`Session`] says.
pub struct SessionView<A> {
    pub address: A,
    pub phase: PhaseView,
}

impl<A> View for Session<A> {
    type V = SessionView<A>;

    closed spec fn view(&self) -> SessionView<A> {
        SessionView { address: self.address, phase: self.phase@ }
    }
}

impl<A: Copy> Session<A> {
    /// A connection that a client has just opened from `address`.
    pub fn new(address: A) -> (session: Self)
        ensures
            session@ == (SessionView { address, phase: PhaseView::Joining }),
    {
        Session { address, phase: Phase::Joining }
    }

    /// How far the connection has come.
    pub fn phase(&self) -> (phase: &Phase)
        ensures
            phase@ == self@.phase,
    {
        &self.phase
    }

    /// Reacts to an event: moves the connection on, keeps the register, and says what to do.
    pub fn handle(&mut self, users: &mut Users<A>, event: Event) -> (actions: Vec<Action>)
        ensures
            ({
                let due = outcome(old(self)@, old(users)@, event@);
                &&& final(self)@ == (SessionView { phase: due.phase, ..old(self)@ })
                &&& final(users)@ == due.users
                &&& actions_view(actions@) == due.actions
            }),
    {
        let ghost seen = event@;
        let mut actions: Vec<Action> = Vec::new();
        match &self.phase {
            Phase::Joining => match event {
                Event::Message(ClientMessage::Join { username }) => {
                    if users.enter(username.clone(), self.address) {
                        actions.push(Action::Broadcast(ServerMessage::Info {
                            text: join2(username.as_str(), " joined the chat"),
                        }));
                        actions.push(Action::StartForwarding(username.clone()));
                        self.phase = Phase::Chatting { username };
                    } else {
                        actions.push(Action::Reply(ServerMessage::Error {
                            text: "Username already taken".to_owned(),
                        }));
                        self.phase = Phase::Closed;
                    }
                },
                Event::Message(_) | Event::Malformed(_) => {
                    actions.push(Action::Reply(ServerMessage::Error {
                        text: "Send Join message first".to_owned(),
                    }));
                },
                Event::Disconnected => {
                    self.phase = Phase::Closed;
                },
                Event::ForwardingStopped => {},
            },
            Phase::Chatting { username } => match event {
                Event::Message(ClientMessage::Send { text }) => {
                    actions.push(Action::Broadcast(ServerMessage::Chat {
                        from: username.clone(),
                        text,
                    }));
                },
                Event::Message(_) | Event::Disconnected => {
                    actions.push(Action::StopForwarding);
                    self.phase = Phase::Leaving { username: username.clone() };
                },
                Event::Malformed(error) => {
                    let who = join3("Parse error from ", username.as_str(), ": ");
                    actions.push(Action::Warn(join2(who.as_str(), error.as_str())));
                },
                Event::ForwardingStopped => {},
            },
            Phase::Leaving { username } => match event {
                Event::ForwardingStopped => {
                    users.remove(username.as_str());
                    actions.push(Action::Broadcast(ServerMessage::Info {
                        text: join2(username.as_str(), " left the chat"),
                    }));
                    actions.push(Action::Report(join2(username.as_str(), " disconnected")));
                    self.phase = Phase::Closed;
                },
                _ => {},
            },
            Phase::Closed => {},
        }
        assert(actions_view(actions@) =~= outcome(old(self)@, old(users)@, seen).actions);
        actions
    }
}

/// What a connection hands to all connections when it does `actions`.
pub open spec fn broadcasts(actions: Seq<ActionView>) -> Seq<ServerMessageView>
    decreases actions.len(),
{
    if actions.len() == 0 {
        seq![]
    } else {
        match actions.last() {
            ActionView::Broadcast(message) => broadcasts(actions.drop_last()).push(message),
            _ => broadcasts(actions.drop_last()),
        }
    }
}

/// What comes of a series of events on a connection. Other connections use the register too, so
/// each event comes with the register as it is then.
pub open spec fn history<A>(
    session: SessionView<A>,
    events: Seq<(Map<Seq<char>, A>, EventView)>,
) -> (PhaseView, Seq<ActionView>)
    decreases events.len(),
{
    if events.len() == 0 {
        (session.phase, seq![])
    } else {
        let (phase, actions) = history(session, events.drop_last());
        let due = outcome(SessionView { phase, ..session }, events.last().0, events.last().1);
        (due.phase, actions + due.actions)
    }
}

/// Whether all `messages` are chat messages from `username`.
pub open spec fn all_chat_from(messages: Seq<ServerMessageView>, username: Seq<char>) -> bool {
    forall|i: int|
        0 <= i < messages.len() ==> (#[trigger] messages[i] matches ServerMessageView::Chat {
            from,
            ..
        } && from == username)
}

/// Whether `messages` say that `username` joined, and then what `username` said.
pub open spec fn tells_of_stay(messages: Seq<ServerMessageView>, username: Seq<char>) -> bool {
    &&& messages.len() > 0
    &&& messages.first() == joined(username)
    &&& all_chat_from(messages.drop_first(), username)
}

/// Whether `messages` can be all that a connection has broadcast when it is in `phase`.
pub open spec fn broadcast_so_far(phase: PhaseView, messages: Seq<ServerMessageView>) -> bool {
    match phase {
        PhaseView::Joining => messages.len() == 0,
        PhaseView::Chatting { username } | PhaseView::Leaving { username } => tells_of_stay(
            messages,
            username,
        ),
        PhaseView::Closed => messages.len() == 0 || exists|username: Seq<char>|
            messages.last() == left(username) && #[trigger] tells_of_stay(
                messages.drop_last(),
                username,
            ),
    }
}

proof fn lemma_broadcasts_add(a: Seq<ActionView>, b: Seq<ActionView>)
    ensures
        broadcasts(a + b) == broadcasts(a) + broadcasts(b),
    decreases b.len(),
{
    if b.len() == 0 {
        assert(a + b =~= a);
        assert(broadcasts(a) + broadcasts(b) =~= broadcasts(a));
    } else {
        assert((a + b).drop_last() =~= a + b.drop_last());
        lemma_broadcasts_add(a, b.drop_last());
        assert(broadcasts(a + b) =~= broadcasts(a) + broadcasts(b));
    }
}

/// Whatever happens on a connection, it broadcasts nothing before its user has joined; then that
/// the user joined, what the user says, under the user's own name, and last that the user left.
pub proof fn connection_speaks_in_order<A>(
    session: SessionView<A>,
    events: Seq<(Map<Seq<char>, A>, EventView)>,
)
    requires
        session.phase == PhaseView::Joining,
    ensures
        ({
            let (phase, actions) = history(session, events);
            broadcast_so_far(phase, broadcasts(actions))
        }),
    decreases events.len(),
{
    if events.len() > 0 {
        connection_speaks_in_order(session, events.drop_last());
        let (phase, actions) = history(session, events.drop_last());
        let due = outcome(SessionView { phase, ..session }, events.last().0, events.last().1);
        lemma_broadcasts_add(actions, due.actions);
        reveal_with_fuel(broadcasts, 3);
        let before = broadcasts(actions);
        let now = before + broadcasts(due.actions);
        if broadcasts(due.actions).len() == 0 {
            assert(now =~= before);
        } else {
            assert(broadcasts(due.actions).len() == 1);
            assert(now =~= before.push(broadcasts(due.actions)[0]));
            assert(now.drop_last() =~= before);
            match phase {
                PhaseView::Chatting { username } => {
                    assert(now.drop_first() =~= before.drop_first().push(now.last()));
                },
                PhaseView::Leaving { username } => {
                    assert(tells_of_stay(now.drop_last(), username));
                },
                _ => {},
            }
        }
    }
}

/// Whether a connection that has not joined goes on waiting for a `Join` after this event.
pub open spec fn keeps_waiting(event: EventView) -> bool {
    match event {
        EventView::Message(message) => !(message is Join),
        EventView::Malformed(_) | EventView::ForwardingStopped => true,
        EventView::Disconnected => false,
    }
}

/// Whether this event ends the stay of a user who is in the chat.
pub open spec fn ends_stay(event: EventView) -> bool {
    match event {
        EventView::Message(message) => !(message is Send),
        EventView::Disconnected => true,
        EventView::Malformed(_) | EventView::ForwardingStopped => false,
    }
}

/// A chat message from `username` for each text that is sent in `events`.
pub open spec fn chats<A>(
    username: Seq<char>,
    events: Seq<(Map<Seq<char>, A>, EventView)>,
) -> Seq<ServerMessageView>
    decreases events.len(),
{
    if events.len() == 0 {
        seq![]
    } else {
        match events.last().1 {
            EventView::Message(ClientMessageView::Send { text }) => chats(
                username,
                events.drop_last(),
            ).push(ServerMessageView::Chat { from: username, text }),
            _ => chats(username, events.drop_last()),
        }
    }
}

/// One more event adds what comes of it.
pub(crate) proof fn lemma_history_push<A>(
    session: SessionView<A>,
    events: Seq<(Map<Seq<char>, A>, EventView)>,
    event: (Map<Seq<char>, A>, EventView),
)
    ensures
        ({
            let (phase, actions) = history(session, events);
            let due = outcome(SessionView { phase, ..session }, event.0, event.1);
            let (now, all) = history(session, events.push(event));
            &&& now == due.phase
            &&& broadcasts(all) == broadcasts(actions) + broadcasts(due.actions)
        }),
{
    let (phase, actions) = history(session, events);
    let due = outcome(SessionView { phase, ..session }, event.0, event.1);
    assert(events.push(event).drop_last() =~= events);
    assert(history(session, events.push(event)) == (due.phase, actions + due.actions));
    lemma_broadcasts_add(actions, due.actions);
}

proof fn lemma_waiting<A>(
    session: SessionView<A>,
    events: Seq<(Map<Seq<char>, A>, EventView)>,
)
    requires
        session.phase == PhaseView::Joining,
        forall|i: int| 0 <= i < events.len() ==> keeps_waiting((#[trigger] events[i]).1),
    ensures
        history(session, events).0 == PhaseView::Joining,
        broadcasts(history(session, events).1).len() == 0,
    decreases events.len(),
{
    if events.len() > 0 {
        lemma_waiting(session, events.drop_last());
        lemma_history_push(session, events.drop_last(), events.last());
        assert(events =~= events.drop_last().push(events.last()));
        assert(keeps_waiting(events[events.len() - 1].1));
        reveal_with_fuel(broadcasts, 2);
    }
}

proof fn lemma_stay<A>(
    session: SessionView<A>,
    before: Seq<(Map<Seq<char>, A>, EventView)>,
    users: Map<Seq<char>, A>,
    username: Seq<char>,
    stay: Seq<(Map<Seq<char>, A>, EventView)>,
)
    requires
        session.phase == PhaseView::Joining,
        forall|i: int| 0 <= i < before.len() ==> keeps_waiting((#[trigger] before[i]).1),
        !users.contains_key(username),
        forall|i: int| 0 <= i < stay.len() ==> !ends_stay((#[trigger] stay[i]).1),
    ensures
        ({
            let join = EventView::Message(ClientMessageView::Join { username });
            let (phase, actions) = history(session, before.push((users, join)) + stay);
            &&& phase == (PhaseView::Chatting { username })
            &&& broadcasts(actions) == seq![joined(username)] + chats(username, stay)
        }),
    decreases stay.len(),
{
    let join = EventView::Message(ClientMessageView::Join { username });
    let admitted = before.push((users, join));
    reveal_with_fuel(broadcasts, 3);
    if stay.len() == 0 {
        lemma_waiting(session, before);
        lemma_history_push(session, before, (users, join));
        assert(admitted + stay =~= admitted);
        let due = joining_outcome(session.address, users, join);
        assert(due.actions.drop_last() =~= seq![ActionView::Broadcast(joined(username))]);
        assert(broadcasts(due.actions) =~= seq![joined(username)]);
        assert(broadcasts(history(session, admitted).1) =~= seq![joined(username)] + chats(
            username,
            stay,
        ));
    } else {
        lemma_stay(session, before, users, username, stay.drop_last());
        lemma_history_push(session, admitted + stay.drop_last(), stay.last());
        assert((admitted + stay.drop_last()).push(stay.last()) =~= admitted + stay);
        assert(!ends_stay(stay[stay.len() - 1].1));
        assert(broadcasts(history(session, admitted + stay).1) =~= seq![joined(username)] + chats(
            username,
            stay,
        ));
    }
}

/// A whole stay, whatever the client sends: after anything but a `Join` or the end of its lines,
/// the client joins under a username that is free; then come messages and lines that are none;
/// then it leaves, joins again or disconnects. What is broadcast is that the user joined, each
/// text that the user sends, in order and under the user's name, and last that the user left.
pub proof fn whole_stay_is_broadcast<A>(
    session: SessionView<A>,
    before: Seq<(Map<Seq<char>, A>, EventView)>,
    users: Map<Seq<char>, A>,
    username: Seq<char>,
    stay: Seq<(Map<Seq<char>, A>, EventView)>,
    ending: (Map<Seq<char>, A>, EventView),
    users_then: Map<Seq<char>, A>,
)
    requires
        session.phase == PhaseView::Joining,
        forall|i: int| 0 <= i < before.len() ==> keeps_waiting((#[trigger] before[i]).1),
        !users.contains_key(username),
        forall|i: int| 0 <= i < stay.len() ==> !ends_stay((#[trigger] stay[i]).1),
        ends_stay(ending.1),
    ensures
        ({
            let join = EventView::Message(ClientMessageView::Join { username });
            let stayed = before.push((users, join)) + stay;
            let heard = seq![joined(username)] + chats(username, stay);
            let (phase, actions) = history(session, stayed);
            &&& phase == (PhaseView::Chatting { username })
            &&& broadcasts(actions) == heard
            &&& ({
                let (phase, actions) = history(session, stayed.push(ending));
                &&& phase == (PhaseView::Leaving { username })
                &&& broadcasts(actions) == heard
            })
            &&& ({
                let (phase, actions) = history(
                    session,
                    stayed.push(ending).push((users_then, EventView::ForwardingStopped)),
                );
                &&& phase == PhaseView::Closed
                &&& broadcasts(actions) == heard.push(left(username))
            })
        }),
{
    let join = EventView::Message(ClientMessageView::Join { username });
    let stayed = before.push((users, join)) + stay;
    let heard = seq![joined(username)] + chats(username, stay);
    lemma_stay(session, before, users, username, stay);
    reveal_with_fuel(broadcasts, 3);
    lemma_history_push(session, stayed, ending);
    assert(broadcasts(history(session, stayed.push(ending)).1) =~= heard);
    let stopped = (users_then, EventView::ForwardingStopped);
    lemma_history_push(session, stayed.push(ending), stopped);
    let due = leaving_outcome(username, users_then, EventView::ForwardingStopped);
    assert(due.actions.drop_last() =~= seq![ActionView::Broadcast(left(username))]);
    assert(broadcasts(due.actions) =~= seq![left(username)]);
    assert(broadcasts(history(session, stayed.push(ending).push(stopped)).1) =~= heard.push(
        left(username),
    ));
}

/// A client that disconnects without having joined, or asks for a username which is taken, is
/// never heard of.
pub proof fn nothing_is_broadcast_without_joining<A>(
    session: SessionView<A>,
    before: Seq<(Map<Seq<char>, A>, EventView)>,
    users: Map<Seq<char>, A>,
    event: EventView,
)
    requires
        session.phase == PhaseView::Joining,
        forall|i: int| 0 <= i < before.len() ==> keeps_waiting((#[trigger] before[i]).1),
        event == EventView::Disconnected || (event matches EventView::Message(
            ClientMessageView::Join { username },
        ) && users.contains_key(username)),
    ensures
        ({
            let (phase, actions) = history(session, before.push((users, event)));
            &&& phase == PhaseView::Closed
            &&& broadcasts(actions).len() == 0
        }),
{
    lemma_waiting(session, before);
    lemma_history_push(session, before, (users, event));
    reveal_with_fuel(broadcasts, 2);
}

/// Before it has joined, nothing but a `Join` gets a client into the register or heard by others;
/// as long as the client is there, it is told to join first.
pub proof fn join_must_come_first<A>(
    session: SessionView<A>,
    users: Map<Seq<char>, A>,
    event: EventView,
)
    requires
        session.phase == PhaseView::Joining,
        !(event matches EventView::Message(message) && message is Join),
    ensures
        outcome(session, users, event).users == users,
        broadcasts(outcome(session, users, event).actions).len() == 0,
        event is Message || event is Malformed ==> {
            &&& outcome(session, users, event).phase == PhaseView::Joining
            &&& outcome(session, users, event).actions == seq![ActionView::Reply(join_first())]
        },
{
    reveal_with_fuel(broadcasts, 2);
}

/// A connection that is closed stays closed, and does nothing more.
pub proof fn closed_is_final<A>(
    session: SessionView<A>,
    users: Map<Seq<char>, A>,
    event: EventView,
)
    requires
        session.phase == PhaseView::Closed,
    ensures
        outcome(session, users, event) == (Outcome {
            phase: PhaseView::Closed,
            users,
            actions: seq![],
        }),
{
}

/// A client that joins under a username which is free is in the chat under it, and in the register
/// with its address; what is broadcast is an `Info` that says, of this username, that it joined
/// the chat, and then the forwarding to this username is started.
pub proof fn joining_is_announced<A>(
    session: SessionView<A>,
    users: Map<Seq<char>, A>,
    username: Seq<char>,
)
    requires
        session.phase == PhaseView::Joining,
        !users.contains_key(username),
    ensures
        outcome(session, users, EventView::Message(ClientMessageView::Join { username })) == (
        Outcome {
            phase: PhaseView::Chatting { username },
            users: users.insert(username, session.address),
            actions: seq![
                ActionView::Broadcast(
                    ServerMessageView::Info { text: username + " joined the chat"@ },
                ),
                ActionView::StartForwarding(username),
            ],
        }),
{
}

/// A client that joins under a username which is taken is answered an `Error` that says so, and
/// its connection is closed; nothing else comes of it.
pub proof fn taken_username_is_answered<A>(
    session: SessionView<A>,
    users: Map<Seq<char>, A>,
    username: Seq<char>,
)
    requires
        session.phase == PhaseView::Joining,
        users.contains_key(username),
    ensures
        outcome(session, users, EventView::Message(ClientMessageView::Join { username })) == (
        Outcome {
            phase: PhaseView::Closed,
            users,
            actions: seq![
                ActionView::Reply(ServerMessageView::Error { text: "Username already taken"@ }),
            ],
        }),
{
}

/// A client that has not joined, and sends a text, leaves or sends a line that is no message, is
/// answered an `Error` that tells it to join first; nothing else comes of it.
pub proof fn early_message_is_answered<A>(
    session: SessionView<A>,
    users: Map<Seq<char>, A>,
    text: Seq<char>,
    error: Seq<char>,
)
    requires
        session.phase == PhaseView::Joining,
    ensures
        ({
            let answered = Outcome {
                phase: PhaseView::Joining,
                users,
                actions: seq![
                    ActionView::Reply(
                        ServerMessageView::Error { text: "Send Join message first"@ },
                    ),
                ],
            };
            &&& outcome(session, users, EventView::Message(ClientMessageView::Send { text }))
                == answered
            &&& outcome(session, users, EventView::Message(ClientMessageView::Leave)) == answered
            &&& outcome(session, users, EventView::Malformed(error)) == answered
        }),
{
}

/// A client that has not joined and disconnects is done with; nothing else comes of it.
pub proof fn early_disconnect_closes<A>(session: SessionView<A>, users: Map<Seq<char>, A>)
    requires
        session.phase == PhaseView::Joining,
    ensures
        outcome(session, users, EventView::Disconnected) == (Outcome {
            phase: PhaseView::Closed,
            users,
            actions: seq![],
        }),
{
}

/// A text that a user sends is broadcast as it is, in a `Chat` from this user; nothing else comes
/// of it.
pub proof fn sent_text_is_broadcast<A>(
    session: SessionView<A>,
    users: Map<Seq<char>, A>,
    username: Seq<char>,
    text: Seq<char>,
)
    requires
        session.phase == (PhaseView::Chatting { username }),
    ensures
        outcome(session, users, EventView::Message(ClientMessageView::Send { text })) == (Outcome {
            phase: PhaseView::Chatting { username },
            users,
            actions: seq![
                ActionView::Broadcast(ServerMessageView::Chat { from: username, text }),
            ],
        }),
{
}

/// A line of a user that is no message is only reported to the operator, with the username and
/// what is wrong with the line; the user stays in the chat.
pub proof fn malformed_line_is_reported<A>(
    session: SessionView<A>,
    users: Map<Seq<char>, A>,
    username: Seq<char>,
    error: Seq<char>,
)
    requires
        session.phase == (PhaseView::Chatting { username }),
    ensures
        outcome(session, users, EventView::Malformed(error)) == (Outcome {
            phase: PhaseView::Chatting { username },
            users,
            actions: seq![ActionView::Warn("Parse error from "@ + username + ": "@ + error)],
        }),
{
}

/// A user who leaves, joins again under any username, or disconnects is forwarded no more, and
/// keeps the username until the forwarding has been stopped.
pub proof fn leaving_stops_forwarding<A>(
    session: SessionView<A>,
    users: Map<Seq<char>, A>,
    username: Seq<char>,
    another: Seq<char>,
)
    requires
        session.phase == (PhaseView::Chatting { username }),
    ensures
        ({
            let stopping = Outcome {
                phase: PhaseView::Leaving { username },
                users,
                actions: seq![ActionView::StopForwarding],
            };
            &&& outcome(session, users, EventView::Message(ClientMessageView::Leave)) == stopping
            &&& outcome(
                session,
                users,
                EventView::Message(ClientMessageView::Join { username: another }),
            ) == stopping
            &&& outcome(session, users, EventView::Disconnected) == stopping
        }),
{
}

/// When the forwarding to a user who left has been stopped, the user is struck out of the
/// register; what is broadcast is an `Info` that says, of this username, that it left the chat;
/// and the operator is told. Nothing else concerns such a connection any more.
pub proof fn leaving_is_announced<A>(
    session: SessionView<A>,
    users: Map<Seq<char>, A>,
    username: Seq<char>,
    event: EventView,
)
    requires
        session.phase == (PhaseView::Leaving { username }),
    ensures
        outcome(session, users, EventView::ForwardingStopped) == (Outcome {
            phase: PhaseView::Closed,
            users: users.remove(username),
            actions: seq![
                ActionView::Broadcast(
                    ServerMessageView::Info { text: username + " left the chat"@ },
                ),
                ActionView::Report(username + " disconnected"@),
            ],
        }),
        event != EventView::ForwardingStopped ==> outcome(session, users, event) == (Outcome {
            phase: PhaseView::Leaving { username },
            users,
            actions: seq![],
        }),
{
}

/// That a forwarding has been stopped makes no difference to a connection that did not ask for it.
pub proof fn unasked_stop_changes_nothing<A>(session: SessionView<A>, users: Map<Seq<char>, A>)
    requires
        !(session.phase is Leaving),
    ensures
        outcome(session, users, EventView::ForwardingStopped) == (Outcome {
            phase: session.phase,
            users,
            actions: seq![],
        }),
{
}

/// The announcements are an `Info` with the username and what it did. The announcement that a
/// user joined is never taken for one that a user left, whoever the two are, and each kind tells
/// different users apart.
pub proof fn announcements_are_told_apart(a: Seq<char>, b: Seq<char>)
    ensures
        joined(a) == (ServerMessageView::Info { text: a + " joined the chat"@ }),
        left(a) == (ServerMessageView::Info { text: a + " left the chat"@ }),
        joined(a) != left(b),
        joined(a) == joined(b) ==> a == b,
        left(a) == left(b) ==> a == b,
{
    reveal_strlit(" joined the chat");
    reveal_strlit(" left the chat");
    let come_a = a + " joined the chat"@;
    let come_b = b + " joined the chat"@;
    let gone_a = a + " left the chat"@;
    let gone_b = b + " left the chat"@;
    assert(come_a[come_a.len() - 10] == 'd');
    assert(gone_b[gone_b.len() - 10] == 't');
    assert(a =~= come_a.take(come_a.len() - 16));
    assert(b =~= come_b.take(come_b.len() - 16));
    assert(a =~= gone_a.take(gone_a.len() - 14));
    assert(b =~= gone_b.take(gone_b.len() - 14));
}

/// The refusals are an `Error` with a fixed text, and differ from each other.
pub proof fn refusals_are_told_apart()
    ensures
        username_taken() == (ServerMessageView::Error { text: "Username already taken"@ }),
        join_first() == (ServerMessageView::Error { text: "Send Join message first"@ }),
        username_taken() != join_first(),
{
    reveal_strlit("Username already taken");
    reveal_strlit("Send Join message first");
    assert("Username already taken"@[0] != "Send Join message first"@[0]);
}

/// Events, actions and phases say what their fields say, and actions say it one by one.
pub proof fn session_values_say_their_fields(
    request: ClientMessage,
    answer: ServerMessage,
    text: String,
    actions: Seq<Action>,
    i: int,
)
    ensures
        Event::Message(request)@ == EventView::Message(request@),
        Event::Malformed(text)@ == EventView::Malformed(text@),
        Event::Disconnected@ == EventView::Disconnected,
        Event::ForwardingStopped@ == EventView::ForwardingStopped,
        Action::Reply(answer)@ == ActionView::Reply(answer@),
        Action::Broadcast(answer)@ == ActionView::Broadcast(answer@),
        Action::StartForwarding(text)@ == ActionView::StartForwarding(text@),
        Action::StopForwarding@ == ActionView::StopForwarding,
        Action::Report(text)@ == ActionView::Report(text@),
        Action::Warn(text)@ == ActionView::Warn(text@),
        Phase::Joining@ == PhaseView::Joining,
        (Phase::Chatting { username: text })@ == (PhaseView::Chatting { username: text@ }),
        (Phase::Leaving { username: text })@ == (PhaseView::Leaving { username: text@ }),
        Phase::Closed@ == PhaseView::Closed,
        actions_view(actions).len() == actions.len(),
        0 <= i < actions.len() ==> actions_view(actions)[i] == actions[i]@,
{
}

} // verus!
