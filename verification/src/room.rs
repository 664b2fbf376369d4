//! The chat as a whole: all connections and the register that they share.

use vstd::prelude::*;

use crate::forward::{
    all_received_is_forwarded, forwarded, forwarding, is_for, received, ForwardActionView,
    ForwardEventView,
};
use crate::message::{ClientMessageView, ServerMessageView};
use crate::session::{
    broadcasts, joined, left, outcome, username_taken, ActionView, EventView, Outcome, PhaseView,
    SessionView,
};

verus! {

/// All connections, each under a number of its own, and the register that they share. For each
/// connection, what it has yet to hand to all connections, and what has been handed to it since
/// it was opened.
pub ghost struct Room<A> {
    pub users: Map<Seq<char>, A>,
    pub sessions: Map<int, SessionView<A>>,
    pub pending: Map<int, Seq<ServerMessageView>>,
    pub heard: Map<int, Seq<ServerMessageView>>,
}

/// The username that a connection in `phase` occupies.
pub open spec fn occupied(phase: PhaseView) -> Option<Seq<char>> {
    match phase {
        PhaseView::Chatting { username } | PhaseView::Leaving { username } => Some(username),
        PhaseView::Joining | PhaseView::Closed => None,
    }
}

impl<A> Room<A> {
    /// The chat as the server starts it.
    pub open spec fn empty() -> Room<A> {
        Room {
            users: Map::empty(),
            sessions: Map::empty(),
            pending: Map::empty(),
            heard: Map::empty(),
        }
    }

    /// Whether connection `id` occupies `username`.
    pub open spec fn occupies(self, id: int, username: Seq<char>) -> bool {
        self.sessions.contains_key(id) && occupied(self.sessions[id].phase) == Some(username)
    }

    /// The register and the connections agree: a username is in the register exactly if a
    /// connection occupies it, only one connection does, and the register has the address that
    /// this connection came from. Of every connection it is known what it has yet to hand out and
    /// what it has heard.
    pub open spec fn consistent(self) -> bool {
        &&& forall|id: int, username: Seq<char>| #[trigger]
            self.occupies(id, username) ==> self.users.contains_key(username)
                && self.users[username] == self.sessions[id].address
        &&& forall|username: Seq<char>| #[trigger]
            self.users.contains_key(username) ==> exists|id: int| self.occupies(id, username)
        &&& forall|i: int, j: int, username: Seq<char>| #[trigger]
            self.occupies(i, username) && #[trigger] self.occupies(j, username) ==> i == j
        &&& self.pending.dom() == self.sessions.dom()
        &&& self.heard.dom() == self.sessions.dom()
    }

    /// What comes of an event on connection `id`.
    pub open spec fn outcome(self, id: int, event: EventView) -> Outcome<A> {
        outcome(self.sessions[id], self.users, event)
    }

    /// The chat after a client has connected from `address`.
    pub open spec fn connect(self, id: int, address: A) -> Room<A> {
        Room {
            sessions: self.sessions.insert(
                id,
                SessionView { address, phase: PhaseView::Joining },
            ),
            pending: self.pending.insert(id, seq![]),
            heard: self.heard.insert(id, seq![]),
            ..self
        }
    }

    /// The chat after an event on connection `id`. The register changes at once; what is to be
    /// broadcast is handed out later, and something may happen on other connections before.
    pub open spec fn after(self, id: int, event: EventView) -> Room<A> {
        let due = self.outcome(id, event);
        Room {
            users: due.users,
            sessions: self.sessions.insert(
                id,
                SessionView { phase: due.phase, ..self.sessions[id] },
            ),
            pending: self.pending.insert(id, self.pending[id] + broadcasts(due.actions)),
            ..self
        }
    }

    /// The chat after connection `id` has handed the next message that it has to broadcast to all
    /// connections.
    pub open spec fn hand_out(self, id: int) -> Room<A> {
        let message = self.pending[id].first();
        Room {
            pending: self.pending.insert(id, self.pending[id].drop_first()),
            heard: self.heard.map_values(
                |heard: Seq<ServerMessageView>| heard.push(message),
            ),
            ..self
        }
    }
}

/// The register and the connections agree when the server starts.
pub proof fn empty_room_is_consistent<A>()
    ensures
        Room::<A>::empty().consistent(),
{
}

/// The register and the connections still agree when a client has connected.
pub proof fn connecting_keeps_consistency<A>(room: Room<A>, id: int, address: A)
    requires
        room.consistent(),
        !room.sessions.contains_key(id),
    ensures
        room.connect(id, address).consistent(),
{
    let next = room.connect(id, address);
    assert forall|i: int, username: Seq<char>| #[trigger]
        next.occupies(i, username) == room.occupies(i, username) by {}
    assert forall|username: Seq<char>| #[trigger] next.users.contains_key(username) implies exists|
        i: int,
    | next.occupies(i, username) by {
        assert(room.users.contains_key(username));
        let i = choose|i: int| room.occupies(i, username);
        assert(next.occupies(i, username));
    }
    assert forall|i: int, j: int, username: Seq<char>| #[trigger]
        next.occupies(i, username) && #[trigger] next.occupies(j, username) implies i == j by {
        assert(room.occupies(i, username) && room.occupies(j, username));
    }
    assert(next.pending.dom() =~= next.sessions.dom());
    assert(next.heard.dom() =~= next.sessions.dom());
}

/// Whatever happens on a connection, the register and the connections still agree. So at no time
/// do two users go by the same username, and no username is blocked without a user.
pub proof fn events_keep_consistency<A>(room: Room<A>, id: int, event: EventView)
    requires
        room.consistent(),
        room.sessions.contains_key(id),
    ensures
        room.after(id, event).consistent(),
{
    let next = room.after(id, event);
    let before = occupied(room.sessions[id].phase);
    let now = occupied(next.sessions[id].phase);
    assert forall|i: int, username: Seq<char>| i != id implies #[trigger] next.occupies(
        i,
        username,
    ) == room.occupies(i, username) by {}
    if before is Some {
        assert(room.occupies(id, before->0));
    }
    assert forall|i: int, username: Seq<char>| #[trigger]
        next.occupies(i, username) implies next.users.contains_key(username)
        && next.users[username] == next.sessions[i].address by {
        if i != id {
            assert(room.occupies(i, username));
        } else {
            assert(now == Some(username));
            if before == now {
                assert(room.occupies(id, username));
            }
        }
    }
    assert forall|username: Seq<char>| #[trigger] next.users.contains_key(username) implies exists|
        i: int,
    | next.occupies(i, username) by {
        if room.users.contains_key(username) {
            let i = choose|i: int| room.occupies(i, username);
            if i != id {
                assert(next.occupies(i, username));
            } else {
                assert(before == Some(username));
                assert(next.occupies(id, username));
            }
        } else {
            assert(next.occupies(id, username));
        }
    }
    assert forall|i: int, j: int, username: Seq<char>| #[trigger]
        next.occupies(i, username) && #[trigger] next.occupies(j, username) implies i == j by {
        if i != id {
            assert(room.occupies(i, username));
        }
        if j != id {
            assert(room.occupies(j, username));
        }
        if before == now && now == Some(username) {
            assert(room.occupies(id, username));
        }
    }
    assert(next.pending.dom() =~= next.sessions.dom());
    assert(next.heard.dom() =~= next.sessions.dom());
}

/// The register and the connections still agree when a message has been handed out.
pub proof fn handing_out_keeps_consistency<A>(room: Room<A>, id: int)
    requires
        room.consistent(),
        room.sessions.contains_key(id),
    ensures
        room.hand_out(id).consistent(),
{
    let next = room.hand_out(id);
    assert forall|i: int, username: Seq<char>| #[trigger]
        next.occupies(i, username) == room.occupies(i, username) by {}
    assert forall|username: Seq<char>| #[trigger] next.users.contains_key(username) implies exists|
        i: int,
    | next.occupies(i, username) by {
        assert(room.users.contains_key(username));
        let i = choose|i: int| room.occupies(i, username);
        assert(next.occupies(i, username));
    }
    assert forall|i: int, j: int, username: Seq<char>| #[trigger]
        next.occupies(i, username) && #[trigger] next.occupies(j, username) implies i == j by {
        assert(room.occupies(i, username) && room.occupies(j, username));
    }
    assert(next.pending.dom() =~= next.sessions.dom());
    assert(next.heard.dom() =~= next.sessions.dom());
}

/// Something that happens in the chat.
pub ghost enum Step<A> {
    /// A client connects from `address`; its connection gets the number `id`.
    Connect { id: int, address: A },
    /// Something happens on connection `id`.
    Happen { id: int, event: EventView },
    /// Connection `id` hands the next message that it has to broadcast to all connections.
    HandOut { id: int },
}

/// The chat after `steps`, from the start of the server on. A number is given to one connection
/// only; nothing happens on a connection that is not there, or that still has something to hand
/// out; and a connection hands out what it has to broadcast. Any other step is none.
pub open spec fn room_after<A>(steps: Seq<Step<A>>) -> Room<A>
    decreases steps.len(),
{
    if steps.len() == 0 {
        Room::empty()
    } else {
        let room = room_after(steps.drop_last());
        match steps.last() {
            Step::Connect { id, address } => if room.sessions.contains_key(id) {
                room
            } else {
                room.connect(id, address)
            },
            Step::Happen { id, event } => if room.sessions.contains_key(id)
                && room.pending[id].len() == 0 {
                room.after(id, event)
            } else {
                room
            },
            Step::HandOut { id } => if room.sessions.contains_key(id) && room.pending[id].len()
                > 0 {
                room.hand_out(id)
            } else {
                room
            },
        }
    }
}

/// The register and the connections agree at all times, in whatever order clients connect and
/// whatever they do.
pub proof fn room_is_always_consistent<A>(steps: Seq<Step<A>>)
    ensures
        room_after(steps).consistent(),
    decreases steps.len(),
{
    if steps.len() == 0 {
        empty_room_is_consistent::<A>();
    } else {
        room_is_always_consistent(steps.drop_last());
        let room = room_after(steps.drop_last());
        match steps.last() {
            Step::Connect { id, address } => if !room.sessions.contains_key(id) {
                connecting_keeps_consistency(room, id, address);
            },
            Step::Happen { id, event } => if room.sessions.contains_key(id) {
                events_keep_consistency(room, id, event);
            },
            Step::HandOut { id } => if room.sessions.contains_key(id) {
                handing_out_keeps_consistency(room, id);
            },
        }
    }
}

/// All that is handed to all connections in `steps`, in order.
pub open spec fn broadcast_in<A>(steps: Seq<Step<A>>) -> Seq<ServerMessageView>
    decreases steps.len(),
{
    if steps.len() == 0 {
        seq![]
    } else {
        broadcast_in(steps.drop_last()) + handed_out_last(steps)
    }
}

/// What is handed to all connections in the last of `steps`.
pub open spec fn handed_out_last<A>(steps: Seq<Step<A>>) -> Seq<ServerMessageView> {
    let room = room_after(steps.drop_last());
    match steps.last() {
        Step::HandOut { id } => if room.sessions.contains_key(id) && room.pending[id].len() > 0 {
            seq![room.pending[id].first()]
        } else {
            seq![]
        },
        _ => seq![],
    }
}

/// All that connection `id` hands to all connections in `steps`, in order.
pub open spec fn handed_out_by<A>(steps: Seq<Step<A>>, id: int) -> Seq<ServerMessageView>
    decreases steps.len(),
{
    if steps.len() == 0 {
        seq![]
    } else if steps.last() == (Step::<A>::HandOut { id }) {
        handed_out_by(steps.drop_last(), id) + handed_out_last(steps)
    } else {
        handed_out_by(steps.drop_last(), id)
    }
}

/// All that connection `id` is to broadcast for what happens on it in `steps`, in order.
pub open spec fn owed_by<A>(steps: Seq<Step<A>>, id: int) -> Seq<ServerMessageView>
    decreases steps.len(),
{
    if steps.len() == 0 {
        seq![]
    } else {
        let room = room_after(steps.drop_last());
        let before = owed_by(steps.drop_last(), id);
        match steps.last() {
            Step::Happen { id: there, event } => if there == id && room.sessions.contains_key(id)
                && room.pending[id].len() == 0 {
                before + broadcasts(room.outcome(id, event).actions)
            } else {
                before
            },
            _ => before,
        }
    }
}

/// What a connection is to broadcast is handed out once and in order: it is what has been handed
/// out, followed by what is yet to be.
pub proof fn all_owed_is_handed_out<A>(steps: Seq<Step<A>>, id: int)
    ensures
        owed_by(steps, id) == handed_out_by(steps, id) + (if room_after(
            steps,
        ).sessions.contains_key(id) {
            room_after(steps).pending[id]
        } else {
            seq![]
        }),
    decreases steps.len(),
{
    if steps.len() > 0 {
        let before = steps.drop_last();
        let room = room_after(before);
        let now = room_after(steps);
        all_owed_is_handed_out(before, id);
        room_is_always_consistent(before);
        room_is_always_consistent(steps);
        let rest = if now.sessions.contains_key(id) {
            now.pending[id]
        } else {
            seq![]
        };
        assert(owed_by(steps, id) =~= handed_out_by(steps, id) + rest);
    } else {
        assert(owed_by(steps, id) =~= handed_out_by(steps, id) + seq![]);
    }
}

/// A connection hears all that any connection hands out after it was opened, in order, and
/// nothing from before.
pub proof fn all_is_heard_since_connecting<A>(steps: Seq<Step<A>>, k: int, id: int)
    requires
        0 <= k < steps.len(),
        steps[k] matches Step::Connect { id: opened, .. } && opened == id,
        !room_after(steps.take(k)).sessions.contains_key(id),
    ensures
        room_after(steps).sessions.contains_key(id),
        broadcast_in(steps) == broadcast_in(steps.take(k)) + room_after(steps).heard[id],
    decreases steps.len(),
{
    let before = steps.drop_last();
    if k == steps.len() - 1 {
        assert(steps.take(k) =~= before);
        assert(broadcast_in(steps) =~= broadcast_in(before) + room_after(steps).heard[id]);
    } else {
        assert(before.take(k) =~= steps.take(k));
        all_is_heard_since_connecting(before, k, id);
        room_is_always_consistent(before);
        let room = room_after(before);
        assert(room.heard.dom().contains(id));
        assert(broadcast_in(steps) =~= broadcast_in(steps.take(k)) + room_after(steps).heard[id]);
    }
}

proof fn lemma_own_join_goes_out<A>(steps: Seq<Step<A>>, id: int, username: Seq<char>)
    requires
        room_after(steps).occupies(id, username),
    ensures
        room_after(steps).heard[id].contains(joined(username)) || room_after(
            steps,
        ).pending[id].contains(joined(username)),
    decreases steps.len(),
{
    if steps.len() > 0 {
        let room = room_after(steps.drop_last());
        let now = room_after(steps);
        room_is_always_consistent(steps.drop_last());
        room_is_always_consistent(steps);
        assert(now.heard.dom().contains(id));
        assert(room.sessions.contains_key(id) ==> room.heard.dom().contains(id));
        if room.occupies(id, username) {
            lemma_own_join_goes_out(steps.drop_last(), id, username);
            if room.heard[id].contains(joined(username)) {
                let i = choose|i: int|
                    0 <= i < room.heard[id].len() && room.heard[id][i] == joined(username);
                assert(now.heard[id][i] == joined(username));
            } else {
                let i = choose|i: int|
                    0 <= i < room.pending[id].len() && room.pending[id][i] == joined(username);
                if steps.last() == (Step::<A>::HandOut { id }) {
                    if i == 0 {
                        assert(now.heard[id].last() == joined(username));
                    } else {
                        assert(now.pending[id][i - 1] == joined(username));
                    }
                } else {
                    assert(now.pending[id][i] == joined(username));
                }
            }
        } else {
            reveal_with_fuel(broadcasts, 3);
            assert(now.pending[id].last() == joined(username));
        }
    }
}

/// A user in the chat whose forwarding has received all that was handed out since the user's
/// connection was opened, and has not stopped, is sent all of it, in order, but what the user
/// said. That the user joined is among it once it has been handed out. A client that is too slow
/// does not receive everything.
pub proof fn user_is_sent_all_since_connecting<A>(
    steps: Seq<Step<A>>,
    id: int,
    username: Seq<char>,
    events: Seq<ForwardEventView>,
)
    requires
        room_after(steps).sessions.contains_key(id),
        room_after(steps).sessions[id].phase == (PhaseView::Chatting { username }),
        received(events) == room_after(steps).heard[id],
    ensures
        ({
            let room = room_after(steps);
            let sent = forwarded(username, events);
            &&& sent == room.heard[id].filter(
                |message: ServerMessageView| is_for(username, message),
            )
            &&& room.pending[id].len() == 0 ==> sent.contains(joined(username))
        }),
{
    let room = room_after(steps);
    let heard = room.heard[id];
    let wanted = |message: ServerMessageView| is_for(username, message);
    all_received_is_forwarded(username, events);
    assert(room.occupies(id, username));
    lemma_own_join_goes_out(steps, id, username);
    if room.pending[id].len() == 0 {
        let i = choose|i: int| 0 <= i < heard.len() && heard[i] == joined(username);
        heard.lemma_filter_contains(wanted, i);
    }
}

/// An event on one connection changes no other connection.
pub proof fn other_connections_are_untouched<A>(room: Room<A>, id: int, other: int, event: EventView)
    requires
        room.sessions.contains_key(other),
        other != id,
    ensures
        room.after(id, event).sessions.contains_key(other),
        room.after(id, event).sessions[other] == room.sessions[other],
{
}

/// What a user sends is to go out once, as a chat message under the user's own name. When it is
/// handed out every connection hears it, and it is forwarded to all other users and not back to
/// the user.
pub proof fn chat_reaches_all_others<A>(
    room: Room<A>,
    sender: int,
    username: Seq<char>,
    text: Seq<char>,
    receiver: int,
    receiver_name: Seq<char>,
)
    requires
        room.consistent(),
        room.sessions.contains_key(sender),
        room.sessions[sender].phase == (PhaseView::Chatting { username }),
        room.sessions.contains_key(receiver),
        room.sessions[receiver].phase == (PhaseView::Chatting { username: receiver_name }),
        room.pending[sender].len() == 0,
    ensures
        ({
            let message = ServerMessageView::Chat { from: username, text };
            let event = EventView::Message(ClientMessageView::Send { text });
            &&& room.outcome(sender, event).actions == seq![ActionView::Broadcast(message)]
            &&& room.after(sender, event).users == room.users
            &&& room.after(sender, event).sessions == room.sessions
            &&& room.after(sender, event).pending[sender] == seq![message]
            &&& room.after(sender, event).hand_out(sender).heard[receiver]
                == room.heard[receiver].push(message)
            &&& forwarding(receiver_name, ForwardEventView::Received(message)) == (if receiver
                != sender {
                ForwardActionView::Send(message)
            } else {
                ForwardActionView::Skip
            })
        }),
{
    let event = EventView::Message(ClientMessageView::Send { text });
    assert(room.occupies(sender, username));
    assert(room.occupies(receiver, receiver_name));
    assert(room.after(sender, event).sessions =~= room.sessions);
    reveal_with_fuel(broadcasts, 2);
    let message = ServerMessageView::Chat { from: username, text };
    assert(broadcasts(room.outcome(sender, event).actions) =~= seq![message]);
    assert(room.after(sender, event).pending[sender] =~= seq![message]);
    assert(room.after(sender, event).hand_out(sender).heard[receiver]
        =~= room.heard[receiver].push(message));
}

/// That a user joined or left is forwarded to every user, the one who joined included.
pub proof fn announcements_reach_everyone(username: Seq<char>, receiver_name: Seq<char>)
    ensures
        forwarding(receiver_name, ForwardEventView::Received(joined(username)))
            == ForwardActionView::Send(joined(username)),
        forwarding(receiver_name, ForwardEventView::Received(left(username)))
            == ForwardActionView::Send(left(username)),
{
}

/// A client that asks for a username which another connection occupies is told that it is taken,
/// and its connection is closed. Nobody else hears of it, and the register stays as it is.
pub proof fn taken_username_is_refused<A>(
    room: Room<A>,
    id: int,
    holder: int,
    username: Seq<char>,
)
    requires
        room.consistent(),
        room.occupies(holder, username),
        room.sessions.contains_key(id),
        room.sessions[id].phase == PhaseView::Joining,
    ensures
        ({
            let event = EventView::Message(ClientMessageView::Join { username });
            &&& room.outcome(id, event).actions == seq![ActionView::Reply(username_taken())]
            &&& room.after(id, event).users == room.users
            &&& room.after(id, event).sessions[id].phase == PhaseView::Closed
            &&& room.after(id, event).occupies(holder, username)
        }),
{
}

/// A client that asks for a username which no connection occupies is admitted under it, and
/// everyone is told.
pub proof fn free_username_is_granted<A>(room: Room<A>, id: int, username: Seq<char>)
    requires
        room.consistent(),
        forall|holder: int| !room.occupies(holder, username),
        room.sessions.contains_key(id),
        room.sessions[id].phase == PhaseView::Joining,
    ensures
        ({
            let event = EventView::Message(ClientMessageView::Join { username });
            &&& room.outcome(id, event).actions == seq![
                ActionView::Broadcast(joined(username)),
                ActionView::StartForwarding(username),
            ]
            &&& room.after(id, event).sessions[id].phase == (PhaseView::Chatting { username })
            &&& room.after(id, event).users == room.users.insert(
                username,
                room.sessions[id].address,
            )
        }),
{
    if room.users.contains_key(username) {
        let holder = choose|holder: int| room.occupies(holder, username);
    }
}

/// When a user leaves, joins again or disconnects, and the forwarding to the user has been
/// stopped, the others are told and the username is free: nobody occupies it, and the next client
/// who asks for it is admitted under it.
pub proof fn leaving_frees_username<A>(
    room: Room<A>,
    id: int,
    username: Seq<char>,
    event: EventView,
    next: int,
)
    requires
        room.consistent(),
        room.sessions.contains_key(id),
        room.sessions[id].phase == (PhaseView::Chatting { username }),
        event == EventView::Disconnected || event == EventView::Message(ClientMessageView::Leave)
            || (event matches EventView::Message(message) && message is Join),
        room.sessions.contains_key(next),
        room.sessions[next].phase == PhaseView::Joining,
    ensures
        room.outcome(id, event).actions == seq![ActionView::StopForwarding],
        ({
            let leaving = room.after(id, event);
            let gone = leaving.after(id, EventView::ForwardingStopped);
            let again = EventView::Message(ClientMessageView::Join { username });
            &&& leaving.occupies(id, username)
            &&& leaving.outcome(id, EventView::ForwardingStopped).actions.first()
                == ActionView::Broadcast(left(username))
            &&& gone.sessions[id].phase == PhaseView::Closed
            &&& gone.users == room.users.remove(username)
            &&& forall|holder: int| !gone.occupies(holder, username)
            &&& gone.after(next, again).occupies(next, username)
            &&& gone.outcome(next, again).actions.first() == ActionView::Broadcast(
                joined(username),
            )
        }),
{
    let leaving = room.after(id, event);
    let gone = leaving.after(id, EventView::ForwardingStopped);
    assert(room.occupies(id, username));
    assert forall|holder: int| !gone.occupies(holder, username) by {
        if gone.occupies(holder, username) {
            assert(room.occupies(holder, username));
        }
    }
}

} // verus!
