use simple_chat::forward::{forward, ForwardAction, ForwardEvent};
use simple_chat::message::{ClientMessage, ServerMessage};
use simple_chat::session::{Action, Event, Phase, Session};
use simple_chat::users::Users;

/// One connection, with what has been broadcast since it was opened and what its client has read.
struct Connection {
    session: Session<u16>,
    waiting: Vec<ServerMessage>,
    forwarded_as: Option<String>,
    inbox: Vec<ServerMessage>,
}

/// A server without a network.
struct Chat {
    users: Users<u16>,
    connections: Vec<Connection>,
    reports: Vec<String>,
    warnings: Vec<String>,
}

impl Chat {
    fn start() -> Chat {
        Chat {
            users: Users::new(),
            connections: Vec::new(),
            reports: Vec::new(),
            warnings: Vec::new(),
        }
    }

    fn connect(&mut self) -> usize {
        let id = self.connections.len();
        self.connections.push(Connection {
            session: Session::new(id as u16),
            waiting: Vec::new(),
            forwarded_as: None,
            inbox: Vec::new(),
        });
        id
    }

    fn happen(&mut self, id: usize, event: Event) {
        let actions = self.connections[id].session.handle(&mut self.users, event);
        for action in actions {
            match action {
                Action::Reply(msg) => self.connections[id].inbox.push(msg),
                Action::Broadcast(msg) => {
                    for connection in self.connections.iter_mut() {
                        connection.waiting.push(msg.clone());
                    }
                }
                Action::StartForwarding(username) => {
                    self.connections[id].forwarded_as = Some(username);
                }
                Action::StopForwarding => {
                    self.connections[id].forwarded_as = None;
                    self.happen(id, Event::ForwardingStopped);
                }
                Action::Report(line) => self.reports.push(line),
                Action::Warn(line) => self.warnings.push(line),
            }
        }
        for connection in self.connections.iter_mut() {
            if let Some(username) = &connection.forwarded_as {
                for msg in connection.waiting.drain(..) {
                    match forward(username, ForwardEvent::Received(msg)) {
                        ForwardAction::Send(msg) => connection.inbox.push(msg),
                        ForwardAction::Skip => {}
                        other => panic!("unexpected {:?}", other),
                    }
                }
            }
        }
    }

    fn write(&mut self, id: usize, msg: ClientMessage) {
        self.happen(id, Event::Message(msg));
    }

    fn join(&mut self, id: usize, username: &str) {
        self.write(id, ClientMessage::Join { username: username.to_string() });
    }

    fn say(&mut self, id: usize, text: &str) {
        self.write(id, ClientMessage::Send { text: text.to_string() });
    }

    fn read(&mut self, id: usize) -> ServerMessage {
        self.connections[id].inbox.remove(0)
    }

    fn nothing_to_read(&self, id: usize) -> bool {
        self.connections[id].inbox.is_empty()
    }

    fn phase(&self, id: usize) -> &Phase {
        self.connections[id].session.phase()
    }
}

fn info(text: &str) -> ServerMessage {
    ServerMessage::Info { text: text.to_string() }
}

fn error(text: &str) -> ServerMessage {
    ServerMessage::Error { text: text.to_string() }
}

fn chat(from: &str, text: &str) -> ServerMessage {
    ServerMessage::Chat { from: from.to_string(), text: text.to_string() }
}

#[test]
fn test_join_and_receive_info() {
    let mut server = Chat::start();
    let alice = server.connect();
    server.join(alice, "alice");

    let msg = server.read(alice);
    assert!(matches!(msg, ServerMessage::Info { ref text } if text.contains("alice")));
    assert_eq!(msg, info("alice joined the chat"));
}

#[test]
fn test_duplicate_username_rejected() {
    let mut server = Chat::start();
    let first = server.connect();
    server.join(first, "bob");

    let second = server.connect();
    server.join(second, "bob");

    let msg = server.read(second);
    assert!(matches!(msg, ServerMessage::Error { ref text } if text.contains("taken")));
    assert_eq!(msg, error("Username already taken"));
    assert_eq!(*server.phase(second), Phase::Closed);
    assert_eq!(*server.phase(first), Phase::Chatting { username: "bob".to_string() });
    assert_eq!(server.read(first), info("bob joined the chat"));
    assert!(server.nothing_to_read(first));
}

#[test]
fn test_message_broadcast_to_others() {
    let mut server = Chat::start();

    let alice = server.connect();
    server.join(alice, "alice");
    server.read(alice);

    let bob = server.connect();
    server.join(bob, "bob");
    assert_eq!(server.read(alice), info("bob joined the chat"));
    assert_eq!(server.read(bob), info("bob joined the chat"));

    server.say(bob, "hi alice!");
    let msg = server.read(alice);
    assert!(
        matches!(msg, ServerMessage::Chat { ref from, ref text } if from == "bob" && text == "hi alice!")
    );

    server.say(alice, "hey bob");
    let msg = server.read(bob);
    assert!(matches!(msg, ServerMessage::Chat { ref from, .. } if from == "alice"));
    assert_eq!(msg, chat("alice", "hey bob"));
    assert!(server.nothing_to_read(alice));
}

#[test]
fn test_leave_removes_user() {
    let mut server = Chat::start();

    let charlie = server.connect();
    server.join(charlie, "charlie");
    server.read(charlie);

    let dave = server.connect();
    server.join(dave, "dave");
    server.read(charlie);
    server.read(dave);

    server.write(dave, ClientMessage::Leave);

    let msg = server.read(charlie);
    assert!(matches!(msg, ServerMessage::Info { ref text } if text.contains("dave")));
    assert_eq!(msg, info("dave left the chat"));
    assert!(!server.users.contains("dave"));
    assert!(server.users.contains("charlie"));
    assert_eq!(server.reports, vec!["dave disconnected".to_string()]);
    assert!(server.nothing_to_read(dave));
}

#[test]
fn a_username_can_be_taken_again_after_its_user_left() {
    let mut server = Chat::start();
    let first = server.connect();
    server.join(first, "erin");
    server.happen(first, Event::Disconnected);
    assert_eq!(*server.phase(first), Phase::Closed);

    let second = server.connect();
    server.join(second, "erin");
    assert_eq!(*server.phase(second), Phase::Chatting { username: "erin".to_string() });
    assert_eq!(server.read(second), info("erin joined the chat"));
}

#[test]
fn joining_again_ends_the_stay() {
    let mut server = Chat::start();
    let id = server.connect();
    server.join(id, "frank");
    server.join(id, "george");
    assert_eq!(*server.phase(id), Phase::Closed);
    assert!(!server.users.contains("frank"));
    assert!(!server.users.contains("george"));
}

#[test]
fn anything_else_before_join_is_answered_with_an_error() {
    let mut server = Chat::start();
    let alice = server.connect();
    server.join(alice, "alice");
    server.read(alice);

    let id = server.connect();
    server.say(id, "hello?");
    assert_eq!(server.read(id), error("Send Join message first"));
    server.write(id, ClientMessage::Leave);
    assert_eq!(server.read(id), error("Send Join message first"));
    server.happen(id, Event::Malformed("expected value".to_string()));
    assert_eq!(server.read(id), error("Send Join message first"));
    assert_eq!(*server.phase(id), Phase::Joining);
    assert!(server.nothing_to_read(alice));
    assert!(server.warnings.is_empty());

    server.join(id, "late");
    assert_eq!(server.read(id), info("late joined the chat"));
}

#[test]
fn disconnecting_before_join_is_silent() {
    let mut server = Chat::start();
    let alice = server.connect();
    server.join(alice, "alice");
    server.read(alice);
    let id = server.connect();
    server.happen(id, Event::Disconnected);
    assert_eq!(*server.phase(id), Phase::Closed);
    assert!(server.nothing_to_read(alice));
    assert!(server.reports.is_empty());
}

#[test]
fn a_malformed_line_in_the_chat_is_reported_and_survived() {
    let mut server = Chat::start();
    let id = server.connect();
    server.join(id, "heidi");
    server.happen(id, Event::Malformed("EOF while parsing".to_string()));
    assert_eq!(server.warnings, vec!["Parse error from heidi: EOF while parsing".to_string()]);
    assert_eq!(*server.phase(id), Phase::Chatting { username: "heidi".to_string() });
}

#[test]
fn a_closed_connection_does_nothing() {
    let mut users: Users<u16> = Users::new();
    let mut session: Session<u16> = Session::new(1);
    assert!(session.handle(&mut users, Event::Disconnected).is_empty());
    let again = Event::Message(ClientMessage::Join { username: "ivan".to_string() });
    assert!(session.handle(&mut users, again).is_empty());
    assert_eq!(*session.phase(), Phase::Closed);
    assert!(!users.contains("ivan"));
}

#[test]
fn the_actions_come_in_order() {
    let mut users: Users<u16> = Users::new();
    let mut session: Session<u16> = Session::new(1);
    let join = Event::Message(ClientMessage::Join { username: "judy".to_string() });
    assert_eq!(
        session.handle(&mut users, join),
        vec![
            Action::Broadcast(info("judy joined the chat")),
            Action::StartForwarding("judy".to_string()),
        ]
    );
    let leave = Event::Message(ClientMessage::Leave);
    assert_eq!(session.handle(&mut users, leave), vec![Action::StopForwarding]);
    assert!(users.contains("judy"));
    assert!(session.handle(&mut users, Event::Disconnected).is_empty());
    assert_eq!(
        session.handle(&mut users, Event::ForwardingStopped),
        vec![
            Action::Broadcast(info("judy left the chat")),
            Action::Report("judy disconnected".to_string()),
        ]
    );
    assert!(!users.contains("judy"));
}

#[test]
fn what_was_broadcast_before_the_join_is_forwarded_after_it() {
    let mut server = Chat::start();
    let late = server.connect();
    let alice = server.connect();
    server.join(alice, "alice");
    server.say(alice, "anyone?");
    assert!(server.nothing_to_read(late));
    server.join(late, "late");
    assert_eq!(server.read(late), info("alice joined the chat"));
    assert_eq!(server.read(late), chat("alice", "anyone?"));
    assert_eq!(server.read(late), info("late joined the chat"));
}

#[test]
fn the_register_keeps_one_entry_per_username() {
    let mut users: Users<u16> = Users::new();
    assert!(!users.contains("a"));
    assert!(users.enter("a".to_string(), 1));
    assert!(!users.enter("a".to_string(), 2));
    assert!(users.enter("b".to_string(), 3));
    users.remove("a");
    users.remove("a");
    assert!(!users.contains("a"));
    assert!(users.contains("b"));
    assert!(users.enter("a".to_string(), 4));
}

#[test]
fn forwarding_drops_only_what_the_user_said() {
    let me = "me".to_string();
    assert_eq!(
        forward(&me, ForwardEvent::Received(chat("me", "x"))),
        ForwardAction::Skip
    );
    assert_eq!(
        forward(&me, ForwardEvent::Received(chat("Me", "x"))),
        ForwardAction::Send(chat("Me", "x"))
    );
    assert_eq!(
        forward(&me, ForwardEvent::Received(info("me left the chat"))),
        ForwardAction::Send(info("me left the chat"))
    );
    assert_eq!(
        forward(&me, ForwardEvent::Received(error("e"))),
        ForwardAction::Send(error("e"))
    );
}

#[test]
fn forwarding_survives_lag_and_stops_at_the_end() {
    let me = "me".to_string();
    assert_eq!(
        forward(&me, ForwardEvent::Lagged(12)),
        ForwardAction::Warn("Client me lagged by 12 messages".to_string())
    );
    assert_eq!(forward(&me, ForwardEvent::ChannelClosed), ForwardAction::Stop);
    assert_eq!(forward(&me, ForwardEvent::SendFailed), ForwardAction::Stop);
}

#[test]
fn a_whole_stay_is_heard_from_joining_to_leaving() {
    let mut server = Chat::start();
    let watcher = server.connect();
    server.join(watcher, "watcher");
    server.read(watcher);

    let id = server.connect();
    server.happen(id, Event::Malformed("junk".to_string()));
    server.say(id, "too early");
    server.join(id, "kim");
    server.say(id, "one");
    server.happen(id, Event::Malformed("junk".to_string()));
    server.say(id, "two");
    server.happen(id, Event::Disconnected);
    server.say(id, "too late");

    assert_eq!(
        server.connections[watcher].inbox,
        vec![
            info("kim joined the chat"),
            chat("kim", "one"),
            chat("kim", "two"),
            info("kim left the chat"),
        ]
    );
}

#[test]
fn lag_and_the_end_of_forwarding_over_a_series_of_events() {
    let me = "me".to_string();
    let events = vec![
        ForwardEvent::Received(info("a")),
        ForwardEvent::Lagged(3),
        ForwardEvent::Received(chat("me", "b")),
        ForwardEvent::Received(chat("you", "c")),
        ForwardEvent::SendFailed,
        ForwardEvent::Received(info("d")),
    ];
    let mut sent = Vec::new();
    for event in events {
        match forward(&me, event) {
            ForwardAction::Send(msg) => sent.push(msg),
            ForwardAction::Skip | ForwardAction::Warn(_) => {}
            ForwardAction::Stop => break,
        }
    }
    assert_eq!(sent, vec![info("a"), chat("you", "c")]);
}
