//! The messages that clients and the server exchange.

use vstd::prelude::*;

verus! {

/// A message from a client to the server.
#[derive(Debug, Clone, PartialEq, Eq)]
pub enum ClientMessage {
    /// Enter the chat under a username; must be the first message.
    Join { username: String },
    /// Say something to all other users.
    Send { text: String },
    /// Disconnect gracefully.
    Leave,
}

/// A message from the server to a client.
#[derive(Debug, Clone, PartialEq, Eq)]
pub enum ServerMessage {
    /// A chat message from another user.
    Chat { from: String, text: String },
    /// A status message, such as an announcement that a user joined or left.
    Info { text: String },
    /// A refusal, such as of a username that is taken.
    Error { text: String },
}

/// What a [`ClientMessage`] says.
pub enum ClientMessageView {
    Join { username: Seq<char> },
    Send { text: Seq<char> },
    Leave,
}

/// What a [`ServerMessage`] says.
pub enum ServerMessageView {
    Chat { from: Seq<char>, text: Seq<char> },
    Info { text: Seq<char> },
    Error { text: Seq<char> },
}

impl View for ClientMessage {
    type V = ClientMessageView;

    open spec fn view(&self) -> ClientMessageView {
        match self {
            ClientMessage::Join { username } => ClientMessageView::Join { username: username@ },
            ClientMessage::Send { text } => ClientMessageView::Send { text: text@ },
            ClientMessage::Leave => ClientMessageView::Leave,
        }
    }
}

impl View for ServerMessage {
    type V = ServerMessageView;

    open spec fn view(&self) -> ServerMessageView {
        match self {
            ServerMessage::Chat { from, text } => ServerMessageView::Chat {
                from: from@,
                text: text@,
            },
            ServerMessage::Info { text } => ServerMessageView::Info { text: text@ },
            ServerMessage::Error { text } => ServerMessageView::Error { text: text@ },
        }
    }
}

/// A client's message says what its fields say, and nothing else.
pub proof fn client_message_says_its_fields(username: String, text: String)
    ensures
        (ClientMessage::Join { username })@ == (ClientMessageView::Join { username: username@ }),
        (ClientMessage::Send { text })@ == (ClientMessageView::Send { text: text@ }),
        ClientMessage::Leave@ == ClientMessageView::Leave,
{
}

/// A server's message says what its fields say, and nothing else.
pub proof fn server_message_says_its_fields(from: String, text: String)
    ensures
        (ServerMessage::Chat { from, text })@ == (ServerMessageView::Chat {
            from: from@,
            text: text@,
        }),
        (ServerMessage::Info { text })@ == (ServerMessageView::Info { text: text@ }),
        (ServerMessage::Error { text })@ == (ServerMessageView::Error { text: text@ }),
{
}

} // verus!
