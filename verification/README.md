# Simple Chat

A chat server and a chat client for the terminal, with the protocol verified in Verus.

The server passes what one user says on to all others. Messages are JSON objects, one per line:

| From the client | Payload | |
|---|---|---|
| `Join` | `username` | must come first; refused if the username is taken |
| `Send` | `text` | say something to all other users |
| `Leave` | | disconnect |

| From the server | Payload | |
|---|---|---|
| `Chat` | `from`, `text` | what another user said |
| `Info` | `text` | a user joined or left |
| `Error` | `text` | a refusal |

## Layout

`src/` holds what the server and the client decide, each decision with its contract:

- `message`, `wire`, `reading`: the messages, the lines that carry them, and reading them back
- `users`, `session`, `forward`: the register of users, one connection, and what is forwarded to it
- `command`, `client`, `config`: the client's input and output, and where it connects
- `room`, `conversation`: what holds of the chat as a whole, and of a client and the server together
- `text`: joining, numbers and trimming

`app/` holds the sockets and the terminal around the library, and the general reader of JSON.

## Running

    simple_chat server
    simple_chat client [host] [port] [username]

The server takes `HOST` and `PORT` from the environment, the client also `USERNAME`; its arguments
go before the environment. Without them the address is `127.0.0.1:8080`. In the client, type
`send <MSG>` or `leave`.
