//! A chat: a server that passes messages on between its users, and a client for the terminal.

pub mod calls;
pub mod client;
pub mod command;
pub mod config;
pub mod conversation;
pub mod forward;
pub mod message;
pub mod reading;
pub mod room;
pub mod session;
pub mod text;
pub mod users;
pub mod wire;
