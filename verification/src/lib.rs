//! A chat relay: command grammar, user registry, session engine and the
//! chunked file-transfer protocol, with machine-checked contracts.
//!
//! The library decides and the program around it performs: a session is
//! handed one event at a time and answers with the actions to carry out, so
//! that every rule of the relay is a function from values to values.
//!
//! - `words`: cutting text into words, joining and trimming.
//! - `command`: the command grammar.
//! - `names`, `table`: ordered sets of names and tables keyed by name.
//! - `password`: password digests, made and checked by `bcrypt`.
//! - `user_manager`: the registry of users, presence and chat rooms.
//! - `action`: what a session asks its driver to do.
//! - `command_handler`: what each command does.
//! - `session`: one connection's state and its step function.
//! - `file_handler`: the client's side of a file transfer.
//! - `client`: the client's loops, one step at a time.

pub mod action;
pub mod client;
pub mod command;
pub mod command_handler;
pub mod error;
pub mod file_handler;
pub mod names;
pub mod password;
pub mod session;
pub mod table;
pub mod user_manager;
pub mod words;
