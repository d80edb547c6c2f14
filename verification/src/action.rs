//! What a session asks its driver to do, and the texts that the relay sends.

use vstd::prelude::*;
use vstd::utf8::encode_utf8;
use crate::user_manager::{user_views, User, UserView};

verus! {

/// One step that the driver of a session performs on the session's behalf.
#[derive(Debug, PartialEq, Eq)]
pub enum Action {
    /// Send `text` to the session's own peer, as a text frame.
    Respond(String),
    /// Put `payload` on the outbound queue `sink`; a failure is ignored.
    Deliver { sink: u64, payload: Vec<u8> },
    /// Put the file chunk `chunk` on the outbound queue `sink`; a failure is
    /// reported back to the session.
    Forward { sink: u64, chunk: Vec<u8> },
    /// Write `users` to `file`, then send `saved` to the session's own peer
    /// if that succeeded and `failed` if it did not.
    Persist { file: String, users: Vec<User>, saved: String, failed: String },
    /// Send `content` to the session's own peer, as a binary frame.
    Send(Vec<u8>),
}

/// What an `Action` says, with texts and bytes as sequences.
pub ghost enum ActionView {
    Respond(Seq<char>),
    Deliver { sink: u64, payload: Seq<u8> },
    Forward { sink: u64, chunk: Seq<u8> },
    Persist { file: Seq<char>, users: Seq<UserView>, saved: Seq<char>, failed: Seq<char> },
    Send(Seq<u8>),
}

impl View for Action {
    type V = ActionView;

    open spec fn view(&self) -> ActionView {
        match *self {
            Action::Respond(text) => ActionView::Respond(text@),
            Action::Deliver { sink, payload } => ActionView::Deliver { sink, payload: payload@ },
            Action::Forward { sink, chunk } => ActionView::Forward { sink, chunk: chunk@ },
            Action::Persist { file, users, saved, failed } => ActionView::Persist {
                file: file@,
                users: user_views(users@),
                saved: saved@,
                failed: failed@,
            },
            Action::Send(content) => ActionView::Send(content@),
        }
    }
}

/// The views of a list of actions.
pub open spec fn action_views(list: Seq<Action>) -> Seq<ActionView> {
    list.map_values(|a: Action| a@)
}

/// A text message on the queue `sink`.
pub open spec fn notice(sink: u64, text: Seq<char>) -> ActionView {
    ActionView::Deliver { sink, payload: encode_utf8(text) }
}

/// `from <sender>: <content>`
pub open spec fn direct_text(sender: Seq<char>, content: Seq<char>) -> Seq<char> {
    "from "@ + sender + ": "@ + content
}

/// `<sender>: <content>`
pub open spec fn chat_text(sender: Seq<char>, content: Seq<char>) -> Seq<char> {
    sender + ": "@ + content
}

/// `Chat '<chat>' started successfully`
pub open spec fn started_text(chat: Seq<char>) -> Seq<char> {
    "Chat '"@ + chat + "' started successfully"@
}

/// `Failed to start chat '<chat>'`
pub open spec fn start_failed_text(chat: Seq<char>) -> Seq<char> {
    "Failed to start chat '"@ + chat + "'"@
}

/// `Joined chat '<chat>'`
pub open spec fn joined_text(chat: Seq<char>) -> Seq<char> {
    "Joined chat '"@ + chat + "'"@
}

/// `Failed to join chat '<chat>'`
pub open spec fn join_failed_text(chat: Seq<char>) -> Seq<char> {
    "Failed to join chat '"@ + chat + "'"@
}

/// `User '<user>' has joined the chat '<chat>'`
pub open spec fn has_joined_text(user: Seq<char>, chat: Seq<char>) -> Seq<char> {
    "User '"@ + user + "' has joined the chat '"@ + chat + "'"@
}

/// `You have left the chat '<chat>'`
pub open spec fn left_text(chat: Seq<char>) -> Seq<char> {
    "You have left the chat '"@ + chat + "'"@
}

/// `User '<user>' has left the chat`
pub open spec fn has_left_text(user: Seq<char>) -> Seq<char> {
    "User '"@ + user + "' has left the chat"@
}

/// `Filename: <path>`
pub open spec fn filename_text(path: Seq<char>) -> Seq<char> {
    "Filename: "@ + path
}

/// `Authentication error: <detail>`
pub open spec fn auth_error_text(detail: Seq<char>) -> Seq<char> {
    "Authentication error: "@ + detail
}

/// The text `a` followed by `b`.
pub fn glue(a: &str, b: &str) -> (out: String)
    ensures
        out@ == a@ + b@,
{
    let mut out = a.to_owned();
    out.append(b);
    out
}

/// The text `a` followed by `b` and `c`.
pub fn glue3(a: &str, b: &str, c: &str) -> (out: String)
    ensures
        out@ == a@ + b@ + c@,
{
    let mut out = a.to_owned();
    out.append(b);
    out.append(c);
    out
}

/// The bytes of `text` in UTF-8.
pub fn bytes_of(text: &str) -> (out: Vec<u8>)
    ensures
        out@ == encode_utf8(text@),
{
    text.as_bytes_vec()
}

/// The action that sends `message` to the session's own peer.
pub fn send_response(message: &str) -> (out: Action)
    ensures
        out@ == ActionView::Respond(message@),
{
    Action::Respond(message.to_owned())
}

/// The action that puts the text `message` on the queue `sink`.
pub fn send_notice(sink: u64, message: &str) -> (out: Action)
    ensures
        out@ == notice(sink, message@),
{
    Action::Deliver { sink, payload: bytes_of(message) }
}

/// The answer that follows a `Persist` action: `saved` where the user table
/// was written, `failed` where it was not.
pub fn persist_response(written: bool, saved: String, failed: String) -> (out: Action)
    ensures
        out@ == ActionView::Respond(
            if written {
                saved@
            } else {
                failed@
            },
        ),
{
    if written {
        Action::Respond(saved)
    } else {
        Action::Respond(failed)
    }
}

/// Appends `action` to `list`.
pub fn push_action(list: &mut Vec<Action>, action: Action)
    ensures
        action_views(final(list)@) == action_views(old(list)@).push(action@),
{
    list.push(action);
    assert(action_views(list@) == action_views(old(list)@).push(action@));
}

/// The list that holds `action` alone.
pub fn only(action: Action) -> (out: Vec<Action>)
    ensures
        action_views(out@) == seq![action@],
{
    let mut out: Vec<Action> = Vec::new();
    out.push(action);
    assert(action_views(out@) == seq![action@]);
    out
}

/// The list without actions.
pub fn nothing() -> (out: Vec<Action>)
    ensures
        action_views(out@) == Seq::<ActionView>::empty(),
{
    let out: Vec<Action> = Vec::new();
    assert(action_views(out@) == Seq::<ActionView>::empty());
    out
}

} // verus!
