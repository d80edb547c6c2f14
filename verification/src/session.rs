//! One connection's state, and the step that each event on it calls for.
//!
//! The driver of a connection waits for the next frame from the peer and for
//! the next message on the connection's outbound queue at once, hands
//! whichever comes first to `Session::on_event`, and performs the actions
//! that come back, in order.

use vstd::prelude::*;
use crate::action::{
    action_views, nothing, notice, only, push_action, send_notice, send_response, Action,
    ActionView,
};
use crate::command::{args_of, command_of, CommandView};
use crate::command_handler::{
    cleanup, cleanup_state, command_post, handle_command, status_count,
};
use crate::user_manager::{opt_text, UserManager, UserManagerView, UserView};

verus! {

/// The state of one live connection.
#[derive(Debug, PartialEq, Eq)]
pub struct Session {
    /// The user that logged in on this connection, if any.
    pub current_user: Option<String>,
    /// The connection's own outbound queue.
    pub sender: u64,
    /// The queue that file chunks are relayed to while a transfer runs.
    pub relay: Option<u64>,
    /// Whether the connection has ended.
    pub closed: bool,
}

/// What a `Session` holds, with its texts as character sequences.
pub ghost struct SessionView {
    pub current_user: Option<Seq<char>>,
    pub sender: u64,
    pub relay: Option<u64>,
    pub closed: bool,
}

impl View for Session {
    type V = SessionView;

    open spec fn view(&self) -> SessionView {
        SessionView {
            current_user: opt_text(self.current_user),
            sender: self.sender,
            relay: self.relay,
            closed: self.closed,
        }
    }
}

/// Where a session stands.
#[derive(Debug, Clone, Copy, PartialEq, Eq, Structural)]
pub enum SessionState {
    /// Nobody has logged in yet.
    Unauthenticated,
    /// A user has logged in.
    Authenticated,
    /// The connection has ended.
    Closed,
}

impl SessionView {
    /// Where the session stands: closed once it has ended, before that
    /// authenticated as soon as it has a user.
    pub open spec fn state(self) -> SessionState {
        if self.closed {
            SessionState::Closed
        } else if self.current_user is Some {
            SessionState::Authenticated
        } else {
            SessionState::Unauthenticated
        }
    }
}

/// Something that happened on a connection.
#[derive(Debug)]
pub enum Event {
    /// The peer sent a text frame.
    Text(String),
    /// The peer sent a binary frame.
    Binary(Vec<u8>),
    /// The peer sent a frame that is neither text, binary nor close.
    Other,
    /// The peer sent a close frame.
    Close,
    /// Reading from the peer failed.
    ReadError,
    /// The stream of frames from the peer has ended.
    Ended,
    /// Another session put a message on this connection's outbound queue.
    Outbound(Vec<u8>),
    /// A file chunk could not be put on the recipient's queue.
    ForwardFailed,
}

/// What an `Event` says, with texts and bytes as sequences.
pub ghost enum EventView {
    Text(Seq<char>),
    Binary(Seq<u8>),
    Other,
    Close,
    ReadError,
    Ended,
    Outbound(Seq<u8>),
    ForwardFailed,
}

impl View for Event {
    type V = EventView;

    open spec fn view(&self) -> EventView {
        match *self {
            Event::Text(line) => EventView::Text(line@),
            Event::Binary(chunk) => EventView::Binary(chunk@),
            Event::Other => EventView::Other,
            Event::Close => EventView::Close,
            Event::ReadError => EventView::ReadError,
            Event::Ended => EventView::Ended,
            Event::Outbound(content) => EventView::Outbound(content@),
            Event::ForwardFailed => EventView::ForwardFailed,
        }
    }
}

impl EventView {
    /// Whether the event ends the connection.
    pub open spec fn is_final(self) -> bool {
        self is Close || self is ReadError || self is Ended
    }
}

/// The two actions that end a transfer to `sink`: `status` to the sender,
/// then the end-of-file marker to the recipient.
pub open spec fn transfer_end(sink: u64, status: Seq<char>) -> Seq<ActionView> {
    seq![ActionView::Respond(status), notice(sink, "EOF"@)]
}

/// The actions that a frame calls for while a transfer to `sink` runs.
pub open spec fn relay_actions(sink: u64, frame: EventView) -> Seq<ActionView> {
    match frame {
        EventView::Binary(chunk) => seq![ActionView::Forward { sink, chunk }],
        _ => transfer_end(sink, "File sent successfully"@),
    }
}

/// What handling one event may come to.
pub open spec fn event_post(
    pre: UserManagerView,
    s: SessionView,
    event: EventView,
    post: UserManagerView,
    t: SessionView,
    actions: Seq<ActionView>,
) -> bool {
    if s.closed {
        post == pre && t == s && actions == Seq::<ActionView>::empty()
    } else {
        match event {
            EventView::Outbound(content) => {
                &&& post == pre
                &&& t == s
                &&& actions == seq![ActionView::Send(content)]
            },
            EventView::ForwardFailed => {
                &&& post == pre
                &&& t == (SessionView { relay: None, ..s })
                &&& actions == match s.relay {
                    Some(sink) => transfer_end(sink, "Error receiving file: Failed to send chunk"@),
                    None => Seq::<ActionView>::empty(),
                }
            },
            frame => {
                &&& match s.relay {
                    Some(sink) => {
                        &&& post == (if frame.is_final() {
                            cleanup_state(pre, s.current_user)
                        } else {
                            pre
                        })
                        &&& t == (SessionView {
                            relay: if frame is Binary {
                                s.relay
                            } else {
                                None
                            },
                            closed: frame.is_final(),
                            ..s
                        })
                        &&& actions == relay_actions(sink, frame)
                    },
                    None => match frame {
                        EventView::Text(line) => command_post(
                            pre,
                            s,
                            command_of(args_of(line)),
                            post,
                            t,
                            actions,
                        ),
                        _ => {
                            &&& post == (if frame.is_final() {
                                cleanup_state(pre, s.current_user)
                            } else {
                                pre
                            })
                            &&& t == (SessionView { closed: frame.is_final(), ..s })
                            &&& actions == Seq::<ActionView>::empty()
                        },
                    },
                }
            },
        }
    }
}

/// Relays one frame of a running transfer: a binary frame goes to the
/// recipient as it is, any other frame ends the transfer.
pub fn receive_and_forward_file(relay: &mut Option<u64>, frame: Event) -> (out: Vec<Action>)
    ensures
        match *old(relay) {
            Some(sink) => {
                &&& action_views(out@) == relay_actions(sink, frame@)
                &&& *final(relay) == (if frame@ is Binary {
                    *old(relay)
                } else {
                    None
                })
            },
            None => action_views(out@) == Seq::<ActionView>::empty() && *final(relay) == *old(
                relay,
            ),
        },
{
    let sink = match *relay {
        Some(sink) => sink,
        None => {
            return nothing();
        },
    };
    match frame {
        Event::Binary(chunk) => only(Action::Forward { sink, chunk }),
        _ => {
            *relay = None;
            end_transfer(sink, "File sent successfully")
        },
    }
}

/// The end of a transfer to `sink`: `status` to the sender, then the
/// end-of-file marker to the recipient.
pub fn end_transfer(sink: u64, status: &str) -> (out: Vec<Action>)
    ensures
        action_views(out@) == transfer_end(sink, status@),
{
    let mut out = only(send_response(status));
    push_action(&mut out, send_notice(sink, "EOF"));
    assert(action_views(out@) == transfer_end(sink, status@));
    out
}

impl Session {
    /// A fresh connection whose outbound queue is `sender`: nobody logged
    /// in, no transfer running.
    pub fn new(sender: u64) -> (out: Session)
        ensures
            out@ == (SessionView { current_user: None, sender, relay: None, closed: false }),
    {
        Session { current_user: None, sender, relay: None, closed: false }
    }

    /// Where the session stands.
    pub fn state(&self) -> (out: SessionState)
        ensures
            out == self@.state(),
    {
        if self.closed {
            SessionState::Closed
        } else if self.current_user.is_some() {
            SessionState::Authenticated
        } else {
            SessionState::Unauthenticated
        }
    }

    /// Ends the connection: its user goes offline.
    pub fn close(&mut self, user_manager: &mut UserManager)
        requires
            old(user_manager).wf(),
        ensures
            final(user_manager).wf(),
            final(user_manager)@ == cleanup_state(old(user_manager)@, old(self)@.current_user),
            final(self)@ == (SessionView { closed: true, ..old(self)@ }),
    {
        cleanup(user_manager, &self.current_user);
        self.closed = true;
    }

    /// Handles one event and says what the driver is to do about it.
    pub fn on_event(&mut self, user_manager: &mut UserManager, event: Event) -> (out: Vec<Action>)
        requires
            old(user_manager).wf(),
        ensures
            final(user_manager).wf(),
            event_post(
                old(user_manager)@,
                old(self)@,
                event@,
                final(user_manager)@,
                final(self)@,
                action_views(out@),
            ),
    {
        if self.closed {
            return nothing();
        }
        match event {
            Event::Outbound(content) => only(Action::Send(content)),
            Event::ForwardFailed => match self.relay {
                Some(sink) => {
                    self.relay = None;
                    end_transfer(sink, "Error receiving file: Failed to send chunk")
                },
                None => nothing(),
            },
            frame => {
                let ends = match frame {
                    Event::Close => true,
                    Event::ReadError => true,
                    Event::Ended => true,
                    _ => false,
                };
                let out = if self.relay.is_some() {
                    receive_and_forward_file(&mut self.relay, frame)
                } else {
                    match frame {
                        Event::Text(line) => {
                            return handle_command(user_manager, self, line.as_str());
                        },
                        _ => nothing(),
                    }
                };
                if ends {
                    self.close(user_manager);
                }
                out
            },
        }
    }
}

/// Whether the user of the session, if it has one, is registered.
pub open spec fn known_user(registry: UserManagerView, s: SessionView) -> bool {
    s.current_user matches Some(name) ==> registry.users.has(name)
}

/// No event takes a user out of the user table.
pub proof fn law_users_are_kept(
    pre: UserManagerView,
    s: SessionView,
    event: EventView,
    post: UserManagerView,
    t: SessionView,
    actions: Seq<ActionView>,
    name: Seq<char>,
)
    requires
        pre.wf(),
        event_post(pre, s, event, post, t, actions),
        pre.users.has(name),
    ensures
        post.users.has(name),
{
    if !s.closed && s.relay is None && event is Text {
        let cmd = command_of(args_of(event->Text_0));
        match cmd {
            Some(CommandView::Register { name: new_name, password }) => {
                if post != pre {
                    let digest = post.users.get(new_name)->0.password;
                    pre.users.lemma_put_has(
                        new_name,
                        UserView { name: new_name, password: digest, current_chat: None },
                        name,
                    );
                }
            },
            Some(CommandView::StartChat { name: chat }) => {
                if s.current_user is Some {
                    let cur = s.current_user->0;
                    if pre.users.has(cur) {
                        let opened = pre.with_chat(chat, cur);
                        opened.users.lemma_put_has(
                            cur,
                            UserView { current_chat: Some(chat), ..opened.users.get(cur)->0 },
                            name,
                        );
                    }
                }
            },
            Some(CommandView::JoinChat { name: chat }) => {
                if s.current_user is Some {
                    let cur = s.current_user->0;
                    if pre.chats.has(chat) && pre.users.has(cur) {
                        let joined = pre.with_member(chat, cur);
                        joined.users.lemma_put_has(
                            cur,
                            UserView { current_chat: Some(chat), ..joined.users.get(cur)->0 },
                            name,
                        );
                    }
                }
            },
            _ => {},
        }
    }
}

/// A session whose user is registered has a registered user after every
/// event: logging in takes a registered user, and users are never removed.
pub proof fn law_session_user_is_registered(
    pre: UserManagerView,
    s: SessionView,
    event: EventView,
    post: UserManagerView,
    t: SessionView,
    actions: Seq<ActionView>,
)
    requires
        pre.wf(),
        known_user(pre, s),
        event_post(pre, s, event, post, t, actions),
    ensures
        known_user(post, t),
{
    if t.current_user is Some {
        let name = t.current_user->0;
        if s.current_user == t.current_user {
            law_users_are_kept(pre, s, event, post, t, actions, name);
        }
    }
}

/// A closed session stays closed: no event changes it or the registry, and
/// none calls for an action.
pub proof fn law_closed_is_final(
    pre: UserManagerView,
    s: SessionView,
    event: EventView,
    post: UserManagerView,
    t: SessionView,
    actions: Seq<ActionView>,
)
    requires
        s.closed,
        event_post(pre, s, event, post, t, actions),
    ensures
        post == pre,
        t == s,
        actions.len() == 0,
{
}

/// A close frame, a read error and the end of the stream close an open
/// session and take its user offline; nothing else in the registry changes.
pub proof fn law_session_end(
    pre: UserManagerView,
    s: SessionView,
    event: EventView,
    post: UserManagerView,
    t: SessionView,
    actions: Seq<ActionView>,
)
    requires
        !s.closed,
        event.is_final(),
        event_post(pre, s, event, post, t, actions),
    ensures
        t.closed,
        t.sender == s.sender,
        t.current_user == s.current_user,
        post == cleanup_state(pre, s.current_user),
{
}

/// A session gets a user by a login alone: an event after which an open
/// session has another user than before is a `login` line, and the user is
/// the one that the line names.
pub proof fn law_login_is_the_only_way_in(
    pre: UserManagerView,
    s: SessionView,
    event: EventView,
    post: UserManagerView,
    t: SessionView,
    actions: Seq<ActionView>,
)
    requires
        event_post(pre, s, event, post, t, actions),
        t.current_user != s.current_user,
    ensures
        event matches EventView::Text(line) && command_of(args_of(line)) matches Some(
            CommandView::Login { name, password },
        ) && t.current_user == Some(name) && pre.accepts(name, password) && actions
            == crate::command_handler::reply("Login Successful"@),
{
}

/// A session that has a user keeps having one: no event logs a user out.
pub proof fn law_no_logout(
    pre: UserManagerView,
    s: SessionView,
    event: EventView,
    post: UserManagerView,
    t: SessionView,
    actions: Seq<ActionView>,
)
    requires
        event_post(pre, s, event, post, t, actions),
        s.current_user is Some,
    ensures
        t.current_user is Some,
        s.state() == SessionState::Authenticated ==> t.state() != SessionState::Unauthenticated,
{
}

/// No event changes which outbound queue is the session's own.
pub proof fn law_own_queue_is_fixed(
    pre: UserManagerView,
    s: SessionView,
    event: EventView,
    post: UserManagerView,
    t: SessionView,
    actions: Seq<ActionView>,
)
    requires
        event_post(pre, s, event, post, t, actions),
    ensures
        t.sender == s.sender,
{
}

/// A transfer is answered once, when it ends: a chunk that is relayed
/// brings no status line, the end of the transfer exactly one.
pub proof fn law_transfer_is_answered_once(sink: u64, frame: EventView, status: Seq<char>)
    ensures
        status_count(transfer_end(sink, status)) == 1,
        status_count(relay_actions(sink, frame)) == (if frame is Binary {
            0nat
        } else {
            1nat
        }),
{
    reveal_with_fuel(status_count, 3);
    let end = transfer_end(sink, status);
    assert(end.drop_last() == seq![end[0]]);
    assert(end.drop_last().drop_last().len() == 0);
    let sent = transfer_end(sink, "File sent successfully"@);
    assert(sent.drop_last() == seq![sent[0]]);
    assert(sent.drop_last().drop_last().len() == 0);
    if frame is Binary {
        let one = relay_actions(sink, frame);
        assert(one.drop_last().len() == 0);
    }
}

} // verus!
