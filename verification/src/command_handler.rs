//! What each command does: the change to the registry and the actions that
//! the session's driver performs.

use vstd::prelude::*;
use vstd::utf8::encode_utf8;
use crate::action::{
    action_views, auth_error_text, chat_text, direct_text, filename_text, glue, glue3,
    has_joined_text, has_left_text, join_failed_text, joined_text, left_text, nothing, notice,
    only, push_action, send_notice, send_response, start_failed_text, started_text, Action,
    ActionView,
};
use crate::command::{args_of, command_of, parse_command, Command, CommandView};
use crate::error::ChatError;
use crate::names::with_name;
use crate::password::digest_verdict;
use crate::session::{Session, SessionView};
use crate::table::TableView;
use crate::user_manager::{opt_text, User, UserManager, UserManagerView, UserView};
use crate::words::{join_from, join_words, starts_with};

verus! {

/// The one action that answers the session's own peer with `text`.
pub open spec fn reply(text: Seq<char>) -> Seq<ActionView> {
    seq![ActionView::Respond(text)]
}

/// `text` on the queue of every member but `skip` that is online, in the
/// members' order.
pub open spec fn notifications(
    onlines: TableView<u64>,
    members: Seq<Seq<char>>,
    skip: Seq<char>,
    text: Seq<char>,
) -> Seq<ActionView>
    decreases members.len(),
{
    if members.len() == 0 {
        Seq::empty()
    } else {
        let before = notifications(onlines, members.drop_last(), skip, text);
        let member = members.last();
        if member != skip && onlines.has(member) {
            before.push(notice(onlines.get(member)->0, text))
        } else {
            before
        }
    }
}

/// `text` on the queue of each of `names` that is online, in the order of
/// `names`; a name that occurs twice is served twice.
pub open spec fn deliveries(
    onlines: TableView<u64>,
    names: Seq<Seq<char>>,
    text: Seq<char>,
) -> Seq<ActionView>
    decreases names.len(),
{
    if names.len() == 0 {
        Seq::empty()
    } else {
        let before = deliveries(onlines, names.drop_last(), text);
        match onlines.get(names.last()) {
            Some(sink) => before.push(notice(sink, text)),
            None => before,
        }
    }
}

/// Those of `names` that are not online, in the order of `names`.
pub open spec fn offline_names(onlines: TableView<u64>, names: Seq<Seq<char>>) -> Seq<Seq<char>>
    decreases names.len(),
{
    if names.len() == 0 {
        Seq::empty()
    } else {
        let before = offline_names(onlines, names.drop_last());
        match onlines.get(names.last()) {
            Some(_) => before,
            None => before.push(names.last()),
        }
    }
}

/// The status of a message to several recipients: that it was sent, or the
/// names of the recipients that are not online.
pub open spec fn multiple_status(offline: Seq<Seq<char>>) -> Seq<char> {
    if offline.len() == 0 {
        "Successfully Sent"@
    } else {
        "Users not online: "@ + join_words(offline)
    }
}

/// The actions of a registration: what `handle_register` may come to.
pub open spec fn register_post(
    pre: UserManagerView,
    name: Seq<char>,
    password: Seq<char>,
    post: UserManagerView,
    actions: Seq<ActionView>,
) -> bool {
    let refused = reply("Registration error, it is possible the username is already in use"@);
    if pre.users.has(name) {
        post == pre && actions == refused
    } else {
        ||| post == pre && actions == refused
        ||| {
            &&& post.users.get(name) is Some
            &&& post == pre.registered(name, post.users.get(name)->0.password)
            &&& post.accepts(name, password)
            &&& actions == seq![
                ActionView::Persist {
                    file: pre.file,
                    users: post.users.values,
                    saved: "Registration successful"@,
                    failed: "Registration error, it is possible the username is already in use"@,
                },
            ]
        }
    }
}

/// The registry after a login that came to `verdict`.
pub open spec fn login_state(
    pre: UserManagerView,
    name: Seq<char>,
    sender: u64,
    verdict: Option<bool>,
) -> UserManagerView {
    if pre.users.has(name) && verdict == Some(true) {
        pre.with_online(name, sender)
    } else {
        pre
    }
}

/// The logged-in user after a login that came to `verdict`.
pub open spec fn login_user(
    pre: UserManagerView,
    user: Option<Seq<char>>,
    name: Seq<char>,
    verdict: Option<bool>,
) -> Option<Seq<char>> {
    if pre.users.has(name) && verdict == Some(true) {
        Some(name)
    } else {
        user
    }
}

/// What a login may come to.
pub open spec fn login_post(
    pre: UserManagerView,
    user: Option<Seq<char>>,
    name: Seq<char>,
    password: Seq<char>,
    sender: u64,
    post: UserManagerView,
    post_user: Option<Seq<char>>,
    actions: Seq<ActionView>,
) -> bool {
    match pre.users.get(name) {
        None => post == pre && post_user == user && actions == reply("User does not exist"@),
        Some(u) => {
            let verdict = digest_verdict(password, u.password);
            &&& post == login_state(pre, name, sender, verdict)
            &&& post_user == login_user(pre, user, name, verdict)
            &&& match verdict {
                Some(true) => actions == reply("Login Successful"@),
                Some(false) => actions == reply("Wrong Password"@),
                None => {
                    &&& actions.len() == 1
                    &&& actions[0] matches ActionView::Respond(text)
                    &&& starts_with(text, "Authentication error: "@)
                },
            }
        },
    }
}

/// The actions of a direct message.
pub open spec fn text_actions(
    pre: UserManagerView,
    user: Option<Seq<char>>,
    name: Seq<char>,
    content: Seq<char>,
) -> Seq<ActionView> {
    match user {
        None => reply("Login first"@),
        Some(cur) => match pre.onlines.get(name) {
            Some(sink) => seq![
                notice(sink, direct_text(cur, content)),
                ActionView::Respond("Successfully Sent"@),
            ],
            None => reply("User is not online"@),
        },
    }
}

/// The actions of a message to several recipients.
pub open spec fn text_multiple_actions(
    pre: UserManagerView,
    user: Option<Seq<char>>,
    names: Seq<Seq<char>>,
    content: Seq<char>,
) -> Seq<ActionView> {
    match user {
        None => reply("Login first"@),
        Some(cur) => deliveries(pre.onlines, names, direct_text(cur, content)).push(
            ActionView::Respond(multiple_status(offline_names(pre.onlines, names))),
        ),
    }
}

/// The registry after `startchat`.
pub open spec fn start_chat_state(
    pre: UserManagerView,
    user: Option<Seq<char>>,
    chat: Seq<char>,
) -> UserManagerView {
    match user {
        None => pre,
        Some(cur) => if pre.users.has(cur) {
            pre.with_chat(chat, cur).with_current_chat(cur, Some(chat))
        } else {
            pre.with_chat(chat, cur)
        },
    }
}

/// The actions of `startchat`.
pub open spec fn start_chat_actions(
    pre: UserManagerView,
    user: Option<Seq<char>>,
    chat: Seq<char>,
) -> Seq<ActionView> {
    match user {
        None => reply("Login first"@),
        Some(cur) => if pre.users.has(cur) {
            reply(started_text(chat))
        } else {
            reply(start_failed_text(chat))
        },
    }
}

/// The registry after `joinchat`.
pub open spec fn join_chat_state(
    pre: UserManagerView,
    user: Option<Seq<char>>,
    chat: Seq<char>,
) -> UserManagerView {
    match user {
        None => pre,
        Some(cur) => if !pre.chats.has(chat) {
            pre
        } else if pre.users.has(cur) {
            pre.with_member(chat, cur).with_current_chat(cur, Some(chat))
        } else {
            pre.with_member(chat, cur)
        },
    }
}

/// The actions of `joinchat`.
pub open spec fn join_chat_actions(
    pre: UserManagerView,
    user: Option<Seq<char>>,
    chat: Seq<char>,
) -> Seq<ActionView> {
    match user {
        None => reply("Login first"@),
        Some(cur) => match pre.chats.get(chat) {
            None => reply("Chat not found"@),
            Some(members) => reply(
                if pre.users.has(cur) {
                    joined_text(chat)
                } else {
                    join_failed_text(chat)
                },
            ) + notifications(
                pre.onlines,
                with_name(members, cur),
                cur,
                has_joined_text(cur, chat),
            ),
        },
    }
}

/// The actions of `message`.
pub open spec fn message_chat_actions(
    pre: UserManagerView,
    user: Option<Seq<char>>,
    content: Seq<char>,
) -> Seq<ActionView> {
    match user {
        None => reply("Login first"@),
        Some(cur) => match pre.current_chat(cur) {
            None => reply("Join or start a chat first"@),
            Some(chat) => match pre.chats.get(chat) {
                None => reply("Chat not found"@),
                Some(members) => notifications(
                    pre.onlines,
                    members,
                    cur,
                    chat_text(cur, content),
                ).push(ActionView::Respond("Successfully Sent"@)),
            },
        },
    }
}

/// The registry after `quitchat`: the user is no member of the room any
/// more, and where the room was the user's current chat, the user has no
/// current chat.
pub open spec fn quit_chat_state(
    pre: UserManagerView,
    user: Option<Seq<char>>,
    chat: Seq<char>,
) -> UserManagerView {
    match user {
        None => pre,
        Some(cur) => match pre.chats.get(chat) {
            None => pre,
            Some(members) => if !members.contains(cur) {
                pre
            } else if pre.current_chat(cur) == Some(chat) {
                pre.without_member(chat, cur).with_current_chat(cur, None)
            } else {
                pre.without_member(chat, cur)
            },
        },
    }
}

/// The actions of `quitchat`.
pub open spec fn quit_chat_actions(
    pre: UserManagerView,
    user: Option<Seq<char>>,
    chat: Seq<char>,
) -> Seq<ActionView> {
    match user {
        None => reply("Login first"@),
        Some(cur) => match pre.chats.get(chat) {
            None => reply("Chat not found"@),
            Some(members) => if members.contains(cur) {
                reply(left_text(chat)) + notifications(
                    pre.onlines,
                    members,
                    cur,
                    has_left_text(cur),
                )
            } else {
                reply("You are not in this chat"@)
            },
        },
    }
}

/// The queue that a transfer announced by `file` relays to.
pub open spec fn file_relay(
    pre: UserManagerView,
    user: Option<Seq<char>>,
    relay: Option<u64>,
    recipient: Seq<char>,
) -> Option<u64> {
    if user is Some && pre.onlines.has(recipient) {
        pre.onlines.get(recipient)
    } else {
        relay
    }
}

/// The actions of `file`.
pub open spec fn file_actions(
    pre: UserManagerView,
    user: Option<Seq<char>>,
    recipient: Seq<char>,
    path: Seq<char>,
) -> Seq<ActionView> {
    match user {
        None => reply("Login first"@),
        Some(_) => match pre.onlines.get(recipient) {
            Some(sink) => seq![notice(sink, filename_text(path))],
            None => reply("User is not online"@),
        },
    }
}

/// The registry after the session of `user` has ended.
pub open spec fn cleanup_state(pre: UserManagerView, user: Option<Seq<char>>) -> UserManagerView {
    match user {
        None => pre,
        Some(cur) => pre.without_online(cur),
    }
}

/// The answer to a registration, once the registry has taken or refused it.
pub fn register_outcome(user_manager: &UserManager, added: &Result<(), ChatError>) -> (out: Vec<
    Action,
>)
    requires
        user_manager.wf(),
    ensures
        action_views(out@) == (if added is Ok {
            seq![
                ActionView::Persist {
                    file: user_manager@.file,
                    users: user_manager@.users.values,
                    saved: "Registration successful"@,
                    failed: "Registration error, it is possible the username is already in use"@,
                },
            ]
        } else {
            reply("Registration error, it is possible the username is already in use"@)
        }),
{
    let failed = "Registration error, it is possible the username is already in use";
    match added {
        Ok(_) => only(
            Action::Persist {
                file: user_manager.file().clone(),
                users: user_manager.save(),
                saved: "Registration successful".to_owned(),
                failed: failed.to_owned(),
            },
        ),
        Err(_) => only(send_response(failed)),
    }
}

/// Registers a new user and answers with the outcome; the user table is to
/// be written out before the answer goes out.
pub fn handle_register(user_manager: &mut UserManager, name: String, password: String) -> (out:
    Vec<Action>)
    requires
        old(user_manager).wf(),
    ensures
        final(user_manager).wf(),
        register_post(
            old(user_manager)@,
            name@,
            password@,
            final(user_manager)@,
            action_views(out@),
        ),
{
    let user = User { name, password, current_chat: None };
    let added = user_manager.add(&user);
    register_outcome(user_manager, &added)
}

/// What a login comes to, once the password has been checked.
pub fn login_outcome(
    user_manager: &mut UserManager,
    checked: Result<bool, ChatError>,
    name: String,
    current_user: &mut Option<String>,
    sender: u64,
) -> (out: Vec<Action>)
    requires
        old(user_manager).wf(),
    ensures
        final(user_manager).wf(),
        match checked {
            Ok(true) => {
                &&& final(user_manager)@ == old(user_manager)@.with_online(name@, sender)
                &&& opt_text(*final(current_user)) == Some(name@)
                &&& action_views(out@) == reply("Login Successful"@)
            },
            Ok(false) => {
                &&& final(user_manager)@ == old(user_manager)@
                &&& opt_text(*final(current_user)) == opt_text(*old(current_user))
                &&& action_views(out@) == reply("Wrong Password"@)
            },
            Err(e) => {
                &&& final(user_manager)@ == old(user_manager)@
                &&& opt_text(*final(current_user)) == opt_text(*old(current_user))
                &&& action_views(out@) == reply(auth_error_text(e@.message()))
            },
        },
{
    match checked {
        Ok(true) => {
            *current_user = Some(name.clone());
            user_manager.set_online(name, sender);
            only(send_response("Login Successful"))
        },
        Ok(false) => only(send_response("Wrong Password")),
        Err(e) => {
            let text = glue("Authentication error: ", e.message().as_str());
            only(send_response(text.as_str()))
        },
    }
}

/// Logs a user in: on the right password the session is that user's and the
/// user is online through `sender`.
pub fn handle_login(
    user_manager: &mut UserManager,
    name: String,
    password: String,
    current_user: &mut Option<String>,
    sender: u64,
) -> (out: Vec<Action>)
    requires
        old(user_manager).wf(),
    ensures
        final(user_manager).wf(),
        login_post(
            old(user_manager)@,
            opt_text(*old(current_user)),
            name@,
            password@,
            sender,
            final(user_manager)@,
            opt_text(*final(current_user)),
            action_views(out@),
        ),
{
    if user_manager.has_user(name.as_str()) {
        let checked = user_manager.authenticate(name.as_str(), password.as_str());
        proof {
            if checked is Err {
                let text = auth_error_text(checked->Err_0@.message());
                assert(text.take("Authentication error: "@.len() as int)
                    == "Authentication error: "@);
            }
        }
        login_outcome(user_manager, checked, name, current_user, sender)
    } else {
        only(send_response("User does not exist"))
    }
}

/// Sends `content` to the user `name`, if the sender is logged in and the
/// recipient online.
pub fn handle_text_message(
    user_manager: &UserManager,
    current_user: &Option<String>,
    name: String,
    content: String,
) -> (out: Vec<Action>)
    requires
        user_manager.wf(),
    ensures
        action_views(out@) == text_actions(
            user_manager@,
            opt_text(*current_user),
            name@,
            content@,
        ),
{
    let cur = match current_user {
        Some(user) => user,
        None => {
            return only(send_response("Login first"));
        },
    };
    match user_manager.lookup(name.as_str()) {
        Some(sink) => {
            let mut msg = glue3("from ", cur.as_str(), ": ");
            msg.append(content.as_str());
            let mut out = only(send_notice(sink, msg.as_str()));
            push_action(&mut out, send_response("Successfully Sent"));
            assert(action_views(out@) == seq![
                notice(sink, direct_text(cur@, content@)),
                ActionView::Respond("Successfully Sent"@),
            ]);
            out
        },
        None => only(send_response("User is not online")),
    }
}

/// Sends `content` to each of `names` that is online and answers the sender
/// once: that the message was sent, or which recipients are not online.
pub fn handle_text_multiple(
    user_manager: &UserManager,
    current_user: &Option<String>,
    names: Vec<String>,
    content: String,
) -> (out: Vec<Action>)
    requires
        user_manager.wf(),
    ensures
        action_views(out@) == text_multiple_actions(
            user_manager@,
            opt_text(*current_user),
            names.deep_view(),
            content@,
        ),
{
    let cur = match current_user {
        Some(user) => user,
        None => {
            return only(send_response("Login first"));
        },
    };
    let mut msg = glue3("from ", cur.as_str(), ": ");
    msg.append(content.as_str());
    let mut out = nothing();
    let mut missing: Vec<String> = Vec::new();
    let mut i: usize = 0;
    assert(missing.deep_view() == Seq::<Seq<char>>::empty());
    while i < names.len()
        invariant
            i <= names.len(),
            user_manager.wf(),
            msg@ == direct_text(cur@, content@),
            action_views(out@) == deliveries(
                user_manager@.onlines,
                names.deep_view().take(i as int),
                msg@,
            ),
            missing.deep_view() == offline_names(
                user_manager@.onlines,
                names.deep_view().take(i as int),
            ),
        decreases names.len() - i,
    {
        let name = &names[i];
        proof {
            let next = names.deep_view().take(i + 1);
            assert(next.drop_last() == names.deep_view().take(i as int));
            assert(next.last() == name@);
        }
        match user_manager.lookup(name.as_str()) {
            Some(sink) => {
                push_action(&mut out, send_notice(sink, msg.as_str()));
            },
            None => {
                let ghost before = missing.deep_view();
                missing.push(name.clone());
                assert(missing.deep_view() == before.push(name@));
            },
        }
        i += 1;
    }
    assert(names.deep_view().take(i as int) == names.deep_view());
    let status = if missing.len() == 0 {
        "Successfully Sent".to_owned()
    } else {
        assert(missing.deep_view().skip(0) == missing.deep_view());
        glue("Users not online: ", join_from(&missing, 0).as_str())
    };
    push_action(&mut out, send_response(status.as_str()));
    out
}

/// `message` on the queue of every one of `chat_users` but `sender_name`
/// that is online.
pub fn notify_chat_users(
    user_manager: &UserManager,
    sender_name: &str,
    chat_users: &Vec<String>,
    message: &str,
) -> (out: Vec<Action>)
    requires
        user_manager.wf(),
    ensures
        action_views(out@) == notifications(
            user_manager@.onlines,
            chat_users.deep_view(),
            sender_name@,
            message@,
        ),
{
    let mut out = nothing();
    let mut i: usize = 0;
    while i < chat_users.len()
        invariant
            i <= chat_users.len(),
            user_manager.wf(),
            action_views(out@) == notifications(
                user_manager@.onlines,
                chat_users.deep_view().take(i as int),
                sender_name@,
                message@,
            ),
        decreases chat_users.len() - i,
    {
        let user = &chat_users[i];
        proof {
            let next = chat_users.deep_view().take(i + 1);
            assert(next.drop_last() == chat_users.deep_view().take(i as int));
            assert(next.last() == user@);
        }
        if !crate::words::is_text(user.as_str(), sender_name) {
            match user_manager.lookup(user.as_str()) {
                Some(sink) => {
                    push_action(&mut out, send_notice(sink, message));
                },
                None => {},
            }
        }
        i += 1;
    }
    assert(chat_users.deep_view().take(i as int) == chat_users.deep_view());
    out
}

/// Opens the chat room `name` with the sender as its only member and makes
/// it the sender's current chat.
pub fn handle_start_chat(
    user_manager: &mut UserManager,
    current_user: &Option<String>,
    name: String,
) -> (out: Vec<Action>)
    requires
        old(user_manager).wf(),
    ensures
        final(user_manager).wf(),
        final(user_manager)@ == start_chat_state(
            old(user_manager)@,
            opt_text(*current_user),
            name@,
        ),
        action_views(out@) == start_chat_actions(
            old(user_manager)@,
            opt_text(*current_user),
            name@,
        ),
{
    let cur = match current_user {
        Some(user) => user,
        None => {
            return only(send_response("Login first"));
        },
    };
    user_manager.create_chat(name.clone(), cur.as_str());
    let message = match user_manager.set_current_chat(cur.as_str(), Some(name.clone())) {
        Ok(_) => glue3("Chat '", name.as_str(), "' started successfully"),
        Err(_) => glue3("Failed to start chat '", name.as_str(), "'"),
    };
    only(send_response(message.as_str()))
}

/// Adds the sender to the chat room `name`, makes it the sender's current
/// chat and tells the other members.
pub fn handle_join_chat(user_manager: &mut UserManager, cur: &Option<String>, name: String) -> (out:
    Vec<Action>)
    requires
        old(user_manager).wf(),
    ensures
        final(user_manager).wf(),
        final(user_manager)@ == join_chat_state(old(user_manager)@, opt_text(*cur), name@),
        action_views(out@) == join_chat_actions(old(user_manager)@, opt_text(*cur), name@),
{
    let joining_user = match cur {
        Some(user) => user,
        None => {
            return only(send_response("Login first"));
        },
    };
    let chat_users = match user_manager.join_chat(name.as_str(), joining_user.as_str()) {
        Ok(members) => members,
        Err(_) => {
            return only(send_response("Chat not found"));
        },
    };
    let message = match user_manager.set_current_chat(joining_user.as_str(), Some(name.clone())) {
        Ok(_) => glue3("Joined chat '", name.as_str(), "'"),
        Err(_) => glue3("Failed to join chat '", name.as_str(), "'"),
    };
    let mut out = only(send_response(message.as_str()));
    let mut message = glue3("User '", joining_user.as_str(), "' has joined the chat '");
    message.append(name.as_str());
    message.append("'");
    let mut notices = notify_chat_users(
        user_manager,
        joining_user.as_str(),
        &chat_users,
        message.as_str(),
    );
    append_actions(&mut out, &mut notices);
    out
}

/// Moves the actions of `more` to the end of `list`.
pub fn append_actions(list: &mut Vec<Action>, more: &mut Vec<Action>)
    ensures
        action_views(final(list)@) == action_views(old(list)@) + action_views(old(more)@),
        final(more)@.len() == 0,
{
    list.append(more);
    assert(action_views(list@) == action_views(old(list)@) + action_views(old(more)@));
}

/// Sends `content` to the other members of the sender's current chat and
/// answers the sender that it was sent.
pub fn handle_message_chat(user_manager: &UserManager, cur: &Option<String>, content: String) -> (out:
    Vec<Action>)
    requires
        user_manager.wf(),
    ensures
        action_views(out@) == message_chat_actions(user_manager@, opt_text(*cur), content@),
{
    let sender_name = match cur {
        Some(name) => name,
        None => {
            return only(send_response("Login first"));
        },
    };
    let chat_name = match user_manager.get_current_chat(sender_name.as_str()) {
        Some(name) => name,
        None => {
            return only(send_response("Join or start a chat first"));
        },
    };
    let chat_users = match user_manager.chat_members(chat_name.as_str()) {
        Some(users) => users,
        None => {
            return only(send_response("Chat not found"));
        },
    };
    let message = glue3(sender_name.as_str(), ": ", content.as_str());
    let mut out = notify_chat_users(
        user_manager,
        sender_name.as_str(),
        &chat_users,
        message.as_str(),
    );
    push_action(&mut out, send_response("Successfully Sent"));
    out
}

/// Takes the sender out of the chat room `name`, clears the sender's
/// current chat where it was that room, and tells the members that remain.
pub fn handle_quit_chat(user_manager: &mut UserManager, cur: &Option<String>, name: String) -> (out:
    Vec<Action>)
    requires
        old(user_manager).wf(),
    ensures
        final(user_manager).wf(),
        final(user_manager)@ == quit_chat_state(old(user_manager)@, opt_text(*cur), name@),
        action_views(out@) == quit_chat_actions(old(user_manager)@, opt_text(*cur), name@),
{
    let quitting_user = match cur {
        Some(user) => user,
        None => {
            return only(send_response("Login first"));
        },
    };
    let chat_users = match user_manager.quit_chat(name.as_str(), quitting_user.as_str()) {
        Ok(members) => members,
        Err(ChatError::NotFound) => {
            return only(send_response("Chat not found"));
        },
        Err(_) => {
            return only(send_response("You are not in this chat"));
        },
    };
    let leaves_current = match user_manager.get_current_chat(quitting_user.as_str()) {
        Some(current) => current == name,
        None => false,
    };
    if leaves_current {
        let _ = user_manager.set_current_chat(quitting_user.as_str(), None);
    }
    let text = glue3("You have left the chat '", name.as_str(), "'");
    let mut out = only(send_response(text.as_str()));
    let message = glue3("User '", quitting_user.as_str(), "' has left the chat");
    let mut notices = notify_chat_users(
        user_manager,
        quitting_user.as_str(),
        &chat_users,
        message.as_str(),
    );
    append_actions(&mut out, &mut notices);
    out
}

/// Starts a file transfer to the user `filename`: announces `file_path` to
/// the recipient, whose queue the session then relays the chunks to.
pub fn handle_file_message(
    user_manager: &UserManager,
    current_user: &Option<String>,
    relay: &mut Option<u64>,
    filename: String,
    file_path: String,
) -> (out: Vec<Action>)
    requires
        user_manager.wf(),
    ensures
        *final(relay) == file_relay(
            user_manager@,
            opt_text(*current_user),
            *old(relay),
            filename@,
        ),
        action_views(out@) == file_actions(
            user_manager@,
            opt_text(*current_user),
            filename@,
            file_path@,
        ),
{
    if current_user.is_none() {
        return only(send_response("Login first"));
    }
    match user_manager.lookup(filename.as_str()) {
        Some(sink) => {
            *relay = Some(sink);
            let text = glue("Filename: ", file_path.as_str());
            only(send_notice(sink, text.as_str()))
        },
        None => only(send_response("User is not online")),
    }
}

/// Takes the user of a session that has ended out of the online table.
pub fn cleanup(user_manager: &mut UserManager, current_user: &Option<String>)
    requires
        old(user_manager).wf(),
    ensures
        final(user_manager).wf(),
        final(user_manager)@ == cleanup_state(old(user_manager)@, opt_text(*current_user)),
{
    match current_user {
        Some(name) => {
            user_manager.set_offline(name.as_str());
        },
        None => {},
    }
}

/// What handling one line of a session may come to.
pub open spec fn command_post(
    pre: UserManagerView,
    s: SessionView,
    cmd: Option<CommandView>,
    post: UserManagerView,
    t: SessionView,
    actions: Seq<ActionView>,
) -> bool {
    match cmd {
        None => post == pre && t == s && actions == reply("Unknown command"@),
        Some(CommandView::Register { name, password }) => {
            &&& t == s
            &&& register_post(pre, name, password, post, actions)
        },
        Some(CommandView::Login { name, password }) => {
            &&& t == (SessionView { current_user: t.current_user, ..s })
            &&& login_post(
                pre,
                s.current_user,
                name,
                password,
                s.sender,
                post,
                t.current_user,
                actions,
            )
        },
        Some(CommandView::Text { name, content }) => {
            &&& post == pre
            &&& t == s
            &&& actions == text_actions(pre, s.current_user, name, content)
        },
        Some(CommandView::TextMultiple { names, content }) => {
            &&& post == pre
            &&& t == s
            &&& actions == text_multiple_actions(pre, s.current_user, names, content)
        },
        Some(CommandView::StartChat { name }) => {
            &&& post == start_chat_state(pre, s.current_user, name)
            &&& t == s
            &&& actions == start_chat_actions(pre, s.current_user, name)
        },
        Some(CommandView::JoinChat { name }) => {
            &&& post == join_chat_state(pre, s.current_user, name)
            &&& t == s
            &&& actions == join_chat_actions(pre, s.current_user, name)
        },
        Some(CommandView::MessageChat { content }) => {
            &&& post == pre
            &&& t == s
            &&& actions == message_chat_actions(pre, s.current_user, content)
        },
        Some(CommandView::QuitChat { name }) => {
            &&& post == quit_chat_state(pre, s.current_user, name)
            &&& t == s
            &&& actions == quit_chat_actions(pre, s.current_user, name)
        },
        Some(CommandView::File { name, file_path }) => {
            &&& post == pre
            &&& t == (SessionView {
                relay: file_relay(pre, s.current_user, s.relay, name),
                ..s
            })
            &&& actions == file_actions(pre, s.current_user, name, file_path)
        },
        Some(CommandView::Quit) => {
            &&& post == cleanup_state(pre, s.current_user)
            &&& t == (SessionView { closed: true, ..s })
            &&& actions == reply("Session closed"@)
        },
    }
}

/// Reads one line that the session's peer sent and does what it asks.
pub fn handle_command(user_manager: &mut UserManager, session: &mut Session, message: &str) -> (out:
    Vec<Action>)
    requires
        old(user_manager).wf(),
    ensures
        final(user_manager).wf(),
        command_post(
            old(user_manager)@,
            old(session)@,
            command_of(args_of(message@)),
            final(user_manager)@,
            final(session)@,
            action_views(out@),
        ),
{
    match parse_command(message) {
        Some(cmd) => match cmd {
            Command::Register { name, password } => handle_register(user_manager, name, password),
            Command::Login { name, password } => handle_login(
                user_manager,
                name,
                password,
                &mut session.current_user,
                session.sender,
            ),
            Command::Text { name, content } => handle_text_message(
                user_manager,
                &session.current_user,
                name,
                content,
            ),
            Command::TextMultiple { names, content } => handle_text_multiple(
                user_manager,
                &session.current_user,
                names,
                content,
            ),
            Command::StartChat { name } => handle_start_chat(
                user_manager,
                &session.current_user,
                name,
            ),
            Command::JoinChat { name } => handle_join_chat(
                user_manager,
                &session.current_user,
                name,
            ),
            Command::MessageChat { content } => handle_message_chat(
                user_manager,
                &session.current_user,
                content,
            ),
            Command::QuitChat { name } => handle_quit_chat(
                user_manager,
                &session.current_user,
                name,
            ),
            Command::File { name, file_path } => handle_file_message(
                user_manager,
                &session.current_user,
                &mut session.relay,
                name,
                file_path,
            ),
            Command::Quit => {
                cleanup(user_manager, &session.current_user);
                session.closed = true;
                only(send_response("Session closed"))
            },
        },
        None => only(send_response("Unknown command")),
    }
}

/// The payloads that `actions` put on the queue `sink`, in order.
pub open spec fn delivered_to(actions: Seq<ActionView>, sink: u64) -> Seq<Seq<u8>>
    decreases actions.len(),
{
    if actions.len() == 0 {
        Seq::empty()
    } else {
        let before = delivered_to(actions.drop_last(), sink);
        match actions.last() {
            ActionView::Deliver { sink: to, payload } => if to == sink {
                before.push(payload)
            } else {
                before
            },
            ActionView::Forward { sink: to, chunk } => if to == sink {
                before.push(chunk)
            } else {
                before
            },
            _ => before,
        }
    }
}

/// Whether `cmd` is one of the commands that only a logged-in user may give.
pub open spec fn needs_login(cmd: CommandView) -> bool {
    !(cmd is Register || cmd is Login || cmd is Quit)
}

/// A direct message changes neither the registry nor the session.  Sent to
/// a name that is offline it is answered with "User is not online" and
/// nothing else happens; sent to a name that is online it puts exactly one
/// message on that user's queue and none on any other queue.
pub proof fn law_direct_message(
    pre: UserManagerView,
    s: SessionView,
    name: Seq<char>,
    content: Seq<char>,
    post: UserManagerView,
    t: SessionView,
    actions: Seq<ActionView>,
)
    requires
        command_post(pre, s, Some(CommandView::Text { name, content }), post, t, actions),
    ensures
        post == pre,
        t == s,
        s.current_user matches Some(cur) ==> match pre.onlines.get(name) {
            None => actions == reply("User is not online"@),
            Some(sink) => {
                &&& delivered_to(actions, sink) == seq![encode_utf8(direct_text(cur, content))]
                &&& forall|other: u64| other != sink ==> delivered_to(actions, other).len() == 0
            },
        },
{
    reveal_with_fuel(delivered_to, 3);
    if s.current_user is Some && pre.onlines.get(name) is Some {
        let sink = pre.onlines.get(name)->0;
        let first = actions.drop_last();
        assert(first == seq![actions[0]]);
        assert(first.drop_last().len() == 0);
        assert(delivered_to(first, sink) == seq![encode_utf8(
            direct_text(s.current_user->0, content),
        )]);
        assert forall|other: u64| other != sink implies delivered_to(actions, other).len()
            == 0 by {
            assert(delivered_to(first, other).len() == 0);
        }
    }
}

/// Without a login, every command but `reg`, `login` and `quit` is answered
/// with "Login first" and changes neither the registry nor the session.
pub proof fn law_login_first(
    pre: UserManagerView,
    s: SessionView,
    cmd: CommandView,
    post: UserManagerView,
    t: SessionView,
    actions: Seq<ActionView>,
)
    requires
        s.current_user is None,
        needs_login(cmd),
        command_post(pre, s, Some(cmd), post, t, actions),
    ensures
        post == pre,
        t == s,
        actions == reply("Login first"@),
{
}

/// Registration and login never put anything on another session's queue.
pub proof fn law_registration_and_login_are_private(
    pre: UserManagerView,
    s: SessionView,
    cmd: CommandView,
    post: UserManagerView,
    t: SessionView,
    actions: Seq<ActionView>,
    sink: u64,
)
    requires
        cmd is Register || cmd is Login,
        command_post(pre, s, Some(cmd), post, t, actions),
    ensures
        actions.len() == 1,
        delivered_to(actions, sink).len() == 0,
{
    reveal_with_fuel(delivered_to, 2);
    assert(actions.drop_last().len() == 0);
}

/// A notification of a chat room reaches the others and nobody else: each
/// action is `text` on the queue of a member that is online and is not the
/// one left out, every such member's queue gets it, and there are no more
/// actions than members.
pub proof fn law_notifications_reach_the_others(
    onlines: TableView<u64>,
    members: Seq<Seq<char>>,
    skip: Seq<char>,
    text: Seq<char>,
)
    ensures
        notifications(onlines, members, skip, text).len() <= members.len(),
        forall|i: int|
            0 <= i < notifications(onlines, members, skip, text).len() ==> exists|m: Seq<char>|
                members.contains(m) && m != skip && onlines.get(m) is Some && (
                #[trigger] notifications(onlines, members, skip, text)[i]) == notice(
                    onlines.get(m)->0,
                    text,
                ),
        forall|m: Seq<char>|
            members.contains(m) && m != skip && onlines.has(m) ==> notifications(
                onlines,
                members,
                skip,
                text,
            ).contains(#[trigger] notice(onlines.get(m)->0, text)),
    decreases members.len(),
{
    let all = notifications(onlines, members, skip, text);
    if members.len() > 0 {
        let rest = members.drop_last();
        let last = members.last();
        let before = notifications(onlines, rest, skip, text);
        law_notifications_reach_the_others(onlines, rest, skip, text);
        assert forall|m: Seq<char>| rest.contains(m) implies members.contains(m) by {
            let i = choose|i: int| 0 <= i < rest.len() && rest[i] == m;
            assert(members[i] == m);
        }
        assert(members.contains(last)) by {
            assert(members[members.len() - 1] == last);
        }
        assert forall|i: int| 0 <= i < all.len() implies exists|m: Seq<char>|
            members.contains(m) && m != skip && onlines.get(m) is Some && (#[trigger] all[i])
                == notice(onlines.get(m)->0, text) by {
            if i < before.len() {
                assert(all[i] == before[i]);
                let m = choose|m: Seq<char>|
                    rest.contains(m) && m != skip && onlines.get(m) is Some && before[i] == notice(
                        onlines.get(m)->0,
                        text,
                    );
                assert(members.contains(m));
            } else {
                assert(all[i] == notice(onlines.get(last)->0, text));
            }
        }
        assert forall|m: Seq<char>|
            members.contains(m) && m != skip && onlines.has(m) implies all.contains(
            #[trigger] notice(onlines.get(m)->0, text),
        ) by {
            let i = choose|i: int| 0 <= i < members.len() && members[i] == m;
            if i < rest.len() {
                assert(rest[i] == m);
                assert(before.contains(notice(onlines.get(m)->0, text)));
                let k = choose|k: int|
                    0 <= k < before.len() && before[k] == notice(onlines.get(m)->0, text);
                assert(all[k] == before[k]);
            } else {
                assert(m == last);
                assert(all[all.len() - 1] == notice(onlines.get(m)->0, text));
            }
        }
    }
}

/// The number of status lines that `actions` send to the session's own
/// peer: one for each `Respond`, and one for each `Persist`, which sends one
/// of its two lines.
pub open spec fn status_count(actions: Seq<ActionView>) -> nat
    decreases actions.len(),
{
    if actions.len() == 0 {
        0
    } else {
        let before = status_count(actions.drop_last());
        if actions.last() is Respond || actions.last() is Persist {
            before + 1
        } else {
            before
        }
    }
}

/// Whether `cmd` starts a file transfer: a `file` line of a logged-in user
/// to a recipient that is online.
pub open spec fn starts_transfer(pre: UserManagerView, s: SessionView, cmd: CommandView) -> bool {
    cmd matches CommandView::File { name, file_path } && s.current_user is Some
        && pre.onlines.has(name)
}

/// The status lines of two lists in a row are those of the one and those of
/// the other.
pub proof fn lemma_status_count_add(a: Seq<ActionView>, b: Seq<ActionView>)
    ensures
        status_count(a + b) == status_count(a) + status_count(b),
    decreases b.len(),
{
    if b.len() == 0 {
        assert(a + b == a);
    } else {
        assert((a + b).drop_last() == a + b.drop_last());
        assert((a + b).last() == b.last());
        lemma_status_count_add(a, b.drop_last());
    }
}

/// One action alone is one status line if it is a status, none if not.
pub proof fn lemma_status_count_one(a: ActionView)
    ensures
        status_count(seq![a]) == (if a is Respond || a is Persist {
            1nat
        } else {
            0nat
        }),
{
    assert(seq![a].drop_last().len() == 0);
    assert(seq![a].last() == a);
    reveal_with_fuel(status_count, 2);
}

/// Messages to other sessions are no status lines.
pub proof fn lemma_no_status_among_notices(
    onlines: TableView<u64>,
    names: Seq<Seq<char>>,
    skip: Seq<char>,
    text: Seq<char>,
)
    ensures
        status_count(notifications(onlines, names, skip, text)) == 0,
        status_count(deliveries(onlines, names, text)) == 0,
    decreases names.len(),
{
    if names.len() > 0 {
        lemma_no_status_among_notices(onlines, names.drop_last(), skip, text);
        let before = notifications(onlines, names.drop_last(), skip, text);
        let sent = deliveries(onlines, names.drop_last(), text);
        if onlines.get(names.last()) is Some {
            let one = notice(onlines.get(names.last())->0, text);
            assert(before.push(one).drop_last() == before);
            assert(sent.push(one).drop_last() == sent);
        }
    }
}

/// Every line that a session's peer sends is answered with exactly one
/// status line, whatever the line asks and whether or not it is a command;
/// only a `file` line that starts a transfer is answered later, when the
/// transfer ends.
pub proof fn law_one_status_per_line(
    pre: UserManagerView,
    s: SessionView,
    cmd: Option<CommandView>,
    post: UserManagerView,
    t: SessionView,
    actions: Seq<ActionView>,
)
    requires
        command_post(pre, s, cmd, post, t, actions),
    ensures
        status_count(actions) == (if cmd matches Some(c) && starts_transfer(pre, s, c) {
            0nat
        } else {
            1nat
        }),
{
    let user = s.current_user;
    if actions.len() == 1 {
        assert(actions == seq![actions[0]]);
        lemma_status_count_one(actions[0]);
    }
    match cmd {
        Some(CommandView::TextMultiple { names, content }) => {
            if user is Some {
                let sent = deliveries(pre.onlines, names, direct_text(user->0, content));
                lemma_no_status_among_notices(pre.onlines, names, user->0, direct_text(
                    user->0,
                    content,
                ));
                assert(actions.drop_last() == sent);
            }
        },
        Some(CommandView::Text { name, content }) => {
            if user is Some && pre.onlines.get(name) is Some {
                let first = seq![actions[0]];
                assert(actions.drop_last() == first);
                lemma_status_count_one(actions[0]);
            }
        },
        Some(CommandView::MessageChat { content }) => {
            if user is Some && pre.current_chat(user->0) is Some {
                let chat = pre.current_chat(user->0)->0;
                if pre.chats.get(chat) is Some {
                    let text = chat_text(user->0, content);
                    let told = notifications(pre.onlines, pre.chats.get(chat)->0, user->0, text);
                    lemma_no_status_among_notices(
                        pre.onlines,
                        pre.chats.get(chat)->0,
                        user->0,
                        text,
                    );
                    assert(actions.drop_last() == told);
                }
            }
        },
        Some(CommandView::JoinChat { name }) => {
            if user is Some && pre.chats.get(name) is Some {
                let members = with_name(pre.chats.get(name)->0, user->0);
                let text = has_joined_text(user->0, name);
                let told = notifications(pre.onlines, members, user->0, text);
                let first = actions.take(1);
                assert(first == seq![actions[0]]);
                assert(actions == first + told);
                lemma_status_count_one(actions[0]);
                lemma_no_status_among_notices(pre.onlines, members, user->0, text);
                lemma_status_count_add(first, told);
            }
        },
        Some(CommandView::QuitChat { name }) => {
            if user is Some && pre.chats.get(name) is Some && pre.chats.get(name)->0.contains(
                user->0,
            ) {
                let members = pre.chats.get(name)->0;
                let text = has_left_text(user->0);
                let told = notifications(pre.onlines, members, user->0, text);
                let first = actions.take(1);
                assert(first == seq![actions[0]]);
                assert(actions == first + told);
                lemma_status_count_one(actions[0]);
                lemma_no_status_among_notices(pre.onlines, members, user->0, text);
                lemma_status_count_add(first, told);
            }
        },
        _ => {},
    }
}

/// Leaving the room that is one's current chat leaves one without a current
/// chat: a `message` after that reaches nobody and is answered with "Join
/// or start a chat first".
pub proof fn law_quit_clears_current_chat(
    pre: UserManagerView,
    s: SessionView,
    chat: Seq<char>,
    post: UserManagerView,
    t: SessionView,
    actions: Seq<ActionView>,
    content: Seq<char>,
)
    requires
        pre.wf(),
        s.current_user is Some,
        pre.current_chat(s.current_user->0) == Some(chat),
        pre.chats.get(chat) is Some,
        pre.chats.get(chat)->0.contains(s.current_user->0),
        command_post(pre, s, Some(CommandView::QuitChat { name: chat }), post, t, actions),
    ensures
        post.current_chat(s.current_user->0) is None,
        !post.chats.get(chat)->0.contains(s.current_user->0),
        message_chat_actions(post, t.current_user, content) == reply(
            "Join or start a chat first"@,
        ),
{
    let cur = s.current_user->0;
    let left = pre.without_member(chat, cur);
    let members = pre.chats.get(chat)->0;
    left.users.lemma_put(cur, UserView { current_chat: None, ..left.users.get(cur)->0 });
    pre.chats.lemma_put(chat, crate::names::without_name(members, cur));
    crate::words::lemma_position(pre.chats.keys, chat);
    assert(members.no_duplicates());
    crate::names::lemma_without_name(members, cur);
}

} // verus!
