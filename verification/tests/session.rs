use chat_relay::action::{persist_response, Action};
use chat_relay::command_handler::{
    cleanup, handle_command, handle_file_message, handle_join_chat, handle_login,
    handle_message_chat, handle_quit_chat, handle_register, handle_start_chat,
    handle_text_message, handle_text_multiple, login_outcome, notify_chat_users,
    register_outcome,
};
use chat_relay::error::ChatError;
use chat_relay::session::{Event, Session, SessionState};
use chat_relay::user_manager::{User, UserManager};

const REFUSED: &str = "Registration error, it is possible the username is already in use";

fn respond(text: &str) -> Action {
    Action::Respond(text.to_string())
}

fn deliver(sink: u64, text: &str) -> Action {
    Action::Deliver { sink, payload: text.as_bytes().to_vec() }
}

fn text(line: &str) -> Event {
    Event::Text(line.to_string())
}

fn quick_user(name: &str, password: &str) -> User {
    User {
        name: name.to_string(),
        password: bcrypt::hash(password, 4).unwrap(),
        current_chat: None,
    }
}

fn registry_with(names: &[&str]) -> UserManager {
    UserManager::load("users.json", names.iter().map(|n| quick_user(n, "pw")).collect())
}

fn logged_in(registry: &mut UserManager, name: &str, sink: u64) -> Session {
    let mut session = Session::new(sink);
    let line = format!("login -u {} -p pw", name);
    assert_eq!(session.on_event(registry, text(&line)), vec![respond("Login Successful")]);
    session
}

#[test]
fn alice_registers_logs_in_and_texts_bob() {
    let mut registry = UserManager::new("users.json");
    let mut alice = Session::new(1);
    let mut bob = Session::new(2);

    let out = alice.on_event(&mut registry, text("reg -u alice -p pw1"));
    assert_eq!(out.len(), 1);
    match &out[0] {
        Action::Persist { file, users, saved, failed } => {
            assert_eq!(file, "users.json");
            assert_eq!(users.len(), 1);
            assert_eq!(users[0].name, "alice");
            assert_eq!(saved, "Registration successful");
            assert_eq!(failed, REFUSED);
        }
        other => panic!("unexpected action {:?}", other),
    }
    assert_eq!(
        alice.on_event(&mut registry, text("login -u alice -p pw1")),
        vec![respond("Login Successful")]
    );
    let out = alice.on_event(&mut registry, text("reg -u bob -p pw2"));
    assert!(matches!(&out[0], Action::Persist { users, .. } if users.len() == 2));
    assert_eq!(
        bob.on_event(&mut registry, text("login -u bob -p pw2")),
        vec![respond("Login Successful")]
    );

    assert_eq!(
        alice.on_event(&mut registry, text("text -u bob hello")),
        vec![deliver(2, "from alice: hello"), respond("Successfully Sent")]
    );
    assert_eq!(
        bob.on_event(&mut registry, Event::Outbound(b"from alice: hello".to_vec())),
        vec![Action::Send(b"from alice: hello".to_vec())]
    );
}

#[test]
fn chat_room_scenario_with_join_and_message() {
    let mut registry = registry_with(&["alice", "bob"]);
    let mut alice = logged_in(&mut registry, "alice", 1);
    let mut bob = logged_in(&mut registry, "bob", 2);

    assert_eq!(
        alice.on_event(&mut registry, text("startchat team")),
        vec![respond("Chat 'team' started successfully")]
    );
    assert_eq!(
        bob.on_event(&mut registry, text("joinchat team")),
        vec![
            respond("Joined chat 'team'"),
            deliver(1, "User 'bob' has joined the chat 'team'"),
        ]
    );
    assert_eq!(
        bob.on_event(&mut registry, text("message hi team")),
        vec![deliver(1, "bob: hi team"), respond("Successfully Sent")]
    );
    assert_eq!(
        alice.on_event(&mut registry, text("message welcome  bob")),
        vec![deliver(2, "alice: welcome bob"), respond("Successfully Sent")]
    );
    assert_eq!(registry.get_current_chat("alice"), Some("team".to_string()));
    assert_eq!(registry.get_current_chat("bob"), Some("team".to_string()));
}

#[test]
fn text_to_an_offline_name_changes_nothing() {
    let mut registry = registry_with(&["alice", "bob"]);
    let mut alice = logged_in(&mut registry, "alice", 1);
    let users = registry.save();
    let before = Session { current_user: Some("alice".to_string()), sender: 1, relay: None, closed: false };
    assert_eq!(alice, before);
    assert_eq!(
        alice.on_event(&mut registry, text("text -u bob hello")),
        vec![respond("User is not online")]
    );
    assert_eq!(alice, before);
    assert_eq!(registry.save(), users);
    assert_eq!(registry.lookup("alice"), Some(1));
    assert_eq!(registry.lookup("bob"), None);
}

#[test]
fn text_to_an_online_name_enqueues_one_notification() {
    let mut registry = registry_with(&["alice", "bob", "carol"]);
    let mut alice = logged_in(&mut registry, "alice", 1);
    let _bob = logged_in(&mut registry, "bob", 2);
    let _carol = logged_in(&mut registry, "carol", 3);
    let out = alice.on_event(&mut registry, text("text -u bob hello"));
    let deliveries: Vec<&Action> =
        out.iter().filter(|a| matches!(a, Action::Deliver { .. })).collect();
    assert_eq!(deliveries, vec![&deliver(2, "from alice: hello")]);
}

#[test]
fn commands_other_than_reg_and_login_need_a_login() {
    let mut registry = registry_with(&["alice"]);
    let mut session = Session::new(9);
    for line in [
        "text -u alice hi",
        "textMultiple -u alice -t hi",
        "startchat team",
        "joinchat team",
        "message hi",
        "quitchat team",
        "file -u alice a.txt",
    ] {
        assert_eq!(session.on_event(&mut registry, text(line)), vec![respond("Login first")]);
    }
    assert_eq!(registry.chat_members("team"), None);
    assert_eq!(session, Session::new(9));
}

#[test]
fn unknown_lines_are_reported() {
    let mut registry = UserManager::new("users.json");
    let mut session = Session::new(1);
    assert_eq!(session.on_event(&mut registry, text("dance")), vec![respond("Unknown command")]);
    assert_eq!(session.on_event(&mut registry, text("")), vec![respond("Unknown command")]);
    assert_eq!(
        handle_command(&mut registry, &mut session, "reg -u alice"),
        vec![respond("Unknown command")]
    );
}

#[test]
fn login_failures_leave_the_session_as_it_was() {
    let mut registry = registry_with(&["alice"]);
    let mut session = Session::new(1);
    assert_eq!(
        session.on_event(&mut registry, text("login -u alice -p wrong")),
        vec![respond("Wrong Password")]
    );
    assert_eq!(
        session.on_event(&mut registry, text("login -u nobody -p pw")),
        vec![respond("User does not exist")]
    );
    assert_eq!(session, Session::new(1));
    assert_eq!(registry.lookup("alice"), None);
}

#[test]
fn login_with_a_broken_digest_reports_the_reason() {
    let broken = User { name: "alice".to_string(), password: "x".to_string(), current_chat: None };
    let mut registry = UserManager::load("users.json", vec![broken]);
    let mut user = None;
    let out = handle_login(&mut registry, "alice".to_string(), "pw".to_string(), &mut user, 1);
    assert_eq!(out.len(), 1);
    match &out[0] {
        Action::Respond(line) => {
            assert!(line.starts_with("Authentication error: "));
            assert!(line.len() > "Authentication error: ".len());
        }
        other => panic!("unexpected action {:?}", other),
    }
    assert_eq!(user, None);
}

#[test]
fn login_outcome_follows_the_verdict() {
    let mut registry = UserManager::new("users.json");
    let mut user = None;
    assert_eq!(
        login_outcome(&mut registry, Ok(false), "alice".to_string(), &mut user, 4),
        vec![respond("Wrong Password")]
    );
    assert_eq!(user, None);
    assert_eq!(
        login_outcome(
            &mut registry,
            Err(ChatError::Hashing("bad digest".to_string())),
            "alice".to_string(),
            &mut user,
            4
        ),
        vec![respond("Authentication error: bad digest")]
    );
    assert_eq!(registry.lookup("alice"), None);
    assert_eq!(
        login_outcome(&mut registry, Ok(true), "alice".to_string(), &mut user, 4),
        vec![respond("Login Successful")]
    );
    assert_eq!(user, Some("alice".to_string()));
    assert_eq!(registry.lookup("alice"), Some(4));
}

#[test]
fn a_second_login_overwrites_the_sink() {
    let mut registry = registry_with(&["alice"]);
    let _first = logged_in(&mut registry, "alice", 1);
    let _second = logged_in(&mut registry, "alice", 2);
    assert_eq!(registry.lookup("alice"), Some(2));
}

#[test]
fn registering_a_taken_name_is_refused_without_persisting() {
    let mut registry = registry_with(&["alice"]);
    let before = registry.save();
    assert_eq!(
        handle_register(&mut registry, "alice".to_string(), "pw".to_string()),
        vec![respond(REFUSED)]
    );
    assert_eq!(registry.save(), before);
}

#[test]
fn register_outcome_follows_the_result() {
    let registry = registry_with(&["alice"]);
    assert_eq!(
        register_outcome(&registry, &Err(ChatError::AlreadyExists)),
        vec![respond(REFUSED)]
    );
    assert_eq!(
        register_outcome(&registry, &Ok(())),
        vec![Action::Persist {
            file: "users.json".to_string(),
            users: registry.save(),
            saved: "Registration successful".to_string(),
            failed: REFUSED.to_string(),
        }]
    );
}

#[test]
fn text_multiple_names_the_offline_recipients_in_one_status() {
    let mut registry = registry_with(&["alice", "bob", "carol"]);
    let alice = logged_in(&mut registry, "alice", 1);
    let _carol = logged_in(&mut registry, "carol", 3);
    assert_eq!(
        handle_text_multiple(
            &registry,
            &alice.current_user,
            vec!["bob".to_string(), "carol".to_string(), "dave".to_string()],
            "hi all".to_string()
        ),
        vec![deliver(3, "from alice: hi all"), respond("Users not online: bob dave")]
    );
    assert_eq!(
        handle_text_multiple(&registry, &alice.current_user, vec![], "x".to_string()),
        vec![respond("Successfully Sent")]
    );
    assert_eq!(
        handle_text_multiple(&registry, &None, vec!["carol".to_string()], "x".to_string()),
        vec![respond("Login first")]
    );
}

#[test]
fn text_multiple_to_online_recipients_is_sent() {
    let mut registry = registry_with(&["alice", "bob", "carol"]);
    let mut alice = logged_in(&mut registry, "alice", 1);
    let _bob = logged_in(&mut registry, "bob", 2);
    let _carol = logged_in(&mut registry, "carol", 3);
    assert_eq!(
        alice.on_event(&mut registry, text("textMultiple -u bob carol -t hi all")),
        vec![
            deliver(2, "from alice: hi all"),
            deliver(3, "from alice: hi all"),
            respond("Successfully Sent"),
        ]
    );
}

#[test]
fn text_multiple_to_offline_names_answers_once_and_changes_nothing() {
    let mut registry = registry_with(&["alice"]);
    let mut alice = logged_in(&mut registry, "alice", 1);
    let users = registry.save();
    let before = Session { current_user: Some("alice".to_string()), sender: 1, relay: None, closed: false };
    assert_eq!(
        alice.on_event(&mut registry, text("textMultiple -u x y -t hi")),
        vec![respond("Users not online: x y")]
    );
    assert_eq!(alice, before);
    assert_eq!(registry.save(), users);
    assert_eq!(registry.lookup("x"), None);
    assert_eq!(registry.lookup("y"), None);
}

#[test]
fn quitting_the_current_chat_clears_it() {
    let mut registry = registry_with(&["alice", "bob"]);
    let mut alice = logged_in(&mut registry, "alice", 1);
    let mut bob = logged_in(&mut registry, "bob", 2);
    alice.on_event(&mut registry, text("startchat team"));
    bob.on_event(&mut registry, text("joinchat team"));
    assert_eq!(registry.get_current_chat("bob"), Some("team".to_string()));
    assert_eq!(
        bob.on_event(&mut registry, text("quitchat team")),
        vec![respond("You have left the chat 'team'"), deliver(1, "User 'bob' has left the chat")]
    );
    assert_eq!(registry.get_current_chat("bob"), None);
    assert_eq!(registry.get_current_chat("alice"), Some("team".to_string()));
    assert_eq!(
        bob.on_event(&mut registry, text("message anyone there")),
        vec![respond("Join or start a chat first")]
    );
}

#[test]
fn quitting_another_chat_keeps_the_current_one() {
    let mut registry = registry_with(&["alice", "bob"]);
    let mut alice = logged_in(&mut registry, "alice", 1);
    let mut bob = logged_in(&mut registry, "bob", 2);
    alice.on_event(&mut registry, text("startchat team"));
    alice.on_event(&mut registry, text("startchat lounge"));
    bob.on_event(&mut registry, text("joinchat team"));
    bob.on_event(&mut registry, text("joinchat lounge"));
    assert_eq!(registry.get_current_chat("bob"), Some("lounge".to_string()));
    assert_eq!(
        bob.on_event(&mut registry, text("quitchat team")),
        vec![respond("You have left the chat 'team'"), deliver(1, "User 'bob' has left the chat")]
    );
    assert_eq!(registry.get_current_chat("bob"), Some("lounge".to_string()));
    assert_eq!(
        bob.on_event(&mut registry, text("message still here")),
        vec![deliver(1, "bob: still here"), respond("Successfully Sent")]
    );
}

#[test]
fn text_message_formats_sender_and_content() {
    let mut registry = registry_with(&["alice", "bob"]);
    let alice = logged_in(&mut registry, "alice", 1);
    let _bob = logged_in(&mut registry, "bob", 2);
    assert_eq!(
        handle_text_message(&registry, &alice.current_user, "bob".to_string(), "caf\u{e9}".to_string()),
        vec![deliver(2, "from alice: caf\u{e9}"), respond("Successfully Sent")]
    );
    assert_eq!(
        handle_text_message(&registry, &None, "bob".to_string(), "x".to_string()),
        vec![respond("Login first")]
    );
}

#[test]
fn start_chat_by_a_name_without_record_fails_but_opens_the_room() {
    let mut registry = UserManager::new("users.json");
    let ghost = Some("ghost".to_string());
    assert_eq!(
        handle_start_chat(&mut registry, &ghost, "team".to_string()),
        vec![respond("Failed to start chat 'team'")]
    );
    assert_eq!(registry.chat_members("team"), Some(vec!["ghost".to_string()]));
    assert_eq!(
        handle_join_chat(&mut registry, &Some("spirit".to_string()), "team".to_string()),
        vec![respond("Failed to join chat 'team'")]
    );
    assert_eq!(
        registry.chat_members("team"),
        Some(vec!["ghost".to_string(), "spirit".to_string()])
    );
}

#[test]
fn join_chat_that_does_not_exist_is_reported() {
    let mut registry = registry_with(&["alice"]);
    let alice = logged_in(&mut registry, "alice", 1);
    assert_eq!(
        handle_join_chat(&mut registry, &alice.current_user, "team".to_string()),
        vec![respond("Chat not found")]
    );
    assert_eq!(registry.chat_members("team"), None);
    assert_eq!(registry.get_current_chat("alice"), None);
}

#[test]
fn message_needs_a_current_chat_that_exists() {
    let mut registry = registry_with(&["alice"]);
    let alice = logged_in(&mut registry, "alice", 1);
    assert_eq!(
        handle_message_chat(&registry, &alice.current_user, "hi".to_string()),
        vec![respond("Join or start a chat first")]
    );
    assert_eq!(registry.set_current_chat("alice", Some("gone".to_string())), Ok(()));
    assert_eq!(
        handle_message_chat(&registry, &alice.current_user, "hi".to_string()),
        vec![respond("Chat not found")]
    );
}

#[test]
fn quit_chat_tells_those_who_stay() {
    let mut registry = registry_with(&["alice", "bob", "carol"]);
    let mut alice = logged_in(&mut registry, "alice", 1);
    let mut bob = logged_in(&mut registry, "bob", 2);
    let mut carol = Session::new(3);
    carol.current_user = Some("carol".to_string());
    alice.on_event(&mut registry, text("startchat team"));
    bob.on_event(&mut registry, text("joinchat team"));
    assert_eq!(
        carol.on_event(&mut registry, text("joinchat team")),
        vec![
            respond("Joined chat 'team'"),
            deliver(1, "User 'carol' has joined the chat 'team'"),
            deliver(2, "User 'carol' has joined the chat 'team'"),
        ]
    );
    assert_eq!(
        handle_quit_chat(&mut registry, &bob.current_user, "team".to_string()),
        vec![
            respond("You have left the chat 'team'"),
            deliver(1, "User 'bob' has left the chat"),
        ]
    );
    assert_eq!(
        registry.chat_members("team"),
        Some(vec!["alice".to_string(), "carol".to_string()])
    );
    assert_eq!(
        handle_quit_chat(&mut registry, &bob.current_user, "team".to_string()),
        vec![respond("You are not in this chat")]
    );
    assert_eq!(
        handle_quit_chat(&mut registry, &bob.current_user, "none".to_string()),
        vec![respond("Chat not found")]
    );
    assert_eq!(
        registry.chat_members("team"),
        Some(vec!["alice".to_string(), "carol".to_string()])
    );
}

#[test]
fn notify_chat_users_skips_the_sender_and_the_offline() {
    let mut registry = UserManager::new("users.json");
    registry.set_online("alice".to_string(), 1);
    registry.set_online("carol".to_string(), 3);
    let members = vec!["alice".to_string(), "bob".to_string(), "carol".to_string()];
    assert_eq!(
        notify_chat_users(&registry, "alice", &members, "news"),
        vec![deliver(3, "news")]
    );
    assert_eq!(
        notify_chat_users(&registry, "bob", &members, "news"),
        vec![deliver(1, "news"), deliver(3, "news")]
    );
    assert_eq!(notify_chat_users(&registry, "bob", &vec![], "news"), vec![]);
}

#[test]
fn quit_ends_the_session_and_takes_the_user_offline() {
    let mut registry = registry_with(&["alice"]);
    let mut alice = logged_in(&mut registry, "alice", 1);
    assert_eq!(alice.on_event(&mut registry, text("quit")), vec![respond("Session closed")]);
    assert!(alice.closed);
    assert_eq!(registry.lookup("alice"), None);
    assert_eq!(alice.on_event(&mut registry, text("text -u alice hi")), vec![]);
    assert_eq!(
        alice.on_event(&mut registry, Event::Outbound(vec![1, 2])),
        vec![]
    );
}

#[test]
fn close_frame_read_error_and_end_of_stream_end_the_session() {
    for (sink, event) in [(1, Event::Close), (2, Event::ReadError), (3, Event::Ended)] {
        let mut registry = registry_with(&["alice"]);
        let mut alice = logged_in(&mut registry, "alice", sink);
        assert_eq!(alice.on_event(&mut registry, event), vec![]);
        assert!(alice.closed);
        assert_eq!(registry.lookup("alice"), None);
    }
}

#[test]
fn frames_that_are_no_text_are_ignored_outside_a_transfer() {
    let mut registry = registry_with(&["alice"]);
    let mut alice = logged_in(&mut registry, "alice", 1);
    assert_eq!(alice.on_event(&mut registry, Event::Binary(vec![1, 2, 3])), vec![]);
    assert_eq!(alice.on_event(&mut registry, Event::Other), vec![]);
    assert_eq!(alice.on_event(&mut registry, Event::ForwardFailed), vec![]);
    assert!(!alice.closed);
    assert_eq!(registry.lookup("alice"), Some(1));
}

#[test]
fn outbound_messages_go_to_the_peer_verbatim() {
    let mut registry = UserManager::new("users.json");
    let mut session = Session::new(1);
    assert_eq!(
        session.on_event(&mut registry, Event::Outbound(vec![0, 159, 146, 150])),
        vec![Action::Send(vec![0, 159, 146, 150])]
    );
}

#[test]
fn cleanup_removes_only_the_named_user() {
    let mut registry = UserManager::new("users.json");
    registry.set_online("alice".to_string(), 1);
    registry.set_online("bob".to_string(), 2);
    cleanup(&mut registry, &None);
    assert_eq!(registry.lookup("alice"), Some(1));
    cleanup(&mut registry, &Some("alice".to_string()));
    assert_eq!(registry.lookup("alice"), None);
    assert_eq!(registry.lookup("bob"), Some(2));
}

#[test]
fn file_message_to_an_offline_name_starts_nothing() {
    let mut registry = registry_with(&["alice"]);
    let alice = logged_in(&mut registry, "alice", 1);
    let mut relay = None;
    assert_eq!(
        handle_file_message(&registry, &alice.current_user, &mut relay, "bob".to_string(), "a.txt".to_string()),
        vec![respond("User is not online")]
    );
    assert_eq!(relay, None);
    assert_eq!(
        handle_file_message(&registry, &None, &mut relay, "alice".to_string(), "a.txt".to_string()),
        vec![respond("Login first")]
    );
    assert_eq!(relay, None);
}

#[test]
fn session_moves_from_unauthenticated_to_authenticated_to_closed() {
    let mut registry = registry_with(&["alice"]);
    let mut session = Session::new(1);
    assert_eq!(session.state(), SessionState::Unauthenticated);
    session.on_event(&mut registry, text("login -u alice -p nope"));
    assert_eq!(session.state(), SessionState::Unauthenticated);
    session.on_event(&mut registry, text("login -u alice -p pw"));
    assert_eq!(session.state(), SessionState::Authenticated);
    session.on_event(&mut registry, text("login -u alice -p nope"));
    assert_eq!(session.state(), SessionState::Authenticated);
    session.on_event(&mut registry, Event::Close);
    assert_eq!(session.state(), SessionState::Closed);
    session.on_event(&mut registry, text("login -u alice -p pw"));
    assert_eq!(session.state(), SessionState::Closed);
    assert_eq!(registry.lookup("alice"), None);
}

#[test]
fn registration_is_open_to_a_session_without_login() {
    let mut registry = UserManager::new("users.json");
    let mut session = Session::new(1);
    let out = session.on_event(&mut registry, text("reg -u dave -p pw4"));
    assert!(matches!(&out[..], [Action::Persist { .. }]));
    assert_eq!(session, Session::new(1));
    assert!(registry.has_user("dave"));
    assert_eq!(registry.lookup("dave"), None);
}

#[test]
fn persist_response_picks_the_line_by_the_outcome() {
    assert_eq!(
        persist_response(true, "Registration successful".to_string(), REFUSED.to_string()),
        respond("Registration successful")
    );
    assert_eq!(
        persist_response(false, "Registration successful".to_string(), REFUSED.to_string()),
        respond(REFUSED)
    );
}

#[test]
fn every_line_is_answered_with_one_status() {
    let mut registry = registry_with(&["alice", "bob"]);
    let mut alice = logged_in(&mut registry, "alice", 1);
    let _bob = logged_in(&mut registry, "bob", 2);
    for line in [
        "nonsense",
        "login -u alice -p wrong",
        "text -u bob hi",
        "text -u nobody hi",
        "textMultiple -u bob nobody -t hi",
        "startchat team",
        "joinchat team",
        "joinchat none",
        "message hi",
        "quitchat team",
        "quitchat team",
        "message hi",
        "file -u nobody a.txt",
        "quit",
    ] {
        let out = alice.on_event(&mut registry, text(line));
        let statuses = out.iter().filter(|a| matches!(a, Action::Respond(_))).count();
        assert_eq!(statuses, 1, "{}", line);
    }
}
