use chat_relay::action::Action;
use chat_relay::file_handler::{
    handle_binary_message, handle_file_upload, receive_binary, same_bytes, split_chunks,
    upload_request, Frame, Received, CHUNK_SIZE,
};
use chat_relay::session::{end_transfer, receive_and_forward_file, Event, Session};
use chat_relay::user_manager::{User, UserManager};

fn quick_user(name: &str) -> User {
    User { name: name.to_string(), password: bcrypt::hash("pw", 4).unwrap(), current_chat: None }
}

fn two_online() -> (UserManager, Session, Session) {
    let mut registry = UserManager::load("users.json", vec![quick_user("alice"), quick_user("bob")]);
    let mut alice = Session::new(1);
    let mut bob = Session::new(2);
    alice.on_event(&mut registry, Event::Text("login -u alice -p pw".to_string()));
    bob.on_event(&mut registry, Event::Text("login -u bob -p pw".to_string()));
    (registry, alice, bob)
}

#[test]
fn file_transfer_of_two_chunks_is_written_once() {
    let first = vec![7u8; CHUNK_SIZE];
    let second = vec![9u8; 10];
    let mut data = first.clone();
    data.extend_from_slice(&second);

    let frames = handle_file_upload("bob", "a.txt", &data);
    assert_eq!(
        frames,
        vec![
            Frame::Text("file -u bob a.txt".to_string()),
            Frame::Binary(first.clone()),
            Frame::Binary(second.clone()),
            Frame::Text("EOF: a.txt".to_string()),
        ]
    );

    let (mut registry, mut alice, _bob) = two_online();
    let mut queue: Vec<Vec<u8>> = Vec::new();
    let mut responses: Vec<String> = Vec::new();
    for frame in frames {
        let event = match frame {
            Frame::Text(line) => Event::Text(line),
            Frame::Binary(chunk) => Event::Binary(chunk),
            Frame::Close => Event::Close,
        };
        for action in alice.on_event(&mut registry, event) {
            match action {
                Action::Deliver { sink, payload } => {
                    assert_eq!(sink, 2);
                    queue.push(payload);
                }
                Action::Forward { sink, chunk } => {
                    assert_eq!(sink, 2);
                    queue.push(chunk);
                }
                Action::Respond(line) => responses.push(line),
                other => panic!("unexpected action {:?}", other),
            }
        }
    }
    assert_eq!(responses, vec!["File sent successfully"]);
    assert_eq!(alice.relay, None);
    assert_eq!(
        queue,
        vec![b"Filename: a.txt".to_vec(), first.clone(), second.clone(), b"EOF".to_vec()]
    );

    let mut buffer = None;
    let mut written: Vec<(String, Vec<u8>)> = Vec::new();
    let mut seen = Vec::new();
    for data in queue {
        match handle_binary_message(data, &mut buffer) {
            Received::Finished { name, content } => written.push((name, content)),
            other => seen.push(other),
        }
    }
    assert_eq!(
        seen,
        vec![
            Received::Started("a.txt".to_string()),
            Received::Chunk(CHUNK_SIZE),
            Received::Chunk(10),
        ]
    );
    assert_eq!(written, vec![("a.txt".to_string(), data)]);
    assert_eq!(buffer, None);
}

#[test]
fn receiver_gathers_chunks_in_order() {
    let mut buffer = None;
    assert_eq!(
        handle_binary_message(b"Filename: a.txt".to_vec(), &mut buffer),
        Received::Started("a.txt".to_string())
    );
    assert_eq!(buffer, Some(("a.txt".to_string(), vec![])));
    assert_eq!(handle_binary_message(vec![1, 2, 3], &mut buffer), Received::Chunk(3));
    assert_eq!(handle_binary_message(vec![4, 5], &mut buffer), Received::Chunk(2));
    assert_eq!(buffer, Some(("a.txt".to_string(), vec![1, 2, 3, 4, 5])));
    assert_eq!(
        handle_binary_message(b"EOF".to_vec(), &mut buffer),
        Received::Finished { name: "a.txt".to_string(), content: vec![1, 2, 3, 4, 5] }
    );
    assert_eq!(buffer, None);
}

#[test]
fn binary_frame_without_a_transfer_is_a_message() {
    let mut buffer = None;
    assert_eq!(
        handle_binary_message(b"from alice: hello".to_vec(), &mut buffer),
        Received::Message("from alice: hello".to_string())
    );
    assert_eq!(
        handle_binary_message(vec![0xff, 0xfe], &mut buffer),
        Received::Message("<Invalid UTF-8>".to_string())
    );
    assert_eq!(
        handle_binary_message(b"EOF".to_vec(), &mut buffer),
        Received::Message("EOF".to_string())
    );
    assert_eq!(buffer, None);
}

#[test]
fn announcement_needs_a_name() {
    let mut buffer = None;
    assert_eq!(
        handle_binary_message(b"Filename:".to_vec(), &mut buffer),
        Received::Message("Filename:".to_string())
    );
    assert_eq!(buffer, None);
    let mut open = Some(("a.txt".to_string(), vec![1]));
    assert_eq!(handle_binary_message(b"Filename:  ".to_vec(), &mut open), Received::Chunk(11));
    assert_eq!(open.map(|(_, content)| content.len()), Some(12));
}

#[test]
fn announcement_restarts_a_running_reception() {
    let mut buffer = Some(("a.txt".to_string(), vec![1, 2]));
    assert_eq!(
        handle_binary_message(b"Filename: b.txt".to_vec(), &mut buffer),
        Received::Started("b.txt".to_string())
    );
    assert_eq!(buffer, Some(("b.txt".to_string(), vec![])));
}

#[test]
fn announcement_with_bytes_that_are_not_utf8_is_read_lossily() {
    let mut data = b"Filename: a".to_vec();
    data.push(0xff);
    data.extend_from_slice(b".txt rest");
    let mut buffer = None;
    assert_eq!(
        handle_binary_message(data, &mut buffer),
        Received::Started("a\u{fffd}.txt".to_string())
    );
}

#[test]
fn receive_binary_goes_by_the_text_it_is_given() {
    let mut buffer = None;
    assert_eq!(
        receive_binary("Filename:x\u{2003}name  more", vec![1], &mut buffer),
        Received::Started("name".to_string())
    );
    assert_eq!(receive_binary("plain", vec![1, 2], &mut buffer), Received::Chunk(2));
    assert_eq!(buffer, Some(("name".to_string(), vec![1, 2])));
}

#[test]
fn split_chunks_cuts_at_the_chunk_size() {
    assert_eq!(CHUNK_SIZE, 1024);
    assert_eq!(split_chunks(&vec![]), Vec::<Vec<u8>>::new());
    assert_eq!(split_chunks(&vec![5u8; 3]), vec![vec![5u8; 3]]);
    assert_eq!(split_chunks(&vec![5u8; 1024]), vec![vec![5u8; 1024]]);
    let data: Vec<u8> = (0..2500u32).map(|n| (n % 251) as u8).collect();
    let pieces = split_chunks(&data);
    assert_eq!(pieces.iter().map(|p| p.len()).collect::<Vec<usize>>(), vec![1024, 1024, 452]);
    assert_eq!(pieces.concat(), data);
}

#[test]
fn upload_of_an_empty_file_has_no_chunk() {
    assert_eq!(
        handle_file_upload("bob", "empty", &vec![]),
        vec![Frame::Text("file -u bob empty".to_string()), Frame::Text("EOF: empty".to_string())]
    );
}

#[test]
fn upload_request_takes_the_third_and_fourth_word() {
    assert_eq!(
        upload_request("file -u bob /tmp/a.txt"),
        Some(("bob".to_string(), "/tmp/a.txt".to_string()))
    );
    assert_eq!(
        upload_request("file -u bob\u{a0}/tmp/a.txt ignored"),
        Some(("bob".to_string(), "/tmp/a.txt".to_string()))
    );
    assert_eq!(upload_request("file -u bob"), None);
    assert_eq!(upload_request(""), None);
}

#[test]
fn relay_forwards_binary_frames_and_ends_on_anything_else() {
    let mut relay = Some(7);
    assert_eq!(
        receive_and_forward_file(&mut relay, Event::Binary(vec![1, 2])),
        vec![Action::Forward { sink: 7, chunk: vec![1, 2] }]
    );
    assert_eq!(relay, Some(7));
    assert_eq!(
        receive_and_forward_file(&mut relay, Event::Other),
        vec![
            Action::Respond("File sent successfully".to_string()),
            Action::Deliver { sink: 7, payload: b"EOF".to_vec() },
        ]
    );
    assert_eq!(relay, None);
    assert_eq!(receive_and_forward_file(&mut relay, Event::Binary(vec![1])), vec![]);
    assert_eq!(end_transfer(3, "done"), vec![
        Action::Respond("done".to_string()),
        Action::Deliver { sink: 3, payload: b"EOF".to_vec() },
    ]);
}

#[test]
fn failed_forward_ends_the_transfer_with_an_error() {
    let (mut registry, mut alice, _bob) = two_online();
    assert_eq!(
        alice.on_event(&mut registry, Event::Text("file -u bob a.txt".to_string())),
        vec![Action::Deliver { sink: 2, payload: b"Filename: a.txt".to_vec() }]
    );
    assert_eq!(alice.relay, Some(2));
    assert_eq!(
        alice.on_event(&mut registry, Event::ForwardFailed),
        vec![
            Action::Respond("Error receiving file: Failed to send chunk".to_string()),
            Action::Deliver { sink: 2, payload: b"EOF".to_vec() },
        ]
    );
    assert_eq!(alice.relay, None);
    assert!(!alice.closed);
    assert_eq!(
        alice.on_event(&mut registry, Event::Text("EOF: a.txt".to_string())),
        vec![Action::Respond("Unknown command".to_string())]
    );
}

#[test]
fn stream_end_during_a_transfer_ends_both() {
    let (mut registry, mut alice, _bob) = two_online();
    alice.on_event(&mut registry, Event::Text("file -u bob a.txt".to_string()));
    assert_eq!(
        alice.on_event(&mut registry, Event::Ended),
        vec![
            Action::Respond("File sent successfully".to_string()),
            Action::Deliver { sink: 2, payload: b"EOF".to_vec() },
        ]
    );
    assert!(alice.closed);
    assert_eq!(alice.relay, None);
    assert_eq!(registry.lookup("alice"), None);
    assert_eq!(registry.lookup("bob"), Some(2));
}

#[test]
fn same_bytes_compares_length_and_content() {
    assert!(same_bytes(&vec![], &vec![]));
    assert!(same_bytes(&vec![1, 2], &vec![1, 2]));
    assert!(!same_bytes(&vec![1, 2], &vec![1, 3]));
    assert!(!same_bytes(&vec![1, 2], &vec![1, 2, 3]));
}
