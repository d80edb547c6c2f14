use chat_relay::client::{
    input_to_channel, receive_loop, save_outcome, send_loop, Incoming, ReceiveStep, SendStep,
    Typed,
};
use chat_relay::file_handler::{Frame, Received};

#[test]
fn typed_lines_are_trimmed_and_sorted() {
    assert_eq!(input_to_channel("  quit \n"), Typed::Quit);
    assert_eq!(
        input_to_channel("file -u bob a.txt\n"),
        Typed::Upload("file -u bob a.txt".to_string())
    );
    assert_eq!(input_to_channel("file -u"), Typed::Upload("file -u".to_string()));
    assert_eq!(input_to_channel("file  -u bob a.txt"), Typed::Line("file  -u bob a.txt".to_string()));
    assert_eq!(input_to_channel("text -u bob hi\r\n"), Typed::Line("text -u bob hi".to_string()));
    assert_eq!(input_to_channel("quit now"), Typed::Line("quit now".to_string()));
    assert_eq!(input_to_channel(""), Typed::Line("".to_string()));
}

#[test]
fn sending_stops_after_a_close_frame_or_a_failure() {
    assert_eq!(send_loop(&Frame::Close, true), SendStep::Stop);
    assert_eq!(send_loop(&Frame::Close, false), SendStep::Stop);
    assert_eq!(send_loop(&Frame::Text("hi".to_string()), true), SendStep::Continue);
    assert_eq!(send_loop(&Frame::Text("hi".to_string()), false), SendStep::CloseAndStop);
    assert_eq!(send_loop(&Frame::Binary(vec![1]), true), SendStep::Continue);
    assert_eq!(send_loop(&Frame::Binary(vec![1]), false), SendStep::CloseAndStop);
}

#[test]
fn receiving_sorts_frames_by_kind() {
    let mut buffer = None;
    assert_eq!(receive_loop(Incoming::Error, &mut buffer), ReceiveStep::CloseAndStop);
    assert_eq!(receive_loop(Incoming::Close, &mut buffer), ReceiveStep::CloseAndStop);
    assert_eq!(receive_loop(Incoming::Other, &mut buffer), ReceiveStep::Unknown);
    assert_eq!(
        receive_loop(Incoming::Text("Login Successful".to_string()), &mut buffer),
        ReceiveStep::Show("Message received: Login Successful".to_string())
    );
    assert_eq!(buffer, None);
    assert_eq!(
        receive_loop(Incoming::Binary(b"Filename: a.txt".to_vec()), &mut buffer),
        ReceiveStep::File(Received::Started("a.txt".to_string()))
    );
    assert_eq!(
        receive_loop(Incoming::Binary(vec![1, 2]), &mut buffer),
        ReceiveStep::File(Received::Chunk(2))
    );
    assert_eq!(
        receive_loop(Incoming::Text("status".to_string()), &mut buffer),
        ReceiveStep::Show("Message received: status".to_string())
    );
    assert_eq!(buffer, Some(("a.txt".to_string(), vec![1, 2])));
}

#[test]
fn a_failed_save_is_an_error() {
    assert_eq!(save_outcome(true), Ok(()));
    assert_eq!(save_outcome(false), Err("Failed to save received file.".to_string()));
}
