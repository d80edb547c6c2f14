//! The client's three loops, one step at a time: what a typed line calls
//! for, what follows the sending of a frame, and what a frame from the relay
//! calls for.

use vstd::prelude::*;
use vstd::utf8::{decode_utf8, valid_utf8};
use crate::action::glue;
use crate::file_handler::{
    buffer_after, buffer_view, handle_binary_message, lossy_text, received, Frame, FrameView,
    Received, ReceivedView,
};
use crate::words::{has_prefix, is_text, starts_with, trim, trim_text, Spacing};

verus! {

/// What a line typed by the user calls for.
#[derive(Debug, PartialEq, Eq)]
pub enum Typed {
    /// Send the file that the request names, then read the next line.
    Upload(String),
    /// Send a close frame and stop reading.
    Quit,
    /// Send the line as a text frame, then read the next line.
    Line(String),
}

/// What a `Typed` holds, with its text as a character sequence.
pub ghost enum TypedView {
    Upload(Seq<char>),
    Quit,
    Line(Seq<char>),
}

impl View for Typed {
    type V = TypedView;

    open spec fn view(&self) -> TypedView {
        match *self {
            Typed::Upload(request) => TypedView::Upload(request@),
            Typed::Quit => TypedView::Quit,
            Typed::Line(text) => TypedView::Line(text@),
        }
    }
}

/// What the line `input` calls for, once the whitespace around it is gone.
pub open spec fn typed(input: Seq<char>) -> TypedView {
    let message = trim(input, Spacing::Unicode);
    if starts_with(message, "file -u"@) {
        TypedView::Upload(message)
    } else if message == "quit"@ {
        TypedView::Quit
    } else {
        TypedView::Line(message)
    }
}

/// Decides what a line typed by the user calls for.
pub fn input_to_channel(input: &str) -> (out: Typed)
    ensures
        out@ == typed(input@),
{
    let message = trim_text(input, Spacing::Unicode);
    if has_prefix(message.as_str(), "file -u") {
        Typed::Upload(message)
    } else if is_text(message.as_str(), "quit") {
        Typed::Quit
    } else {
        Typed::Line(message)
    }
}

/// How the sending loop goes on after it tried to send a frame.
#[derive(Debug, Clone, Copy, PartialEq, Eq, Structural)]
pub enum SendStep {
    /// Wait for the next frame to send.
    Continue,
    /// Stop.
    Stop,
    /// Send a close frame, then stop.
    CloseAndStop,
}

/// How the sending loop goes on after `message`: a close frame was the last
/// one; after any other frame the loop goes on if it went out, and closes
/// the connection if it did not.
pub open spec fn send_step(message: FrameView, sent: bool) -> SendStep {
    if message is Close {
        SendStep::Stop
    } else if sent {
        SendStep::Continue
    } else {
        SendStep::CloseAndStop
    }
}

/// Decides how the sending loop goes on after it tried to send `message`;
/// `sent` says whether the frame went out.
pub fn send_loop(message: &Frame, sent: bool) -> (out: SendStep)
    ensures
        out == send_step(message@, sent),
{
    match message {
        Frame::Close => SendStep::Stop,
        _ => if sent {
            SendStep::Continue
        } else {
            SendStep::CloseAndStop
        },
    }
}

/// What came from the relay.
#[derive(Debug)]
pub enum Incoming {
    /// A text frame.
    Text(String),
    /// A binary frame.
    Binary(Vec<u8>),
    /// A close frame.
    Close,
    /// A frame of another kind.
    Other,
    /// Reading failed.
    Error,
}

/// What an `Incoming` holds, with text and bytes as sequences.
pub ghost enum IncomingView {
    Text(Seq<char>),
    Binary(Seq<u8>),
    Close,
    Other,
    Error,
}

impl View for Incoming {
    type V = IncomingView;

    open spec fn view(&self) -> IncomingView {
        match *self {
            Incoming::Text(text) => IncomingView::Text(text@),
            Incoming::Binary(data) => IncomingView::Binary(data@),
            Incoming::Close => IncomingView::Close,
            Incoming::Other => IncomingView::Other,
            Incoming::Error => IncomingView::Error,
        }
    }
}

/// What the receiving loop does about a frame.
#[derive(Debug, PartialEq, Eq)]
pub enum ReceiveStep {
    /// Queue a close frame for sending and stop.
    CloseAndStop,
    /// Show the line to the user.
    Show(String),
    /// The frame was a binary one; this is what it meant.
    File(Received),
    /// Tell the user that a frame of an unknown kind came.
    Unknown,
}

/// What a `ReceiveStep` holds, with text and bytes as sequences.
pub ghost enum ReceiveStepView {
    CloseAndStop,
    Show(Seq<char>),
    File(ReceivedView),
    Unknown,
}

impl View for ReceiveStep {
    type V = ReceiveStepView;

    open spec fn view(&self) -> ReceiveStepView {
        match *self {
            ReceiveStep::CloseAndStop => ReceiveStepView::CloseAndStop,
            ReceiveStep::Show(line) => ReceiveStepView::Show(line@),
            ReceiveStep::File(got) => ReceiveStepView::File(got@),
            ReceiveStep::Unknown => ReceiveStepView::Unknown,
        }
    }
}

/// What the receiving loop does about `message`.
pub open spec fn receive_step(
    message: IncomingView,
    buffer: Option<(Seq<char>, Seq<u8>)>,
) -> ReceiveStepView {
    match message {
        IncomingView::Error => ReceiveStepView::CloseAndStop,
        IncomingView::Close => ReceiveStepView::CloseAndStop,
        IncomingView::Binary(data) => ReceiveStepView::File(
            received(lossy_text(data), data, buffer),
        ),
        IncomingView::Text(text) => ReceiveStepView::Show("Message received: "@ + text),
        IncomingView::Other => ReceiveStepView::Unknown,
    }
}

/// The file being received after `message`.
pub open spec fn receive_buffer(
    message: IncomingView,
    buffer: Option<(Seq<char>, Seq<u8>)>,
) -> Option<(Seq<char>, Seq<u8>)> {
    match message {
        IncomingView::Binary(data) => buffer_after(lossy_text(data), data, buffer),
        _ => buffer,
    }
}

/// Decides what the receiving loop does about `message`; a binary frame is
/// taken into the file being received.
pub fn receive_loop(message: Incoming, file_buffer: &mut Option<(String, Vec<u8>)>) -> (out:
    ReceiveStep)
    ensures
        out@ == receive_step(message@, buffer_view(*old(file_buffer))),
        buffer_view(*final(file_buffer)) == receive_buffer(
            message@,
            buffer_view(*old(file_buffer)),
        ),
        message@ matches IncomingView::Binary(data) ==> (valid_utf8(data) ==> lossy_text(data)
            == decode_utf8(data)),
{
    match message {
        Incoming::Error => ReceiveStep::CloseAndStop,
        Incoming::Close => ReceiveStep::CloseAndStop,
        Incoming::Binary(data) => ReceiveStep::File(handle_binary_message(data, file_buffer)),
        Incoming::Text(text) => ReceiveStep::Show(glue("Message received: ", text.as_str())),
        Incoming::Other => ReceiveStep::Unknown,
    }
}

/// What writing a received file came to, as the receiving loop reports it.
pub fn save_outcome(saved: bool) -> (out: Result<(), String>)
    ensures
        match out {
            Ok(_) => saved,
            Err(text) => !saved && text@ == "Failed to save received file."@,
        },
{
    if saved {
        Ok(())
    } else {
        Err("Failed to save received file.".to_owned())
    }
}

} // verus!
