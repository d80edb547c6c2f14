//! The client's side of a file transfer: the frames that send a file, and
//! the gathering of the frames that bring one.

use vstd::prelude::*;
use vstd::utf8::{decode_utf8, encode_utf8, valid_utf8};
use crate::action::{bytes_of, glue, glue3};
use crate::words::{
    has_prefix, is_word, lemma_words_of_word, lemma_words_split, split_words, starts_with, words,
    Spacing,
};

verus! {

/// The largest number of bytes that one binary frame of a transfer carries.
pub const CHUNK_SIZE: usize = 1024;

/// A frame that the client sends.
#[derive(Debug, PartialEq, Eq)]
pub enum Frame {
    /// A command or a marker.
    Text(String),
    /// A piece of a file.
    Binary(Vec<u8>),
    /// The end of the connection.
    Close,
}

/// What a `Frame` holds, with text and bytes as sequences.
pub ghost enum FrameView {
    Text(Seq<char>),
    Binary(Seq<u8>),
    Close,
}

impl View for Frame {
    type V = FrameView;

    open spec fn view(&self) -> FrameView {
        match *self {
            Frame::Text(text) => FrameView::Text(text@),
            Frame::Binary(bytes) => FrameView::Binary(bytes@),
            Frame::Close => FrameView::Close,
        }
    }
}

/// The views of a list of frames.
pub open spec fn frame_views(list: Seq<Frame>) -> Seq<FrameView> {
    list.map_values(|f: Frame| f@)
}

/// `data` cut into pieces of `CHUNK_SIZE` bytes, the last one shorter where
/// the length is no multiple of it.
pub open spec fn chunks(data: Seq<u8>) -> Seq<Seq<u8>>
    decreases data.len(),
{
    if data.len() == 0 {
        Seq::empty()
    } else if data.len() <= CHUNK_SIZE {
        seq![data]
    } else {
        seq![data.take(CHUNK_SIZE as int)] + chunks(data.skip(CHUNK_SIZE as int))
    }
}

/// The pieces of `list`, one after the other.
pub open spec fn concat(list: Seq<Seq<u8>>) -> Seq<u8>
    decreases list.len(),
{
    if list.len() == 0 {
        Seq::empty()
    } else {
        concat(list.drop_last()) + list.last()
    }
}

/// `file -u <user> <file_name>`: the frame that announces a transfer.
pub open spec fn start_text(user: Seq<char>, file_name: Seq<char>) -> Seq<char> {
    "file -u "@ + user + " "@ + file_name
}

/// `EOF: <file_name>`: the frame that ends a transfer.
pub open spec fn end_text(file_name: Seq<char>) -> Seq<char> {
    "EOF: "@ + file_name
}

/// The frames that send the file `file_name` with the content `data` to
/// `user`: the announcement, the content in pieces, the end marker.
pub open spec fn upload_frames(user: Seq<char>, file_name: Seq<char>, data: Seq<u8>) -> Seq<
    FrameView,
> {
    seq![FrameView::Text(start_text(user, file_name))] + chunks(data).map_values(
        |c: Seq<u8>| FrameView::Binary(c),
    ) + seq![FrameView::Text(end_text(file_name))]
}

/// The recipient and the path that a request to send a file names: the
/// third and the fourth word of the request.
pub open spec fn upload_request_of(message: Seq<char>) -> Option<(Seq<char>, Seq<char>)> {
    let parts = words(message, Spacing::Unicode);
    if parts.len() < 4 {
        None
    } else {
        Some((parts[2], parts[3]))
    }
}

/// Reads a request to send a file: `file -u <user> <path>`.
pub fn upload_request(message: &str) -> (out: Option<(String, String)>)
    ensures
        match out {
            Some((user, path)) => upload_request_of(message@) == Some((user@, path@)),
            None => upload_request_of(message@) is None,
        },
{
    let parts = split_words(message, Spacing::Unicode);
    if parts.len() < 4 {
        return None;
    }
    Some((parts[2].clone(), parts[3].clone()))
}

/// A copy of `data[from..to]`.
pub fn copy_bytes(data: &Vec<u8>, from: usize, to: usize) -> (out: Vec<u8>)
    requires
        from <= to <= data.len(),
    ensures
        out@ == data@.subrange(from as int, to as int),
{
    let mut out: Vec<u8> = Vec::new();
    let mut i: usize = from;
    while i < to
        invariant
            from <= i <= to <= data.len(),
            out@ == data@.subrange(from as int, i as int),
        decreases to - i,
    {
        out.push(data[i]);
        i += 1;
    }
    out
}

/// Cuts `data` into the pieces that go out as binary frames.
pub fn split_chunks(data: &Vec<u8>) -> (out: Vec<Vec<u8>>)
    ensures
        out.deep_view() == chunks(data@),
{
    let mut out: Vec<Vec<u8>> = Vec::new();
    let mut i: usize = 0;
    assert(data@.skip(0) == data@);
    while i < data.len()
        invariant
            i <= data.len(),
            out.deep_view() + chunks(data@.skip(i as int)) == chunks(data@),
        decreases data.len() - i,
    {
        let ghost rest = data@.skip(i as int);
        let end = if data.len() - i <= CHUNK_SIZE {
            data.len()
        } else {
            i + CHUNK_SIZE
        };
        let piece = copy_bytes(data, i, end);
        proof {
            assert(rest.take(end - i) == data@.subrange(i as int, end as int));
            if end == data.len() {
                assert(rest.take(end - i) == rest);
                assert(data@.skip(end as int).len() == 0);
                assert(out.deep_view().push(piece@) + chunks(data@.skip(end as int))
                    == out.deep_view() + chunks(rest));
            } else {
                assert(rest.skip(CHUNK_SIZE as int) == data@.skip(end as int));
                assert(out.deep_view().push(piece@) + chunks(data@.skip(end as int))
                    == out.deep_view() + chunks(rest));
            }
        }
        let ghost before = out.deep_view();
        assert(piece.deep_view() == piece@);
        out.push(piece);
        assert(out.deep_view() == before.push(piece@));
        i = end;
    }
    assert(data@.skip(i as int).len() == 0);
    assert(out.deep_view() + Seq::<Seq<u8>>::empty() == out.deep_view());
    out
}

/// The frames that send the file `file_name` with the content `data` to
/// `user`.
pub fn handle_file_upload(user: &str, file_name: &str, data: &Vec<u8>) -> (out: Vec<Frame>)
    ensures
        frame_views(out@) == upload_frames(user@, file_name@, data@),
{
    let mut start = glue3("file -u ", user, " ");
    start.append(file_name);
    let mut out: Vec<Frame> = Vec::new();
    out.push(Frame::Text(start));
    let pieces = split_chunks(data);
    let ghost all = chunks(data@);
    let ghost wrap = |c: Seq<u8>| FrameView::Binary(c);
    let n = pieces.len();
    let mut i: usize = 0;
    assert(frame_views(out@) == seq![FrameView::Text(start_text(user@, file_name@))]
        + all.take(0).map_values(wrap));
    while i < n
        invariant
            i <= n == pieces.len(),
            n == all.len(),
            pieces.deep_view() == all,
            wrap == |c: Seq<u8>| FrameView::Binary(c),
            frame_views(out@) == seq![FrameView::Text(start_text(user@, file_name@))] + all.take(
                i as int,
            ).map_values(wrap),
        decreases n - i,
    {
        let ghost before = frame_views(out@);
        let piece = pieces[i].clone();
        assert(piece@ == pieces@[i as int]@);
        assert(pieces@[i as int].deep_view() == pieces@[i as int]@);
        assert(pieces.deep_view()[i as int] == pieces@[i as int].deep_view());
        out.push(Frame::Binary(piece));
        assert(frame_views(out@) == before.push(FrameView::Binary(all[i as int])));
        assert(all.take(i + 1).map_values(wrap) == all.take(i as int).map_values(wrap).push(
            wrap(all[i as int]),
        ));
        i += 1;
    }
    assert(all.take(n as int) == all);
    let ghost before = frame_views(out@);
    out.push(Frame::Text(glue("EOF: ", file_name)));
    assert(frame_views(out@) == before.push(FrameView::Text(end_text(file_name@))));
    out
}

/// The text that `String::from_utf8_lossy` makes of `bytes`.
pub uninterp spec fn lossy_text(bytes: Seq<u8>) -> Seq<char>;

/// Calls `String::from_utf8_lossy`, which decodes `data` as UTF-8 and puts
/// U+FFFD in the place of what is not UTF-8.  The contract names its result
/// and states what the documentation does: bytes that are UTF-8 decode to
/// their text unchanged.
#[verifier::external_body]
pub(crate) fn text_lossy(data: &Vec<u8>) -> (out: String)
    ensures
        out@ == lossy_text(data@),
        valid_utf8(data@) ==> out@ == decode_utf8(data@),
{
    String::from_utf8_lossy(data).into_owned()
}

/// Calls `String::from_utf8`, which gives the text of `data` if and only if
/// `data` is UTF-8.
#[verifier::external_body]
pub(crate) fn text_strict(data: Vec<u8>) -> (out: Option<String>)
    ensures
        match out {
            Some(text) => valid_utf8(data@) && text@ == decode_utf8(data@),
            None => !valid_utf8(data@),
        },
{
    String::from_utf8(data).ok()
}

/// What a binary frame meant to the receiving client.
#[derive(Debug, PartialEq, Eq)]
pub enum Received {
    /// A transfer began: what follows is gathered for the file named.
    Started(String),
    /// A piece of the file came in; the number is its length in bytes.
    Chunk(usize),
    /// The transfer ended: `content` is to be written to the file `name`.
    Finished { name: String, content: Vec<u8> },
    /// The frame belongs to no transfer; the text is what it says.
    Message(String),
}

/// What a `Received` holds, with text and bytes as sequences.
pub ghost enum ReceivedView {
    Started(Seq<char>),
    Chunk(usize),
    Finished { name: Seq<char>, content: Seq<u8> },
    Message(Seq<char>),
}

impl View for Received {
    type V = ReceivedView;

    open spec fn view(&self) -> ReceivedView {
        match *self {
            Received::Started(name) => ReceivedView::Started(name@),
            Received::Chunk(len) => ReceivedView::Chunk(len),
            Received::Finished { name, content } => ReceivedView::Finished {
                name: name@,
                content: content@,
            },
            Received::Message(text) => ReceivedView::Message(text@),
        }
    }
}

/// The file being received, if any: its name and what has come in so far.
pub open spec fn buffer_view(buffer: Option<(String, Vec<u8>)>) -> Option<(Seq<char>, Seq<u8>)> {
    match buffer {
        Some((name, content)) => Some((name@, content@)),
        None => None,
    }
}

/// Whether a frame that reads `text` announces a file: it begins with
/// `Filename:` and has a second word, the name.
pub open spec fn is_announcement(text: Seq<char>) -> bool {
    starts_with(text, "Filename:"@) && words(text, Spacing::Unicode).len() >= 2
}

/// The bytes that end a transfer.
pub open spec fn end_marker() -> Seq<u8> {
    encode_utf8("EOF"@)
}

/// What a frame without a transfer says: its text where it is UTF-8.
pub open spec fn message_text(data: Seq<u8>) -> Seq<char> {
    if valid_utf8(data) {
        decode_utf8(data)
    } else {
        "<Invalid UTF-8>"@
    }
}

/// The file being received after a frame with the bytes `data`, which read
/// `text`.
pub open spec fn buffer_after(
    text: Seq<char>,
    data: Seq<u8>,
    buffer: Option<(Seq<char>, Seq<u8>)>,
) -> Option<(Seq<char>, Seq<u8>)> {
    if is_announcement(text) {
        Some((words(text, Spacing::Unicode)[1], Seq::empty()))
    } else {
        match buffer {
            Some((name, content)) => if data == end_marker() {
                None
            } else {
                Some((name, content + data))
            },
            None => None,
        }
    }
}

/// What a frame with the bytes `data`, which read `text`, means.
pub open spec fn received(
    text: Seq<char>,
    data: Seq<u8>,
    buffer: Option<(Seq<char>, Seq<u8>)>,
) -> ReceivedView {
    if is_announcement(text) {
        ReceivedView::Started(words(text, Spacing::Unicode)[1])
    } else {
        match buffer {
            Some((name, content)) => if data == end_marker() {
                ReceivedView::Finished { name, content }
            } else {
                ReceivedView::Chunk(data.len() as usize)
            },
            None => ReceivedView::Message(message_text(data)),
        }
    }
}

/// Whether `a` and `b` hold the same bytes.
pub fn same_bytes(a: &Vec<u8>, b: &Vec<u8>) -> (same: bool)
    ensures
        same == (a@ == b@),
{
    if a.len() != b.len() {
        return false;
    }
    let mut i: usize = 0;
    while i < a.len()
        invariant
            i <= a.len() == b.len(),
            forall|k: int| 0 <= k < i ==> a@[k] == b@[k],
        decreases a.len() - i,
    {
        if a[i] != b[i] {
            return false;
        }
        i += 1;
    }
    assert(a@ == b@);
    true
}

/// Takes in one binary frame whose bytes `data` read `text`: an
/// announcement opens a file, the end marker closes it, anything else is a
/// piece of the open file, or a message where no file is open.
pub fn receive_binary(text: &str, data: Vec<u8>, file_buffer: &mut Option<(String, Vec<u8>)>) -> (out:
    Received)
    ensures
        buffer_view(*final(file_buffer)) == buffer_after(
            text@,
            data@,
            buffer_view(*old(file_buffer)),
        ),
        out@ == received(text@, data@, buffer_view(*old(file_buffer))),
{
    if has_prefix(text, "Filename:") {
        let parts = split_words(text, Spacing::Unicode);
        if parts.len() >= 2 {
            let name = parts[1].clone();
            *file_buffer = Some((name.clone(), Vec::new()));
            return Received::Started(name);
        }
    }
    match file_buffer.take() {
        Some((name, mut content)) => {
            if same_bytes(&data, &bytes_of("EOF")) {
                Received::Finished { name, content }
            } else {
                let len = data.len();
                let mut data = data;
                content.append(&mut data);
                *file_buffer = Some((name, content));
                Received::Chunk(len)
            }
        },
        None => {
            let text = match text_strict(data) {
                Some(text) => text,
                None => "<Invalid UTF-8>".to_owned(),
            };
            Received::Message(text)
        },
    }
}

/// Takes in one binary frame from the relay.  The frame is read as text
/// with what is not UTF-8 replaced; bytes that are UTF-8 read as their text.
pub fn handle_binary_message(data: Vec<u8>, file_buffer: &mut Option<(String, Vec<u8>)>) -> (out:
    Received)
    ensures
        buffer_view(*final(file_buffer)) == buffer_after(
            lossy_text(data@),
            data@,
            buffer_view(*old(file_buffer)),
        ),
        out@ == received(lossy_text(data@), data@, buffer_view(*old(file_buffer))),
        valid_utf8(data@) ==> lossy_text(data@) == decode_utf8(data@),
{
    let content = text_lossy(&data);
    receive_binary(content.as_str(), data, file_buffer)
}

/// A piece in front of a list adds its bytes in front of the list's.
pub proof fn lemma_concat_first(first: Seq<u8>, rest: Seq<Seq<u8>>)
    ensures
        concat(seq![first] + rest) == first + concat(rest),
    decreases rest.len(),
{
    let all = seq![first] + rest;
    if rest.len() == 0 {
        assert(all.drop_last().len() == 0);
        assert(all.last() == first);
        assert(concat(all.drop_last()) == Seq::<u8>::empty());
        assert(concat(rest) == Seq::<u8>::empty());
        assert(concat(all) == Seq::<u8>::empty() + first);
        assert(first + Seq::<u8>::empty() == first);
        assert(Seq::<u8>::empty() + first == first);
    } else {
        assert(all.drop_last() == seq![first] + rest.drop_last());
        assert(all.last() == rest.last());
        lemma_concat_first(first, rest.drop_last());
        assert(first + concat(rest.drop_last()) + rest.last() == first + (concat(
            rest.drop_last(),
        ) + rest.last()));
    }
}

/// The pieces of a file, one after the other, are the file; no piece is
/// empty, none is longer than `CHUNK_SIZE`, and all but the last are full.
pub proof fn law_chunks(data: Seq<u8>)
    ensures
        concat(chunks(data)) == data,
        forall|i: int|
            0 <= i < chunks(data).len() ==> 0 < (#[trigger] chunks(data)[i]).len() <= CHUNK_SIZE,
        forall|i: int|
            0 <= i < chunks(data).len() - 1 ==> (#[trigger] chunks(data)[i]).len() == CHUNK_SIZE,
    decreases data.len(),
{
    if data.len() == 0 {
    } else if data.len() <= CHUNK_SIZE {
        lemma_concat_first(data, Seq::empty());
        assert(seq![data] + Seq::<Seq<u8>>::empty() == seq![data]);
        assert(data + Seq::<u8>::empty() == data);
    } else {
        let first = data.take(CHUNK_SIZE as int);
        let rest = data.skip(CHUNK_SIZE as int);
        law_chunks(rest);
        lemma_concat_first(first, chunks(rest));
        assert(first + rest == data);
        assert forall|i: int| 0 <= i < chunks(data).len() implies 0 < (#[trigger] chunks(
            data,
        )[i]).len() <= CHUNK_SIZE by {
            if i > 0 {
                assert(chunks(data)[i] == chunks(rest)[i - 1]);
            }
        }
        assert forall|i: int| 0 <= i < chunks(data).len() - 1 implies (#[trigger] chunks(
            data,
        )[i]).len() == CHUNK_SIZE by {
            if i > 0 {
                assert(chunks(data)[i] == chunks(rest)[i - 1]);
            }
        }
    }
}

/// The file being received after the frames `frames`, which read `texts`,
/// came in one after the other.
pub open spec fn gathered(
    texts: Seq<Seq<char>>,
    frames: Seq<Seq<u8>>,
    buffer: Option<(Seq<char>, Seq<u8>)>,
) -> Option<(Seq<char>, Seq<u8>)>
    decreases frames.len(),
{
    if frames.len() == 0 || texts.len() != frames.len() {
        buffer
    } else {
        buffer_after(
            texts.last(),
            frames.last(),
            gathered(texts.drop_last(), frames.drop_last(), buffer),
        )
    }
}

/// The frame that announces the file `name` opens an empty file of that
/// name, whatever was being received before.
pub proof fn law_announcement_opens_the_file(
    name: Seq<char>,
    data: Seq<u8>,
    buffer: Option<(Seq<char>, Seq<u8>)>,
)
    requires
        is_word(name, Spacing::Unicode),
    ensures
        is_announcement("Filename: "@ + name),
        received("Filename: "@ + name, data, buffer) == ReceivedView::Started(name),
        buffer_after("Filename: "@ + name, data, buffer) == Some((name, Seq::<u8>::empty())),
{
    let sp = Spacing::Unicode;
    let text = "Filename: "@ + name;
    let head = "Filename:"@;
    let tail = seq![' '] + name;
    reveal_strlit("Filename: ");
    reveal_strlit("Filename:");
    assert(text == head + tail);
    assert(is_word(head, sp));
    assert(sp.separates(tail[0]));
    lemma_words_split(head, tail, sp);
    lemma_words_of_word(head, sp);
    assert(tail.drop_first() == name);
    assert(words(tail, sp) == words(name, sp));
    lemma_words_of_word(name, sp);
    assert(words(text, sp) == seq![head, name]);
    assert(text.take(head.len() as int) == head);
}

/// While a file is being received, frames that neither announce a file nor
/// are the end marker are gathered in the order in which they come: the
/// file holds what it held, then the frames one after the other.
pub proof fn law_chunks_are_gathered_in_order(
    texts: Seq<Seq<char>>,
    frames: Seq<Seq<u8>>,
    name: Seq<char>,
    content: Seq<u8>,
)
    requires
        texts.len() == frames.len(),
        forall|i: int| 0 <= i < frames.len() ==> !is_announcement(#[trigger] texts[i]),
        forall|i: int| 0 <= i < frames.len() ==> #[trigger] frames[i] != end_marker(),
    ensures
        gathered(texts, frames, Some((name, content))) == Some((name, content + concat(frames))),
    decreases frames.len(),
{
    if frames.len() == 0 {
        assert(content + concat(frames) == content);
    } else {
        law_chunks_are_gathered_in_order(texts.drop_last(), frames.drop_last(), name, content);
        assert(!is_announcement(texts.last()));
        assert(frames.last() != end_marker());
        assert(content + concat(frames.drop_last()) + frames.last() == content + concat(frames));
    }
}

/// The end marker hands the gathered file out and closes it, so that a
/// second end marker hands out nothing.
pub proof fn law_end_marker_closes_the_file(text: Seq<char>, name: Seq<char>, content: Seq<u8>)
    requires
        !is_announcement(text),
    ensures
        received(text, end_marker(), Some((name, content))) == (ReceivedView::Finished {
            name,
            content,
        }),
        buffer_after(text, end_marker(), Some((name, content))) is None,
        received(text, end_marker(), None) is Message,
        buffer_after(text, end_marker(), None) is None,
{
}

} // verus!
