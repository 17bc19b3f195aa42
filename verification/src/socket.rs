//! What comes out of a web socket.

use crate::control_frame;
use crate::conversion;
use crate::conversion::{ControlMessage, ControlView, TerminalMessage, TerminalView};
use crate::terminal_frame;
use crate::wire_format;
use vstd::prelude::*;
use vstd::slice::slice_to_vec;
use vstd::utf8;

verus! {

/// A frame of a web socket, or the failure to read one.
#[derive(Debug)]
pub enum SocketFrame {
    Binary(Vec<u8>),
    Text(String),
    Close,
    /// Pings, pongs and the like.
    Other,
    Failed,
}

/// What a frame is to someone who reads data.
#[derive(Debug)]
pub enum FrameContent {
    Bytes(Vec<u8>),
    Skipped,
    Ended,
}

/// The data of a frame, where it has any. A text counts as its bytes.
pub open spec fn frame_data(frame: Option<SocketFrame>) -> Option<Seq<u8>> {
    match frame {
        Some(SocketFrame::Binary(b)) => Some(b@),
        Some(SocketFrame::Text(t)) => Some(utf8::encode_utf8(t@)),
        _ => None,
    }
}

/// Whether nothing is read behind a frame.
pub open spec fn frame_ends(frame: Option<SocketFrame>) -> bool {
    frame is None || frame == Some(SocketFrame::Close) || frame == Some(SocketFrame::Failed)
}

/// The data of a frame; `None` stands for the end of the stream. A text counts
/// as its bytes.
pub fn frame_content(frame: Option<SocketFrame>) -> (content: FrameContent)
    ensures
        match frame_data(frame) {
            Some(data) => content matches FrameContent::Bytes(b) && b@ == data,
            None => content == if frame_ends(frame) {
                FrameContent::Ended
            } else {
                FrameContent::Skipped
            },
        },
{
    match frame {
        Some(SocketFrame::Binary(b)) => FrameContent::Bytes(b),
        Some(SocketFrame::Text(t)) => FrameContent::Bytes(slice_to_vec(t.as_str().as_bytes())),
        Some(SocketFrame::Other) => FrameContent::Skipped,
        Some(SocketFrame::Close) => FrameContent::Ended,
        Some(SocketFrame::Failed) => FrameContent::Ended,
        None => FrameContent::Ended,
    }
}

/// What the reader of a control tunnel makes of a frame.
#[derive(Debug)]
pub enum ControlRead {
    Message(ControlMessage),
    /// Nothing to act on; read on.
    Skipped,
    Ended,
}

/// What [`read_control`] returns.
pub open spec fn control_read_is(frame: Option<SocketFrame>, r: ControlRead) -> bool {
    match frame_data(frame) {
        Some(data) => match wire_format::decode_frame(control_frame::schema(), data) {
            Some(Some(content)) => r matches ControlRead::Message(message)
                && message@.content() == content,
            _ => r is Skipped,
        },
        None => if frame_ends(frame) {
            r is Ended
        } else {
            r is Skipped
        },
    }
}

/// Reads a frame of a control tunnel. Data that is no message is passed over.
pub fn read_control(frame: Option<SocketFrame>) -> (r: ControlRead)
    ensures
        control_read_is(frame, r),
{
    match frame_content(frame) {
        FrameContent::Bytes(bytes) => match conversion::decode_control_frame(bytes.as_slice()) {
            Ok(message) => ControlRead::Message(message),
            Err(_) => ControlRead::Skipped,
        },
        FrameContent::Skipped => ControlRead::Skipped,
        FrameContent::Ended => ControlRead::Ended,
    }
}

/// What the reader of a terminal tunnel makes of a frame.
#[derive(Debug)]
pub enum TerminalRead {
    Message(TerminalMessage),
    /// Nothing to act on; read on.
    Skipped,
    Ended,
}

/// What [`read_terminal`] returns.
pub open spec fn terminal_read_is(frame: Option<SocketFrame>, r: TerminalRead) -> bool {
    match frame_data(frame) {
        Some(data) => match wire_format::decode_frame(terminal_frame::schema(), data) {
            Some(Some(content)) => r matches TerminalRead::Message(message)
                && message@.content() == content,
            _ => r is Skipped,
        },
        None => if frame_ends(frame) {
            r is Ended
        } else {
            r is Skipped
        },
    }
}

/// Reads a frame of a terminal tunnel. Data that is no message is passed over.
pub fn read_terminal(frame: Option<SocketFrame>) -> (r: TerminalRead)
    ensures
        terminal_read_is(frame, r),
{
    match frame_content(frame) {
        FrameContent::Bytes(bytes) => match conversion::decode_terminal_frame(bytes.as_slice()) {
            Ok(message) => TerminalRead::Message(message),
            Err(_) => TerminalRead::Skipped,
        },
        FrameContent::Skipped => TerminalRead::Skipped,
        FrameContent::Ended => TerminalRead::Ended,
    }
}

/// Every frame has data, ends the stream, or is passed over, and only one of
/// these: a binary frame and a text have data, and the same where the frame
/// holds the bytes of the text; the end of the stream, a close and a failure end
/// it.
pub proof fn law_frame_is_one_of_three(frame: Option<SocketFrame>, bytes: Vec<u8>, text: String)
    ensures
        !(frame_data(frame) is Some && frame_ends(frame)),
        frame_data(frame) is Some <==> (frame matches Some(f) && (f is Binary || f is Text)),
        frame_ends(frame) <==> (frame matches Some(f) ==> f is Close || f is Failed),
        frame_data(Some(SocketFrame::Binary(bytes))) == Some(bytes@),
        bytes@ == utf8::encode_utf8(text@) ==> frame_data(Some(SocketFrame::Binary(bytes)))
            == frame_data(Some(SocketFrame::Text(text))),
{
}

/// A control message that was sent is read as it was, in a binary frame or in a
/// text with the same bytes. What is no message is passed over, and only the end
/// of the stream ends the reading.
pub proof fn law_control_message_is_read(
    frame: Option<SocketFrame>,
    message: ControlView,
    r: ControlRead,
)
    requires
        control_read_is(frame, r),
        message.encoded().len() <= u64::MAX,
    ensures
        frame_data(frame) == Some(message.encoded()) ==> (r matches ControlRead::Message(m) && m@
            == message),
        r is Ended <==> frame is None || frame == Some(SocketFrame::Close) || frame == Some(
            SocketFrame::Failed,
        ),
        r is Message ==> (frame matches Some(f) && (f is Binary || f is Text)),
{
    conversion::law_control_message_roundtrip(message);
    if let ControlRead::Message(m) = r {
        if m@.content() == message.content() {
            conversion::law_control_content_injective(m@, message);
        }
    }
}

/// As [`law_control_message_is_read`], for a message of the terminal tunnel.
pub proof fn law_terminal_message_is_read(
    frame: Option<SocketFrame>,
    message: TerminalView,
    r: TerminalRead,
)
    requires
        terminal_read_is(frame, r),
        message.encoded().len() <= u64::MAX,
    ensures
        frame_data(frame) == Some(message.encoded()) ==> (r matches TerminalRead::Message(m) && m@
            == message),
        r is Ended <==> frame is None || frame == Some(SocketFrame::Close) || frame == Some(
            SocketFrame::Failed,
        ),
        r is Message ==> (frame matches Some(f) && (f is Binary || f is Text)),
{
    conversion::law_terminal_message_roundtrip(message);
    if let TerminalRead::Message(m) = r {
        if m@.content() == message.content() {
            conversion::law_terminal_content_injective(m@, message);
        }
    }
}

} // verus!
