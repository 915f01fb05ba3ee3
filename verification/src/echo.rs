//! The echo service of the interface binaries: what the server answers to
//! each request and to each frame of a raw stream.

use vstd::prelude::*;
use vstd::utf8::{decode_utf8, encode_utf8, valid_utf8};
use crate::text::concat;

verus! {

/// The text that `String::from_utf8_lossy` makes of some bytes: their
/// characters, each invalid sequence replaced by U+FFFD.
pub uninterp spec fn utf8_lossy(bytes: Seq<u8>) -> Seq<char>;

/// `String::from_utf8_lossy`, copied out. std documents that valid UTF-8
/// comes out unchanged.
#[verifier::external_body]
fn lossy_text(bytes: &[u8]) -> (r: String)
    ensures
        r@ == utf8_lossy(bytes@),
        valid_utf8(bytes@) ==> r@ == decode_utf8(bytes@),
{
    String::from_utf8_lossy(bytes).into_owned()
}

/// The echo of a message.
pub fn echo_text(message: &str) -> (r: String)
    ensures
        r@ == "ECHO: "@ + message@,
{
    concat("ECHO: ", message)
}

/// The bytes answered to a data payload: the echo of its text.
pub fn echo_reply(payload: &[u8]) -> (r: Vec<u8>)
    ensures
        r@ == encode_utf8("ECHO: "@ + utf8_lossy(payload@)),
        valid_utf8(payload@) ==> r@ == encode_utf8("ECHO: "@ + decode_utf8(payload@)),
{
    let text = lossy_text(payload);
    let reply = echo_text(text.as_str());
    vstd::slice::slice_to_vec(reply.as_str().as_bytes())
}

/// The kinds of frame a raw stream carries.
#[derive(Debug, Clone, Copy, PartialEq, Eq, Structural)]
pub enum FrameKind {
    Open,
    Data,
    Close,
    Other,
}

/// What the raw echo server does with a frame.
#[derive(Debug)]
pub enum EchoStep {
    /// A stream was opened: note it.
    Opened,
    /// Send these bytes back on the stream, then close it.
    Reply(Vec<u8>),
    /// The client closed a stream: note it.
    Closed,
    /// Nothing to do.
    Skip,
}

/// The step for a frame: a data frame with a non-empty payload is
/// answered with its echo; an empty one, or a frame of another kind than
/// open, data or close, is skipped.
pub fn on_frame(kind: FrameKind, payload: Option<Vec<u8>>) -> (r: EchoStep)
    ensures
        kind == FrameKind::Open ==> r is Opened,
        kind == FrameKind::Close ==> r is Closed,
        kind == FrameKind::Other ==> r is Skip,
        kind == FrameKind::Data ==> match payload {
            Some(p) if p@.len() > 0 => r matches EchoStep::Reply(b) && b@ == encode_utf8(
                "ECHO: "@ + utf8_lossy(p@),
            ),
            _ => r is Skip,
        },
{
    match kind {
        FrameKind::Open => EchoStep::Opened,
        FrameKind::Close => EchoStep::Closed,
        FrameKind::Other => EchoStep::Skip,
        FrameKind::Data => match payload {
            Some(p) => if p.len() == 0 {
                EchoStep::Skip
            } else {
                EchoStep::Reply(echo_reply(p.as_slice()))
            },
            None => EchoStep::Skip,
        },
    }
}

/// A request of the echo action.
#[derive(Debug)]
pub struct UserMessage {
    pub message: String,
}

/// The user the echo service names in its answers.
#[derive(Debug)]
pub struct User {
    pub name: String,
    pub age: u32,
}

/// The answer of the echo action.
#[derive(Debug)]
pub struct ServerResponse {
    pub response: String,
    pub user: User,
}

/// Answers an echo request: the echo of its message, and the fixed user
/// Alice, 30.
pub fn respond(request: &UserMessage) -> (r: ServerResponse)
    ensures
        r.response@ == "ECHO: "@ + request.message@,
        r.user.name@ == "Alice"@,
        r.user.age == 30,
{
    ServerResponse {
        response: echo_text(request.message.as_str()),
        user: User { name: String::from_str("Alice"), age: 30 },
    }
}

} // verus!
