//! The envelope of the node-to-node protocol.
//!
//! Messages are framed as newline-delimited JSON: one message per line,
//! so that a reader can split the stream without any length prefix.

use vstd::prelude::*;

use crate::tasks::result::TaskResult;
use crate::tasks::task::Task;

verus! {

/// Every message two nodes can exchange.
#[derive(Clone, Debug, PartialEq, Eq)]
pub enum MessageType {
    /// Liveness probe; the receiver answers with `Pong`.
    Ping,
    /// Answer to a `Ping`.
    Pong,
    /// A task dispatched to a worker, answered with a `Result` carrying
    /// the same task id.
    Task(Task),
    /// The outcome of a previously dispatched task.
    Result(TaskResult),
}

/// The envelope of every message: the sender's node id and a payload.
#[derive(Clone, Debug, PartialEq, Eq)]
pub struct NodeMessage {
    /// The node that originated this message.
    pub node_id: String,
    /// What the message says.
    pub message_type: MessageType,
}

/// The line terminator that frames messages.
pub open spec fn newline() -> Seq<char> {
    seq!['\n']
}

/// Why a reply line could not be had.
#[derive(Clone, Copy, Debug, PartialEq, Eq, Structural)]
pub enum FrameError {
    /// The peer closed the connection without sending a line.
    PeerClosed,
}

/// A character with the Unicode `White_Space` property, the whitespace
/// that `str::trim_end` removes.
pub open spec fn is_white_space(c: char) -> bool {
    let u = c as u32;
    ||| 0x09 <= u <= 0x0D
    ||| u == 0x20
    ||| u == 0x85
    ||| u == 0xA0
    ||| u == 0x1680
    ||| 0x2000 <= u <= 0x200A
    ||| u == 0x2028
    ||| u == 0x2029
    ||| u == 0x202F
    ||| u == 0x205F
    ||| u == 0x3000
}

/// The text without its trailing whitespace: the longest prefix that is
/// empty or ends in a character that is not whitespace.
pub open spec fn trim_end_spec(s: Seq<char>) -> Seq<char>
    decreases s.len(),
{
    if s.len() > 0 && is_white_space(s.last()) {
        trim_end_spec(s.drop_last())
    } else {
        s
    }
}

/// `str::trim_end`: the slice with every trailing character of the
/// Unicode `White_Space` property removed.
#[verifier::external_body]
fn trim_line_end(s: &str) -> (r: &str)
    ensures
        r@ == trim_end_spec(s@),
{
    s.trim_end()
}

/// Frame one encoded message for the wire: the text and a newline.
pub fn frame_line(encoded: &str) -> (line: String)
    ensures
        line@ == encoded@ + newline(),
{
    let mut line = crate::text::owned(encoded);
    line.append("\n");
    proof {
        reveal_strlit("\n");
        assert("\n"@ =~= newline());
    }
    line
}

/// The message text in a line read from a peer: `PeerClosed` when the
/// read returned no bytes, otherwise the line without trailing
/// whitespace (the newline included).
pub fn unframe_line(line: &str, bytes_read: usize) -> (r: Result<&str, FrameError>)
    ensures
        bytes_read == 0 ==> r == Err::<&str, FrameError>(FrameError::PeerClosed),
        bytes_read != 0 ==> (r matches Ok(t) && t@ == trim_end_spec(line@)),
{
    if bytes_read == 0 {
        Err(FrameError::PeerClosed)
    } else {
        Ok(trim_line_end(line))
    }
}

/// Unframing a framed line gives the text back, whenever the text does
/// not itself end in whitespace (as encoded JSON never does).
pub proof fn law_unframe_of_framed_line(text: Seq<char>)
    requires
        text.len() == 0 || !is_white_space(text.last()),
    ensures
        trim_end_spec(text + newline()) == text,
{
    let framed = text + newline();
    assert(framed.drop_last() =~= text);
    assert(framed.last() == '\n');
    assert(is_white_space('\n'));
    assert(trim_end_spec(text) == text);
    assert(trim_end_spec(framed) == trim_end_spec(text));
}

} // verus!
