use vstd::prelude::*;

use crate::protocol::ClientMessage;

verus! {

/// What reading the client's socket produced, as the decisions below see it.
#[derive(Debug, Clone, Copy, PartialEq, Eq)]
pub enum Frame {
    /// Nothing has arrived yet.
    Pending,
    /// The stream has ended.
    Ended,
    /// The socket reported an error.
    Failed,
    /// The client closed the connection.
    Close,
    /// A text frame, with the client message it holds, if it holds one.
    Text(Option<ClientMessage>),
    /// Any other frame (binary, ping, pong).
    Other,
}

/// What a blocking read does after a frame.
#[derive(Debug, Clone, Copy, PartialEq, Eq)]
pub enum RecvStep {
    /// Hand this result to the caller.
    Return(Option<ClientMessage>),
    /// Wait for the next frame.
    Continue,
}

/// The message that a non-blocking read yields for a frame: only a text
/// frame that holds a client message yields one.
pub fn try_recv_message(frame: Frame) -> (msg: Option<ClientMessage>)
    ensures
        msg == (match frame {
            Frame::Text(m) => m,
            _ => None,
        }),
{
    match frame {
        Frame::Text(m) => m,
        _ => None,
    }
}

/// What a blocking read does with a frame: a text frame that holds a client
/// message is handed out; the end of the stream, an error or a close ends
/// the read with nothing; every other frame is skipped.
pub fn recv_step(frame: Frame) -> (step: RecvStep)
    ensures
        step == (match frame {
            Frame::Text(Some(m)) => RecvStep::Return(Some(m)),
            Frame::Ended | Frame::Failed | Frame::Close => RecvStep::Return(None),
            _ => RecvStep::Continue,
        }),
{
    match frame {
        Frame::Text(Some(m)) => RecvStep::Return(Some(m)),
        Frame::Ended | Frame::Failed | Frame::Close => RecvStep::Return(None),
        _ => RecvStep::Continue,
    }
}

} // verus!
