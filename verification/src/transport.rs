//! Sending frames between processes over a Unix socket: one JSON text per
//! line.
use crate::protocol::{Message, StateRef};
use vstd::prelude::*;

verus! {

/// A message with the state handles that travel with it.
#[derive(Debug, Clone)]
pub struct TransportFrame {
    pub message: Message,
    pub state_refs: Vec<StateRef>,
}

/// Sends frames to the Unix socket at a path.
#[derive(Debug, Clone)]
pub struct UnixSocketTransport {
    path: String,
}

impl UnixSocketTransport {
    /// The path of the socket.
    pub closed spec fn socket_path(&self) -> Seq<char> {
        self.path@
    }

    /// A transport to the socket at `path`.
    pub fn new(path: &str) -> (t: Self)
        ensures
            t.socket_path() == path@,
    {
        UnixSocketTransport { path: String::from_str(path) }
    }

    /// The path of the socket.
    pub fn path(&self) -> (p: &str)
        ensures
            p@ == self.socket_path(),
    {
        self.path.as_str()
    }
}

/// The bytes sent for one frame: its JSON text, then a newline.
pub fn frame_line(json: Vec<u8>) -> (line: Vec<u8>)
    ensures
        line@ == json@.push(10u8),
{
    let mut line = json;
    line.push(10u8);
    line
}

} // verus!
