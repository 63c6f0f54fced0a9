use vstd::prelude::*;

verus! {

/// A message from the browser client to the server.
#[derive(Debug, Clone, Copy, PartialEq, Eq)]
pub enum ClientMessage {
    /// Which of the two engines the player holds down.
    Input { left: bool, right: bool },
}

} // verus!
