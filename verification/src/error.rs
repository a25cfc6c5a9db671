//! Why the registry or the dispatcher turned a request down.

use vstd::prelude::*;
use vstd::string::StringExecFns;

verus! {

#[derive(Debug, Clone, Copy, PartialEq, Eq, Structural)]
pub enum SignalError {
    /// A room of that id is already open.
    RoomCollision,
    /// No room of that id is open.
    RoomMissing,
    /// A peer of that id is already registered.
    PeerCollision,
    /// No peer of that id is registered.
    PeerUnknown,
}

impl SignalError {
    /// The text that a declined client is shown.
    pub open spec fn reason(self) -> Seq<char> {
        match self {
            SignalError::RoomCollision => "room already exists"@,
            SignalError::RoomMissing => "room does not exist"@,
            SignalError::PeerCollision => "peer already exists"@,
            SignalError::PeerUnknown => "Peer does not exist"@,
        }
    }

    pub fn message(&self) -> (text: String)
        ensures
            text@ == self.reason(),
    {
        match self {
            SignalError::RoomCollision => String::from_str("room already exists"),
            SignalError::RoomMissing => String::from_str("room does not exist"),
            SignalError::PeerCollision => String::from_str("peer already exists"),
            SignalError::PeerUnknown => String::from_str("Peer does not exist"),
        }
    }
}

} // verus!
