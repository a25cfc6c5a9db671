//! One connected client as the registry records it.

use vstd::prelude::*;

verus! {

/// The part a peer plays in its room.
#[derive(Debug, Clone, Copy, PartialEq, Eq, Structural)]
pub enum PeerType {
    /// The peer that opened the room; its id is the room's id.
    Sharer {},
    /// A peer that joined a room under an id of its own choosing.
    Viewer {},
}

/// A registered peer. `sender` names the outbox of the connection that the
/// peer arrived on; the caller owns the queue behind that number.
#[derive(Debug, PartialEq, Eq)]
pub struct Peer {
    pub room: String,
    pub sender: u64,
    pub peer_type: PeerType,
}

/// What a `Peer` stands for in contracts.
pub struct PeerView {
    pub room: Seq<char>,
    pub sender: u64,
    pub peer_type: PeerType,
}

impl View for Peer {
    type V = PeerView;

    open spec fn view(&self) -> PeerView {
        PeerView { room: self.room@, sender: self.sender, peer_type: self.peer_type }
    }
}

impl Clone for Peer {
    fn clone(&self) -> (copy: Self)
        ensures
            copy == *self,
    {
        Peer { room: self.room.clone(), sender: self.sender, peer_type: self.peer_type }
    }
}

} // verus!
