//! The registry as mathematics: three maps, the moves that change them and
//! the conditions that tie them together. The executable `State` is specified
//! against this model, and the laws of the protocol are proved of it.

use vstd::prelude::*;
use crate::effect::{EffectView, PayloadView};
use crate::error::SignalError;
use crate::peer::{PeerType, PeerView};
use crate::session::{other_than, SessionView};
use crate::signaller_message::MessageView;

verus! {

/// Peers by id, open rooms by id, and for each remote address the room that
/// was last opened from it.
#[verifier::ext_equal]
pub struct Registry {
    pub sessions: Map<Seq<char>, SessionView>,
    pub sharer_ip_to_room: Map<Seq<char>, Seq<char>>,
    pub peers: Map<Seq<char>, PeerView>,
}

/// The notice that tells `viewer`, on outbox `to`, that `room` is gone.
pub open spec fn room_closed(to: u64, viewer: Seq<char>, room: Seq<char>) -> EffectView {
    EffectView::Send {
        to,
        payload: PayloadView::Message(MessageView::RoomClosed { to: viewer, room }),
    }
}

/// The notices sent when `room` closes: one for each listed viewer that is
/// registered in `peers`, in the order of the list, at its first mention.
pub open spec fn room_closed_notices(
    peers: Map<Seq<char>, PeerView>,
    viewers: Seq<Seq<char>>,
    room: Seq<char>,
) -> Seq<EffectView>
    decreases viewers.len(),
{
    if viewers.len() == 0 {
        Seq::empty()
    } else {
        let earlier = viewers.drop_last();
        let viewer = viewers.last();
        let notices = room_closed_notices(peers, earlier, room);
        if peers.contains_key(viewer) && !earlier.contains(viewer) {
            notices.push(room_closed(peers[viewer].sender, viewer, room))
        } else {
            notices
        }
    }
}

/// Ticks from `start` to `now`; zero when the clock has gone back.
pub open spec fn elapsed(start: u64, now: u64) -> u64 {
    if now >= start {
        (now - start) as u64
    } else {
        0
    }
}

impl Registry {
    pub open spec fn empty() -> Registry {
        Registry { sessions: Map::empty(), sharer_ip_to_room: Map::empty(), peers: Map::empty() }
    }

    pub open spec fn has_room(self, room: Seq<char>) -> bool {
        self.sessions.contains_key(room)
    }

    /// The room of peer `id`, if it is registered.
    pub open spec fn room_of(self, id: Seq<char>) -> Option<Seq<char>> {
        if self.peers.contains_key(id) {
            Some(self.peers[id].room)
        } else {
            None
        }
    }

    /// The outbox of peer `id`, if it is registered.
    pub open spec fn outbox_of(self, id: Seq<char>) -> Option<u64> {
        if self.peers.contains_key(id) {
            Some(self.peers[id].sender)
        } else {
            None
        }
    }

    /// The registry after `room` was opened by the connection with outbox
    /// `sender` and remote address `source`, at clock reading `now`.
    pub open spec fn add_sharer(
        self,
        room: Seq<char>,
        sender: u64,
        source: Seq<char>,
        now: u64,
    ) -> Registry {
        Registry {
            sessions: self.sessions.insert(
                room,
                SessionView {
                    sharer: room,
                    viewers: Seq::empty(),
                    start_time: now,
                    sharer_socket_addr: source,
                },
            ),
            sharer_ip_to_room: self.sharer_ip_to_room.insert(source, room),
            peers: self.peers.insert(
                room,
                PeerView { room, sender, peer_type: PeerType::Sharer {  } },
            ),
        }
    }

    /// Why `id` may not join `room`, if it may not. A missing room is
    /// reported before a taken id.
    pub open spec fn join_refusal(self, id: Seq<char>, room: Seq<char>) -> Option<SignalError> {
        if !self.sessions.contains_key(room) {
            Some(SignalError::RoomMissing)
        } else if self.peers.contains_key(id) {
            Some(SignalError::PeerCollision)
        } else {
            None
        }
    }

    /// The registry after `id` joined the open room `room` with outbox `sender`.
    pub open spec fn add_viewer(self, id: Seq<char>, room: Seq<char>, sender: u64) -> Registry {
        let session = self.sessions[room];
        let viewers = if session.viewers.contains(id) {
            session.viewers
        } else {
            session.viewers.push(id)
        };
        Registry {
            sessions: self.sessions.insert(room, SessionView { viewers, ..session }),
            peers: self.peers.insert(
                id,
                PeerView { room, sender, peer_type: PeerType::Viewer {  } },
            ),
            ..self
        }
    }

    /// The registry after `room` was closed: the room, its entry in the
    /// address index, its viewers and its sharer are gone. Closing a room
    /// that is not open changes nothing.
    pub open spec fn remove_session(self, room: Seq<char>) -> Registry {
        if self.sessions.contains_key(room) {
            let session = self.sessions[room];
            Registry {
                sessions: self.sessions.remove(room),
                sharer_ip_to_room: self.sharer_ip_to_room.remove(session.sharer_socket_addr),
                peers: self.peers.remove_keys(session.viewers.to_set()).remove(session.sharer),
            }
        } else {
            self
        }
    }

    /// What closing `room` at clock reading `now` asks of the caller: the
    /// session's end with its duration, then the notices to the viewers.
    pub open spec fn closing_effects(self, room: Seq<char>, now: u64) -> Seq<EffectView> {
        if self.sessions.contains_key(room) {
            let session = self.sessions[room];
            seq![EffectView::SessionEnded { duration: elapsed(session.start_time, now) }]
                + room_closed_notices(self.peers, session.viewers, room)
        } else {
            Seq::empty()
        }
    }

    /// Whether `leave_session(id)` finds anyone to remove.
    pub open spec fn can_leave(self, id: Seq<char>) -> bool {
        self.sessions.contains_key(id) || self.peers.contains_key(id)
    }

    /// The registry after peer `id` left. A sharer takes its room with it; a
    /// viewer is struck from its room's list and from the peers.
    pub open spec fn leave_session(self, id: Seq<char>) -> Registry {
        if self.sessions.contains_key(id) {
            self.remove_session(id)
        } else if self.peers.contains_key(id) {
            let room = self.peers[id].room;
            Registry {
                sessions: if self.sessions.contains_key(room) {
                    let session = self.sessions[room];
                    self.sessions.insert(
                        room,
                        SessionView {
                            viewers: session.viewers.filter(other_than(id)),
                            ..session
                        },
                    )
                } else {
                    self.sessions
                },
                peers: self.peers.remove(id),
                ..self
            }
        } else {
            self
        }
    }

    pub open spec fn leave_effects(self, id: Seq<char>, now: u64) -> Seq<EffectView> {
        if self.sessions.contains_key(id) {
            self.closing_effects(id, now)
        } else {
            Seq::empty()
        }
    }

    /// The registry after the connection from `source` was lost: the room
    /// indexed under that address, if there is one, is closed.
    pub open spec fn on_disconnect(self, source: Seq<char>) -> Registry {
        if self.sharer_ip_to_room.contains_key(source) {
            self.remove_session(self.sharer_ip_to_room[source])
        } else {
            self
        }
    }

    pub open spec fn disconnect_effects(self, source: Seq<char>, now: u64) -> Seq<EffectView> {
        if self.sharer_ip_to_room.contains_key(source) {
            self.closing_effects(self.sharer_ip_to_room[source], now)
        } else {
            Seq::empty()
        }
    }

    /// Every room's sharer is a registered peer, a sharer, of that room.
    pub open spec fn sharers_registered(self) -> bool {
        forall|room: Seq<char>| #[trigger]
            self.sessions.contains_key(room) ==> {
                let sharer = self.sessions[room].sharer;
                &&& self.peers.contains_key(sharer)
                &&& self.peers[sharer].peer_type is Sharer
                &&& self.peers[sharer].room == room
            }
    }

    /// Every listed viewer is a registered peer, a viewer, of that room.
    pub open spec fn viewers_registered(self) -> bool {
        forall|room: Seq<char>, viewer: Seq<char>|
            self.sessions.contains_key(room) && #[trigger] self.sessions[room].viewers.contains(
                viewer,
            ) ==> {
                &&& self.peers.contains_key(viewer)
                &&& self.peers[viewer].peer_type is Viewer
                &&& self.peers[viewer].room == room
            }
    }

    /// Every viewer peer is listed in its room, which is open.
    pub open spec fn viewer_peers_listed(self) -> bool {
        forall|id: Seq<char>| #[trigger]
            self.peers.contains_key(id) && self.peers[id].peer_type is Viewer ==> {
                &&& self.sessions.contains_key(self.peers[id].room)
                &&& self.sessions[self.peers[id].room].viewers.contains(id)
            }
    }

    /// Every sharer peer is the sharer of its room, which is open.
    pub open spec fn sharer_peers_own_rooms(self) -> bool {
        forall|id: Seq<char>| #[trigger]
            self.peers.contains_key(id) && self.peers[id].peer_type is Sharer ==> {
                &&& self.sessions.contains_key(self.peers[id].room)
                &&& self.sessions[self.peers[id].room].sharer == id
            }
    }

    /// A room's id is its sharer's peer id.
    pub open spec fn rooms_named_after_sharers(self) -> bool {
        forall|room: Seq<char>| #[trigger]
            self.sessions.contains_key(room) ==> self.sessions[room].sharer == room
    }

    /// The address index holds one entry for each open room and no other:
    /// the room's address leads to the room.
    pub open spec fn sources_indexed(self) -> bool {
        &&& forall|room: Seq<char>| #[trigger]
            self.sessions.contains_key(room) ==> {
                &&& self.sharer_ip_to_room.contains_key(self.sessions[room].sharer_socket_addr)
                &&& self.sharer_ip_to_room[self.sessions[room].sharer_socket_addr] == room
            }
        &&& forall|source: Seq<char>| #[trigger]
            self.sharer_ip_to_room.contains_key(source) ==> {
                &&& self.sessions.contains_key(self.sharer_ip_to_room[source])
                &&& self.sessions[self.sharer_ip_to_room[source]].sharer_socket_addr == source
            }
    }

    /// No peer names a room that is not open.
    pub open spec fn no_dangling_keys(self) -> bool {
        forall|id: Seq<char>| #[trigger]
            self.peers.contains_key(id) ==> self.sessions.contains_key(self.peers[id].room)
    }

    /// No room lists a viewer twice.
    pub open spec fn viewers_listed_once(self) -> bool {
        forall|room: Seq<char>| #[trigger]
            self.sessions.contains_key(room) ==> self.sessions[room].viewers.no_duplicates()
    }

    /// The registry is consistent: its three maps agree with one another.
    pub open spec fn inv(self) -> bool {
        &&& self.sharers_registered()
        &&& self.viewers_registered()
        &&& self.viewer_peers_listed()
        &&& self.sharer_peers_own_rooms()
        &&& self.rooms_named_after_sharers()
        &&& self.sources_indexed()
        &&& self.no_dangling_keys()
        &&& self.viewers_listed_once()
    }
}

} // verus!
