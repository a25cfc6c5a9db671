//! What holds of the registry and the dispatcher whatever the traffic.

use vstd::prelude::*;
use crate::effect::{EffectView, PayloadView};
use crate::error::SignalError;
use crate::handler::{
    dispatched, dropped, joined, left, relay, reply, search_for_room, started,
};
use crate::peer::PeerView;
use crate::registry::{elapsed, room_closed, room_closed_notices, Registry};
use crate::room::is_room_id;
use crate::session::other_than;
use crate::signaller_message::MessageView;
use crate::state::BrokerView;

verus! {

/// One thing that happens to the server: a frame arrives, or a connection
/// is lost.
pub enum Event {
    /// `message` came as the frame `raw` on the connection with outbox `tx`
    /// and remote address `source` at clock reading `now`; `room` is the id
    /// that a `start` is given.
    Frame {
        message: MessageView,
        raw: Seq<char>,
        tx: u64,
        source: Seq<char>,
        now: u64,
        room: Seq<char>,
    },
    /// The connection from `source` was lost.
    Disconnect { source: Seq<char> },
}

/// The registry after `event`.
pub open spec fn after(registry: Registry, broker: BrokerView, event: Event) -> Registry {
    match event {
        Event::Frame { message, raw, tx, source, now, room } => dispatched(
            registry,
            broker,
            message,
            raw,
            tx,
            source,
            now,
            room,
        ).registry,
        Event::Disconnect { source } => registry.on_disconnect(source),
    }
}

/// The events on which consistency can be lost are a `start` that opens a
/// room under an id that some peer already holds, and a `start` from an
/// address that already has a room. Every other event is clear.
pub open spec fn clear(registry: Registry, event: Event) -> bool {
    match event {
        Event::Frame { message, raw, tx, source, now, room } => message is Start
            && !registry.has_room(room) ==> !registry.peers.contains_key(room)
            && !registry.sharer_ip_to_room.contains_key(source),
        Event::Disconnect { source } => true,
    }
}

/// The registry after the events of `events`, in order.
pub open spec fn after_all(registry: Registry, broker: BrokerView, events: Seq<Event>) -> Registry
    decreases events.len(),
{
    if events.len() == 0 {
        registry
    } else {
        after(after_all(registry, broker, events.drop_last()), broker, events.last())
    }
}

/// Every event of `events` is clear in the registry that it meets.
pub open spec fn all_clear(registry: Registry, broker: BrokerView, events: Seq<Event>) -> bool
    decreases events.len(),
{
    if events.len() == 0 {
        true
    } else {
        &&& all_clear(registry, broker, events.drop_last())
        &&& clear(after_all(registry, broker, events.drop_last()), events.last())
    }
}

/// The empty registry is consistent.
pub proof fn lemma_empty_is_consistent()
    ensures
        Registry::empty().inv(),
{
}

/// Opening a room keeps the registry consistent, provided that no peer
/// holds the room's id and that the address has no room yet.
pub proof fn lemma_add_sharer_keeps_consistency(
    registry: Registry,
    room: Seq<char>,
    sender: u64,
    source: Seq<char>,
    now: u64,
)
    requires
        registry.inv(),
        !registry.has_room(room),
        !registry.peers.contains_key(room),
        !registry.sharer_ip_to_room.contains_key(source),
    ensures
        registry.add_sharer(room, sender, source, now).inv(),
{
    let next = registry.add_sharer(room, sender, source, now);
    assert(next.sharers_registered()) by {
        assert forall|r: Seq<char>| #[trigger] next.sessions.contains_key(r) implies ({
            let sharer = next.sessions[r].sharer;
            &&& next.peers.contains_key(sharer)
            &&& next.peers[sharer].peer_type is Sharer
            &&& next.peers[sharer].room == r
        }) by {
            if r != room {
                assert(registry.sessions.contains_key(r));
            }
        }
    }
    assert(next.viewers_registered()) by {
        assert forall|r: Seq<char>, v: Seq<char>|
            next.sessions.contains_key(r) && #[trigger] next.sessions[r].viewers.contains(
                v,
            ) implies ({
            &&& next.peers.contains_key(v)
            &&& next.peers[v].peer_type is Viewer
            &&& next.peers[v].room == r
        }) by {
            assert(r != room);
            assert(registry.sessions[r].viewers.contains(v));
        }
    }
    assert(next.viewer_peers_listed()) by {
        assert forall|id: Seq<char>| #[trigger]
            next.peers.contains_key(id) && next.peers[id].peer_type is Viewer implies ({
            &&& next.sessions.contains_key(next.peers[id].room)
            &&& next.sessions[next.peers[id].room].viewers.contains(id)
        }) by {
            assert(registry.peers.contains_key(id));
        }
    }
    assert(next.sharer_peers_own_rooms()) by {
        assert forall|id: Seq<char>| #[trigger]
            next.peers.contains_key(id) && next.peers[id].peer_type is Sharer implies ({
            &&& next.sessions.contains_key(next.peers[id].room)
            &&& next.sessions[next.peers[id].room].sharer == id
        }) by {
            if id != room {
                assert(registry.peers.contains_key(id));
            }
        }
    }
    assert(next.rooms_named_after_sharers()) by {
        assert forall|r: Seq<char>| #[trigger] next.sessions.contains_key(r) implies next.sessions[r].sharer
            == r by {
            if r != room {
                assert(registry.sessions.contains_key(r));
            }
        }
    }
    assert(next.sources_indexed()) by {
        assert forall|r: Seq<char>| #[trigger] next.sessions.contains_key(r) implies ({
            &&& next.sharer_ip_to_room.contains_key(next.sessions[r].sharer_socket_addr)
            &&& next.sharer_ip_to_room[next.sessions[r].sharer_socket_addr] == r
        }) by {
            if r != room {
                assert(registry.sessions.contains_key(r));
            }
        }
        assert forall|a: Seq<char>| #[trigger] next.sharer_ip_to_room.contains_key(a) implies ({
            &&& next.sessions.contains_key(next.sharer_ip_to_room[a])
            &&& next.sessions[next.sharer_ip_to_room[a]].sharer_socket_addr == a
        }) by {
            if a != source {
                assert(registry.sharer_ip_to_room.contains_key(a));
            }
        }
    }
    assert(next.no_dangling_keys()) by {
        assert forall|id: Seq<char>| #[trigger] next.peers.contains_key(id) implies next.sessions.contains_key(
            next.peers[id].room,
        ) by {
            if id != room {
                assert(registry.peers.contains_key(id));
            }
        }
    }
    assert(next.viewers_listed_once()) by {
        assert forall|r: Seq<char>| #[trigger] next.sessions.contains_key(r) implies next.sessions[r].viewers.no_duplicates() by {
            if r != room {
                assert(registry.sessions.contains_key(r));
            }
        }
    }
}

/// A viewer that may join keeps the registry consistent by joining.
pub proof fn lemma_add_viewer_keeps_consistency(
    registry: Registry,
    id: Seq<char>,
    room: Seq<char>,
    sender: u64,
)
    requires
        registry.inv(),
        registry.join_refusal(id, room) is None,
    ensures
        registry.add_viewer(id, room, sender).inv(),
        registry.add_viewer(id, room, sender).sessions[room].viewers
            == registry.sessions[room].viewers.push(id),
{
    let next = registry.add_viewer(id, room, sender);
    let listed = registry.sessions[room].viewers;
    assert(!listed.contains(id));
    assert(next.sessions[room].viewers == listed.push(id));
    assert(!registry.sessions.contains_key(id)) by {
        if registry.sessions.contains_key(id) {
            assert(registry.peers.contains_key(registry.sessions[id].sharer));
        }
    }
    assert forall|r: Seq<char>, v: Seq<char>|
        next.sessions.contains_key(r) && #[trigger] next.sessions[r].viewers.contains(v) implies (
    v == id && r == room) || (registry.sessions.contains_key(r)
        && registry.sessions[r].viewers.contains(v)) by {
        if r == room {
            vstd::seq_lib::lemma_seq_contains_after_push(listed, id, v);
        }
    }
    assert(next.sharers_registered()) by {
        assert forall|r: Seq<char>| #[trigger] next.sessions.contains_key(r) implies ({
            let sharer = next.sessions[r].sharer;
            &&& next.peers.contains_key(sharer)
            &&& next.peers[sharer].peer_type is Sharer
            &&& next.peers[sharer].room == r
        }) by {
            assert(registry.sessions.contains_key(r));
        }
    }
    assert(next.viewers_registered());
    assert(next.viewer_peers_listed()) by {
        assert forall|p: Seq<char>| #[trigger]
            next.peers.contains_key(p) && next.peers[p].peer_type is Viewer implies ({
            &&& next.sessions.contains_key(next.peers[p].room)
            &&& next.sessions[next.peers[p].room].viewers.contains(p)
        }) by {
            if p == id {
                vstd::seq_lib::lemma_seq_contains_after_push(listed, id, id);
            } else {
                assert(registry.peers.contains_key(p));
                let r = registry.peers[p].room;
                assert(registry.sessions[r].viewers.contains(p));
                if r == room {
                    vstd::seq_lib::lemma_seq_contains_after_push(listed, id, p);
                }
            }
        }
    }
    assert(next.sharer_peers_own_rooms()) by {
        assert forall|p: Seq<char>| #[trigger]
            next.peers.contains_key(p) && next.peers[p].peer_type is Sharer implies ({
            &&& next.sessions.contains_key(next.peers[p].room)
            &&& next.sessions[next.peers[p].room].sharer == p
        }) by {
            assert(registry.peers.contains_key(p));
        }
    }
    assert(next.rooms_named_after_sharers()) by {
        assert forall|r: Seq<char>| #[trigger] next.sessions.contains_key(r) implies next.sessions[r].sharer
            == r by {
            assert(registry.sessions.contains_key(r));
        }
    }
    assert(next.sources_indexed()) by {
        assert forall|r: Seq<char>| #[trigger] next.sessions.contains_key(r) implies ({
            &&& next.sharer_ip_to_room.contains_key(next.sessions[r].sharer_socket_addr)
            &&& next.sharer_ip_to_room[next.sessions[r].sharer_socket_addr] == r
        }) by {
            assert(registry.sessions.contains_key(r));
        }
        assert forall|a: Seq<char>| #[trigger] next.sharer_ip_to_room.contains_key(a) implies ({
            &&& next.sessions.contains_key(next.sharer_ip_to_room[a])
            &&& next.sessions[next.sharer_ip_to_room[a]].sharer_socket_addr == a
        }) by {
            assert(registry.sharer_ip_to_room.contains_key(a));
        }
    }
    assert(next.no_dangling_keys()) by {
        assert forall|p: Seq<char>| #[trigger] next.peers.contains_key(p) implies next.sessions.contains_key(
            next.peers[p].room,
        ) by {
            if p != id {
                assert(registry.peers.contains_key(p));
            }
        }
    }
    assert(next.viewers_listed_once()) by {
        assert forall|r: Seq<char>| #[trigger] next.sessions.contains_key(r) implies next.sessions[r].viewers.no_duplicates() by {
            assert(registry.sessions.contains_key(r));
            if r == room {
                assert(listed.no_duplicates());
                assert forall|i: int, j: int|
                    0 <= i < listed.push(id).len() && 0 <= j < listed.push(id).len() && i
                        != j implies listed.push(id)[i] != listed.push(id)[j] by {
                    if i < listed.len() && j < listed.len() {
                    } else if i < listed.len() {
                        assert(listed.contains(listed[i]));
                    } else {
                        assert(listed.contains(listed[j]));
                    }
                }
            }
        }
    }
}

/// Closing a room keeps the registry consistent.
pub proof fn lemma_remove_session_keeps_consistency(registry: Registry, room: Seq<char>)
    requires
        registry.inv(),
    ensures
        registry.remove_session(room).inv(),
{
    if registry.sessions.contains_key(room) {
        let next = registry.remove_session(room);
        let session = registry.sessions[room];
        assert(session.sharer == room);
        assert forall|p: Seq<char>| #[trigger] next.peers.contains_key(p) implies registry.peers.contains_key(
            p,
        ) && next.peers[p] == registry.peers[p] && registry.peers[p].room != room by {
            assert(registry.peers.contains_key(p));
            assert(!session.viewers.contains(p));
            if registry.peers[p].room == room {
                if registry.peers[p].peer_type is Viewer {
                    assert(registry.sessions[room].viewers.contains(p));
                } else {
                    assert(registry.sessions[room].sharer == p);
                }
            }
        }
        assert forall|r: Seq<char>| #[trigger] next.sessions.contains_key(r) implies r != room
            && registry.sessions.contains_key(r) && next.sessions[r] == registry.sessions[r] by {}
        assert(next.sharers_registered()) by {
            assert forall|r: Seq<char>| #[trigger] next.sessions.contains_key(r) implies ({
                let sharer = next.sessions[r].sharer;
                &&& next.peers.contains_key(sharer)
                &&& next.peers[sharer].peer_type is Sharer
                &&& next.peers[sharer].room == r
            }) by {
                assert(registry.sessions.contains_key(r));
                let sharer = registry.sessions[r].sharer;
                assert(registry.peers.contains_key(sharer));
                if session.viewers.contains(sharer) {
                    assert(registry.peers[sharer].peer_type is Viewer);
                }
            }
        }
        assert(next.viewers_registered()) by {
            assert forall|r: Seq<char>, v: Seq<char>|
                next.sessions.contains_key(r) && #[trigger] next.sessions[r].viewers.contains(
                    v,
                ) implies ({
                &&& next.peers.contains_key(v)
                &&& next.peers[v].peer_type is Viewer
                &&& next.peers[v].room == r
            }) by {
                assert(registry.sessions.contains_key(r));
                assert(registry.sessions[r].viewers.contains(v));
                assert(registry.peers.contains_key(v));
                if session.viewers.contains(v) {
                    assert(registry.peers[v].room == room);
                }
            }
        }
        assert(next.viewer_peers_listed());
        assert(next.sharer_peers_own_rooms());
        assert(next.rooms_named_after_sharers());
        assert(next.sources_indexed()) by {
            assert forall|r: Seq<char>| #[trigger] next.sessions.contains_key(r) implies ({
                &&& next.sharer_ip_to_room.contains_key(next.sessions[r].sharer_socket_addr)
                &&& next.sharer_ip_to_room[next.sessions[r].sharer_socket_addr] == r
            }) by {
                assert(registry.sessions.contains_key(r));
                assert(registry.sessions.contains_key(room));
            }
            assert forall|a: Seq<char>| #[trigger] next.sharer_ip_to_room.contains_key(a) implies ({
                &&& next.sessions.contains_key(next.sharer_ip_to_room[a])
                &&& next.sessions[next.sharer_ip_to_room[a]].sharer_socket_addr == a
            }) by {
                assert(registry.sharer_ip_to_room.contains_key(a));
            }
        }
        assert(next.no_dangling_keys());
        assert(next.viewers_listed_once());
    }
}

/// A peer that leaves keeps the registry consistent.
pub proof fn lemma_leave_session_keeps_consistency(registry: Registry, id: Seq<char>)
    requires
        registry.inv(),
    ensures
        registry.leave_session(id).inv(),
{
    if registry.sessions.contains_key(id) {
        lemma_remove_session_keeps_consistency(registry, id);
    } else if registry.peers.contains_key(id) {
        let next = registry.leave_session(id);
        let room = registry.peers[id].room;
        assert(registry.sessions.contains_key(room));
        assert(registry.peers[id].peer_type is Viewer) by {
            if registry.peers[id].peer_type is Sharer {
                assert(registry.sessions[room].sharer == id);
                assert(registry.sessions[room].sharer == room);
            }
        }
        let listed = registry.sessions[room].viewers;
        let kept = listed.filter(other_than(id));
        assert(next.sessions[room].viewers == kept);
        assert forall|v: Seq<char>| kept.contains(v) <==> listed.contains(v) && v != id by {
            lemma_filter_membership(listed, id, v);
        }
        assert(kept.no_duplicates()) by {
            lemma_filter_keeps_single(listed, id);
        }
        assert forall|r: Seq<char>| #[trigger] next.sessions.contains_key(r) implies registry.sessions.contains_key(
            r,
        ) && next.sessions[r].sharer == registry.sessions[r].sharer
            && next.sessions[r].sharer_socket_addr == registry.sessions[r].sharer_socket_addr by {}
        assert(next.sharers_registered()) by {
            assert forall|r: Seq<char>| #[trigger] next.sessions.contains_key(r) implies ({
                let sharer = next.sessions[r].sharer;
                &&& next.peers.contains_key(sharer)
                &&& next.peers[sharer].peer_type is Sharer
                &&& next.peers[sharer].room == r
            }) by {
                assert(registry.sessions.contains_key(r));
            }
        }
        assert(next.viewers_registered()) by {
            assert forall|r: Seq<char>, v: Seq<char>|
                next.sessions.contains_key(r) && #[trigger] next.sessions[r].viewers.contains(
                    v,
                ) implies ({
                &&& next.peers.contains_key(v)
                &&& next.peers[v].peer_type is Viewer
                &&& next.peers[v].room == r
            }) by {
                assert(registry.sessions.contains_key(r));
                if r == room {
                    assert(listed.contains(v) && v != id);
                } else {
                    assert(registry.sessions[r].viewers.contains(v));
                    assert(registry.peers[v].room == r);
                }
            }
        }
        assert(next.viewer_peers_listed()) by {
            assert forall|p: Seq<char>| #[trigger]
                next.peers.contains_key(p) && next.peers[p].peer_type is Viewer implies ({
                &&& next.sessions.contains_key(next.peers[p].room)
                &&& next.sessions[next.peers[p].room].viewers.contains(p)
            }) by {
                assert(registry.peers.contains_key(p));
                assert(registry.sessions[registry.peers[p].room].viewers.contains(p));
            }
        }
        assert(next.sharer_peers_own_rooms()) by {
            assert forall|p: Seq<char>| #[trigger]
                next.peers.contains_key(p) && next.peers[p].peer_type is Sharer implies ({
                &&& next.sessions.contains_key(next.peers[p].room)
                &&& next.sessions[next.peers[p].room].sharer == p
            }) by {
                assert(registry.peers.contains_key(p));
            }
        }
        assert(next.rooms_named_after_sharers());
        assert(next.sources_indexed()) by {
            assert forall|r: Seq<char>| #[trigger] next.sessions.contains_key(r) implies ({
                &&& next.sharer_ip_to_room.contains_key(next.sessions[r].sharer_socket_addr)
                &&& next.sharer_ip_to_room[next.sessions[r].sharer_socket_addr] == r
            }) by {
                assert(registry.sessions.contains_key(r));
            }
            assert forall|a: Seq<char>| #[trigger] next.sharer_ip_to_room.contains_key(a) implies ({
                &&& next.sessions.contains_key(next.sharer_ip_to_room[a])
                &&& next.sessions[next.sharer_ip_to_room[a]].sharer_socket_addr == a
            }) by {
                assert(registry.sharer_ip_to_room.contains_key(a));
            }
        }
        assert(next.no_dangling_keys()) by {
            assert forall|p: Seq<char>| #[trigger] next.peers.contains_key(p) implies next.sessions.contains_key(
                next.peers[p].room,
            ) by {
                assert(registry.peers.contains_key(p));
            }
        }
        assert(next.viewers_listed_once()) by {
            assert forall|r: Seq<char>| #[trigger] next.sessions.contains_key(r) implies next.sessions[r].viewers.no_duplicates() by {
                assert(registry.sessions.contains_key(r));
            }
        }
    }
}

/// An id is in the list after `id` was struck exactly when it was in the
/// list before and is another id.
pub proof fn lemma_filter_membership(ids: Seq<Seq<char>>, id: Seq<char>, v: Seq<char>)
    ensures
        ids.filter(other_than(id)).contains(v) <==> ids.contains(v) && v != id,
{
    let kept = ids.filter(other_than(id));
    if kept.contains(v) {
        ids.lemma_filter_contains_rev(other_than(id), v);
        let i = choose|i: int| 0 <= i < kept.len() && kept[i] == v;
        ids.lemma_filter_pred(other_than(id), i);
    }
    if ids.contains(v) && v != id {
        let j = choose|j: int| 0 <= j < ids.len() && ids[j] == v;
        ids.lemma_filter_contains(other_than(id), j);
    }
}

/// Striking an id from a list without repetitions leaves none.
pub proof fn lemma_filter_keeps_single(ids: Seq<Seq<char>>, id: Seq<char>)
    requires
        ids.no_duplicates(),
    ensures
        ids.filter(other_than(id)).no_duplicates(),
    decreases ids.len(),
{
    reveal(Seq::filter);
    if ids.len() > 0 {
        let earlier = ids.drop_last();
        lemma_filter_keeps_single(earlier, id);
        let kept = earlier.filter(other_than(id));
        if other_than(id)(ids.last()) {
            assert(!kept.contains(ids.last())) by {
                lemma_filter_membership(earlier, id, ids.last());
                if earlier.contains(ids.last()) {
                    let at = choose|at: int| 0 <= at < earlier.len() && earlier[at] == ids.last();
                    assert(ids[at] == ids[ids.len() - 1]);
                }
            }
            let longer = kept.push(ids.last());
            assert forall|i: int, j: int|
                0 <= i < longer.len() && 0 <= j < longer.len() && i != j implies longer[i]
                != longer[j] by {
                if i < kept.len() && j < kept.len() {
                } else if i < kept.len() {
                    assert(kept.contains(kept[i]));
                } else {
                    assert(kept.contains(kept[j]));
                }
            }
        }
    }
}

/// Losing a connection keeps the registry consistent.
pub proof fn lemma_on_disconnect_keeps_consistency(registry: Registry, source: Seq<char>)
    requires
        registry.inv(),
    ensures
        registry.on_disconnect(source).inv(),
{
    if registry.sharer_ip_to_room.contains_key(source) {
        lemma_remove_session_keeps_consistency(registry, registry.sharer_ip_to_room[source]);
    }
}

/// A clear event keeps the registry consistent.
pub proof fn lemma_event_keeps_consistency(registry: Registry, broker: BrokerView, event: Event)
    requires
        registry.inv(),
        clear(registry, event),
    ensures
        after(registry, broker, event).inv(),
{
    match event {
        Event::Frame { message, raw, tx, source, now, room } => {
            match message {
                MessageView::Join { from, room } => {
                    if registry.join_refusal(from, room) is None {
                        lemma_add_viewer_keeps_consistency(registry, from, room, tx);
                    }
                },
                MessageView::Start => {
                    if !registry.has_room(room) {
                        lemma_add_sharer_keeps_consistency(registry, room, tx, source, now);
                    }
                },
                MessageView::Leave { from } => {
                    lemma_leave_session_keeps_consistency(registry, from);
                },
                _ => {},
            }
        },
        Event::Disconnect { source } => {
            lemma_on_disconnect_keeps_consistency(registry, source);
        },
    }
}

/// After any sequence of clear events, from the empty registry on, the
/// registry is consistent.
pub proof fn lemma_consistent_after_all(broker: BrokerView, events: Seq<Event>)
    requires
        all_clear(Registry::empty(), broker, events),
    ensures
        after_all(Registry::empty(), broker, events).inv(),
    decreases events.len(),
{
    if events.len() > 0 {
        lemma_consistent_after_all(broker, events.drop_last());
        lemma_event_keeps_consistency(
            after_all(Registry::empty(), broker, events.drop_last()),
            broker,
            events.last(),
        );
    }
}

/// In a consistent registry the peers are the sharers and the viewers of
/// the open rooms, and no peer is both.
pub proof fn lemma_peers_are_sharers_or_viewers(registry: Registry, id: Seq<char>)
    requires
        registry.inv(),
    ensures
        registry.peers.contains_key(id) <==> registry.sessions.contains_key(id) || exists|
            room: Seq<char>,
        |
            registry.sessions.contains_key(room) && #[trigger] registry.sessions[room].viewers.contains(
                id,
            ),
        !(registry.sessions.contains_key(id) && exists|room: Seq<char>|
            registry.sessions.contains_key(room) && #[trigger] registry.sessions[room].viewers.contains(
                id,
            )),
{
    if registry.peers.contains_key(id) {
        let room = registry.peers[id].room;
        if registry.peers[id].peer_type is Viewer {
            assert(registry.sessions.contains_key(room) && registry.sessions[room].viewers.contains(
                id,
            ));
        } else {
            assert(registry.sessions[room].sharer == id);
            assert(registry.sessions[room].sharer == room);
        }
    }
    if registry.sessions.contains_key(id) {
        assert(registry.sessions[id].sharer == id);
        assert(registry.peers[id].peer_type is Sharer);
    }
}

/// The notices of a closing room carry messages of the server's own; none
/// relays a frame.
pub proof fn lemma_notices_are_composed(
    peers: Map<Seq<char>, PeerView>,
    viewers: Seq<Seq<char>>,
    room: Seq<char>,
)
    ensures
        forall|i: int|
            0 <= i < room_closed_notices(peers, viewers, room).len() ==> (
            #[trigger] room_closed_notices(peers, viewers, room)[i]) matches (EffectView::Send {
                payload: PayloadView::Message(_),
                ..
            }),
    decreases viewers.len(),
{
    if viewers.len() > 0 {
        lemma_notices_are_composed(peers, viewers.drop_last(), room);
    }
}

/// Whatever a message does, a relayed frame is the frame that came,
/// character for character.
pub proof fn lemma_relays_are_verbatim(
    registry: Registry,
    broker: BrokerView,
    message: MessageView,
    raw: Seq<char>,
    tx: u64,
    source: Seq<char>,
    now: u64,
    room: Seq<char>,
)
    ensures
        forall|i: int|
            #![trigger dispatched(registry, broker, message, raw, tx, source, now, room).effects[i]]
            0 <= i < dispatched(registry, broker, message, raw, tx, source, now, room).effects.len()
                ==> (dispatched(registry, broker, message, raw, tx, source, now, room).effects[i]
                matches EffectView::Send { payload: PayloadView::Raw(text), .. } ==> text == raw),
{
    match message {
        MessageView::Leave { from } => {
            if registry.sessions.contains_key(from) {
                lemma_notices_are_composed(
                    registry.peers,
                    registry.sessions[from].viewers,
                    from,
                );
            }
        },
        _ => {},
    }
}

/// In a consistent registry a `join` that is accepted reaches the sharer of
/// the room, and reaches it as the frame that came.
pub proof fn lemma_join_reaches_sharer(
    registry: Registry,
    from: Seq<char>,
    room: Seq<char>,
    tx: u64,
    raw: Seq<char>,
)
    requires
        registry.inv(),
        registry.join_refusal(from, room) is None,
    ensures
        registry.peers.contains_key(registry.sessions[room].sharer),
        registry.peers[registry.sessions[room].sharer].peer_type is Sharer,
        joined(registry, from, room, tx, raw).result is Ok,
        joined(registry, from, room, tx, raw).effects == seq![
            relay(registry.peers[registry.sessions[room].sharer].sender, raw),
        ],
        joined(registry, from, room, tx, raw).registry == registry.add_viewer(from, room, tx),
{
    assert(registry.sessions.contains_key(room));
    assert(registry.sessions[room].sharer == room);
}

/// In a consistent registry a peer that has left is unknown: a second
/// `leave` is dropped with `PeerUnknown` and changes nothing.
pub proof fn lemma_leave_is_idempotent(
    registry: Registry,
    from: Seq<char>,
    raw: Seq<char>,
    now: u64,
    again: Seq<char>,
    later: u64,
)
    requires
        registry.inv(),
        left(registry, from, raw, now).result is Ok,
    ensures
        !left(registry, from, raw, now).registry.can_leave(from),
        left(left(registry, from, raw, now).registry, from, again, later) == dropped(
            left(registry, from, raw, now).registry,
            SignalError::PeerUnknown,
        ),
{
    if registry.sessions.contains_key(from) {
        assert(registry.sessions[from].sharer == from);
    } else {
        assert(registry.peers.contains_key(from));
        let room = registry.peers[from].room;
        assert(registry.sessions.contains_key(room));
    }
}

/// In a consistent registry the notices of a closing room go to every
/// viewer of the room, each on its own outbox, in the order of the list.
pub proof fn lemma_notices_reach_every_viewer(registry: Registry, room: Seq<char>, count: int)
    requires
        registry.inv(),
        registry.sessions.contains_key(room),
        0 <= count <= registry.sessions[room].viewers.len(),
    ensures
        room_closed_notices(registry.peers, registry.sessions[room].viewers.take(count), room)
            == Seq::new(
            count as nat,
            |i: int|
                room_closed(
                    registry.peers[registry.sessions[room].viewers[i]].sender,
                    registry.sessions[room].viewers[i],
                    room,
                ),
        ),
    decreases count,
{
    let viewers = registry.sessions[room].viewers;
    let told = Seq::new(
        count as nat,
        |i: int| room_closed(registry.peers[viewers[i]].sender, viewers[i], room),
    );
    if count == 0 {
        assert(room_closed_notices(registry.peers, viewers.take(0), room) =~= told);
    } else {
        lemma_notices_reach_every_viewer(registry, room, count - 1);
        let listed = viewers.take(count);
        assert(listed.drop_last() =~= viewers.take(count - 1));
        assert(listed.last() == viewers[count - 1]);
        assert(viewers.contains(viewers[count - 1]));
        assert(registry.peers.contains_key(viewers[count - 1]));
        let earlier = viewers.take(count - 1);
        let viewer = viewers[count - 1];
        assert(!earlier.contains(viewer)) by {
            if earlier.contains(viewer) {
                let i = choose|i: int| 0 <= i < earlier.len() && #[trigger] earlier[i] == viewer;
                assert(viewers[i] == viewer);
            }
        }
        assert(room_closed_notices(registry.peers, listed, room) =~= told);
    }
}

/// In a consistent registry, losing the connection that opened a room does
/// what the sharer's `leave` does: the room closes, with it go its viewers
/// and its sharer, and every viewer is sent `room_closed`.
pub proof fn lemma_disconnect_is_leave(registry: Registry, room: Seq<char>, now: u64)
    requires
        registry.inv(),
        registry.sessions.contains_key(room),
    ensures
        registry.on_disconnect(registry.sessions[room].sharer_socket_addr)
            == registry.leave_session(room),
        registry.disconnect_effects(registry.sessions[room].sharer_socket_addr, now)
            == registry.leave_effects(room, now),
        !registry.on_disconnect(registry.sessions[room].sharer_socket_addr).has_room(room),
        !registry.on_disconnect(registry.sessions[room].sharer_socket_addr).peers.contains_key(
            room,
        ),
        forall|i: int|
            0 <= i < registry.sessions[room].viewers.len() ==> !registry.on_disconnect(
                registry.sessions[room].sharer_socket_addr,
            ).peers.contains_key(#[trigger] registry.sessions[room].viewers[i]),
        registry.disconnect_effects(registry.sessions[room].sharer_socket_addr, now) == seq![
            EffectView::SessionEnded { duration: elapsed(registry.sessions[room].start_time, now) },
        ] + Seq::new(
            registry.sessions[room].viewers.len(),
            |i: int|
                room_closed(
                    registry.peers[registry.sessions[room].viewers[i]].sender,
                    registry.sessions[room].viewers[i],
                    room,
                ),
        ),
{
    let session = registry.sessions[room];
    let viewers = session.viewers;
    assert(registry.sharer_ip_to_room[session.sharer_socket_addr] == room);
    assert(session.sharer == room);
    lemma_notices_reach_every_viewer(registry, room, viewers.len() as int);
    assert(viewers.take(viewers.len() as int) =~= viewers);
    assert forall|i: int| 0 <= i < viewers.len() implies !registry.on_disconnect(
        session.sharer_socket_addr,
    ).peers.contains_key(#[trigger] viewers[i]) by {
        assert(viewers.contains(viewers[i]));
    }
}

/// The id in a `start_response` is a room id: five symbols of the alphabet.
pub proof fn lemma_started_rooms_are_well_named(
    registry: Registry,
    draws: Seq<Seq<char>>,
    tx: u64,
    source: Seq<char>,
    now: u64,
)
    requires
        search_for_room(registry, draws),
    ensures
        is_room_id(draws.last()),
        started(registry, draws.last(), tx, source, now).result is Ok ==> started(
            registry,
            draws.last(),
            tx,
            source,
            now,
        ).effects[1] == reply(
            tx,
            MessageView::StartResponse { room: draws.last() },
        ),
{
}

} // verus!
