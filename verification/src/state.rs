//! The registry that the server runs on: peers, rooms and the address index,
//! held in hash maps and specified against the `Registry` model.

use vstd::hash_map::StringHashMap;
use vstd::prelude::*;
use vstd::utf8::encode_utf8;
use crate::config::Config;
use crate::effect::{effect_views, Effect, EffectView, Payload};
use crate::error::SignalError;
use crate::peer::{Peer, PeerType};
use crate::registry::{room_closed_notices, Registry};
use crate::session::{clone_ids, contains_id, id_views, without_id, Session};
use crate::signaller_message::{ice_server_views, IceServer, IceServerView, SignallerMessage};
use crate::twilio_helper::{
    basic_auth, basic_auth_text, encodable, get_twilio_ice_servers, text_of, vendor_ice_servers,
    TwilioToken,
};

verus! {

pub struct State {
    sessions: StringHashMap<Session>,
    sharer_ip_to_room: StringHashMap<String>,
    peers: StringHashMap<Peer>,
    twilio_basic_auth: Option<String>,
    twilio_account_sid: Option<String>,
}

/// The vendor credentials that a `State` holds.
pub struct BrokerView {
    pub account_sid: Option<Seq<char>>,
    pub basic_auth: Option<Seq<char>>,
}

impl BrokerView {
    /// The account to ask the vendor under: set where the account id and the
    /// basic-authentication value are both there.
    pub open spec fn vendor_account(self) -> Option<Seq<char>> {
        if self.basic_auth is Some {
            self.account_sid
        } else {
            None
        }
    }
}

/// The credentials that a configuration yields: the account id as given, and
/// the basic-authentication value where both parts are set.
pub open spec fn broker_of(config: Config) -> BrokerView {
    BrokerView {
        account_sid: match config.twilio_account_sid {
            Some(sid) => Some(sid@),
            None => None,
        },
        basic_auth: match config.twilio_account_sid {
            Some(sid) => match config.twilio_auth_token {
                Some(token) => if encodable(encode_utf8(sid@ + ":"@ + token@).len()) {
                    Some(basic_auth_text(sid@, token@))
                } else {
                    None
                },
                None => None,
            },
            None => None,
        },
    }
}

impl View for State {
    type V = Registry;

    closed spec fn view(&self) -> Registry {
        Registry {
            sessions: self.sessions@.map_values(|s: Session| s@),
            sharer_ip_to_room: self.sharer_ip_to_room@.map_values(|r: String| r@),
            peers: self.peers@.map_values(|p: Peer| p@),
        }
    }
}

impl State {
    pub closed spec fn broker(&self) -> BrokerView {
        BrokerView {
            account_sid: match self.twilio_account_sid {
                Some(sid) => Some(sid@),
                None => None,
            },
            basic_auth: match self.twilio_basic_auth {
                Some(auth) => Some(auth@),
                None => None,
            },
        }
    }

    /// An empty registry with the vendor credentials of `config`.
    pub fn new(config: &Config) -> (state: State)
        ensures
            state@ == Registry::empty(),
            state.broker() == broker_of(*config),
    {
        let twilio_basic_auth = match &config.twilio_account_sid {
            Some(account_sid) => match &config.twilio_auth_token {
                Some(auth_token) => basic_auth(account_sid.as_str(), auth_token.as_str()),
                None => None,
            },
            None => None,
        };
        let twilio_account_sid = match &config.twilio_account_sid {
            Some(account_sid) => Some(account_sid.clone()),
            None => None,
        };
        let state = State {
            sessions: StringHashMap::new(),
            sharer_ip_to_room: StringHashMap::new(),
            peers: StringHashMap::new(),
            twilio_basic_auth,
            twilio_account_sid,
        };
        assert(state@ =~= Registry::empty());
        state
    }

    /// The account id as configured.
    pub fn twilio_account_sid(&self) -> (sid: Option<String>)
        ensures
            text_of(sid) == self.broker().account_sid,
    {
        match &self.twilio_account_sid {
            Some(sid) => Some(sid.clone()),
            None => None,
        }
    }

    /// The basic-authentication value for the vendor, if there is one.
    pub fn twilio_basic_auth(&self) -> (auth: Option<String>)
        ensures
            text_of(auth) == self.broker().basic_auth,
    {
        match &self.twilio_basic_auth {
            Some(auth) => Some(auth.clone()),
            None => None,
        }
    }

    /// The account to ask the vendor under, if the ICE broker is on.
    pub fn vendor_account(&self) -> (account: Option<String>)
        ensures
            text_of(account) == self.broker().vendor_account(),
    {
        match &self.twilio_basic_auth {
            Some(_) => self.twilio_account_sid(),
            None => None,
        }
    }

    /// The ICE servers to offer a client. `response` is what the vendor
    /// answered, `None` where it was not asked or failed. With the broker
    /// off the list is empty whatever the vendor said.
    pub fn get_ice_servers(&self, response: Option<&TwilioToken>) -> (servers: Vec<IceServer>)
        ensures
            ice_server_views(servers@) == if self.broker().vendor_account() is Some {
                vendor_ice_servers(
                    match response {
                        Some(token) => Some(token@),
                        None => None,
                    },
                )
            } else {
                Seq::empty()
            },
    {
        match self.vendor_account() {
            Some(_) => get_twilio_ice_servers(response),
            None => {
                let servers: Vec<IceServer> = Vec::new();
                assert(ice_server_views(servers@) =~= Seq::<IceServerView>::empty());
                servers
            },
        }
    }

    /// The record of room `room`, if it is open.
    pub fn session(&self, room: &str) -> (found: Option<Session>)
        ensures
            match found {
                Some(session) => self@.sessions.contains_key(room@) && session@
                    == self@.sessions[room@],
                None => !self@.sessions.contains_key(room@),
            },
    {
        match self.sessions.get(room) {
            Some(session) => Some(session.clone()),
            None => None,
        }
    }

    /// The record of peer `id`, if it is registered.
    pub fn peer(&self, id: &str) -> (found: Option<Peer>)
        ensures
            match found {
                Some(peer) => self@.peers.contains_key(id@) && peer@ == self@.peers[id@],
                None => !self@.peers.contains_key(id@),
            },
    {
        match self.peers.get(id) {
            Some(peer) => Some(peer.clone()),
            None => None,
        }
    }

    /// The room indexed under the remote address `ip`, if there is one.
    pub fn room_from(&self, ip: &str) -> (found: Option<String>)
        ensures
            match found {
                Some(room) => self@.sharer_ip_to_room.contains_key(ip@) && room@
                    == self@.sharer_ip_to_room[ip@],
                None => !self@.sharer_ip_to_room.contains_key(ip@),
            },
    {
        match self.sharer_ip_to_room.get(ip) {
            Some(room) => Some(room.clone()),
            None => None,
        }
    }

    /// The outbox of peer `id`, if it is registered.
    pub fn outbox_of(&self, id: &str) -> (sender: Option<u64>)
        ensures
            sender == self@.outbox_of(id@),
    {
        match self.peers.get(id) {
            Some(peer) => Some(peer.sender),
            None => None,
        }
    }

    /// Whether a room of that id is open.
    pub fn has_room(&self, room: &str) -> (open: bool)
        ensures
            open == self@.has_room(room@),
    {
        self.sessions.contains_key(room)
    }

    /// The room that peer `viewer_uuid` belongs to.
    pub fn get_room_id_from_peer_uuid(&self, viewer_uuid: &str) -> (room: Result<
        String,
        SignalError,
    >)
        ensures
            match room {
                Ok(id) => self@.room_of(viewer_uuid@) == Some(id@),
                Err(e) => self@.room_of(viewer_uuid@) is None && e == SignalError::PeerUnknown,
            },
    {
        match self.peers.get(viewer_uuid) {
            Some(peer) => Ok(peer.room.clone()),
            None => Err(SignalError::PeerUnknown),
        }
    }

    /// Opens `room` for the connection with outbox `sender` and remote
    /// address `ip`, unless a room of that id is open already.
    pub fn add_sharer(&mut self, room: String, sender: u64, ip: &str, now: u64) -> (opened: Result<
        Effect,
        SignalError,
    >)
        ensures
            final(self).broker() == old(self).broker(),
            match opened {
                Ok(effect) => {
                    &&& !old(self)@.has_room(room@)
                    &&& final(self)@ == old(self)@.add_sharer(room@, sender, ip@, now)
                    &&& effect@ == EffectView::SessionStarted
                },
                Err(e) => {
                    &&& old(self)@.has_room(room@)
                    &&& final(self)@ == old(self)@
                    &&& e == SignalError::RoomCollision
                },
            },
    {
        if self.sessions.contains_key(room.as_str()) {
            return Err(SignalError::RoomCollision);
        }
        let source = ip.to_owned();
        self.sessions.insert(room.clone(), Session::new(room.clone(), source.clone(), now));
        self.sharer_ip_to_room.insert(source, room.clone());
        self.peers.insert(
            room.clone(),
            Peer { room, sender, peer_type: PeerType::Sharer {  } },
        );
        assert(self@ =~= old(self)@.add_sharer(room@, sender, ip@, now));
        Ok(Effect::SessionStarted)
    }

    /// Registers `id` as a viewer of `room` with outbox `sender`, unless the
    /// room is not open or the id is taken.
    pub fn add_viewer(&mut self, id: String, room: String, sender: u64) -> (joined: Result<
        (),
        SignalError,
    >)
        ensures
            final(self).broker() == old(self).broker(),
            match joined {
                Ok(_) => {
                    &&& old(self)@.join_refusal(id@, room@) is None
                    &&& final(self)@ == old(self)@.add_viewer(id@, room@, sender)
                },
                Err(e) => {
                    &&& old(self)@.join_refusal(id@, room@) == Some(e)
                    &&& final(self)@ == old(self)@
                },
            },
    {
        let session = match self.sessions.get(room.as_str()) {
            Some(session) => session,
            None => {
                return Err(SignalError::RoomMissing);
            },
        };
        if self.peers.contains_key(id.as_str()) {
            return Err(SignalError::PeerCollision);
        }
        let mut viewers = clone_ids(&session.viewers);
        if !contains_id(&viewers, &id) {
            viewers.push(id.clone());
            assert(id_views(viewers@) =~= id_views(session.viewers@).push(id@));
        }
        let updated = Session {
            sharer: session.sharer.clone(),
            viewers,
            start_time: session.start_time,
            sharer_socket_addr: session.sharer_socket_addr.clone(),
        };
        self.sessions.insert(room.clone(), updated);
        self.peers.insert(id, Peer { room, sender, peer_type: PeerType::Viewer {  } });
        assert(self@ =~= old(self)@.add_viewer(id@, room@, sender));
        Ok(())
    }

    /// Closes `room` at clock reading `now`: the room, its index entry, its
    /// viewers and its sharer leave the registry, and each viewer that was
    /// registered is told so. Returns what the caller is to carry out.
    pub fn remove_session(&mut self, room: &str, now: u64) -> (effects: Vec<Effect>)
        ensures
            final(self).broker() == old(self).broker(),
            final(self)@ == old(self)@.remove_session(room@),
            effect_views(effects@) == old(self)@.closing_effects(room@, now),
    {
        let mut effects: Vec<Effect> = Vec::new();
        let session = match self.sessions.get(room) {
            Some(session) => session,
            None => {
                assert(effect_views(effects@) =~= Seq::<EffectView>::empty());
                return effects;
            },
        };
        let viewers = clone_ids(&session.viewers);
        let sharer = session.sharer.clone();
        let source = session.sharer_socket_addr.clone();
        let start = session.start_time;
        let ghost before = self@;
        let ghost peers = self.peers@;
        let ghost listed = id_views(viewers@);
        self.sessions.remove(room);
        self.sharer_ip_to_room.remove(source.as_str());
        let duration = if now >= start {
            now - start
        } else {
            0
        };
        effects.push(Effect::SessionEnded { duration });
        let ghost ended = seq![EffectView::SessionEnded { duration }];
        assert(effect_views(effects@) =~= ended + room_closed_notices(
            before.peers,
            listed.take(0),
            room@,
        ));
        let ghost closed_sessions = self.sessions@;
        let ghost closed_index = self.sharer_ip_to_room@;
        let mut i: usize = 0;
        while i < viewers.len()
            invariant
                i <= viewers.len(),
                listed == id_views(viewers@),
                before.peers == peers.map_values(|p: Peer| p@),
                self.sessions@ == closed_sessions,
                self.sharer_ip_to_room@ == closed_index,
                self.twilio_basic_auth == old(self).twilio_basic_auth,
                self.twilio_account_sid == old(self).twilio_account_sid,
                self.peers@ == peers.remove_keys(listed.take(i as int).to_set()),
                effect_views(effects@) == ended + room_closed_notices(
                    before.peers,
                    listed.take(i as int),
                    room@,
                ),
            decreases viewers.len() - i,
        {
            let ghost seen = listed.take(i as int);
            let ghost viewer = listed[i as int];
            proof {
                assert(listed.take(i + 1).drop_last() =~= seen);
                assert(listed.take(i + 1).last() == viewer);
                assert forall|v: Seq<char>| listed.take(i + 1).contains(v) <==> seen.contains(v)
                    || v == viewer by {
                    assert(listed.take(i + 1) =~= seen.push(viewer));
                    vstd::seq_lib::lemma_seq_contains_after_push(seen, viewer, v);
                }
            }
            let registered = match self.peers.get(viewers[i].as_str()) {
                Some(peer) => Some(peer.sender),
                None => None,
            };
            match registered {
                Some(to) => {
                    let ghost sent = effect_views(effects@);
                    effects.push(
                        Effect::Send {
                            to,
                            payload: Payload::Message(
                                SignallerMessage::RoomClosed {
                                    to: viewers[i].clone(),
                                    room: room.to_owned(),
                                },
                            ),
                        },
                    );
                    assert(effect_views(effects@) =~= sent.push(effects@.last()@));
                    self.peers.remove(viewers[i].as_str());
                },
                None => {},
            }
            assert(self.peers@ =~= peers.remove_keys(listed.take(i + 1).to_set()));
            assert(effect_views(effects@) =~= ended + room_closed_notices(
                before.peers,
                listed.take(i + 1),
                room@,
            ));
            i += 1;
        }
        self.peers.remove(sharer.as_str());
        assert(listed.take(listed.len() as int) =~= listed);
        assert(self@ =~= old(self)@.remove_session(room@));
        effects
    }

    /// Takes peer `id` out of the registry at clock reading `now`. A sharer
    /// takes its room with it; a viewer is struck from its room.
    pub fn leave_session(&mut self, id: String, now: u64) -> (left: Result<Vec<Effect>, SignalError>)
        ensures
            final(self).broker() == old(self).broker(),
            match left {
                Ok(effects) => {
                    &&& old(self)@.can_leave(id@)
                    &&& final(self)@ == old(self)@.leave_session(id@)
                    &&& effect_views(effects@) == old(self)@.leave_effects(id@, now)
                },
                Err(e) => {
                    &&& !old(self)@.can_leave(id@)
                    &&& final(self)@ == old(self)@
                    &&& e == SignalError::PeerUnknown
                },
            },
    {
        if self.sessions.contains_key(id.as_str()) {
            return Ok(self.remove_session(id.as_str(), now));
        }
        let room = match self.peers.get(id.as_str()) {
            Some(peer) => peer.room.clone(),
            None => {
                return Err(SignalError::PeerUnknown);
            },
        };
        let updated = match self.sessions.get(room.as_str()) {
            Some(session) => Some(
                Session {
                    sharer: session.sharer.clone(),
                    viewers: without_id(&session.viewers, &id),
                    start_time: session.start_time,
                    sharer_socket_addr: session.sharer_socket_addr.clone(),
                },
            ),
            None => None,
        };
        match updated {
            Some(session) => {
                self.sessions.insert(room, session);
            },
            None => {},
        }
        self.peers.remove(id.as_str());
        assert(self@ =~= old(self)@.leave_session(id@));
        let effects: Vec<Effect> = Vec::new();
        assert(effect_views(effects@) =~= Seq::<EffectView>::empty());
        Ok(effects)
    }

    /// The connection from `ip` was lost at clock reading `now`: the room
    /// indexed under that address, if there is one, is closed.
    pub fn on_disconnect(&mut self, ip: &str, now: u64) -> (effects: Vec<Effect>)
        ensures
            final(self).broker() == old(self).broker(),
            final(self)@ == old(self)@.on_disconnect(ip@),
            effect_views(effects@) == old(self)@.disconnect_effects(ip@, now),
    {
        let room = match self.sharer_ip_to_room.get(ip) {
            Some(room) => room.clone(),
            None => {
                let effects: Vec<Effect> = Vec::new();
                assert(effect_views(effects@) =~= Seq::<EffectView>::empty());
                return effects;
            },
        };
        self.remove_session(room.as_str(), now)
    }
}

} // verus!
