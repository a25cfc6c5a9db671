//! The dispatcher: what one inbound message does to the registry and what
//! is sent in answer.

use vstd::prelude::*;
use crate::effect::{effect_views, Effect, EffectView, Payload, PayloadView};
use crate::error::SignalError;
use crate::registry::Registry;
use crate::room::{generate_room_id, is_room_id, ROOM_ID_LEN};
use crate::signaller_message::{MessageView, SignallerMessage};
use crate::state::{BrokerView, State};
use crate::twilio_helper::{vendor_ice_servers, TwilioToken};

verus! {

/// How a message fared and what the caller is to carry out for it. An error
/// is for the log; the connection stays open whatever it is.
#[derive(Debug, PartialEq, Eq)]
pub struct Outcome {
    pub result: Result<(), SignalError>,
    pub effects: Vec<Effect>,
}

/// An `Outcome` together with the registry that the message left behind.
pub struct OutcomeView {
    pub registry: Registry,
    pub result: Result<(), SignalError>,
    pub effects: Seq<EffectView>,
}

impl Outcome {
    pub open spec fn leaving(self, registry: Registry) -> OutcomeView {
        OutcomeView { registry, result: self.result, effects: effect_views(self.effects@) }
    }
}

/// The frame `raw`, relayed to outbox `to` as it came.
pub open spec fn relay(to: u64, raw: Seq<char>) -> EffectView {
    EffectView::Send { to, payload: PayloadView::Raw(raw) }
}

/// The message `message`, composed by the server for outbox `to`.
pub open spec fn reply(to: u64, message: MessageView) -> EffectView {
    EffectView::Send { to, payload: PayloadView::Message(message) }
}

/// Nothing happens.
pub open spec fn ignored(registry: Registry) -> OutcomeView {
    OutcomeView { registry, result: Ok(()), effects: Seq::empty() }
}

/// The message is dropped with an error and leaves no trace.
pub open spec fn dropped(registry: Registry, error: SignalError) -> OutcomeView {
    OutcomeView { registry, result: Err(error), effects: Seq::empty() }
}

/// `raw` goes to peer `to` unchanged; to an unknown peer it is dropped.
pub open spec fn forwarded(registry: Registry, to: Seq<char>, raw: Seq<char>) -> OutcomeView {
    match registry.outbox_of(to) {
        Some(outbox) => OutcomeView { registry, result: Ok(()), effects: seq![relay(outbox, raw)] },
        None => dropped(registry, SignalError::PeerUnknown),
    }
}

/// `join`: the viewer is registered and the frame goes on to the room's
/// sharer; a viewer that may not join is told why on its own outbox `tx`.
pub open spec fn joined(
    registry: Registry,
    from: Seq<char>,
    room: Seq<char>,
    tx: u64,
    raw: Seq<char>,
) -> OutcomeView {
    match registry.join_refusal(from, room) {
        Some(error) => OutcomeView {
            registry,
            result: Ok(()),
            effects: seq![
                reply(tx, MessageView::JoinDeclined { to: from, reason: error.reason() }),
            ],
        },
        None => forwarded(registry.add_viewer(from, room, tx), room, raw),
    }
}

/// `start` with the id `room`: the room is opened and its id sent back on
/// `tx`; where the id is taken nothing is opened and nothing sent.
pub open spec fn started(
    registry: Registry,
    room: Seq<char>,
    tx: u64,
    source: Seq<char>,
    now: u64,
) -> OutcomeView {
    if registry.has_room(room) {
        dropped(registry, SignalError::RoomCollision)
    } else {
        OutcomeView {
            registry: registry.add_sharer(room, tx, source, now),
            result: Ok(()),
            effects: seq![
                EffectView::SessionStarted,
                reply(tx, MessageView::StartResponse { room }),
            ],
        }
    }
}

/// `leave`: the frame goes to the peer that the leaver's room is named
/// after, then the leaver is removed; a sharer's room closes with it. Where
/// the leaver or that peer is unknown the message is dropped.
pub open spec fn left(registry: Registry, from: Seq<char>, raw: Seq<char>, now: u64) -> OutcomeView {
    match registry.room_of(from) {
        Some(room) => match registry.outbox_of(room) {
            Some(outbox) => OutcomeView {
                registry: registry.leave_session(from),
                result: Ok(()),
                effects: seq![relay(outbox, raw)] + registry.leave_effects(from, now),
            },
            None => dropped(registry, SignalError::PeerUnknown),
        },
        None => dropped(registry, SignalError::PeerUnknown),
    }
}

/// `ice_servers`: with the broker on, the vendor is to be asked; with it
/// off, the empty list is sent back at once.
pub open spec fn ice_servers_asked(registry: Registry, broker: BrokerView, tx: u64) -> OutcomeView {
    OutcomeView {
        registry,
        result: Ok(()),
        effects: seq![
            match broker.vendor_account() {
                Some(account_sid) => EffectView::QueryIceServers { account_sid, reply_to: tx },
                None => reply(tx, MessageView::IceServersResponse { ice_servers: Seq::empty() }),
            },
        ],
    }
}

/// What `message`, which came as the frame `raw` on the connection with
/// outbox `tx` and remote address `source` at clock reading `now`, does to
/// `registry`. `room` is the id drawn for a `start`; no other message reads it.
pub open spec fn dispatched(
    registry: Registry,
    broker: BrokerView,
    message: MessageView,
    raw: Seq<char>,
    tx: u64,
    source: Seq<char>,
    now: u64,
    room: Seq<char>,
) -> OutcomeView {
    match message {
        MessageView::Join { from, room } => joined(registry, from, room, tx, raw),
        MessageView::Start => started(registry, room, tx, source, now),
        MessageView::Leave { from } => left(registry, from, raw, now),
        MessageView::IceServers => ice_servers_asked(registry, broker, tx),
        MessageView::Offer { from, to } => forwarded(registry, to, raw),
        MessageView::Answer { from, to } => forwarded(registry, to, raw),
        MessageView::Ice { from, to } => forwarded(registry, to, raw),
        MessageView::RoomClosed { to, room } => forwarded(registry, to, raw),
        MessageView::JoinDeclined { to, reason } => forwarded(registry, to, raw),
        MessageView::KeepAlive => ignored(registry),
        MessageView::StartResponse { room } => ignored(registry),
        MessageView::IceServersResponse { ice_servers } => ignored(registry),
    }
}

/// `draws` is a search for a free room id as the server runs it: ids are
/// drawn while the one in hand names an open room, and the fourth draw is
/// kept whatever it names.
pub open spec fn search_for_room(registry: Registry, draws: Seq<Seq<char>>) -> bool {
    &&& 1 <= draws.len() <= 4
    &&& forall|i: int| 0 <= i < draws.len() ==> is_room_id(#[trigger] draws[i])
    &&& forall|i: int| 0 <= i < draws.len() - 1 ==> registry.has_room(#[trigger] draws[i])
    &&& draws.len() < 4 ==> !registry.has_room(draws.last())
}

/// Relays `raw_payload` to peer `to`.
pub fn forward_message(state: &State, to: &str, raw_payload: &str) -> (outcome: Outcome)
    ensures
        outcome.leaving(state@) == forwarded(state@, to@, raw_payload@),
{
    match state.outbox_of(to) {
        Some(outbox) => {
            let mut effects: Vec<Effect> = Vec::new();
            effects.push(Effect::Send { to: outbox, payload: Payload::Raw(raw_payload.to_owned()) });
            assert(effect_views(effects@) =~= seq![relay(outbox, raw_payload@)]);
            Outcome { result: Ok(()), effects }
        },
        None => {
            let effects: Vec<Effect> = Vec::new();
            assert(effect_views(effects@) =~= Seq::<EffectView>::empty());
            Outcome { result: Err(SignalError::PeerUnknown), effects }
        },
    }
}

/// Handles `join`.
pub fn join(state: &mut State, tx: u64, from: &String, room: &String, raw_payload: &str) -> (outcome:
    Outcome)
    ensures
        final(state).broker() == old(state).broker(),
        outcome.leaving(final(state)@) == joined(old(state)@, from@, room@, tx, raw_payload@),
{
    match state.add_viewer(from.clone(), room.clone(), tx) {
        Ok(_) => forward_message(state, room.as_str(), raw_payload),
        Err(error) => {
            let mut effects: Vec<Effect> = Vec::new();
            effects.push(
                Effect::Send {
                    to: tx,
                    payload: Payload::Message(
                        SignallerMessage::JoinDeclined { to: from.clone(), reason: error.message() },
                    ),
                },
            );
            assert(effect_views(effects@) =~= seq![
                reply(tx, MessageView::JoinDeclined { to: from@, reason: error.reason() }),
            ]);
            Outcome { result: Ok(()), effects }
        },
    }
}

/// Draws room ids until one is free, four at most.
pub fn pick_room(state: &State) -> (room: String)
    ensures
        exists|draws: Seq<Seq<char>>| #[trigger]
            search_for_room(state@, draws) && draws.last() == room@,
{
    let mut room = generate_room_id(ROOM_ID_LEN);
    let ghost mut draws: Seq<Seq<char>> = seq![room@];
    let mut redraws: usize = 0;
    while redraws < 3 && state.has_room(room.as_str())
        invariant
            redraws <= 3,
            draws.len() == redraws + 1,
            draws.last() == room@,
            forall|i: int| 0 <= i < draws.len() ==> is_room_id(#[trigger] draws[i]),
            forall|i: int| 0 <= i < draws.len() - 1 ==> state@.has_room(#[trigger] draws[i]),
        decreases 3 - redraws,
    {
        room = generate_room_id(ROOM_ID_LEN);
        proof {
            draws = draws.push(room@);
        }
        redraws += 1;
    }
    assert(search_for_room(state@, draws));
    room
}

/// Handles `start` once the id is drawn.
pub fn open_room(state: &mut State, room: String, tx: u64, ip: &str, now: u64) -> (outcome: Outcome)
    ensures
        final(state).broker() == old(state).broker(),
        outcome.leaving(final(state)@) == started(old(state)@, room@, tx, ip@, now),
{
    match state.add_sharer(room.clone(), tx, ip, now) {
        Ok(opened) => {
            let mut effects: Vec<Effect> = Vec::new();
            effects.push(opened);
            effects.push(
                Effect::Send {
                    to: tx,
                    payload: Payload::Message(SignallerMessage::StartResponse { room }),
                },
            );
            assert(effect_views(effects@) =~= seq![
                EffectView::SessionStarted,
                reply(tx, MessageView::StartResponse { room: room@ }),
            ]);
            Outcome { result: Ok(()), effects }
        },
        Err(error) => {
            let effects: Vec<Effect> = Vec::new();
            assert(effect_views(effects@) =~= Seq::<EffectView>::empty());
            Outcome { result: Err(error), effects }
        },
    }
}

/// Handles `leave`.
pub fn leave(state: &mut State, from: &String, raw_payload: &str, now: u64) -> (outcome: Outcome)
    ensures
        final(state).broker() == old(state).broker(),
        outcome.leaving(final(state)@) == left(old(state)@, from@, raw_payload@, now),
{
    let unknown: Vec<Effect> = Vec::new();
    assert(effect_views(unknown@) =~= Seq::<EffectView>::empty());
    let room = match state.get_room_id_from_peer_uuid(from.as_str()) {
        Ok(room) => room,
        Err(error) => {
            return Outcome { result: Err(error), effects: unknown };
        },
    };
    let outbox = match state.outbox_of(room.as_str()) {
        Some(outbox) => outbox,
        None => {
            return Outcome { result: Err(SignalError::PeerUnknown), effects: unknown };
        },
    };
    let mut effects: Vec<Effect> = Vec::new();
    effects.push(Effect::Send { to: outbox, payload: Payload::Raw(raw_payload.to_owned()) });
    match state.leave_session(from.clone(), now) {
        Ok(closing) => {
            let ghost relayed = effect_views(effects@);
            let mut closing = closing;
            effects.append(&mut closing);
            assert(effect_views(effects@) =~= seq![relay(outbox, raw_payload@)] + old(
                state,
            )@.leave_effects(from@, now));
            Outcome { result: Ok(()), effects }
        },
        Err(error) => Outcome { result: Err(error), effects: unknown },
    }
}

/// Handles `ice_servers`.
pub fn ask_ice_servers(state: &State, tx: u64) -> (outcome: Outcome)
    ensures
        outcome.leaving(state@) == ice_servers_asked(state@, state.broker(), tx),
{
    let mut effects: Vec<Effect> = Vec::new();
    match state.vendor_account() {
        Some(account_sid) => {
            effects.push(Effect::QueryIceServers { account_sid, reply_to: tx });
        },
        None => {
            effects.push(ice_servers_reply(state, tx, None));
        },
    }
    assert(effect_views(effects@) =~= ice_servers_asked(state@, state.broker(), tx).effects);
    Outcome { result: Ok(()), effects }
}

/// The answer to `ice_servers` for outbox `reply_to`, given what the vendor
/// said (`None` where it was not asked or failed).
pub fn ice_servers_reply(state: &State, reply_to: u64, response: Option<&TwilioToken>) -> (effect:
    Effect)
    ensures
        effect@ == reply(
            reply_to,
            MessageView::IceServersResponse {
                ice_servers: if state.broker().vendor_account() is Some {
                    vendor_ice_servers(
                        match response {
                            Some(token) => Some(token@),
                            None => None,
                        },
                    )
                } else {
                    Seq::empty()
                },
            },
        ),
{
    Effect::Send {
        to: reply_to,
        payload: Payload::Message(
            SignallerMessage::IceServersResponse { ice_servers: state.get_ice_servers(response) },
        ),
    }
}

/// Applies one decoded message to the registry. `raw_payload` is the frame
/// that `message` was decoded from, `tx` the outbox of the connection it
/// came on, `ip` that connection's remote address and `now` the reading of
/// the caller's clock.
pub fn handle_message(
    state: &mut State,
    tx: u64,
    message: &SignallerMessage,
    raw_payload: &str,
    ip: &str,
    now: u64,
) -> (outcome: Outcome)
    ensures
        final(state).broker() == old(state).broker(),
        exists|draws: Seq<Seq<char>>|
            {
                &&& message@ is Start ==> search_for_room(old(state)@, draws)
                &&& #[trigger] dispatched(
                    old(state)@,
                    old(state).broker(),
                    message@,
                    raw_payload@,
                    tx,
                    ip@,
                    now,
                    draws.last(),
                ) == outcome.leaving(final(state)@)
            },
{
    let ghost none: Seq<Seq<char>> = Seq::empty();
    let ghost before = state@;
    let ghost broker = state.broker();
    let ghost raw = raw_payload@;
    match message {
        SignallerMessage::Join { from, room } => {
            let outcome = join(state, tx, from, room, raw_payload);
            assert(dispatched(before, broker, message@, raw, tx, ip@, now, none.last())
                == outcome.leaving(state@));
            outcome
        },
        SignallerMessage::Start {  } => {
            let room = pick_room(state);
            let ghost draws = choose|draws: Seq<Seq<char>>| #[trigger]
                search_for_room(before, draws) && draws.last() == room@;
            let outcome = open_room(state, room, tx, ip, now);
            assert(dispatched(before, broker, message@, raw, tx, ip@, now, draws.last())
                == outcome.leaving(state@));
            outcome
        },
        SignallerMessage::Leave { from } => {
            let outcome = leave(state, from, raw_payload, now);
            assert(dispatched(before, broker, message@, raw, tx, ip@, now, none.last())
                == outcome.leaving(state@));
            outcome
        },
        SignallerMessage::IceServers {  } => {
            let outcome = ask_ice_servers(state, tx);
            assert(dispatched(before, broker, message@, raw, tx, ip@, now, none.last())
                == outcome.leaving(state@));
            outcome
        },
        SignallerMessage::Offer { from, to } => {
            let outcome = forward_message(state, to.as_str(), raw_payload);
            assert(dispatched(before, broker, message@, raw, tx, ip@, now, none.last())
                == outcome.leaving(state@));
            outcome
        },
        SignallerMessage::Answer { from, to } => {
            let outcome = forward_message(state, to.as_str(), raw_payload);
            assert(dispatched(before, broker, message@, raw, tx, ip@, now, none.last())
                == outcome.leaving(state@));
            outcome
        },
        SignallerMessage::Ice { from, to } => {
            let outcome = forward_message(state, to.as_str(), raw_payload);
            assert(dispatched(before, broker, message@, raw, tx, ip@, now, none.last())
                == outcome.leaving(state@));
            outcome
        },
        SignallerMessage::RoomClosed { to, room } => {
            let outcome = forward_message(state, to.as_str(), raw_payload);
            assert(dispatched(before, broker, message@, raw, tx, ip@, now, none.last())
                == outcome.leaving(state@));
            outcome
        },
        SignallerMessage::JoinDeclined { to, reason } => {
            let outcome = forward_message(state, to.as_str(), raw_payload);
            assert(dispatched(before, broker, message@, raw, tx, ip@, now, none.last())
                == outcome.leaving(state@));
            outcome
        },
        SignallerMessage::KeepAlive {  }
        | SignallerMessage::StartResponse { .. }
        | SignallerMessage::IceServersResponse { .. } => {
            let effects: Vec<Effect> = Vec::new();
            assert(effect_views(effects@) =~= Seq::<EffectView>::empty());
            let outcome = Outcome { result: Ok(()), effects };
            assert(dispatched(before, broker, message@, raw, tx, ip@, now, none.last())
                == outcome.leaving(state@));
            outcome
        },
    }
}

} // verus!
