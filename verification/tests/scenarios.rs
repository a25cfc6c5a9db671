//! Whole conversations between a sharer, its viewers and the server.

use signaller::config::Config;
use signaller::effect::{Effect, Payload};
use signaller::error::SignalError;
use signaller::handler::{handle_message, ice_servers_reply, Outcome};
use signaller::signaller_message::{IceServer, SignallerMessage};
use signaller::state::State;
use signaller::twilio_helper::TwilioToken;

const ALPHABET: &str = "ABCDEFGHJKLMNPQRSTUVWXYZ23456789";
const SHARER_TX: u64 = 1;
const SHARER_IP: &str = "10.0.0.1:40000";
const VIEWER_IP: &str = "10.0.0.2:40001";

fn server() -> State {
    State::new(&Config { twilio_account_sid: None, twilio_auth_token: None })
}

fn relay(to: u64, raw: &str) -> Effect {
    Effect::Send { to, payload: Payload::Raw(raw.to_string()) }
}

fn reply(to: u64, message: SignallerMessage) -> Effect {
    Effect::Send { to, payload: Payload::Message(message) }
}

/// Sends `start` from the sharer's connection and returns the room's id.
fn start(state: &mut State, now: u64) -> String {
    let outcome = handle_message(
        state,
        SHARER_TX,
        &SignallerMessage::Start {},
        "{\"type\":\"start\"}",
        SHARER_IP,
        now,
    );
    assert_eq!(outcome.result, Ok(()));
    assert_eq!(outcome.effects.len(), 2);
    assert_eq!(outcome.effects[0], Effect::SessionStarted);
    match &outcome.effects[1] {
        Effect::Send { to, payload: Payload::Message(SignallerMessage::StartResponse { room }) } => {
            assert_eq!(*to, SHARER_TX);
            room.clone()
        }
        other => panic!("no start_response: {:?}", other),
    }
}

fn join(state: &mut State, tx: u64, from: &str, room: &str) -> (String, Outcome) {
    let raw = format!("{{\"type\":\"join\",\"from\":\"{}\",\"room\":\"{}\"}}", from, room);
    let message = SignallerMessage::Join { from: from.to_string(), room: room.to_string() };
    let outcome = handle_message(state, tx, &message, &raw, VIEWER_IP, 0);
    (raw, outcome)
}

#[test]
fn happy_path() {
    let mut state = server();
    let room = start(&mut state, 100);
    assert_eq!(room.chars().count(), 5);
    assert!(room.chars().all(|c| ALPHABET.contains(c)));
    assert!(state.has_room(&room));

    let (raw_join, joined) = join(&mut state, 2, "b1", &room);
    assert_eq!(raw_join, format!("{{\"type\":\"join\",\"from\":\"b1\",\"room\":\"{}\"}}", room));
    assert_eq!(joined, Outcome { result: Ok(()), effects: vec![relay(SHARER_TX, &raw_join)] });

    let raw_offer =
        format!("{{\"type\":\"offer\",\"from\":\"{}\",\"to\":\"b1\",\"sdp\":\"v=0\"}}", room);
    let offer = SignallerMessage::Offer { from: room.clone(), to: "b1".to_string() };
    let offered = handle_message(&mut state, SHARER_TX, &offer, &raw_offer, SHARER_IP, 101);
    assert_eq!(offered, Outcome { result: Ok(()), effects: vec![relay(2, &raw_offer)] });

    let raw_answer =
        format!("{{\"type\":\"answer\",\"from\":\"b1\",\"to\":\"{}\",\"sdp\":\"v=0\"}}", room);
    let answer = SignallerMessage::Answer { from: "b1".to_string(), to: room.clone() };
    let answered = handle_message(&mut state, 2, &answer, &raw_answer, VIEWER_IP, 102);
    assert_eq!(answered, Outcome { result: Ok(()), effects: vec![relay(SHARER_TX, &raw_answer)] });
}

#[test]
fn unknown_room() {
    let mut state = server();
    let (_, outcome) = join(&mut state, 2, "b1", "ZZZZZ");
    assert_eq!(
        outcome,
        Outcome {
            result: Ok(()),
            effects: vec![reply(
                2,
                SignallerMessage::JoinDeclined {
                    to: "b1".to_string(),
                    reason: "room does not exist".to_string(),
                },
            )],
        }
    );
    assert!(state.peer("b1").is_none());
}

#[test]
fn duplicate_viewer_id() {
    let mut state = server();
    let room = start(&mut state, 0);
    let (raw_first, first) = join(&mut state, 2, "b1", &room);
    assert_eq!(first.effects, vec![relay(SHARER_TX, &raw_first)]);

    let (_, second) = join(&mut state, 3, "b1", &room);
    assert_eq!(second.result, Ok(()));
    assert_eq!(second.effects.len(), 1);
    match &second.effects[0] {
        Effect::Send {
            to,
            payload: Payload::Message(SignallerMessage::JoinDeclined { to: declined, reason }),
        } => {
            assert_eq!(*to, 3);
            assert_eq!(declined, "b1");
            assert!(!reason.is_empty());
            assert_eq!(reason, "peer already exists");
        }
        other => panic!("no join_declined: {:?}", other),
    }
    // The first viewer keeps its place and its outbox.
    assert_eq!(state.outbox_of("b1"), Some(2));
    assert_eq!(state.session(&room).unwrap().viewers, vec!["b1".to_string()]);
}

#[test]
fn sharer_leaves_explicitly() {
    let mut state = server();
    let room = start(&mut state, 1_000);
    join(&mut state, 2, "b1", &room);
    join(&mut state, 3, "b2", &room);

    let raw_leave = format!("{{\"type\":\"leave\",\"from\":\"{}\"}}", room);
    let leave = SignallerMessage::Leave { from: room.clone() };
    let left = handle_message(&mut state, SHARER_TX, &leave, &raw_leave, SHARER_IP, 4_500);
    // The frame goes to the peer that the room is named after, then the
    // room closes and each viewer is told.
    assert_eq!(
        left,
        Outcome {
            result: Ok(()),
            effects: vec![
                relay(SHARER_TX, &raw_leave),
                Effect::SessionEnded { duration: 3_500 },
                reply(2, SignallerMessage::RoomClosed { to: "b1".to_string(), room: room.clone() }),
                reply(3, SignallerMessage::RoomClosed { to: "b2".to_string(), room: room.clone() }),
            ],
        }
    );
    assert!(!state.has_room(&room));
    assert!(state.peer("b1").is_none());
    assert!(state.peer("b2").is_none());
    assert!(state.peer(&room).is_none());

    for (tx, viewer) in [(2, "b1"), (3, "b2")] {
        let raw_offer = format!("{{\"type\":\"offer\",\"from\":\"{}\",\"to\":\"{}\"}}", viewer, room);
        let offer = SignallerMessage::Offer { from: viewer.to_string(), to: room.clone() };
        let offered = handle_message(&mut state, tx, &offer, &raw_offer, VIEWER_IP, 5_000);
        assert_eq!(offered, Outcome { result: Err(SignalError::PeerUnknown), effects: vec![] });
    }
}

#[test]
fn sharer_socket_drops() {
    let mut state = server();
    let room = start(&mut state, 1_000);
    join(&mut state, 2, "b1", &room);
    join(&mut state, 3, "b2", &room);

    let effects = state.on_disconnect(SHARER_IP, 61_000);
    assert_eq!(
        effects,
        vec![
            Effect::SessionEnded { duration: 60_000 },
            reply(2, SignallerMessage::RoomClosed { to: "b1".to_string(), room: room.clone() }),
            reply(3, SignallerMessage::RoomClosed { to: "b2".to_string(), room: room.clone() }),
        ]
    );
    let ended = effects.iter().filter(|e| matches!(e, Effect::SessionEnded { .. })).count();
    assert_eq!(ended, 1);
    assert!(!state.has_room(&room));
    assert!(state.room_from(SHARER_IP).is_none());
    // A second loss of the same connection finds nothing to close.
    assert_eq!(state.on_disconnect(SHARER_IP, 62_000), vec![]);
}

#[test]
fn ice_server_query_without_credentials() {
    let mut state = server();
    let outcome = handle_message(
        &mut state,
        7,
        &SignallerMessage::IceServers {},
        "{\"type\":\"ice_servers\"}",
        VIEWER_IP,
        0,
    );
    assert_eq!(
        outcome,
        Outcome {
            result: Ok(()),
            effects: vec![reply(7, SignallerMessage::IceServersResponse { ice_servers: vec![] })],
        }
    );
}

#[test]
fn ice_server_query_with_credentials() {
    let mut state = State::new(&Config {
        twilio_account_sid: Some("AC123".to_string()),
        twilio_auth_token: Some("secret".to_string()),
    });
    let outcome = handle_message(
        &mut state,
        7,
        &SignallerMessage::IceServers {},
        "{\"type\":\"ice_servers\"}",
        VIEWER_IP,
        0,
    );
    assert_eq!(
        outcome,
        Outcome {
            result: Ok(()),
            effects: vec![Effect::QueryIceServers { account_sid: "AC123".to_string(), reply_to: 7 }],
        }
    );

    let token = TwilioToken {
        username: Some("user".to_string()),
        password: Some("pass".to_string()),
        ice_servers: Some(vec![
            Some("stun:global.stun.twilio.com:3478".to_string()),
            Some("turn:global.turn.twilio.com:3478?transport=udp".to_string()),
        ]),
    };
    assert_eq!(
        ice_servers_reply(&state, 7, Some(&token)),
        reply(
            7,
            SignallerMessage::IceServersResponse {
                ice_servers: vec![
                    IceServer {
                        url: "stun:global.stun.twilio.com:3478".to_string(),
                        username: "user".to_string(),
                        password: "pass".to_string(),
                    },
                    IceServer {
                        url: "turn:global.turn.twilio.com:3478?transport=udp".to_string(),
                        username: "user".to_string(),
                        password: "pass".to_string(),
                    },
                ],
            },
        )
    );
    // A vendor that failed yields the empty list.
    assert_eq!(
        ice_servers_reply(&state, 7, None),
        reply(7, SignallerMessage::IceServersResponse { ice_servers: vec![] })
    );
}

#[test]
fn ice_servers_stay_empty_with_the_broker_off() {
    let state = server();
    let token = TwilioToken {
        username: Some("user".to_string()),
        password: Some("pass".to_string()),
        ice_servers: Some(vec![Some("stun:example.org".to_string())]),
    };
    assert_eq!(state.get_ice_servers(Some(&token)), vec![]);
    assert_eq!(
        ice_servers_reply(&state, 4, Some(&token)),
        reply(4, SignallerMessage::IceServersResponse { ice_servers: vec![] })
    );
}

#[test]
fn messages_without_effect() {
    let mut state = server();
    let room = start(&mut state, 0);
    let quiet = [
        (SignallerMessage::KeepAlive {}, "{\"type\":\"keep_alive\"}".to_string()),
        (
            SignallerMessage::StartResponse { room: room.clone() },
            format!("{{\"type\":\"start_response\",\"room\":\"{}\"}}", room),
        ),
        (
            SignallerMessage::IceServersResponse { ice_servers: vec![] },
            "{\"type\":\"ice_servers_response\",\"ice_servers\":[]}".to_string(),
        ),
    ];
    for (message, raw) in quiet.iter() {
        let outcome = handle_message(&mut state, SHARER_TX, message, raw, SHARER_IP, 1);
        assert_eq!(outcome, Outcome { result: Ok(()), effects: vec![] });
    }
    assert!(state.has_room(&room));
    assert_eq!(state.outbox_of(&room), Some(SHARER_TX));
}

#[test]
fn every_addressed_kind_is_relayed_as_it_came() {
    let mut state = server();
    let room = start(&mut state, 0);
    join(&mut state, 2, "b1", &room);
    // Odd spacing, an unknown field and an escape: the text must not change.
    let kinds = [
        (
            SignallerMessage::Offer { from: room.clone(), to: "b1".to_string() },
            format!("{{ \"to\":\"b1\",\"type\":\"offer\" ,\"from\":\"{}\",\"sdp\":\"a\\u0041\" }}", room),
        ),
        (
            SignallerMessage::Answer { from: room.clone(), to: "b1".to_string() },
            format!("{{\"type\":\"answer\",\"from\":\"{}\",\"to\":\"b1\",\"x\":[1, 2]}}", room),
        ),
        (
            SignallerMessage::Ice { from: room.clone(), to: "b1".to_string() },
            format!("{{\"type\":\"ice\",\"from\":\"{}\",\"to\":\"b1\",\"ice\":null}}", room),
        ),
        (
            SignallerMessage::RoomClosed { to: "b1".to_string(), room: room.clone() },
            format!("{{\"type\":\"room_closed\",\"to\":\"b1\",\"room\":\"{}\"}}\n", room),
        ),
        (
            SignallerMessage::JoinDeclined { to: "b1".to_string(), reason: "full".to_string() },
            "{\"type\":\"join_declined\",\"to\":\"b1\",\"reason\":\"full\"}".to_string(),
        ),
    ];
    for (message, raw) in kinds.iter() {
        let outcome = handle_message(&mut state, SHARER_TX, message, raw, SHARER_IP, 1);
        assert_eq!(outcome, Outcome { result: Ok(()), effects: vec![relay(2, raw)] });
    }
}

#[test]
fn message_to_an_unknown_peer_is_dropped() {
    let mut state = server();
    let room = start(&mut state, 0);
    let ice = SignallerMessage::Ice { from: room.clone(), to: "nobody".to_string() };
    let outcome = handle_message(&mut state, SHARER_TX, &ice, "{}", SHARER_IP, 1);
    assert_eq!(outcome, Outcome { result: Err(SignalError::PeerUnknown), effects: vec![] });
    assert!(state.has_room(&room));
}

#[test]
fn viewer_leave_reaches_the_sharer() {
    let mut state = server();
    let room = start(&mut state, 0);
    join(&mut state, 2, "b1", &room);
    join(&mut state, 3, "b2", &room);
    let raw = "{\"type\":\"leave\",\"from\":\"b1\"}";
    let leave = SignallerMessage::Leave { from: "b1".to_string() };

    let first = handle_message(&mut state, 2, &leave, raw, VIEWER_IP, 10);
    assert_eq!(first, Outcome { result: Ok(()), effects: vec![relay(SHARER_TX, raw)] });
    assert!(state.peer("b1").is_none());
    assert_eq!(state.session(&room).unwrap().viewers, vec!["b2".to_string()]);

    // A second leave finds no such peer and changes nothing.
    let before = (state.session(&room), state.peer("b2"), state.peer(&room));
    let second = handle_message(&mut state, 2, &leave, raw, VIEWER_IP, 11);
    assert_eq!(second, Outcome { result: Err(SignalError::PeerUnknown), effects: vec![] });
    assert_eq!((state.session(&room), state.peer("b2"), state.peer(&room)), before);
    assert_eq!(state.room_from(SHARER_IP), Some(room));
}
