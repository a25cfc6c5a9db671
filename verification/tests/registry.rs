//! The registry's operations one by one.

use signaller::config::Config;
use signaller::effect::{Effect, Payload};
use signaller::error::SignalError;
use signaller::peer::{Peer, PeerType};
use signaller::session::{clone_ids, contains_id, without_id, Session};
use signaller::signaller_message::SignallerMessage;
use signaller::state::State;

fn empty() -> State {
    State::new(&Config { twilio_account_sid: None, twilio_auth_token: None })
}

fn closed(to: u64, viewer: &str, room: &str) -> Effect {
    Effect::Send {
        to,
        payload: Payload::Message(SignallerMessage::RoomClosed {
            to: viewer.to_string(),
            room: room.to_string(),
        }),
    }
}

/// Checks on what can be observed that the three maps agree for `rooms`,
/// each given with its address and its viewers.
fn assert_consistent(state: &State, rooms: &[(&str, &str, &[&str])]) {
    for (room, ip, viewers) in rooms {
        let session = state.session(room).expect("room is open");
        assert_eq!(session.sharer, *room);
        assert_eq!(session.sharer_socket_addr, *ip);
        assert_eq!(state.room_from(ip).as_deref(), Some(*room));
        let sharer = state.peer(room).expect("sharer is registered");
        assert_eq!(sharer.peer_type, PeerType::Sharer {});
        assert_eq!(sharer.room, *room);
        let listed: Vec<&str> = session.viewers.iter().map(|v| v.as_str()).collect();
        assert_eq!(listed, viewers.to_vec());
        for viewer in viewers.iter() {
            let peer = state.peer(viewer).expect("viewer is registered");
            assert_eq!(peer.peer_type, PeerType::Viewer {});
            assert_eq!(peer.room, *room);
            assert!(!state.has_room(viewer));
        }
    }
}

#[test]
fn new_state_is_empty() {
    let state = empty();
    assert!(!state.has_room("ABCDE"));
    assert!(state.peer("ABCDE").is_none());
    assert!(state.room_from("1.2.3.4:5").is_none());
    assert_eq!(state.twilio_account_sid(), None);
    assert_eq!(state.twilio_basic_auth(), None);
    assert_eq!(state.vendor_account(), None);
}

#[test]
fn add_sharer_opens_a_room() {
    let mut state = empty();
    assert_eq!(state.add_sharer("ABCDE".to_string(), 9, "1.2.3.4:5", 77), Ok(Effect::SessionStarted));
    assert_eq!(
        state.session("ABCDE"),
        Some(Session {
            sharer: "ABCDE".to_string(),
            viewers: vec![],
            start_time: 77,
            sharer_socket_addr: "1.2.3.4:5".to_string(),
        })
    );
    assert_eq!(
        state.peer("ABCDE"),
        Some(Peer { room: "ABCDE".to_string(), sender: 9, peer_type: PeerType::Sharer {} })
    );
    assert_eq!(state.room_from("1.2.3.4:5"), Some("ABCDE".to_string()));
    assert_eq!(state.get_room_id_from_peer_uuid("ABCDE"), Ok("ABCDE".to_string()));
    assert_consistent(&state, &[("ABCDE", "1.2.3.4:5", &[])]);
}

#[test]
fn add_sharer_rejects_an_open_room() {
    let mut state = empty();
    state.add_sharer("ABCDE".to_string(), 9, "1.2.3.4:5", 77).unwrap();
    assert_eq!(
        state.add_sharer("ABCDE".to_string(), 10, "9.9.9.9:9", 78),
        Err(SignalError::RoomCollision)
    );
    // Nothing of the first room has changed.
    assert_eq!(state.outbox_of("ABCDE"), Some(9));
    assert_eq!(state.session("ABCDE").unwrap().start_time, 77);
    assert!(state.room_from("9.9.9.9:9").is_none());
    assert_eq!(SignalError::RoomCollision.message(), "room already exists");
}

#[test]
fn add_viewer_registers_the_viewer() {
    let mut state = empty();
    state.add_sharer("ABCDE".to_string(), 1, "1.2.3.4:5", 0).unwrap();
    assert_eq!(state.add_viewer("v1".to_string(), "ABCDE".to_string(), 2), Ok(()));
    assert_eq!(state.add_viewer("v2".to_string(), "ABCDE".to_string(), 3), Ok(()));
    assert_eq!(
        state.peer("v2"),
        Some(Peer { room: "ABCDE".to_string(), sender: 3, peer_type: PeerType::Viewer {} })
    );
    assert_eq!(state.get_room_id_from_peer_uuid("v1"), Ok("ABCDE".to_string()));
    assert_consistent(&state, &[("ABCDE", "1.2.3.4:5", &["v1", "v2"])]);
}

#[test]
fn add_viewer_rejects_a_missing_room() {
    let mut state = empty();
    assert_eq!(
        state.add_viewer("v1".to_string(), "ABCDE".to_string(), 2),
        Err(SignalError::RoomMissing)
    );
    assert!(state.peer("v1").is_none());
    assert_eq!(SignalError::RoomMissing.message(), "room does not exist");
}

#[test]
fn add_viewer_rejects_a_taken_id() {
    let mut state = empty();
    state.add_sharer("ABCDE".to_string(), 1, "1.2.3.4:5", 0).unwrap();
    state.add_sharer("FGHJK".to_string(), 4, "1.2.3.4:6", 0).unwrap();
    state.add_viewer("v1".to_string(), "ABCDE".to_string(), 2).unwrap();
    // Taken by a viewer, in this room or another, or by a sharer.
    for room in ["ABCDE", "FGHJK"] {
        assert_eq!(
            state.add_viewer("v1".to_string(), room.to_string(), 3),
            Err(SignalError::PeerCollision)
        );
        assert_eq!(
            state.add_viewer("ABCDE".to_string(), room.to_string(), 3),
            Err(SignalError::PeerCollision)
        );
    }
    // The missing room is reported before the taken id.
    assert_eq!(
        state.add_viewer("v1".to_string(), "ZZZZZ".to_string(), 3),
        Err(SignalError::RoomMissing)
    );
    assert_eq!(SignalError::PeerCollision.message(), "peer already exists");
    assert_consistent(&state, &[("ABCDE", "1.2.3.4:5", &["v1"]), ("FGHJK", "1.2.3.4:6", &[])]);
}

#[test]
fn room_of_an_unknown_peer() {
    let state = empty();
    assert_eq!(state.get_room_id_from_peer_uuid("ghost"), Err(SignalError::PeerUnknown));
    assert_eq!(state.outbox_of("ghost"), None);
    assert_eq!(SignalError::PeerUnknown.message(), "Peer does not exist");
}

#[test]
fn leave_of_an_unknown_peer() {
    let mut state = empty();
    state.add_sharer("ABCDE".to_string(), 1, "1.2.3.4:5", 0).unwrap();
    assert_eq!(state.leave_session("ghost".to_string(), 5), Err(SignalError::PeerUnknown));
    assert_consistent(&state, &[("ABCDE", "1.2.3.4:5", &[])]);
}

#[test]
fn viewer_leaves_its_room() {
    let mut state = empty();
    state.add_sharer("ABCDE".to_string(), 1, "1.2.3.4:5", 0).unwrap();
    for (tx, viewer) in [(2, "v1"), (3, "v2"), (4, "v3")] {
        state.add_viewer(viewer.to_string(), "ABCDE".to_string(), tx).unwrap();
    }
    assert_eq!(state.leave_session("v2".to_string(), 5), Ok(vec![]));
    assert!(state.peer("v2").is_none());
    assert_consistent(&state, &[("ABCDE", "1.2.3.4:5", &["v1", "v3"])]);
    // Once gone, the peer is unknown and nothing changes.
    assert_eq!(state.leave_session("v2".to_string(), 6), Err(SignalError::PeerUnknown));
    assert_consistent(&state, &[("ABCDE", "1.2.3.4:5", &["v1", "v3"])]);
    // Its id is free again.
    assert_eq!(state.add_viewer("v2".to_string(), "ABCDE".to_string(), 9), Ok(()));
    assert_consistent(&state, &[("ABCDE", "1.2.3.4:5", &["v1", "v3", "v2"])]);
}

#[test]
fn sharer_leaves_and_the_room_closes() {
    let mut state = empty();
    state.add_sharer("ABCDE".to_string(), 1, "1.2.3.4:5", 100).unwrap();
    state.add_sharer("FGHJK".to_string(), 5, "1.2.3.4:6", 100).unwrap();
    state.add_viewer("v1".to_string(), "ABCDE".to_string(), 2).unwrap();
    state.add_viewer("v2".to_string(), "ABCDE".to_string(), 3).unwrap();
    state.add_viewer("w1".to_string(), "FGHJK".to_string(), 6).unwrap();

    assert_eq!(
        state.leave_session("ABCDE".to_string(), 250),
        Ok(vec![
            Effect::SessionEnded { duration: 150 },
            closed(2, "v1", "ABCDE"),
            closed(3, "v2", "ABCDE"),
        ])
    );
    for gone in ["ABCDE", "v1", "v2"] {
        assert!(state.peer(gone).is_none());
    }
    assert!(!state.has_room("ABCDE"));
    assert!(state.room_from("1.2.3.4:5").is_none());
    // The other room is untouched.
    assert_consistent(&state, &[("FGHJK", "1.2.3.4:6", &["w1"])]);
    assert_eq!(state.leave_session("ABCDE".to_string(), 251), Err(SignalError::PeerUnknown));
}

#[test]
fn remove_session_of_a_room_that_is_not_open() {
    let mut state = empty();
    state.add_sharer("ABCDE".to_string(), 1, "1.2.3.4:5", 100).unwrap();
    assert_eq!(state.remove_session("ZZZZZ", 101), vec![]);
    assert_consistent(&state, &[("ABCDE", "1.2.3.4:5", &[])]);
}

#[test]
fn duration_is_zero_when_the_clock_went_back() {
    let mut state = empty();
    state.add_sharer("ABCDE".to_string(), 1, "1.2.3.4:5", 100).unwrap();
    assert_eq!(state.remove_session("ABCDE", 40), vec![Effect::SessionEnded { duration: 0 }]);

    state.add_sharer("ABCDE".to_string(), 1, "1.2.3.4:5", 0).unwrap();
    assert_eq!(
        state.remove_session("ABCDE", u64::MAX),
        vec![Effect::SessionEnded { duration: u64::MAX }]
    );
}

#[test]
fn disconnect_does_what_the_sharers_leave_does() {
    let build = || {
        let mut state = empty();
        state.add_sharer("ABCDE".to_string(), 1, "1.2.3.4:5", 100).unwrap();
        state.add_sharer("FGHJK".to_string(), 5, "1.2.3.4:6", 100).unwrap();
        state.add_viewer("v1".to_string(), "ABCDE".to_string(), 2).unwrap();
        state.add_viewer("v2".to_string(), "ABCDE".to_string(), 3).unwrap();
        state
    };
    let mut dropped = build();
    let mut left = build();
    let by_disconnect = dropped.on_disconnect("1.2.3.4:5", 300);
    let by_leave = left.leave_session("ABCDE".to_string(), 300).unwrap();
    assert_eq!(by_disconnect, by_leave);
    assert_eq!(
        by_disconnect,
        vec![Effect::SessionEnded { duration: 200 }, closed(2, "v1", "ABCDE"), closed(3, "v2", "ABCDE")]
    );
    for id in ["ABCDE", "FGHJK", "v1", "v2"] {
        assert_eq!(dropped.peer(id), left.peer(id));
        assert_eq!(dropped.session(id), left.session(id));
    }
    for ip in ["1.2.3.4:5", "1.2.3.4:6"] {
        assert_eq!(dropped.room_from(ip), left.room_from(ip));
    }
    assert_consistent(&dropped, &[("FGHJK", "1.2.3.4:6", &[])]);
}

#[test]
fn disconnect_of_a_viewers_connection_closes_nothing() {
    let mut state = empty();
    state.add_sharer("ABCDE".to_string(), 1, "1.2.3.4:5", 100).unwrap();
    state.add_viewer("v1".to_string(), "ABCDE".to_string(), 2).unwrap();
    assert_eq!(state.on_disconnect("5.6.7.8:9", 200), vec![]);
    assert_consistent(&state, &[("ABCDE", "1.2.3.4:5", &["v1"])]);
}

#[test]
fn consistency_over_a_run_of_requests() {
    let mut state = empty();
    state.add_sharer("AAAAA".to_string(), 1, "10.0.0.1:1", 0).unwrap();
    state.add_sharer("BBBBB".to_string(), 2, "10.0.0.2:1", 1).unwrap();
    state.add_viewer("x".to_string(), "AAAAA".to_string(), 3).unwrap();
    state.add_viewer("y".to_string(), "BBBBB".to_string(), 4).unwrap();
    state.add_viewer("z".to_string(), "AAAAA".to_string(), 5).unwrap();
    assert_consistent(
        &state,
        &[("AAAAA", "10.0.0.1:1", &["x", "z"]), ("BBBBB", "10.0.0.2:1", &["y"])],
    );
    state.leave_session("x".to_string(), 2).unwrap();
    assert_consistent(&state, &[("AAAAA", "10.0.0.1:1", &["z"]), ("BBBBB", "10.0.0.2:1", &["y"])]);
    state.on_disconnect("10.0.0.2:1", 3);
    assert_consistent(&state, &[("AAAAA", "10.0.0.1:1", &["z"])]);
    assert!(state.peer("y").is_none());
    state.add_sharer("BBBBB".to_string(), 6, "10.0.0.3:1", 4).unwrap();
    state.add_viewer("y".to_string(), "BBBBB".to_string(), 7).unwrap();
    state.leave_session("AAAAA".to_string(), 5).unwrap();
    assert_consistent(&state, &[("BBBBB", "10.0.0.3:1", &["y"])]);
    for gone in ["AAAAA", "x", "z"] {
        assert!(state.peer(gone).is_none());
        assert!(!state.has_room(gone));
    }
}

#[test]
fn a_second_room_from_one_address_takes_over_the_index() {
    let mut state = empty();
    state.add_sharer("AAAAA".to_string(), 1, "10.0.0.1:1", 0).unwrap();
    state.add_sharer("BBBBB".to_string(), 1, "10.0.0.1:1", 1).unwrap();
    assert_eq!(state.room_from("10.0.0.1:1"), Some("BBBBB".to_string()));
    // Losing the connection closes the room that the index names.
    assert_eq!(state.on_disconnect("10.0.0.1:1", 9), vec![Effect::SessionEnded { duration: 8 }]);
    assert!(state.has_room("AAAAA"));
    assert!(!state.has_room("BBBBB"));
}

#[test]
fn session_new_has_no_viewers() {
    let session = Session::new("ABCDE".to_string(), "1.2.3.4:5".to_string(), 42);
    assert_eq!(
        session,
        Session {
            sharer: "ABCDE".to_string(),
            viewers: vec![],
            start_time: 42,
            sharer_socket_addr: "1.2.3.4:5".to_string(),
        }
    );
    assert_eq!(session.clone(), session);
}

#[test]
fn id_lists() {
    let ids = vec!["a".to_string(), "b".to_string(), "a".to_string(), "c".to_string()];
    assert_eq!(clone_ids(&ids), ids);
    assert!(contains_id(&ids, &"c".to_string()));
    assert!(!contains_id(&ids, &"d".to_string()));
    assert!(!contains_id(&vec![], &"a".to_string()));
    assert_eq!(without_id(&ids, &"a".to_string()), vec!["b".to_string(), "c".to_string()]);
    assert_eq!(without_id(&ids, &"d".to_string()), ids);
    assert_eq!(without_id(&vec![], &"a".to_string()), Vec::<String>::new());
}
