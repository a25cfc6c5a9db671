//! Room ids and the samples that spell them.

use signaller::config::Config;
use signaller::handler::{open_room, pick_room};
use signaller::room::{generate_room_id, room_id_from_samples, room_symbol, ROOM_ID_LEN};
use signaller::state::State;

const ALPHABET: &str = "ABCDEFGHJKLMNPQRSTUVWXYZ23456789";

#[test]
fn a_sample_selects_by_its_top_five_bits() {
    assert_eq!(room_symbol(0), "A");
    assert_eq!(room_symbol(0x07ff_ffff), "A");
    assert_eq!(room_symbol(0x0800_0000), "B");
    assert_eq!(room_symbol(8 << 27), "J");
    assert_eq!(room_symbol(13 << 27), "P");
    assert_eq!(room_symbol(23 << 27), "Z");
    assert_eq!(room_symbol(24 << 27), "2");
    assert_eq!(room_symbol(u32::MAX), "9");
    for index in 0..32u32 {
        let expected = &ALPHABET[index as usize..index as usize + 1];
        assert_eq!(room_symbol(index << 27), expected);
        assert_eq!(room_symbol((index << 27) | 0x07ff_ffff), expected);
    }
}

#[test]
fn samples_spell_an_id() {
    assert_eq!(room_id_from_samples(&vec![]), "");
    assert_eq!(
        room_id_from_samples(&vec![0, 1 << 27, 8 << 27, 24 << 27, u32::MAX]),
        "ABJ29"
    );
    assert_eq!(room_id_from_samples(&vec![0xdead_beef, 0x1234_5678, 0x8000_0000]), "5CS");
}

#[test]
fn generated_ids_are_well_formed() {
    assert_eq!(ROOM_ID_LEN, 5);
    for _ in 0..200 {
        let id = generate_room_id(ROOM_ID_LEN);
        assert_eq!(id.len(), 5);
        assert!(id.chars().all(|c| ALPHABET.contains(c)), "{}", id);
    }
    assert_eq!(generate_room_id(0), "");
    assert_eq!(generate_room_id(12).chars().count(), 12);
}

#[test]
fn generated_ids_differ() {
    // Forty symbols of five bits each: two equal draws do not happen.
    assert_ne!(generate_room_id(40), generate_room_id(40));
}

#[test]
fn picked_rooms_are_free_and_well_formed() {
    let mut state = State::new(&Config { twilio_account_sid: None, twilio_auth_token: None });
    for tx in 0..50u64 {
        let room = pick_room(&state);
        assert_eq!(room.len(), 5);
        assert!(room.chars().all(|c| ALPHABET.contains(c)), "{}", room);
        if !state.has_room(&room) {
            let ip = format!("10.0.0.1:{}", tx);
            assert_eq!(open_room(&mut state, room.clone(), tx, &ip, tx).result, Ok(()));
        }
        assert!(state.has_room(&room));
    }
}
