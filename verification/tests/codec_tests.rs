use snd_core::frames::{
    decode_client_event, decode_entry_point, decode_entry_response, decode_server_event,
    encode_client_event, encode_entry_point, encode_entry_response, encode_server_event,
};
use snd_core::messages::{
    ClientEvent, EncounterData, EnemyData, EntryPoint, EntryResponse, ErrorData, ItemData,
    LoginData, LootData, PlayerData, ServerEvent,
};
use snd_core::wire::DecodeError;

fn client_round_trip(m: ClientEvent) {
    let bytes = encode_client_event(&m);
    let back = decode_client_event(bytes.as_slice()).expect("frame must decode");
    assert_eq!(back, m);
}

fn server_round_trip(m: ServerEvent) {
    let bytes = encode_server_event(&m);
    let back = decode_server_event(bytes.as_slice()).expect("frame must decode");
    assert_eq!(back, m);
}

fn sample_item() -> ItemData {
    ItemData {
        name: "Rusty Sword".to_string(),
        level: 3,
        itype: 0,
        rarity: 1,
        damage: Some(7),
        defense: None,
    }
}

fn sample_shield() -> ItemData {
    ItemData {
        name: "Oak Shield".to_string(),
        level: 2,
        itype: 1,
        rarity: 0,
        damage: None,
        defense: Some(4),
    }
}

#[test]
fn client_event_round_trips() {
    client_round_trip(ClientEvent::Disconnect);
    client_round_trip(ClientEvent::KeepAlive(1700000000));
    client_round_trip(ClientEvent::Step);
    client_round_trip(ClientEvent::OpenInv);
    client_round_trip(ClientEvent::DropItem("Rusty Sword".to_string()));
    client_round_trip(ClientEvent::InspectItem("Oak Shield".to_string()));
    client_round_trip(ClientEvent::Attack);
    client_round_trip(ClientEvent::TryFlee);
    client_round_trip(ClientEvent::Error(ErrorData {
        msg: "boom".to_string(),
        disconnect: true,
    }));
}

#[test]
fn client_event_round_trips_non_ascii() {
    client_round_trip(ClientEvent::DropItem("épée ✂ 名剣".to_string()));
    client_round_trip(ClientEvent::Error(ErrorData {
        msg: "schließen — 🗡".to_string(),
        disconnect: false,
    }));
}

#[test]
fn server_event_round_trips() {
    server_round_trip(ServerEvent::Disconnect);
    server_round_trip(ServerEvent::Keepalive(1700000123));
    server_round_trip(ServerEvent::Event("You dropped your 'Rusty Sword'".to_string()));
    server_round_trip(ServerEvent::GainExp(9));
    server_round_trip(ServerEvent::FindItem(sample_item()));
    server_round_trip(ServerEvent::Update(PlayerData {
        level: 4,
        exp: 12,
        region: "Plains of Arenlok".to_string(),
        steps: 77,
        health: 100,
    }));
    server_round_trip(ServerEvent::Inventory(vec![]));
    server_round_trip(ServerEvent::Inventory(vec![sample_item(), sample_shield()]));
    server_round_trip(ServerEvent::ItemView(sample_shield()));
    server_round_trip(ServerEvent::Error(ErrorData {
        msg: "The server is shutting down!".to_string(),
        disconnect: true,
    }));
}

#[test]
fn server_encounter_round_trips() {
    let enemy = EnemyData {
        name: "Gnarl".to_string(),
        race: "Goblin".to_string(),
        level: 2,
        health: 30,
    };
    server_round_trip(ServerEvent::Encounter(EncounterData {
        enemy: enemy.clone(),
        attk: Some(5),
        flee: None,
        win: None,
        lost: None,
    }));
    server_round_trip(ServerEvent::Encounter(EncounterData {
        enemy: enemy.clone(),
        attk: None,
        flee: Some(true),
        win: None,
        lost: None,
    }));
    server_round_trip(ServerEvent::Encounter(EncounterData {
        enemy: enemy.clone(),
        attk: None,
        flee: None,
        win: Some(LootData {
            items: vec![sample_item(), sample_shield()],
            exp: 40,
        }),
        lost: None,
    }));
    server_round_trip(ServerEvent::Encounter(EncounterData {
        enemy,
        attk: None,
        flee: None,
        win: None,
        lost: Some(true),
    }));
}

#[test]
fn entry_point_round_trips() {
    let m = EntryPoint::Version("0.1.0".to_string());
    let back = decode_entry_point(encode_entry_point(&m).as_slice()).expect("decodes");
    assert_eq!(back, m);
    let m = EntryPoint::LoginAttempt(LoginData {
        username: "eric".to_string(),
        passwd: "abcd".to_string(),
        signup: true,
        client_ver: "0.1.0".to_string(),
    });
    let back = decode_entry_point(encode_entry_point(&m).as_slice()).expect("decodes");
    assert_eq!(back, m);
}

#[test]
fn entry_response_round_trips() {
    for m in [
        EntryResponse::Version("0.1.0".to_string()),
        EntryResponse::Motd("Welcome to SnD! We are still in ALPHA, so expect some bugs!".to_string()),
        EntryResponse::Error("Invalid Password".to_string()),
    ] {
        let back = decode_entry_response(encode_entry_response(&m).as_slice()).expect("decodes");
        assert_eq!(back, m);
    }
}

#[test]
fn truncated_frames_are_rejected() {
    let bytes = encode_client_event(&ClientEvent::KeepAlive(55));
    assert_eq!(
        decode_client_event(&bytes[..4]),
        Err(DecodeError::Truncated)
    );
    assert_eq!(decode_client_event(&[]), Err(DecodeError::Truncated));
    // header present but the payload cut short
    assert_eq!(
        decode_client_event(&bytes[..bytes.len() - 1]),
        Err(DecodeError::BadFrame)
    );
}

#[test]
fn unknown_discriminants_are_rejected() {
    // a frame whose payload is the single unknown tag 200
    let mut bytes = vec![1u8, 0, 0, 0, 0, 0, 0, 0];
    bytes.push(200);
    assert_eq!(
        decode_client_event(bytes.as_slice()),
        Err(DecodeError::UnknownTag)
    );
    assert_eq!(
        decode_server_event(bytes.as_slice()),
        Err(DecodeError::UnknownTag)
    );
    assert_eq!(
        decode_entry_point(bytes.as_slice()),
        Err(DecodeError::UnknownTag)
    );
    assert_eq!(
        decode_entry_response(bytes.as_slice()),
        Err(DecodeError::UnknownTag)
    );
}

#[test]
fn invalid_utf8_is_rejected() {
    // tag 4 (drop item) followed by a one-byte string that is not UTF-8
    let payload = vec![4u8, 1, 0, 0, 0, 0, 0, 0, 0, 0xFF];
    let mut bytes = vec![payload.len() as u8, 0, 0, 0, 0, 0, 0, 0];
    bytes.extend_from_slice(&payload);
    assert_eq!(
        decode_client_event(bytes.as_slice()),
        Err(DecodeError::BadString)
    );
}

#[test]
fn trailing_bytes_are_rejected() {
    let mut bytes = encode_client_event(&ClientEvent::Step);
    bytes.push(0);
    // the length prefix no longer matches, and a corrected prefix leaves
    // payload bytes unconsumed; both are refused
    assert_eq!(
        decode_client_event(bytes.as_slice()),
        Err(DecodeError::BadFrame)
    );
    let payload_len = (bytes.len() - 8) as u64;
    bytes[..8].copy_from_slice(&payload_len.to_le_bytes());
    assert_eq!(
        decode_client_event(bytes.as_slice()),
        Err(DecodeError::BadFrame)
    );
}

#[test]
fn decoded_items_have_exactly_one_stat() {
    let bytes = encode_server_event(&ServerEvent::FindItem(sample_item()));
    match decode_server_event(bytes.as_slice()).expect("decodes") {
        ServerEvent::FindItem(d) => {
            assert!(d.damage.is_some() != d.defense.is_some());
        }
        other => panic!("unexpected variant: {:?}", other),
    }
    let bytes = encode_server_event(&ServerEvent::ItemView(sample_shield()));
    match decode_server_event(bytes.as_slice()).expect("decodes") {
        ServerEvent::ItemView(d) => {
            assert!(d.damage.is_some() != d.defense.is_some());
        }
        other => panic!("unexpected variant: {:?}", other),
    }
}

#[test]
fn strict_union_constructors_accept_exactly_one_slot() {
    assert_eq!(
        ClientEvent::new(Some(true), None, None, None, None, None, None, None, None),
        Some(ClientEvent::Disconnect)
    );
    assert_eq!(
        ClientEvent::new(None, Some(9), None, None, None, None, None, None, None),
        Some(ClientEvent::KeepAlive(9))
    );
    assert_eq!(
        ClientEvent::new(
            None,
            None,
            None,
            None,
            Some("Rusty Sword".to_string()),
            None,
            None,
            None,
            None
        ),
        Some(ClientEvent::DropItem("Rusty Sword".to_string()))
    );
    // zero or two populated slots make no event
    assert_eq!(
        ClientEvent::new(None, None, None, None, None, None, None, None, None),
        None
    );
    assert_eq!(
        ClientEvent::new(Some(true), Some(9), None, None, None, None, None, None, None),
        None
    );
    assert_eq!(
        ServerEvent::new(Some(true), None, None, None, None, None, None, None),
        Some(ServerEvent::Disconnect)
    );
    assert_eq!(
        ServerEvent::new(None, None, Some(5), None, None, None, None, None),
        Some(ServerEvent::GainExp(5))
    );
    assert_eq!(
        ServerEvent::new(None, Some(3), Some(5), None, None, None, None, None),
        None
    );
    assert_eq!(ServerEvent::new(None, None, None, None, None, None, None, None), None);
}
