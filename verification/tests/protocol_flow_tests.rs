//! End-to-end exchanges over encoded frames: what a client would send on
//! a socket, decoded and resolved by the engine, and the reply it would
//! read back.

use snd_core::auth::{handle_entry, EntryOutcome};
use snd_core::dispatch::{dispatch_drop_item, dispatch_open_inv};
use snd_core::frames::{
    decode_client_event, decode_entry_point, decode_entry_response, decode_server_event,
    encode_client_event, encode_entry_point, encode_entry_response, encode_server_event,
};
use snd_core::item::{Item, ItemRarity, ItemType};
use snd_core::messages::{ClientEvent, EntryPoint, EntryResponse, LoginData, ServerEvent};
use snd_core::store::Database;

fn wire_entry(db: &mut Database, msg: EntryPoint) -> (EntryOutcome, EntryResponse) {
    // client -> bytes -> server
    let frame = encode_entry_point(&msg);
    let received = decode_entry_point(&frame).expect("the client's frame decodes");
    let outcome = handle_entry(db, received);
    // server -> bytes -> client
    let resp = match &outcome {
        EntryOutcome::Ping(r) | EntryOutcome::Reject(r) => r.clone(),
        EntryOutcome::Accept(_, r) => r.clone(),
    };
    let reply = decode_entry_response(&encode_entry_response(&resp)).expect("the reply decodes");
    (outcome, reply)
}

#[test]
fn a_full_signup_and_drop_exchange_over_the_wire() {
    let mut db = Database::new();

    // handshake: signup as eric
    let (outcome, reply) = wire_entry(
        &mut db,
        EntryPoint::LoginAttempt(LoginData {
            username: "eric".to_string(),
            passwd: "abcd".to_string(),
            signup: true,
            client_ver: "0.1.0".to_string(),
        }),
    );
    let eric = match outcome {
        EntryOutcome::Accept(uuid, _) => uuid,
        _ => panic!("signup on a fresh store must be accepted"),
    };
    assert!(matches!(reply, EntryResponse::Motd(_)));

    // another player owns the only Rusty Sword
    let mara: u128 = eric.wrapping_add(1);
    assert!(db.new_item(&Item {
        uuid: 1,
        owner: mara,
        name: "Rusty Sword".to_string(),
        item_type: ItemType::Sword,
        rarity: ItemRarity::Common,
        level: 1,
        damage: 3,
        defense: 0,
    }));

    // the client asks to drop it, over the wire
    let frame = encode_client_event(&ClientEvent::DropItem("Rusty Sword".to_string()));
    let cmd = decode_client_event(&frame).expect("the command decodes");
    let reply = match cmd {
        ClientEvent::DropItem(name) => dispatch_drop_item(&mut db, &eric, &name),
        other => panic!("unexpected command: {:?}", other),
    };
    let heard = decode_server_event(&encode_server_event(&reply)).expect("the reply decodes");
    assert_eq!(
        heard,
        ServerEvent::Event("You can only drop items that are in your inventory!".to_string())
    );

    // the refusal was non-fatal: the item survives and the session can
    // keep asking; an inventory request shows eric owns nothing
    let frame = encode_client_event(&ClientEvent::OpenInv);
    let cmd = decode_client_event(&frame).expect("the command decodes");
    assert!(matches!(cmd, ClientEvent::OpenInv));
    let reply = dispatch_open_inv(&db, &eric);
    match decode_server_event(&encode_server_event(&reply)).expect("the reply decodes") {
        ServerEvent::Inventory(items) => assert!(items.is_empty()),
        other => panic!("unexpected reply: {:?}", other),
    }
    assert_eq!(db.get_player_items(&mara).len(), 1);
}

#[test]
fn a_version_probe_over_the_wire_never_authenticates() {
    let mut db = Database::new();
    let (outcome, reply) = wire_entry(&mut db, EntryPoint::Version("0.1.0".to_string()));
    assert!(matches!(outcome, EntryOutcome::Ping(_)));
    assert_eq!(reply, EntryResponse::Version("0.1.0".to_string()));

    let (outcome, reply) = wire_entry(&mut db, EntryPoint::Version("0.0.9".to_string()));
    assert!(matches!(outcome, EntryOutcome::Ping(_)));
    assert_eq!(
        reply,
        EntryResponse::Error("Invalid version: 0.1.0".to_string())
    );
}
