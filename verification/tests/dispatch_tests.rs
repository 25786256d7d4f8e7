use rand::rngs::StdRng;
use rand::{Rng, SeedableRng};
use snd_core::dispatch::{
    clamp_exp, dispatch_drop_item, dispatch_inspect_item, dispatch_open_inv, dispatch_step_exp,
    dispatch_step_item, step_outcome_from_roll, StepOutcome,
};
use snd_core::item::{Item, ItemRarity, ItemType};
use snd_core::messages::ServerEvent;
use snd_core::store::{Database, Player};

fn db_with_players() -> (Database, u128, u128) {
    let mut db = Database::new();
    let eric: u128 = 1;
    let mara: u128 = 2;
    assert!(db.new_player(
        &Player {
            uuid: eric,
            name: "eric".to_string()
        },
        "abcd".to_string()
    ));
    assert!(db.new_player(
        &Player {
            uuid: mara,
            name: "mara".to_string()
        },
        "efgh".to_string()
    ));
    (db, eric, mara)
}

fn sword(uuid: u128, owner: u128, name: &str) -> Item {
    Item {
        uuid,
        owner,
        name: name.to_string(),
        item_type: ItemType::Sword,
        rarity: ItemRarity::Common,
        level: 1,
        damage: 3,
        defense: 0,
    }
}

#[test]
fn rolls_classify_into_the_documented_bands() {
    assert_eq!(step_outcome_from_roll(0), StepOutcome::Exp);
    assert_eq!(step_outcome_from_roll(79), StepOutcome::Exp);
    assert_eq!(step_outcome_from_roll(80), StepOutcome::Item);
    assert_eq!(step_outcome_from_roll(89), StepOutcome::Item);
    assert_eq!(step_outcome_from_roll(90), StepOutcome::Encounter);
    assert_eq!(step_outcome_from_roll(99), StepOutcome::Encounter);
}

#[test]
fn a_thousand_seeded_steps_split_roughly_eighty_ten_ten() {
    let mut rng = StdRng::seed_from_u64(0xC0FFEE);
    let mut exp = 0u32;
    let mut item = 0u32;
    let mut enc = 0u32;
    for _ in 0..1000 {
        let roll: u32 = rng.gen_range(0..100);
        match step_outcome_from_roll(roll) {
            StepOutcome::Exp => exp += 1,
            StepOutcome::Item => item += 1,
            StepOutcome::Encounter => enc += 1,
        }
    }
    assert_eq!(exp + item + enc, 1000);
    assert!((740..=860).contains(&exp), "exp events: {}", exp);
    assert!((55..=145).contains(&item), "item events: {}", item);
    assert!((55..=145).contains(&enc), "encounters: {}", enc);
}

#[test]
fn experience_samples_are_clamped_between_two_and_ten() {
    assert_eq!(clamp_exp(-50), 2);
    assert_eq!(clamp_exp(0), 2);
    assert_eq!(clamp_exp(2), 2);
    assert_eq!(clamp_exp(5), 5);
    assert_eq!(clamp_exp(10), 10);
    assert_eq!(clamp_exp(99), 10);
}

#[test]
fn an_exp_step_credits_and_settles() {
    let (mut db, eric, _) = db_with_players();
    // three gains of 10 pass the 25 required at level 1
    assert_eq!(
        dispatch_step_exp(&mut db, &eric, 100),
        Some(ServerEvent::GainExp(10))
    );
    assert_eq!(
        dispatch_step_exp(&mut db, &eric, 10),
        Some(ServerEvent::GainExp(10))
    );
    assert_eq!(
        dispatch_step_exp(&mut db, &eric, 7),
        Some(ServerEvent::GainExp(7))
    );
    let rec = db.get_player(&eric).unwrap();
    assert_eq!(rec.level, 2);
    assert_eq!(rec.exp, 2);
    assert_eq!(dispatch_step_exp(&mut db, &999, 5), None);
}

#[test]
fn an_item_step_records_and_announces_the_find() {
    let (mut db, eric, _) = db_with_players();
    let found = sword(10, eric, "Found Sword");
    match dispatch_step_item(&mut db, &found) {
        Some(ServerEvent::FindItem(d)) => {
            assert_eq!(d.name, "Found Sword");
            assert_eq!(d.itype, 0);
            assert_eq!(d.damage, Some(3));
            assert_eq!(d.defense, None);
        }
        other => panic!("unexpected reply: {:?}", other),
    }
    assert_eq!(db.get_player_items(&eric).len(), 1);
    assert_eq!(dispatch_step_item(&mut db, &found), None, "identifier reuse");
}

#[test]
fn inventory_lists_only_the_callers_items() {
    let (mut db, eric, mara) = db_with_players();
    assert!(db.new_item(&sword(10, eric, "Mine")));
    assert!(db.new_item(&sword(11, mara, "Hers")));
    match dispatch_open_inv(&db, &eric) {
        ServerEvent::Inventory(items) => {
            assert_eq!(items.len(), 1);
            assert_eq!(items[0].name, "Mine");
            assert!(items[0].damage.is_some() != items[0].defense.is_some());
        }
        other => panic!("unexpected reply: {:?}", other),
    }
}

#[test]
fn dropping_anothers_item_is_refused_without_closing() {
    let (mut db, eric, mara) = db_with_players();
    assert!(db.new_item(&sword(10, mara, "Rusty Sword")));
    match dispatch_drop_item(&mut db, &eric, &"Rusty Sword".to_string()) {
        ServerEvent::Event(m) => {
            assert_eq!(m, "You can only drop items that are in your inventory!");
        }
        other => panic!("unexpected reply: {:?}", other),
    }
    // the item is untouched and the session would go on
    assert_eq!(db.get_player_items(&mara).len(), 1);
}

#[test]
fn dropping_an_unknown_item_is_a_notice() {
    let (mut db, eric, _) = db_with_players();
    match dispatch_drop_item(&mut db, &eric, &"Phantom".to_string()) {
        ServerEvent::Event(m) => {
            assert_eq!(m, "The item you requested to drop does not exist!");
        }
        other => panic!("unexpected reply: {:?}", other),
    }
}

#[test]
fn dropping_an_owned_item_deletes_it() {
    let (mut db, eric, _) = db_with_players();
    assert!(db.new_item(&sword(10, eric, "Rusty Sword")));
    match dispatch_drop_item(&mut db, &eric, &"Rusty Sword".to_string()) {
        ServerEvent::Event(m) => {
            assert_eq!(m, "You dropped your 'Rusty Sword'");
        }
        other => panic!("unexpected reply: {:?}", other),
    }
    assert_eq!(db.get_player_items(&eric).len(), 0);
    assert_eq!(db.item_uuid_from_name(&"Rusty Sword".to_string()), None);
}

#[test]
fn inspecting_follows_the_same_ownership_rule() {
    let (mut db, eric, mara) = db_with_players();
    assert!(db.new_item(&sword(10, eric, "Mine")));
    assert!(db.new_item(&sword(11, mara, "Hers")));
    match dispatch_inspect_item(&db, &eric, &"Mine".to_string()) {
        ServerEvent::ItemView(d) => {
            assert_eq!(d.name, "Mine");
            assert_eq!(d.damage, Some(3));
        }
        other => panic!("unexpected reply: {:?}", other),
    }
    match dispatch_inspect_item(&db, &eric, &"Hers".to_string()) {
        ServerEvent::Event(m) => {
            assert_eq!(m, "You can currently only view items in your inventory!");
        }
        other => panic!("unexpected reply: {:?}", other),
    }
    match dispatch_inspect_item(&db, &eric, &"Phantom".to_string()) {
        ServerEvent::Event(m) => {
            assert_eq!(m, "The item you requested to view does not exist!");
        }
        other => panic!("unexpected reply: {:?}", other),
    }
}
