use snd_core::item::{Item, ItemRarity, ItemType};
use snd_core::store::{Database, ItemValueDB, LoginFailReason, Player, PlayerValueDB};

fn db_with_eric() -> (Database, u128) {
    let mut db = Database::new();
    let uuid: u128 = 0x1234_5678_9abc_def0;
    let created = db.new_player(
        &Player {
            uuid,
            name: "eric".to_string(),
        },
        "abcd".to_string(),
    );
    assert!(created);
    (db, uuid)
}

fn sword(uuid: u128, owner: u128, name: &str) -> Item {
    Item {
        uuid,
        owner,
        name: name.to_string(),
        item_type: ItemType::Sword,
        rarity: ItemRarity::Rare,
        level: 3,
        damage: 7,
        defense: 0,
    }
}

#[test]
fn new_player_starts_at_the_documented_state() {
    let (db, uuid) = db_with_eric();
    let rec = db.get_player(&uuid).expect("player exists");
    assert_eq!(rec.username, "eric");
    assert_eq!(rec.password, "abcd");
    assert_eq!(rec.level, 1);
    assert_eq!(rec.exp, 0);
    assert_eq!(rec.steps, 0);
    assert_eq!(rec.health, 100);
    assert_eq!(rec.region, "Plains of Arenlok");
    assert!(!rec.active);
}

#[test]
fn duplicate_usernames_and_identifiers_are_refused() {
    let (mut db, uuid) = db_with_eric();
    assert!(!db.new_player(
        &Player {
            uuid: 999,
            name: "eric".to_string()
        },
        "other".to_string()
    ));
    assert!(!db.new_player(
        &Player {
            uuid,
            name: "someone".to_string()
        },
        "other".to_string()
    ));
    assert!(db.player_exists(&"eric".to_string()));
    assert!(!db.player_exists(&"someone".to_string()));
    assert_eq!(db.uuid_from_username(&"eric".to_string()), Some(uuid));
    assert_eq!(db.uuid_from_username(&"nobody".to_string()), None);
}

#[test]
fn validate_login_reports_each_failure_exactly() {
    let (mut db, uuid) = db_with_eric();
    assert_eq!(
        db.validate_login("eric".to_string(), "abcd".to_string()),
        Ok(uuid)
    );
    assert_eq!(
        db.validate_login("nobody".to_string(), "abcd".to_string()),
        Err(LoginFailReason::Unrecognized)
    );
    assert_eq!(
        db.validate_login("eric".to_string(), "wxyz".to_string()),
        Err(LoginFailReason::Unauthorized)
    );
    assert!(db.set_player_active(&uuid));
    assert!(db.is_player_active(&uuid));
    // the active check comes before the password check
    assert_eq!(
        db.validate_login("eric".to_string(), "abcd".to_string()),
        Err(LoginFailReason::AlreadyOnline)
    );
    assert_eq!(
        db.validate_login("eric".to_string(), "wxyz".to_string()),
        Err(LoginFailReason::AlreadyOnline)
    );
    assert!(db.set_player_inactive(&uuid));
    assert!(!db.is_player_active(&uuid));
    assert_eq!(
        db.validate_login("eric".to_string(), "abcd".to_string()),
        Ok(uuid)
    );
}

#[test]
fn steps_and_experience_accumulate() {
    let (mut db, uuid) = db_with_eric();
    assert!(db.inc_player_steps(&uuid));
    assert!(db.inc_player_steps(&uuid));
    assert_eq!(db.get_player(&uuid).unwrap().steps, 2);
    assert!(db.add_player_exp(&uuid, 30));
    assert_eq!(db.get_player(&uuid).unwrap().exp, 30);
    // level 1 requires 25: one level-up, 5 points carried over
    assert!(db.check_levelup(&uuid));
    let rec = db.get_player(&uuid).unwrap();
    assert_eq!(rec.level, 2);
    assert_eq!(rec.exp, 5);
    assert!(!db.inc_player_steps(&999));
    assert!(!db.add_player_exp(&999, 1));
}

#[test]
fn items_are_stored_queried_and_dropped() {
    let (mut db, uuid) = db_with_eric();
    let other: u128 = 77;
    let s1 = sword(1, uuid, "Rusty Sword");
    let s2 = sword(2, other, "Fine Sword");
    assert!(db.new_item(&s1));
    assert!(db.new_item(&s2));
    assert!(!db.new_item(&s1), "identifier reuse is refused");

    let owned = db.get_player_items(&uuid);
    assert_eq!(owned.len(), 1);
    assert_eq!(owned[0].name, "Rusty Sword");

    assert_eq!(db.item_uuid_from_name(&"Rusty Sword".to_string()), Some(1));
    assert_eq!(db.item_uuid_from_name(&"No Such".to_string()), None);
    assert_eq!(db.get_item_owner(&1), Some(uuid));
    assert_eq!(db.get_item_owner(&2), Some(other));
    assert_eq!(db.get_item_owner(&3), None);
    assert_eq!(db.get_item(&2).unwrap().name, "Fine Sword");

    assert!(db.drop_item(&s1));
    assert!(!db.drop_item(&s1), "a dropped item is gone for good");
    assert_eq!(db.get_player_items(&uuid).len(), 0);
    assert_eq!(db.get_item_owner(&2), Some(other), "other items untouched");
}

#[test]
fn update_item_and_set_item_value_replace_fields() {
    let (mut db, uuid) = db_with_eric();
    let s1 = sword(1, uuid, "Rusty Sword");
    assert!(db.new_item(&s1));

    let mut renamed = sword(1, uuid, "Polished Sword");
    renamed.damage = 9;
    assert!(db.update_item(&renamed));
    let stored = db.get_item(&1).unwrap();
    assert_eq!(stored.name, "Polished Sword");
    assert_eq!(stored.damage, 9);

    let mut leveled = sword(1, uuid, "ignored");
    leveled.level = 8;
    assert!(db.set_item_value(&leveled, ItemValueDB::Level));
    let stored = db.get_item(&1).unwrap();
    assert_eq!(stored.level, 8);
    assert_eq!(stored.name, "Polished Sword", "only the named column moves");

    assert!(!db.update_item(&sword(42, uuid, "ghost")));
}

#[test]
fn column_names_match_the_store_schema() {
    assert_eq!(PlayerValueDB::Username.to_string(), "username");
    assert_eq!(PlayerValueDB::CurrentRegion.to_string(), "current_region");
    assert_eq!(PlayerValueDB::UUID.to_string(), "owner");
    assert_eq!(ItemValueDB::UUID.to_string(), "uuid");
    assert_eq!(ItemValueDB::SpecialAbility.to_string(), "special_ability");
}
