use snd_core::item::{Item, ItemRarity, ItemType};

#[test]
fn type_codes_round_trip() {
    for t in [
        ItemType::Sword,
        ItemType::Shield,
        ItemType::Helmet,
        ItemType::Chestplate,
        ItemType::Leggings,
        ItemType::Boots,
    ] {
        assert_eq!(ItemType::from_u32(t.to_u32()), t);
    }
    assert_eq!(ItemType::Sword.to_u32(), 0);
    assert_eq!(ItemType::Boots.to_u32(), 5);
    // unknown codes fall back to a sword
    assert_eq!(ItemType::from_u32(99), ItemType::Sword);
}

#[test]
fn rarity_codes_round_trip() {
    for r in [
        ItemRarity::Common,
        ItemRarity::Rare,
        ItemRarity::Epic,
        ItemRarity::Legendary,
    ] {
        assert_eq!(ItemRarity::from_u32(r.to_u32()), r);
    }
    assert_eq!(ItemRarity::from_u32(7), ItemRarity::Common);
}

#[test]
fn rarity_roll_bands_are_exact() {
    assert_eq!(ItemRarity::from_roll(0), ItemRarity::Rare);
    assert_eq!(ItemRarity::from_roll(19), ItemRarity::Rare);
    assert_eq!(ItemRarity::from_roll(20), ItemRarity::Epic);
    assert_eq!(ItemRarity::from_roll(34), ItemRarity::Epic);
    assert_eq!(ItemRarity::from_roll(35), ItemRarity::Common);
    assert_eq!(ItemRarity::from_roll(99), ItemRarity::Common);
    // the Legendary arm sits exactly on 100, outside the draw space
    assert_eq!(ItemRarity::from_roll(100), ItemRarity::Legendary);
}

#[test]
fn random_draws_stay_in_their_ranges() {
    for _ in 0..200 {
        assert_ne!(
            ItemRarity::new_rand(),
            ItemRarity::Legendary,
            "a draw below 100 never reaches the Legendary arm"
        );
        let t = ItemType::rand();
        assert!(t.to_u32() <= 5);
    }
}

#[test]
fn multipliers_and_weights_favor_higher_rarity() {
    assert_eq!(ItemRarity::Common.get_multiplier(), 1);
    assert_eq!(ItemRarity::Rare.get_multiplier(), 2);
    assert_eq!(ItemRarity::Epic.get_multiplier(), 5);
    assert_eq!(ItemRarity::Legendary.get_multiplier(), 10);
    // level factor: 1 at level 1, then level / (level / 2)
    assert_eq!(ItemRarity::Common.get_weight(1), 1);
    assert_eq!(ItemRarity::Legendary.get_weight(1), 10);
    assert_eq!(ItemRarity::Common.get_weight(5), 2);
    assert_eq!(ItemRarity::Legendary.get_weight(5), 20);
    assert_eq!(ItemRarity::Epic.get_weight(3), 15);
    for level in 1..100u32 {
        assert!(
            ItemRarity::Legendary.get_weight(level) > ItemRarity::Common.get_weight(level),
            "legendary must outweigh common at level {}",
            level
        );
    }
}

#[test]
fn generated_items_clamp_their_samples() {
    let owner: u128 = 42;
    let it = Item::new_rand(
        ItemType::Sword,
        &owner,
        ItemRarity::Rare,
        "Test Sword".to_string(),
        -3,
        7,
    );
    assert_eq!(it.owner, owner);
    assert_eq!(it.level, 1, "a sample below one is floored at one");
    assert_eq!(it.damage, 7);
    assert_eq!(it.defense, 0);
    let it = Item::new_rand(
        ItemType::Boots,
        &owner,
        ItemRarity::Common,
        "Test Boots".to_string(),
        4,
        0,
    );
    assert_eq!(it.level, 4);
    assert_eq!(it.damage, 0);
    assert_eq!(it.defense, 1, "a stat sample below one is floored at one");
}

#[test]
fn item_views_populate_exactly_the_matching_stat() {
    let owner: u128 = 42;
    let sword = Item::new_rand(
        ItemType::Sword,
        &owner,
        ItemRarity::Common,
        "S".to_string(),
        2,
        5,
    );
    let d = sword.as_data();
    assert_eq!(d.damage, Some(5));
    assert_eq!(d.defense, None);
    assert_eq!(d.itype, 0);
    let helm = Item::new_rand(
        ItemType::Helmet,
        &owner,
        ItemRarity::Epic,
        "H".to_string(),
        2,
        5,
    );
    let d = helm.as_data();
    assert_eq!(d.damage, None);
    assert_eq!(d.defense, Some(5));
    assert_eq!(d.rarity, 2);
}
