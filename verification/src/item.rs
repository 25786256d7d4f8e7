//! Item types, rarities and generated items. Rarity weighting is the rule
//! that biases generated stats: the weight is the rarity multiplier scaled
//! by a level factor, and it is the center the stat samples are drawn
//! around.

use crate::messages::ItemData;
use crate::rng::{fresh_uuid, rand_below};
use vstd::prelude::*;

verus! {

#[derive(Copy, Clone, Eq, PartialEq, Structural, Debug)]
pub enum ItemType {
    Sword,
    Shield,
    Helmet,
    Chestplate,
    Leggings,
    Boots,
}

impl ItemType {
    pub open spec fn spec_as_u32(self) -> u32 {
        match self {
            ItemType::Sword => 0,
            ItemType::Shield => 1,
            ItemType::Helmet => 2,
            ItemType::Chestplate => 3,
            ItemType::Leggings => 4,
            ItemType::Boots => 5,
        }
    }

    pub open spec fn spec_from_u32(x: u32) -> ItemType {
        match x {
            1u32 => ItemType::Shield,
            2u32 => ItemType::Helmet,
            3u32 => ItemType::Chestplate,
            4u32 => ItemType::Leggings,
            5u32 => ItemType::Boots,
            _ => ItemType::Sword,
        }
    }

    pub fn to_u32(self) -> (r: u32)
        ensures
            r == self.spec_as_u32(),
    {
        match self {
            ItemType::Sword => 0,
            ItemType::Shield => 1,
            ItemType::Helmet => 2,
            ItemType::Chestplate => 3,
            ItemType::Leggings => 4,
            ItemType::Boots => 5,
        }
    }

    pub fn from_u32(x: u32) -> (r: ItemType)
        ensures
            r == ItemType::spec_from_u32(x),
    {
        match x {
            1 => ItemType::Shield,
            2 => ItemType::Helmet,
            3 => ItemType::Chestplate,
            4 => ItemType::Leggings,
            5 => ItemType::Boots,
            _ => ItemType::Sword,
        }
    }

    /// Draw one of the six item types uniformly.
    pub fn rand() -> (r: ItemType)
        ensures
            exists|roll: u32| roll < 6 && r == ItemType::spec_from_u32(roll),
    {
        let roll = rand_below(6);
        let r = ItemType::from_u32(roll);
        proof {
            assert(roll < 6 && r == ItemType::spec_from_u32(roll));
        }
        r
    }
}

#[derive(Copy, Clone, Eq, PartialEq, Structural, Debug)]
pub enum ItemRarity {
    Common,
    Rare,
    Epic,
    Legendary,
}

impl ItemRarity {
    pub open spec fn spec_as_u32(self) -> u32 {
        match self {
            ItemRarity::Common => 0,
            ItemRarity::Rare => 1,
            ItemRarity::Epic => 2,
            ItemRarity::Legendary => 3,
        }
    }

    pub open spec fn spec_from_u32(x: u32) -> ItemRarity {
        match x {
            1u32 => ItemRarity::Rare,
            2u32 => ItemRarity::Epic,
            3u32 => ItemRarity::Legendary,
            _ => ItemRarity::Common,
        }
    }

    pub fn to_u32(self) -> (r: u32)
        ensures
            r == self.spec_as_u32(),
    {
        match self {
            ItemRarity::Common => 0,
            ItemRarity::Rare => 1,
            ItemRarity::Epic => 2,
            ItemRarity::Legendary => 3,
        }
    }

    pub fn from_u32(x: u32) -> (r: ItemRarity)
        ensures
            r == ItemRarity::spec_from_u32(x),
    {
        match x {
            1 => ItemRarity::Rare,
            2 => ItemRarity::Epic,
            3 => ItemRarity::Legendary,
            _ => ItemRarity::Common,
        }
    }

    /// The rarity chosen by one percentile roll. A roll below 20 gives
    /// Rare and one below 35 gives Epic. The Legendary arm asks for a roll
    /// of exactly 100, which a draw strictly below 100 never produces, so
    /// Legendary is unreachable from `new_rand`; the boundary is kept as
    /// the game defines it rather than silently rebalanced.
    pub open spec fn spec_from_roll(roll: u32) -> ItemRarity {
        if roll < 20 {
            ItemRarity::Rare
        } else if roll < 35 {
            ItemRarity::Epic
        } else if roll == 100 {
            ItemRarity::Legendary
        } else {
            ItemRarity::Common
        }
    }

    pub fn from_roll(roll: u32) -> (r: ItemRarity)
        ensures
            r == ItemRarity::spec_from_roll(roll),
    {
        if roll < 20 {
            ItemRarity::Rare
        } else if roll < 35 {
            ItemRarity::Epic
        } else if roll == 100 {
            ItemRarity::Legendary
        } else {
            ItemRarity::Common
        }
    }

    /// Draw a rarity from one percentile roll.
    pub fn new_rand() -> (r: ItemRarity)
        ensures
            exists|roll: u32| roll < 100 && r == ItemRarity::spec_from_roll(roll),
            r != ItemRarity::Legendary,
    {
        let roll = rand_below(100);
        let r = ItemRarity::from_roll(roll);
        proof {
            assert(roll < 100 && r == ItemRarity::spec_from_roll(roll));
        }
        r
    }

    pub open spec fn spec_multiplier(self) -> u32 {
        match self {
            ItemRarity::Common => 1,
            ItemRarity::Rare => 2,
            ItemRarity::Epic => 5,
            ItemRarity::Legendary => 10,
        }
    }

    pub fn get_multiplier(&self) -> (r: u32)
        ensures
            r == self.spec_multiplier(),
    {
        match self {
            ItemRarity::Common => 1,
            ItemRarity::Rare => 2,
            ItemRarity::Epic => 5,
            ItemRarity::Legendary => 10,
        }
    }

    /// The level factor common to every rarity: the level divided by half
    /// the level, floored at one. It is 1 at level 1 and either 2 or 3 for
    /// every higher level.
    pub open spec fn spec_level_factor(level: u32) -> int {
        level as int / (if level as int / 2 >= 1 {
            level as int / 2
        } else {
            1
        })
    }

    /// The stat weight for this rarity at a level: the rarity multiplier
    /// times the level factor.
    pub open spec fn spec_weight(self, level: u32) -> int {
        self.spec_multiplier() * Self::spec_level_factor(level)
    }

    /// The level factor never exceeds 3, and is at least 1 from level 1 on.
    pub proof fn lemma_level_factor_bounds(level: u32)
        ensures
            0 <= Self::spec_level_factor(level) <= 3,
            level >= 1 ==> Self::spec_level_factor(level) >= 1,
    {
        let l = level as int;
        if l >= 2 {
            let h = l / 2;
            assert(1 <= h && 2 * h <= l && l <= 2 * h + 1);
            assert(l / h <= 3 && l / h >= 1) by (nonlinear_arith)
                requires
                    1 <= h && 2 * h <= l && l <= 2 * h + 1,
            ;
        }
    }

    pub fn get_weight(&self, level: u32) -> (r: u32)
        ensures
            r == self.spec_weight(level),
            r <= 30,
    {
        proof {
            Self::lemma_level_factor_bounds(level);
        }
        let half = level / 2;
        let divisor = if half >= 1 {
            half
        } else {
            1
        };
        self.get_multiplier() * (level / divisor)
    }
}

/// Rarity bias of generated stats: at equal level, a Legendary item's
/// expected stat (the weight the stat sample is centered on) is strictly
/// greater than a Common item's.
pub proof fn lemma_legendary_outweighs_common(level: u32)
    requires
        level >= 1,
    ensures
        ItemRarity::Legendary.spec_weight(level) > ItemRarity::Common.spec_weight(level),
{
    ItemRarity::lemma_level_factor_bounds(level);
    let f = ItemRarity::spec_level_factor(level);
    assert(ItemRarity::Legendary.spec_weight(level) == 10 * f);
    assert(ItemRarity::Common.spec_weight(level) == 1 * f);
}

/// A persistent item owned by a player. A sword carries a damage stat and
/// no defense; every other type carries defense and no damage.
#[derive(Debug, PartialEq)]
pub struct Item {
    pub uuid: u128,
    pub owner: u128,
    pub name: String,
    pub item_type: ItemType,
    pub rarity: ItemRarity,
    pub level: u32,
    pub damage: u32,
    pub defense: u32,
}

impl Clone for Item {
    fn clone(&self) -> (r: Self)
        ensures
            r == *self,
    {
        Item {
            uuid: self.uuid,
            owner: self.owner,
            name: self.name.clone(),
            item_type: self.item_type,
            rarity: self.rarity,
            level: self.level,
            damage: self.damage,
            defense: self.defense,
        }
    }
}

impl Item {
    /// Exactly one stat populated, matching the type, and a positive level.
    pub open spec fn wf(self) -> bool {
        &&& self.level >= 1
        &&& (self.item_type == ItemType::Sword ==> self.damage >= 1 && self.defense == 0)
        &&& (self.item_type != ItemType::Sword ==> self.defense >= 1 && self.damage == 0)
    }

    /// A normal sample rounded to an integer, floored at one; values above
    /// the representable range saturate.
    pub open spec fn spec_clamp_sample(sample: i64) -> u32 {
        if sample < 1 {
            1u32
        } else if sample > u32::MAX {
            u32::MAX
        } else {
            sample as u32
        }
    }

    /// Clamp a rounded distribution sample into a positive `u32` stat or
    /// level.
    pub fn clamp_sample(sample: i64) -> (r: u32)
        ensures
            r == Self::spec_clamp_sample(sample),
            r >= 1,
    {
        if sample < 1 {
            1
        } else if sample > u32::MAX as i64 {
            u32::MAX
        } else {
            sample as u32
        }
    }

    /// Build a freshly found item from its two rounded distribution
    /// samples: the item level sampled around the player's level, and the
    /// stat sampled around the rarity weight at that item level. The stat
    /// lands in `damage` for a sword and in `defense` otherwise. The
    /// identifier is drawn fresh; every other field is pinned.
    pub fn new_rand(
        item_type: ItemType,
        owner: &u128,
        rarity: ItemRarity,
        name: String,
        level_sample: i64,
        stat_sample: i64,
    ) -> (r: Item)
        ensures
            r.owner == owner,
            r.name == name,
            r.item_type == item_type,
            r.rarity == rarity,
            r.level == Self::spec_clamp_sample(level_sample),
            (item_type == ItemType::Sword ==> r.damage == Self::spec_clamp_sample(stat_sample)
                && r.defense == 0),
            (item_type != ItemType::Sword ==> r.defense == Self::spec_clamp_sample(stat_sample)
                && r.damage == 0),
            r.wf(),
    {
        let uuid = fresh_uuid();
        let level = Self::clamp_sample(level_sample);
        let stat = Self::clamp_sample(stat_sample);
        let mut damage: u32 = 0;
        let mut defense: u32 = 0;
        match item_type {
            ItemType::Sword => {
                damage = stat;
            },
            _ => {
                defense = stat;
            },
        }
        Item { uuid, owner: *owner, name, item_type, rarity, level, damage, defense }
    }

    /// The wire view of this item: the meaningful stat slot is populated
    /// and the other is absent.
    pub fn as_data(&self) -> (r: ItemData)
        ensures
            r.name == self.name,
            r.level == self.level,
            r.itype == self.item_type.spec_as_u32(),
            r.rarity == self.rarity.spec_as_u32(),
            self.item_type == ItemType::Sword ==> r.damage == Some(self.damage) && r.defense
                is None,
            self.item_type != ItemType::Sword ==> r.defense == Some(self.defense) && r.damage
                is None,
            r@.wf() == crate::wire::str_ok(self.name@),
    {
        let (damage, defense) = match self.item_type {
            ItemType::Sword => (Some(self.damage), None),
            _ => (None, Some(self.defense)),
        };
        ItemData {
            name: self.name.clone(),
            level: self.level,
            itype: self.item_type.to_u32(),
            rarity: self.rarity.to_u32(),
            damage,
            defense,
        }
    }
}

} // verus!
