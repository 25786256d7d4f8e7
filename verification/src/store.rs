//! The player and item store: the persistence gateway the session engine
//! works against. It holds every player record and every item record,
//! keyed by 128-bit identifiers, with unique identifiers and unique
//! usernames as its invariant. Each operation is one logical read or
//! write with an exact contract.

use crate::item::Item;
use vstd::prelude::*;
use vstd::string::StringExecFns;

verus! {

/// Why a login attempt was refused.
#[derive(Eq, PartialEq, Copy, Clone, Debug, Structural)]
pub enum LoginFailReason {
    Unauthorized,
    Unrecognized,
    AlreadyOnline,
}

/// The columns of a player record, as named by the store.
#[derive(Eq, PartialEq, Copy, Clone, Debug, Structural)]
pub enum PlayerValueDB {
    UUID,
    Username,
    Password,
    Level,
    Exp,
    Steps,
    Health,
    CurrentRegion,
    Active,
}

impl PlayerValueDB {
    pub open spec fn spec_column(self) -> Seq<char> {
        match self {
            PlayerValueDB::UUID => "owner"@,
            PlayerValueDB::Username => "username"@,
            PlayerValueDB::Password => "password"@,
            PlayerValueDB::Level => "level"@,
            PlayerValueDB::Exp => "exp"@,
            PlayerValueDB::Steps => "steps"@,
            PlayerValueDB::Health => "health"@,
            PlayerValueDB::CurrentRegion => "current_region"@,
            PlayerValueDB::Active => "active"@,
        }
    }

    /// The column's name.
    pub fn to_string(&self) -> (r: String)
        ensures
            r@ == self.spec_column(),
    {
        match self {
            PlayerValueDB::UUID => String::from_str("owner"),
            PlayerValueDB::Username => String::from_str("username"),
            PlayerValueDB::Password => String::from_str("password"),
            PlayerValueDB::Level => String::from_str("level"),
            PlayerValueDB::Exp => String::from_str("exp"),
            PlayerValueDB::Steps => String::from_str("steps"),
            PlayerValueDB::Health => String::from_str("health"),
            PlayerValueDB::CurrentRegion => String::from_str("current_region"),
            PlayerValueDB::Active => String::from_str("active"),
        }
    }
}

/// The columns of an item record, as named by the store.
#[derive(Eq, PartialEq, Copy, Clone, Debug, Structural)]
pub enum ItemValueDB {
    UUID,
    Owner,
    Name,
    Type,
    Level,
    Damage,
    Defense,
    SpecialAbility,
    Rarity,
}

impl ItemValueDB {
    pub open spec fn spec_column(self) -> Seq<char> {
        match self {
            ItemValueDB::UUID => "uuid"@,
            ItemValueDB::Name => "name"@,
            ItemValueDB::Owner => "owner"@,
            ItemValueDB::Type => "type"@,
            ItemValueDB::Level => "level"@,
            ItemValueDB::Damage => "damage"@,
            ItemValueDB::Defense => "defense"@,
            ItemValueDB::SpecialAbility => "special_ability"@,
            ItemValueDB::Rarity => "rarity"@,
        }
    }

    /// The column's name.
    pub fn to_string(&self) -> (r: String)
        ensures
            r@ == self.spec_column(),
    {
        match self {
            ItemValueDB::UUID => String::from_str("uuid"),
            ItemValueDB::Name => String::from_str("name"),
            ItemValueDB::Owner => String::from_str("owner"),
            ItemValueDB::Type => String::from_str("type"),
            ItemValueDB::Level => String::from_str("level"),
            ItemValueDB::Damage => String::from_str("damage"),
            ItemValueDB::Defense => String::from_str("defense"),
            ItemValueDB::SpecialAbility => String::from_str("special_ability"),
            ItemValueDB::Rarity => String::from_str("rarity"),
        }
    }
}

/// A player's stable identity: the identifier assigned at signup and the
/// chosen username.
#[derive(Debug)]
pub struct Player {
    pub uuid: u128,
    pub name: String,
}

/// One player's persistent record.
#[derive(Debug)]
pub struct PlayerRecord {
    pub uuid: u128,
    pub username: String,
    pub password: String,
    pub level: u32,
    pub exp: u32,
    pub steps: u32,
    pub health: u32,
    pub region: String,
    pub active: bool,
}

impl Clone for PlayerRecord {
    fn clone(&self) -> (r: Self)
        ensures
            r == *self,
    {
        PlayerRecord {
            uuid: self.uuid,
            username: self.username.clone(),
            password: self.password.clone(),
            level: self.level,
            exp: self.exp,
            steps: self.steps,
            health: self.health,
            region: self.region.clone(),
            active: self.active,
        }
    }
}

/// The in-memory store of players and items.
pub struct Database {
    pub players: Vec<PlayerRecord>,
    pub items: Vec<Item>,
}

impl Database {
    /// Store invariant: player identifiers and usernames are unique, every
    /// player is at least level 1, and item identifiers are unique.
    pub open spec fn wf(self) -> bool {
        &&& forall|i: int, j: int|
            0 <= i < j < self.players@.len() ==> (#[trigger] self.players@[i]).uuid != (
            #[trigger] self.players@[j]).uuid
        &&& forall|i: int, j: int|
            0 <= i < j < self.players@.len() ==> (#[trigger] self.players@[i]).username@ != (
            #[trigger] self.players@[j]).username@
        &&& forall|i: int| 0 <= i < self.players@.len() ==> (#[trigger] self.players@[i]).level >= 1
        &&& forall|i: int, j: int|
            0 <= i < j < self.items@.len() ==> (#[trigger] self.items@[i]).uuid != (
            #[trigger] self.items@[j]).uuid
    }

    pub open spec fn has_username(self, name: Seq<char>) -> bool {
        exists|i: int| 0 <= i < self.players@.len() && (#[trigger] self.players@[i]).username@ == name
    }

    pub open spec fn has_player(self, uuid: u128) -> bool {
        exists|i: int| 0 <= i < self.players@.len() && (#[trigger] self.players@[i]).uuid == uuid
    }

    /// The record of the player with this identifier (meaningful only when
    /// `has_player` holds; unique under the invariant).
    pub open spec fn player_at(self, uuid: u128) -> PlayerRecord {
        self.players@[choose|i: int|
            0 <= i < self.players@.len() && (#[trigger] self.players@[i]).uuid == uuid]
    }

    /// The record of the player with this username.
    pub open spec fn player_named(self, name: Seq<char>) -> PlayerRecord {
        self.players@[choose|i: int|
            0 <= i < self.players@.len() && (#[trigger] self.players@[i]).username@ == name]
    }

    pub open spec fn has_item(self, uuid: u128) -> bool {
        exists|i: int| 0 <= i < self.items@.len() && (#[trigger] self.items@[i]).uuid == uuid
    }

    /// The record of the item with this identifier.
    pub open spec fn item_at(self, uuid: u128) -> Item {
        self.items@[choose|i: int|
            0 <= i < self.items@.len() && (#[trigger] self.items@[i]).uuid == uuid]
    }

    /// A fresh, empty store.
    pub fn new() -> (r: Database)
        ensures
            r.wf(),
            r.players@.len() == 0,
            r.items@.len() == 0,
    {
        Database { players: Vec::new(), items: Vec::new() }
    }

    fn find_player_by_name(&self, username: &String) -> (r: Option<usize>)
        ensures
            match r {
                Some(i) => i < self.players@.len() && self.players@[i as int].username@
                    == username@,
                None => !self.has_username(username@),
            },
    {
        let mut i: usize = 0;
        while i < self.players.len()
            invariant
                i <= self.players@.len(),
                forall|k: int| 0 <= k < i ==> (#[trigger] self.players@[k]).username@ != username@,
            decreases self.players@.len() - i,
        {
            if self.players[i].username == *username {
                return Some(i);
            }
            i = i + 1;
        }
        None
    }

    fn find_player_by_uuid(&self, uuid: &u128) -> (r: Option<usize>)
        ensures
            match r {
                Some(i) => i < self.players@.len() && self.players@[i as int].uuid == *uuid,
                None => !self.has_player(*uuid),
            },
    {
        let mut i: usize = 0;
        while i < self.players.len()
            invariant
                i <= self.players@.len(),
                forall|k: int| 0 <= k < i ==> (#[trigger] self.players@[k]).uuid != *uuid,
            decreases self.players@.len() - i,
        {
            if self.players[i].uuid == *uuid {
                return Some(i);
            }
            i = i + 1;
        }
        None
    }

    /// Under the invariant, any index holding this identifier holds the
    /// record `player_at` names.
    proof fn lemma_player_at(self, i: int, uuid: u128)
        requires
            self.wf(),
            0 <= i < self.players@.len(),
            self.players@[i].uuid == uuid,
        ensures
            self.has_player(uuid),
            self.player_at(uuid) == self.players@[i],
            self.players@[i].username@ == self.player_at(uuid).username@,
    {
        assert(self.has_player(uuid));
        let j = choose|j: int|
            0 <= j < self.players@.len() && (#[trigger] self.players@[j]).uuid == uuid;
        if i != j {
            assert(self.players@[i].uuid != self.players@[j].uuid);
        }
    }

    /// Under the invariant, any index holding this username holds the
    /// record `player_named` names.
    proof fn lemma_player_named(self, i: int, name: Seq<char>)
        requires
            self.wf(),
            0 <= i < self.players@.len(),
            self.players@[i].username@ == name,
        ensures
            self.has_username(name),
            self.player_named(name) == self.players@[i],
    {
        assert(self.has_username(name));
        let j = choose|j: int|
            0 <= j < self.players@.len() && (#[trigger] self.players@[j]).username@ == name;
        if i != j {
            assert(self.players@[i].username@ != self.players@[j].username@);
        }
    }

    /// Under the invariant, any index holding this item identifier holds
    /// the record `item_at` names.
    proof fn lemma_item_at(self, i: int, uuid: u128)
        requires
            self.wf(),
            0 <= i < self.items@.len(),
            self.items@[i].uuid == uuid,
        ensures
            self.has_item(uuid),
            self.item_at(uuid) == self.items@[i],
    {
        assert(self.has_item(uuid));
        let j = choose|j: int|
            0 <= j < self.items@.len() && (#[trigger] self.items@[j]).uuid == uuid;
        if i != j {
            assert(self.items@[i].uuid != self.items@[j].uuid);
        }
    }

    /// The identifier registered for a username, if any.
    pub fn uuid_from_username(&self, username: &String) -> (r: Option<u128>)
        requires
            self.wf(),
        ensures
            match r {
                Some(u) => self.has_username(username@) && u == self.player_named(username@).uuid,
                None => !self.has_username(username@),
            },
    {
        match self.find_player_by_name(username) {
            Some(i) => {
                proof {
                    self.lemma_player_named(i as int, username@);
                }
                Some(self.players[i].uuid)
            },
            None => None,
        }
    }

    /// Whether a username is already registered.
    pub fn player_exists(&self, username: &String) -> (r: bool)
        requires
            self.wf(),
        ensures
            r == self.has_username(username@),
    {
        match self.find_player_by_name(username) {
            Some(i) => {
                proof {
                    self.lemma_player_named(i as int, username@);
                }
                true
            },
            None => false,
        }
    }

    /// Check a login attempt. Succeeds with the player's identifier exactly
    /// when the username is registered, the stored password matches, and no
    /// session currently holds the identity; otherwise reports which check
    /// failed: `Unrecognized` for an unknown username, `AlreadyOnline` for
    /// an active record, `Unauthorized` for a wrong password.
    pub fn validate_login(&self, username: String, password: String) -> (r: Result<
        u128,
        LoginFailReason,
    >)
        requires
            self.wf(),
        ensures
            match r {
                Ok(u) => {
                    &&& self.has_username(username@)
                    &&& self.player_named(username@).password@ == password@
                    &&& !self.player_named(username@).active
                    &&& u == self.player_named(username@).uuid
                },
                Err(LoginFailReason::Unrecognized) => !self.has_username(username@),
                Err(LoginFailReason::AlreadyOnline) => self.has_username(username@)
                    && self.player_named(username@).active,
                Err(LoginFailReason::Unauthorized) => {
                    &&& self.has_username(username@)
                    &&& !self.player_named(username@).active
                    &&& self.player_named(username@).password@ != password@
                },
            },
    {
        let i = match self.find_player_by_name(&username) {
            Some(i) => i,
            None => {
                return Err(LoginFailReason::Unrecognized);
            },
        };
        proof {
            self.lemma_player_named(i as int, username@);
        }
        if self.players[i].active {
            return Err(LoginFailReason::AlreadyOnline);
        }
        if self.players[i].password == password {
            Ok(self.players[i].uuid)
        } else {
            Err(LoginFailReason::Unauthorized)
        }
    }

    /// Whether a session currently holds this identity.
    pub fn is_player_active(&self, uuid: &u128) -> (r: bool)
        requires
            self.wf(),
        ensures
            r == (self.has_player(*uuid) && self.player_at(*uuid).active),
    {
        match self.find_player_by_uuid(uuid) {
            Some(i) => {
                proof {
                    self.lemma_player_at(i as int, *uuid);
                }
                self.players[i].active
            },
            None => false,
        }
    }

    /// A copy of the player's record.
    pub fn get_player(&self, uuid: &u128) -> (r: Option<PlayerRecord>)
        requires
            self.wf(),
        ensures
            match r {
                Some(p) => self.has_player(*uuid) && p == self.player_at(*uuid),
                None => !self.has_player(*uuid),
            },
    {
        match self.find_player_by_uuid(uuid) {
            Some(i) => {
                proof {
                    self.lemma_player_at(i as int, *uuid);
                }
                Some(self.players[i].clone())
            },
            None => None,
        }
    }

    /// Updating one player record in place, keeping its identifier and
    /// username, preserves the invariant and leaves every other record as
    /// it was.
    proof fn lemma_player_update_frame(pre: Database, post: Database, i: int, rec: PlayerRecord)
        requires
            pre.wf(),
            0 <= i < pre.players@.len(),
            rec.uuid == pre.players@[i].uuid,
            rec.username@ == pre.players@[i].username@,
            rec.level >= 1,
            post.players@ == pre.players@.update(i, rec),
            post.items@ == pre.items@,
        ensures
            post.wf(),
            forall|u: u128| post.has_player(u) == pre.has_player(u),
            post.has_player(rec.uuid),
            post.player_at(rec.uuid) == rec,
            forall|u: u128|
                u != rec.uuid && pre.has_player(u) ==> post.player_at(u) == pre.player_at(u),
            forall|n: Seq<char>| post.has_username(n) == pre.has_username(n),
            post.player_named(rec.username@) == rec,
            forall|n: Seq<char>|
                n != rec.username@ && pre.has_username(n) ==> post.player_named(n)
                    == pre.player_named(n),
    {
        assert(post.wf());
        assert forall|u: u128| post.has_player(u) == pre.has_player(u) by {
            if pre.has_player(u) {
                let k = choose|k: int|
                    0 <= k < pre.players@.len() && (#[trigger] pre.players@[k]).uuid == u;
                if k == i {
                    assert(post.players@[i].uuid == u);
                } else {
                    assert(post.players@[k].uuid == u);
                }
            }
            if post.has_player(u) {
                let k = choose|k: int|
                    0 <= k < post.players@.len() && (#[trigger] post.players@[k]).uuid == u;
                if k == i {
                    assert(pre.players@[i].uuid == u);
                } else {
                    assert(pre.players@[k].uuid == u);
                }
            }
        }
        post.lemma_player_at(i, rec.uuid);
        assert forall|u: u128| u != rec.uuid && pre.has_player(u) implies post.player_at(u)
            == pre.player_at(u) by {
            let k = choose|k: int|
                0 <= k < pre.players@.len() && (#[trigger] pre.players@[k]).uuid == u;
            assert(k != i);
            pre.lemma_player_at(k, u);
            post.lemma_player_at(k, u);
        }
        assert forall|n: Seq<char>| post.has_username(n) == pre.has_username(n) by {
            if pre.has_username(n) {
                let k = choose|k: int|
                    0 <= k < pre.players@.len() && (#[trigger] pre.players@[k]).username@ == n;
                if k == i {
                    assert(post.players@[i].username@ == n);
                } else {
                    assert(post.players@[k].username@ == n);
                }
            }
            if post.has_username(n) {
                let k = choose|k: int|
                    0 <= k < post.players@.len() && (#[trigger] post.players@[k]).username@ == n;
                if k == i {
                    assert(pre.players@[i].username@ == n);
                } else {
                    assert(pre.players@[k].username@ == n);
                }
            }
        }
        post.lemma_player_named(i, rec.username@);
        assert forall|n: Seq<char>| n != rec.username@ && pre.has_username(n) implies post.player_named(
            n,
        ) == pre.player_named(n) by {
            let k = choose|k: int|
                0 <= k < pre.players@.len() && (#[trigger] pre.players@[k]).username@ == n;
            assert(k != i);
            pre.lemma_player_named(k, n);
            post.lemma_player_named(k, n);
        }
    }

    /// The record a username names is the record its identifier names.
    pub proof fn lemma_named_is_at(self, name: Seq<char>)
        requires
            self.wf(),
            self.has_username(name),
        ensures
            self.has_player(self.player_named(name).uuid),
            self.player_at(self.player_named(name).uuid) == self.player_named(name),
    {
        let k = choose|k: int|
            0 <= k < self.players@.len() && (#[trigger] self.players@[k]).username@ == name;
        self.lemma_player_named(k, name);
        self.lemma_player_at(k, self.players@[k].uuid);
    }

    /// Mark the player as bound to a live session. Returns whether the
    /// identity exists; nothing else changes in either case.
    pub fn set_player_active(&mut self, uuid: &u128) -> (r: bool)
        requires
            old(self).wf(),
        ensures
            final(self).wf(),
            final(self).items@ == old(self).items@,
            r == old(self).has_player(*uuid),
            !r ==> *final(self) == *old(self),
            r ==> Database::player_updated(
                *old(self),
                *final(self),
                *uuid,
                PlayerRecord { active: true, ..old(self).player_at(*uuid) },
            ),
    {
        let i = match self.find_player_by_uuid(uuid) {
            Some(i) => i,
            None => {
                return false;
            },
        };
        proof {
            self.lemma_player_at(i as int, *uuid);
        }
        let mut rec = self.players[i].clone();
        rec.active = true;
        let ghost pre = *self;
        self.players.set(i, rec);
        proof {
            Database::lemma_player_update_frame(pre, *self, i as int, self.players@[i as int]);
        }
        true
    }
    /// One player record changed in place; everything else as before.
    pub open spec fn player_updated(
        pre: Database,
        post: Database,
        uuid: u128,
        rec: PlayerRecord,
    ) -> bool {
        &&& post.players@.len() == pre.players@.len()
        &&& post.has_player(uuid)
        &&& post.player_at(uuid) == rec
        &&& forall|u: u128| post.has_player(u) == pre.has_player(u)
        &&& forall|u: u128|
            u != uuid && pre.has_player(u) ==> post.player_at(u) == pre.player_at(u)
        &&& forall|n: Seq<char>| post.has_username(n) == pre.has_username(n)
        &&& post.player_named(rec.username@) == rec
        &&& forall|n: Seq<char>|
            n != rec.username@ && pre.has_username(n) ==> post.player_named(n) == pre.player_named(
                n,
            )
    }

    /// Release the identity when its session ends. Returns whether the
    /// identity exists; nothing else changes in either case.
    pub fn set_player_inactive(&mut self, uuid: &u128) -> (r: bool)
        requires
            old(self).wf(),
        ensures
            final(self).wf(),
            final(self).items@ == old(self).items@,
            r == old(self).has_player(*uuid),
            !r ==> *final(self) == *old(self),
            r ==> Database::player_updated(
                *old(self),
                *final(self),
                *uuid,
                PlayerRecord { active: false, ..old(self).player_at(*uuid) },
            ),
    {
        let i = match self.find_player_by_uuid(uuid) {
            Some(i) => i,
            None => {
                return false;
            },
        };
        proof {
            self.lemma_player_at(i as int, *uuid);
        }
        let mut rec = self.players[i].clone();
        rec.active = false;
        let ghost pre = *self;
        self.players.set(i, rec);
        proof {
            Database::lemma_player_update_frame(pre, *self, i as int, self.players@[i as int]);
        }
        true
    }

    /// Count one step taken, holding at the counter's ceiling.
    pub fn inc_player_steps(&mut self, uuid: &u128) -> (r: bool)
        requires
            old(self).wf(),
        ensures
            final(self).wf(),
            final(self).items@ == old(self).items@,
            r == old(self).has_player(*uuid),
            !r ==> *final(self) == *old(self),
            r ==> Database::player_updated(
                *old(self),
                *final(self),
                *uuid,
                PlayerRecord {
                    steps: if old(self).player_at(*uuid).steps < u32::MAX {
                        (old(self).player_at(*uuid).steps + 1) as u32
                    } else {
                        u32::MAX
                    },
                    ..old(self).player_at(*uuid)
                },
            ),
    {
        let i = match self.find_player_by_uuid(uuid) {
            Some(i) => i,
            None => {
                return false;
            },
        };
        proof {
            self.lemma_player_at(i as int, *uuid);
        }
        let mut rec = self.players[i].clone();
        rec.steps = if rec.steps < u32::MAX {
            rec.steps + 1
        } else {
            u32::MAX
        };
        let ghost pre = *self;
        self.players.set(i, rec);
        proof {
            Database::lemma_player_update_frame(pre, *self, i as int, self.players@[i as int]);
        }
        true
    }

    /// Credit an experience gain, holding at the counter's ceiling. The
    /// gain is not yet settled into levels; `check_levelup` does that.
    pub fn add_player_exp(&mut self, uuid: &u128, amt: u32) -> (r: bool)
        requires
            old(self).wf(),
        ensures
            final(self).wf(),
            final(self).items@ == old(self).items@,
            r == old(self).has_player(*uuid),
            !r ==> *final(self) == *old(self),
            r ==> Database::player_updated(
                *old(self),
                *final(self),
                *uuid,
                PlayerRecord {
                    exp: if old(self).player_at(*uuid).exp + amt <= u32::MAX {
                        (old(self).player_at(*uuid).exp + amt) as u32
                    } else {
                        u32::MAX
                    },
                    ..old(self).player_at(*uuid)
                },
            ),
    {
        let i = match self.find_player_by_uuid(uuid) {
            Some(i) => i,
            None => {
                return false;
            },
        };
        proof {
            self.lemma_player_at(i as int, *uuid);
        }
        let mut rec = self.players[i].clone();
        rec.exp = if rec.exp <= u32::MAX - amt {
            rec.exp + amt
        } else {
            u32::MAX
        };
        let ghost pre = *self;
        self.players.set(i, rec);
        proof {
            Database::lemma_player_update_frame(pre, *self, i as int, self.players@[i as int]);
        }
        true
    }

    /// Settle the player's accumulated experience into level-ups, leaving
    /// the remainder as experience, exactly as the leveling formula says.
    pub fn check_levelup(&mut self, uuid: &u128) -> (r: bool)
        requires
            old(self).wf(),
        ensures
            final(self).wf(),
            final(self).items@ == old(self).items@,
            r == old(self).has_player(*uuid),
            !r ==> *final(self) == *old(self),
            r ==> Database::player_updated(
                *old(self),
                *final(self),
                *uuid,
                PlayerRecord {
                    level: crate::level::spec_apply_experience(
                        old(self).player_at(*uuid).level as nat,
                        old(self).player_at(*uuid).exp as nat,
                    ).0 as u32,
                    exp: crate::level::spec_apply_experience(
                        old(self).player_at(*uuid).level as nat,
                        old(self).player_at(*uuid).exp as nat,
                    ).1 as u32,
                    ..old(self).player_at(*uuid)
                },
            ),
    {
        let i = match self.find_player_by_uuid(uuid) {
            Some(i) => i,
            None => {
                return false;
            },
        };
        proof {
            self.lemma_player_at(i as int, *uuid);
        }
        let mut rec = self.players[i].clone();
        let (lvl, exp) = crate::level::apply_experience(rec.level, rec.exp, 0);
        rec.level = lvl;
        rec.exp = exp;
        let ghost pre = *self;
        self.players.set(i, rec);
        proof {
            Database::lemma_player_update_frame(pre, *self, i as int, self.players@[i as int]);
        }
        true
    }

    /// Clearing the active flag is idempotent: once a session's teardown
    /// has cleared it, clearing it again changes no record, so the
    /// cleanup may run on every close path without harm.
    pub proof fn lemma_clear_active_idempotent(
        pre: Database,
        mid: Database,
        post: Database,
        uuid: u128,
    )
        requires
            pre.wf(),
            pre.has_player(uuid),
            Database::player_updated(
                pre,
                mid,
                uuid,
                PlayerRecord { active: false, ..pre.player_at(uuid) },
            ),
            Database::player_updated(
                mid,
                post,
                uuid,
                PlayerRecord { active: false, ..mid.player_at(uuid) },
            ),
        ensures
            forall|u: u128| post.has_player(u) == mid.has_player(u),
            forall|u: u128| mid.has_player(u) ==> post.player_at(u) == mid.player_at(u),
    {
        assert(mid.player_at(uuid).active == false);
        assert(PlayerRecord { active: false, ..mid.player_at(uuid) } == mid.player_at(uuid));
    }

    /// Appending a fresh player record preserves the invariant and leaves
    /// every existing record reachable as before.
    proof fn lemma_player_push_frame(pre: Database, post: Database, rec: PlayerRecord)
        requires
            pre.wf(),
            !pre.has_player(rec.uuid),
            !pre.has_username(rec.username@),
            rec.level >= 1,
            post.players@ == pre.players@.push(rec),
            post.items@ == pre.items@,
        ensures
            post.wf(),
            post.has_player(rec.uuid),
            post.player_at(rec.uuid) == rec,
            forall|u: u128| u != rec.uuid ==> post.has_player(u) == pre.has_player(u),
            forall|u: u128|
                u != rec.uuid && pre.has_player(u) ==> post.player_at(u) == pre.player_at(u),
            post.has_username(rec.username@),
            post.player_named(rec.username@) == rec,
            forall|n: Seq<char>| n != rec.username@ ==> post.has_username(n) == pre.has_username(n),
            forall|n: Seq<char>|
                n != rec.username@ && pre.has_username(n) ==> post.player_named(n)
                    == pre.player_named(n),
    {
        let len = pre.players@.len() as int;
        assert forall|k: int| 0 <= k < len implies (#[trigger] pre.players@[k]).uuid != rec.uuid
            && pre.players@[k].username@ != rec.username@ by {
            if pre.players@[k].uuid == rec.uuid {
                assert(pre.has_player(rec.uuid));
            }
            if pre.players@[k].username@ == rec.username@ {
                assert(pre.has_username(rec.username@));
            }
        }
        assert(post.wf());
        assert(post.players@[len] == rec);
        post.lemma_player_at(len, rec.uuid);
        post.lemma_player_named(len, rec.username@);
        assert forall|u: u128| u != rec.uuid implies post.has_player(u) == pre.has_player(u) by {
            if pre.has_player(u) {
                let k = choose|k: int|
                    0 <= k < pre.players@.len() && (#[trigger] pre.players@[k]).uuid == u;
                assert(post.players@[k].uuid == u);
            }
            if post.has_player(u) {
                let k = choose|k: int|
                    0 <= k < post.players@.len() && (#[trigger] post.players@[k]).uuid == u;
                assert(k != len);
                assert(pre.players@[k].uuid == u);
            }
        }
        assert forall|u: u128| u != rec.uuid && pre.has_player(u) implies post.player_at(u)
            == pre.player_at(u) by {
            let k = choose|k: int|
                0 <= k < pre.players@.len() && (#[trigger] pre.players@[k]).uuid == u;
            pre.lemma_player_at(k, u);
            post.lemma_player_at(k, u);
        }
        assert forall|n: Seq<char>| n != rec.username@ implies post.has_username(n)
            == pre.has_username(n) by {
            if pre.has_username(n) {
                let k = choose|k: int|
                    0 <= k < pre.players@.len() && (#[trigger] pre.players@[k]).username@ == n;
                assert(post.players@[k].username@ == n);
            }
            if post.has_username(n) {
                let k = choose|k: int|
                    0 <= k < post.players@.len() && (#[trigger] post.players@[k]).username@ == n;
                assert(k != len);
                assert(pre.players@[k].username@ == n);
            }
        }
        assert forall|n: Seq<char>| n != rec.username@ && pre.has_username(n) implies post.player_named(
            n,
        ) == pre.player_named(n) by {
            let k = choose|k: int|
                0 <= k < pre.players@.len() && (#[trigger] pre.players@[k]).username@ == n;
            pre.lemma_player_named(k, n);
            post.lemma_player_named(k, n);
        }
    }

    /// Register a new player: level 1, no experience, no steps, full
    /// health, starting in the Plains of Arenlok, not yet active. Succeeds
    /// exactly when neither the identifier nor the username is taken.
    pub fn new_player(&mut self, player: &Player, password: String) -> (r: bool)
        requires
            old(self).wf(),
        ensures
            final(self).wf(),
            final(self).items@ == old(self).items@,
            r == (!old(self).has_player(player.uuid) && !old(self).has_username(player.name@)),
            !r ==> *final(self) == *old(self),
            r ==> ({
                let rec = final(self).players@.last();
                &&& final(self).players@ == old(self).players@.push(rec)
                &&& rec.uuid == player.uuid
                &&& rec.username@ == player.name@
                &&& rec.password@ == password@
                &&& rec.level == 1
                &&& rec.exp == 0
                &&& rec.steps == 0
                &&& rec.health == 100
                &&& rec.region@ == "Plains of Arenlok"@
                &&& rec.active == false
                &&& final(self).has_player(player.uuid)
                &&& final(self).player_at(player.uuid) == rec
                &&& final(self).has_username(player.name@)
                &&& final(self).player_named(player.name@) == rec
                &&& forall|u: u128|
                    u != player.uuid ==> final(self).has_player(u) == old(self).has_player(u)
                &&& forall|u: u128|
                    u != player.uuid && old(self).has_player(u) ==> final(self).player_at(u) == old(
                        self,
                    ).player_at(u)
                &&& forall|n: Seq<char>|
                    n != player.name@ ==> final(self).has_username(n) == old(self).has_username(n)
                &&& forall|n: Seq<char>|
                    n != player.name@ && old(self).has_username(n) ==> final(self).player_named(n)
                        == old(self).player_named(n)
            }),
    {
        if self.find_player_by_uuid(&player.uuid).is_some() {
            return false;
        }
        if self.find_player_by_name(&player.name).is_some() {
            return false;
        }
        let rec = PlayerRecord {
            uuid: player.uuid,
            username: player.name.clone(),
            password,
            level: 1,
            exp: 0,
            steps: 0,
            health: 100,
            region: String::from_str("Plains of Arenlok"),
            active: false,
        };
        let ghost pre = *self;
        self.players.push(rec);
        proof {
            Database::lemma_player_push_frame(
                pre,
                *self,
                self.players@[self.players@.len() - 1],
            );
        }
        true
    }
    fn find_item_by_uuid(&self, uuid: &u128) -> (r: Option<usize>)
        ensures
            match r {
                Some(i) => i < self.items@.len() && self.items@[i as int].uuid == *uuid,
                None => !self.has_item(*uuid),
            },
    {
        let mut i: usize = 0;
        while i < self.items.len()
            invariant
                i <= self.items@.len(),
                forall|k: int| 0 <= k < i ==> (#[trigger] self.items@[k]).uuid != *uuid,
            decreases self.items@.len() - i,
        {
            if self.items[i].uuid == *uuid {
                return Some(i);
            }
            i = i + 1;
        }
        None
    }

    /// One item record changed in place; everything else as before.
    pub open spec fn item_updated(pre: Database, post: Database, uuid: u128, rec: Item) -> bool {
        &&& post.has_item(uuid)
        &&& post.item_at(uuid) == rec
        &&& forall|u: u128| post.has_item(u) == pre.has_item(u)
        &&& forall|u: u128| u != uuid && pre.has_item(u) ==> post.item_at(u) == pre.item_at(u)
    }

    /// Updating one item record in place, keeping its identifier,
    /// preserves the invariant and leaves every other record as it was.
    proof fn lemma_item_update_frame(pre: Database, post: Database, i: int, rec: Item)
        requires
            pre.wf(),
            0 <= i < pre.items@.len(),
            rec.uuid == pre.items@[i].uuid,
            post.items@ == pre.items@.update(i, rec),
            post.players@ == pre.players@,
        ensures
            post.wf(),
            Database::item_updated(pre, post, rec.uuid, rec),
    {
        assert(post.wf());
        post.lemma_item_at(i, rec.uuid);
        assert forall|u: u128| post.has_item(u) == pre.has_item(u) by {
            if pre.has_item(u) {
                let k = choose|k: int|
                    0 <= k < pre.items@.len() && (#[trigger] pre.items@[k]).uuid == u;
                if k == i {
                    assert(post.items@[i].uuid == u);
                } else {
                    assert(post.items@[k].uuid == u);
                }
            }
            if post.has_item(u) {
                let k = choose|k: int|
                    0 <= k < post.items@.len() && (#[trigger] post.items@[k]).uuid == u;
                if k == i {
                    assert(pre.items@[i].uuid == u);
                } else {
                    assert(pre.items@[k].uuid == u);
                }
            }
        }
        assert forall|u: u128| u != rec.uuid && pre.has_item(u) implies post.item_at(u)
            == pre.item_at(u) by {
            let k = choose|k: int|
                0 <= k < pre.items@.len() && (#[trigger] pre.items@[k]).uuid == u;
            assert(k != i);
            pre.lemma_item_at(k, u);
            post.lemma_item_at(k, u);
        }
    }

    /// Record a newly found item. Succeeds exactly when its identifier is
    /// fresh; nothing else changes in either case.
    pub fn new_item(&mut self, item: &Item) -> (r: bool)
        requires
            old(self).wf(),
        ensures
            final(self).wf(),
            final(self).players@ == old(self).players@,
            r == !old(self).has_item(item.uuid),
            !r ==> *final(self) == *old(self),
            r ==> ({
                &&& final(self).items@ == old(self).items@.push(*item)
                &&& final(self).has_item(item.uuid)
                &&& final(self).item_at(item.uuid) == *item
                &&& forall|u: u128|
                    u != item.uuid ==> final(self).has_item(u) == old(self).has_item(u)
                &&& forall|u: u128|
                    u != item.uuid && old(self).has_item(u) ==> final(self).item_at(u) == old(
                        self,
                    ).item_at(u)
            }),
    {
        if self.find_item_by_uuid(&item.uuid).is_some() {
            return false;
        }
        let ghost pre = *self;
        self.items.push(item.clone());
        proof {
            let len = pre.items@.len() as int;
            assert forall|k: int| 0 <= k < len implies (#[trigger] pre.items@[k]).uuid
                != item.uuid by {
                if pre.items@[k].uuid == item.uuid {
                    assert(pre.has_item(item.uuid));
                }
            }
            assert(self.items@[len] == *item);
            self.lemma_item_at(len, item.uuid);
            assert forall|u: u128| u != item.uuid implies self.has_item(u) == pre.has_item(u) by {
                if pre.has_item(u) {
                    let k = choose|k: int|
                        0 <= k < pre.items@.len() && (#[trigger] pre.items@[k]).uuid == u;
                    assert(self.items@[k].uuid == u);
                }
                if self.has_item(u) {
                    let k = choose|k: int|
                        0 <= k < self.items@.len() && (#[trigger] self.items@[k]).uuid == u;
                    assert(k != len);
                    assert(pre.items@[k].uuid == u);
                }
            }
            assert forall|u: u128| u != item.uuid && pre.has_item(u) implies self.item_at(u)
                == pre.item_at(u) by {
                let k = choose|k: int|
                    0 <= k < pre.items@.len() && (#[trigger] pre.items@[k]).uuid == u;
                pre.lemma_item_at(k, u);
                self.lemma_item_at(k, u);
            }
        }
        true
    }

    /// The items a player owns, in store order.
    pub open spec fn owned_by(self, owner: u128) -> Seq<Item> {
        self.items@.filter(|it: Item| it.owner == owner)
    }

    /// Every item owned by this player, in store order.
    pub fn get_player_items(&self, owner_uuid: &u128) -> (r: Vec<Item>)
        ensures
            r@ == self.owned_by(*owner_uuid),
    {
        let mut out: Vec<Item> = Vec::new();
        let mut i: usize = 0;
        proof {
            reveal(Seq::filter);
            assert(self.items@.take(0) =~= Seq::<Item>::empty());
        }
        while i < self.items.len()
            invariant
                i <= self.items@.len(),
                out@ == self.items@.take(i as int).filter(|it: Item| it.owner == *owner_uuid),
            decreases self.items@.len() - i,
        {
            proof {
                reveal(Seq::filter);
                assert(self.items@.take(i as int + 1).drop_last() =~= self.items@.take(i as int));
                assert(self.items@.take(i as int + 1).last() == self.items@[i as int]);
            }
            if self.items[i].owner == *owner_uuid {
                out.push(self.items[i].clone());
            }
            i = i + 1;
        }
        proof {
            assert(self.items@.take(self.items@.len() as int) =~= self.items@);
        }
        out
    }

    /// The identifier of an item with this exact name, if one exists.
    pub fn item_uuid_from_name(&self, name: &String) -> (r: Option<u128>)
        requires
            self.wf(),
        ensures
            match r {
                Some(u) => self.has_item(u) && self.item_at(u).name@ == name@,
                None => forall|k: int|
                    0 <= k < self.items@.len() ==> (#[trigger] self.items@[k]).name@ != name@,
            },
    {
        let mut i: usize = 0;
        while i < self.items.len()
            invariant
                self.wf(),
                i <= self.items@.len(),
                forall|k: int| 0 <= k < i ==> (#[trigger] self.items@[k]).name@ != name@,
            decreases self.items@.len() - i,
        {
            if self.items[i].name == *name {
                proof {
                    self.lemma_item_at(i as int, self.items@[i as int].uuid);
                }
                return Some(self.items[i].uuid);
            }
            i = i + 1;
        }
        None
    }

    /// The identity that owns an item.
    pub fn get_item_owner(&self, item_uuid: &u128) -> (r: Option<u128>)
        requires
            self.wf(),
        ensures
            match r {
                Some(o) => self.has_item(*item_uuid) && o == self.item_at(*item_uuid).owner,
                None => !self.has_item(*item_uuid),
            },
    {
        match self.find_item_by_uuid(item_uuid) {
            Some(i) => {
                proof {
                    self.lemma_item_at(i as int, *item_uuid);
                }
                Some(self.items[i].owner)
            },
            None => None,
        }
    }

    /// A copy of the item's record.
    pub fn get_item(&self, item_uuid: &u128) -> (r: Option<Item>)
        requires
            self.wf(),
        ensures
            match r {
                Some(it) => self.has_item(*item_uuid) && it == self.item_at(*item_uuid),
                None => !self.has_item(*item_uuid),
            },
    {
        match self.find_item_by_uuid(item_uuid) {
            Some(i) => {
                proof {
                    self.lemma_item_at(i as int, *item_uuid);
                }
                Some(self.items[i].clone())
            },
            None => None,
        }
    }

    /// Delete an item record for good: dropping an item removes it from
    /// the world. Succeeds exactly when the identifier exists.
    pub fn drop_item(&mut self, item: &Item) -> (r: bool)
        requires
            old(self).wf(),
        ensures
            final(self).wf(),
            final(self).players@ == old(self).players@,
            r == old(self).has_item(item.uuid),
            !r ==> *final(self) == *old(self),
            r ==> ({
                &&& final(self).items@.len() == old(self).items@.len() - 1
                &&& !final(self).has_item(item.uuid)
                &&& forall|u: u128|
                    u != item.uuid ==> final(self).has_item(u) == old(self).has_item(u)
                &&& forall|u: u128|
                    u != item.uuid && old(self).has_item(u) ==> final(self).item_at(u) == old(
                        self,
                    ).item_at(u)
            }),
    {
        let i = match self.find_item_by_uuid(&item.uuid) {
            Some(i) => i,
            None => {
                return false;
            },
        };
        let ghost pre = *self;
        self.items.remove(i);
        proof {
            let len = pre.items@.len() as int;
            assert forall|a: int, b: int| 0 <= a < b < self.items@.len() implies (
            #[trigger] self.items@[a]).uuid != (#[trigger] self.items@[b]).uuid by {
                let a0 = if a < i {
                    a
                } else {
                    a + 1
                };
                let b0 = if b < i {
                    b
                } else {
                    b + 1
                };
                assert(self.items@[a] == pre.items@[a0]);
                assert(self.items@[b] == pre.items@[b0]);
            }
            assert(self.wf());
            assert forall|u: u128| !(#[trigger] self.has_item(u)) || u != pre.items@[i as int].uuid
                implies true by {}
            assert(!self.has_item(item.uuid)) by {
                if self.has_item(item.uuid) {
                    let k = choose|k: int|
                        0 <= k < self.items@.len() && (#[trigger] self.items@[k]).uuid
                            == item.uuid;
                    let k0 = if k < i {
                        k
                    } else {
                        k + 1
                    };
                    assert(pre.items@[k0].uuid == item.uuid);
                    assert(pre.items@[i as int].uuid == item.uuid);
                    assert(k0 != i);
                }
            }
            assert forall|u: u128| u != item.uuid implies self.has_item(u) == pre.has_item(u) by {
                if pre.has_item(u) {
                    let k = choose|k: int|
                        0 <= k < pre.items@.len() && (#[trigger] pre.items@[k]).uuid == u;
                    assert(k != i);
                    let k1 = if k < i {
                        k
                    } else {
                        k - 1
                    };
                    assert(self.items@[k1].uuid == u);
                }
                if self.has_item(u) {
                    let k = choose|k: int|
                        0 <= k < self.items@.len() && (#[trigger] self.items@[k]).uuid == u;
                    let k0 = if k < i {
                        k
                    } else {
                        k + 1
                    };
                    assert(pre.items@[k0].uuid == u);
                }
            }
            assert forall|u: u128| u != item.uuid && pre.has_item(u) implies self.item_at(u)
                == pre.item_at(u) by {
                let k = choose|k: int|
                    0 <= k < pre.items@.len() && (#[trigger] pre.items@[k]).uuid == u;
                assert(k != i);
                let k1 = if k < i {
                    k
                } else {
                    k - 1
                };
                assert(self.items@[k1].uuid == u);
                pre.lemma_item_at(k, u);
                self.lemma_item_at(k1, u);
            }
        }
        true
    }

    /// Replace the stored record of an item with this record, keyed by its
    /// identifier. Succeeds exactly when the identifier exists.
    pub fn update_item(&mut self, item: &Item) -> (r: bool)
        requires
            old(self).wf(),
        ensures
            final(self).wf(),
            final(self).players@ == old(self).players@,
            r == old(self).has_item(item.uuid),
            !r ==> *final(self) == *old(self),
            r ==> Database::item_updated(*old(self), *final(self), item.uuid, *item),
    {
        let i = match self.find_item_by_uuid(&item.uuid) {
            Some(i) => i,
            None => {
                return false;
            },
        };
        let ghost pre = *self;
        self.items.set(i, item.clone());
        proof {
            Database::lemma_item_update_frame(pre, *self, i as int, *item);
        }
        true
    }

    /// The stored item with one column overwritten from `src`.
    pub open spec fn spec_set_item_field(base: Item, src: Item, value: ItemValueDB) -> Item {
        match value {
            ItemValueDB::UUID => Item { uuid: src.uuid, ..base },
            ItemValueDB::Owner => Item { owner: src.owner, ..base },
            ItemValueDB::Name => Item { name: src.name, ..base },
            ItemValueDB::Type => Item { item_type: src.item_type, ..base },
            ItemValueDB::Level => Item { level: src.level, ..base },
            ItemValueDB::Damage => Item { damage: src.damage, ..base },
            ItemValueDB::Defense => Item { defense: src.defense, ..base },
            ItemValueDB::SpecialAbility => base,
            ItemValueDB::Rarity => Item { rarity: src.rarity, ..base },
        }
    }

    /// Copy one column of `item` into its stored record, keyed by the
    /// item's identifier. Succeeds exactly when the identifier exists.
    pub fn set_item_value(&mut self, item: &Item, value: ItemValueDB) -> (r: bool)
        requires
            old(self).wf(),
        ensures
            final(self).wf(),
            final(self).players@ == old(self).players@,
            r == old(self).has_item(item.uuid),
            !r ==> *final(self) == *old(self),
            r ==> Database::item_updated(
                *old(self),
                *final(self),
                item.uuid,
                Database::spec_set_item_field(old(self).item_at(item.uuid), *item, value),
            ),
    {
        let i = match self.find_item_by_uuid(&item.uuid) {
            Some(i) => i,
            None => {
                return false;
            },
        };
        proof {
            self.lemma_item_at(i as int, item.uuid);
        }
        let mut rec = self.items[i].clone();
        match value {
            ItemValueDB::UUID => {
                rec.uuid = item.uuid;
            },
            ItemValueDB::Owner => {
                rec.owner = item.owner;
            },
            ItemValueDB::Name => {
                rec.name = item.name.clone();
            },
            ItemValueDB::Type => {
                rec.item_type = item.item_type;
            },
            ItemValueDB::Level => {
                rec.level = item.level;
            },
            ItemValueDB::Damage => {
                rec.damage = item.damage;
            },
            ItemValueDB::Defense => {
                rec.defense = item.defense;
            },
            ItemValueDB::SpecialAbility => {},
            ItemValueDB::Rarity => {
                rec.rarity = item.rarity;
            },
        }
        let ghost pre = *self;
        self.items.set(i, rec);
        proof {
            Database::lemma_item_update_frame(pre, *self, i as int, self.items@[i as int]);
        }
        true
    }
}

} // verus!
