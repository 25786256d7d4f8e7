//! The event dispatcher: the mapping from an authenticated identity and
//! an inbound command to store changes and the reply sent back, plus the
//! randomized step resolution built on rolls and samples supplied by the
//! caller's random draws.

use crate::item::{Item, ItemType};
use crate::level::spec_apply_experience;
use crate::messages::{ItemData, ItemDataV, ServerEvent, ServerEventV};
use crate::store::{Database, PlayerRecord};
use vstd::prelude::*;
use vstd::string::StringExecFns;

verus! {

/// Which kind of event one percentile roll selects on a step.
#[derive(Copy, Clone, PartialEq, Eq, Structural, Debug)]
pub enum StepOutcome {
    /// Rolls below 80: the player gains experience.
    Exp,
    /// Rolls from 80 below 90: the player finds an item.
    Item,
    /// The remaining rolls: an encounter, reserved for a future subsystem.
    Encounter,
}

pub open spec fn spec_step_outcome(roll: u32) -> StepOutcome {
    if roll < 80 {
        StepOutcome::Exp
    } else if roll < 90 {
        StepOutcome::Item
    } else {
        StepOutcome::Encounter
    }
}

/// Classify one percentile roll into the step event it triggers.
pub fn step_outcome_from_roll(roll: u32) -> (r: StepOutcome)
    ensures
        r == spec_step_outcome(roll),
{
    if roll < 80 {
        StepOutcome::Exp
    } else if roll < 90 {
        StepOutcome::Item
    } else {
        StepOutcome::Encounter
    }
}

/// A rounded experience sample clamped into the allowed gain range of 2
/// to 10 points.
pub open spec fn spec_clamp_exp(sample: i64) -> u32 {
    if sample < 2 {
        2u32
    } else if sample > 10 {
        10u32
    } else {
        sample as u32
    }
}

pub fn clamp_exp(sample: i64) -> (r: u32)
    ensures
        r == spec_clamp_exp(sample),
        2 <= r <= 10,
{
    if sample < 2 {
        2
    } else if sample > 10 {
        10
    } else {
        sample as u32
    }
}

/// The wire view of an item record.
pub open spec fn spec_item_data(it: Item) -> ItemDataV {
    ItemDataV {
        name: it.name@,
        level: it.level,
        itype: it.item_type.spec_as_u32(),
        rarity: it.rarity.spec_as_u32(),
        damage: if it.item_type == ItemType::Sword {
            Some(it.damage)
        } else {
            None
        },
        defense: if it.item_type == ItemType::Sword {
            None
        } else {
            Some(it.defense)
        },
    }
}

/// Saturating experience credit.
pub open spec fn spec_sat_add_exp(exp: u32, amt: u32) -> u32 {
    if exp + amt <= u32::MAX {
        (exp + amt) as u32
    } else {
        u32::MAX
    }
}

/// The store change and reply of an experience-gain step: the clamped
/// gain is credited and immediately settled into levels.
pub open spec fn step_exp_effect(
    pre: Database,
    post: Database,
    uuid: u128,
    sample: i64,
    r: Option<ServerEvent>,
) -> bool {
    if pre.has_player(uuid) {
        let amt = spec_clamp_exp(sample);
        let credited = spec_sat_add_exp(pre.player_at(uuid).exp, amt);
        let settled = spec_apply_experience(pre.player_at(uuid).level as nat, credited as nat);
        &&& r == Some(ServerEvent::GainExp(amt))
        &&& Database::player_updated(
            pre,
            post,
            uuid,
            PlayerRecord {
                level: settled.0 as u32,
                exp: settled.1 as u32,
                ..pre.player_at(uuid)
            },
        )
    } else {
        r is None && post == pre
    }
}

/// Resolve an experience-gain step for the rounded sample drawn by the
/// caller: clamp it to the 2 to 10 range, credit it, settle level-ups,
/// and reply with the gained amount.
pub fn dispatch_step_exp(db: &mut Database, uuid: &u128, exp_sample: i64) -> (r: Option<
    ServerEvent,
>)
    requires
        old(db).wf(),
    ensures
        final(db).wf(),
        step_exp_effect(*old(db), *final(db), *uuid, exp_sample, r),
{
    let amt = clamp_exp(exp_sample);
    let ghost pre = *db;
    if !db.add_player_exp(uuid, amt) {
        return None;
    }
    let ghost mid = *db;
    let settled = db.check_levelup(uuid);
    proof {
        assert(settled);
        assert(mid.player_at(*uuid).exp == spec_sat_add_exp(pre.player_at(*uuid).exp, amt));
    }
    Some(ServerEvent::GainExp(amt))
}

/// The store change and reply of an item-discovery step: the generated
/// item is recorded for the player and announced.
pub open spec fn step_item_effect(
    pre: Database,
    post: Database,
    item: Item,
    r: Option<ServerEvent>,
) -> bool {
    if !pre.has_item(item.uuid) {
        &&& post.items@ == pre.items@.push(item)
        &&& post.players@ == pre.players@
        &&& (r matches Some(ev) && ev@ == ServerEventV::FindItem(spec_item_data(item)))
    } else {
        r is None && post == pre
    }
}

/// Record a found item and build the announcement carrying its view.
pub fn dispatch_step_item(db: &mut Database, item: &Item) -> (r: Option<ServerEvent>)
    requires
        old(db).wf(),
    ensures
        final(db).wf(),
        step_item_effect(*old(db), *final(db), *item, r),
{
    if !db.new_item(item) {
        return None;
    }
    Some(ServerEvent::FindItem(item.as_data()))
}

/// The reply to an inventory request: every item the player owns, in
/// store order, as wire views.
pub open spec fn inventory_reply(db: Database, uuid: u128, r: ServerEvent) -> bool {
    match r {
        ServerEvent::Inventory(items) => items.deep_view() == db.owned_by(uuid).map_values(
            |it: Item| spec_item_data(it),
        ),
        _ => false,
    }
}

/// Answer an inventory request with the player's items.
pub fn dispatch_open_inv(db: &Database, uuid: &u128) -> (r: ServerEvent)
    requires
        db.wf(),
    ensures
        inventory_reply(*db, *uuid, r),
{
    let owned = db.get_player_items(uuid);
    let mut data: Vec<ItemData> = Vec::new();
    let mut i: usize = 0;
    proof {
        assert(data.deep_view() =~= owned@.take(0).map_values(|it: Item| spec_item_data(it)));
    }
    while i < owned.len()
        invariant
            i <= owned@.len(),
            data.deep_view() == owned@.take(i as int).map_values(|it: Item| spec_item_data(it)),
        decreases owned@.len() - i,
    {
        let ghost prev = data.deep_view();
        let d = owned[i].as_data();
        proof {
            assert(d@ == spec_item_data(owned@[i as int]));
        }
        data.push(d);
        proof {
            assert(data.deep_view() =~= prev.push(d@));
            assert(owned@.take(i as int + 1).map_values(|it: Item| spec_item_data(it)) =~= owned@.take(
                i as int,
            ).map_values(|it: Item| spec_item_data(it)).push(spec_item_data(owned@[i as int])));
        }
        i = i + 1;
    }
    proof {
        assert(owned@.take(owned@.len() as int) =~= owned@);
    }
    ServerEvent::Inventory(data)
}

/// The reply to a drop request, and the store change when it succeeds.
/// An unknown name is answered with a notice and changes nothing; a name
/// owned by another player is refused with a notice and changes nothing;
/// the player's own item is deleted for good and the drop is confirmed.
pub open spec fn drop_item_reply(
    pre: Database,
    post: Database,
    uuid: u128,
    name: Seq<char>,
    r: ServerEvent,
) -> bool {
    match r {
        ServerEvent::Event(m) => {
            ||| (m@ == "The item you requested to drop does not exist!"@ && post == pre && (forall|
                k: int,
            |
                0 <= k < pre.items@.len() ==> (#[trigger] pre.items@[k]).name@ != name))
            ||| (m@ == "You can only drop items that are in your inventory!"@ && post == pre
                && exists|u: u128|
                #![auto]
                pre.has_item(u) && pre.item_at(u).name@ == name && pre.item_at(u).owner != uuid)
            ||| (m@ == "You dropped your '"@ + name + "'"@ && exists|u: u128|
                #![auto]
                {
                    &&& pre.has_item(u)
                    &&& pre.item_at(u).name@ == name
                    &&& pre.item_at(u).owner == uuid
                    &&& post.players@ == pre.players@
                    &&& post.items@.len() == pre.items@.len() - 1
                    &&& !post.has_item(u)
                    &&& forall|v: u128| v != u ==> post.has_item(v) == pre.has_item(v)
                    &&& forall|v: u128|
                        v != u && pre.has_item(v) ==> post.item_at(v) == pre.item_at(v)
                })
        },
        _ => false,
    }
}

/// Resolve a drop request. Ownership is checked against the stored
/// owner identity, never against anything the client sent, and the store
/// is queried structurally, so the name needs no escaping; failures are
/// non-fatal notices and the session continues.
pub fn dispatch_drop_item(db: &mut Database, uuid: &u128, item_name: &String) -> (r: ServerEvent)
    requires
        old(db).wf(),
    ensures
        final(db).wf(),
        drop_item_reply(*old(db), *final(db), *uuid, item_name@, r),
{
    let item_uuid = match db.item_uuid_from_name(item_name) {
        Some(u) => u,
        None => {
            return ServerEvent::Event(
                String::from_str("The item you requested to drop does not exist!"),
            );
        },
    };
    let owner = match db.get_item_owner(&item_uuid) {
        Some(o) => o,
        None => {
            return ServerEvent::Event(
                String::from_str("The item you requested to drop does not exist!"),
            );
        },
    };
    if owner != *uuid {
        return ServerEvent::Event(
            String::from_str("You can only drop items that are in your inventory!"),
        );
    }
    let item = match db.get_item(&item_uuid) {
        Some(it) => it,
        None => {
            return ServerEvent::Event(
                String::from_str("The item you requested to drop does not exist!"),
            );
        },
    };
    let dropped = db.drop_item(&item);
    proof {
        assert(dropped);
    }
    ServerEvent::Event(
        String::from_str("You dropped your '").concat(item_name.as_str()).concat("'"),
    )
}

/// The reply to an inspect request: the item's detail view if the player
/// owns an item of that name, a notice otherwise; the store never
/// changes.
pub open spec fn inspect_item_reply(db: Database, uuid: u128, name: Seq<char>, r: ServerEvent) -> bool {
    match r {
        ServerEvent::Event(m) => {
            ||| (m@ == "The item you requested to view does not exist!"@ && (forall|k: int|
                0 <= k < db.items@.len() ==> (#[trigger] db.items@[k]).name@ != name))
            ||| (m@ == "You can currently only view items in your inventory!"@ && exists|u: u128|
                #![auto]
                db.has_item(u) && db.item_at(u).name@ == name && db.item_at(u).owner != uuid)
        },
        ServerEvent::ItemView(d) => exists|u: u128|
            #![auto]
            {
                &&& db.has_item(u)
                &&& db.item_at(u).name@ == name
                &&& db.item_at(u).owner == uuid
                &&& d@ == spec_item_data(db.item_at(u))
            },
        _ => false,
    }
}

/// Resolve an inspect request, with the same ownership discipline as a
/// drop and no store change.
pub fn dispatch_inspect_item(db: &Database, uuid: &u128, item_name: &String) -> (r: ServerEvent)
    requires
        db.wf(),
    ensures
        inspect_item_reply(*db, *uuid, item_name@, r),
{
    let item_uuid = match db.item_uuid_from_name(item_name) {
        Some(u) => u,
        None => {
            return ServerEvent::Event(
                String::from_str("The item you requested to view does not exist!"),
            );
        },
    };
    let owner = match db.get_item_owner(&item_uuid) {
        Some(o) => o,
        None => {
            return ServerEvent::Event(
                String::from_str("The item you requested to view does not exist!"),
            );
        },
    };
    if owner != *uuid {
        return ServerEvent::Event(
            String::from_str("You can currently only view items in your inventory!"),
        );
    }
    let item = match db.get_item(&item_uuid) {
        Some(it) => it,
        None => {
            return ServerEvent::Event(
                String::from_str("The item you requested to view does not exist!"),
            );
        },
    };
    ServerEvent::ItemView(item.as_data())
}

} // verus!
